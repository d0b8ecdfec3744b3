//! The choice of the image to download from one directory of a site.
//!
//! The choice needs three answers from outside: the listing of the
//! directory, the body of a checksum file and what the history knows. It
//! is therefore written as a machine: each step takes the answer to what
//! the step before asked for, and says what to ask for next.

use crate::checksums::{
    are_all_checksums_in_one_file, checksum_in_buffer, is_aggregate_checksum_filename, CheckSums,
    CheckSumsView,
};
use crate::cloud_image::{verification_result, CloudImage, CloudImageView, Verification};
use crate::image_history::{
    history_after, image_in_rows, record_of, rows_view, HistoryRecord, HistoryRecordView,
};
use crate::listing::{
    entries_view, first_newest, is_first_newest, lemma_first_newest_exists,
    lemma_first_newest_unique, none_kept, DirEntry, DirEntryView, EntryKind,
};
use crate::pattern::{compiles, matches_name, regex_compiles, regex_matches};
use crate::text::{concat2, concat3, contains, contains_text, opt_view};
use crate::timestamp::Timestamp;
use crate::website::{listing_view, Url, UrlView, WebSite, WebSiteView};
use vstd::prelude::*;

verus! {

/// What a per-image checksum file is called after its image.
pub const PER_FILE_SUFFIX: &'static str = ".SHA256SUM";

/// Where the digest of the chosen image is published.
#[derive(PartialEq, Eq, Debug)]
pub enum ChecksumSource {
    /// In the file of this name, which holds the digests of the whole
    /// directory.
    Aggregate(String),
    /// In a file of its own, named after the image.
    PerFile,
    /// Nowhere.
    Absent,
}

/// The mathematical value of a [`ChecksumSource`].
pub enum ChecksumSourceView {
    Aggregate(Seq<char>),
    PerFile,
    Absent,
}

impl View for ChecksumSource {
    type V = ChecksumSourceView;

    open spec fn view(&self) -> ChecksumSourceView {
        match self {
            ChecksumSource::Aggregate(file) => ChecksumSourceView::Aggregate(file@),
            ChecksumSource::PerFile => ChecksumSourceView::PerFile,
            ChecksumSource::Absent => ChecksumSourceView::Absent,
        }
    }
}

/// Why a directory gives no image to download.
#[derive(Clone, Copy, Debug, PartialEq, Eq, Structural)]
pub enum SkipReason {
    /// The listing of the directory could not be had.
    ListingUnavailable,
    /// The site's expression for image names does not compile.
    BadFilter,
    /// No file of the directory is an image of the site.
    NoImage,
    /// The newest image carries no date that exists.
    NoDate,
    /// The history knows the image.
    AlreadyDownloaded,
    /// The answer is not the one that the step before asked for.
    OutOfTurn,
}

/// How far the choice has come.
#[derive(Debug)]
pub enum SelectorState {
    /// The listing of the directory is awaited.
    AwaitListing,
    /// An image is chosen; the body of its checksum file is awaited.
    AwaitChecksum { name: String, date: Timestamp, source: ChecksumSource },
    /// The image is described in full; the history's answer is awaited.
    AwaitHistory(CloudImage),
    /// The choice is over.
    Done,
}

/// The mathematical value of a [`SelectorState`].
pub enum SelectorStateView {
    AwaitListing,
    AwaitChecksum { name: Seq<char>, date: Timestamp, source: ChecksumSourceView },
    AwaitHistory(CloudImageView),
    Done,
}

impl View for SelectorState {
    type V = SelectorStateView;

    open spec fn view(&self) -> SelectorStateView {
        match self {
            SelectorState::AwaitListing => SelectorStateView::AwaitListing,
            SelectorState::AwaitChecksum { name, date, source } => SelectorStateView::AwaitChecksum {
                name: name@,
                date: *date,
                source: source@,
            },
            SelectorState::AwaitHistory(image) => SelectorStateView::AwaitHistory(image@),
            SelectorState::Done => SelectorStateView::Done,
        }
    }
}

/// An answer from outside.
#[derive(Debug)]
pub enum SelectorEvent {
    /// The entries listed in the directory, or `None` where the listing
    /// could not be had.
    Listing(Option<Vec<DirEntry>>),
    /// The body of the checksum file, or `None` where it could not be had.
    Checksum(Option<String>),
    /// The rows that the history returned for the image; none where the
    /// query failed.
    History(Vec<Option<HistoryRecord>>),
}

/// The mathematical value of a [`SelectorEvent`].
pub enum SelectorEventView {
    Listing(Option<Seq<DirEntryView>>),
    Checksum(Option<Seq<char>>),
    History(Seq<Option<HistoryRecordView>>),
}

impl View for SelectorEvent {
    type V = SelectorEventView;

    open spec fn view(&self) -> SelectorEventView {
        match self {
            SelectorEvent::Listing(listing) => SelectorEventView::Listing(listing_view(*listing)),
            SelectorEvent::Checksum(body) => SelectorEventView::Checksum(opt_view(*body)),
            SelectorEvent::History(rows) => SelectorEventView::History(rows_view(rows@)),
        }
    }
}

/// What a step asks of the outside, or what the choice ends with.
#[derive(Debug)]
pub enum SelectorAction {
    /// Fetch the body at this address and answer with
    /// [`SelectorEvent::Checksum`].
    FetchChecksum(String),
    /// Ask the history for this row and answer with
    /// [`SelectorEvent::History`].
    QueryHistory(HistoryRecord),
    /// The choice ends with this image to download.
    Emit(CloudImage),
    /// The choice ends without image.
    Skip(SkipReason),
}

/// The mathematical value of a [`SelectorAction`].
pub enum SelectorActionView {
    FetchChecksum(Seq<char>),
    QueryHistory(HistoryRecordView),
    Emit(CloudImageView),
    Skip(SkipReason),
}

impl View for SelectorAction {
    type V = SelectorActionView;

    open spec fn view(&self) -> SelectorActionView {
        match self {
            SelectorAction::FetchChecksum(address) => SelectorActionView::FetchChecksum(address@),
            SelectorAction::QueryHistory(row) => SelectorActionView::QueryHistory(row@),
            SelectorAction::Emit(image) => SelectorActionView::Emit(image@),
            SelectorAction::Skip(reason) => SelectorActionView::Skip(*reason),
        }
    }
}

/// The regular expression `pattern` compiles and matches `name`.
pub open spec fn strikes(pattern: Seq<char>, name: Seq<char>) -> bool {
    regex_compiles(pattern) && regex_matches(pattern, name)
}

/// One of the expressions of `list` strikes `name` out.
pub open spec fn struck_by(list: Seq<Seq<char>>, name: Seq<char>) -> bool {
    exists|k: int| 0 <= k < list.len() && #[trigger] strikes(list[k], name)
}

/// `name` is struck out by one of the expressions of `cleanse`; an
/// expression that does not compile strikes nothing out.
pub open spec fn cleansed(cleanse: Option<Seq<Seq<char>>>, name: Seq<char>) -> bool {
    match cleanse {
        None => false,
        Some(list) => struck_by(list, name),
    }
}

/// Entry `e` is a file whose name the regular expression `filter` matches.
pub open spec fn file_matches(filter: Seq<char>, e: DirEntryView) -> bool {
    e.kind == EntryKind::File && regex_compiles(filter) && regex_matches(filter, e.name)
}

/// For each entry, whether it is a file that `filter` matches.
pub open spec fn matching_files(entries: Seq<DirEntryView>, filter: Seq<char>) -> Seq<bool> {
    Seq::new(entries.len(), |i: int| file_matches(filter, entries[i]))
}

/// `keep` without the entries that `cleanse` strikes out.
pub open spec fn without_cleansed(
    entries: Seq<DirEntryView>,
    keep: Seq<bool>,
    cleanse: Option<Seq<Seq<char>>>,
) -> Seq<bool> {
    Seq::new(keep.len(), |i: int| keep[i] && !cleansed(cleanse, entries[i].name))
}

/// For each entry, whether it is an image of the site: a file whose name
/// the site's filter matches and none of its cleanse expressions.
pub open spec fn image_candidates(site: WebSiteView, entries: Seq<DirEntryView>) -> Seq<bool> {
    without_cleansed(
        entries,
        matching_files(entries, site.image_name_filter),
        site.image_name_cleanse,
    )
}

/// Index of the newest image of the site among `entries`.
pub open spec fn newest_image(site: WebSiteView, entries: Seq<DirEntryView>) -> int {
    choose|i: int| is_first_newest(entries, image_candidates(site, entries), i)
}

/// Entry `e` is a file that holds the digests of its whole directory.
pub open spec fn is_aggregate_entry(e: DirEntryView) -> bool {
    e.kind == EntryKind::File && is_aggregate_checksum_filename(e.name)
}

/// Number of files among `entries` that hold the digests of the whole
/// directory.
pub open spec fn aggregate_count(entries: Seq<DirEntryView>) -> nat
    decreases entries.len(),
{
    if entries.len() == 0 {
        0
    } else {
        aggregate_count(entries.drop_last()) + if is_aggregate_entry(entries.last()) {
            1nat
        } else {
            0nat
        }
    }
}

/// Name of the first file among `entries` that holds the digests of the
/// whole directory.
pub open spec fn first_aggregate(entries: Seq<DirEntryView>) -> Option<Seq<char>>
    decreases entries.len(),
{
    if entries.len() == 0 {
        None
    } else {
        match first_aggregate(entries.drop_last()) {
            Some(name) => Some(name),
            None => if is_aggregate_entry(entries.last()) {
                Some(entries.last().name)
            } else {
                None
            },
        }
    }
}

/// Entry `e` is a file that holds the digest of one image.
pub open spec fn is_per_file_entry(e: DirEntryView) -> bool {
    e.kind == EntryKind::File && contains(e.name, PER_FILE_SUFFIX@)
}

/// Some file among `entries` holds the digest of one image.
pub open spec fn has_per_file_checksum(entries: Seq<DirEntryView>) -> bool {
    exists|i: int| 0 <= i < entries.len() && is_per_file_entry(#[trigger] entries[i])
}

/// Where the digests of the images of a directory are published: in the
/// one file that holds them all, where there is exactly one such file;
/// else in a file for each image, where at least one such file is listed;
/// else nowhere.
pub open spec fn checksum_source(entries: Seq<DirEntryView>) -> ChecksumSourceView {
    if aggregate_count(entries) == 1 {
        ChecksumSourceView::Aggregate(first_aggregate(entries)->0)
    } else if has_per_file_checksum(entries) {
        ChecksumSourceView::PerFile
    } else {
        ChecksumSourceView::Absent
    }
}

/// The address of the file `file` in the directory at `leaf`.
pub open spec fn file_url(leaf: Seq<char>, file: Seq<char>) -> Seq<char> {
    leaf + seq!['/'] + file
}

/// The address of the checksum file to fetch for the image `name`.
pub open spec fn checksum_address(leaf: UrlView, name: Seq<char>, source: ChecksumSourceView) -> Seq<
    char,
> {
    match source {
        ChecksumSourceView::Aggregate(file) => file_url(leaf.url, file),
        _ => file_url(leaf.url, name) + PER_FILE_SUFFIX@,
    }
}

/// The digest of the image `name` according to `body`, the body of the
/// checksum file that `source` names (`None`: it could not be had).
pub open spec fn published_checksum(
    leaf: UrlView,
    name: Seq<char>,
    source: ChecksumSourceView,
    body: Option<Seq<char>>,
) -> CheckSumsView {
    match source {
        ChecksumSourceView::Aggregate(file) => checksum_in_buffer(name, body, file),
        ChecksumSourceView::PerFile => checksum_in_buffer(name, body, leaf.url),
        ChecksumSourceView::Absent => CheckSumsView::Missing,
    }
}

/// The image `name` of the directory at `leaf`, with its digest and date.
pub open spec fn described_image(
    leaf: UrlView,
    name: Seq<char>,
    date: Timestamp,
    checksum: CheckSumsView,
) -> CloudImageView {
    CloudImageView {
        url: UrlView {
            url: file_url(leaf.url, name),
            version: leaf.version,
            after_version: leaf.after_version,
        },
        name,
        checksum,
        date,
    }
}

/// The step that follows the description of an image: the history is asked
/// about it.
pub open spec fn ask_history(image: CloudImageView) -> (SelectorStateView, SelectorActionView) {
    (SelectorStateView::AwaitHistory(image), SelectorActionView::QueryHistory(record_of(image)))
}

/// The end of the choice without image.
pub open spec fn give_up(reason: SkipReason) -> (SelectorStateView, SelectorActionView) {
    (SelectorStateView::Done, SelectorActionView::Skip(reason))
}

/// The step taken when the listing of the directory arrives.
pub open spec fn on_listing(
    site: WebSiteView,
    leaf: UrlView,
    listing: Option<Seq<DirEntryView>>,
) -> (SelectorStateView, SelectorActionView) {
    match listing {
        None => give_up(SkipReason::ListingUnavailable),
        Some(entries) => {
            let keep = image_candidates(site, entries);
            let chosen = entries[newest_image(site, entries)];
            let source = checksum_source(entries);
            if !regex_compiles(site.image_name_filter) {
                give_up(SkipReason::BadFilter)
            } else if none_kept(keep) {
                give_up(SkipReason::NoImage)
            } else if !(chosen.date matches Some(date) && date.wf()) {
                give_up(SkipReason::NoDate)
            } else if source is Absent {
                ask_history(
                    described_image(leaf, chosen.name, chosen.date->0, CheckSumsView::Missing),
                )
            } else {
                (
                    SelectorStateView::AwaitChecksum {
                        name: chosen.name,
                        date: chosen.date->0,
                        source,
                    },
                    SelectorActionView::FetchChecksum(checksum_address(leaf, chosen.name, source)),
                )
            }
        },
    }
}

/// One step of the choice of the image of the directory at `leaf`.
///
/// - The listing arrives: the newest image of the site is chosen among its
///   files; the choice ends where there is none, or where it has no date.
///   Where a digest is published its file is asked for, else the history
///   is asked about the image.
/// - The body of the checksum file arrives: the image's digest is read from
///   it and the history is asked about the image.
/// - The history answers: the choice ends with the image, or without it
///   where the history knows it.
/// - An answer that was not asked for ends the choice.
pub open spec fn selector_step(
    site: WebSiteView,
    leaf: UrlView,
    state: SelectorStateView,
    event: SelectorEventView,
) -> (SelectorStateView, SelectorActionView) {
    match (state, event) {
        (SelectorStateView::AwaitListing, SelectorEventView::Listing(listing)) => on_listing(
            site,
            leaf,
            listing,
        ),
        (
            SelectorStateView::AwaitChecksum { name, date, source },
            SelectorEventView::Checksum(body),
        ) => if date.wf() {
            ask_history(
                described_image(leaf, name, date, published_checksum(leaf, name, source, body)),
            )
        } else {
            give_up(SkipReason::NoDate)
        },
        (SelectorStateView::AwaitHistory(image), SelectorEventView::History(rows)) => if !image.date.wf() {
            give_up(SkipReason::NoDate)
        } else if image_in_rows(Some(image), rows) {
            give_up(SkipReason::AlreadyDownloaded)
        } else {
            (SelectorStateView::Done, SelectorActionView::Emit(image))
        },
        _ => give_up(SkipReason::OutOfTurn),
    }
}

/// For each entry, whether it is a file that `filter` matches.
pub fn mark_files(entries: &Vec<DirEntry>, filter: &str) -> (keep: Vec<bool>)
    ensures
        keep@ == matching_files(entries_view(entries@), filter@),
{
    let mut keep: Vec<bool> = Vec::new();
    let mut i: usize = 0;
    while i < entries.len()
        invariant
            i <= entries.len(),
            keep@ == matching_files(entries_view(entries@), filter@).take(i as int),
        decreases entries.len() - i,
    {
        let e = &entries[i];
        let hit = match e.kind {
            EntryKind::File => matches_name(filter, e.name.as_str()),
            _ => false,
        };
        keep.push(hit);
        assert(keep@ == matching_files(entries_view(entries@), filter@).take(i + 1));
        i += 1;
    }
    assert(keep@ == matching_files(entries_view(entries@), filter@));
    keep
}

/// Whether one of the expressions of `cleanse` strikes `name` out.
fn is_cleansed(cleanse: &Option<Vec<String>>, name: &str) -> (r: bool)
    ensures
        r == cleansed(crate::text::opt_strings_view(*cleanse), name@),
{
    let list = match cleanse {
        Some(list) => list,
        None => {
            return false;
        },
    };
    let ghost patterns = crate::text::strings_view(list@);
    let mut k: usize = 0;
    while k < list.len()
        invariant
            k <= list.len(),
            patterns == crate::text::strings_view(list@),
            crate::text::opt_strings_view(*cleanse) == Some(patterns),
            forall|j: int| 0 <= j < k ==> !#[trigger] strikes(patterns[j], name@),
        decreases list.len() - k,
    {
        if matches_name(list[k].as_str(), name) {
            assert(strikes(patterns[k as int], name@));
            return true;
        }
        k += 1;
    }
    false
}

/// Where the digests of the images of a directory are published.
pub fn find_checksum_source(entries: &Vec<DirEntry>) -> (r: ChecksumSource)
    ensures
        r@ == checksum_source(entries_view(entries@)),
{
    let ghost all = entries_view(entries@);
    let mut count: usize = 0;
    let mut first: Option<usize> = None;
    let mut per_file: bool = false;
    let mut i: usize = 0;
    while i < entries.len()
        invariant
            i <= entries.len(),
            all == entries_view(entries@),
            count == aggregate_count(all.take(i as int)),
            count <= i,
            first is Some <==> count > 0,
            first matches Some(f) ==> f < i && first_aggregate(all.take(i as int)) == Some(
                all[f as int].name,
            ),
            first is None ==> first_aggregate(all.take(i as int)) is None,
            per_file == has_per_file_checksum(all.take(i as int)),
        decreases entries.len() - i,
    {
        let ghost before = all.take(i as int);
        let ghost after = all.take(i + 1);
        assert(after.drop_last() == before);
        assert(after.last() == all[i as int]);
        let e = &entries[i];
        let is_file = match e.kind {
            EntryKind::File => true,
            _ => false,
        };
        if is_file && are_all_checksums_in_one_file(e.name.as_str()) {
            count += 1;
            if first.is_none() {
                first = Some(i);
            }
        }
        let hit = is_file && contains_text(e.name.as_str(), PER_FILE_SUFFIX);
        proof {
            if hit {
                assert(is_per_file_entry(after[i as int]));
            }
            if has_per_file_checksum(before) {
                let w = choose|w: int| 0 <= w < before.len() && is_per_file_entry(before[w]);
                assert(is_per_file_entry(after[w]));
            }
            if has_per_file_checksum(after) && !hit {
                let w = choose|w: int| 0 <= w < after.len() && is_per_file_entry(after[w]);
                assert(w < i);
                assert(is_per_file_entry(before[w]));
            }
        }
        per_file = per_file || hit;
        i += 1;
    }
    assert(all.take(i as int) == all);
    if count == 1 {
        let f = first.unwrap();
        ChecksumSource::Aggregate(entries[f].name.clone())
    } else if per_file {
        ChecksumSource::PerFile
    } else {
        ChecksumSource::Absent
    }
}

impl WebSite {
    /// `keep` without the entries whose name one of the site's cleanse
    /// expressions matches.
    pub fn clean_httpdir_from_image_name_cleanse_regex(
        &self,
        image_list: &Vec<DirEntry>,
        keep: Vec<bool>,
    ) -> (kept: Vec<bool>)
        requires
            keep.len() == image_list.len(),
        ensures
            kept@ == without_cleansed(
                entries_view(image_list@),
                keep@,
                self@.image_name_cleanse,
            ),
    {
        let ghost goal = without_cleansed(
            entries_view(image_list@),
            keep@,
            self@.image_name_cleanse,
        );
        let mut kept: Vec<bool> = Vec::new();
        let mut i: usize = 0;
        while i < keep.len()
            invariant
                i <= keep.len(),
                keep.len() == image_list.len(),
                goal == without_cleansed(
                    entries_view(image_list@),
                    keep@,
                    self@.image_name_cleanse,
                ),
                kept@ == goal.take(i as int),
            decreases keep.len() - i,
        {
            let stays = keep[i] && !is_cleansed(
                &self.image_name_cleanse,
                image_list[i].name.as_str(),
            );
            kept.push(stays);
            assert(kept@ == goal.take(i + 1));
            i += 1;
        }
        assert(kept@ == goal);
        kept
    }

    /// One step of the choice of the image to download from the directory
    /// at `url`: takes the answer to what the step before asked for, and
    /// gives the next state with what to ask for next, or with the outcome.
    ///
    /// The choice starts in [`SelectorState::AwaitListing`], with the
    /// listing of the directory at `url` as its first answer.
    pub fn get_latest_image_to_download_from_url(
        &self,
        url: &Url,
        state: SelectorState,
        event: SelectorEvent,
    ) -> (r: (SelectorState, SelectorAction))
        ensures
            (r.0@, r.1@) == selector_step(self@, url@, state@, event@),
    {
        match (state, event) {
            (SelectorState::AwaitListing, SelectorEvent::Listing(listing)) => self.choose_image(
                url,
                &listing,
            ),
            (
                SelectorState::AwaitChecksum { name, date, source },
                SelectorEvent::Checksum(body),
            ) => {
                if !date.is_valid() {
                    return (SelectorState::Done, SelectorAction::Skip(SkipReason::NoDate));
                }
                let checksum = match &source {
                    ChecksumSource::Aggregate(file) => {
                        CheckSums::get_image_checksum_from_checksums_buffer(
                            name.as_str(),
                            &body,
                            file.as_str(),
                        )
                    },
                    ChecksumSource::PerFile => CheckSums::get_image_checksum_from_checksums_buffer(
                        name.as_str(),
                        &body,
                        url.url.as_str(),
                    ),
                    ChecksumSource::Absent => CheckSums::Missing,
                };
                describe_and_ask(url, name.as_str(), date, checksum)
            },
            (SelectorState::AwaitHistory(image), SelectorEvent::History(rows)) => {
                if !image.date.is_valid() {
                    (SelectorState::Done, SelectorAction::Skip(SkipReason::NoDate))
                } else if image.is_in_db(&rows) {
                    (SelectorState::Done, SelectorAction::Skip(SkipReason::AlreadyDownloaded))
                } else {
                    (SelectorState::Done, SelectorAction::Emit(image))
                }
            },
            _ => (SelectorState::Done, SelectorAction::Skip(SkipReason::OutOfTurn)),
        }
    }

    /// The step taken when the listing of the directory arrives.
    fn choose_image(&self, url: &Url, listing: &Option<Vec<DirEntry>>) -> (r: (
        SelectorState,
        SelectorAction,
    ))
        ensures
            (r.0@, r.1@) == on_listing(self@, url@, listing_view(*listing)),
    {
        let entries = match listing {
            Some(entries) => entries,
            None => {
                return (
                    SelectorState::Done,
                    SelectorAction::Skip(SkipReason::ListingUnavailable),
                );
            },
        };
        if !compiles(self.image_name_filter.as_str()) {
            return (SelectorState::Done, SelectorAction::Skip(SkipReason::BadFilter));
        }
        let matching = mark_files(entries, self.image_name_filter.as_str());
        let keep = self.clean_httpdir_from_image_name_cleanse_regex(entries, matching);
        let chosen = match first_newest(entries, &keep) {
            Some(chosen) => chosen,
            None => {
                return (SelectorState::Done, SelectorAction::Skip(SkipReason::NoImage));
            },
        };
        proof {
            let ev = entries_view(entries@);
            lemma_first_newest_unique(ev, keep@, chosen as int, newest_image(self@, ev));
        }
        let image = &entries[chosen];
        let date = match image.date {
            Some(date) => date,
            None => {
                return (SelectorState::Done, SelectorAction::Skip(SkipReason::NoDate));
            },
        };
        if !date.is_valid() {
            return (SelectorState::Done, SelectorAction::Skip(SkipReason::NoDate));
        }
        let source = find_checksum_source(entries);
        proof {
            reveal_strlit("/");
            assert("/"@ =~= seq!['/']);
        }
        match &source {
            ChecksumSource::Absent => describe_and_ask(
                url,
                image.name.as_str(),
                date,
                CheckSums::Missing,
            ),
            ChecksumSource::Aggregate(file) => {
                let address = concat3(url.url.as_str(), "/", file.as_str());
                (
                    SelectorState::AwaitChecksum { name: image.name.clone(), date, source },
                    SelectorAction::FetchChecksum(address),
                )
            },
            ChecksumSource::PerFile => {
                let head = concat3(url.url.as_str(), "/", image.name.as_str());
                let address = concat2(head.as_str(), PER_FILE_SUFFIX);
                (
                    SelectorState::AwaitChecksum { name: image.name.clone(), date, source },
                    SelectorAction::FetchChecksum(address),
                )
            },
        }
    }
}

/// Describes the image `name` of the directory at `leaf` and asks the
/// history about it.
fn describe_and_ask(leaf: &Url, name: &str, date: Timestamp, checksum: CheckSums) -> (r: (
    SelectorState,
    SelectorAction,
))
    requires
        date.wf(),
    ensures
        (r.0@, r.1@) == ask_history(described_image(leaf@, name@, date, checksum@)),
{
    proof {
        reveal_strlit("/");
        assert("/"@ =~= seq!['/']);
    }
    let address = Url::new(
        concat3(leaf.url.as_str(), "/", name),
        crate::text::clone_opt(&leaf.version),
        crate::text::clone_opt(&leaf.after_version),
    );
    let image = CloudImage::new(address, checksum, name.to_owned(), date);
    let row = HistoryRecord::new(&image);
    (SelectorState::AwaitHistory(image), SelectorAction::QueryHistory(row))
}

/// Number of images that the choice ends with when it starts in `state`
/// and receives `events` one after the other.
pub open spec fn emitted_count(
    site: WebSiteView,
    leaf: UrlView,
    state: SelectorStateView,
    events: Seq<SelectorEventView>,
) -> nat
    decreases events.len(),
{
    if events.len() == 0 {
        0
    } else {
        let step = selector_step(site, leaf, state, events[0]);
        let here: nat = if step.1 is Emit {
            1
        } else {
            0
        };
        here + emitted_count(site, leaf, step.0, events.drop_first())
    }
}

/// The history answers about `image` as its rows are: it shows the image
/// known when, and only when, it holds the image's row.
pub open spec fn answer_is_faithful(
    history: Set<HistoryRecordView>,
    image: CloudImageView,
    rows: Seq<Option<HistoryRecordView>>,
) -> bool {
    image_in_rows(Some(image), rows) == history.contains(record_of(image))
}

/// A step ends the choice with an image only when the history was asked
/// about that image and did not show it known; the choice is then over.
pub proof fn lemma_emit_follows_history(
    site: WebSiteView,
    leaf: UrlView,
    state: SelectorStateView,
    event: SelectorEventView,
)
    ensures
        selector_step(site, leaf, state, event).1 matches SelectorActionView::Emit(image) ==> {
            &&& state == SelectorStateView::AwaitHistory(image)
            &&& event matches SelectorEventView::History(rows) && !image_in_rows(Some(image), rows)
            &&& selector_step(site, leaf, state, event).0 == SelectorStateView::Done
        },
{
}

/// Once the choice is over no answer brings an image.
pub proof fn lemma_done_emits_nothing(
    site: WebSiteView,
    leaf: UrlView,
    events: Seq<SelectorEventView>,
)
    ensures
        emitted_count(site, leaf, SelectorStateView::Done, events) == 0,
    decreases events.len(),
{
    if events.len() > 0 {
        lemma_done_emits_nothing(site, leaf, events.drop_first());
    }
}

/// Whatever the answers, and from whatever state, the choice ends with one
/// image at most.
pub proof fn lemma_at_most_one_image_from(
    site: WebSiteView,
    leaf: UrlView,
    state: SelectorStateView,
    events: Seq<SelectorEventView>,
)
    ensures
        emitted_count(site, leaf, state, events) <= 1,
    decreases events.len(),
{
    if events.len() > 0 {
        let step = selector_step(site, leaf, state, events[0]);
        lemma_emit_follows_history(site, leaf, state, events[0]);
        if step.1 is Emit {
            lemma_done_emits_nothing(site, leaf, events.drop_first());
        } else {
            lemma_at_most_one_image_from(site, leaf, step.0, events.drop_first());
        }
    }
}

/// One directory gives one image at most: whatever answers the choice
/// receives from its start on, it ends with an image once at most.
pub proof fn lemma_at_most_one_image(
    site: WebSiteView,
    leaf: UrlView,
    events: Seq<SelectorEventView>,
)
    ensures
        emitted_count(site, leaf, SelectorStateView::AwaitListing, events) <= 1,
{
    lemma_at_most_one_image_from(site, leaf, SelectorStateView::AwaitListing, events);
}

/// An image that the history holds is not handed to the downloader: where
/// the history answers faithfully and holds the image's row, the choice
/// ends without the image.
pub proof fn lemma_known_image_is_not_emitted(
    site: WebSiteView,
    leaf: UrlView,
    image: CloudImageView,
    history: Set<HistoryRecordView>,
    rows: Seq<Option<HistoryRecordView>>,
)
    requires
        history.contains(record_of(image)),
        answer_is_faithful(history, image, rows),
    ensures
        !(selector_step(
            site,
            leaf,
            SelectorStateView::AwaitHistory(image),
            SelectorEventView::History(rows),
        ).1 is Emit),
{
}

/// A second run right after a first one downloads nothing again: an image
/// whose file the first run verified and wrote to the history is, on the
/// same listing and with a history that answers faithfully, not chosen a
/// second time.
pub proof fn lemma_second_run_emits_nothing(
    site: WebSiteView,
    leaf: UrlView,
    image: CloudImageView,
    content: Seq<u8>,
    history: Set<HistoryRecordView>,
    rows: Seq<Option<HistoryRecordView>>,
)
    requires
        verification_result(image.checksum, Some(content)) == Verification::Verified,
        answer_is_faithful(
            history_after(history, image, verification_result(image.checksum, Some(content))),
            image,
            rows,
        ),
    ensures
        !(selector_step(
            site,
            leaf,
            SelectorStateView::AwaitHistory(image),
            SelectorEventView::History(rows),
        ).1 is Emit),
{
}

/// `name` and `date` are those of an image of the site among `entries`: of
/// a file whose name the site's filter matches and none of its cleanse
/// expressions, and whose date exists.
pub open spec fn is_image_of_site(
    site: WebSiteView,
    entries: Seq<DirEntryView>,
    name: Seq<char>,
    date: Timestamp,
) -> bool {
    exists|i: int|
        0 <= i < entries.len() && (#[trigger] entries[i]).name == name && entries[i].date == Some(
            date,
        ) && file_matches(site.image_name_filter, entries[i]) && !cleansed(
            site.image_name_cleanse,
            name,
        ) && date.wf()
}

/// The image that a listing leads to is an image of the site, and none of
/// the site's images in the listing is newer.
pub proof fn lemma_chosen_image_is_of_site(
    site: WebSiteView,
    leaf: UrlView,
    entries: Seq<DirEntryView>,
)
    ensures
        match on_listing(site, leaf, Some(entries)).0 {
            SelectorStateView::AwaitHistory(image) => is_image_of_site(
                site,
                entries,
                image.name,
                image.date,
            ),
            SelectorStateView::AwaitChecksum { name, date, source } => is_image_of_site(
                site,
                entries,
                name,
                date,
            ),
            _ => true,
        },
{
    let keep = image_candidates(site, entries);
    if regex_compiles(site.image_name_filter) && !none_kept(keep) {
        lemma_first_newest_exists(entries, keep);
        let i = newest_image(site, entries);
        assert(is_first_newest(entries, keep, i));
        assert(keep[i]);
    }
}

} // verus!
