//! What to download and where to, and what the downloader's report means.

use crate::cloud_image::{CloudImage, CloudImageView};
use crate::text::{
    append_chars, concat2, concat3, copy_range, from_chars, has_char, last_index_of,
    lemma_last_index_of, opt_view, same_text, to_chars,
};
use crate::timestamp::Timestamp;
use crate::website::{lists_view, WSImageList, WSImageListView};
use crate::CONCURRENT_REQUESTS;
use vstd::prelude::*;

verus! {

/// How often a failed download is tried again.
pub const DOWNLOAD_RETRIES: u32 = 3;

/// One file to download.
#[derive(Clone, Debug, PartialEq, Eq)]
pub struct Download {
    /// The address of the file, in the form that parsing it gives.
    pub url: String,
    /// The path that the file is written to.
    pub filename: String,
}

/// The mathematical value of a [`Download`].
pub struct DownloadView {
    pub url: Seq<char>,
    pub filename: Seq<char>,
}

impl View for Download {
    type V = DownloadView;

    open spec fn view(&self) -> DownloadView {
        DownloadView { url: self.url@, filename: self.filename@ }
    }
}

/// How a download ended.
#[derive(Clone, Debug, PartialEq, Eq)]
pub enum Status {
    Fail(String),
    NotStarted,
    Skipped(String),
    Success,
}

/// The mathematical value of a [`Status`].
pub enum StatusView {
    Fail(Seq<char>),
    NotStarted,
    Skipped(Seq<char>),
    Success,
}

impl View for Status {
    type V = StatusView;

    open spec fn view(&self) -> StatusView {
        match self {
            Status::Fail(reason) => StatusView::Fail(reason@),
            Status::NotStarted => StatusView::NotStarted,
            Status::Skipped(reason) => StatusView::Skipped(reason@),
            Status::Success => StatusView::Success,
        }
    }
}

/// The downloader's report on one file.
#[derive(Clone, Debug, PartialEq, Eq)]
pub struct Summary {
    pub download: Download,
    pub status: Status,
}

/// The mathematical value of a [`Summary`].
pub struct SummaryView {
    pub download: DownloadView,
    pub status: StatusView,
}

impl View for Summary {
    type V = SummaryView;

    open spec fn view(&self) -> SummaryView {
        SummaryView { download: self.download@, status: self.status@ }
    }
}

/// The values of a list of downloads.
pub open spec fn downloads_view(v: Seq<Download>) -> Seq<DownloadView> {
    Seq::new(v.len(), |i: int| v[i]@)
}

/// The values of a list of reports.
pub open spec fn summaries_view(v: Seq<Summary>) -> Seq<SummaryView> {
    Seq::new(v.len(), |i: int| v[i]@)
}

/// The form in which `url::Url::parse` gives back the address `text`, or
/// `None` where it refuses the text.
pub uninterp spec fn url_normal_form(text: Seq<char>) -> Option<Seq<char>>;

/// Parses `text` with `reqwest::Url::parse`, which is `url::Url::parse`,
/// and gives the address back as text.
///
/// Trusted: whether a text parses, and to what, depends on the text alone.
#[verifier::external_body]
pub(crate) fn parse_url(text: &str) -> (r: Option<String>)
    ensures
        opt_view(r) == url_normal_form(text@),
{
    reqwest::Url::parse(text).ok().map(String::from)
}

/// The name `name` with the day of `date` written before its extension:
/// `foo.qcow2` becomes `foo-20250710.qcow2`. A name without extension gets
/// the day at its end.
pub open spec fn normalized_name(name: Seq<char>, date: Timestamp) -> Seq<char> {
    match last_index_of(name, '.') {
        Some(dot) => name.take(dot) + seq!['-'] + date.day_text() + name.skip(dot),
        None => name + seq!['-'] + date.day_text(),
    }
}

/// The name under which the image `name` is written to disk.
pub open spec fn destination_name(name: Seq<char>, normalize: bool, date: Timestamp) -> Seq<char> {
    if normalize {
        normalized_name(name, date)
    } else {
        name
    }
}

/// The path that the image `name` is written to, in the directory
/// `destination`. With `normalize` the date must be one that exists.
pub open spec fn destination_path(
    name: Seq<char>,
    destination: Seq<char>,
    normalize: bool,
    date: Timestamp,
) -> Option<Seq<char>> {
    if normalize && !date.wf() {
        None
    } else {
        Some(destination + seq!['/'] + destination_name(name, normalize, date))
    }
}

/// The download of `image` into `destination`, where its address parses
/// and its path can be made.
pub open spec fn planned_download(
    image: CloudImageView,
    destination: Seq<char>,
    normalize: bool,
) -> Option<DownloadView> {
    match (
        destination_path(image.name, destination, normalize, image.date),
        url_normal_form(image.url.url),
    ) {
        (Some(filename), Some(url)) => Some(DownloadView { url, filename }),
        _ => None,
    }
}

/// Index of the last occurrence of `c` in `s`.
fn last_index(s: &Vec<char>, c: char) -> (r: Option<usize>)
    ensures
        r is Some <==> last_index_of(s@, c) is Some,
        r matches Some(i) ==> last_index_of(s@, c) == Some(i as int) && i < s.len() && s@[i as int]
            == c,
{
    let mut i: usize = s.len();
    assert(s@.take(i as int) == s@);
    while i > 0
        invariant
            i <= s.len(),
            last_index_of(s@, c) == last_index_of(s@.take(i as int), c),
        decreases i,
    {
        let ghost head = s@.take(i as int);
        assert(head.last() == s@[i - 1]);
        assert(head.drop_last() == s@.take(i - 1));
        if s[i - 1] == c {
            return Some(i - 1);
        }
        i -= 1;
    }
    None
}

/// The path that the image `image_name` is written to, in the directory
/// `file_destination`: `{file_destination}/{image_name}`. With `normalize`
/// the day of `image_date` is written as `YYYYMMDD` before the extension
/// of the name, or at the end of a name without extension; the path is
/// then `None` where the date is none that exists.
pub fn get_filename_destination(
    image_name: &str,
    file_destination: &str,
    normalize: bool,
    image_date: &Timestamp,
) -> (r: Option<String>)
    ensures
        opt_view(r) == destination_path(image_name@, file_destination@, normalize, *image_date),
{
    proof {
        reveal_strlit("/");
        reveal_strlit("-");
        assert("/"@ =~= seq!['/']);
        assert("-"@ =~= seq!['-']);
    }
    if !normalize {
        return Some(concat3(file_destination, "/", image_name));
    }
    if !image_date.is_valid() {
        return None;
    }
    let day = image_date.format_day();
    let name = to_chars(image_name);
    let normalized = match last_index(&name, '.') {
        Some(dot) => {
            let stem = from_chars(&copy_range(&name, 0, dot));
            let extension = from_chars(&copy_range(&name, dot, name.len()));
            assert(name@.subrange(0, dot as int) == name@.take(dot as int));
            assert(name@.subrange(dot as int, name@.len() as int) == name@.skip(dot as int));
            let head = concat3(stem.as_str(), "-", day.as_str());
            concat2(head.as_str(), extension.as_str())
        },
        None => concat3(image_name, "-", day.as_str()),
    };
    Some(concat3(file_destination, "/", normalized.as_str()))
}

/// The download of `cloud_image` into `destination`, where its address
/// parses and its path can be made.
pub fn plan_download(cloud_image: &CloudImage, destination: &str, normalize: bool) -> (r: Option<
    Download,
>)
    ensures
        (match r {
            Some(d) => Some(d@),
            None => None,
        }) == planned_download(cloud_image@, destination@, normalize),
{
    let filename = match get_filename_destination(
        cloud_image.name.as_str(),
        destination,
        normalize,
        &cloud_image.date,
    ) {
        Some(filename) => filename,
        None => {
            return None;
        },
    };
    match parse_url(cloud_image.url.url.as_str()) {
        Some(url) => Some(Download { url, filename }),
        None => None,
    }
}

/// What the downloader is asked to do.
#[derive(Debug)]
pub struct DownloadPlan {
    /// The files to download, in the order of the sites and of their
    /// images.
    pub downloads: Vec<Download>,
    /// Number of downloads made at a time.
    pub concurrent_downloads: usize,
    /// How often a failed download is tried again.
    pub retries: u32,
    /// The `User-Agent` of every request.
    pub user_agent: String,
    /// Whether progress bars are left out.
    pub hidden: bool,
}

/// The downloads of the first `n` images of a site whose directory is
/// there.
pub open spec fn downloads_of_site(list: WSImageListView, n: nat) -> Seq<DownloadView>
    decreases n,
{
    if n == 0 {
        Seq::empty()
    } else {
        let before = downloads_of_site(list, (n - 1) as nat);
        match planned_download(
            list.images_list[n - 1],
            list.website.destination,
            crate::website::normalize_flag(list.website.normalize),
        ) {
            Some(d) => before.push(d),
            None => before,
        }
    }
}

/// Whether the destination directory of the site of index `k` is there; a
/// site that nothing is said of counts as one whose directory is missing.
pub open spec fn ready_at(directory_ready: Seq<bool>, k: int) -> bool {
    0 <= k < directory_ready.len() && directory_ready[k]
}

/// The downloads of the first `n` sites: those of every image whose site
/// has its directory, whose address parses and whose path can be made.
pub open spec fn downloads_upto(
    lists: Seq<WSImageListView>,
    directory_ready: Seq<bool>,
    n: nat,
) -> Seq<DownloadView>
    decreases n,
{
    if n == 0 {
        Seq::empty()
    } else {
        let before = downloads_upto(lists, directory_ready, (n - 1) as nat);
        if ready_at(directory_ready, n - 1) {
            before + downloads_of_site(lists[n - 1], lists[n - 1].images_list.len())
        } else {
            before
        }
    }
}

/// The number of downloads made at a time when `asked` are asked for: that
/// number, or the default where it is zero.
pub open spec fn effective_concurrency(asked: usize) -> usize {
    if asked > 0 {
        asked
    } else {
        CONCURRENT_REQUESTS
    }
}

/// What the downloader is asked to do for the images of all sites.
///
/// `directory_ready` tells for each site in turn whether its destination
/// directory is there, after an attempt to create it; the images of a site
/// without directory are dropped, as are those whose address does not
/// parse. `version` is the program's version.
pub fn download_images(
    all_ws_image_lists: &Vec<WSImageList>,
    directory_ready: &Vec<bool>,
    silent: bool,
    concurrent_download: usize,
    version: &str,
) -> (plan: DownloadPlan)
    ensures
        downloads_view(plan.downloads@) == downloads_upto(
            lists_view(all_ws_image_lists@),
            directory_ready@,
            all_ws_image_lists@.len(),
        ),
        plan.concurrent_downloads == effective_concurrency(concurrent_download),
        plan.retries == DOWNLOAD_RETRIES,
        plan.user_agent@ == "cid/"@ + version@,
        plan.hidden == silent,
{
    let ghost lists = lists_view(all_ws_image_lists@);
    let mut downloads: Vec<Download> = Vec::new();
    let mut k: usize = 0;
    assert(downloads_view(downloads@) =~= Seq::<DownloadView>::empty());
    while k < all_ws_image_lists.len()
        invariant
            k <= all_ws_image_lists.len(),
            lists == lists_view(all_ws_image_lists@),
            downloads_view(downloads@) == downloads_upto(lists, directory_ready@, k as nat),
        decreases all_ws_image_lists.len() - k,
    {
        let ws_image = &all_ws_image_lists[k];
        let ready = k < directory_ready.len() && directory_ready[k];
        if ready {
            let ghost done = downloads_view(downloads@);
            let normalize = ws_image.website.get_normalize();
            let mut j: usize = 0;
            assert(done + Seq::<DownloadView>::empty() == done);
            while j < ws_image.images_list.len()
                invariant
                    j <= ws_image.images_list.len(),
                    ws_image@ == lists[k as int],
                    normalize == crate::website::normalize_flag(ws_image@.website.normalize),
                    downloads_view(downloads@) == done + downloads_of_site(lists[k as int], j as nat),
                decreases ws_image.images_list.len() - j,
            {
                let cloud_image = &ws_image.images_list[j];
                assert(cloud_image@ == lists[k as int].images_list[j as int]);
                match plan_download(cloud_image, ws_image.website.destination.as_str(), normalize) {
                    Some(d) => {
                        let ghost before = downloads_view(downloads@);
                        let ghost item = d@;
                        downloads.push(d);
                        assert(downloads_view(downloads@) =~= before.push(item));
                        assert(before.push(item) =~= done + downloads_of_site(
                            lists[k as int],
                            j as nat,
                        ).push(item));
                    },
                    None => {},
                }
                j += 1;
            }
        }
        k += 1;
    }
    DownloadPlan {
        downloads,
        concurrent_downloads: if concurrent_download > 0 {
            concurrent_download
        } else {
            CONCURRENT_REQUESTS
        },
        retries: DOWNLOAD_RETRIES,
        user_agent: crate::user_agent(version),
        hidden: silent,
    }
}

/// One line of the report on the downloads.
#[derive(Debug, PartialEq, Eq)]
pub struct SummaryLine {
    /// Whether the line tells of a file that is there.
    pub ok: bool,
    pub text: String,
}

/// The mathematical value of a [`SummaryLine`].
pub struct SummaryLineView {
    pub ok: bool,
    pub text: Seq<char>,
}

impl View for SummaryLine {
    type V = SummaryLineView;

    open spec fn view(&self) -> SummaryLineView {
        SummaryLineView { ok: self.ok, text: self.text@ }
    }
}

/// The values of the lines of a report.
pub open spec fn lines_view(v: Seq<SummaryLine>) -> Seq<SummaryLineView> {
    Seq::new(v.len(), |i: int| v[i]@)
}

/// The line that reports on one download.
pub open spec fn summary_line(summary: SummaryView) -> SummaryLineView {
    let url = summary.download.url;
    let filename = summary.download.filename;
    match summary.status {
        StatusView::Success => SummaryLineView {
            ok: true,
            text: "Successfully downloaded "@ + filename,
        },
        StatusView::Fail(e) => SummaryLineView {
            ok: false,
            text: "Error '"@ + e + "' while downloading "@ + url + " to "@ + filename,
        },
        StatusView::Skipped(e) => SummaryLineView {
            ok: true,
            text: "Skipped "@ + filename + " to be downloaded from "@ + url + ": '"@ + e + "' "@,
        },
        StatusView::NotStarted => SummaryLineView {
            ok: false,
            text: "Downloading "@ + url + " to "@ + filename + " has not been started"@,
        },
    }
}

/// The report on the downloads: one line for each, or nothing when
/// `silent`.
pub open spec fn summary_report(summaries: Seq<SummaryView>, silent: bool) -> Seq<SummaryLineView> {
    if silent {
        Seq::empty()
    } else {
        Seq::new(summaries.len(), |i: int| summary_line(summaries[i]))
    }
}

/// Appends the text `piece` to `buf`.
fn push_text(buf: &mut Vec<char>, piece: &str)
    ensures
        final(buf)@ == old(buf)@ + piece@,
{
    let chars = to_chars(piece);
    append_chars(buf, &chars);
}

/// The line that reports on one download.
fn report_line(summary: &Summary) -> (r: SummaryLine)
    ensures
        r@ == summary_line(summary@),
{
    let url = summary.download.url.as_str();
    let filename = summary.download.filename.as_str();
    let mut buf: Vec<char> = Vec::new();
    assert(buf@ =~= Seq::<char>::empty());
    match &summary.status {
        Status::Success => {
            push_text(&mut buf, "Successfully downloaded ");
            push_text(&mut buf, filename);
            assert(buf@ =~= "Successfully downloaded "@ + filename@);
            SummaryLine { ok: true, text: from_chars(&buf) }
        },
        Status::Fail(e) => {
            push_text(&mut buf, "Error '");
            push_text(&mut buf, e.as_str());
            push_text(&mut buf, "' while downloading ");
            push_text(&mut buf, url);
            push_text(&mut buf, " to ");
            push_text(&mut buf, filename);
            assert(buf@ =~= "Error '"@ + e@ + "' while downloading "@ + url@ + " to "@ + filename@);
            SummaryLine { ok: false, text: from_chars(&buf) }
        },
        Status::Skipped(e) => {
            push_text(&mut buf, "Skipped ");
            push_text(&mut buf, filename);
            push_text(&mut buf, " to be downloaded from ");
            push_text(&mut buf, url);
            push_text(&mut buf, ": '");
            push_text(&mut buf, e.as_str());
            push_text(&mut buf, "' ");
            assert(buf@ =~= "Skipped "@ + filename@ + " to be downloaded from "@ + url@ + ": '"@
                + e@ + "' "@);
            SummaryLine { ok: true, text: from_chars(&buf) }
        },
        Status::NotStarted => {
            push_text(&mut buf, "Downloading ");
            push_text(&mut buf, url);
            push_text(&mut buf, " to ");
            push_text(&mut buf, filename);
            push_text(&mut buf, " has not been started");
            assert(buf@ =~= "Downloading "@ + url@ + " to "@ + filename@
                + " has not been started"@);
            SummaryLine { ok: false, text: from_chars(&buf) }
        },
    }
}

/// The report on the downloads, to print line by line: one line for each
/// download, in order, or nothing when `silent`.
pub fn display_download_status_summary(downloaded_summary: &Vec<Summary>, silent: bool) -> (r: Vec<
    SummaryLine,
>)
    ensures
        lines_view(r@) == summary_report(summaries_view(downloaded_summary@), silent),
{
    let mut report: Vec<SummaryLine> = Vec::new();
    if silent {
        assert(lines_view(report@) =~= Seq::<SummaryLineView>::empty());
        return report;
    }
    let ghost goal = summary_report(summaries_view(downloaded_summary@), false);
    let mut i: usize = 0;
    while i < downloaded_summary.len()
        invariant
            i <= downloaded_summary.len(),
            goal == summary_report(summaries_view(downloaded_summary@), false),
            lines_view(report@) == goal.take(i as int),
        decreases downloaded_summary.len() - i,
    {
        let line = report_line(&downloaded_summary[i]);
        let ghost before = lines_view(report@);
        let ghost value = line@;
        report.push(line);
        assert(lines_view(report@) =~= before.push(value));
        assert(goal.take(i + 1) =~= goal.take(i as int).push(goal[i as int]));
        i += 1;
    }
    assert(goal.take(i as int) == goal);
    report
}

/// Whether a download that ended with `status` leaves a file to verify: a
/// success does, a failure or a download that never started does not, and a
/// skipped one does when `verify_skipped`.
pub open spec fn status_calls_for_verification(status: StatusView, verify_skipped: bool) -> bool {
    match status {
        StatusView::Success => true,
        StatusView::Skipped(_) => verify_skipped,
        StatusView::Fail(_) => false,
        StatusView::NotStarted => false,
    }
}

/// Whether the report shows that `download` left a file to verify: the
/// first report on it decides.
pub open spec fn reported_downloaded(
    summaries: Seq<SummaryView>,
    download: DownloadView,
    verify_skipped: bool,
) -> bool
    decreases summaries.len(),
{
    if summaries.len() == 0 {
        false
    } else if summaries[0].download == download {
        status_calls_for_verification(summaries[0].status, verify_skipped)
    } else {
        reported_downloaded(summaries.drop_first(), download, verify_skipped)
    }
}

/// Whether the downloader's report shows that `image` left a file to
/// verify in `destination`.
pub open spec fn image_downloaded(
    summaries: Seq<SummaryView>,
    image: CloudImageView,
    destination: Seq<char>,
    verify_skipped: bool,
    normalize: bool,
) -> bool {
    match planned_download(image, destination, normalize) {
        Some(download) => reported_downloaded(summaries, download, verify_skipped),
        None => false,
    }
}

/// Whether the downloader's report shows that `cloud_image` left a file
/// to verify in `destination`: the first report on that address and path
/// decides, and it does when the download succeeded, or was skipped and
/// `verify_skipped` is set.
pub fn image_has_been_downloaded(
    downloaded_summary: &Vec<Summary>,
    cloud_image: &CloudImage,
    destination: &str,
    verify_skipped: bool,
    normalize: bool,
) -> (r: bool)
    ensures
        r == image_downloaded(
            summaries_view(downloaded_summary@),
            cloud_image@,
            destination@,
            verify_skipped,
            normalize,
        ),
{
    let wanted = match plan_download(cloud_image, destination, normalize) {
        Some(wanted) => wanted,
        None => {
            return false;
        },
    };
    let ghost all = summaries_view(downloaded_summary@);
    let mut i: usize = 0;
    assert(all.skip(0) == all);
    while i < downloaded_summary.len()
        invariant
            i <= downloaded_summary.len(),
            all == summaries_view(downloaded_summary@),
            planned_download(cloud_image@, destination@, normalize) == Some(wanted@),
            reported_downloaded(all, wanted@, verify_skipped) == reported_downloaded(
                all.skip(i as int),
                wanted@,
                verify_skipped,
            ),
        decreases downloaded_summary.len() - i,
    {
        let summary = &downloaded_summary[i];
        let ghost rest = all.skip(i as int);
        assert(rest[0] == summary@);
        assert(rest.drop_first() == all.skip(i + 1));
        if same_text(summary.download.filename.as_str(), wanted.filename.as_str()) && same_text(
            summary.download.url.as_str(),
            wanted.url.as_str(),
        ) {
            return match &summary.status {
                Status::Success => true,
                Status::Skipped(_) => verify_skipped,
                Status::Fail(_) => false,
                Status::NotStarted => false,
            };
        }
        i += 1;
    }
    false
}

/// One file to verify.
#[derive(Debug, PartialEq, Eq)]
pub struct VerifyTask {
    /// Index of the site in the lists.
    pub site: usize,
    /// Index of the image in the list of its site.
    pub image: usize,
    /// The path of the file.
    pub filename: String,
}

/// The mathematical value of a [`VerifyTask`].
pub struct VerifyTaskView {
    pub site: int,
    pub image: int,
    pub filename: Seq<char>,
}

impl View for VerifyTask {
    type V = VerifyTaskView;

    open spec fn view(&self) -> VerifyTaskView {
        VerifyTaskView { site: self.site as int, image: self.image as int, filename: self.filename@ }
    }
}

/// The values of a list of tasks.
pub open spec fn tasks_view(v: Seq<VerifyTask>) -> Seq<VerifyTaskView> {
    Seq::new(v.len(), |i: int| v[i]@)
}

/// The task of verifying image `j` of site `k`, where the report shows
/// that the image left a file to verify.
pub open spec fn verify_task(
    list: WSImageListView,
    summaries: Seq<SummaryView>,
    verify_skipped: bool,
    k: int,
    j: int,
) -> Option<VerifyTaskView> {
    let normalize = crate::website::normalize_flag(list.website.normalize);
    let image = list.images_list[j];
    if image_downloaded(summaries, image, list.website.destination, verify_skipped, normalize) {
        Some(
            VerifyTaskView {
                site: k,
                image: j,
                filename: destination_path(
                    image.name,
                    list.website.destination,
                    normalize,
                    image.date,
                )->0,
            },
        )
    } else {
        None
    }
}

/// The tasks for the first `n` images of site `k`.
pub open spec fn verify_tasks_of_site(
    list: WSImageListView,
    summaries: Seq<SummaryView>,
    verify_skipped: bool,
    k: int,
    n: nat,
) -> Seq<VerifyTaskView>
    decreases n,
{
    if n == 0 {
        Seq::empty()
    } else {
        let before = verify_tasks_of_site(list, summaries, verify_skipped, k, (n - 1) as nat);
        match verify_task(list, summaries, verify_skipped, k, n - 1) {
            Some(task) => before.push(task),
            None => before,
        }
    }
}

/// The tasks for the images of the first `n` sites.
pub open spec fn verify_tasks_upto(
    lists: Seq<WSImageListView>,
    summaries: Seq<SummaryView>,
    verify_skipped: bool,
    n: nat,
) -> Seq<VerifyTaskView>
    decreases n,
{
    if n == 0 {
        Seq::empty()
    } else {
        verify_tasks_upto(lists, summaries, verify_skipped, (n - 1) as nat) + verify_tasks_of_site(
            lists[n - 1],
            summaries,
            verify_skipped,
            n - 1,
            lists[n - 1].images_list.len(),
        )
    }
}

/// The files to verify once the downloader has reported: one for each
/// image that the report shows downloaded, or skipped when
/// `verify_skipped` is set, in the order of the sites and of their images.
pub fn verify_downloaded_file(
    all_ws_image_lists: &Vec<WSImageList>,
    downloaded_summary: &Vec<Summary>,
    verify_skipped: bool,
) -> (tasks: Vec<VerifyTask>)
    ensures
        tasks_view(tasks@) == verify_tasks_upto(
            lists_view(all_ws_image_lists@),
            summaries_view(downloaded_summary@),
            verify_skipped,
            all_ws_image_lists@.len(),
        ),
{
    let ghost lists = lists_view(all_ws_image_lists@);
    let ghost summaries = summaries_view(downloaded_summary@);
    let mut tasks: Vec<VerifyTask> = Vec::new();
    let mut k: usize = 0;
    assert(tasks_view(tasks@) =~= Seq::<VerifyTaskView>::empty());
    while k < all_ws_image_lists.len()
        invariant
            k <= all_ws_image_lists.len(),
            lists == lists_view(all_ws_image_lists@),
            summaries == summaries_view(downloaded_summary@),
            tasks_view(tasks@) == verify_tasks_upto(lists, summaries, verify_skipped, k as nat),
        decreases all_ws_image_lists.len() - k,
    {
        let ws_image = &all_ws_image_lists[k];
        let ghost done = tasks_view(tasks@);
        let normalize = ws_image.website.get_normalize();
        let destination = ws_image.website.destination.as_str();
        let mut j: usize = 0;
        assert(done + Seq::<VerifyTaskView>::empty() == done);
        while j < ws_image.images_list.len()
            invariant
                j <= ws_image.images_list.len(),
                ws_image@ == lists[k as int],
                summaries == summaries_view(downloaded_summary@),
                normalize == crate::website::normalize_flag(ws_image@.website.normalize),
                destination@ == ws_image@.website.destination,
                tasks_view(tasks@) == done + verify_tasks_of_site(
                    lists[k as int],
                    summaries,
                    verify_skipped,
                    k as int,
                    j as nat,
                ),
            decreases ws_image.images_list.len() - j,
        {
            let cloud_image = &ws_image.images_list[j];
            assert(cloud_image@ == lists[k as int].images_list[j as int]);
            if image_has_been_downloaded(
                downloaded_summary,
                cloud_image,
                destination,
                verify_skipped,
                normalize,
            ) {
                match get_filename_destination(
                    cloud_image.name.as_str(),
                    destination,
                    normalize,
                    &cloud_image.date,
                ) {
                    Some(filename) => {
                        let ghost before = tasks_view(tasks@);
                        let task = VerifyTask { site: k, image: j, filename };
                        let ghost value = task@;
                        tasks.push(task);
                        assert(tasks_view(tasks@) =~= before.push(value));
                        assert(before.push(value) =~= done + verify_tasks_of_site(
                            lists[k as int],
                            summaries,
                            verify_skipped,
                            k as int,
                            j as nat,
                        ).push(value));
                    },
                    None => {},
                }
            }
            j += 1;
        }
        k += 1;
    }
    tasks
}

/// The day of a date is written in eight decimal digits.
pub proof fn lemma_day_text_is_digits(date: Timestamp)
    ensures
        date.day_text().len() == 8,
        forall|k: int| 0 <= k < 8 ==> '0' <= #[trigger] date.day_text()[k] <= '9',
{
    let t = date.day_text();
    assert(t.len() == 8);
    assert forall|k: int| 0 <= k < 8 implies '0' <= #[trigger] t[k] <= '9' by {
        let y = crate::timestamp::four_digits(date.year as int);
        let m = crate::timestamp::two_digits(date.month as int);
        let d = crate::timestamp::two_digits(date.day as int);
        if k < 4 {
            assert(t[k] == y[k]);
        } else if k < 6 {
            assert(t[k] == m[k - 4]);
        } else {
            assert(t[k] == d[k - 6]);
        }
    }
}

/// Two names with the same normalized form are the same name.
pub proof fn lemma_normalized_name_injective(
    name1: Seq<char>,
    date1: Timestamp,
    name2: Seq<char>,
    date2: Timestamp,
)
    requires
        normalized_name(name1, date1) == normalized_name(name2, date2),
    ensures
        name1 == name2,
{
    let n1 = normalized_name(name1, date1);
    let n2 = normalized_name(name2, date2);
    let d1 = date1.day_text();
    let d2 = date2.day_text();
    lemma_day_text_is_digits(date1);
    lemma_day_text_is_digits(date2);
    lemma_last_index_of(name1, '.');
    lemma_last_index_of(name2, '.');
    assert(n1.len() == name1.len() + 9);
    assert(n2.len() == name2.len() + 9);
    match (last_index_of(name1, '.'), last_index_of(name2, '.')) {
        (None, None) => {
            assert forall|k: int| 0 <= k < name1.len() implies name1[k] == name2[k] by {
                assert(n1[k] == name1[k]);
                assert(n2[k] == name2[k]);
            }
            assert(name1 =~= name2);
        },
        (Some(p), None) => {
            assert(n1[p + 9] == name1[p]);
            let k = p + 9;
            if k < name2.len() {
                assert(n2[k] == name2[k]);
            } else if k == name2.len() {
                assert(n2[k] == '-');
            } else {
                assert(n2[k] == d2[k - name2.len() - 1]);
            }
            assert(false);
        },
        (None, Some(q)) => {
            assert(n2[q + 9] == name2[q]);
            let k = q + 9;
            if k < name1.len() {
                assert(n1[k] == name1[k]);
            } else if k == name1.len() {
                assert(n1[k] == '-');
            } else {
                assert(n1[k] == d1[k - name1.len() - 1]);
            }
            assert(false);
        },
        (Some(p), Some(q)) => {
            if p < q {
                assert(n2[q + 9] == name2[q]);
                assert(n1[q + 9] == name1[q]);
                assert(false);
            }
            if q < p {
                assert(n1[p + 9] == name1[p]);
                assert(n2[p + 9] == name2[p]);
                assert(false);
            }
            assert forall|k: int| 0 <= k < name1.len() implies name1[k] == name2[k] by {
                if k < p {
                    assert(n1[k] == name1[k]);
                    assert(n2[k] == name2[k]);
                } else {
                    assert(n1[k + 9] == name1[k]);
                    assert(n2[k + 9] == name2[k]);
                }
            }
            assert(name1 =~= name2);
        },
    }
}

/// The name under which an image is written holds no `/` where the image's
/// name holds none.
pub proof fn lemma_destination_name_has_no_slash(name: Seq<char>, normalize: bool, date: Timestamp)
    requires
        !has_char(name, '/'),
    ensures
        !has_char(destination_name(name, normalize, date), '/'),
{
    let f = destination_name(name, normalize, date);
    lemma_day_text_is_digits(date);
    lemma_last_index_of(name, '.');
    let d = date.day_text();
    assert forall|k: int| 0 <= k < f.len() implies f[k] != '/' by {
        if normalize {
            match last_index_of(name, '.') {
                Some(p) => {
                    if k < p {
                        assert(f[k] == name[k]);
                    } else if k == p {
                        assert(f[k] == '-');
                    } else if k < p + 9 {
                        assert(f[k] == d[k - p - 1]);
                    } else {
                        assert(f[k] == name[k - 9]);
                    }
                },
                None => {
                    if k < name.len() {
                        assert(f[k] == name[k]);
                    } else if k == name.len() {
                        assert(f[k] == '-');
                    } else {
                        assert(f[k] == d[k - name.len() - 1]);
                    }
                },
            }
        }
    }
}

/// No two downloads of a run are written to the same path, as long as the
/// images differ by their name or by their directory: for image names
/// without `/`, and sites that agree on whether names are normalized, the
/// paths of two images are different unless the images have the same name
/// and go to the same directory.
pub proof fn lemma_distinct_images_distinct_paths(
    name1: Seq<char>,
    destination1: Seq<char>,
    date1: Timestamp,
    name2: Seq<char>,
    destination2: Seq<char>,
    date2: Timestamp,
    normalize: bool,
)
    requires
        !has_char(name1, '/'),
        !has_char(name2, '/'),
        name1 != name2 || destination1 != destination2,
        destination_path(name1, destination1, normalize, date1) is Some,
        destination_path(name2, destination2, normalize, date2) is Some,
    ensures
        destination_path(name1, destination1, normalize, date1) != destination_path(
            name2,
            destination2,
            normalize,
            date2,
        ),
{
    let f1 = destination_name(name1, normalize, date1);
    let f2 = destination_name(name2, normalize, date2);
    let left = destination_path(name1, destination1, normalize, date1)->0;
    let right = destination_path(name2, destination2, normalize, date2)->0;
    lemma_destination_name_has_no_slash(name1, normalize, date1);
    lemma_destination_name_has_no_slash(name2, normalize, date2);
    if left == right {
        let a = destination1.len() as int;
        let b = destination2.len() as int;
        assert(left == destination1 + seq!['/'] + f1);
        assert(right == destination2 + seq!['/'] + f2);
        assert(left.len() == a + 1 + f1.len());
        assert(right.len() == b + 1 + f2.len());
        assert(left[a] == '/');
        assert(right[b] == '/');
        if a < b {
            assert(left[b] == f1[b - a - 1]);
            assert(has_char(f1, '/'));
            assert(false);
        }
        if b < a {
            assert(right[a] == f2[a - b - 1]);
            assert(has_char(f2, '/'));
            assert(false);
        }
        assert(destination1 =~= left.take(a));
        assert(destination2 =~= right.take(a));
        assert(f1 =~= left.skip(a + 1));
        assert(f2 =~= right.skip(a + 1));
        if normalize {
            lemma_normalized_name_injective(name1, date1, name2, date2);
        }
        assert(false);
    }
}

/// A download that was skipped leaves a file to verify when, and only
/// when, the verification of skipped files is asked for; one that failed
/// or never started leaves none.
pub proof fn lemma_skipped_is_verified_on_request(
    summaries: Seq<SummaryView>,
    download: DownloadView,
    verify_skipped: bool,
)
    requires
        summaries.len() > 0,
        summaries[0].download == download,
    ensures
        summaries[0].status is Skipped ==> reported_downloaded(summaries, download, verify_skipped)
            == verify_skipped,
        summaries[0].status is Fail || summaries[0].status is NotStarted ==> !reported_downloaded(
            summaries,
            download,
            verify_skipped,
        ),
        summaries[0].status is Success ==> reported_downloaded(summaries, download, verify_skipped),
{
}

/// Image `j` of site `k` exists.
pub open spec fn is_image_at(lists: Seq<WSImageListView>, k: int, j: int) -> bool {
    0 <= k < lists.len() && 0 <= j < lists[k].images_list.len()
}

/// The download of image `j` of site `k`, where it can be planned.
pub open spec fn download_at(lists: Seq<WSImageListView>, k: int, j: int) -> Option<DownloadView> {
    planned_download(
        lists[k].images_list[j],
        lists[k].website.destination,
        crate::website::normalize_flag(lists[k].website.normalize),
    )
}

/// The images of the lists can be told apart by where they go: no name
/// holds a `/`, no two images have the same name and the same directory,
/// and the sites agree on whether names are normalized.
pub open spec fn images_are_told_apart(lists: Seq<WSImageListView>) -> bool {
    &&& forall|k: int, j: int| #[trigger]
        is_image_at(lists, k, j) ==> !has_char(lists[k].images_list[j].name, '/')
    &&& forall|k: int, j: int, m: int, i: int|
        #[trigger] is_image_at(lists, k, j) && #[trigger] is_image_at(lists, m, i) && (k != m || j
            != i) ==> lists[k].images_list[j].name != lists[m].images_list[i].name
            || lists[k].website.destination != lists[m].website.destination
    &&& forall|k: int, m: int|
        0 <= k < lists.len() && 0 <= m < lists.len() ==> crate::website::normalize_flag(
            (#[trigger] lists[k]).website.normalize,
        ) == crate::website::normalize_flag((#[trigger] lists[m]).website.normalize)
}

/// Two different images that can be told apart are written to different
/// paths.
proof fn lemma_told_apart(lists: Seq<WSImageListView>, k: int, j: int, m: int, i: int)
    requires
        images_are_told_apart(lists),
        is_image_at(lists, k, j),
        is_image_at(lists, m, i),
        k != m || j != i,
        download_at(lists, k, j) is Some,
        download_at(lists, m, i) is Some,
    ensures
        download_at(lists, k, j)->0.filename != download_at(lists, m, i)->0.filename,
{
    let a = lists[k].images_list[j];
    let b = lists[m].images_list[i];
    assert(crate::website::normalize_flag(lists[k].website.normalize)
        == crate::website::normalize_flag(lists[m].website.normalize));
    lemma_distinct_images_distinct_paths(
        a.name,
        lists[k].website.destination,
        a.date,
        b.name,
        lists[m].website.destination,
        b.date,
        crate::website::normalize_flag(lists[k].website.normalize),
    );
}

/// Every download of a site is that of one of its images, and later
/// downloads are those of later images.
proof fn lemma_downloads_of_site(lists: Seq<WSImageListView>, k: int, n: nat) -> (origin: Seq<int>)
    requires
        0 <= k < lists.len(),
        n <= lists[k].images_list.len(),
    ensures
        origin.len() == downloads_of_site(lists[k], n).len(),
        forall|a: int|
            0 <= a < origin.len() ==> 0 <= #[trigger] origin[a] < n && download_at(
                lists,
                k,
                origin[a],
            ) == Some(downloads_of_site(lists[k], n)[a]),
        forall|a: int, b: int| 0 <= a < b < origin.len() ==> origin[a] < origin[b],
    decreases n,
{
    if n == 0 {
        Seq::empty()
    } else {
        let before = lemma_downloads_of_site(lists, k, (n - 1) as nat);
        match download_at(lists, k, n - 1) {
            Some(d) => before.push(n - 1),
            None => before,
        }
    }
}

/// `item` is the download of an image of one of the first `n` sites.
pub open spec fn has_origin(lists: Seq<WSImageListView>, item: DownloadView, n: int) -> bool {
    exists|k: int, j: int| #[trigger]
        is_image_at(lists, k, j) && k < n && download_at(lists, k, j) == Some(item)
}

/// Every download of the first `n` sites is that of one of their images,
/// and no two of them are written to the same path.
proof fn lemma_downloads_upto(lists: Seq<WSImageListView>, directory_ready: Seq<bool>, n: nat)
    requires
        n <= lists.len(),
        images_are_told_apart(lists),
    ensures
        forall|a: int|
            0 <= a < downloads_upto(lists, directory_ready, n).len() ==> has_origin(
                lists,
                #[trigger] downloads_upto(lists, directory_ready, n)[a],
                n as int,
            ),
        forall|a: int, b: int|
            0 <= a < b < downloads_upto(lists, directory_ready, n).len() ==> (
            #[trigger] downloads_upto(lists, directory_ready, n)[a]).filename != (
            #[trigger] downloads_upto(lists, directory_ready, n)[b]).filename,
    decreases n,
{
    if n > 0 {
        let k = n - 1;
        let plan = downloads_upto(lists, directory_ready, n);
        let before = downloads_upto(lists, directory_ready, (n - 1) as nat);
        lemma_downloads_upto(lists, directory_ready, (n - 1) as nat);
        if ready_at(directory_ready, k) {
            let here = downloads_of_site(lists[k], lists[k].images_list.len());
            let origin = lemma_downloads_of_site(lists, k, lists[k].images_list.len());
            assert(plan == before + here);
            assert forall|a: int| 0 <= a < plan.len() implies has_origin(
                lists,
                #[trigger] plan[a],
                n as int,
            ) by {
                if a < before.len() {
                    assert(has_origin(lists, before[a], n - 1));
                    let (m, j) = choose|m: int, j: int|
                        #[trigger] is_image_at(lists, m, j) && m < n - 1 && download_at(
                            lists,
                            m,
                            j,
                        ) == Some(before[a]);
                    assert(is_image_at(lists, m, j) && m < n && download_at(lists, m, j) == Some(
                        plan[a],
                    ));
                } else {
                    let j = origin[a - before.len()];
                    assert(is_image_at(lists, k, j) && k < n && download_at(lists, k, j) == Some(
                        plan[a],
                    ));
                }
            }
            assert forall|a: int, b: int| 0 <= a < b < plan.len() implies (#[trigger] plan[a]).filename
                != (#[trigger] plan[b]).filename by {
                if b < before.len() {
                    assert(before[a].filename != before[b].filename);
                } else if a < before.len() {
                    assert(has_origin(lists, before[a], n - 1));
                    let (m, j) = choose|m: int, j: int|
                        #[trigger] is_image_at(lists, m, j) && m < n - 1 && download_at(
                            lists,
                            m,
                            j,
                        ) == Some(before[a]);
                    let i = origin[b - before.len()];
                    assert(is_image_at(lists, k, i));
                    lemma_told_apart(lists, m, j, k, i);
                } else {
                    let j = origin[a - before.len()];
                    let i = origin[b - before.len()];
                    assert(is_image_at(lists, k, j));
                    assert(is_image_at(lists, k, i));
                    lemma_told_apart(lists, k, j, k, i);
                }
            }
        } else {
            assert(plan == before);
            assert forall|a: int| 0 <= a < plan.len() implies has_origin(
                lists,
                #[trigger] plan[a],
                n as int,
            ) by {
                assert(has_origin(lists, before[a], n - 1));
                let (m, j) = choose|m: int, j: int|
                    #[trigger] is_image_at(lists, m, j) && m < n - 1 && download_at(lists, m, j)
                        == Some(before[a]);
                assert(is_image_at(lists, m, j) && m < n && download_at(lists, m, j) == Some(
                    plan[a],
                ));
            }
        }
    }
}

/// Within one run no path is the target of two downloads: where the
/// images can be told apart by their name and directory, the paths of the
/// planned downloads are all different.
pub proof fn lemma_plan_paths_are_distinct(
    lists: Seq<WSImageListView>,
    directory_ready: Seq<bool>,
)
    requires
        images_are_told_apart(lists),
    ensures
        forall|a: int, b: int|
            0 <= a < b < downloads_upto(lists, directory_ready, lists.len()).len() ==> (
            #[trigger] downloads_upto(lists, directory_ready, lists.len())[a]).filename != (
            #[trigger] downloads_upto(lists, directory_ready, lists.len())[b]).filename,
{
    lemma_downloads_upto(lists, directory_ready, lists.len());
}

} // verus!
