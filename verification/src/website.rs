//! Configured sites, and their expansion into the directories that hold
//! the images.

use crate::cloud_image::{images_view, CloudImage, CloudImageView};
use crate::listing::{
    entries_view, first_greatest_name, is_first_greatest_name, lemma_first_greatest_name_unique,
    none_kept, DirEntry, DirEntryView, EntryKind,
};
use crate::pattern::{compiles, matches_name, regex_compiles, regex_matches};
use crate::text::{
    clone_opt, concat2, concat3, ends_with, from_chars, has_char, opt_strings_view, opt_view,
    strings_view, to_chars,
};
use std::sync::Arc;
use vstd::prelude::*;

verus! {

/// Names of directories that carry a date of eight digits, with or without
/// a suffix of four digits.
pub const DATED_DIRECTORY: &'static str = "\\d{8}(?:-\\d{4})?/$";

/// Names of directories made of two digits or more.
pub const NUMBERED_DIRECTORY: &'static str = "^\\d\\d+/$";

/// A site that publishes images.
#[derive(Debug)]
pub struct WebSite {
    pub name: String,
    /// The versions to look for, each a path below `base_url`.
    pub version_list: Vec<String>,
    pub base_url: String,
    /// Paths below a version's directory that hold the images.
    pub after_version_url: Option<Vec<String>>,
    /// Regular expression that an image's name matches.
    pub image_name_filter: String,
    /// Regular expressions that no chosen image's name matches.
    pub image_name_cleanse: Option<Vec<String>>,
    /// Directory that receives the images of this site.
    pub destination: String,
    /// Whether, when present and not `false`, the publication date is
    /// written into the name of the downloaded file.
    pub normalize: Option<String>,
}

/// The mathematical value of a [`WebSite`].
pub struct WebSiteView {
    pub name: Seq<char>,
    pub version_list: Seq<Seq<char>>,
    pub base_url: Seq<char>,
    pub after_version_url: Option<Seq<Seq<char>>>,
    pub image_name_filter: Seq<char>,
    pub image_name_cleanse: Option<Seq<Seq<char>>>,
    pub destination: Seq<char>,
    pub normalize: Option<Seq<char>>,
}

impl View for WebSite {
    type V = WebSiteView;

    open spec fn view(&self) -> WebSiteView {
        WebSiteView {
            name: self.name@,
            version_list: strings_view(self.version_list@),
            base_url: self.base_url@,
            after_version_url: opt_strings_view(self.after_version_url),
            image_name_filter: self.image_name_filter@,
            image_name_cleanse: opt_strings_view(self.image_name_cleanse),
            destination: self.destination@,
            normalize: opt_view(self.normalize),
        }
    }
}

/// The address of a directory or of an image, with the version it belongs
/// to.
#[derive(Default, PartialEq, Eq, Debug)]
pub struct Url {
    pub url: String,
    pub version: Option<String>,
    pub after_version: Option<String>,
}

/// The mathematical value of a [`Url`].
pub struct UrlView {
    pub url: Seq<char>,
    pub version: Option<Seq<char>>,
    pub after_version: Option<Seq<char>>,
}

impl View for Url {
    type V = UrlView;

    open spec fn view(&self) -> UrlView {
        UrlView {
            url: self.url@,
            version: opt_view(self.version),
            after_version: opt_view(self.after_version),
        }
    }
}

/// The values of a list of addresses.
pub open spec fn urls_view(v: Seq<Url>) -> Seq<UrlView> {
    Seq::new(v.len(), |i: int| v[i]@)
}

impl Url {
    /// The address `url` with its tags.
    pub fn new(url: String, version: Option<String>, after_version: Option<String>) -> (r: Self)
        ensures
            r@ == (UrlView {
                url: url@,
                version: opt_view(version),
                after_version: opt_view(after_version),
            }),
    {
        Url { url, version, after_version }
    }

    /// A copy of the address.
    pub fn duplicate(&self) -> (r: Url)
        ensures
            r@ == self@,
    {
        Url {
            url: self.url.clone(),
            version: clone_opt(&self.version),
            after_version: clone_opt(&self.after_version),
        }
    }
}

/// `s` without one trailing `/`.
pub open spec fn strip_trailing_slash(s: Seq<char>) -> Seq<char> {
    if s.len() > 0 && s.last() == '/' {
        s.drop_last()
    } else {
        s
    }
}

/// `s` as a tag: one trailing `/` is dropped, every other `/` becomes `_`.
pub open spec fn sanitized(s: Seq<char>) -> Seq<char> {
    let t = strip_trailing_slash(s);
    Seq::new(
        t.len(),
        |i: int|
            if t[i] == '/' {
                '_'
            } else {
                t[i]
            },
    )
}

/// `unsane` as a tag free of `/`: one trailing `/` is dropped, every other
/// `/` becomes `_`.
pub fn sanitize_string(unsane: &str) -> (r: String)
    ensures
        r@ == sanitized(unsane@),
        !has_char(r@, '/'),
{
    let chars = to_chars(unsane);
    let mut end: usize = chars.len();
    if end > 0 && chars[end - 1] == '/' {
        end -= 1;
    }
    let ghost t = strip_trailing_slash(unsane@);
    assert(t == chars@.take(end as int));
    let mut out: Vec<char> = Vec::new();
    let mut i: usize = 0;
    while i < end
        invariant
            i <= end <= chars.len(),
            t == chars@.take(end as int),
            t == strip_trailing_slash(unsane@),
            out@ == sanitized(unsane@).take(i as int),
            sanitized(unsane@).len() == end,
        decreases end - i,
    {
        let c = chars[i];
        assert(t[i as int] == c);
        assert(sanitized(unsane@)[i as int] == if c == '/' {
            '_'
        } else {
            c
        });
        if c == '/' {
            out.push('_');
        } else {
            out.push(c);
        }
        assert(sanitized(unsane@).take(i + 1) == sanitized(unsane@).take(i as int).push(
            sanitized(unsane@)[i as int],
        ));
        i += 1;
    }
    assert(out@ == sanitized(unsane@));
    from_chars(&out)
}

/// The tags of the address hold no `/`.
pub open spec fn tags_are_clean(u: UrlView) -> bool {
    &&& u.version matches Some(tag) ==> !has_char(tag, '/')
    &&& u.after_version matches Some(tag) ==> !has_char(tag, '/')
}

/// The address of the directory of `version` below `base_url`.
pub open spec fn version_url(base_url: Seq<char>, version: Seq<char>) -> Seq<char> {
    base_url + seq!['/'] + version
}

/// The address of the directory `dirname` below `url`, ending with `/`.
pub open spec fn directory_url(url: Seq<char>, dirname: Seq<char>) -> Seq<char> {
    if dirname.len() > 0 && dirname.last() == '/' {
        url + seq!['/'] + dirname
    } else {
        url + seq!['/'] + dirname + seq!['/']
    }
}

/// Entry `e` is a directory whose name the regular expression `pattern`
/// matches.
pub open spec fn directory_matches(pattern: Seq<char>, e: DirEntryView) -> bool {
    e.kind == EntryKind::Directory && regex_compiles(pattern) && regex_matches(pattern, e.name)
}

/// For each entry, whether it is a directory that `pattern` matches.
pub open spec fn matching_directories(entries: Seq<DirEntryView>, pattern: Seq<char>) -> Seq<bool> {
    Seq::new(entries.len(), |i: int| directory_matches(pattern, entries[i]))
}

/// Name of the kept entry that comes first when the kept entries are sorted
/// by name, greatest first.
pub open spec fn latest_directory_name(entries: Seq<DirEntryView>, keep: Seq<bool>) -> Seq<char> {
    entries[choose|i: int| is_first_greatest_name(entries, keep, i)].name
}

/// What a version's directory resolves to, given the entries listed there
/// (`None`: the listing could not be had).
///
/// The directory with the greatest name among the dated ones is entered,
/// and the version's own tag kept. Without dated directories the greatest
/// numbered one is entered, and its name becomes the tag. Without either
/// the version's directory itself is the answer, without tag.
///
/// Should the expression for dated names not compile, the version's
/// directory is the answer, under the version's tag; should the one for
/// numbered names not compile, there is no answer.
pub open spec fn resolved_directory(
    url: Seq<char>,
    version: Seq<char>,
    listing: Option<Seq<DirEntryView>>,
) -> Option<UrlView> {
    match listing {
        None => None,
        Some(entries) => {
            let dated = matching_directories(entries, DATED_DIRECTORY@);
            let numbered = matching_directories(entries, NUMBERED_DIRECTORY@);
            if !regex_compiles(DATED_DIRECTORY@) {
                Some(
                    UrlView {
                        url: url + seq!['/'],
                        version: Some(sanitized(version)),
                        after_version: None,
                    },
                )
            } else if !none_kept(dated) {
                Some(
                    UrlView {
                        url: directory_url(url, latest_directory_name(entries, dated)),
                        version: Some(sanitized(version)),
                        after_version: None,
                    },
                )
            } else if !regex_compiles(NUMBERED_DIRECTORY@) {
                None
            } else if !none_kept(numbered) {
                Some(
                    UrlView {
                        url: directory_url(url, latest_directory_name(entries, numbered)),
                        version: Some(sanitized(latest_directory_name(entries, numbered))),
                        after_version: None,
                    },
                )
            } else {
                Some(UrlView { url: url + seq!['/'], version: None, after_version: None })
            }
        },
    }
}

/// The values of the entries of a listing that may be missing.
pub open spec fn listing_view(listing: Option<Vec<DirEntry>>) -> Option<Seq<DirEntryView>> {
    match listing {
        Some(entries) => Some(entries_view(entries@)),
        None => None,
    }
}

/// For each entry, whether it is a directory that `pattern` matches.
pub fn mark_directories(entries: &Vec<DirEntry>, pattern: &str) -> (keep: Vec<bool>)
    ensures
        keep@ == matching_directories(entries_view(entries@), pattern@),
{
    let mut keep: Vec<bool> = Vec::new();
    let mut i: usize = 0;
    while i < entries.len()
        invariant
            i <= entries.len(),
            keep@ == matching_directories(entries_view(entries@), pattern@).take(i as int),
        decreases entries.len() - i,
    {
        let e = &entries[i];
        let hit = match e.kind {
            EntryKind::Directory => matches_name(pattern, e.name.as_str()),
            _ => false,
        };
        keep.push(hit);
        assert(keep@ == matching_directories(entries_view(entries@), pattern@).take(i + 1));
        i += 1;
    }
    assert(keep@ == matching_directories(entries_view(entries@), pattern@));
    keep
}

/// The address of the kept directory with the greatest name, below `url`,
/// and that name as a tag.
pub fn url_with_latest_directory_name(
    list_of_entries: &Vec<DirEntry>,
    keep: &Vec<bool>,
    url: &str,
) -> (r: Option<(String, String)>)
    requires
        keep.len() == list_of_entries.len(),
    ensures
        r is None <==> none_kept(keep@),
        r matches Some(found) ==> {
            let dirname = latest_directory_name(entries_view(list_of_entries@), keep@);
            &&& found.0@ == directory_url(url@, dirname)
            &&& found.1@ == sanitized(dirname)
            &&& ends_with(found.0@, seq!['/'])
        },
{
    match first_greatest_name(list_of_entries, keep) {
        None => None,
        Some(i) => {
            proof {
                let ev = entries_view(list_of_entries@);
                let c = choose|c: int| is_first_greatest_name(ev, keep@, c);
                lemma_first_greatest_name_unique(ev, keep@, i as int, c);
            }
            let dirname = list_of_entries[i].name.as_str();
            let chars = to_chars(dirname);
            let address = if chars.len() > 0 && chars[chars.len() - 1] == '/' {
                concat3(url, "/", dirname)
            } else {
                let head = concat3(url, "/", dirname);
                concat2(head.as_str(), "/")
            };
            proof {
                reveal_strlit("/");
                assert("/"@ == seq!['/']);
                let a = address@;
                assert(a.subrange(a.len() - 1, a.len() as int) == seq!['/']);
            }
            Some((address, sanitize_string(dirname)))
        },
    }
}

/// The value of an address that may be missing.
pub open spec fn opt_url_view(o: Option<Url>) -> Option<UrlView> {
    match o {
        Some(u) => Some(u@),
        None => None,
    }
}

/// The addresses that a resolved directory stands for: itself, or one
/// address for each path that follows the version, tagged with that path.
pub open spec fn with_after_versions(
    found: UrlView,
    after: Option<Seq<Seq<char>>>,
) -> Seq<UrlView> {
    match after {
        None => seq![found],
        Some(segments) => Seq::new(
            segments.len(),
            |k: int|
                UrlView {
                    url: found.url + segments[k],
                    version: found.version,
                    after_version: Some(sanitized(segments[k])),
                },
        ),
    }
}

/// The addresses to search for the images of one version of a site.
pub open spec fn leaf_urls_of_version(
    site: WebSiteView,
    version: Seq<char>,
    listing: Option<Seq<DirEntryView>>,
) -> Seq<UrlView> {
    match resolved_directory(version_url(site.base_url, version), version, listing) {
        None => Seq::empty(),
        Some(found) => with_after_versions(found, site.after_version_url),
    }
}

/// The listing of the directory of the version of index `k`; a listing that
/// was not handed in counts as one that could not be had.
pub open spec fn listing_at(listings: Seq<Option<Vec<DirEntry>>>, k: int) -> Option<
    Seq<DirEntryView>,
> {
    if 0 <= k < listings.len() {
        listing_view(listings[k])
    } else {
        None
    }
}

/// The addresses to search for the first `n` versions of a site.
pub open spec fn leaf_urls_upto(
    site: WebSiteView,
    listings: Seq<Option<Vec<DirEntry>>>,
    n: nat,
) -> Seq<UrlView>
    decreases n,
{
    if n == 0 {
        Seq::empty()
    } else {
        leaf_urls_upto(site, listings, (n - 1) as nat) + leaf_urls_of_version(
            site,
            site.version_list[n - 1],
            listing_at(listings, n - 1),
        )
    }
}

/// The addresses to search for the images of a site, version by version.
pub open spec fn leaf_urls(site: WebSiteView, listings: Seq<Option<Vec<DirEntry>>>) -> Seq<
    UrlView,
> {
    leaf_urls_upto(site, listings, site.version_list.len())
}

/// The flag that a site's `normalize` setting stands for: set when the
/// setting is present and is not `false`.
pub open spec fn normalize_flag(normalize: Option<Seq<char>>) -> bool {
    match normalize {
        Some(text) => text != "false"@,
        None => false,
    }
}

impl WebSite {
    /// The site of the given description.
    pub fn new(
        name: String,
        version_list: Vec<String>,
        base_url: String,
        after_version_url: Option<Vec<String>>,
        image_name_filter: String,
        image_name_cleanse: Option<Vec<String>>,
        destination: String,
        normalize: Option<String>,
    ) -> (r: Self)
        ensures
            r.name == name,
            r.version_list == version_list,
            r.base_url == base_url,
            r.after_version_url == after_version_url,
            r.image_name_filter == image_name_filter,
            r.image_name_cleanse == image_name_cleanse,
            r.destination == destination,
            r.normalize == normalize,
    {
        WebSite {
            name,
            version_list,
            base_url,
            after_version_url,
            image_name_filter,
            image_name_cleanse,
            destination,
            normalize,
        }
    }

    /// Whether downloaded files carry the publication date in their name.
    pub fn get_normalize(&self) -> (r: bool)
        ensures
            r == normalize_flag(self@.normalize),
    {
        match &self.normalize {
            Some(text) => !crate::text::same_text(text.as_str(), "false"),
            None => false,
        }
    }

    /// The address whose listing tells how the version of index `k` is laid
    /// out.
    pub fn version_url(&self, k: usize) -> (r: String)
        requires
            k < self.version_list.len(),
        ensures
            r@ == version_url(self@.base_url, self@.version_list[k as int]),
    {
        proof {
            reveal_strlit("/");
            assert("/"@ =~= seq!['/']);
        }
        concat3(self.base_url.as_str(), "/", self.version_list[k].as_str())
    }

    /// What the directory `url` of `version` resolves to, given the entries
    /// listed there (`None`: the listing could not be had).
    pub fn check_for_directories_with_dates_or_version_numbers(
        url: &str,
        version: &str,
        listing: &Option<Vec<DirEntry>>,
    ) -> (r: Option<Url>)
        ensures
            opt_url_view(r) == resolved_directory(url@, version@, listing_view(*listing)),
            r matches Some(found) ==> ends_with(found.url@, seq!['/']) && found.after_version
                is None && tags_are_clean(found@),
    {
        proof {
            reveal_strlit("/");
            assert("/"@ =~= seq!['/']);
        }
        let entries = match listing {
            Some(entries) => entries,
            None => {
                return None;
            },
        };
        if !compiles(DATED_DIRECTORY) {
            let bare = concat2(url, "/");
            assert(bare@.subrange(bare@.len() - 1, bare@.len() as int) == seq!['/']);
            return Some(Url::new(bare, Some(sanitize_string(version)), None));
        }
        let dated = mark_directories(entries, DATED_DIRECTORY);
        match url_with_latest_directory_name(entries, &dated, url) {
            Some(found) => {
                return Some(Url::new(found.0, Some(sanitize_string(version)), None));
            },
            None => {},
        }
        if !compiles(NUMBERED_DIRECTORY) {
            return None;
        }
        let numbered = mark_directories(entries, NUMBERED_DIRECTORY);
        match url_with_latest_directory_name(entries, &numbered, url) {
            Some(found) => Some(Url::new(found.0, Some(found.1), None)),
            None => {
                let bare = concat2(url, "/");
                assert(bare@.subrange(bare@.len() - 1, bare@.len() as int) == seq!['/']);
                Some(Url::new(bare, None, None))
            },
        }
    }

    /// The addresses to search for the images of this site.
    ///
    /// `listings` holds, for each version in turn, the entries listed at
    /// [`WebSite::version_url`], or `None` where that listing could not be
    /// had: such a version gives no address.
    pub fn generate_url_list(&self, listings: &Vec<Option<Vec<DirEntry>>>) -> (url_list: Vec<Url>)
        ensures
            urls_view(url_list@) == leaf_urls(self@, listings@),
            forall|i: int| 0 <= i < url_list@.len() ==> tags_are_clean(#[trigger] url_list@[i]@),
            self.after_version_url is None ==> forall|i: int|
                0 <= i < url_list@.len() ==> ends_with((#[trigger] url_list@[i]).url@, seq!['/']),
    {
        let mut url_list: Vec<Url> = Vec::new();
        let mut k: usize = 0;
        assert(urls_view(url_list@) =~= Seq::<UrlView>::empty());
        while k < self.version_list.len()
            invariant
                k <= self.version_list.len(),
                urls_view(url_list@) == leaf_urls_upto(self@, listings@, k as nat),
                forall|i: int| 0 <= i < url_list@.len() ==> tags_are_clean(#[trigger] url_list@[i]@),
                self.after_version_url is None ==> forall|i: int|
                    0 <= i < url_list@.len() ==> ends_with(
                        (#[trigger] url_list@[i]).url@,
                        seq!['/'],
                    ),
            decreases self.version_list.len() - k,
        {
            let ghost done = urls_view(url_list@);
            let url = self.version_url(k);
            let missing: Option<Vec<DirEntry>> = None;
            let listing = if k < listings.len() {
                &listings[k]
            } else {
                &missing
            };
            assert(listing_view(*listing) == listing_at(listings@, k as int));
            let version = self.version_list[k].as_str();
            assert(version@ == self@.version_list[k as int]);
            match WebSite::check_for_directories_with_dates_or_version_numbers(
                url.as_str(),
                version,
                listing,
            ) {
                None => {
                    assert(done + Seq::<UrlView>::empty() == done);
                },
                Some(found) => {
                    match &self.after_version_url {
                        None => {
                            let ghost f = found@;
                            url_list.push(found);
                            assert(urls_view(url_list@) =~= done + seq![f]);
                        },
                        Some(after) => {
                            let ghost all = with_after_versions(
                                found@,
                                Some(strings_view(after@)),
                            );
                            let mut j: usize = 0;
                            assert(done + all.take(0) == done);
                            while j < after.len()
                                invariant
                                    j <= after.len(),
                                    all == with_after_versions(found@, Some(strings_view(after@))),
                                    urls_view(url_list@) == done + all.take(j as int),
                                    tags_are_clean(found@),
                                    self.after_version_url is Some,
                                    forall|i: int|
                                        0 <= i < url_list@.len() ==> tags_are_clean(
                                            #[trigger] url_list@[i]@,
                                        ),
                                decreases after.len() - j,
                            {
                                let segment = after[j].as_str();
                                let leaf = Url::new(
                                    concat2(found.url.as_str(), segment),
                                    clone_opt(&found.version),
                                    Some(sanitize_string(segment)),
                                );
                                assert(leaf@ == all[j as int]);
                                let ghost before = urls_view(url_list@);
                                url_list.push(leaf);
                                assert(urls_view(url_list@) =~= before.push(all[j as int]));
                                assert(all.take(j + 1) == all.take(j as int).push(all[j as int]));
                                j += 1;
                            }
                            assert(all.take(j as int) == all);
                        },
                    }
                },
            }
            k += 1;
        }
        url_list
    }
}

/// The images to download from one site.
#[derive(Debug)]
pub struct WSImageList {
    pub images_list: Vec<CloudImage>,
    pub website: Arc<WebSite>,
}

/// The mathematical value of a [`WSImageList`].
pub struct WSImageListView {
    pub images_list: Seq<CloudImageView>,
    pub website: WebSiteView,
}

impl View for WSImageList {
    type V = WSImageListView;

    open spec fn view(&self) -> WSImageListView {
        WSImageListView { images_list: images_view(self.images_list@), website: (*self.website)@ }
    }
}

/// The values of the lists of several sites.
pub open spec fn lists_view(v: Seq<WSImageList>) -> Seq<WSImageListView> {
    Seq::new(v.len(), |i: int| v[i]@)
}

/// The images among `found`, in order: the first `n` directories are
/// counted, each giving one image or none.
pub open spec fn images_found(found: Seq<Option<CloudImage>>, n: nat) -> Seq<CloudImageView>
    decreases n,
{
    if n == 0 {
        Seq::empty()
    } else {
        match found[n - 1] {
            Some(image) => images_found(found, (n - 1) as nat).push(image@),
            None => images_found(found, (n - 1) as nat),
        }
    }
}

/// No list holds an image.
pub open spec fn all_lists_empty(lists: Seq<WSImageListView>) -> bool {
    forall|i: int| 0 <= i < lists.len() ==> (#[trigger] lists[i]).images_list.len() == 0
}

impl WSImageList {
    /// The list of the images to download from `website`, from what the
    /// choice gave in each of its directories, in the order of the
    /// directories.
    pub fn get_images_list(website: Arc<WebSite>, found: Vec<Option<CloudImage>>) -> (r: Self)
        ensures
            r@.website == (*website)@,
            r@.images_list == images_found(found@, found@.len()),
            r@.images_list.len() <= found@.len(),
    {
        let mut found = found;
        let ghost all = found@;
        let mut images_list: Vec<CloudImage> = Vec::new();
        // The directories are taken from the back, and the list is put in
        // order at the end.
        let mut reversed: Vec<CloudImage> = Vec::new();
        while found.len() > 0
            invariant
                found@ == all.take(found@.len() as int),
                images_found(all, all.len()) == images_found(all, found@.len()) + images_view(
                    reversed@,
                ).reverse(),
                reversed@.len() + found@.len() <= all.len(),
            decreases found.len(),
        {
            let ghost n = found@.len();
            let ghost before = images_view(reversed@);
            let last = found.pop();
            assert(found@ == all.take(n - 1));
            assert(all[n - 1] == all.take(n as int)[n - 1]);
            match last {
                Some(Some(image)) => {
                    reversed.push(image);
                    assert(images_view(reversed@) =~= before.push(image@));
                    assert(before.push(image@).reverse() =~= seq![image@] + before.reverse());
                    assert(images_found(all, n) == images_found(all, (n - 1) as nat).push(image@));
                    assert(images_found(all, (n - 1) as nat).push(image@) + before.reverse()
                        =~= images_found(all, (n - 1) as nat) + (seq![image@] + before.reverse()));
                },
                _ => {},
            }
        }
        let ghost picked = images_view(reversed@);
        assert(images_found(all, all.len()) =~= picked.reverse());
        while reversed.len() > 0
            invariant
                images_view(images_list@) + images_view(reversed@).reverse() == picked.reverse(),
                picked.len() <= all.len(),
            decreases reversed.len(),
        {
            let ghost before = images_view(reversed@);
            let ghost done = images_view(images_list@);
            let image = reversed.pop().unwrap();
            assert(before =~= images_view(reversed@).push(image@));
            assert(before.reverse() =~= seq![image@] + images_view(reversed@).reverse());
            images_list.push(image);
            assert(images_view(images_list@) =~= done.push(image@));
            assert(done.push(image@) + images_view(reversed@).reverse() =~= done + (seq![image@]
                + images_view(reversed@).reverse()));
        }
        assert(images_view(images_list@) =~= picked.reverse());
        WSImageList { images_list, website }
    }

    /// Whether the site has no image to download.
    pub fn is_empty(&self) -> (r: bool)
        ensures
            r == (self@.images_list.len() == 0),
    {
        self.images_list.is_empty()
    }
}

/// Whether none of the lists holds an image: then there is nothing to
/// download.
pub fn vec_ws_image_lists_is_empty(all_ws_image_lists: &Vec<WSImageList>) -> (r: bool)
    ensures
        r == all_lists_empty(lists_view(all_ws_image_lists@)),
{
    let mut i: usize = 0;
    while i < all_ws_image_lists.len()
        invariant
            i <= all_ws_image_lists.len(),
            all_lists_empty(lists_view(all_ws_image_lists@).take(i as int)),
        decreases all_ws_image_lists.len() - i,
    {
        let ghost lists = lists_view(all_ws_image_lists@);
        if !all_ws_image_lists[i].is_empty() {
            assert(lists[i as int].images_list.len() != 0);
            return false;
        }
        assert forall|j: int| 0 <= j < i + 1 implies (#[trigger] lists.take(i + 1)[j]).images_list.len()
            == 0 by {
            if j < i {
                assert(lists.take(i as int)[j].images_list.len() == 0);
            }
        }
        i += 1;
    }
    assert(lists_view(all_ws_image_lists@).take(i as int) == lists_view(all_ws_image_lists@));
    true
}

/// The directory that a version resolves to is one of those listed: where
/// directories of the listing match `pattern`, the name that is entered is
/// the name of one of them, and none of them has a greater name.
pub proof fn lemma_latest_directory_is_listed(entries: Seq<DirEntryView>, pattern: Seq<char>)
    requires
        !none_kept(matching_directories(entries, pattern)),
    ensures
        exists|i: int|
            0 <= i < entries.len() && directory_matches(pattern, #[trigger] entries[i])
                && entries[i].name == latest_directory_name(
                entries,
                matching_directories(entries, pattern),
            ),
        forall|j: int|
            0 <= j < entries.len() && directory_matches(pattern, #[trigger] entries[j])
                ==> crate::text::lex_le(
                entries[j].name,
                latest_directory_name(entries, matching_directories(entries, pattern)),
            ),
{
    let keep = matching_directories(entries, pattern);
    crate::listing::lemma_first_greatest_name_exists(entries, keep);
    let i = choose|i: int| is_first_greatest_name(entries, keep, i);
    assert(keep[i]);
    assert(directory_matches(pattern, entries[i]));
    assert forall|j: int|
        0 <= j < entries.len() && directory_matches(pattern, #[trigger] entries[j])
            implies crate::text::lex_le(entries[j].name, entries[i].name) by {
        assert(keep[j]);
    }
}

} // verus!
