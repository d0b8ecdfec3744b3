use cloud_image_download::listing::{DirEntry, EntryKind};
use cloud_image_download::timestamp::Timestamp;
use cloud_image_download::website::{sanitize_string, url_with_latest_directory_name, Url, WebSite};

fn dir(name: &str) -> DirEntry {
    DirEntry { kind: EntryKind::Directory, name: name.to_string(), date: Timestamp::new(2024, 1, 1, 0, 0, 0) }
}

fn file(name: &str) -> DirEntry {
    DirEntry { kind: EntryKind::File, name: name.to_string(), date: Timestamp::new(2024, 1, 1, 0, 0, 0) }
}

fn parent() -> DirEntry {
    DirEntry { kind: EntryKind::ParentDirectory, name: "../".to_string(), date: None }
}

fn site(versions: &[&str], after: Option<Vec<&str>>) -> WebSite {
    WebSite::new(
        "debian".to_string(),
        versions.iter().map(|v| v.to_string()).collect(),
        "https://example.org/images".to_string(),
        after.map(|list| list.iter().map(|s| s.to_string()).collect()),
        r"\.qcow2$".to_string(),
        None,
        "/tmp/images".to_string(),
        None,
    )
}

fn url(address: &str, version: Option<&str>, after: Option<&str>) -> Url {
    Url::new(address.to_string(), version.map(str::to_string), after.map(str::to_string))
}

#[test]
fn sanitize_drops_one_trailing_slash_and_replaces_the_rest() {
    assert_eq!(sanitize_string("bookworm"), "bookworm");
    assert_eq!(sanitize_string("bookworm/"), "bookworm");
    assert_eq!(sanitize_string("42/Cloud/x86_64"), "42_Cloud_x86_64");
    assert_eq!(sanitize_string("42/Cloud/x86_64/"), "42_Cloud_x86_64");
    assert_eq!(sanitize_string("a//"), "a_");
    assert_eq!(sanitize_string("/"), "");
    assert_eq!(sanitize_string(""), "");
}

#[test]
fn sanitized_tags_hold_no_slash() {
    for text in ["a/b/c", "/x/", "//", "plain", "été/hiver/"] {
        assert!(!sanitize_string(text).contains('/'));
    }
}

#[test]
fn url_new_keeps_its_fields() {
    let u = Url::new("https://e.org/".to_string(), Some("12".to_string()), None);
    assert_eq!(u.url, "https://e.org/");
    assert_eq!(u.version, Some("12".to_string()));
    assert_eq!(u.after_version, None);
    assert_eq!(u.duplicate(), u);
}

#[test]
fn dated_subdirectories_resolve_to_the_latest() {
    let listing = Some(vec![parent(), dir("20240101/"), dir("20240215/"), dir("latest/"), file("20990101/")]);
    let found = WebSite::check_for_directories_with_dates_or_version_numbers(
        "https://example.org/images/bookworm",
        "bookworm/",
        &listing,
    );
    assert_eq!(found, Some(url("https://example.org/images/bookworm/20240215/", Some("bookworm"), None)));
}

#[test]
fn dated_subdirectories_with_suffix_sort_by_name() {
    let listing = Some(vec![dir("20240215-1230/"), dir("20240215-0900/"), dir("20240101-2359/")]);
    let found =
        WebSite::check_for_directories_with_dates_or_version_numbers("https://e.org/daily", "daily", &listing);
    assert_eq!(found, Some(url("https://e.org/daily/20240215-1230/", Some("daily"), None)));
}

#[test]
fn numbered_subdirectories_resolve_to_the_greatest() {
    let listing = Some(vec![dir("40/"), dir("42/"), dir("41/"), dir("7/"), dir("test/")]);
    let found = WebSite::check_for_directories_with_dates_or_version_numbers("https://e.org/releases", "releases", &listing);
    assert_eq!(found, Some(url("https://e.org/releases/42/", Some("42"), None)));
}

#[test]
fn dated_directories_win_over_numbered_ones() {
    let listing = Some(vec![dir("42/"), dir("20240101/")]);
    let found = WebSite::check_for_directories_with_dates_or_version_numbers("https://e.org/r", "r", &listing);
    assert_eq!(found, Some(url("https://e.org/r/20240101/", Some("r"), None)));
}

#[test]
fn plain_directory_resolves_to_itself() {
    let listing = Some(vec![parent(), dir("images/"), dir("7/"), file("foo.qcow2")]);
    let found = WebSite::check_for_directories_with_dates_or_version_numbers("https://e.org/r", "r", &listing);
    assert_eq!(found, Some(url("https://e.org/r/", None, None)));
    let empty = Some(vec![]);
    let found = WebSite::check_for_directories_with_dates_or_version_numbers("https://e.org/r", "r", &empty);
    assert_eq!(found, Some(url("https://e.org/r/", None, None)));
}

#[test]
fn failed_listing_resolves_to_nothing() {
    assert_eq!(WebSite::check_for_directories_with_dates_or_version_numbers("https://e.org/r", "r", &None), None);
}

#[test]
fn latest_directory_is_the_first_of_equal_names() {
    let entries = vec![dir("41/"), dir("42/"), dir("42/"), dir("40/")];
    let keep = vec![true, true, true, true];
    let found = url_with_latest_directory_name(&entries, &keep, "https://e.org");
    assert_eq!(found, Some(("https://e.org/42/".to_string(), "42".to_string())));
    let none = url_with_latest_directory_name(&entries, &[false, false, false, false].to_vec(), "https://e.org");
    assert_eq!(none, None);
    let only_first = url_with_latest_directory_name(&entries, &[true, false, false, false].to_vec(), "https://e.org");
    assert_eq!(only_first, Some(("https://e.org/41/".to_string(), "41".to_string())));
}

#[test]
fn directory_name_without_slash_gets_one() {
    let entries = vec![dir("42")];
    let found = url_with_latest_directory_name(&entries, &vec![true], "https://e.org");
    assert_eq!(found, Some(("https://e.org/42/".to_string(), "42".to_string())));
}

#[test]
fn version_urls_join_base_and_version() {
    let s = site(&["bookworm", "trixie/daily"], None);
    assert_eq!(s.version_url(0), "https://example.org/images/bookworm");
    assert_eq!(s.version_url(1), "https://example.org/images/trixie/daily");
}

#[test]
fn url_list_goes_version_by_version() {
    let s = site(&["bookworm", "trixie", "sid"], None);
    let listings = vec![
        Some(vec![dir("20240101/"), dir("20240215/"), dir("latest/")]),
        None,
        Some(vec![file("readme.txt")]),
    ];
    let urls = s.generate_url_list(&listings);
    assert_eq!(
        urls,
        vec![
            url("https://example.org/images/bookworm/20240215/", Some("bookworm"), None),
            url("https://example.org/images/sid/", None, None),
        ]
    );
}

#[test]
fn url_list_appends_every_path_after_the_version() {
    let s = site(&["42"], Some(vec!["Cloud/x86_64/images/", "Cloud/aarch64/images"]));
    let listings = vec![Some(vec![dir("Cloud/")])];
    let urls = s.generate_url_list(&listings);
    assert_eq!(
        urls,
        vec![
            url("https://example.org/images/42/Cloud/x86_64/images/", None, Some("Cloud_x86_64_images")),
            url("https://example.org/images/42/Cloud/aarch64/images", None, Some("Cloud_aarch64_images")),
        ]
    );
}

#[test]
fn url_list_counts_a_missing_listing_as_failed() {
    let s = site(&["a", "b"], None);
    let urls = s.generate_url_list(&vec![Some(vec![])]);
    assert_eq!(urls, vec![url("https://example.org/images/a/", None, None)]);
    assert_eq!(s.generate_url_list(&vec![]), vec![]);
}

#[test]
fn normalize_flag_is_set_unless_absent_or_false() {
    let mut s = site(&["a"], None);
    assert!(!s.get_normalize());
    s.normalize = Some("true".to_string());
    assert!(s.get_normalize());
    s.normalize = Some("false".to_string());
    assert!(!s.get_normalize());
    s.normalize = Some("".to_string());
    assert!(s.get_normalize());
}
