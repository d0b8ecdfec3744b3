use cloud_image_download::checksums::CheckSums;
use cloud_image_download::cloud_image::{CloudImage, Verification};
use cloud_image_download::download::{
    display_download_status_summary, download_images, get_filename_destination, image_has_been_downloaded,
    plan_download, verify_downloaded_file, Download, Status, Summary, SummaryLine, VerifyTask, DOWNLOAD_RETRIES,
};
use cloud_image_download::timestamp::Timestamp;
use cloud_image_download::website::{vec_ws_image_lists_is_empty, Url, WSImageList, WebSite};
use cloud_image_download::{user_agent, CONCURRENT_REQUESTS};
use std::sync::Arc;

fn stamp() -> Timestamp {
    Timestamp::new(2025, 7, 10, 8, 5, 3).unwrap()
}

fn image(name: &str, address: &str) -> CloudImage {
    CloudImage::new(Url::new(address.to_string(), None, None), CheckSums::Missing, name.to_string(), stamp())
}

fn site(destination: &str, normalize: Option<&str>) -> Arc<WebSite> {
    Arc::new(WebSite::new(
        "site".to_string(),
        vec!["12".to_string()],
        "https://example.org".to_string(),
        None,
        "qcow2".to_string(),
        None,
        destination.to_string(),
        normalize.map(str::to_string),
    ))
}

fn summary(url: &str, filename: &str, status: Status) -> Summary {
    Summary { download: Download { url: url.to_string(), filename: filename.to_string() }, status }
}

#[test]
fn normalize_on_scenario() {
    let date = Timestamp::new(2025, 7, 10, 0, 0, 0).unwrap();
    assert_eq!(
        get_filename_destination("foo.qcow2", "/srv/images", true, &date),
        Some("/srv/images/foo-20250710.qcow2".to_string())
    );
}

#[test]
fn destination_without_normalizing() {
    assert_eq!(get_filename_destination("foo.qcow2", "/srv", false, &stamp()), Some("/srv/foo.qcow2".to_string()));
    let invalid = Timestamp { year: 2025, month: 13, day: 1, hour: 0, minute: 0, second: 0 };
    assert_eq!(get_filename_destination("foo.qcow2", "/srv", false, &invalid), Some("/srv/foo.qcow2".to_string()));
    assert_eq!(get_filename_destination("foo.qcow2", "/srv", true, &invalid), None);
}

#[test]
fn normalized_names_take_the_day_before_the_last_extension() {
    let date = Timestamp::new(999, 1, 2, 0, 0, 0).unwrap();
    assert_eq!(get_filename_destination("a.tar.gz", "d", true, &date), Some("d/a.tar-09990102.gz".to_string()));
    assert_eq!(get_filename_destination("noext", "d", true, &date), Some("d/noext-09990102".to_string()));
    assert_eq!(get_filename_destination(".hidden", "d", true, &date), Some("d/-09990102.hidden".to_string()));
    assert_eq!(get_filename_destination("dot.", "d", true, &date), Some("d/dot-09990102.".to_string()));
    let last = Timestamp::new(9999, 12, 31, 23, 59, 59).unwrap();
    assert_eq!(get_filename_destination("x.img", "", true, &last), Some("/x-99991231.img".to_string()));
}

#[test]
fn different_names_get_different_paths() {
    let date = stamp();
    let names = ["foo.qcow2", "foo-20250710.qcow2", "foo", "foo-20250710", "foo.", "foo.qcow2.", "foo-.qcow2"];
    for normalize in [false, true] {
        for a in names {
            for b in names {
                if a != b {
                    assert_ne!(
                        get_filename_destination(a, "/srv", normalize, &date),
                        get_filename_destination(b, "/srv", normalize, &date)
                    );
                }
            }
        }
    }
    assert_ne!(
        get_filename_destination("foo.qcow2", "/srv/a", true, &date),
        get_filename_destination("foo.qcow2", "/srv/b", true, &date)
    );
}

#[test]
fn plan_holds_the_parsed_address() {
    let ok = image("foo.qcow2", "HTTPS://Example.org:443/a/../b/foo.qcow2");
    assert_eq!(
        plan_download(&ok, "/srv", false),
        Some(Download { url: "https://example.org/b/foo.qcow2".to_string(), filename: "/srv/foo.qcow2".to_string() })
    );
    let relative = image("foo.qcow2", "b/foo.qcow2");
    assert_eq!(plan_download(&relative, "/srv", false), None);
}

#[test]
fn download_plan_for_all_sites() {
    let lists = vec![
        WSImageList::get_images_list(
            site("/srv/a", None),
            vec![Some(image("a1.qcow2", "https://e.org/a1.qcow2")), None, Some(image("bad.qcow2", "not an address"))],
        ),
        WSImageList::get_images_list(site("/srv/b", Some("true")), vec![Some(image("b1.qcow2", "https://e.org/b1.qcow2"))]),
        WSImageList::get_images_list(site("/srv/c", None), vec![Some(image("c1.qcow2", "https://e.org/c1.qcow2"))]),
        WSImageList::get_images_list(site("/srv/d", None), vec![Some(image("d1.qcow2", "https://e.org/d1.qcow2"))]),
    ];
    let plan = download_images(&lists, &vec![true, true, false], false, 0, "1.2.3");
    assert_eq!(
        plan.downloads,
        vec![
            Download { url: "https://e.org/a1.qcow2".to_string(), filename: "/srv/a/a1.qcow2".to_string() },
            Download { url: "https://e.org/b1.qcow2".to_string(), filename: "/srv/b/b1-20250710.qcow2".to_string() },
        ]
    );
    assert_eq!(plan.concurrent_downloads, CONCURRENT_REQUESTS);
    assert_eq!(plan.concurrent_downloads, 4);
    assert_eq!(plan.retries, 3);
    assert_eq!(plan.retries, DOWNLOAD_RETRIES);
    assert_eq!(plan.user_agent, "cid/1.2.3");
    assert!(!plan.hidden);
    let quiet = download_images(&lists, &vec![], true, 9, "0");
    assert!(quiet.downloads.is_empty());
    assert_eq!(quiet.concurrent_downloads, 9);
    assert!(quiet.hidden);
}

#[test]
fn user_agent_names_the_version() {
    assert_eq!(user_agent("0.9.1"), "cid/0.9.1");
    assert_eq!(user_agent(""), "cid/");
}

#[test]
fn images_list_keeps_the_order_of_the_directories() {
    let found = vec![
        None,
        Some(image("one", "https://e.org/1")),
        Some(image("two", "https://e.org/2")),
        None,
        Some(image("three", "https://e.org/3")),
    ];
    let list = WSImageList::get_images_list(site("/srv", None), found);
    let names: Vec<&str> = list.images_list.iter().map(|i| i.name.as_str()).collect();
    assert_eq!(names, vec!["one", "two", "three"]);
    assert!(!list.is_empty());
    let empty = WSImageList::get_images_list(site("/srv", None), vec![None, None]);
    assert!(empty.is_empty());
    assert!(vec_ws_image_lists_is_empty(&vec![]));
    assert!(!vec_ws_image_lists_is_empty(&vec![empty, list]));
    let empty = WSImageList::get_images_list(site("/srv", None), vec![]);
    assert!(vec_ws_image_lists_is_empty(&vec![empty]));
}

#[test]
fn report_lines_for_every_status() {
    let summaries = vec![
        summary("https://e.org/a", "/srv/a", Status::Success),
        summary("https://e.org/b", "/srv/b", Status::Fail("timeout".to_string())),
        summary("https://e.org/c", "/srv/c", Status::Skipped("already there".to_string())),
        summary("https://e.org/d", "/srv/d", Status::NotStarted),
    ];
    let report = display_download_status_summary(&summaries, false);
    assert_eq!(
        report,
        vec![
            SummaryLine { ok: true, text: "Successfully downloaded /srv/a".to_string() },
            SummaryLine {
                ok: false,
                text: "Error 'timeout' while downloading https://e.org/b to /srv/b".to_string()
            },
            SummaryLine {
                ok: true,
                text: "Skipped /srv/c to be downloaded from https://e.org/c: 'already there' ".to_string()
            },
            SummaryLine { ok: false, text: "Downloading https://e.org/d to /srv/d has not been started".to_string() },
        ]
    );
    assert!(display_download_status_summary(&summaries, true).is_empty());
    assert!(display_download_status_summary(&vec![], false).is_empty());
}

#[test]
fn first_report_on_the_image_decides() {
    let img = image("foo.qcow2", "https://e.org/foo.qcow2");
    let other = summary("https://e.org/bar.qcow2", "/srv/bar.qcow2", Status::Success);
    let same_file_other_url = summary("https://e.org/x/foo.qcow2", "/srv/foo.qcow2", Status::Success);
    let ok = summary("https://e.org/foo.qcow2", "/srv/foo.qcow2", Status::Success);
    let failed = summary("https://e.org/foo.qcow2", "/srv/foo.qcow2", Status::Fail("x".to_string()));
    let skipped = summary("https://e.org/foo.qcow2", "/srv/foo.qcow2", Status::Skipped("x".to_string()));
    let idle = summary("https://e.org/foo.qcow2", "/srv/foo.qcow2", Status::NotStarted);

    assert!(image_has_been_downloaded(&vec![other.clone(), ok.clone()], &img, "/srv", false, false));
    assert!(!image_has_been_downloaded(&vec![other.clone(), same_file_other_url], &img, "/srv", false, false));
    assert!(!image_has_been_downloaded(&vec![failed.clone(), ok.clone()], &img, "/srv", true, false));
    assert!(image_has_been_downloaded(&vec![ok.clone(), failed], &img, "/srv", false, false));
    assert!(!image_has_been_downloaded(&vec![idle], &img, "/srv", true, false));
    assert!(!image_has_been_downloaded(&vec![skipped.clone()], &img, "/srv", false, false));
    assert!(image_has_been_downloaded(&vec![skipped], &img, "/srv", true, false));
    assert!(!image_has_been_downloaded(&vec![], &img, "/srv", true, false));
    assert!(!image_has_been_downloaded(&vec![ok.clone()], &img, "/other", true, false));
    assert!(!image_has_been_downloaded(&vec![ok.clone()], &img, "/srv", true, true));
    let unparsable = image("foo.qcow2", "foo.qcow2");
    assert!(!image_has_been_downloaded(&vec![ok], &unparsable, "/srv", true, false));
}

#[test]
fn files_to_verify_after_the_downloads() {
    let lists = vec![
        WSImageList::get_images_list(
            site("/srv/a", None),
            vec![Some(image("a1.qcow2", "https://e.org/a1.qcow2")), Some(image("a2.qcow2", "https://e.org/a2.qcow2"))],
        ),
        WSImageList::get_images_list(
            site("/srv/b", Some("yes")),
            vec![Some(image("b1.qcow2", "https://e.org/b1.qcow2")), Some(image("b2.qcow2", "https://e.org/b2.qcow2"))],
        ),
    ];
    let summaries = vec![
        summary("https://e.org/a1.qcow2", "/srv/a/a1.qcow2", Status::Fail("boom".to_string())),
        summary("https://e.org/a2.qcow2", "/srv/a/a2.qcow2", Status::Success),
        summary("https://e.org/b1.qcow2", "/srv/b/b1-20250710.qcow2", Status::Skipped("there".to_string())),
        summary("https://e.org/b2.qcow2", "/srv/b/b2-20250710.qcow2", Status::Success),
    ];
    let a2 = VerifyTask { site: 0, image: 1, filename: "/srv/a/a2.qcow2".to_string() };
    let b1 = VerifyTask { site: 1, image: 0, filename: "/srv/b/b1-20250710.qcow2".to_string() };
    let b2 = VerifyTask { site: 1, image: 1, filename: "/srv/b/b2-20250710.qcow2".to_string() };
    assert_eq!(verify_downloaded_file(&lists, &summaries, false), vec![
        VerifyTask { site: 0, image: 1, filename: "/srv/a/a2.qcow2".to_string() },
        VerifyTask { site: 1, image: 1, filename: "/srv/b/b2-20250710.qcow2".to_string() },
    ]);
    assert_eq!(verify_downloaded_file(&lists, &summaries, true), vec![a2, b1, b2]);
    assert!(verify_downloaded_file(&lists, &vec![], true).is_empty());
    assert!(verify_downloaded_file(&vec![], &summaries, true).is_empty());
}

#[test]
fn only_verified_files_are_recorded() {
    assert!(Verification::Verified.recorded());
    assert!(!Verification::NotVerified.recorded());
    assert!(!Verification::Mismatch.recorded());
    assert!(!Verification::Unreadable.recorded());
    assert!(Verification::Verified.passed());
    assert!(Verification::NotVerified.passed());
    assert!(!Verification::Mismatch.passed());
    assert!(!Verification::Unreadable.passed());
    assert_eq!(Verification::of(Some(true)), Verification::Verified);
    assert_eq!(Verification::of(Some(false)), Verification::Mismatch);
    assert_eq!(Verification::of(None), Verification::NotVerified);
}
