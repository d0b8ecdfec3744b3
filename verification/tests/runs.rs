use cloud_image_download::checksums::CheckSums;
use cloud_image_download::cloud_image::{CloudImage, Verification};
use cloud_image_download::download::{
    download_images, verify_downloaded_file, Status, Summary,
};
use cloud_image_download::image_history::{save_image_in_db, HistoryRecord};
use cloud_image_download::listing::{DirEntry, EntryKind};
use cloud_image_download::selector::{SelectorAction, SelectorEvent, SelectorState, SkipReason};
use cloud_image_download::timestamp::Timestamp;
use cloud_image_download::website::{Url, WSImageList, WebSite};
use std::sync::Arc;

const ABC_SHA256: &str = "ba7816bf8f01cfea414140de5dae2223b00361a396177a9cb410ff61f20015ad";

fn site() -> Arc<WebSite> {
    Arc::new(WebSite::new(
        "site".to_string(),
        vec!["12".to_string()],
        "https://example.org".to_string(),
        None,
        r"\.qcow2$".to_string(),
        None,
        "/srv/images".to_string(),
        None,
    ))
}

fn leaf() -> Url {
    Url::new("https://example.org/12/".to_string(), Some("12".to_string()), None)
}

fn listing() -> Vec<DirEntry> {
    let date = Timestamp::new(2024, 5, 6, 7, 8, 9);
    vec![
        DirEntry { kind: EntryKind::File, name: "foo.qcow2".to_string(), date },
        DirEntry { kind: EntryKind::File, name: "SHA256SUMS".to_string(), date },
    ]
}

/// One run of the choice against a history held in memory.
fn run_choice(history: &[HistoryRecord], body: &str) -> Option<CloudImage> {
    let site = site();
    let mut state = SelectorState::AwaitListing;
    let mut event = SelectorEvent::Listing(Some(listing()));
    loop {
        let (next, action) = site.get_latest_image_to_download_from_url(&leaf(), state, event);
        state = next;
        event = match action {
            SelectorAction::FetchChecksum(_) => SelectorEvent::Checksum(Some(body.to_string())),
            SelectorAction::QueryHistory(row) => SelectorEvent::History(
                history
                    .iter()
                    .filter(|known| **known == row)
                    .map(|known| {
                        Some(HistoryRecord {
                            name: known.name.clone(),
                            checksum: known.checksum.clone(),
                            date: known.date.clone(),
                        })
                    })
                    .collect(),
            ),
            SelectorAction::Emit(image) => return Some(image),
            SelectorAction::Skip(reason) => {
                assert_ne!(reason, SkipReason::OutOfTurn);
                return None;
            }
        };
    }
}

#[test]
fn second_run_downloads_nothing() {
    let body = format!("{ABC_SHA256}  foo.qcow2\n");
    let mut history = vec![];
    let image = run_choice(&history, &body).expect("the first run finds the image");
    let outcome = image.check(&Some(b"abc".to_vec()));
    assert_eq!(outcome, Verification::Verified);
    history.extend(save_image_in_db(&image, outcome));
    assert_eq!(history.len(), 1);
    assert_eq!(run_choice(&history, &body), None);
}

#[test]
fn unverified_image_is_chosen_again() {
    let body = format!("{ABC_SHA256}  foo.qcow2\n");
    let mut history = vec![];
    let image = run_choice(&history, &body).expect("the first run finds the image");
    let outcome = image.check(&Some(b"not abc".to_vec()));
    assert_eq!(outcome, Verification::Mismatch);
    history.extend(save_image_in_db(&image, outcome));
    assert!(history.is_empty());
    assert_eq!(run_choice(&history, &body), Some(image));
}

#[test]
fn image_without_digest_is_chosen_again() {
    let mut history = vec![];
    let image = run_choice(&history, "nothing about the image\n").expect("the first run finds the image");
    assert_eq!(image.checksum, CheckSums::Missing);
    let outcome = image.check(&Some(b"abc".to_vec()));
    assert!(outcome.passed());
    history.extend(save_image_in_db(&image, outcome));
    assert!(history.is_empty());
    assert!(run_choice(&history, "nothing about the image\n").is_some());
}

#[test]
fn another_date_is_another_image() {
    let body = format!("{ABC_SHA256}  foo.qcow2\n");
    let known = HistoryRecord {
        name: "foo.qcow2".to_string(),
        checksum: format!("{ABC_SHA256}\n"),
        date: "2024-05-06 07:08:10".to_string(),
    };
    assert!(run_choice(&[known], &body).is_some());
}

#[test]
fn deleted_file_is_verified_again_only_on_request() {
    let image = run_choice(&[], &format!("{ABC_SHA256}  foo.qcow2\n")).expect("the image is found");
    let lists = vec![WSImageList::get_images_list(site(), vec![Some(image)])];
    let plan = download_images(&lists, &vec![true], true, 2, "1.0.0");
    assert_eq!(plan.downloads.len(), 1);
    let skipped = vec![Summary { download: plan.downloads[0].clone(), status: Status::Skipped("there".to_string()) }];
    assert!(verify_downloaded_file(&lists, &skipped, false).is_empty());
    let tasks = verify_downloaded_file(&lists, &skipped, true);
    assert_eq!(tasks.len(), 1);
    assert_eq!(tasks[0].filename, "/srv/images/foo.qcow2");
    let image = &lists[tasks[0].site].images_list[tasks[0].image];
    assert_eq!(image.check(&None), Verification::Unreadable);
    assert_eq!(save_image_in_db(image, image.check(&None)), None);
    assert_eq!(save_image_in_db(image, image.check(&Some(b"abd".to_vec()))), None);
}
