use cloud_image_download::checksums::CheckSums;
use cloud_image_download::cloud_image::{CloudImage, Verification};
use cloud_image_download::digest::{verify_file, FileVerifier, VERIFY_CHUNK_SIZE};
use cloud_image_download::image_history::{
    is_image_in_db, save_image_in_db, HistoryRecord, CREATE_INDEX, CREATE_TABLE, INSERT_IMAGE, SELECT_IMAGE,
};
use cloud_image_download::timestamp::Timestamp;
use cloud_image_download::website::Url;

const ABC_SHA256: &str = "ba7816bf8f01cfea414140de5dae2223b00361a396177a9cb410ff61f20015ad";
const ABC_SHA512: &str = "ddaf35a193617abacc417349ae20413112e6fa4e89a97ea20a9eeee64b55d39a2192992a274fc1a836ba3c23a3feebbd454d4423643ce80e2a9ac94fa54ca49f";
const EMPTY_SHA256: &str = "e3b0c44298fc1c149afbf4c8996fb92427ae41e4649b934ca495991b7852b855";

fn image(checksum: CheckSums) -> CloudImage {
    CloudImage::new(
        Url::new("https://e.org/12//foo.qcow2".to_string(), Some("12".to_string()), None),
        checksum,
        "foo.qcow2".to_string(),
        Timestamp::new(2024, 2, 29, 23, 59, 58).unwrap(),
    )
}

#[test]
fn content_is_held_against_its_digest() {
    assert_eq!(verify_file(b"abc", &CheckSums::Sha256(ABC_SHA256.to_string())), Some(true));
    assert_eq!(verify_file(b"abd", &CheckSums::Sha256(ABC_SHA256.to_string())), Some(false));
    assert_eq!(verify_file(b"abc", &CheckSums::Sha512(ABC_SHA512.to_string())), Some(true));
    assert_eq!(verify_file(b"abc", &CheckSums::Sha512(ABC_SHA256.to_string())), Some(false));
    assert_eq!(verify_file(b"abc", &CheckSums::Sha256(ABC_SHA512.to_string())), Some(false));
    assert_eq!(verify_file(b"", &CheckSums::Sha256(EMPTY_SHA256.to_string())), Some(true));
    assert_eq!(verify_file(b"abc", &CheckSums::Sha256(ABC_SHA256.to_uppercase())), Some(false));
    assert_eq!(verify_file(b"abc", &CheckSums::Missing), None);
}

#[test]
fn feeding_in_chunks_is_feeding_the_whole() {
    let mut verifier = FileVerifier::new(&CheckSums::Sha256(ABC_SHA256.to_string()));
    verifier.update(b"a");
    verifier.update(b"");
    verifier.update(b"bc");
    assert_eq!(verifier.finish(), Some(true));
    let mut verifier = FileVerifier::new(&CheckSums::Sha512(ABC_SHA512.to_string()));
    verifier.update(b"ab");
    verifier.update(b"c");
    assert_eq!(verifier.finish(), Some(true));
    let mut verifier = FileVerifier::new(&CheckSums::Missing);
    verifier.update(b"abc");
    assert_eq!(verifier.finish(), None);
    let verifier = FileVerifier::new(&CheckSums::Sha256(EMPTY_SHA256.to_string()));
    assert_eq!(verifier.finish(), Some(true));
    assert_eq!(VERIFY_CHUNK_SIZE, 16 * 1024 * 1024);
}

#[test]
fn verification_of_an_image() {
    let good = image(CheckSums::Sha256(ABC_SHA256.to_string()));
    assert_eq!(good.check(&Some(b"abc".to_vec())), Verification::Verified);
    assert_eq!(good.check(&Some(b"abcd".to_vec())), Verification::Mismatch);
    assert_eq!(good.check(&None), Verification::Unreadable);
    assert!(good.verify(&Some(b"abc".to_vec())));
    assert!(!good.verify(&Some(b"abcd".to_vec())));
    assert!(!good.verify(&None));
    let plain = image(CheckSums::Missing);
    assert_eq!(plain.check(&Some(b"abc".to_vec())), Verification::NotVerified);
    assert!(plain.verify(&Some(b"abc".to_vec())));
    assert!(!plain.verify(&None));
}

#[test]
fn image_without_digest_is_never_recorded() {
    let plain = image(CheckSums::Missing);
    for content in [Some(b"abc".to_vec()), Some(vec![]), None] {
        let outcome = plain.check(&content);
        assert_eq!(save_image_in_db(&plain, outcome), None);
    }
}

#[test]
fn record_of_a_verified_image() {
    let good = image(CheckSums::Sha256(ABC_SHA256.to_string()));
    let row = HistoryRecord {
        name: "foo.qcow2".to_string(),
        checksum: format!("{ABC_SHA256}\n"),
        date: "2024-02-29 23:59:58".to_string(),
    };
    assert_eq!(HistoryRecord::new(&good), row);
    assert_eq!(save_image_in_db(&good, Verification::Verified), Some(HistoryRecord::new(&good)));
    assert_eq!(save_image_in_db(&good, Verification::Mismatch), None);
    assert_eq!(save_image_in_db(&good, Verification::Unreadable), None);
    assert_eq!(save_image_in_db(&good, Verification::NotVerified), None);
}

#[test]
fn history_rows_are_read() {
    let good = image(CheckSums::Sha256(ABC_SHA256.to_string()));
    let row = || Some(HistoryRecord::new(&good));
    let other = || {
        Some(HistoryRecord { name: "bar".to_string(), checksum: "\n".to_string(), date: "2024-02-29 23:59:58".to_string() })
    };
    assert!(is_image_in_db(Some(&good), &vec![row()]));
    assert!(is_image_in_db(Some(&good), &vec![None, None, row()]));
    assert!(!is_image_in_db(Some(&good), &vec![]));
    assert!(!is_image_in_db(Some(&good), &vec![None]));
    assert!(!is_image_in_db(Some(&good), &vec![other(), row()]));
    assert!(!is_image_in_db(None, &vec![row()]));
    assert!(good.is_in_db(&vec![row()]));
    assert!(!good.is_in_db(&vec![other()]));
    let later = CloudImage::new(good.url.duplicate(), good.checksum.duplicate(), "foo.qcow2".to_string(),
        Timestamp::new(2024, 3, 1, 0, 0, 0).unwrap());
    assert!(!later.is_in_db(&vec![row()]));
}

#[test]
fn statements_speak_of_the_images_table() {
    for statement in [CREATE_TABLE, CREATE_INDEX, SELECT_IMAGE, INSERT_IMAGE] {
        assert!(statement.contains("images"));
    }
    assert!(CREATE_INDEX.contains("UNIQUE"));
    assert!(CREATE_INDEX.contains("(name, checksum, date)"));
}

#[test]
fn image_description() {
    assert_eq!(image(CheckSums::Missing).to_string(), "\t-> https://e.org/12//foo.qcow2\n");
    assert_eq!(
        image(CheckSums::Sha256(ABC_SHA256.to_string())).to_string(),
        format!("\t-> https://e.org/12//foo.qcow2 with checksum {ABC_SHA256}\n")
    );
    assert_eq!(
        image(CheckSums::Sha512(ABC_SHA512.to_string())).to_string(),
        format!("\t-> https://e.org/12//foo.qcow2 with checksum {ABC_SHA512}\n")
    );
    let copy = image(CheckSums::Missing).duplicate();
    assert_eq!(copy, image(CheckSums::Missing));
}

#[test]
fn timestamps_are_days_that_exist() {
    assert!(Timestamp::new(2024, 2, 29, 0, 0, 0).is_some());
    assert!(Timestamp::new(2023, 2, 29, 0, 0, 0).is_none());
    assert!(Timestamp::new(1900, 2, 29, 0, 0, 0).is_none());
    assert!(Timestamp::new(2000, 2, 29, 0, 0, 0).is_some());
    assert!(Timestamp::new(2024, 4, 31, 0, 0, 0).is_none());
    assert!(Timestamp::new(2024, 12, 31, 23, 59, 59).is_some());
    assert!(Timestamp::new(2024, 0, 1, 0, 0, 0).is_none());
    assert!(Timestamp::new(2024, 13, 1, 0, 0, 0).is_none());
    assert!(Timestamp::new(2024, 1, 0, 0, 0, 0).is_none());
    assert!(Timestamp::new(2024, 1, 1, 24, 0, 0).is_none());
    assert!(Timestamp::new(2024, 1, 1, 0, 60, 0).is_none());
    assert!(Timestamp::new(2024, 1, 1, 0, 0, 60).is_none());
    assert!(Timestamp::new(-1, 1, 1, 0, 0, 0).is_none());
    assert!(Timestamp::new(10000, 1, 1, 0, 0, 0).is_none());
    assert!(Timestamp::new(0, 1, 1, 0, 0, 0).is_some());
}

#[test]
fn timestamps_are_written_with_padding() {
    let t = Timestamp::new(7, 3, 4, 5, 6, 9).unwrap();
    assert_eq!(t.format_day(), "00070304");
    assert_eq!(t.format_second(), "0007-03-04 05:06:09");
    let t = Timestamp::new(2025, 12, 31, 23, 59, 59).unwrap();
    assert_eq!(t.format_day(), "20251231");
    assert_eq!(t.format_second(), "2025-12-31 23:59:59");
}
