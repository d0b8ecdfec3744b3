use cloud_image_download::checksums::CheckSums;
use cloud_image_download::image_list::{CloudImage, ImageList};
use std::cmp::Ordering;

fn image(url: &str) -> CloudImage {
    CloudImage::new(url.to_string(), CheckSums::Missing)
}

fn urls(list: &ImageList) -> Vec<&str> {
    list.list.iter().map(|i| i.url.as_str()).collect()
}

#[test]
fn images_compare_by_the_dates_of_their_addresses() {
    assert_eq!(image("a-20240101").compare_dates_in_names(&image("b-20240102")), Ordering::Less);
    assert_eq!(image("a-20240101").compare_dates_in_names(&image("b-20240101")), Ordering::Equal);
    assert_eq!(image("a-20240103").compare_dates_in_names(&image("b-20240102")), Ordering::Greater);
}

#[test]
fn list_grows_at_its_end() {
    let mut list = ImageList::new();
    assert!(list.is_empty());
    list.push(image("one")).push(image("two"));
    let mut other = ImageList::new();
    other.push(image("three"));
    list.extend(other).push(image("four"));
    assert_eq!(urls(&list), vec!["one", "two", "three", "four"]);
    assert!(!list.is_empty());
}

#[test]
fn sorting_is_by_date_and_keeps_equal_images_in_order() {
    let mut list = ImageList::new();
    for url in ["c-20240301", "x-20240101", "nodate-b", "a-20240301", "nodate-a", "z-20231231", "b-20240301"] {
        list.push(image(url));
    }
    list.sort_by_date();
    assert_eq!(
        urls(&list),
        vec!["nodate-a", "nodate-b", "z-20231231", "x-20240101", "c-20240301", "a-20240301", "b-20240301"]
    );
    let mut expected: Vec<CloudImage> = ["c-20240301", "x-20240101", "nodate-b", "a-20240301", "nodate-a", "z-20231231", "b-20240301"]
        .iter()
        .map(|u| image(u))
        .collect();
    expected.sort_by(|a, b| a.compare_dates_in_names(b));
    assert_eq!(list.list, expected);
    let mut empty = ImageList::new();
    empty.sort_by_date();
    assert!(empty.is_empty());
}

#[test]
fn only_the_last_element_is_kept() {
    let mut list = ImageList::new();
    list.only_keep_last_element();
    assert!(list.is_empty());
    list.push(image("one")).push(image("two")).push(image("three"));
    list.only_keep_last_element();
    assert_eq!(urls(&list), vec!["three"]);
    list.only_keep_last_element();
    assert_eq!(urls(&list), vec!["three"]);
}

#[test]
fn list_is_described_line_by_line() {
    let mut list = ImageList::new();
    assert_eq!(list.to_string(), "");
    list.push(image("https://e.org/a"));
    list.push(CloudImage::new("https://e.org/b".to_string(), CheckSums::Sha256("00".to_string())));
    assert_eq!(list.to_string(), "\t-> https://e.org/a\n\t-> https://e.org/b with checksum 00\n");
}

#[test]
fn listed_image_is_verified_by_its_digest() {
    let abc = "ba7816bf8f01cfea414140de5dae2223b00361a396177a9cb410ff61f20015ad";
    let with_digest = CloudImage::new("https://e.org/a".to_string(), CheckSums::Sha256(abc.to_string()));
    assert!(with_digest.verify(&Some(b"abc".to_vec())));
    assert!(!with_digest.verify(&Some(b"abd".to_vec())));
    assert!(!with_digest.verify(&None));
    assert!(image("https://e.org/a").verify(&Some(b"abc".to_vec())));
    assert!(!image("https://e.org/a").verify(&None));
}
