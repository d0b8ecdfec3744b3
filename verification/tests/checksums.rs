use cloud_image_download::checksums::{are_all_checksums_in_one_file, CheckSums};
use cloud_image_download::text::{
    chars_le, concat2, concat3, contains_text, from_chars, same_text, split_lines, to_chars,
};

const HEX64: &str = "abcdef0123456789abcdef0123456789abcdef0123456789abcdef0123456789";

fn hex128() -> String {
    format!("{HEX64}{HEX64}")
}

#[test]
fn aggregate_names_are_recognised() {
    assert!(are_all_checksums_in_one_file("CHECKSUM"));
    assert!(are_all_checksums_in_one_file("SHA256SUMS"));
    assert!(are_all_checksums_in_one_file("SHA512SUMS"));
    assert!(are_all_checksums_in_one_file("Fedora-Cloud-42-1.1-x86_64-CHECKSUM"));
    assert!(!are_all_checksums_in_one_file("foo.qcow2.SHA256SUM"));
    assert!(!are_all_checksums_in_one_file("SHA256SUMS.gpg"));
    assert!(!are_all_checksums_in_one_file("MD5SUMS"));
    assert!(!are_all_checksums_in_one_file(""));
}

#[test]
fn sha256_line_is_parsed() {
    let body = Some(format!("# comment foo-20240101.qcow2\n\n{HEX64}  foo-20240101.qcow2\n"));
    let sum = CheckSums::get_image_checksum_from_checksums_buffer("foo-20240101.qcow2", &body, "SHA256SUMS");
    assert_eq!(sum, CheckSums::Sha256(HEX64.to_string()));
}

#[test]
fn sha512_is_tried_first() {
    let body = Some(format!("{}  foo.qcow2\n", hex128()));
    let sum = CheckSums::get_image_checksum_from_checksums_buffer("foo.qcow2", &body, "SHA512SUMS");
    assert_eq!(sum, CheckSums::Sha512(hex128()));
    let line = format!("SHA512 (foo.qcow2) = {}", hex128());
    assert_eq!(CheckSums::build_checksums_from_line(&line, "CHECKSUM"), CheckSums::Sha512(hex128()));
}

#[test]
fn leftmost_window_wins() {
    let line = format!("{HEX64}0  {}", "1".repeat(64));
    assert_eq!(CheckSums::build_checksums_from_line(&line, "SHA256SUMS"), CheckSums::Sha256(HEX64.to_string()));
}

#[test]
fn missing_digest_cases() {
    assert_eq!(CheckSums::get_image_checksum_from_checksums_buffer("foo", &None, "SHA256SUMS"), CheckSums::Missing);
    let body = Some(format!("{HEX64}  bar.qcow2\n"));
    assert_eq!(CheckSums::get_image_checksum_from_checksums_buffer("foo", &body, "SHA256SUMS"), CheckSums::Missing);
    let body = Some(format!("{HEX64}  foo.qcow2\n"));
    assert_eq!(CheckSums::get_image_checksum_from_checksums_buffer("foo", &body, "MD5SUMS"), CheckSums::Missing);
    let short = Some("abc123  foo.qcow2\n".to_string());
    assert_eq!(CheckSums::get_image_checksum_from_checksums_buffer("foo", &short, "SHA256SUMS"), CheckSums::Missing);
    let upper = Some(format!("{}  foo.qcow2\n", HEX64.to_uppercase()));
    assert_eq!(CheckSums::get_image_checksum_from_checksums_buffer("foo", &upper, "SHA256SUMS"), CheckSums::Missing);
}

#[test]
fn carriage_returns_are_dropped() {
    let body = Some(format!("other\r\n{HEX64}  foo.qcow2\r\n"));
    let sum = CheckSums::get_image_checksum_from_checksums_buffer("foo.qcow2", &body, "SHA256SUMS");
    assert_eq!(sum, CheckSums::Sha256(HEX64.to_string()));
}

#[test]
fn rendering_ends_with_line_feed() {
    assert_eq!(CheckSums::Missing.to_string(), "\n");
    assert_eq!(CheckSums::Sha256(HEX64.to_string()).to_string(), format!("{HEX64}\n"));
    assert_eq!(CheckSums::default(), CheckSums::Missing);
}

#[test]
fn parsing_gives_back_the_formatted_digest() {
    for name in ["foo.qcow2", "a b", "", "abcdef0123456789abcdef0123456789abcdef0123456789abcdef0123456789"] {
        let line = Some(format!("{HEX64}  {name}"));
        let sum = CheckSums::get_image_checksum_from_checksums_buffer(name, &line, "SHA256SUMS");
        assert_eq!(sum, CheckSums::Sha256(HEX64.to_string()));
        let line = Some(format!("{}  {name}", hex128()));
        let sum = CheckSums::get_image_checksum_from_checksums_buffer(name, &line, "dir/SHA512SUMS");
        assert_eq!(sum, CheckSums::Sha512(hex128()));
    }
}

#[test]
fn a_name_that_speaks_of_sha512_changes_the_reading() {
    let name = "foo-SHA512.qcow2";
    let line = Some(format!("{HEX64}  {name}"));
    let sum = CheckSums::get_image_checksum_from_checksums_buffer(name, &line, "SHA256SUMS");
    assert_eq!(sum, CheckSums::Missing);
}

#[test]
fn only_the_first_line_about_the_image_counts() {
    let body = Some(format!("junk foo.qcow2\n{HEX64}  foo.qcow2\n"));
    let sum = CheckSums::get_image_checksum_from_checksums_buffer("foo.qcow2", &body, "SHA256SUMS");
    assert_eq!(sum, CheckSums::Missing);
    let body = Some(format!("#{HEX64}  foo.qcow2\n{}  foo.qcow2", "0".repeat(64)));
    let sum = CheckSums::get_image_checksum_from_checksums_buffer("foo.qcow2", &body, "SHA256SUMS");
    assert_eq!(sum, CheckSums::Sha256("0".repeat(64)));
}

#[test]
fn lines_are_split_as_str_lines_does() {
    let texts = [
        "", "a", "a\n", "a\nb", "a\r\nb\r\n", "\n", "\n\n", "\r\n", "\r", "a\r", "a\r\r\n", "\r\n\r", "a\n\rb",
        "a\r\n\r\nb", "été\r\nhiver\n", "\n\r\n\n", "x\ry\nz\r",
    ];
    for text in texts {
        let ours: Vec<String> = split_lines(&to_chars(text)).iter().map(from_chars).collect();
        let theirs: Vec<String> = text.lines().map(str::to_string).collect();
        assert_eq!(ours, theirs, "lines of {text:?}");
    }
}

#[test]
fn texts_are_searched_as_str_does() {
    let texts = ["", "a", "ab", "ba", "abc", "abcabc", "SHA256", "xSHA256SUMSx", "é", "ée", "z"];
    for hay in texts {
        for needle in texts {
            assert_eq!(contains_text(hay, needle), hay.contains(needle), "{hay:?} contains {needle:?}");
            assert_eq!(same_text(hay, needle), hay == needle);
            assert_eq!(chars_le(&to_chars(hay), &to_chars(needle)), hay <= needle, "{hay:?} <= {needle:?}");
            assert_eq!(concat2(hay, needle), format!("{hay}{needle}"));
            assert_eq!(concat3(hay, "/", needle), format!("{hay}/{needle}"));
        }
    }
}
