use chrono::{NaiveDate, NaiveDateTime};
use cloud_image_download::cloud_image::CloudImage;
use cloud_image_download::checksums::CheckSums;
use cloud_image_download::download::plan_download;
use cloud_image_download::pattern::matches_name;
use cloud_image_download::timestamp::{Timestamp, DAY_PATTERN, SECOND_PATTERN};
use cloud_image_download::website::{Url, DATED_DIRECTORY, NUMBERED_DIRECTORY};

const YEARS: [i32; 14] = [-1, 0, 1, 4, 99, 100, 400, 1900, 1999, 2000, 2023, 2024, 9999, 10000];

fn chrono_instant(y: i32, m: u32, d: u32, h: u32, mi: u32, s: u32) -> Option<NaiveDateTime> {
    NaiveDate::from_ymd_opt(y, m, d).and_then(|date| date.and_hms_opt(h, mi, s))
}

#[test]
fn days_exist_as_the_calendar_says() {
    for year in YEARS {
        for month in 0..=13 {
            for day in 0..=32 {
                let ours = Timestamp::new(year, month, day, 0, 0, 0);
                let theirs = chrono_instant(year, month, day, 0, 0, 0);
                let in_range = (0..=9999).contains(&year);
                assert_eq!(ours.is_some(), theirs.is_some() && in_range, "{year}-{month}-{day}");
            }
        }
    }
}

#[test]
fn times_of_day_exist_as_the_clock_says() {
    for (hour, minute, second) in [(0, 0, 0), (23, 59, 59), (24, 0, 0), (0, 60, 0), (0, 0, 60), (12, 30, 61)] {
        let ours = Timestamp::new(2024, 6, 15, hour, minute, second);
        let theirs = chrono_instant(2024, 6, 15, hour, minute, second);
        assert_eq!(ours.is_some(), theirs.is_some(), "{hour}:{minute}:{second}");
    }
}

#[test]
fn instants_are_written_as_the_patterns_say() {
    for year in YEARS {
        for (month, day) in [(1, 1), (2, 28), (2, 29), (9, 9), (10, 10), (12, 31)] {
            for (hour, minute, second) in [(0, 0, 0), (9, 8, 7), (23, 59, 59)] {
                let Some(ours) = Timestamp::new(year, month, day, hour, minute, second) else {
                    continue;
                };
                let theirs = chrono_instant(year, month, day, hour, minute, second).unwrap();
                assert_eq!(ours.format_day(), theirs.format(DAY_PATTERN).to_string());
                assert_eq!(ours.format_second(), theirs.format(SECOND_PATTERN).to_string());
                assert_eq!(ours.format_day().len(), 8);
                assert_eq!(ours.format_second().len(), 19);
            }
        }
    }
}

#[test]
fn instants_are_ordered_as_time_goes() {
    let instants = [
        (2023, 12, 31, 23, 59, 59),
        (2024, 1, 1, 0, 0, 0),
        (2024, 1, 1, 0, 0, 1),
        (2024, 1, 1, 0, 1, 0),
        (2024, 1, 1, 1, 0, 0),
        (2024, 1, 2, 0, 0, 0),
        (2024, 2, 1, 0, 0, 0),
        (2025, 1, 1, 0, 0, 0),
    ];
    for a in instants {
        for b in instants {
            let ours = Timestamp::new(a.0, a.1, a.2, a.3, a.4, a.5).unwrap();
            let other = Timestamp::new(b.0, b.1, b.2, b.3, b.4, b.5).unwrap();
            let theirs = chrono_instant(a.0, a.1, a.2, a.3, a.4, a.5) < chrono_instant(b.0, b.1, b.2, b.3, b.4, b.5);
            assert_eq!(ours.is_before(&other), theirs);
        }
    }
}

#[test]
fn dated_directories_are_recognised() {
    for name in ["20240101/", "20240101-1234/", "x20240101/", "daily-20240101/", "123456789/"] {
        assert!(matches_name(DATED_DIRECTORY, name), "{name}");
    }
    for name in ["2024010/", "20240101", "20240101-123/", "20240101/x", "latest/", "20240101-12345/", ""] {
        assert!(!matches_name(DATED_DIRECTORY, name), "{name}");
    }
}

#[test]
fn numbered_directories_are_recognised() {
    for name in ["42/", "042/", "10/", "1234567/"] {
        assert!(matches_name(NUMBERED_DIRECTORY, name), "{name}");
    }
    for name in ["4/", "42", "4.2/", "v42/", "42/x", "/", ""] {
        assert!(!matches_name(NUMBERED_DIRECTORY, name), "{name}");
    }
}

#[test]
fn addresses_are_parsed_to_their_normal_form() {
    let parsed = |address: &str| {
        let image = CloudImage::new(
            Url::new(address.to_string(), None, None),
            CheckSums::Missing,
            "x".to_string(),
            Timestamp::new(2024, 1, 1, 0, 0, 0).unwrap(),
        );
        plan_download(&image, "d", false).map(|d| d.url)
    };
    assert_eq!(parsed("https://example.org/a//b.qcow2"), Some("https://example.org/a//b.qcow2".to_string()));
    assert_eq!(parsed("http://EXAMPLE.org:80/a b"), Some("http://example.org/a%20b".to_string()));
    assert_eq!(parsed("https://example.org"), Some("https://example.org/".to_string()));
    assert_eq!(parsed("example.org/a"), None);
    assert_eq!(parsed("/a/b"), None);
    assert_eq!(parsed(""), None);
    assert_eq!(parsed("https://"), None);
}
