use cloud_image_download::image_list::{compare_str_by_date, order_names_by_date, NameOrder};
use cloud_image_download::pattern::{compiles, matches_name};
use cloud_image_download::proxy::Proxies;
use cloud_image_download::settings::{ConfigError, Settings, SiteFault};
use cloud_image_download::website::WebSite;
use std::cmp::Ordering;

fn site(name: &str, base_url: &str, versions: &[&str], filter: &str) -> WebSite {
    WebSite::new(
        name.to_string(),
        versions.iter().map(|v| v.to_string()).collect(),
        base_url.to_string(),
        None,
        filter.to_string(),
        None,
        "/srv/images".to_string(),
        None,
    )
}

fn four_sites() -> Vec<WebSite> {
    vec![
        site("fedora", "https://download.fedoraproject.org/pub/fedora/linux/releases", &["42"], r"\.qcow2$"),
        site("centos", "https://cloud.centos.org/centos", &["9-stream", "10-stream"], r"GenericCloud.*\.qcow2$"),
        site("debian", "https://cloud.debian.org/images/cloud", &["bookworm"], r"generic-amd64.*\.qcow2$"),
        site("ubuntu", "https://cloud-images.ubuntu.com", &["noble"], r"amd64\.img$"),
    ]
}

#[test]
fn test_settings_from_config() {
    let settings = Settings::from_config(Some("~/.cache/cid".to_string()), four_sites(), &None);
    assert_eq!(settings.sites.len(), 4);
    assert_eq!(settings.db_path, Some("~/.cache/cid".to_string()));
}

#[test]
fn test_db_path_settings_from_config() {
    let settings =
        Settings::from_config(Some("~/.cache/cid".to_string()), four_sites(), &Some("/var/lib/cid".to_string()));
    assert_eq!(settings.db_path, Some("/var/lib/cid".to_string()));
}

#[test]
fn test_db_path_settings_default() {
    let settings = Settings::from_config(None, four_sites(), &None);
    assert_eq!(settings.db_path, None);
}

#[test]
fn sound_settings_pass_the_check() {
    let settings = Settings::from_config(None, four_sites(), &None);
    assert_eq!(settings.check(), Ok(()));
    assert_eq!(Settings::from_config(None, vec![], &None).check(), Ok(()));
}

#[test]
fn first_faulty_site_is_named() {
    let mut sites = four_sites();
    sites.push(site("", "https://e.org", &["1"], "x"));
    sites.push(site("late", "relative/path", &["1"], "x"));
    assert_eq!(Settings::from_config(None, sites, &None).check(), Err(ConfigError { site: 4, fault: SiteFault::EmptyName }));
    assert_eq!(site("", "nowhere", &[], "(").check(), Err(SiteFault::EmptyName));
    assert_eq!(site("a", "nowhere", &[], "(").check(), Err(SiteFault::BadBaseUrl));
    assert_eq!(site("a", "https://e.org", &[], "(").check(), Err(SiteFault::NoVersion));
    assert_eq!(site("a", "https://e.org", &["1"], "(").check(), Err(SiteFault::BadFilter));
    assert_eq!(site("a", "https://e.org", &["1"], "x").check(), Ok(()));
}

#[test]
fn expressions_compile_and_match() {
    assert!(compiles(r"\.qcow2$"));
    assert!(!compiles("("));
    assert!(matches_name(r"\.qcow2$", "foo.qcow2"));
    assert!(!matches_name(r"\.qcow2$", "foo.qcow2.sig"));
    assert!(!matches_name("(", "("));
    assert!(matches_name("", "anything"));
}

#[test]
fn proxies_take_the_first_value_that_is_not_empty() {
    let text = |s: &str| Some(s.to_string());
    let p = Proxies::new(text("http://low:1"), text("http://UP:1"), None, text("http://UP:2"));
    assert_eq!(p.http, text("http://low:1"));
    assert_eq!(p.https, text("http://UP:2"));
    let p = Proxies::new(text(""), text("http://UP:1"), text(""), text(""));
    assert_eq!(p.http, text("http://UP:1"));
    assert_eq!(p.https, None);
    let p = Proxies::new(None, None, text("x"), None);
    assert_eq!(p.http, None);
    assert_eq!(p.https, text("x"));
    assert_eq!(Proxies::get_variable_value(None, None), None);
}

#[test]
fn names_compare_by_their_dates() {
    assert_eq!(compare_str_by_date("img-20240101.qcow2", "img-20240215.qcow2"), Ordering::Less);
    assert_eq!(compare_str_by_date("z-20240101.qcow2", "a-20240101.img"), Ordering::Equal);
    assert_eq!(compare_str_by_date("a-20250101", "z-20241231"), Ordering::Greater);
    assert_eq!(compare_str_by_date("nodate", "img-20240101"), Ordering::Less);
    assert_eq!(compare_str_by_date("img-20240101", "nodate"), Ordering::Greater);
    assert_eq!(compare_str_by_date("abc", "abd"), Ordering::Less);
    assert_eq!(compare_str_by_date("abc", "abc"), Ordering::Equal);
    assert_eq!(compare_str_by_date("abd", "abc"), Ordering::Greater);
    assert_eq!(compare_str_by_date("ab", "abc"), Ordering::Less);
    assert_eq!(compare_str_by_date("", ""), Ordering::Equal);
}

#[test]
fn the_leftmost_date_counts() {
    assert_eq!(compare_str_by_date("20240101-20250101", "20240102"), Ordering::Less);
    assert_eq!(compare_str_by_date("120240101", "20231231"), Ordering::Greater);
    assert_eq!(compare_str_by_date("x19991231", "x19991230"), Ordering::Greater);
    assert_eq!(compare_str_by_date("20242101", "20240101"), Ordering::Less);
    assert_eq!(compare_str_by_date("20240141", "20240101"), Ordering::Less);
    assert_eq!(order_names_by_date("a-20240101", "b-20240101"), NameOrder::Same);
    assert_eq!(order_names_by_date("b", "a"), NameOrder::After);
    assert_eq!(order_names_by_date("a", "b-20240101"), NameOrder::Before);
}
