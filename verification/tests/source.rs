use light_devices::error::ScanError;
use light_devices::loader::EntryPath;
use light_devices::source::list_candidate_dirs;
use light_devices::source::RootListing;
use std::path::PathBuf;

fn texts(entries: &[&str]) -> Vec<String> {
    entries.iter().map(|entry| entry.to_string()).collect()
}

fn listed(root: &str, entries: &[&str]) -> RootListing<String> {
    RootListing { root: root.to_string(), entries: Some(texts(entries)) }
}

fn not_listed(root: &str) -> RootListing<String> {
    RootListing { root: root.to_string(), entries: None }
}

fn unreadable(root: &str) -> ScanError {
    ScanError::RootUnreadable { path: root.to_string() }
}

fn two_roots() -> Vec<RootListing<String>> {
    vec![
        listed("/sys/class/leds", &["/sys/class/leds/b", "/sys/class/leds/a"]),
        listed("/sys/class/backlight", &["/sys/class/backlight/lcd0"]),
    ]
}

#[test]
fn no_root_gives_no_candidate() {
    assert_eq!(list_candidate_dirs(Vec::<RootListing<String>>::new()), Ok(Vec::new()));
}

#[test]
fn empty_roots_give_no_candidate() {
    let listings = vec![listed("/sys/class/leds", &[]), listed("/sys/class/backlight", &[])];
    assert_eq!(list_candidate_dirs(listings), Ok(Vec::new()));
}

#[test]
fn entries_are_merged_root_after_root() {
    let listings = vec![
        listed("/sys/class/leds", &["/sys/class/leds/b", "/sys/class/leds/a"]),
        listed("/sys/class/empty", &[]),
        listed("/sys/class/backlight", &["/sys/class/backlight/lcd0"]),
    ];
    assert_eq!(
        list_candidate_dirs(listings),
        Ok(texts(&["/sys/class/leds/b", "/sys/class/leds/a", "/sys/class/backlight/lcd0"]))
    );
}

#[test]
fn entries_that_occur_twice_are_kept_twice() {
    let listings = vec![listed("/a", &["/a/x", "/a/x"]), listed("/a", &["/a/x"])];
    assert_eq!(list_candidate_dirs(listings), Ok(texts(&["/a/x", "/a/x", "/a/x"])));
}

#[test]
fn entries_may_be_paths_of_the_operating_system() {
    let led = PathBuf::from("/sys/class/leds/led0");
    let lcd = PathBuf::from("/sys/class/backlight/lcd0");
    let listings = vec![
        RootListing { root: "/sys/class/leds".to_string(), entries: Some(vec![led.clone()]) },
        RootListing { root: "/sys/class/backlight".to_string(), entries: Some(vec![lcd.clone()]) },
    ];
    assert_eq!(list_candidate_dirs(listings), Ok(vec![led, lcd]));
}

#[test]
fn entries_whose_names_are_not_text_are_kept() {
    let listings = vec![RootListing {
        root: "/sys/class/leds".to_string(),
        entries: Some(vec![EntryPath::NotText("/sys/class/leds/\u{FFFD}".to_string())]),
    }];
    assert_eq!(
        list_candidate_dirs(listings),
        Ok(vec![EntryPath::NotText("/sys/class/leds/\u{FFFD}".to_string())])
    );
}

#[test]
fn a_root_that_was_not_listed_fails_the_scan() {
    let listings = vec![not_listed("/sys/class/leds")];
    assert_eq!(list_candidate_dirs(listings), Err(unreadable("/sys/class/leds")));
}

#[test]
fn a_root_that_was_not_listed_hides_the_roots_that_were() {
    let listings = vec![
        listed("/sys/class/leds", &["/sys/class/leds/led0"]),
        not_listed("/sys/class/missing"),
        listed("/sys/class/backlight", &["/sys/class/backlight/lcd0"]),
    ];
    assert_eq!(list_candidate_dirs(listings), Err(unreadable("/sys/class/missing")));
}

#[test]
fn the_first_root_that_was_not_listed_is_named() {
    let listings = vec![
        listed("/sys/class/leds", &[]),
        not_listed("/sys/class/one"),
        not_listed("/sys/class/two"),
    ];
    let error = list_candidate_dirs(listings).unwrap_err();
    assert_eq!(error, unreadable("/sys/class/one"));
    assert_eq!(error.path(), "/sys/class/one");
    assert_eq!(error.describe(), "could not list the directory '/sys/class/one'");
}

#[test]
fn the_same_listings_give_the_same_candidates() {
    assert_eq!(list_candidate_dirs(two_roots()), list_candidate_dirs(two_roots()));
    let failing = vec![listed("/a", &["/a/x"]), not_listed("/b")];
    let again = vec![listed("/a", &["/a/x"]), not_listed("/b")];
    assert_eq!(list_candidate_dirs(failing), list_candidate_dirs(again));
}
