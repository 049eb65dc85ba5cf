use macos_scan::recipes::{backup_name_shortenable, document_display_name, relative_to_home, FoundFile};
use macos_scan::model::{SafetyLevel, ScanCategory, ScanItem};
use macos_scan::recipes::{
    app_data_items, browser_cache_dirs, browser_cache_items, device_support_dirs,
    document_items, ios_backup_items, is_old_download, keep_walk_entry, old_downloads_items,
    short_backup_name, should_estimate_snapshots, system_log_items, time_machine_items,
    trash_items, xcode_archive_items, AppDataCandidate, Candidate,
};

fn cand(name: &str, size: u64) -> Candidate {
    Candidate {
        id: format!("id-{}", name),
        path: format!("/p/{}", name),
        name: name.to_string(),
        size_bytes: size,
        last_modified: Some(17),
    }
}

fn names(items: &[ScanItem]) -> Vec<String> {
    items.iter().map(|i| i.display_name.clone()).collect()
}

#[test]
fn device_support_skips_empty_folders() {
    let items = device_support_items_of(&[cand("17.0", 0), cand("17.1", 1)]);
    assert_eq!(names(&items), vec!["Device support 17.1"]);
    let i = &items[0];
    assert_eq!(i.id, "id-17.1");
    assert_eq!(i.path, "/p/17.1");
    assert_eq!(i.size_bytes, 1);
    assert_eq!(i.safety, SafetyLevel::Green);
    assert_eq!(i.category, ScanCategory::XcodeDeviceSupport);
    assert_eq!(i.last_modified, Some(17));
    assert_eq!(
        i.description,
        "Debug symbols for a connected iOS device - re-downloaded when you reconnect"
    );
}

fn device_support_items_of(c: &[Candidate]) -> Vec<ScanItem> {
    macos_scan::recipes::device_support_items(&c.to_vec())
}

#[test]
fn archives_report_any_content() {
    assert!(xcode_archive_items(cand("", 0)).is_empty());
    let items = xcode_archive_items(cand("", 5));
    assert_eq!(names(&items), vec!["Xcode Archives"]);
    assert_eq!(items[0].safety, SafetyLevel::Yellow);
}

#[test]
fn browser_caches_threshold_is_50_mb() {
    let items = browser_cache_items(&vec![
        cand("Safari cache", 49_999_999),
        cand("Arc cache", 50_000_000),
    ]);
    assert_eq!(names(&items), vec!["Arc cache"]);
    assert_eq!(items[0].safety, SafetyLevel::Green);
    assert_eq!(items[0].description, "Cached web content - rebuilt automatically as you browse");
}

#[test]
fn logs_threshold_is_50_mb() {
    let items = system_log_items(&vec![cand("Application logs", 60_000_000), cand("x", 1)]);
    assert_eq!(names(&items), vec!["Application logs"]);
    assert_eq!(items[0].category, ScanCategory::SystemLogs);
}

#[test]
fn backups_are_shortened_to_eight_bytes() {
    let items = ios_backup_items(&vec![
        cand("00008030-001A2B3C4D5E6F70", 10),
        cand("short", 3),
        cand("12345678", 0),
    ]);
    assert_eq!(names(&items), vec!["iOS backup (00008030...)", "iOS backup (short)"]);
    assert_eq!(short_backup_name("12345678"), "12345678");
    assert_eq!(short_backup_name("123456789"), "12345678...");
    assert_eq!(short_backup_name("aaaaaaé-rest"), "aaaaaaé...");
}

#[test]
fn trash_threshold_is_10_mb() {
    assert!(trash_items(cand("", 9_999_999)).is_empty());
    assert_eq!(names(&trash_items(cand("", 10_000_000))), vec!["Trash"]);
}

fn file(path: &str, size: u64) -> FoundFile {
    FoundFile {
        id: format!("id-{}", path),
        path: path.to_string(),
        size_bytes: size,
        last_modified: Some(3),
    }
}

#[test]
fn documents_threshold_is_50_mb() {
    let items = document_items(
        "/Users/a",
        &vec![
            file("/Users/a/Movies/a.mov", 50_000_000),
            file("/Users/a/b", 49_999_999),
            file("/Volumes/x/c.iso", 60_000_000),
        ],
    );
    assert_eq!(names(&items), vec!["Movies/a.mov", "/Volumes/x/c.iso"]);
    assert_eq!(items[0].path, "/Users/a/Movies/a.mov");
    assert_eq!(items[0].id, "id-/Users/a/Movies/a.mov");
    assert_eq!(items[0].last_modified, Some(3));
    assert_eq!(items[0].description, "Large personal file - review carefully before removing");
}

#[test]
fn backup_names_that_can_be_shortened() {
    assert!(backup_name_shortenable("00008030-001A2B3C4D5E6F70"));
    assert!(backup_name_shortenable("short"));
    assert!(backup_name_shortenable("aaaaaaé-rest"));
    assert!(!backup_name_shortenable("aaaaaaaé-rest"));
    assert!(!backup_name_shortenable("aaaaaaaé"));
    assert!(backup_name_shortenable("aaaaaaé"));
    assert!(backup_name_shortenable("12345678"));
}

#[test]
fn app_data_threshold_and_names() {
    let mk = |app: Option<&str>, size: u64| AppDataCandidate {
        id: "i".to_string(),
        path: "/p".to_string(),
        app_name: app.map(|s| s.to_string()),
        parent_label: "Containers".to_string(),
        size_bytes: size,
        last_modified: None,
    };
    let items = app_data_items(&vec![
        mk(Some("Slack"), 500_000_000),
        mk(None, 600_000_000),
        mk(Some("Tiny"), 499_999_999),
    ]);
    assert_eq!(names(&items), vec!["Slack (Containers)", "Unknown (Containers)"]);
}

#[test]
fn old_downloads_total_and_count() {
    let items = old_downloads_items("d".to_string(), &vec![30_000_000, 20_000_000, 0]);
    assert_eq!(names(&items), vec!["Old downloads (3 files)"]);
    assert_eq!(items[0].size_bytes, 50_000_000);
    assert_eq!(items[0].path, "downloads://old-files");
    assert_eq!(items[0].last_modified, None);
    assert!(old_downloads_items("d".to_string(), &vec![49_999_999]).is_empty());
    assert!(old_downloads_items("d".to_string(), &vec![]).is_empty());
}

#[test]
fn old_download_cutoff_is_90_days() {
    let now = 1_000_000_000;
    assert!(is_old_download(now - 7_776_001, now));
    assert!(!is_old_download(now - 7_776_000, now));
    assert!(!is_old_download(now, now));
}

#[test]
fn time_machine_estimates() {
    let items = time_machine_items("t".to_string(), 3, None);
    assert_eq!(names(&items), vec!["Time Machine snapshots (3)"]);
    assert_eq!(items[0].size_bytes, 3_000_000_000);
    assert_eq!(items[0].path, "timemachine://snapshots");
    let items = time_machine_items("t".to_string(), 2, Some(123));
    assert_eq!(items[0].size_bytes, 123);
    assert!(time_machine_items("t".to_string(), 2, Some(0)).is_empty());
    assert!(time_machine_items("t".to_string(), 0, Some(5)).is_empty());
    assert!(should_estimate_snapshots(true, 1));
    assert!(!should_estimate_snapshots(false, 1));
    assert!(!should_estimate_snapshots(true, 0));
}

#[test]
fn walk_filter() {
    assert!(keep_walk_entry(".config", 0));
    assert!(!keep_walk_entry(".config", 1));
    assert!(!keep_walk_entry("node_modules", 3));
    assert!(!keep_walk_entry("Library", 1));
    assert!(!keep_walk_entry(".Trash", 0));
    assert!(keep_walk_entry("Projects", 1));
    assert!(keep_walk_entry("library", 1));
}

#[test]
fn places_and_labels() {
    assert_eq!(device_support_dirs().len(), 3);
    let browsers = browser_cache_dirs();
    assert_eq!(browsers.len(), 8);
    assert_eq!(browsers[0], ("Library/Caches/Google/Chrome", "Google Chrome cache"));
}

#[test]
fn every_reported_item_is_fit_to_report() {
    let cats = [
        ScanCategory::XcodeDeviceSupport,
        ScanCategory::BrowserCaches,
        ScanCategory::SystemLogs,
        ScanCategory::Documents,
    ];
    let found: Vec<Candidate> = [0u64, 1, 9_999_999, 10_000_000, 50_000_000, 600_000_000]
        .iter()
        .map(|s| cand("n", *s))
        .collect();
    for c in cats {
        let items = match c {
            ScanCategory::XcodeDeviceSupport => device_support_items_of(&found),
            ScanCategory::BrowserCaches => browser_cache_items(&found),
            ScanCategory::SystemLogs => system_log_items(&found),
            _ => document_items("/home", &found.iter().map(|c| file(&c.path, c.size_bytes)).collect()),
        };
        let large = found.iter().filter(|f| f.size_bytes >= c.min_size()).count();
        assert_eq!(items.len(), large);
        for i in &items {
            assert!(i.size_bytes >= c.min_size());
            assert_eq!(i.category, c);
            assert_eq!(i.safety, c.safety());
            assert_eq!(i.description, c.description());
        }
    }
}

#[test]
fn document_names_are_relative_to_home() {
    assert_eq!(relative_to_home("/Users/a/Movies/x.mov", "/Users/a"), "Movies/x.mov");
    assert_eq!(relative_to_home("/Users/a/Movies/x.mov", "/Users/a/"), "Movies/x.mov");
    assert_eq!(relative_to_home("/Users/ab/x.mov", "/Users/a"), "/Users/ab/x.mov");
    assert_eq!(document_display_name("/p/q", Some("q".to_string())), "q");
    assert_eq!(document_display_name("/p/q", None), "/p/q");
}
