//! What a scan reports: items, their categories and safety levels.

use vstd::prelude::*;

verus! {

/// How safe removing an item is.
#[derive(Clone, Copy, Debug, PartialEq, Eq, Structural)]
pub enum SafetyLevel {
    /// Rebuilt or re-downloaded on demand.
    Green,
    /// Worth a look before removing.
    Yellow,
}

/// The kind of space an item takes.
#[derive(Clone, Copy, Debug, PartialEq, Eq, Structural)]
pub enum ScanCategory {
    XcodeDeviceSupport,
    XcodeArchives,
    BrowserCaches,
    SystemLogs,
    IosBackups,
    Trash,
    OldDownloads,
    Documents,
    AppData,
    TimeMachineSnapshots,
}

/// One finding of a scan.
#[derive(Clone, Debug)]
pub struct ScanItem {
    pub id: String,
    pub path: String,
    pub display_name: String,
    pub description: String,
    pub size_bytes: u64,
    pub safety: SafetyLevel,
    pub category: ScanCategory,
    pub last_modified: Option<i64>,
}

/// A scan item with its texts as character sequences.
pub struct ScanItemView {
    pub id: Seq<char>,
    pub path: Seq<char>,
    pub display_name: Seq<char>,
    pub description: Seq<char>,
    pub size_bytes: u64,
    pub safety: SafetyLevel,
    pub category: ScanCategory,
    pub last_modified: Option<i64>,
}

impl View for ScanItem {
    type V = ScanItemView;

    open spec fn view(&self) -> ScanItemView {
        ScanItemView {
            id: self.id@,
            path: self.path@,
            display_name: self.display_name@,
            description: self.description@,
            size_bytes: self.size_bytes,
            safety: self.safety,
            category: self.category,
            last_modified: self.last_modified,
        }
    }
}

/// The description every item of category `c` carries.
pub open spec fn description_text(c: ScanCategory) -> Seq<char> {
    match c {
        ScanCategory::XcodeDeviceSupport =>
            "Debug symbols for a connected iOS device - re-downloaded when you reconnect"@,
        ScanCategory::XcodeArchives =>
            "Archived app builds - review before removing if you need to submit older versions"@,
        ScanCategory::BrowserCaches => "Cached web content - rebuilt automatically as you browse"@,
        ScanCategory::SystemLogs =>
            "Log files from apps and the system - safe to remove, new logs created as needed"@,
        ScanCategory::IosBackups =>
            "Local iPhone/iPad backup - check you have iCloud backup before removing"@,
        ScanCategory::Trash => "Files you've already deleted but haven't emptied yet"@,
        ScanCategory::OldDownloads => "Files in Downloads older than 90 days"@,
        ScanCategory::Documents => "Large personal file - review carefully before removing"@,
        ScanCategory::AppData => "App sandbox data - removing may sign you out or lose app state"@,
        ScanCategory::TimeMachineSnapshots =>
            "Local Time Machine snapshots - new ones are created automatically"@,
    }
}

/// The safety level of every item of category `c`: caches, logs and
/// device support files come back on their own; the rest is the user's.
pub open spec fn safety_of(c: ScanCategory) -> SafetyLevel {
    match c {
        ScanCategory::XcodeDeviceSupport => SafetyLevel::Green,
        ScanCategory::BrowserCaches => SafetyLevel::Green,
        ScanCategory::SystemLogs => SafetyLevel::Green,
        _ => SafetyLevel::Yellow,
    }
}

/// The least size, in bytes, at which something of category `c` is reported.
pub open spec fn min_size_of(c: ScanCategory) -> u64 {
    match c {
        ScanCategory::BrowserCaches => 50_000_000,
        ScanCategory::SystemLogs => 50_000_000,
        ScanCategory::Trash => 10_000_000,
        ScanCategory::OldDownloads => 50_000_000,
        ScanCategory::Documents => 50_000_000,
        ScanCategory::AppData => 500_000_000,
        _ => 1,
    }
}

/// The key that, with an item's source path, identifies it.
pub open spec fn id_key_text(c: ScanCategory) -> Seq<char> {
    match c {
        ScanCategory::XcodeDeviceSupport => "xcode_device_support"@,
        ScanCategory::XcodeArchives => "xcode_archives"@,
        ScanCategory::BrowserCaches => "browser_caches"@,
        ScanCategory::SystemLogs => "system_logs"@,
        ScanCategory::IosBackups => "ios_backups"@,
        ScanCategory::Trash => "trash"@,
        ScanCategory::OldDownloads => "old_downloads"@,
        ScanCategory::Documents => "documents"@,
        ScanCategory::AppData => "app_data"@,
        ScanCategory::TimeMachineSnapshots => "time_machine_snapshots"@,
    }
}

/// An item as a scan reports it: the category fixes its description and safety level.
pub open spec fn item_view(
    id: Seq<char>,
    path: Seq<char>,
    display_name: Seq<char>,
    category: ScanCategory,
    size_bytes: u64,
    last_modified: Option<i64>,
) -> ScanItemView {
    ScanItemView {
        id,
        path,
        display_name,
        description: description_text(category),
        size_bytes,
        safety: safety_of(category),
        category,
        last_modified,
    }
}

/// An item fit to report: its description and safety level are those of
/// its category and it is at least as large as the category asks.
pub open spec fn reportable(item: ScanItemView) -> bool {
    &&& item.description == description_text(item.category)
    &&& item.safety == safety_of(item.category)
    &&& item.size_bytes >= min_size_of(item.category)
}

/// The description and identity key of each category, written out.
pub proof fn lemma_category_texts()
    ensures
        description_text(ScanCategory::XcodeDeviceSupport)
            == "Debug symbols for a connected iOS device - re-downloaded when you reconnect"@,
        description_text(ScanCategory::XcodeArchives)
            == "Archived app builds - review before removing if you need to submit older versions"@,
        description_text(ScanCategory::BrowserCaches)
            == "Cached web content - rebuilt automatically as you browse"@,
        description_text(ScanCategory::SystemLogs)
            == "Log files from apps and the system - safe to remove, new logs created as needed"@,
        description_text(ScanCategory::IosBackups)
            == "Local iPhone/iPad backup - check you have iCloud backup before removing"@,
        description_text(ScanCategory::Trash)
            == "Files you've already deleted but haven't emptied yet"@,
        description_text(ScanCategory::OldDownloads) == "Files in Downloads older than 90 days"@,
        description_text(ScanCategory::Documents)
            == "Large personal file - review carefully before removing"@,
        description_text(ScanCategory::AppData)
            == "App sandbox data - removing may sign you out or lose app state"@,
        description_text(ScanCategory::TimeMachineSnapshots)
            == "Local Time Machine snapshots - new ones are created automatically"@,
        id_key_text(ScanCategory::XcodeDeviceSupport) == "xcode_device_support"@,
        id_key_text(ScanCategory::XcodeArchives) == "xcode_archives"@,
        id_key_text(ScanCategory::BrowserCaches) == "browser_caches"@,
        id_key_text(ScanCategory::SystemLogs) == "system_logs"@,
        id_key_text(ScanCategory::IosBackups) == "ios_backups"@,
        id_key_text(ScanCategory::Trash) == "trash"@,
        id_key_text(ScanCategory::OldDownloads) == "old_downloads"@,
        id_key_text(ScanCategory::Documents) == "documents"@,
        id_key_text(ScanCategory::AppData) == "app_data"@,
        id_key_text(ScanCategory::TimeMachineSnapshots) == "time_machine_snapshots"@,
{
}

impl ScanCategory {
    /// The description every item of this category carries.
    pub fn description(&self) -> (s: &'static str)
        ensures
            s@ == description_text(*self),
    {
        match self {
            ScanCategory::XcodeDeviceSupport =>
                "Debug symbols for a connected iOS device - re-downloaded when you reconnect",
            ScanCategory::XcodeArchives =>
                "Archived app builds - review before removing if you need to submit older versions",
            ScanCategory::BrowserCaches =>
                "Cached web content - rebuilt automatically as you browse",
            ScanCategory::SystemLogs =>
                "Log files from apps and the system - safe to remove, new logs created as needed",
            ScanCategory::IosBackups =>
                "Local iPhone/iPad backup - check you have iCloud backup before removing",
            ScanCategory::Trash => "Files you've already deleted but haven't emptied yet",
            ScanCategory::OldDownloads => "Files in Downloads older than 90 days",
            ScanCategory::Documents => "Large personal file - review carefully before removing",
            ScanCategory::AppData =>
                "App sandbox data - removing may sign you out or lose app state",
            ScanCategory::TimeMachineSnapshots =>
                "Local Time Machine snapshots - new ones are created automatically",
        }
    }

    /// The safety level of every item of this category.
    pub fn safety(&self) -> (s: SafetyLevel)
        ensures
            s == safety_of(*self),
    {
        match self {
            ScanCategory::XcodeDeviceSupport => SafetyLevel::Green,
            ScanCategory::BrowserCaches => SafetyLevel::Green,
            ScanCategory::SystemLogs => SafetyLevel::Green,
            _ => SafetyLevel::Yellow,
        }
    }

    /// The least size, in bytes, at which something of this category is reported.
    pub fn min_size(&self) -> (n: u64)
        ensures
            n == min_size_of(*self),
    {
        match self {
            ScanCategory::BrowserCaches => 50_000_000,
            ScanCategory::SystemLogs => 50_000_000,
            ScanCategory::Trash => 10_000_000,
            ScanCategory::OldDownloads => 50_000_000,
            ScanCategory::Documents => 50_000_000,
            ScanCategory::AppData => 500_000_000,
            _ => 1,
        }
    }

    /// Whether something of this category that takes `size_bytes` is large
    /// enough to report.
    pub fn meets_min_size(&self, size_bytes: u64) -> (b: bool)
        ensures
            b == (size_bytes >= min_size_of(*self)),
    {
        size_bytes >= self.min_size()
    }

    /// The key that, with an item's source path, identifies it.
    pub fn id_key(&self) -> (s: &'static str)
        ensures
            s@ == id_key_text(*self),
    {
        match self {
            ScanCategory::XcodeDeviceSupport => "xcode_device_support",
            ScanCategory::XcodeArchives => "xcode_archives",
            ScanCategory::BrowserCaches => "browser_caches",
            ScanCategory::SystemLogs => "system_logs",
            ScanCategory::IosBackups => "ios_backups",
            ScanCategory::Trash => "trash",
            ScanCategory::OldDownloads => "old_downloads",
            ScanCategory::Documents => "documents",
            ScanCategory::AppData => "app_data",
            ScanCategory::TimeMachineSnapshots => "time_machine_snapshots",
        }
    }
}

/// Builds the item of `category` with the given identity, place, name and size.
pub fn make_item(
    id: String,
    path: String,
    display_name: String,
    category: ScanCategory,
    size_bytes: u64,
    last_modified: Option<i64>,
) -> (item: ScanItem)
    ensures
        item@ == item_view(id@, path@, display_name@, category, size_bytes, last_modified),
{
    ScanItem {
        id,
        path,
        display_name,
        description: String::from_str(category.description()),
        size_bytes,
        safety: category.safety(),
        category,
        last_modified,
    }
}

} // verus!
