//! The scan recipes: where each one looks, which of its findings it
//! reports, and how it names and describes them.

use vstd::prelude::*;
use vstd::string::StringSliceAdditionalSpecFns;
use vstd::utf8::{
    decode_utf8, encode_utf8, encode_utf8_decode_utf8, is_ascii_chars, is_ascii_chars_encode_utf8,
    is_char_boundary,
};
use crate::model::{
    item_view, min_size_of, make_item, reportable, safety_of, SafetyLevel, ScanCategory, ScanItem,
    ScanItemView,
};
use crate::number::{decimal, push_decimal};
use crate::text::chars_of;

verus! {

/// Something a recipe found: its identity, where it is, what it is called
/// and how large it is.
#[derive(Clone, Debug)]
pub struct Candidate {
    pub id: String,
    pub path: String,
    pub name: String,
    pub size_bytes: u64,
    pub last_modified: Option<i64>,
}

/// A candidate with its texts as character sequences.
pub struct CandidateView {
    pub id: Seq<char>,
    pub path: Seq<char>,
    pub name: Seq<char>,
    pub size_bytes: u64,
    pub last_modified: Option<i64>,
}

impl View for Candidate {
    type V = CandidateView;

    open spec fn view(&self) -> CandidateView {
        CandidateView {
            id: self.id@,
            path: self.path@,
            name: self.name@,
            size_bytes: self.size_bytes,
            last_modified: self.last_modified,
        }
    }
}

/// The views of a sequence of candidates.
pub open spec fn candidates_view(s: Seq<Candidate>) -> Seq<CandidateView> {
    s.map_values(|c: Candidate| c@)
}

/// The views of a sequence of items.
pub open spec fn items_view(s: Seq<ScanItem>) -> Seq<ScanItemView> {
    s.map_values(|i: ScanItem| i@)
}

/// A backup folder's name as shown: its first 8 bytes and `...` when it
/// is longer than 8 bytes (backup folders are named by UUIDs).
pub open spec fn short_backup_id(name: Seq<char>) -> Seq<char> {
    let b = encode_utf8(name);
    if b.len() > 8 {
        decode_utf8(b.take(8)) + "..."@
    } else {
        name
    }
}

/// A name that can be shortened: at most 8 bytes long, or with a
/// character boundary after its 8th byte.
pub open spec fn backup_id_shortenable(name: Seq<char>) -> bool {
    encode_utf8(name).len() <= 8 || is_char_boundary(encode_utf8(name), 8)
}

/// The name under which a finding of `category` called `name` is shown.
pub open spec fn display_for(category: ScanCategory, name: Seq<char>) -> Seq<char> {
    match category {
        ScanCategory::XcodeDeviceSupport => "Device support "@ + name,
        ScanCategory::XcodeArchives => "Xcode Archives"@,
        ScanCategory::IosBackups => "iOS backup ("@ + short_backup_id(name) + ")"@,
        ScanCategory::Trash => "Trash"@,
        _ => name,
    }
}

/// The item that a candidate of `category` becomes.
pub open spec fn candidate_item(c: CandidateView, category: ScanCategory) -> ScanItemView {
    item_view(c.id, c.path, display_for(category, c.name), category, c.size_bytes, c.last_modified)
}

/// What a recipe of `category` reports of its candidates: in order, those
/// at least as large as the category asks.
pub open spec fn reported(cands: Seq<CandidateView>, category: ScanCategory) -> Seq<ScanItemView>
    decreases cands.len(),
{
    if cands.len() == 0 {
        seq![]
    } else {
        let rest = reported(cands.drop_last(), category);
        if cands.last().size_bytes >= min_size_of(category) {
            rest.push(candidate_item(cands.last(), category))
        } else {
            rest
        }
    }
}

/// Number of candidates at least as large as `category` asks.
pub open spec fn count_large(cands: Seq<CandidateView>, category: ScanCategory) -> nat
    decreases cands.len(),
{
    if cands.len() == 0 {
        0
    } else {
        count_large(cands.drop_last(), category) + if cands.last().size_bytes >= min_size_of(
            category,
        ) {
            1nat
        } else {
            0nat
        }
    }
}

/// Every reported item is fit to report and of the recipe's category, and
/// exactly as many items are reported as candidates meet the size the
/// category asks.
pub proof fn lemma_reported_items(cands: Seq<CandidateView>, category: ScanCategory)
    ensures
        reported(cands, category).len() == count_large(cands, category),
        forall|i: int|
            0 <= i < reported(cands, category).len() ==> {
                &&& reportable(#[trigger] reported(cands, category)[i])
                &&& reported(cands, category)[i].category == category
            },
    decreases cands.len(),
{
    if cands.len() > 0 {
        lemma_reported_items(cands.drop_last(), category);
    }
}

/// What each category asks and implies: device support, browser caches and
/// logs are safe to remove (Green), everything else needs a look (Yellow);
/// browser caches, logs, old downloads and documents are reported from
/// 50 MB, the Trash from 10 MB, app data from 500 MB, the rest from 1 byte.
pub proof fn lemma_category_rules(c: ScanCategory)
    ensures
        safety_of(c) == SafetyLevel::Green <==> (c == ScanCategory::XcodeDeviceSupport || c
            == ScanCategory::BrowserCaches || c == ScanCategory::SystemLogs),
        safety_of(c) == SafetyLevel::Yellow <==> !(c == ScanCategory::XcodeDeviceSupport || c
            == ScanCategory::BrowserCaches || c == ScanCategory::SystemLogs),
        c == ScanCategory::BrowserCaches ==> min_size_of(c) == 50_000_000,
        c == ScanCategory::SystemLogs ==> min_size_of(c) == 50_000_000,
        c == ScanCategory::OldDownloads ==> min_size_of(c) == 50_000_000,
        c == ScanCategory::Documents ==> min_size_of(c) == 50_000_000,
        c == ScanCategory::Trash ==> min_size_of(c) == 10_000_000,
        c == ScanCategory::AppData ==> min_size_of(c) == 500_000_000,
        c == ScanCategory::XcodeDeviceSupport ==> min_size_of(c) == 1,
        c == ScanCategory::XcodeArchives ==> min_size_of(c) == 1,
        c == ScanCategory::IosBackups ==> min_size_of(c) == 1,
        c == ScanCategory::TimeMachineSnapshots ==> min_size_of(c) == 1,
{
}

/// Every item a recipe reports is Green exactly for device support,
/// browser caches and logs and Yellow otherwise (device backups, archives,
/// Trash, documents, app data among them), and carries a size of at least
/// what its category asks.
pub proof fn lemma_reported_safety(cands: Seq<CandidateView>, category: ScanCategory)
    ensures
        forall|i: int|
            0 <= i < reported(cands, category).len() ==> {
                &&& (#[trigger] reported(cands, category)[i]).safety == if category
                    == ScanCategory::XcodeDeviceSupport || category == ScanCategory::BrowserCaches
                    || category == ScanCategory::SystemLogs {
                    SafetyLevel::Green
                } else {
                    SafetyLevel::Yellow
                }
                &&& reported(cands, category)[i].size_bytes >= min_size_of(category)
            },
{
    lemma_reported_items(cands, category);
    lemma_category_rules(category);
}

/// The name under which a backup folder called `name` is shown.
pub fn short_backup_name(name: &str) -> (s: String)
    requires
        backup_id_shortenable(name@),
    ensures
        s@ == short_backup_id(name@),
{
    if name.as_bytes().len() > 8 {
        let (head, _tail) = name.split_at(8);
        proof {
            encode_utf8_decode_utf8(head@);
            assert(head.spec_bytes() == encode_utf8(head@));
            assert(encode_utf8(name@).take(8) =~= name.spec_bytes().subrange(0, 8));
            assert(head@ == decode_utf8(encode_utf8(name@).take(8)));
        }
        let mut s = String::from_str(head);
        s.append("...");
        s
    } else {
        String::from_str(name)
    }
}

/// Whether a backup folder called `name` can be shortened for display.
pub fn backup_name_shortenable(name: &str) -> (b: bool)
    ensures
        b == backup_id_shortenable(name@),
{
    name.as_bytes().len() <= 8 || name.is_char_boundary(8)
}

/// A backup named in ASCII (as the UUIDs that name backups are) is shown
/// by its first 8 characters and `...` when longer than 8 characters, and
/// in full otherwise.
pub proof fn lemma_ascii_backup_id(name: Seq<char>)
    requires
        is_ascii_chars(name),
    ensures
        backup_id_shortenable(name),
        short_backup_id(name) == if name.len() > 8 {
            name.take(8) + "..."@
        } else {
            name
        },
{
    is_ascii_chars_encode_utf8(name);
    if name.len() > 8 {
        let head = name.take(8);
        assert(is_ascii_chars(head));
        is_ascii_chars_encode_utf8(head);
        assert(encode_utf8(name).take(8) =~= encode_utf8(head));
        encode_utf8_decode_utf8(head);
        let b = encode_utf8(name);
        let byte: u8 = b[8];
        let c: char = name[8];
        assert(byte == c as u8);
        assert('\0' <= c <= '\u{7f}');
        assert(byte <= 0x7f);
        vstd::utf8::encode_utf8_valid_utf8(name);
        vstd::utf8::is_char_boundary_iff_not_is_continuation_byte(b, 8);
    }
}

/// The name under which a finding of `category` called `name` is shown.
fn display_name_for(category: ScanCategory, name: &str) -> (s: String)
    requires
        category == ScanCategory::IosBackups ==> backup_id_shortenable(name@),
    ensures
        s@ == display_for(category, name@),
{
    match category {
        ScanCategory::XcodeDeviceSupport => {
            let mut s = String::from_str("Device support ");
            s.append(name);
            s
        },
        ScanCategory::XcodeArchives => String::from_str("Xcode Archives"),
        ScanCategory::IosBackups => {
            let mut s = String::from_str("iOS backup (");
            let short = short_backup_name(name);
            s.append(short.as_str());
            s.append(")");
            s
        },
        ScanCategory::Trash => String::from_str("Trash"),
        _ => String::from_str(name),
    }
}

/// The items that a recipe of `category` reports of its candidates.
fn report(cands: &Vec<Candidate>, category: ScanCategory) -> (r: Vec<ScanItem>)
    requires
        category == ScanCategory::IosBackups ==> forall|i: int|
            0 <= i < cands.len() ==> backup_id_shortenable(#[trigger] cands[i].name@),
    ensures
        items_view(r@) == reported(candidates_view(cands@), category),
{
    let ghost cv = candidates_view(cands@);
    let mut r: Vec<ScanItem> = Vec::new();
    let mut i: usize = 0;
    assert(cv.take(0) =~= seq![]);
    assert(items_view(r@) =~= seq![]);
    while i < cands.len()
        invariant
            cv == candidates_view(cands@),
            i <= cands.len(),
            category == ScanCategory::IosBackups ==> forall|k: int|
                0 <= k < cands.len() ==> backup_id_shortenable(#[trigger] cands[k].name@),
            items_view(r@) == reported(cv.take(i as int), category),
        decreases cands.len() - i,
    {
        let c = &cands[i];
        assert(cv.take(i + 1).drop_last() =~= cv.take(i as int));
        assert(cv.take(i + 1).last() == c@);
        if c.size_bytes >= category.min_size() {
            let display = display_name_for(category, c.name.as_str());
            let item = make_item(
                c.id.clone(),
                c.path.clone(),
                display,
                category,
                c.size_bytes,
                c.last_modified,
            );
            let ghost before = r@;
            r.push(item);
            assert(items_view(r@) =~= items_view(before).push(item@));
        }
        i += 1;
    }
    assert(cv.take(cands.len() as int) =~= cv);
    r
}

/// Device support folders that hold anything, each shown as
/// `Device support <version>`.
pub fn device_support_items(found: &Vec<Candidate>) -> (r: Vec<ScanItem>)
    ensures
        items_view(r@) == reported(candidates_view(found@), ScanCategory::XcodeDeviceSupport),
{
    report(found, ScanCategory::XcodeDeviceSupport)
}

/// The Xcode archives folder, when it holds anything.
pub fn xcode_archive_items(archive: Candidate) -> (r: Vec<ScanItem>)
    ensures
        items_view(r@) == reported(seq![archive@], ScanCategory::XcodeArchives),
{
    let found = vec![archive];
    assert(candidates_view(found@) =~= seq![archive@]);
    report(&found, ScanCategory::XcodeArchives)
}

/// Browser caches of at least 50 MB, each shown under its browser's label.
pub fn browser_cache_items(found: &Vec<Candidate>) -> (r: Vec<ScanItem>)
    ensures
        items_view(r@) == reported(candidates_view(found@), ScanCategory::BrowserCaches),
{
    report(found, ScanCategory::BrowserCaches)
}

/// Log folders of at least 50 MB, each shown under its label.
pub fn system_log_items(found: &Vec<Candidate>) -> (r: Vec<ScanItem>)
    ensures
        items_view(r@) == reported(candidates_view(found@), ScanCategory::SystemLogs),
{
    report(found, ScanCategory::SystemLogs)
}

/// Device backups that hold anything, each shown as `iOS backup (<id>)`
/// with the backup's name shortened to 8 bytes.
pub fn ios_backup_items(found: &Vec<Candidate>) -> (r: Vec<ScanItem>)
    requires
        forall|i: int| 0 <= i < found.len() ==> backup_id_shortenable(#[trigger] found[i].name@),
    ensures
        items_view(r@) == reported(candidates_view(found@), ScanCategory::IosBackups),
{
    report(found, ScanCategory::IosBackups)
}

/// The Trash, when it holds at least 10 MB.
pub fn trash_items(trash: Candidate) -> (r: Vec<ScanItem>)
    ensures
        items_view(r@) == reported(seq![trash@], ScanCategory::Trash),
{
    let found = vec![trash];
    assert(candidates_view(found@) =~= seq![trash@]);
    report(&found, ScanCategory::Trash)
}

/// What `Path::strip_prefix` leaves of `path` once `base` is taken off the
/// front, component by component, or nothing when `base` does not start it.
pub uninterp spec fn path_after_prefix(path: Seq<char>, base: Seq<char>) -> Option<Seq<char>>;

/// The view of an optional string.
pub open spec fn opt_text(s: Option<String>) -> Option<Seq<char>> {
    match s {
        Some(t) => Some(t@),
        None => None,
    }
}

/// `path` with the leading `base` taken off, through `Path::strip_prefix`.
#[verifier::external_body]
fn strip_path_prefix(path: &str, base: &str) -> (r: Option<String>)
    ensures
        opt_text(r) == path_after_prefix(path@, base@),
{
    match std::path::Path::new(path).strip_prefix(base) {
        Ok(rest) => Some(rest.to_string_lossy().to_string()),
        Err(_) => None,
    }
}

/// The name a large file is shown under: its path relative to the home
/// folder, or its whole path when it lies outside it.
pub open spec fn document_display(path: Seq<char>, relative: Option<Seq<char>>) -> Seq<char> {
    match relative {
        Some(r) => r,
        None => path,
    }
}

/// The name a large file at `path` is shown under, given what is left of
/// the path once the home folder is taken off (`None` when it is not).
pub fn document_display_name(path: &str, relative: Option<String>) -> (s: String)
    ensures
        s@ == document_display(path@, opt_text(relative)),
{
    match relative {
        Some(r) => r,
        None => String::from_str(path),
    }
}

/// The name a large file at `path` is shown under, with `home` the home folder.
pub fn relative_to_home(path: &str, home: &str) -> (s: String)
    ensures
        s@ == document_display(path@, path_after_prefix(path@, home@)),
{
    let relative = strip_path_prefix(path, home);
    document_display_name(path, relative)
}

/// A file found by the search for large files.
#[derive(Clone, Debug)]
pub struct FoundFile {
    pub id: String,
    pub path: String,
    pub size_bytes: u64,
    pub last_modified: Option<i64>,
}

/// The candidate a file found under `home` stands for: shown under its path
/// relative to `home`.
pub open spec fn document_candidate(home: Seq<char>, f: FoundFile) -> CandidateView {
    CandidateView {
        id: f.id@,
        path: f.path@,
        name: document_display(f.path@, path_after_prefix(f.path@, home)),
        size_bytes: f.size_bytes,
        last_modified: f.last_modified,
    }
}

/// Files of at least 50 MB found under the home folder `home`, each shown
/// under its path relative to `home`.
pub fn document_items(home: &str, found: &Vec<FoundFile>) -> (r: Vec<ScanItem>)
    ensures
        items_view(r@) == reported(
            found@.map_values(|f: FoundFile| document_candidate(home@, f)),
            ScanCategory::Documents,
        ),
{
    let mut cands: Vec<Candidate> = Vec::new();
    let mut i: usize = 0;
    while i < found.len()
        invariant
            i <= found.len(),
            candidates_view(cands@) == found@.take(i as int).map_values(
                |f: FoundFile| document_candidate(home@, f),
            ),
        decreases found.len() - i,
    {
        let f = &found[i];
        let cand = Candidate {
            id: f.id.clone(),
            path: f.path.clone(),
            name: relative_to_home(f.path.as_str(), home),
            size_bytes: f.size_bytes,
            last_modified: f.last_modified,
        };
        let ghost before = cands@;
        cands.push(cand);
        proof {
            assert(cand@ == document_candidate(home@, *f));
            assert(candidates_view(cands@) =~= candidates_view(before).push(cand@));
            assert(found@.take(i + 1).map_values(|f: FoundFile| document_candidate(home@, f))
                =~= found@.take(i as int).map_values(
                |f: FoundFile| document_candidate(home@, f),
            ).push(document_candidate(home@, found@[i as int])));
        }
        i += 1;
    }
    assert(found@.take(found.len() as int) =~= found@);
    report(&cands, ScanCategory::Documents)
}



/// A folder of per-app data found under one of the `Library` parents.
#[derive(Clone, Debug)]
pub struct AppDataCandidate {
    pub id: String,
    pub path: String,
    /// The folder's own name, when its path has one.
    pub app_name: Option<String>,
    /// The label of the parent folder it was found in.
    pub parent_label: String,
    pub size_bytes: u64,
    pub last_modified: Option<i64>,
}

/// The name under which an app's data folder is shown: the app's folder
/// name (`Unknown` when there is none) and, in brackets, where it was found.
pub open spec fn app_data_display(app_name: Option<Seq<char>>, parent_label: Seq<char>) -> Seq<
    char,
> {
    let app = match app_name {
        Some(n) => n,
        None => "Unknown"@,
    };
    app + " ("@ + parent_label + ")"@
}

/// The candidate an app data folder stands for, its display name composed.
pub open spec fn app_data_candidate(c: AppDataCandidate) -> CandidateView {
    CandidateView {
        id: c.id@,
        path: c.path@,
        name: app_data_display(
            match c.app_name {
                Some(n) => Some(n@),
                None => None,
            },
            c.parent_label@,
        ),
        size_bytes: c.size_bytes,
        last_modified: c.last_modified,
    }
}

/// App data folders of at least 500 MB.
pub fn app_data_items(found: &Vec<AppDataCandidate>) -> (r: Vec<ScanItem>)
    ensures
        items_view(r@) == reported(
            found@.map_values(|c: AppDataCandidate| app_data_candidate(c)),
            ScanCategory::AppData,
        ),
{
    let mut cands: Vec<Candidate> = Vec::new();
    let mut i: usize = 0;
    while i < found.len()
        invariant
            i <= found.len(),
            candidates_view(cands@) == found@.take(i as int).map_values(
                |c: AppDataCandidate| app_data_candidate(c),
            ),
        decreases found.len() - i,
    {
        let c = &found[i];
        let mut name = match &c.app_name {
            Some(n) => n.clone(),
            None => String::from_str("Unknown"),
        };
        name.append(" (");
        name.append(c.parent_label.as_str());
        name.append(")");
        let cand = Candidate {
            id: c.id.clone(),
            path: c.path.clone(),
            name,
            size_bytes: c.size_bytes,
            last_modified: c.last_modified,
        };
        let ghost before = cands@;
        cands.push(cand);
        proof {
            assert(cand@ == app_data_candidate(*c));
            assert(candidates_view(cands@) =~= candidates_view(before).push(cand@));
            assert(found@.take(i + 1).map_values(|c: AppDataCandidate| app_data_candidate(c))
                =~= found@.take(i as int).map_values(|c: AppDataCandidate| app_data_candidate(c)).push(
                app_data_candidate(found@[i as int]),
            ));
        }
        i += 1;
    }
    assert(found@.take(found.len() as int) =~= found@);
    report(&cands, ScanCategory::AppData)
}

/// Seconds in the 90 days after which a download counts as old.
pub const OLD_DOWNLOAD_AGE_SECS: i64 = 7_776_000;

/// Whether a download last modified at `modified_secs` is old at `now_secs`
/// (both seconds since the Unix epoch): older than 90 days.
pub fn is_old_download(modified_secs: i64, now_secs: i64) -> (b: bool)
    requires
        now_secs >= i64::MIN + OLD_DOWNLOAD_AGE_SECS,
    ensures
        b == (modified_secs < now_secs - OLD_DOWNLOAD_AGE_SECS),
{
    modified_secs < now_secs - OLD_DOWNLOAD_AGE_SECS
}

/// The total of a list of sizes.
pub open spec fn total_size(sizes: Seq<u64>) -> nat
    decreases sizes.len(),
{
    if sizes.len() == 0 {
        0
    } else {
        total_size(sizes.drop_last()) + sizes.last() as nat
    }
}

/// What the old-downloads recipe reports of the sizes of the old files in
/// Downloads: one item with their total when it is at least 50 MB.
pub open spec fn old_downloads_report(id: Seq<char>, sizes: Seq<u64>) -> Seq<ScanItemView> {
    let total = total_size(sizes);
    if total >= min_size_of(ScanCategory::OldDownloads) {
        seq![
            item_view(
                id,
                "downloads://old-files"@,
                "Old downloads ("@ + decimal(sizes.len()) + " files)"@,
                ScanCategory::OldDownloads,
                total as u64,
                None,
            ),
        ]
    } else {
        seq![]
    }
}

/// The report on the old files in Downloads, given their sizes.
pub fn old_downloads_items(id: String, sizes: &Vec<u64>) -> (r: Vec<ScanItem>)
    requires
        total_size(sizes@) <= u64::MAX,
    ensures
        items_view(r@) == old_downloads_report(id@, sizes@),
{
    let mut total: u64 = 0;
    let mut i: usize = 0;
    assert(sizes@.take(0) =~= seq![]);
    while i < sizes.len()
        invariant
            i <= sizes.len(),
            total_size(sizes@) <= u64::MAX,
            total == total_size(sizes@.take(i as int)),
        decreases sizes.len() - i,
    {
        assert(sizes@.take(i + 1).drop_last() =~= sizes@.take(i as int));
        proof {
            lemma_total_size_prefix(sizes@, i + 1);
        }
        total = total + sizes[i];
        i += 1;
    }
    assert(sizes@.take(sizes.len() as int) =~= sizes@);
    let mut r: Vec<ScanItem> = Vec::new();
    if total >= ScanCategory::OldDownloads.min_size() {
        let mut name = String::from_str("Old downloads (");
        push_decimal(&mut name, sizes.len() as u64);
        name.append(" files)");
        let item = make_item(
            id,
            String::from_str("downloads://old-files"),
            name,
            ScanCategory::OldDownloads,
            total,
            None,
        );
        r.push(item);
        assert(items_view(r@) =~= seq![item@]);
    } else {
        assert(items_view(r@) =~= seq![]);
    }
    r
}

/// The total is the plain sum: nothing for no sizes, a single size for
/// one, and the sum of the parts for two lists put together.
pub proof fn lemma_total_size_sum(a: Seq<u64>, b: Seq<u64>, x: u64)
    ensures
        total_size(Seq::<u64>::empty()) == 0,
        total_size(seq![x]) == x,
        total_size(a + b) == total_size(a) + total_size(b),
    decreases b.len(),
{
    assert(seq![x].drop_last() =~= Seq::<u64>::empty());
    assert(total_size(Seq::<u64>::empty()) == 0);
    assert(seq![x].last() == x);
    assert(total_size(seq![x]) == total_size(seq![x].drop_last()) + x as nat);
    if b.len() == 0 {
        assert(a + b =~= a);
    } else {
        assert((a + b).drop_last() =~= a + b.drop_last());
        assert((a + b).last() == b.last());
        lemma_total_size_sum(a, b.drop_last(), x);
    }
}

/// A prefix of the sizes never totals more than all of them.
proof fn lemma_total_size_prefix(sizes: Seq<u64>, k: int)
    requires
        0 <= k <= sizes.len(),
    ensures
        total_size(sizes.take(k)) <= total_size(sizes),
    decreases sizes.len() - k,
{
    if k < sizes.len() {
        lemma_total_size_prefix(sizes, k + 1);
        assert(sizes.take(k + 1).drop_last() =~= sizes.take(k));
    } else {
        assert(sizes.take(k) =~= sizes);
    }
}

/// The old-downloads item, when there is one, is fit to report, its size
/// is the total of the old files and its name counts them.
pub proof fn lemma_old_downloads_report(id: Seq<char>, sizes: Seq<u64>)
    requires
        total_size(sizes) <= u64::MAX,
    ensures
        old_downloads_report(id, sizes).len() <= 1,
        old_downloads_report(id, sizes).len() == 1 <==> total_size(sizes) >= 50_000_000,
        forall|i: int|
            0 <= i < old_downloads_report(id, sizes).len() ==> {
                &&& reportable(#[trigger] old_downloads_report(id, sizes)[i])
                &&& old_downloads_report(id, sizes)[i].size_bytes == total_size(sizes)
                &&& old_downloads_report(id, sizes)[i].category == ScanCategory::OldDownloads
                &&& old_downloads_report(id, sizes)[i].safety == SafetyLevel::Yellow
            },
{
}


pub const SNAPSHOT_ESTIMATE_BYTES: u64 = 1_000_000_000;

/// Whether the space of local snapshots is worth asking `tmutil` about:
/// the listing succeeded and named at least one snapshot.
pub fn should_estimate_snapshots(listing_ok: bool, snapshot_count: usize) -> (b: bool)
    ensures
        b == (listing_ok && snapshot_count > 0),
{
    listing_ok && snapshot_count > 0
}

/// What the Time Machine recipe reports of `snapshot_count` snapshots and
/// the size `tmutil` stated, if any: one item whose size is the stated
/// one, or else 1 GB per snapshot, unless there is no snapshot or that
/// size is 0.
pub open spec fn time_machine_report(
    id: Seq<char>,
    snapshot_count: nat,
    stated_bytes: Option<u64>,
) -> Seq<ScanItemView> {
    let estimate: int = match stated_bytes {
        Some(b) => b as int,
        None => snapshot_count * SNAPSHOT_ESTIMATE_BYTES,
    };
    if snapshot_count == 0 || estimate == 0 {
        seq![]
    } else {
        seq![
            item_view(
                id,
                "timemachine://snapshots"@,
                "Time Machine snapshots ("@ + decimal(snapshot_count) + ")"@,
                ScanCategory::TimeMachineSnapshots,
                estimate as u64,
                None,
            ),
        ]
    }
}

/// The snapshot item, when there is one, is fit to report; there is one
/// exactly when some snapshot exists and the size stated (or, when none is
/// stated, estimated) is not 0; an unstated size is 1 GB per snapshot.
pub proof fn lemma_time_machine_report(id: Seq<char>, snapshot_count: nat, stated_bytes: Option<u64>)
    requires
        snapshot_count * SNAPSHOT_ESTIMATE_BYTES <= u64::MAX,
    ensures
        time_machine_report(id, snapshot_count, stated_bytes).len() == 1 <==> (snapshot_count > 0
            && stated_bytes != Some(0u64)),
        time_machine_report(id, snapshot_count, stated_bytes).len() <= 1,
        forall|i: int|
            0 <= i < time_machine_report(id, snapshot_count, stated_bytes).len() ==> {
                &&& reportable(#[trigger] time_machine_report(id, snapshot_count, stated_bytes)[i])
                &&& time_machine_report(id, snapshot_count, stated_bytes)[i].safety
                    == SafetyLevel::Yellow
                &&& time_machine_report(id, snapshot_count, stated_bytes)[i].size_bytes
                    == match stated_bytes {
                    Some(b) => b as int,
                    None => snapshot_count * SNAPSHOT_ESTIMATE_BYTES,
                }
            },
{
}

/// The report on local Time Machine snapshots.
pub fn time_machine_items(id: String, snapshot_count: usize, stated_bytes: Option<u64>) -> (r: Vec<
    ScanItem,
>)
    requires
        snapshot_count * SNAPSHOT_ESTIMATE_BYTES <= u64::MAX,
    ensures
        items_view(r@) == time_machine_report(id@, snapshot_count as nat, stated_bytes),
{
    let mut r: Vec<ScanItem> = Vec::new();
    if snapshot_count == 0 {
        assert(items_view(r@) =~= seq![]);
        return r;
    }
    let fallback = (snapshot_count as u64) * SNAPSHOT_ESTIMATE_BYTES;
    let estimate = match stated_bytes {
        Some(b) => b,
        None => fallback,
    };
    if estimate == 0 {
        assert(items_view(r@) =~= seq![]);
        return r;
    }
    let mut name = String::from_str("Time Machine snapshots (");
    push_decimal(&mut name, snapshot_count as u64);
    name.append(")");
    let item = make_item(
        id,
        String::from_str("timemachine://snapshots"),
        name,
        ScanCategory::TimeMachineSnapshots,
        estimate,
        None,
    );
    r.push(item);
    assert(items_view(r@) =~= seq![item@]);
    r
}


/// The device support folders, relative to the home folder.
pub fn device_support_dirs() -> (v: Vec<&'static str>)
    ensures
        v@ == seq![
            "Library/Developer/Xcode/iOS DeviceSupport",
            "Library/Developer/Xcode/watchOS DeviceSupport",
            "Library/Developer/Xcode/tvOS DeviceSupport",
        ],
{
    vec![
        "Library/Developer/Xcode/iOS DeviceSupport",
        "Library/Developer/Xcode/watchOS DeviceSupport",
        "Library/Developer/Xcode/tvOS DeviceSupport",
    ]
}

/// The Xcode archives folder, relative to the home folder.
pub const XCODE_ARCHIVES_DIR: &'static str = "Library/Developer/Xcode/Archives";

/// The browser cache folders, relative to the home folder, each with the
/// label it is shown under.
pub fn browser_cache_dirs() -> (v: Vec<(&'static str, &'static str)>)
    ensures
        v@ == seq![
            ("Library/Caches/Google/Chrome", "Google Chrome cache"),
            ("Library/Caches/com.apple.Safari", "Safari cache"),
            ("Library/Caches/Firefox/Profiles", "Firefox cache"),
            ("Library/Caches/com.operasoftware.Opera", "Opera cache"),
            ("Library/Caches/Arc", "Arc cache"),
            ("Library/Caches/com.brave.Browser", "Brave cache"),
            ("Library/Caches/com.microsoft.edgemac", "Edge cache"),
            ("Library/Caches/com.vivaldi.Vivaldi", "Vivaldi cache"),
        ],
{
    vec![
        ("Library/Caches/Google/Chrome", "Google Chrome cache"),
        ("Library/Caches/com.apple.Safari", "Safari cache"),
        ("Library/Caches/Firefox/Profiles", "Firefox cache"),
        ("Library/Caches/com.operasoftware.Opera", "Opera cache"),
        ("Library/Caches/Arc", "Arc cache"),
        ("Library/Caches/com.brave.Browser", "Brave cache"),
        ("Library/Caches/com.microsoft.edgemac", "Edge cache"),
        ("Library/Caches/com.vivaldi.Vivaldi", "Vivaldi cache"),
    ]
}

/// The log folders, relative to the home folder, each with its label.
pub fn system_log_dirs() -> (v: Vec<(&'static str, &'static str)>)
    ensures
        v@ == seq![
            ("Library/Logs", "Application logs"),
            ("Library/Logs/DiagnosticReports", "Diagnostic reports"),
        ],
{
    vec![("Library/Logs", "Application logs"), ("Library/Logs/DiagnosticReports", "Diagnostic reports")]
}

/// The device backups folder, relative to the home folder.
pub const IOS_BACKUPS_DIR: &'static str = "Library/Application Support/MobileSync/Backup";

/// The Trash, relative to the home folder.
pub const TRASH_DIR: &'static str = ".Trash";

/// The Downloads folder, relative to the home folder.
pub const DOWNLOADS_DIR: &'static str = "Downloads";

/// The folders that hold per-app data, relative to the home folder, each
/// with its label.
pub fn app_data_parents() -> (v: Vec<(&'static str, &'static str)>)
    ensures
        v@ == seq![
            ("Library/Application Support", "Application Support"),
            ("Library/Group Containers", "Group Containers"),
            ("Library/Containers", "Containers"),
        ],
{
    vec![
        ("Library/Application Support", "Application Support"),
        ("Library/Group Containers", "Group Containers"),
        ("Library/Containers", "Containers"),
    ]
}

/// The place an item of local Time Machine snapshots stands for; its
/// identity is derived from it too.
pub const TIME_MACHINE_PLACE: &'static str = "timemachine://snapshots";

/// The program that lists local Time Machine snapshots.
pub const TMUTIL: &'static str = "tmutil";

/// The arguments that list the local snapshots of the startup volume.
pub fn snapshot_listing_args() -> (v: Vec<&'static str>)
    ensures
        v@ == seq!["listlocalsnapshots", "/"],
{
    vec!["listlocalsnapshots", "/"]
}

/// The arguments that ask for the purgeable space of those snapshots.
pub fn snapshot_size_args() -> (v: Vec<&'static str>)
    ensures
        v@ == seq!["listlocalsnapshots", "/", "-purgeable"],
{
    vec!["listlocalsnapshots", "/", "-purgeable"]
}

/// Folder names the search for large files does not enter: covered by
/// other recipes, or system data not to be cleaned there.
pub open spec fn skipped_dir_names() -> Seq<Seq<char>> {
    seq![
        "Library"@,
        "node_modules"@,
        "target"@,
        "venv"@,
        "build"@,
        "dist"@,
        ".next"@,
        "DerivedData"@,
        "Pods"@,
        ".Trash"@,
    ]
}

/// Whether the search for large files keeps an entry called `name` at
/// `depth` below the home folder: not a hidden entry below the home folder
/// itself, and none of the skipped names.
pub open spec fn walk_keeps(name: Seq<char>, depth: nat) -> bool {
    &&& !(depth > 0 && name.len() > 0 && name[0] == '.')
    &&& !skipped_dir_names().contains(name)
}

/// The search for large files never enters, at any depth, a folder called
/// `Library`, `node_modules`, `target`, `venv`, `build`, `dist`, `.next`,
/// `DerivedData`, `Pods` or `.Trash`, and never a hidden entry below the
/// home folder itself.
pub proof fn lemma_walk_skips(name: Seq<char>, depth: nat)
    ensures
        !walk_keeps("Library"@, depth),
        !walk_keeps("node_modules"@, depth),
        !walk_keeps("target"@, depth),
        !walk_keeps("venv"@, depth),
        !walk_keeps("build"@, depth),
        !walk_keeps("dist"@, depth),
        !walk_keeps(".next"@, depth),
        !walk_keeps("DerivedData"@, depth),
        !walk_keeps("Pods"@, depth),
        !walk_keeps(".Trash"@, depth),
        depth > 0 && name.len() > 0 && name[0] == '.' ==> !walk_keeps(name, depth),
{
    let n = skipped_dir_names();
    assert(n[0] == "Library"@);
    assert(n[1] == "node_modules"@);
    assert(n[2] == "target"@);
    assert(n[3] == "venv"@);
    assert(n[4] == "build"@);
    assert(n[5] == "dist"@);
    assert(n[6] == ".next"@);
    assert(n[7] == "DerivedData"@);
    assert(n[8] == "Pods"@);
    assert(n[9] == ".Trash"@);
}

/// Whether `a` and `b` hold the same characters.
fn same_chars(a: &Vec<char>, b: &Vec<char>) -> (r: bool)
    ensures
        r == (a@ == b@),
{
    if a.len() != b.len() {
        return false;
    }
    let mut i: usize = 0;
    while i < a.len()
        invariant
            a.len() == b.len(),
            i <= a.len(),
            forall|k: int| 0 <= k < i ==> a@[k] == b@[k],
        decreases a.len() - i,
    {
        if a[i] != b[i] {
            return false;
        }
        i += 1;
    }
    assert(a@ =~= b@);
    true
}

/// Whether the search for large files keeps (and, for a folder, enters)
/// an entry called `name` at `depth` below the home folder.
pub fn keep_walk_entry(name: &str, depth: usize) -> (b: bool)
    ensures
        b == walk_keeps(name@, depth as nat),
{
    let n = chars_of(name);
    if depth > 0 && n.len() > 0 && n[0] == '.' {
        return false;
    }
    let skipped = vec![
        chars_of("Library"),
        chars_of("node_modules"),
        chars_of("target"),
        chars_of("venv"),
        chars_of("build"),
        chars_of("dist"),
        chars_of(".next"),
        chars_of("DerivedData"),
        chars_of("Pods"),
        chars_of(".Trash"),
    ];
    let ghost names = skipped_dir_names();
    assert(skipped@.len() == names.len());
    assert(forall|k: int| 0 <= k < names.len() ==> #[trigger] skipped@[k]@ == names[k]);
    let mut i: usize = 0;
    while i < skipped.len()
        invariant
            names == skipped_dir_names(),
            skipped@.len() == names.len(),
            forall|k: int| 0 <= k < names.len() ==> #[trigger] skipped@[k]@ == names[k],
            i <= skipped.len(),
            forall|k: int| 0 <= k < i ==> names[k] != n@,
            n@ == name@,
        decreases skipped.len() - i,
    {
        if same_chars(&skipped[i], &n) {
            assert(names[i as int] == name@);
            return false;
        }
        i += 1;
    }
    true
}

} // verus!
