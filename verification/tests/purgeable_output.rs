use macos_scan::purgeable::{count_snapshots, parse_purgeable_size, PurgeableSize};

fn bytes(r: Option<PurgeableSize>) -> Option<u64> {
    match r {
        Some(PurgeableSize::Bytes(b)) => Some(b),
        _ => None,
    }
}

fn gigabytes(r: Option<PurgeableSize>) -> Option<String> {
    match r {
        Some(PurgeableSize::Gigabytes(t)) => Some(t),
        _ => None,
    }
}

#[test]
fn plain_byte_count() {
    let out = "Snapshots for disk /:\nPurgeable size: 12345 bytes\n";
    assert_eq!(bytes(parse_purgeable_size(out)), Some(12345));
}

#[test]
fn gigabyte_figure() {
    assert_eq!(gigabytes(parse_purgeable_size("Total Size 2.5GB")), Some("2.5".to_string()));
    assert_eq!(gigabytes(parse_purgeable_size("size 1e3gb")), Some("1e3".to_string()));
    assert_eq!(gigabytes(parse_purgeable_size("size .5gb")), Some(".5".to_string()));
}

#[test]
fn uppercase_keywords_are_read() {
    assert_eq!(bytes(parse_purgeable_size("  PURGEABLE: 5  ")), Some(5));
}

#[test]
fn lines_without_keywords_are_ignored() {
    assert!(parse_purgeable_size("no match 123\nfree 77").is_none());
    assert!(parse_purgeable_size("").is_none());
}

#[test]
fn later_line_is_read_when_earlier_states_nothing() {
    assert_eq!(bytes(parse_purgeable_size("size unknown\nPurgeable: 7")), Some(7));
}

#[test]
fn first_number_on_the_line_wins() {
    assert_eq!(bytes(parse_purgeable_size("size 3gb then 9")), None);
    assert_eq!(gigabytes(parse_purgeable_size("size 3gb then 9")), Some("3".to_string()));
    assert_eq!(bytes(parse_purgeable_size("size 9 then 3gb")), Some(9));
}

#[test]
fn plus_sign_and_overflow() {
    assert_eq!(bytes(parse_purgeable_size("SIZE +42")), Some(42));
    assert!(parse_purgeable_size("size 18446744073709551616").is_none());
    assert!(parse_purgeable_size("size gb xgb -1").is_none());
}

#[test]
fn gigabyte_texts_parse_as_f64() {
    for out in ["size 2.5gb", "size infgb", "size -nangb", "purgeable 7.gb"] {
        let t = gigabytes(parse_purgeable_size(out)).expect(out);
        assert!(t.parse::<f64>().is_ok(), "{:?}", t);
    }
}

#[test]
fn snapshots_are_counted_by_line() {
    let listing = "Snapshots for disk /:\ncom.apple.TimeMachine.2024-01-01-000000.local\r\ncom.apple.TimeMachine.2024-01-02-000000.local\nother\n";
    assert_eq!(count_snapshots(listing), 2);
    assert_eq!(count_snapshots(""), 0);
    assert_eq!(count_snapshots("com.apple.timemachine.x"), 0);
    assert_eq!(count_snapshots("a com.apple.TimeMachine b com.apple.TimeMachine"), 1);
}

#[test]
fn appended_lines_change_nothing() {
    let t = "Purgeable: 5";
    assert_eq!(bytes(parse_purgeable_size(&format!("{}\nsize 9", t))), Some(5));
    assert_eq!(bytes(parse_purgeable_size("size 5\r\nsize 9")), Some(5));
}

#[test]
fn unmentioning_prefix_lines_never_contribute() {
    for t in ["", "\n", "free 123", "free 123\n", "x 4gb\r", "   "] {
        let s = "size 42";
        assert_eq!(
            bytes(parse_purgeable_size(&format!("{}\n{}", t, s))),
            bytes(parse_purgeable_size(s)),
            "{:?}",
            t
        );
    }
}

#[test]
fn reading_ignores_ascii_case() {
    let samples = [
        "Purgeable size: 12345 bytes",
        "Total Size 2.5GB",
        "size unknown\nPurgeable: 7",
        "free 1\nSIZE 1E3gB",
        "no match 123",
        "size InFgb",
    ];
    for s in samples {
        let base = format!("{:?}", parse_purgeable_size(s));
        assert_eq!(format!("{:?}", parse_purgeable_size(&s.to_ascii_uppercase())), base, "{:?}", s);
        assert_eq!(format!("{:?}", parse_purgeable_size(&s.to_ascii_lowercase())), base, "{:?}", s);
    }
}
