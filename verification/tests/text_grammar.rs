use macos_scan::number::{float_literal, parse_u64, push_decimal};
use macos_scan::text::{chars_of, contains_chars, split_lines, split_words, trim_chars, white_space};

fn chars(s: &str) -> Vec<char> {
    s.chars().collect()
}

fn text(v: &[char]) -> String {
    v.iter().collect()
}

#[test]
fn white_space_matches_std_for_every_char() {
    for u in 0u32..0x11000 {
        if let Some(c) = char::from_u32(u) {
            assert_eq!(white_space(c), c.is_whitespace(), "U+{:04X}", u);
        }
    }
}

#[test]
fn chars_of_keeps_order() {
    assert_eq!(chars_of("aé b"), vec!['a', 'é', ' ', 'b']);
    assert_eq!(chars_of(""), Vec::<char>::new());
}

#[test]
fn lines_match_str_lines() {
    let samples = [
        "",
        "\n",
        "a",
        "a\n",
        "a\nb",
        "a\r\nb\r\n",
        "foo\nbar\n\r baz",
        "x\n\ny\n",
        "\r\n\r\n",
        "tail\r",
    ];
    for s in samples {
        let got: Vec<String> = split_lines(&chars(s)).iter().map(|l| text(l)).collect();
        let want: Vec<String> = s.lines().map(|l| l.to_string()).collect();
        assert_eq!(got, want, "{:?}", s);
    }
}

#[test]
fn trim_matches_str_trim() {
    let samples = ["", "   ", " a ", "\t\u{3000}x y\u{2028}", "a", "\u{a0}b\u{a0}c\u{85}"];
    for s in samples {
        assert_eq!(text(&trim_chars(&chars(s))), s.trim(), "{:?}", s);
    }
}

#[test]
fn words_match_split_whitespace() {
    let samples = ["", "  ", "a", " a  b\tc\n", "size: 12 gb", "\u{2003}x\u{2003}"];
    for s in samples {
        let got: Vec<String> = split_words(&chars(s)).iter().map(|w| text(w)).collect();
        let want: Vec<String> = s.split_whitespace().map(|w| w.to_string()).collect();
        assert_eq!(got, want, "{:?}", s);
    }
}

#[test]
fn contains_finds_pieces() {
    assert!(contains_chars(&chars("purgeable size"), &chars("size")));
    assert!(contains_chars(&chars("abc"), &chars("")));
    assert!(!contains_chars(&chars("siz"), &chars("size")));
    assert!(!contains_chars(&chars("Size"), &chars("size")));
}

#[test]
fn parse_u64_matches_std() {
    let samples = [
        "0", "12", "+7", "+", "-1", "", "007", "18446744073709551615", "18446744073709551616",
        "99999999999999999999", "1a", " 1", "1.5", "++1",
    ];
    for s in samples {
        assert_eq!(parse_u64(&chars(s)), s.parse::<u64>().ok(), "{:?}", s);
    }
}

#[test]
fn float_literal_matches_std() {
    let samples = [
        "1", "1.", ".5", ".", "", "+", "-", "1e5", "1E5", "1e", "1e+", "1e-3", "e5", ".e5", "1.e5",
        "+1.5", "-0.25", "inf", "INF", "-infinity", "Infinity", "nan", "NaN", "+nan", "infinit",
        "1_000", "0x10", "1.2.3", "1e5.5", "1,5", "  1", "12.5", "2.", "1e400", "infe",
    ];
    for s in samples {
        assert_eq!(float_literal(&chars(s)), s.parse::<f64>().is_ok(), "{:?}", s);
    }
}

#[test]
fn decimal_rendering() {
    for n in [0u64, 7, 10, 42, 1000, u64::MAX] {
        let mut s = String::from("(");
        push_decimal(&mut s, n);
        assert_eq!(s, format!("({}", n));
    }
}
