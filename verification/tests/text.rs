use momentum_bot::text;
use momentum_bot::text_map::TextMap;

fn strings(items: &[&str]) -> Vec<String> {
    items.iter().map(|s| s.to_string()).collect()
}

#[test]
fn numbers_are_written_and_read_back() {
    for n in [0, 7, -7, 300, 1_719_849_600, i64::MAX, i64::MIN, -10] {
        let mut out = String::from("n=");
        text::push_decimal_i64(&mut out, n);
        assert_eq!(out, format!("n={n}"));
        assert_eq!(text::parse_i64(&out[2..]), Some(n));
    }
    let mut out = String::new();
    text::push_decimal_u64(&mut out, u64::MAX);
    assert_eq!(out, "18446744073709551615");
}

#[test]
fn numbers_are_read_as_the_standard_library_reads_them() {
    for s in [
        "", "+", "-", "+5", "-5", "--5", "5-", "0005", "-0", "+0", " 5", "5 ", "5.0", "0x5", "٣",
        "9223372036854775807", "9223372036854775808", "-9223372036854775808",
        "-9223372036854775809", "99999999999999999999999", "1e3", "abc",
    ] {
        assert_eq!(text::parse_i64(s), s.parse::<i64>().ok(), "{s:?}");
    }
}

#[test]
fn white_space_is_trimmed_at_both_ends() {
    for s in ["", "  ", " a b ", "\ta\r\n", "\u{2003}x\u{a0}", "x", "\u{200b}x"] {
        assert_eq!(text::trim(s), s.trim(), "{s:?}");
    }
}

#[test]
fn a_character_is_trimmed_at_the_end() {
    for s in ["", "/", "a//", "a/b", "/a/", "wss://host///"] {
        assert_eq!(text::trim_end_char(s, '/'), s.trim_end_matches('/'), "{s:?}");
    }
}

#[test]
fn the_tail_follows_the_last_separator() {
    for s in ["", "-", "a-b-c", "abc", "btc-updown-5m-300", "x-"] {
        assert_eq!(text::tail_after(s, '-'), s.rsplit('-').next().unwrap(), "{s:?}");
    }
}

#[test]
fn pieces_stand_between_separators() {
    for s in ["", "\n", "a\nb", "a\n", "\n\na"] {
        let want: Vec<String> = s.split('\n').map(|p| p.to_string()).collect();
        assert_eq!(text::split_pieces(s, '\n'), want, "{s:?}");
    }
}

#[test]
fn parts_are_found() {
    for (s, p) in [("SUPER", "UP"), ("UP", "UP"), ("U", "UP"), ("PU", "UP"), ("", ""), ("DOWN", "OW"), ("UUP", "UP")] {
        assert_eq!(text::contains_text(s, p), s.contains(p), "{s:?} {p:?}");
    }
}

#[test]
fn a_suffix_is_cut_off_once() {
    assert_eq!(text::strip_suffix("btcusdt", "usdt"), "btc");
    assert_eq!(text::strip_suffix("usdtusdt", "usdt"), "usdt");
    assert_eq!(text::strip_suffix("btceur", "usdt"), "btceur");
    assert_eq!(text::strip_suffix("dt", "usdt"), "dt");
}

#[test]
fn parts_are_joined() {
    assert_eq!(text::join(&strings(&[]), "/"), "");
    assert_eq!(text::join(&strings(&["a"]), "/"), "a");
    assert_eq!(text::join(&strings(&["a", "", "c"]), "/"), "a//c");
}

#[test]
fn texts_are_compared_by_their_characters() {
    assert!(text::same_text("ask", "ask"));
    assert!(!text::same_text("ask", "asks"));
    assert!(!text::same_text("ask", "Ask"));
}

#[test]
fn a_map_keeps_the_first_place_and_the_last_value() {
    let mut map: TextMap<u64> = TextMap::new();
    assert!(map.is_empty());
    map.insert("btc".to_string(), 1);
    map.insert("eth".to_string(), 2);
    map.insert("btc".to_string(), 3);
    assert_eq!(map.len(), 2);
    assert_eq!(map.get("btc"), Some(&3));
    assert_eq!(map.get("eth"), Some(&2));
    assert_eq!(map.get("BTC"), None);
    assert_eq!(map.position("eth"), Some(1));
    assert_eq!(*map.value_at(0), 3);
    assert_eq!((map.key(0).as_str(), map.key(1).as_str()), ("btc", "eth"));
    *map.value_mut(1) = 9;
    assert_eq!(map.get("eth"), Some(&9));
}

#[test]
fn white_space_is_that_of_unicode() {
    let white = |c: u32| {
        matches!(
            c,
            0x9..=0xd | 0x20 | 0x85 | 0xa0 | 0x1680 | 0x2000..=0x200a | 0x2028 | 0x2029 | 0x202f
                | 0x205f | 0x3000
        )
    };
    for code in 0..=0x10ffffu32 {
        if let Some(c) = char::from_u32(code) {
            assert_eq!(text::trim(&c.to_string()).is_empty(), white(code), "{code:x}");
        }
    }
}
