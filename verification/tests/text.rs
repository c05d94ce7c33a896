use gurkle::text::{
    characters, join, parse_hex, trim_end, write_decimal, write_signed_decimal, write_upper_hex,
};

fn strings(parts: &[&str]) -> Vec<String> {
    parts.iter().map(|part| part.to_string()).collect()
}

#[test]
fn upper_hex_matches_the_formatter() {
    for n in [0, 1, 9, 10, 15, 16, 171, 255, 256, 4096, 65535, u64::MAX] {
        assert_eq!(write_upper_hex(n), format!("{:X}", n));
    }
    assert_eq!(write_upper_hex(48879), "BEEF");
}

#[test]
fn decimal_matches_the_formatter() {
    for n in [0, 1, 9, 10, 99, 100, 12345, u64::MAX] {
        assert_eq!(write_decimal(n), n.to_string());
    }
}

#[test]
fn signed_decimal_matches_the_formatter() {
    for i in [0, 1, -1, 10, -10, 42, i32::MAX, i32::MIN] {
        assert_eq!(write_signed_decimal(i), i.to_string());
    }
}

#[test]
fn hex_is_read_like_the_standard_library_reads_it() {
    for s in [
        "",
        "+",
        "-",
        "0",
        "00",
        "a",
        "A",
        "1F",
        "+1f",
        "++1",
        "-1",
        "g",
        "1g",
        " 1",
        "1 ",
        "ffffffffffffffff",
        "FFFFFFFFFFFFFFFF",
        "10000000000000000",
        "0000000000000000000001",
        "é",
        "１",
    ] {
        assert_eq!(parse_hex(s), u64::from_str_radix(s, 16).ok(), "{:?}", s);
    }
}

#[test]
fn written_hex_reads_back() {
    for n in [0, 9, 10, 11, 16, 170, 4097, u64::MAX] {
        assert_eq!(parse_hex(&write_upper_hex(n)), Some(n));
    }
}

#[test]
fn written_decimal_reads_back_as_hex_below_ten_only() {
    for n in 0..10 {
        assert_eq!(parse_hex(&write_decimal(n)), Some(n));
    }
    assert_eq!(parse_hex(&write_decimal(10)), Some(16));
    assert_eq!(parse_hex(&write_decimal(u64::MAX)), None);
}

#[test]
fn join_puts_the_separator_between_neighbours() {
    assert_eq!(join(&strings(&[]), ", "), "");
    assert_eq!(join(&strings(&["a"]), ", "), "a");
    assert_eq!(join(&strings(&["a", "", "b"]), ", "), "a, , b");
    assert_eq!(join(&strings(&["é", "ü"]), "\n\n"), "é\n\nü");
}

#[test]
fn trim_end_takes_every_trailing_match() {
    assert_eq!(trim_end("", '/'), "");
    assert_eq!(trim_end("///", '/'), "");
    assert_eq!(trim_end("a/b//", '/'), "a/b");
    assert_eq!(trim_end("/a", '/'), "/a");
    assert_eq!(trim_end("aé", 'é'), "a");
}

#[test]
fn characters_are_those_of_the_text() {
    assert_eq!(characters("aé\u{3000}"), vec!['a', 'é', '\u{3000}']);
    assert!(characters("").is_empty());
}
