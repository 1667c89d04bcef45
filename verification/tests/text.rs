use k8s_sidecar::env::{env_is_true, env_u32, env_u64, EnvVars};
use k8s_sidecar::number::{decimal_string, digit_char, parse_unsigned, signed_decimal_string};
use k8s_sidecar::ordered::OrderedMap;
use k8s_sidecar::text::{
    chars_of, comes_before, contains_char, contains_part, ends_with_char, find_char, in_lower_case,
    in_upper_case, same, show_bytes, split, starts_with_char, string_of, strip_end,
    strip_suffix, trim, word_after_first,
};

fn vars(pairs: &[(&str, &str)]) -> EnvVars {
    EnvVars::new(pairs.iter().map(|(k, v)| (k.to_string(), v.to_string())).collect())
}

#[test]
fn strings_are_compared() {
    assert!(same("", ""));
    assert!(same("grüße", "grüße"));
    assert!(!same("a", "b"));
    assert!(!same("a", "ab"));
    assert!(comes_before("a", "b"));
    assert!(comes_before("a", "aa"));
    assert!(!comes_before("a", "a"));
    assert!(!comes_before("b", "aa"));
    assert!(comes_before("Z", "a"));
    assert!(comes_before("z", "ä"));
}

#[test]
fn strings_are_searched() {
    assert!(contains_char("a=b", '='));
    assert!(!contains_char("", '='));
    assert!(starts_with_char("/x", '/'));
    assert!(!starts_with_char("", '/'));
    assert!(ends_with_char("x/", '/'));
    assert!(!ends_with_char("x", '/'));
    assert!(contains_part("logging.handlers.RotatingFileHandler", "FileHandler"));
    assert!(!contains_part("StreamHandler", "FileHandler"));
    assert!(contains_part("abc", ""));
    assert!(!contains_part("ab", "abc"));
    assert!(contains_part("aab", "ab"));
    assert_eq!(find_char(&chars_of("a=b=c"), '='), 1);
    assert_eq!(find_char(&chars_of("abc"), '='), 3);
}

#[test]
fn strings_are_cut() {
    assert_eq!(strip_suffix("page.url", ".url"), Some("page".to_string()));
    assert_eq!(strip_suffix(".url", ".url"), Some(String::new()));
    assert_eq!(strip_suffix("page.txt", ".url"), None);
    assert_eq!(strip_suffix("url", ".url"), None);
    assert_eq!(strip_end("https://host//", '/'), "https://host");
    assert_eq!(strip_end("///", '/'), "");
    assert_eq!(string_of(&chars_of("abcdef"), 2, 4), "cd");
}

#[test]
fn splitting_keeps_empty_pieces() {
    assert_eq!(split("a,b", ','), vec!["a", "b"]);
    assert_eq!(split("", ','), vec![""]);
    assert_eq!(split(",a,,", ','), vec!["", "a", "", ""]);
    let text = "x/y//z";
    assert_eq!(split(text, '/').join("/"), text);
}

#[test]
fn white_space_is_trimmed() {
    assert_eq!(trim("  secret\n"), "secret");
    assert_eq!(trim("\u{a0}\u{3000}a b\u{2028}"), "a b");
    assert_eq!(trim(" \t\r\n"), "");
    assert_eq!(trim("\u{200b}x"), "\u{200b}x");
    for c in ['\u{9}', '\u{b}', '\u{c}', '\u{85}', '\u{1680}', '\u{2000}', '\u{200a}', '\u{2029}', '\u{202f}', '\u{205f}'] {
        let text = format!("{}x{}", c, c);
        assert_eq!(trim(&text), text.trim());
    }
}

#[test]
fn second_words_are_found() {
    assert_eq!(word_after_first("GET /healthz HTTP/1.1\r"), "/healthz");
    assert_eq!(word_after_first("  GET \t /x"), "/x");
    assert_eq!(word_after_first("GET"), "");
    assert_eq!(word_after_first(""), "");
}

#[test]
fn numbers_are_written() {
    assert_eq!(decimal_string(0), "0");
    assert_eq!(decimal_string(10), "10");
    assert_eq!(decimal_string(u64::MAX), "18446744073709551615");
    assert_eq!(signed_decimal_string(-1), "-1");
    assert_eq!(signed_decimal_string(i32::MIN), "-2147483648");
    assert_eq!(signed_decimal_string(127), "127");
    assert_eq!(digit_char(9), '9');
    assert_eq!(digit_char(15), 'f');
}

#[test]
fn numbers_are_read() {
    assert_eq!(parse_unsigned("644", 8, u32::MAX as u64), Some(0o644));
    assert_eq!(parse_unsigned("0644", 8, u32::MAX as u64), Some(0o644));
    assert_eq!(parse_unsigned("+7", 8, 7), Some(7));
    assert_eq!(parse_unsigned("8", 8, 100), None);
    assert_eq!(parse_unsigned("", 10, 100), None);
    assert_eq!(parse_unsigned("+", 10, 100), None);
    assert_eq!(parse_unsigned("-1", 10, 100), None);
    assert_eq!(parse_unsigned(" 1", 10, 100), None);
    assert_eq!(parse_unsigned("101", 10, 100), None);
    assert_eq!(parse_unsigned("18446744073709551615", 10, u64::MAX), Some(u64::MAX));
    assert_eq!(parse_unsigned("18446744073709551616", 10, u64::MAX), None);
    assert_eq!(parse_unsigned("99999999999999999999999x", 10, u64::MAX), None);
    assert_eq!(parse_unsigned("fF", 16, 255), Some(255));
    for text in ["1", "+1", "++1", "0x1", "1_0", "00012", "٣"] {
        assert_eq!(parse_unsigned(text, 10, u64::MAX), text.parse::<u64>().ok());
    }
}

#[test]
fn maps_keep_their_keys_in_order() {
    let mut map: OrderedMap<String> = OrderedMap::new();
    map.insert("b".to_string(), "2".to_string());
    map.insert("a".to_string(), "1".to_string());
    map.insert("c".to_string(), "3".to_string());
    map.insert("b".to_string(), "two".to_string());
    assert_eq!(map.len(), 3);
    let keys: Vec<String> = (0..3).map(|i| map.key(i).clone()).collect();
    assert_eq!(keys, vec!["a", "b", "c"]);
    assert_eq!(map.value(1), "two");
    assert_eq!(map.get("c"), Some(&"3".to_string()));
    assert_eq!(map.get("d"), None);
    map.remove("a");
    map.remove("zzz");
    assert_eq!(map.len(), 2);
    assert!(!map.contains_key("a"));
    assert!(map.contains_key("b"));
}

#[test]
fn maps_do_not_depend_on_the_order_of_insertion() {
    let mut one: OrderedMap<String> = OrderedMap::new();
    let mut two: OrderedMap<String> = OrderedMap::new();
    for k in ["x", "b", "ä", "a"] {
        one.insert(k.to_string(), k.to_string());
    }
    for k in ["a", "x", "ä", "b"] {
        two.insert(k.to_string(), k.to_string());
    }
    for i in 0..4 {
        assert_eq!(one.key(i), two.key(i));
        assert_eq!(one.value(i), two.value(i));
    }
}

#[test]
fn variables_are_read() {
    let v = vars(&[("A", "1"), ("B", "TRUE"), ("A", "7"), ("N", "-3"), ("BIG", "4294967296")]);
    assert_eq!(v.get("A"), Some(&"1".to_string()));
    assert_eq!(v.value("C"), None);
    assert!(env_is_true(&v, "B"));
    assert!(!env_is_true(&v, "A"));
    assert!(!env_is_true(&v, "C"));
    assert_eq!(env_u64(&v, "A", 5), 1);
    assert_eq!(env_u64(&v, "N", 5), 5);
    assert_eq!(env_u64(&v, "C", 5), 5);
    assert_eq!(env_u64(&v, "BIG", 5), 4294967296);
    assert_eq!(env_u32(&v, "BIG", 5), 5);
}

#[test]
fn letters_change_their_case() {
    assert_eq!(in_lower_case("TrUe-1_Z"), "true-1_z");
    assert_eq!(in_upper_case("WaRn-1_z"), "WARN-1_Z");
    assert_eq!(in_lower_case("\u{c4}B"), "\u{e4}b");
    assert_eq!(in_upper_case("\u{df}"), "SS");
}

#[test]
fn bytes_are_shown_as_text() {
    assert_eq!(show_bytes("a\u{e4}".as_bytes()), "a\u{e4}");
    assert_eq!(show_bytes(b"a\xffb"), "a\u{fffd}b");
}
