use chatbot::config::parse_id_list;
use chatbot::number::{parse_signed, parse_unsigned, push_decimal};
use chatbot::text::{remove_fences, starts_with, trim_bounds, trimmed_tail_equals};

fn chars(s: &str) -> Vec<char> {
    s.chars().collect()
}

#[test]
fn fences_are_removed_left_to_right() {
    assert_eq!(remove_fences(&chars("a```b```c")), "abc");
    assert_eq!(remove_fences(&chars("````")), "`");
    assert_eq!(remove_fences(&chars("`````")), "``");
    assert_eq!(remove_fences(&chars("``````")), "");
    assert_eq!(remove_fences(&chars("no fence")), "no fence");
    assert_eq!(remove_fences(&chars("``x`")), "``x`");
}

#[test]
fn fences_removed_as_str_replace_does() {
    for s in ["```rust\nfn main() {}\n```", "`` ` ```` ``", "日本```語", ""] {
        assert_eq!(remove_fences(&chars(s)), s.replace("```", ""));
    }
}

#[test]
fn trimming_matches_str_trim() {
    for s in ["  reset  ", "\treset\n", "reset", "   ", "", "\u{3000}reset\u{a0}", " a b "] {
        let v = chars(s);
        let (lo, hi) = trim_bounds(&v);
        let t: String = v[lo..hi].iter().collect();
        assert_eq!(t, s.trim());
    }
}

#[test]
fn trimmed_tail_comparison() {
    let v = chars("<@7> reset ");
    assert!(trimmed_tail_equals(&v, 4, &chars("reset")));
    assert!(!trimmed_tail_equals(&v, 0, &chars("reset")));
    assert!(!trimmed_tail_equals(&chars("<@7> resets"), 4, &chars("reset")));
}

#[test]
fn prefixes() {
    assert!(starts_with(&chars(";skip"), &chars(";")));
    assert!(!starts_with(&chars("skip;"), &chars(";")));
    assert!(!starts_with(&chars(""), &chars(";")));
    assert!(starts_with(&chars("anything"), &chars("")));
}

#[test]
fn decimal_rendering() {
    let mut s = String::from("n=");
    push_decimal(&mut s, 0);
    assert_eq!(s, "n=0");
    let mut s = String::new();
    push_decimal(&mut s, 1234567890123);
    assert_eq!(s, "1234567890123");
    let mut s = String::new();
    push_decimal(&mut s, u64::MAX);
    assert_eq!(s, u64::MAX.to_string());
}

#[test]
fn decimal_round_trip() {
    for n in [0u64, 9, 10, 4096, 123456789123456789, u64::MAX] {
        let mut s = String::new();
        push_decimal(&mut s, n);
        assert_eq!(parse_unsigned(&chars(&s)), Some(n));
    }
}

#[test]
fn unsigned_reading_matches_from_str_radix() {
    for s in ["0", "+5", "18446744073709551615", "18446744073709551616", "", "+", "-1", "1a", " 1", "007"] {
        assert_eq!(parse_unsigned(&chars(s)), u64::from_str_radix(s, 10).ok(), "{:?}", s);
    }
}

#[test]
fn signed_reading_matches_from_str_radix() {
    for s in [
        "0", "-0", "+12", "-12", "9223372036854775807", "9223372036854775808",
        "-9223372036854775808", "-9223372036854775809", "", "-", "+", "--1", "1-", "１",
    ] {
        assert_eq!(parse_signed(&chars(s)), i64::from_str_radix(s, 10).ok(), "{:?}", s);
    }
}

#[test]
fn id_lists() {
    assert_eq!(parse_id_list("1,2,3"), Some(vec![1, 2, 3]));
    assert_eq!(parse_id_list("-5"), Some(vec![-5]));
    assert_eq!(parse_id_list("1,,3"), None);
    assert_eq!(parse_id_list(""), None);
    assert_eq!(parse_id_list("1,2,"), None);
    assert_eq!(parse_id_list("1, 2"), None);
    assert_eq!(parse_id_list("123456789012345678,876543210987654321"), Some(vec![123456789012345678, 876543210987654321]));
}
