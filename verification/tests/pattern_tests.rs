use vanity::pattern::{
    ends_with, is_reachable, matches_bytes, starts_with, to_ascii_lowercase, to_lower_byte,
};

#[test]
fn empty_pattern_matches_every_text() {
    for text in ["", "A", "ABCxyz", "11111111111111111111111111111111", "zzzz"] {
        assert!(vanity::pattern::matches(text, "", "", false));
        assert!(vanity::pattern::matches(text, "", "", true));
    }
}

#[test]
fn case_insensitive_matching_folds_the_text() {
    assert!(vanity::pattern::matches("ABCxyz", "abc", "", true));
    assert!(!vanity::pattern::matches("ABCxyz", "abc", "", false));
}

#[test]
fn case_insensitive_matching_does_not_fold_the_pattern() {
    assert!(vanity::pattern::matches("ABCxyz", "ABC", "", false));
    assert!(!vanity::pattern::matches("ABCxyz", "ABC", "", true));
    assert!(vanity::pattern::matches("ABCxyZ", "", "xyz", true));
    assert!(!vanity::pattern::matches("ABCxyZ", "", "xyZ", true));
}

#[test]
fn prefix_and_suffix_must_both_hold() {
    assert!(vanity::pattern::matches("ABCxyz", "AB", "yz", false));
    assert!(!vanity::pattern::matches("ABCxyz", "AB", "yy", false));
    assert!(!vanity::pattern::matches("ABCxyz", "BB", "yz", false));
    assert!(!vanity::pattern::matches("ABCxyz", "BB", "yy", false));
}

#[test]
fn prefix_and_suffix_may_overlap() {
    assert!(vanity::pattern::matches("aba", "ab", "ba", false));
    assert!(vanity::pattern::matches("abc", "abc", "abc", false));
    assert!(!vanity::pattern::matches("ab", "abc", "", false));
    assert!(!vanity::pattern::matches("bc", "", "abc", false));
}

#[test]
fn starts_with_compares_the_first_bytes() {
    assert!(starts_with(b"hello", b""));
    assert!(starts_with(b"hello", b"he"));
    assert!(starts_with(b"hello", b"hello"));
    assert!(!starts_with(b"hello", b"hellos"));
    assert!(!starts_with(b"hello", b"el"));
    assert!(starts_with(b"", b""));
}

#[test]
fn ends_with_compares_the_last_bytes() {
    assert!(ends_with(b"hello", b""));
    assert!(ends_with(b"hello", b"lo"));
    assert!(ends_with(b"hello", b"hello"));
    assert!(!ends_with(b"hello", b"shello"));
    assert!(!ends_with(b"hello", b"ll"));
}

#[test]
fn lowercase_touches_only_upper_case_letters() {
    assert_eq!(to_ascii_lowercase(b"ABCxyz019@[`{"), b"abcxyz019@[`{".to_vec());
    assert_eq!(to_ascii_lowercase(b""), Vec::<u8>::new());
    assert_eq!(to_lower_byte(b'A'), b'a');
    assert_eq!(to_lower_byte(b'Z'), b'z');
    assert_eq!(to_lower_byte(b'@'), b'@');
    assert_eq!(to_lower_byte(b'['), b'[');
    assert_eq!(to_lower_byte(200), 200);
}

#[test]
fn matches_bytes_agrees_with_std() {
    let texts = ["CgcGWMJ9V8fLeU3LdMa7Dx3vTg7Ztm8sTPV47UayCR3P", "Loop", "xLoop", "loop"];
    let patterns = ["", "L", "Loop", "loop", "cgc", "Cgc", "3P", "3p"];
    for text in texts {
        for prefix in patterns {
            for suffix in patterns {
                let plain = text.starts_with(prefix) && text.ends_with(suffix);
                assert_eq!(
                    matches_bytes(text.as_bytes(), prefix.as_bytes(), suffix.as_bytes(), false),
                    plain
                );
                let low = text.to_ascii_lowercase();
                let folded = low.starts_with(prefix) && low.ends_with(suffix);
                assert_eq!(
                    matches_bytes(text.as_bytes(), prefix.as_bytes(), suffix.as_bytes(), true),
                    folded
                );
            }
        }
    }
}

#[test]
fn reachable_patterns_use_the_base58_alphabet() {
    let alphabet = b"123456789ABCDEFGHJKLMNPQRSTUVWXYZabcdefghijkmnopqrstuvwxyz";
    assert_eq!(alphabet.len(), 58);
    assert!(is_reachable(alphabet, false));
    assert!(is_reachable(b"", false));
    assert!(is_reachable(b"", true));
    for b in 0..=255u8 {
        assert_eq!(is_reachable(&[b], false), alphabet.contains(&b));
        let folded = alphabet.iter().any(|c| c.to_ascii_lowercase() == b);
        assert_eq!(is_reachable(&[b], true), folded);
    }
    assert!(!is_reachable(b"Loop0", false));
    assert!(!is_reachable(b"Loop", true));
    assert!(is_reachable(b"loop", true));
}
