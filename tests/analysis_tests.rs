use crypto_analyzer::analysis::{
    analyze_patterns, count_repeated_chars, count_sequential_chars, PatternAnalysis,
};

#[test]
fn repeated_chars_windows() {
    assert_eq!(count_repeated_chars("aaaa"), 2);
    assert_eq!(count_repeated_chars("aaa"), 1);
    assert_eq!(count_repeated_chars("aab"), 0);
}

#[test]
fn repeated_chars_short_and_empty() {
    assert_eq!(count_repeated_chars(""), 0);
    assert_eq!(count_repeated_chars("aa"), 0);
    assert_eq!(count_repeated_chars("ééé"), 1);
}

#[test]
fn sequential_chars_counts_categories() {
    assert_eq!(count_sequential_chars("abc123"), 2);
}

#[test]
fn sequential_chars_each_category_once() {
    assert_eq!(count_sequential_chars("abcdefabc"), 1);
    assert_eq!(count_sequential_chars("x"), 0);
    assert_eq!(count_sequential_chars("QWErty"), 1);
    assert_eq!(count_sequential_chars("9999"), 1);
    assert_eq!(count_sequential_chars("1234abcqwe"), 4);
}

#[test]
fn fingerprint_of_mixed_password() {
    let a = analyze_patterns("Ab1!");
    assert_eq!(
        a,
        PatternAnalysis {
            has_uppercase: true,
            has_lowercase: true,
            has_numbers: true,
            has_symbols: true,
            length: 4,
            repeated_chars: 0,
            sequential_chars: 0,
        }
    );
}

#[test]
fn fingerprint_counts_characters_not_bytes() {
    let a = analyze_patterns("ÄÖÜ");
    assert_eq!(a.length, 3);
    assert!(a.has_uppercase);
    assert!(!a.has_lowercase);
    assert!(!a.has_symbols);
}

#[test]
fn fingerprint_of_empty_password() {
    let a = analyze_patterns("");
    assert!(!a.has_uppercase && !a.has_lowercase && !a.has_numbers && !a.has_symbols);
    assert_eq!(a.length, 0);
    assert_eq!(a.repeated_chars, 0);
    assert_eq!(a.sequential_chars, 0);
}

#[test]
fn fingerprint_of_symbols_only() {
    let a = analyze_patterns("!!!");
    assert!(a.has_symbols);
    assert!(!a.has_numbers);
    assert_eq!(a.repeated_chars, 1);
}
