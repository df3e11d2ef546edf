use crypto_analyzer::analysis::{analyze_patterns, PatternAnalysis};
use crypto_analyzer::policy::{
    calculate_charset_size, calculate_strength_score, check_password_policy, generate_feedback,
    is_common_password, ADD_NUMBERS, ADD_SYMBOLS, ADD_UPPERCASE, HAS_SEQUENCE, TOO_COMMON,
    TOO_SHORT, USE_MANAGER,
};

fn fp(length: u32) -> PatternAnalysis {
    PatternAnalysis {
        has_uppercase: false,
        has_lowercase: false,
        has_numbers: false,
        has_symbols: false,
        length,
        repeated_chars: 0,
        sequential_chars: 0,
    }
}

#[test]
fn short_password_not_compliant() {
    let r = check_password_policy("Xy9!".to_string());
    assert!(!r.is_compliant);
    assert_eq!(r.feedback[0], TOO_SHORT);
}

#[test]
fn common_password_any_case() {
    assert!(is_common_password("PassWord"));
    assert!(is_common_password("admin"));
    assert!(!is_common_password("admin1"));
    let r = check_password_policy("QWERTY".to_string());
    assert!(!r.is_compliant);
    assert!(r.feedback.iter().any(|m| m == TOO_COMMON));
}

#[test]
fn strong_password_compliant_without_feedback() {
    let r = check_password_policy("Zebra!Moon#Tulip9".to_string());
    assert!(r.is_compliant);
    assert_eq!(r.strength_score, 95);
    assert!(r.feedback.is_empty());
}

#[test]
fn sequence_blocks_compliance_despite_score() {
    let r = check_password_policy("Zebra!Moon#abc9".to_string());
    assert_eq!(r.strength_score, 80);
    assert!(!r.is_compliant);
    assert_eq!(r.feedback, vec![HAS_SEQUENCE.to_string()]);
}

#[test]
fn score_formula_values() {
    assert_eq!(calculate_strength_score(&fp(0)), 5);
    assert_eq!(calculate_strength_score(&fp(8)), 25);
    assert_eq!(calculate_strength_score(&fp(12)), 40);
    let mut a = fp(3);
    a.repeated_chars = 1;
    a.sequential_chars = 1;
    assert_eq!(calculate_strength_score(&a), 0);
    let all = PatternAnalysis {
        has_uppercase: true,
        has_lowercase: true,
        has_numbers: true,
        has_symbols: true,
        length: 20,
        repeated_chars: 0,
        sequential_chars: 0,
    };
    assert_eq!(calculate_strength_score(&all), 95);
}

#[test]
fn score_bounded_for_adversarial_input() {
    let long: String = std::iter::repeat('a').take(5000).collect();
    let r = check_password_policy(long);
    assert!(r.strength_score <= 100);
    assert_eq!(r.pattern_analysis.repeated_chars, 4998);
    let r = check_password_policy("日本語パスワード€€€".to_string());
    assert!(r.strength_score <= 100);
}

#[test]
fn charset_size_values() {
    assert_eq!(calculate_charset_size(&fp(0)), 0);
    assert_eq!(calculate_charset_size(&analyze_patterns("")), 0);
    assert_eq!(calculate_charset_size(&analyze_patterns("aA1!")), 94);
    assert_eq!(calculate_charset_size(&analyze_patterns("abc")), 26);
}

#[test]
fn feedback_order_all_remarks() {
    let a = analyze_patterns("123");
    let score = calculate_strength_score(&a);
    let f = generate_feedback("123456", &a, score);
    assert_eq!(
        f,
        vec![
            TOO_SHORT.to_string(),
            TOO_COMMON.to_string(),
            HAS_SEQUENCE.to_string(),
            ADD_UPPERCASE.to_string(),
            ADD_NUMBERS.to_string(),
            ADD_SYMBOLS.to_string(),
            USE_MANAGER.to_string(),
        ]
        .into_iter()
        .filter(|m| m != ADD_NUMBERS)
        .collect::<Vec<_>>()
    );
}

#[test]
fn feedback_order_of_empty_password() {
    let r = check_password_policy(String::new());
    assert_eq!(
        r.feedback,
        vec![
            TOO_SHORT.to_string(),
            ADD_UPPERCASE.to_string(),
            ADD_NUMBERS.to_string(),
            ADD_SYMBOLS.to_string(),
            USE_MANAGER.to_string(),
        ]
    );
    assert!(!r.is_compliant);
    assert_eq!(r.strength_score, 5);
}
