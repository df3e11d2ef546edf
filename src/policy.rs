//! Scoring, feedback and the compliance verdict.
use vstd::prelude::*;

use crate::analysis::{analyze_patterns, fingerprint, lower_of, PatternAnalysis};

verus! {

/// The known-weak passwords, in lower case.
pub const COMMON_PASSWORDS: [&'static str; 4] = ["password", "123456", "qwerty", "admin"];

/// The lower-cased text is one of the known-weak passwords.
pub open spec fn is_common_text(lower: Seq<char>) -> bool {
    lower == "password"@ || lower == "123456"@ || lower == "qwerty"@ || lower == "admin"@
}

/// The password equals a known-weak password, ignoring case.
pub open spec fn is_common(password: Seq<char>) -> bool {
    is_common_text(lower_of(password))
}

/// Whether the password is a known-weak password, ignoring case.
pub fn is_common_password(password: &str) -> (r: bool)
    ensures
        r == is_common(password@),
{
    let lower = crate::analysis::lower_case(password);
    let mut i: usize = 0;
    while i < 4
        invariant
            lower@ == lower_of(password@),
            0 <= i <= 4,
            forall|j: int| 0 <= j < i ==> lower@ != (#[trigger] COMMON_PASSWORDS[j])@,
        decreases 4 - i,
    {
        let candidate: String = COMMON_PASSWORDS[i].to_owned();
        if lower == candidate {
            assert(is_common_text(lower@)) by {
                assert(COMMON_PASSWORDS[i as int] == COMMON_PASSWORDS@[i as int]);
            }
            return true;
        }
        i = i + 1;
    }
    assert(lower@ != COMMON_PASSWORDS[0]@);
    assert(lower@ != COMMON_PASSWORDS[1]@);
    assert(lower@ != COMMON_PASSWORDS[2]@);
    assert(lower@ != COMMON_PASSWORDS[3]@);
    false
}

/// Points for the length: 5 below 8 characters, 25 up to 11, 40 from 12.
pub open spec fn length_points(length: u32) -> int {
    if length <= 7 {
        5
    } else if length <= 11 {
        25
    } else {
        40
    }
}

/// Points for the character classes present.
pub open spec fn class_points(a: PatternAnalysis) -> int {
    (if a.has_lowercase { 10int } else { 0int }) + (if a.has_uppercase { 10int } else { 0int })
        + (if a.has_numbers { 15int } else { 0int }) + (if a.has_symbols { 20int } else { 0int })
}

/// `x - d`, but never below zero.
pub open spec fn floor_sub(x: int, d: int) -> int {
    if x >= d { x - d } else { 0 }
}

/// The strength score: the points, less 10 for a repetition and 15 for a
/// sequence (never below zero), capped at 100.
pub open spec fn score_of(a: PatternAnalysis) -> int {
    let raw = length_points(a.length) + class_points(a);
    let after_repeat = if a.repeated_chars > 0 { floor_sub(raw, 10) } else { raw };
    let after_sequence = if a.sequential_chars > 0 {
        floor_sub(after_repeat, 15)
    } else {
        after_repeat
    };
    if after_sequence > 100 { 100 } else { after_sequence }
}

/// Scores a fingerprint from 0 to 100.
pub fn calculate_strength_score(analysis: &PatternAnalysis) -> (r: u32)
    ensures
        r == score_of(*analysis),
        r <= 100,
{
    let mut score: u32 = if analysis.length <= 7 {
        5
    } else if analysis.length <= 11 {
        25
    } else {
        40
    };
    if analysis.has_lowercase {
        score = score + 10;
    }
    if analysis.has_uppercase {
        score = score + 10;
    }
    if analysis.has_numbers {
        score = score + 15;
    }
    if analysis.has_symbols {
        score = score + 20;
    }
    if analysis.repeated_chars > 0 {
        score = score.saturating_sub(10);
    }
    if analysis.sequential_chars > 0 {
        score = score.saturating_sub(15);
    }
    if score > 100 {
        100
    } else {
        score
    }
}

/// The assumed alphabet size: 26 for lower case, 26 for upper case, 10 for
/// digits and 32 for symbols, for each class present.
pub open spec fn charset_size_of(a: PatternAnalysis) -> int {
    (if a.has_lowercase { 26int } else { 0int }) + (if a.has_uppercase { 26int } else { 0int })
        + (if a.has_numbers { 10int } else { 0int }) + (if a.has_symbols { 32int } else { 0int })
}

/// The alphabet size from which the entropy estimate is taken; the estimate
/// is `length * log2(size)`, and 0 where the size is 0.
pub fn calculate_charset_size(analysis: &PatternAnalysis) -> (r: u32)
    ensures
        r == charset_size_of(*analysis),
        r <= 94,
{
    let mut size: u32 = 0;
    if analysis.has_lowercase {
        size = size + 26;
    }
    if analysis.has_uppercase {
        size = size + 26;
    }
    if analysis.has_numbers {
        size = size + 10;
    }
    if analysis.has_symbols {
        size = size + 32;
    }
    size
}

/// The entropy estimate has no alphabet to draw from exactly when no
/// character class is present, as for the empty password.
pub proof fn lemma_no_class_no_charset(a: PatternAnalysis)
    ensures
        charset_size_of(a) == 0 <==> (!a.has_lowercase && !a.has_uppercase && !a.has_numbers
            && !a.has_symbols),
        charset_size_of(fingerprint(Seq::empty())) == 0,
{
}

pub const TOO_SHORT: &'static str = "Password is too short (minimum 8 characters recommended).";

pub const TOO_COMMON: &'static str = "This password is too common and easy to guess.";

pub const HAS_SEQUENCE: &'static str =
    "Passwords must not contain sequential characters (e.g., 'abc', '123').";

pub const ADD_UPPERCASE: &'static str = "Consider adding uppercase letters for more strength.";

pub const ADD_NUMBERS: &'static str = "Adding numbers will make your password stronger.";

pub const ADD_SYMBOLS: &'static str = "Special characters like !@#$%^&* add significant security.";

pub const USE_MANAGER: &'static str =
    "For maximum security, use a password manager to generate long, random passwords.";

/// `[m]` where `cond` holds, else nothing.
pub open spec fn remark_if(cond: bool, m: Seq<char>) -> Seq<Seq<char>> {
    if cond { seq![m] } else { Seq::empty() }
}

/// The remarks for a fingerprint, in their fixed order; each is present
/// exactly when its condition holds.
pub open spec fn feedback_of(a: PatternAnalysis, common: bool, score: u32) -> Seq<Seq<char>> {
    remark_if(a.length < 8, TOO_SHORT@) + remark_if(common, TOO_COMMON@) + remark_if(
        a.sequential_chars > 0,
        HAS_SEQUENCE@,
    ) + remark_if(!a.has_uppercase, ADD_UPPERCASE@) + remark_if(!a.has_numbers, ADD_NUMBERS@)
        + remark_if(!a.has_symbols, ADD_SYMBOLS@) + remark_if(score < 75, USE_MANAGER@)
}

fn push_if(feedback: &mut Vec<String>, cond: bool, m: &str)
    ensures
        final(feedback).deep_view() == old(feedback).deep_view() + remark_if(cond, m@),
{
    if cond {
        feedback.push(m.to_owned());
        assert(final(feedback).deep_view() =~= old(feedback).deep_view() + remark_if(cond, m@));
    } else {
        assert(old(feedback).deep_view() + remark_if(cond, m@) =~= old(feedback).deep_view());
    }
}

/// The advice for a password with the given fingerprint and score.
pub fn generate_feedback(password: &str, analysis: &PatternAnalysis, score: u32) -> (r: Vec<
    String,
>)
    ensures
        r.deep_view() == feedback_of(*analysis, is_common(password@), score),
{
    let mut feedback: Vec<String> = Vec::new();
    assert(feedback.deep_view() =~= Seq::<Seq<char>>::empty());
    push_if(&mut feedback, analysis.length < 8, TOO_SHORT);
    push_if(&mut feedback, is_common_password(password), TOO_COMMON);
    push_if(&mut feedback, analysis.sequential_chars > 0, HAS_SEQUENCE);
    push_if(&mut feedback, !analysis.has_uppercase, ADD_UPPERCASE);
    push_if(&mut feedback, !analysis.has_numbers, ADD_NUMBERS);
    push_if(&mut feedback, !analysis.has_symbols, ADD_SYMBOLS);
    push_if(&mut feedback, score < 75, USE_MANAGER);
    assert(feedback.deep_view() =~= feedback_of(*analysis, is_common(password@), score));
    feedback
}

/// The verdict on a password: fingerprint, score and advice. The entropy
/// estimate follows from `pattern_analysis` (see `calculate_charset_size`).
#[derive(Clone, Debug)]
pub struct PasswordAnalysis {
    pub is_compliant: bool,
    pub strength_score: u32,
    pub pattern_analysis: PatternAnalysis,
    pub feedback: Vec<String>,
}

/// Compliance: at least 8 characters, a score above 50, not a known-weak
/// password, and no sequence found.
pub open spec fn compliant(s: Seq<char>) -> bool {
    let a = fingerprint(s);
    a.length >= 8 && score_of(a) > 50 && !is_common(s) && a.sequential_chars == 0
}

/// Analyses a password against the policy.
pub fn check_password_policy(password: String) -> (r: PasswordAnalysis)
    ensures
        r.pattern_analysis == fingerprint(password@),
        r.strength_score == score_of(fingerprint(password@)),
        r.is_compliant == compliant(password@),
        r.feedback.deep_view() == feedback_of(
            fingerprint(password@),
            is_common(password@),
            r.strength_score,
        ),
{
    let pattern_analysis = analyze_patterns(password.as_str());
    let strength_score = calculate_strength_score(&pattern_analysis);
    let feedback = generate_feedback(password.as_str(), &pattern_analysis, strength_score);
    let is_compliant = pattern_analysis.length >= 8 && strength_score > 50
        && !is_common_password(password.as_str()) && pattern_analysis.sequential_chars == 0;
    PasswordAnalysis { is_compliant, strength_score, pattern_analysis, feedback }
}

proof fn lemma_append_remark(f: Seq<Seq<char>>, c: bool, m: Seq<char>)
    requires
        f.no_duplicates(),
        !f.contains(m),
    ensures
        (f + remark_if(c, m)).no_duplicates(),
        forall|x: Seq<char>| #[trigger] (f + remark_if(c, m)).contains(x) ==> f.contains(x) || x == m,
        (f + remark_if(c, m)).len() <= f.len() + 1,
{
    let g = f + remark_if(c, m);
    if c {
        assert(g =~= f.push(m));
        assert forall|x: Seq<char>| g.contains(x) implies f.contains(x) || x == m by {
            let j = choose|j: int| 0 <= j < g.len() && g[j] == x;
            if j < f.len() {
                assert(f[j] == x);
            }
        }
        assert forall|i: int, j: int| 0 <= i < j < g.len() implies g[i] != g[j] by {
            if j == f.len() {
                assert(f.contains(f[i]));
            }
        }
    } else {
        assert(g =~= f);
    }
}

/// The remarks are pairwise different: the advice never repeats one, holds
/// at most seven, and lists those it holds in the fixed order of
/// `feedback_of`.
pub proof fn lemma_feedback_distinct(a: PatternAnalysis, common: bool, score: u32)
    ensures
        feedback_of(a, common, score).no_duplicates(),
        feedback_of(a, common, score).len() <= 7,
{
    reveal_strlit("Password is too short (minimum 8 characters recommended).");
    reveal_strlit("This password is too common and easy to guess.");
    reveal_strlit("Passwords must not contain sequential characters (e.g., 'abc', '123').");
    reveal_strlit("Consider adding uppercase letters for more strength.");
    reveal_strlit("Adding numbers will make your password stronger.");
    reveal_strlit("Special characters like !@#$%^&* add significant security.");
    reveal_strlit("For maximum security, use a password manager to generate long, random passwords.");
    let m = seq![
        TOO_SHORT@,
        TOO_COMMON@,
        HAS_SEQUENCE@,
        ADD_UPPERCASE@,
        ADD_NUMBERS@,
        ADD_SYMBOLS@,
        USE_MANAGER@,
    ];
    assert(TOO_SHORT@[0] == 'P' && TOO_SHORT@[8] == ' ');
    assert(HAS_SEQUENCE@[0] == 'P' && HAS_SEQUENCE@[8] == 's');
    assert(TOO_COMMON@[0] == 'T');
    assert(ADD_UPPERCASE@[0] == 'C');
    assert(ADD_NUMBERS@[0] == 'A');
    assert(ADD_SYMBOLS@[0] == 'S');
    assert(USE_MANAGER@[0] == 'F');
    let f0 = Seq::<Seq<char>>::empty();
    lemma_append_remark(f0, a.length < 8, m[0]);
    let f1 = f0 + remark_if(a.length < 8, m[0]);
    lemma_append_remark(f1, common, m[1]);
    let f2 = f1 + remark_if(common, m[1]);
    lemma_append_remark(f2, a.sequential_chars > 0, m[2]);
    let f3 = f2 + remark_if(a.sequential_chars > 0, m[2]);
    lemma_append_remark(f3, !a.has_uppercase, m[3]);
    let f4 = f3 + remark_if(!a.has_uppercase, m[3]);
    lemma_append_remark(f4, !a.has_numbers, m[4]);
    let f5 = f4 + remark_if(!a.has_numbers, m[4]);
    lemma_append_remark(f5, !a.has_symbols, m[5]);
    let f6 = f5 + remark_if(!a.has_symbols, m[5]);
    lemma_append_remark(f6, score < 75, m[6]);
    assert(f0 + remark_if(a.length < 8, m[0]) =~= remark_if(a.length < 8, m[0]));
    assert(f6 + remark_if(score < 75, m[6]) == feedback_of(a, common, score));
}

/// A password of fewer than 8 characters is never compliant.
pub proof fn lemma_short_never_compliant(s: Seq<char>)
    requires
        s.len() < 8,
    ensures
        !compliant(s),
{
}

/// A known-weak password, in any case, is never compliant, and its advice
/// says that it is too common.
pub proof fn lemma_common_rejected(s: Seq<char>, score: u32)
    requires
        is_common(s),
    ensures
        !compliant(s),
        feedback_of(fingerprint(s), is_common(s), score).contains(TOO_COMMON@),
{
    let a = fingerprint(s);
    let f = feedback_of(a, true, score);
    let head = remark_if(a.length < 8, TOO_SHORT@);
    let rest = remark_if(a.sequential_chars > 0, HAS_SEQUENCE@) + remark_if(
        !a.has_uppercase,
        ADD_UPPERCASE@,
    ) + remark_if(!a.has_numbers, ADD_NUMBERS@) + remark_if(!a.has_symbols, ADD_SYMBOLS@)
        + remark_if(score < 75, USE_MANAGER@);
    assert(f =~= head + seq![TOO_COMMON@] + rest);
    assert(f[head.len() as int] == TOO_COMMON@);
}

/// The score of every password lies in 0..=100.
pub proof fn lemma_score_in_range(s: Seq<char>)
    ensures
        0 <= score_of(fingerprint(s)) <= 100,
{
}

/// A password that fails every condition gets all seven remarks, in the
/// fixed order.
pub proof fn lemma_feedback_order(a: PatternAnalysis, score: u32)
    requires
        a.length < 8,
        a.sequential_chars > 0,
        !a.has_uppercase,
        !a.has_numbers,
        !a.has_symbols,
        score < 75,
    ensures
        feedback_of(a, true, score) == seq![
            TOO_SHORT@,
            TOO_COMMON@,
            HAS_SEQUENCE@,
            ADD_UPPERCASE@,
            ADD_NUMBERS@,
            ADD_SYMBOLS@,
            USE_MANAGER@,
        ],
{
    assert(feedback_of(a, true, score) =~= seq![
        TOO_SHORT@,
        TOO_COMMON@,
        HAS_SEQUENCE@,
        ADD_UPPERCASE@,
        ADD_NUMBERS@,
        ADD_SYMBOLS@,
        USE_MANAGER@,
    ]);
}

} // verus!
