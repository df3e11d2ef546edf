//! Character-class, repetition and sequence fingerprint of a password.
use vstd::prelude::*;

verus! {

/// What `char::is_uppercase` says of a character (Unicode `Uppercase`).
pub uninterp spec fn upper_char(c: char) -> bool;

/// What `char::is_lowercase` says of a character (Unicode `Lowercase`).
pub uninterp spec fn lower_char(c: char) -> bool;

/// What `char::is_numeric` says of a character (Unicode `Nd`, `Nl`, `No`).
pub uninterp spec fn numeric_char(c: char) -> bool;

/// What `char::is_alphanumeric` says of a character.
pub uninterp spec fn alphanumeric_char(c: char) -> bool;

/// What `str::to_lowercase` returns for a string.
pub uninterp spec fn lower_of(s: Seq<char>) -> Seq<char>;

/// Whether `regex::Regex::new` accepts a pattern.
pub uninterp spec fn regex_compiles(pattern: Seq<char>) -> bool;

/// What `regex::Regex::is_match` says of a compiled pattern and a text: a
/// match exists somewhere in the text.
pub uninterp spec fn regex_finds(pattern: Seq<char>, text: Seq<char>) -> bool;

#[verifier::external_type_specification]
#[verifier::external_body]
pub struct ExRegexError(regex::Error);

/// Relies on `regex::Regex::new` (which fails only on a pattern it refuses)
/// and `regex::Regex::is_match` on the compiled pattern.
#[verifier::external_body]
fn regex_search(pattern: &str, text: &str) -> (r: Result<bool, regex::Error>)
    ensures
        r is Ok <==> regex_compiles(pattern@),
        r is Ok ==> r->Ok_0 == regex_finds(pattern@, text@),
{
    regex::Regex::new(pattern).map(|re| re.is_match(text))
}

/// Relies on `str::chars`: the characters of a string, in order.
#[verifier::external_body]
fn chars_of(s: &str) -> (r: Vec<char>)
    ensures
        r@ == s@,
{
    s.chars().collect()
}

/// Relies on `char::is_uppercase`.
#[verifier::external_body]
fn is_upper(c: char) -> (r: bool)
    ensures
        r == upper_char(c),
{
    c.is_uppercase()
}

/// Relies on `char::is_lowercase`.
#[verifier::external_body]
fn is_lower(c: char) -> (r: bool)
    ensures
        r == lower_char(c),
{
    c.is_lowercase()
}

/// Relies on `char::is_numeric`.
#[verifier::external_body]
fn is_numeric(c: char) -> (r: bool)
    ensures
        r == numeric_char(c),
{
    c.is_numeric()
}

/// Relies on `char::is_alphanumeric`.
#[verifier::external_body]
fn is_alphanumeric(c: char) -> (r: bool)
    ensures
        r == alphanumeric_char(c),
{
    c.is_alphanumeric()
}

/// Relies on `str::to_lowercase`: the result depends on the characters alone,
/// and the empty string stays empty.
#[verifier::external_body]
pub(crate) fn lower_case(s: &str) -> (r: String)
    ensures
        r@ == lower_of(s@),
        s@.len() == 0 ==> r@.len() == 0,
{
    s.to_lowercase()
}

/// Number of positions `i` with `s[i] == s[i + 1] == s[i + 2]`: overlapping
/// windows of three equal characters, each counted once.
pub open spec fn triple_count(s: Seq<char>) -> nat
    decreases s.len(),
{
    if s.len() < 3 {
        0
    } else {
        let n = s.len() as int;
        triple_count(s.drop_last()) + if s[n - 3] == s[n - 2] && s[n - 2] == s[n - 1] {
            1nat
        } else {
            0nat
        }
    }
}

/// `n`, or `u32::MAX` where `n` does not fit.
pub open spec fn saturate_u32(n: nat) -> u32 {
    if n <= u32::MAX { n as u32 } else { u32::MAX }
}

/// Counts the windows of three identical consecutive characters.
pub fn count_repeated_chars(password: &str) -> (r: u32)
    ensures
        r == saturate_u32(triple_count(password@)),
{
    let chars = chars_of(password);
    let n = chars.len();
    let mut count: usize = 0;
    if n < 3 {
        return 0;
    }
    let mut i: usize = 2;
    while i < n
        invariant
            chars@ == password@,
            n == chars@.len(),
            2 <= i <= n,
            count == triple_count(chars@.subrange(0, i as int)),
            count <= i,
        decreases n - i,
    {
        let ghost before = chars@.subrange(0, i as int);
        assert(chars@.subrange(0, i + 1).drop_last() =~= before);
        if chars[i - 2] == chars[i - 1] && chars[i - 1] == chars[i] {
            count = count + 1;
        }
        i = i + 1;
    }
    assert(chars@.subrange(0, n as int) =~= password@);
    if count > u32::MAX as usize {
        u32::MAX
    } else {
        count as u32
    }
}

/// Four consecutive digits.
pub const DIGIT_RUN: &'static str = r"\d{4}";

/// Three consecutive letters of the alphabet.
pub const ALPHA_RUN: &'static str = "(abc|bcd|cde|def|efg|fgh|ghi|hij|ijk|jkl)";

/// Three consecutive digits in ascending order.
pub const NUMERIC_RUN: &'static str = "(123|234|345|456|567|678|789)";

/// Three adjacent keys of the top letter row of a qwerty keyboard.
pub const QWERTY_RUN: &'static str = "(qwe|wer|ert|rty|tyu|yui|uio|iop)";

/// Whether one sequence category is found in a text.
pub open spec fn category_found(pattern: Seq<char>, text: Seq<char>) -> bool {
    regex_compiles(pattern) && regex_finds(pattern, text)
}

/// How many of the four sequence categories are found in `text` (0 to 4).
pub open spec fn categories_found(text: Seq<char>) -> nat {
    (if category_found(DIGIT_RUN@, text) { 1nat } else { 0nat })
        + (if category_found(ALPHA_RUN@, text) { 1nat } else { 0nat })
        + (if category_found(NUMERIC_RUN@, text) { 1nat } else { 0nat })
        + (if category_found(QWERTY_RUN@, text) { 1nat } else { 0nat })
}

fn found(pattern: &str, text: &str) -> (r: u32)
    ensures
        r == (if category_found(pattern@, text@) { 1u32 } else { 0u32 }),
{
    match regex_search(pattern, text) {
        Ok(true) => 1,
        _ => 0,
    }
}

/// Counts the sequence categories found in the lower-cased password: each
/// category counts once, however often it occurs.
pub fn count_sequential_chars(password: &str) -> (r: u32)
    ensures
        r == categories_found(lower_of(password@)),
        r <= 4,
{
    let lower = lower_case(password);
    let text = lower.as_str();
    found(DIGIT_RUN, text) + found(ALPHA_RUN, text) + found(NUMERIC_RUN, text) + found(
        QWERTY_RUN,
        text,
    )
}

/// The fingerprint of a password.
#[derive(Clone, Copy, Debug, PartialEq, Eq)]
pub struct PatternAnalysis {
    pub has_uppercase: bool,
    pub has_lowercase: bool,
    pub has_numbers: bool,
    pub has_symbols: bool,
    /// Number of characters (Unicode scalar values), saturated at `u32::MAX`.
    pub length: u32,
    pub repeated_chars: u32,
    pub sequential_chars: u32,
}

/// Some character of `s` is upper case.
pub open spec fn any_upper(s: Seq<char>) -> bool {
    exists|i: int| 0 <= i < s.len() && upper_char(#[trigger] s[i])
}

/// Some character of `s` is lower case.
pub open spec fn any_lower(s: Seq<char>) -> bool {
    exists|i: int| 0 <= i < s.len() && lower_char(#[trigger] s[i])
}

/// Some character of `s` is numeric.
pub open spec fn any_numeric(s: Seq<char>) -> bool {
    exists|i: int| 0 <= i < s.len() && numeric_char(#[trigger] s[i])
}

/// Some character of `s` is neither alphabetic nor numeric.
pub open spec fn any_symbol(s: Seq<char>) -> bool {
    exists|i: int| 0 <= i < s.len() && !alphanumeric_char(#[trigger] s[i])
}

/// The fingerprint of the password whose characters are `s`.
pub open spec fn fingerprint(s: Seq<char>) -> PatternAnalysis {
    PatternAnalysis {
        has_uppercase: any_upper(s),
        has_lowercase: any_lower(s),
        has_numbers: any_numeric(s),
        has_symbols: any_symbol(s),
        length: saturate_u32(s.len()),
        repeated_chars: saturate_u32(triple_count(s)),
        sequential_chars: categories_found(lower_of(s)) as u32,
    }
}

/// Derives the fingerprint of a password.
pub fn analyze_patterns(password: &str) -> (r: PatternAnalysis)
    ensures
        r == fingerprint(password@),
{
    let chars = chars_of(password);
    let n = chars.len();
    let mut upper = false;
    let mut lower = false;
    let mut numeric = false;
    let mut symbol = false;
    let mut i: usize = 0;
    while i < n
        invariant
            chars@ == password@,
            n == chars@.len(),
            0 <= i <= n,
            upper == any_upper(chars@.subrange(0, i as int)),
            lower == any_lower(chars@.subrange(0, i as int)),
            numeric == any_numeric(chars@.subrange(0, i as int)),
            symbol == any_symbol(chars@.subrange(0, i as int)),
        decreases n - i,
    {
        let c = chars[i];
        let ghost pre = chars@.subrange(0, i as int);
        let ghost post = chars@.subrange(0, i + 1);
        assert(post =~= pre.push(c));
        assert(post[i as int] == c);
        assert(forall|j: int| 0 <= j < i ==> post[j] == #[trigger] pre[j]);
        if is_upper(c) {
            upper = true;
        }
        if is_lower(c) {
            lower = true;
        }
        if is_numeric(c) {
            numeric = true;
        }
        if !is_alphanumeric(c) {
            symbol = true;
        }
        i = i + 1;
    }
    assert(chars@.subrange(0, n as int) =~= password@);
    let length: u32 = if n > u32::MAX as usize {
        u32::MAX
    } else {
        n as u32
    };
    PatternAnalysis {
        has_uppercase: upper,
        has_lowercase: lower,
        has_numbers: numeric,
        has_symbols: symbol,
        length,
        repeated_chars: count_repeated_chars(password),
        sequential_chars: count_sequential_chars(password),
    }
}

} // verus!
