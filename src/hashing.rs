//! Argon2 password hashing and verification, and the SHA-1 digest used as a
//! breach-list lookup key.
use vstd::prelude::*;

use argon2::{PasswordHasher, PasswordVerifier};
use sha1::Digest;

verus! {

/// The PHC string that Argon2 with its default parameters produces for a
/// password and a B64-encoded salt; `None` where hashing fails.
pub uninterp spec fn argon2_phc(password: Seq<char>, salt: Seq<char>) -> Option<Seq<char>>;

/// Whether `hash` parses as a PHC string and Argon2 accepts `password` for it.
pub uninterp spec fn argon2_accepts(password: Seq<char>, hash: Seq<char>) -> bool;

/// The SHA-1 digest of the UTF-8 encoding of a text.
pub uninterp spec fn sha1_of(text: Seq<char>) -> Seq<u8>;

#[verifier::external_type_specification]
#[verifier::external_body]
pub struct ExPasswordHashError(argon2::password_hash::Error);

/// A character of the standard Base64 alphabet.
pub open spec fn b64_char(c: char) -> bool {
    ('A' <= c && c <= 'Z') || ('a' <= c && c <= 'z') || ('0' <= c && c <= '9') || c == '+' || c
        == '/'
}

/// The canonical unpadded Base64 form of 16 bytes: 22 characters, the last
/// of which carries no spare bits.
pub open spec fn generated_salt(s: Seq<char>) -> bool {
    &&& s.len() == 22
    &&& forall|i: int| 0 <= i < 22 ==> b64_char(#[trigger] s[i])
    &&& s[21] == 'A' || s[21] == 'Q' || s[21] == 'g' || s[21] == 'w'
}

/// Passwords of at most this many characters have a UTF-8 form of at most
/// `u32::MAX` bytes, which Argon2 accepts.
pub const MAX_HASHED_CHARS: usize = 0x3FFF_FFFF;

/// Relies on `SaltString::generate` with the operating system's random
/// source: 16 fresh random bytes, B64-encoded, on each call.
#[verifier::external_body]
fn random_salt() -> (r: String)
    ensures
        generated_salt(r@),
{
    argon2::password_hash::SaltString::generate(&mut argon2::password_hash::rand_core::OsRng)
        .as_str()
        .to_owned()
}

/// Relies on `SaltString::from_b64` and `PasswordHasher::hash_password` of
/// `Argon2::default()`: a deterministic function of password and salt. It
/// fails only on a salt that does not decode to 8 to 64 bytes or a password
/// over `u32::MAX` bytes. The PHC string starts with `$`, and
/// `verify_password` accepts the password for it, as it hashes again with
/// the stored salt and parameters.
#[verifier::external_body]
fn argon2_hash(password: &str, salt: &str) -> (r: Result<String, argon2::password_hash::Error>)
    ensures
        r is Ok <==> argon2_phc(password@, salt@) is Some,
        r is Ok ==> r->Ok_0@ == argon2_phc(password@, salt@)->0,
        generated_salt(salt@) && password@.len() <= MAX_HASHED_CHARS ==> r is Ok,
        r is Ok ==> r->Ok_0@.len() > 0 && r->Ok_0@[0] == '$',
        r is Ok ==> argon2_accepts(password@, r->Ok_0@),
{
    let salt = argon2::password_hash::SaltString::from_b64(salt)?;
    argon2::Argon2::default().hash_password(password.as_bytes(), &salt).map(|h| h.to_string())
}

/// Relies on `PasswordHash::new` and `PasswordVerifier::verify_password` of
/// `Argon2::default()`. `PasswordHash::new` refuses a string that is empty or
/// does not start with `$`.
#[verifier::external_body]
fn argon2_verify(password: &str, hash: &str) -> (r: bool)
    ensures
        r == argon2_accepts(password@, hash@),
        hash@.len() == 0 || hash@[0] != '$' ==> !r,
{
    match argon2::PasswordHash::new(hash) {
        Ok(parsed) => argon2::Argon2::default().verify_password(password.as_bytes(), &parsed).is_ok(),
        Err(_) => false,
    }
}

/// Relies on `sha1::Sha1::digest` over the password's UTF-8 bytes: 20 bytes.
#[verifier::external_body]
fn sha1_digest(text: &str) -> (r: Vec<u8>)
    ensures
        r@ == sha1_of(text@),
        r@.len() == 20,
{
    sha1::Sha1::digest(text.as_bytes()).to_vec()
}

/// Upper-case hexadecimal digits, by value.
pub open spec fn hex_digits() -> Seq<char> {
    "0123456789ABCDEF"@
}

/// Two upper-case hexadecimal digits per byte, high half first.
pub open spec fn upper_hex(b: Seq<u8>) -> Seq<char>
    decreases b.len(),
{
    if b.len() == 0 {
        Seq::empty()
    } else {
        let last = b.last();
        upper_hex(b.drop_last()) + seq![
            hex_digits()[(last / 16) as int],
            hex_digits()[(last % 16) as int],
        ]
    }
}

/// Relies on `hex::encode_upper`: two upper-case digits per byte, high half first.
#[verifier::external_body]
fn hex_encode_upper(bytes: &[u8]) -> (r: String)
    ensures
        r@ == upper_hex(bytes@),
{
    hex::encode_upper(bytes)
}

/// The failure of the Argon2 hasher.
#[derive(Clone, Copy, Debug, PartialEq, Eq)]
pub enum HashingError {
    HashFailed,
}

/// Hashes a password with Argon2 under a given B64-encoded salt.
pub fn hash_password_with_salt(password: &str, salt: &str) -> (r: Result<String, HashingError>)
    ensures
        match argon2_phc(password@, salt@) {
            Some(h) => r is Ok && r->Ok_0@ == h,
            None => r == Err::<String, HashingError>(HashingError::HashFailed),
        },
        generated_salt(salt@) && password@.len() <= MAX_HASHED_CHARS ==> r is Ok,
        r is Ok ==> r->Ok_0@.len() > 0 && r->Ok_0@[0] == '$',
        r is Ok ==> argon2_accepts(password@, r->Ok_0@),
{
    match argon2_hash(password, salt) {
        Ok(h) => Ok(h),
        Err(_) => Err(HashingError::HashFailed),
    }
}

/// A PHC string that Argon2 made for `password` under a generated salt, and
/// that verifies against it.
pub open spec fn fresh_hash_of(password: Seq<char>, h: Seq<char>) -> bool {
    &&& exists|salt: Seq<char>| generated_salt(salt) && argon2_phc(password, salt) == Some(h)
    &&& h.len() > 0 && h[0] == '$'
    &&& argon2_accepts(password, h)
}

/// Hashes a password with Argon2 under a fresh random salt. It succeeds for
/// every password whose UTF-8 form Argon2 takes, and the hash verifies.
pub fn hash_password(password: String) -> (r: Result<String, HashingError>)
    ensures
        password@.len() <= MAX_HASHED_CHARS ==> r is Ok,
        r is Ok ==> fresh_hash_of(password@, r->Ok_0@),
        r is Err ==> exists|salt: Seq<char>|
            generated_salt(salt) && argon2_phc(password@, salt) is None,
{
    let salt = random_salt();
    hash_password_with_salt(password.as_str(), salt.as_str())
}

/// A password verifies against every hash that `hash_password` returns for
/// it: `verify_password_hash` answers `argon2_accepts`.
pub proof fn lemma_round_trip(password: Seq<char>, h: Seq<char>)
    requires
        fresh_hash_of(password, h),
    ensures
        argon2_accepts(password, h),
        h.len() > 0 && h[0] == '$',
{
}

/// Whether `password` matches the stored PHC string `hash`; a string that
/// does not parse gives `false`.
pub fn verify_password_hash(password: String, hash: String) -> (r: bool)
    ensures
        r == argon2_accepts(password@, hash@),
        hash@.len() == 0 || hash@[0] != '$' ==> !r,
{
    argon2_verify(password.as_str(), hash.as_str())
}

/// Upper-case hexadecimal of a digest.
pub fn encode_digest(digest: &Vec<u8>) -> (r: String)
    ensures
        r@ == upper_hex(digest@),
{
    hex_encode_upper(digest.as_slice())
}

/// The SHA-1 digest of the password's UTF-8 bytes in upper-case hexadecimal,
/// as breach-list lookups use it.
pub fn hash_password_sha1(password: String) -> (r: String)
    ensures
        r@ == upper_hex(sha1_of(password@)),
        r@.len() == 40,
{
    let digest = sha1_digest(password.as_str());
    let r = encode_digest(&digest);
    proof {
        lemma_upper_hex_len(digest@);
    }
    r
}

/// Two digits per byte.
pub proof fn lemma_upper_hex_len(b: Seq<u8>)
    ensures
        upper_hex(b).len() == 2 * b.len(),
    decreases b.len(),
{
    if b.len() > 0 {
        lemma_upper_hex_len(b.drop_last());
    }
}

/// What stands in a batch result for a password whose hashing failed.
pub const ERROR_SENTINEL: &'static str = "ERROR";

/// `out` is a fresh hash of `password`; only a password too long for Argon2
/// may have the sentinel instead.
pub open spec fn hashed_or_sentinel(password: Seq<char>, out: Seq<char>) -> bool {
    if password.len() <= MAX_HASHED_CHARS {
        fresh_hash_of(password, out) && out != ERROR_SENTINEL@
    } else {
        out == ERROR_SENTINEL@ || fresh_hash_of(password, out)
    }
}

/// Hashes a password, with the sentinel in place of a failure.
pub fn hash_or_sentinel(password: &String) -> (r: String)
    ensures
        hashed_or_sentinel(password@, r@),
{
    match hash_password(password.clone()) {
        Ok(h) => {
            proof {
                reveal_strlit("ERROR");
                assert(ERROR_SENTINEL@[0] == 'E');
            }
            h
        },
        Err(_) => ERROR_SENTINEL.to_owned(),
    }
}

/// The passwords that a batch result holds entries for, in order.
pub open spec fn entry_keys(out: Seq<(String, String)>) -> Seq<Seq<char>> {
    out.map_values(|e: (String, String)| e.0@)
}

/// `out` holds one entry for each distinct password of `inputs` and no
/// other, each with a hash of its password (or the sentinel, see
/// `hashed_or_sentinel`).
pub open spec fn batch_result(inputs: Seq<Seq<char>>, out: Seq<(String, String)>) -> bool {
    &&& entry_keys(out).no_duplicates()
    &&& forall|k: Seq<char>| entry_keys(out).contains(k) <==> inputs.contains(k)
    &&& forall|i: int| 0 <= i < out.len() ==> hashed_or_sentinel(#[trigger] out[i].0@, out[i].1@)
}

/// The distinct passwords of a batch, each once, in order of first appearance.
pub fn distinct_passwords(passwords: &Vec<String>) -> (r: Vec<String>)
    ensures
        r.deep_view().no_duplicates(),
        forall|k: Seq<char>| r.deep_view().contains(k) <==> passwords.deep_view().contains(k),
{
    let mut out: Vec<String> = Vec::new();
    let n = passwords.len();
    let mut i: usize = 0;
    while i < n
        invariant
            n == passwords.len(),
            0 <= i <= n,
            out.deep_view().no_duplicates(),
            forall|k: Seq<char>|
                out.deep_view().contains(k) <==> passwords.deep_view().take(i as int).contains(k),
        decreases n - i,
    {
        let ghost inputs = passwords.deep_view().take(i as int);
        let ghost next = passwords.deep_view().take(i + 1);
        assert(next =~= inputs.push(passwords[i as int]@));
        let mut seen = false;
        let mut k: usize = 0;
        while k < out.len()
            invariant
                n == passwords.len(),
                0 <= i < n,
                0 <= k <= out.len(),
                seen ==> out.deep_view().contains(passwords[i as int]@),
                !seen ==> forall|j: int| 0 <= j < k ==> out@[j]@ != passwords[i as int]@,
            decreases out.len() - k,
        {
            if out[k] == passwords[i] {
                assert(out.deep_view()[k as int] == passwords[i as int]@);
                seen = true;
            }
            k = k + 1;
        }
        if !seen {
            let ghost old_out = out.deep_view();
            out.push(passwords[i].clone());
            assert(out.deep_view() =~= old_out.push(passwords[i as int]@));
            assert forall|k: Seq<char>| out.deep_view().contains(k) <==> next.contains(k) by {
                if out.deep_view().contains(k) {
                    let j = choose|j: int| 0 <= j < out@.len() && out.deep_view()[j] == k;
                    if j < old_out.len() {
                        assert(old_out[j] == k);
                        assert(old_out.contains(k));
                        assert(inputs.contains(k));
                        let m = choose|m: int| 0 <= m < inputs.len() && inputs[m] == k;
                        assert(next[m] == k);
                    } else {
                        assert(next[i as int] == k);
                    }
                }
                if next.contains(k) {
                    let m = choose|m: int| 0 <= m < next.len() && next[m] == k;
                    if m < i {
                        assert(inputs[m] == k);
                        assert(inputs.contains(k));
                        assert(old_out.contains(k));
                        let j = choose|j: int| 0 <= j < old_out.len() && old_out[j] == k;
                        assert(out.deep_view()[j] == k);
                    } else {
                        assert(out.deep_view()[old_out.len() as int] == k);
                    }
                }
            }
            assert(!old_out.contains(passwords[i as int]@));
        } else {
            assert forall|k: Seq<char>| out.deep_view().contains(k) <==> next.contains(k) by {
                if next.contains(k) {
                    let m = choose|m: int| 0 <= m < next.len() && next[m] == k;
                    if m < i {
                        assert(inputs[m] == k);
                    }
                }
                if inputs.contains(k) {
                    let m = choose|m: int| 0 <= m < inputs.len() && inputs[m] == k;
                    assert(next[m] == k);
                }
            }
        }
        i = i + 1;
    }
    assert(passwords.deep_view().take(n as int) =~= passwords.deep_view());
    out
}

/// Hashes each distinct password once; equal passwords share one entry.
pub fn batch_hash_passwords(passwords: Vec<String>) -> (r: Vec<(String, String)>)
    ensures
        batch_result(passwords.deep_view(), r@),
{
    let distinct = distinct_passwords(&passwords);
    let mut out: Vec<(String, String)> = Vec::new();
    let n = distinct.len();
    let mut i: usize = 0;
    while i < n
        invariant
            n == distinct.len(),
            0 <= i <= n,
            entry_keys(out@) == distinct.deep_view().take(i as int),
            forall|j: int| 0 <= j < out.len() ==> hashed_or_sentinel(#[trigger] out[j].0@, out[j].1@),
        decreases n - i,
    {
        let ghost old_out = out@;
        let h = hash_or_sentinel(&distinct[i]);
        out.push((distinct[i].clone(), h));
        assert(entry_keys(out@) =~= entry_keys(old_out).push(distinct[i as int]@));
        assert(distinct.deep_view().take(i + 1) =~= distinct.deep_view().take(i as int).push(
            distinct[i as int]@,
        ));
        i = i + 1;
    }
    assert(distinct.deep_view().take(n as int) =~= distinct.deep_view());
    out
}

/// A batch of one password given twice has exactly one entry, for it.
pub proof fn lemma_duplicates_collapse(p: Seq<char>, out: Seq<(String, String)>)
    requires
        batch_result(seq![p, p], out),
    ensures
        out.len() == 1,
        out[0].0@ == p,
{
    let keys = entry_keys(out);
    let inputs = seq![p, p];
    assert(inputs[0] == p && inputs[1] == p);
    assert(inputs.contains(p));
    assert(keys.contains(p));
    assert forall|j: int| 0 <= j < keys.len() implies keys[j] == p by {
        assert(keys.contains(keys[j]));
        assert(inputs.contains(keys[j]));
    }
    if keys.len() >= 2 {
        assert(keys[0] == keys[1]);
    }
}

} // verus!
