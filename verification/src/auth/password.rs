//! Password hashing with Argon2.

use crate::number::{digits_value, lemma_digits_value_grows};
use crate::text::{byte_len, chars_of, is_ascii_digit, utf8_len};
use argon2::password_hash::rand_core::OsRng;
use argon2::password_hash::{PasswordHash, PasswordHasher, PasswordVerifier, SaltString};
use argon2::Argon2;
use vstd::prelude::*;

verus! {

/// Whether Argon2 with its default parameters accepts `password` for the
/// stored hash `hash`: `hash` parses as a PHC string, and hashing `password`
/// with the salt and parameters it names gives the output it holds.
pub uninterp spec fn password_matches(password: Seq<char>, hash: Seq<char>) -> bool;

/// The longest password that Argon2 takes, in bytes.
pub open spec fn max_password_len() -> nat {
    0xFFFF_FFFF
}

/// Whether `password` is short enough to be hashed.
pub fn is_hashable(password: &str) -> (r: bool)
    ensures
        r == (utf8_len(password@) <= max_password_len()),
{
    byte_len(password) <= 0xFFFF_FFFF
}

/// Create a new password hash for storing into database.
///
/// Calls `SaltString::generate` and `Argon2::hash_password`. The salt is
/// random, so the hash differs from call to call; what holds of every
/// outcome is that the password is accepted for it, and that it names the
/// default parameters, of which the lanes are one (`p=1`, followed by salt
/// and output, which hold no `=`). Argon2 refuses a password of more than
/// `0xFFFF_FFFF` bytes.
#[verifier::external_body]
pub fn hash(password: &str) -> (hashed: String)
    requires
        utf8_len(password@) <= max_password_len(),
    ensures
        password_matches(password@, hashed@),
        params_in_range(hashed@),
{
    let salt = SaltString::generate(&mut OsRng);
    Argon2::default().hash_password(password.as_bytes(), &salt).expect("password hashing").to_string()
}

/// The position after the last `p=` among the first `n` characters of
/// `hash`, or `None` where they hold no `p=`.
pub open spec fn last_lanes_field(hash: Seq<char>, n: int) -> Option<int>
    decreases n,
{
    if n < 2 || n > hash.len() {
        None
    } else if hash[n - 2] == 'p' && hash[n - 1] == '=' {
        Some(n)
    } else {
        last_lanes_field(hash, n - 1)
    }
}

/// The first position at or after `from` that holds no decimal digit.
pub open spec fn digits_end(s: Seq<char>, from: int) -> int
    decreases s.len() - from,
{
    if 0 <= from < s.len() && is_ascii_digit(s[from]) {
        digits_end(s, from + 1)
    } else {
        from
    }
}

/// The number of lanes that a stored hash names: the decimal number written
/// after its last `p=`, the parameter that a PHC string gives the lanes of
/// Argon2. `None` where the hash holds no `p=`.
pub open spec fn lanes_named(hash: Seq<char>) -> Option<nat> {
    match last_lanes_field(hash, hash.len() as int) {
        Some(at) => Some(digits_value(hash.subrange(at, digits_end(hash, at)))),
        None => None,
    }
}

/// The most lanes that Argon2 works with.
pub open spec fn max_lanes() -> nat {
    0xFF_FFFF
}

/// Whether a stored hash can be handed to Argon2: it names no more lanes
/// than Argon2 works with. Argon2 refuses a hash that names more, and on
/// some of them it overflows in its own arithmetic before it refuses.
pub open spec fn params_in_range(hash: Seq<char>) -> bool {
    match lanes_named(hash) {
        Some(lanes) => lanes <= max_lanes(),
        None => true,
    }
}

/// A run of digits ends at or after its beginning, and within the sequence.
pub proof fn lemma_digits_end_bounds(s: Seq<char>, from: int)
    requires
        0 <= from <= s.len(),
    ensures
        from <= digits_end(s, from) <= s.len(),
    decreases s.len() - from,
{
    if from < s.len() && is_ascii_digit(s[from]) {
        lemma_digits_end_bounds(s, from + 1);
    }
}

/// Whether a stored hash can be handed to Argon2.
pub fn hash_is_checkable(hash: &str) -> (r: bool)
    ensures
        r == params_in_range(hash@),
{
    let chars = chars_of(hash);
    let mut at: usize = chars.len();
    while at >= 2 && !(chars[at - 2] == 'p' && chars[at - 1] == '=')
        invariant
            at <= chars.len(),
            last_lanes_field(chars@, chars.len() as int) == last_lanes_field(chars@, at as int),
        decreases at,
    {
        at -= 1;
    }
    if at < 2 {
        return true;
    }
    let mut i: usize = at;
    let mut lanes: u32 = 0;
    assert(chars@.subrange(at as int, at as int) == Seq::<char>::empty());
    while i < chars.len() && '0' <= chars[i] && chars[i] <= '9'
        invariant
            2 <= at <= i <= chars.len(),
            chars@ == hash@,
            last_lanes_field(chars@, chars.len() as int) == Some(at as int),
            digits_end(chars@, at as int) == digits_end(chars@, i as int),
            lanes == digits_value(chars@.subrange(at as int, i as int)),
            lanes <= max_lanes(),
        decreases chars.len() - i,
    {
        let digit: u32 = (chars[i] as u8 - '0' as u8) as u32;
        proof {
            let read = chars@.subrange(at as int, i as int + 1);
            assert(read.drop_last() == chars@.subrange(at as int, i as int));
            assert(read.last() == chars@[i as int]);
        }
        lanes = lanes * 10 + digit;
        if lanes > 0xFF_FFFF {
            proof {
                lemma_digits_end_bounds(chars@, i as int + 1);
                let end = digits_end(chars@, at as int);
                let whole = chars@.subrange(at as int, end);
                assert(whole.take(i + 1 - at) == chars@.subrange(at as int, i as int + 1));
                lemma_digits_value_grows(whole, i + 1 - at);
            }
            return false;
        }
        i += 1;
    }
    true
}

/// Check if password matches hashed password.
///
/// Calls `PasswordHash::new` and `Argon2::verify_password`; a hash that
/// does not parse matches no password. The answer depends on the two
/// strings alone and is named [`password_matches`]. The memory that the
/// computation takes is the amount that the hash names.
///
/// Argon2 multiplies the number of lanes by eight before it tests it
/// against its limit, in 32 bits; a hash that names more lanes than the
/// limit is therefore left out. In a hash that Argon2 goes on to compute
/// with, every `p=` is such a parameter and the last one counts, so the
/// last `p=` of the string is the one that decides.
#[verifier::external_body]
pub fn verify(password: &str, hash: &str) -> (ok: bool)
    requires
        params_in_range(hash@),
    ensures
        ok == password_matches(password@, hash@),
{
    match PasswordHash::new(hash) {
        Ok(parsed_hash) => Argon2::default().verify_password(password.as_bytes(), &parsed_hash).is_ok(),
        Err(_) => false,
    }
}

} // verus!
