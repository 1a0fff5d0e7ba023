use vstd::prelude::*;

verus! {

use crate::text::ascii_to_string;

/// Relies on rand::random: one byte drawn from the thread-local generator.
/// Nothing is promised of its value.
#[verifier::external_body]
fn random_byte() -> u8 {
    rand::random::<u8>()
}

/// A lower-case ASCII letter.
pub open spec fn is_lower_alpha(c: char) -> bool {
    'a' <= c && c <= 'z'
}

/// A character identifiers and tokens are drawn from.
pub open spec fn is_id_char(c: char) -> bool {
    ('a' <= c && c <= 'z') || ('A' <= c && c <= 'Z') || ('0' <= c && c <= '9')
}

/// Draws a random index below `n`, combining four random bytes so the
/// remainder bias is negligible.
fn random_index(n: u32) -> (r: u32)
    requires
        n > 0,
    ensures
        r < n,
{
    let b0 = random_byte() as u32;
    let b1 = random_byte() as u32;
    let b2 = random_byte() as u32;
    let b3 = random_byte() as u32;
    let x: u32 = b0 + 256 * b1 + 65536 * b2 + 16777216 * b3;
    x % n
}

/// The identifier alphabet, indexed: lower-case letters first, then
/// upper-case letters, then digits.
fn id_byte(i: u32) -> (r: u8)
    requires
        i < 62,
    ensures
        r < 128,
        is_id_char(r as char),
{
    if i < 26 {
        97 + i as u8
    } else if i < 52 {
        65 + (i - 26) as u8
    } else {
        48 + (i - 52) as u8
    }
}

/// A fresh random string over the identifier alphabet.
fn random_id_string(len: usize) -> (r: String)
    ensures
        r@.len() == len,
        forall|i: int| 0 <= i < r@.len() ==> is_id_char(#[trigger] r@[i]),
{
    let mut bytes: Vec<u8> = Vec::new();
    let mut k: usize = 0;
    while k < len
        invariant
            k <= len,
            bytes@.len() == k,
            forall|i: int| 0 <= i < bytes@.len() ==> bytes@[i] < 128,
            forall|i: int| 0 <= i < bytes@.len() ==> is_id_char(#[trigger] bytes@[i] as char),
        decreases len - k,
    {
        let b = id_byte(random_index(62));
        bytes.push(b);
        k = k + 1;
    }
    ascii_to_string(bytes)
}

/// A fresh session identifier: five random lower-case letters.
pub fn session_id() -> (r: String)
    ensures
        r@.len() == 5,
        forall|i: int| 0 <= i < r@.len() ==> is_lower_alpha(#[trigger] r@[i]),
{
    let mut bytes: Vec<u8> = Vec::new();
    let mut k: usize = 0;
    while k < 5
        invariant
            k <= 5,
            bytes@.len() == k,
            forall|i: int| 0 <= i < bytes@.len() ==> bytes@[i] < 128,
            forall|i: int| 0 <= i < bytes@.len() ==> is_lower_alpha(#[trigger] bytes@[i] as char),
        decreases 5 - k,
    {
        let b = 97 + random_index(26) as u8;
        bytes.push(b);
        k = k + 1;
    }
    ascii_to_string(bytes)
}

/// A fresh user identifier: fifteen random characters of the identifier
/// alphabet.
pub fn user_id() -> (r: String)
    ensures
        r@.len() == 15,
        forall|i: int| 0 <= i < r@.len() ==> is_id_char(#[trigger] r@[i]),
{
    random_id_string(15)
}

/// A fresh secret token: twenty-five random characters of the identifier
/// alphabet.
pub fn authtoken() -> (r: String)
    ensures
        r@.len() == 25,
        forall|i: int| 0 <= i < r@.len() ==> is_id_char(#[trigger] r@[i]),
{
    random_id_string(25)
}

} // verus!
