//! Generation of one-time start tokens.

use vstd::prelude::*;

use rand::Rng;

verus! {

/// Whether a character is an ASCII letter or digit.
pub open spec fn is_alphanumeric_char(c: char) -> bool {
    ('a' <= c && c <= 'z') || ('A' <= c && c <= 'Z') || ('0' <= c && c <= '9')
}

/// Whether every character of a sequence is an ASCII letter or digit.
pub open spec fn is_alphanumeric_seq(s: Seq<char>) -> bool {
    forall|i: int| 0 <= i < s.len() ==> is_alphanumeric_char(#[trigger] s[i])
}

/// The length of every start token the generator issues.
pub open spec fn start_token_len() -> int {
    32
}

/// Draws a fresh random start token.
///
/// Relies on rand's `thread_rng` sampled through the `Alphanumeric`
/// distribution, which yields only the bytes `A`-`Z`, `a`-`z` and `0`-`9`;
/// `take(32)` fixes the length. The token is random: nothing beyond its
/// shape is promised, and distinct calls may (with negligible probability)
/// collide.
#[verifier::external_body]
pub fn random_start_token() -> (r: String)
    ensures
        r@.len() == start_token_len(),
        is_alphanumeric_seq(r@),
{
    rand::thread_rng()
        .sample_iter(&rand::distributions::Alphanumeric)
        .take(32)
        .map(char::from)
        .collect()
}

} // verus!
