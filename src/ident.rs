use vstd::prelude::*;

verus! {

/// Number of characters in a session identifier.
pub const SESSION_ID_LEN: usize = 21;

/// A character of the URL-safe alphabet that identifiers are drawn from.
pub open spec fn is_id_char(c: char) -> bool {
    ('0' <= c && c <= '9') || ('a' <= c && c <= 'z') || ('A' <= c && c <= 'Z') || c == '_' || c
        == '-'
}

/// A well-formed session identifier.
pub open spec fn is_session_id(s: Seq<char>) -> bool {
    s.len() == SESSION_ID_LEN && forall|i: int| 0 <= i < s.len() ==> is_id_char(#[trigger] s[i])
}

/// Relies on nanoid::format with nanoid's default random source and its
/// URL-safe alphabet: the result has exactly `size` characters, each taken
/// from that alphabet. The loop in `format` only ends once `size` characters
/// were pushed, so `size` must be positive; `8 * size` must not overflow.
#[verifier::external_body]
fn random_id(size: usize) -> (r: String)
    requires
        0 < size <= usize::MAX / 8,
    ensures
        r@.len() == size,
        forall|i: int| 0 <= i < r@.len() ==> is_id_char(#[trigger] r@[i]),
{
    nanoid::format(nanoid::rngs::default, &nanoid::alphabet::SAFE, size)
}

/// A fresh session identifier: random, so two calls may differ.
pub fn new_session_id() -> (r: String)
    ensures
        is_session_id(r@),
{
    random_id(SESSION_ID_LEN)
}

} // verus!
