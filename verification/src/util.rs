//! Random tokens and names.

use crate::proto;
use vstd::prelude::*;
use vstd::utf8::*;

verus! {

/// A lower case hexadecimal digit.
pub open spec fn is_hex_digit(c: char) -> bool {
    ('0' <= c && c <= '9') || ('a' <= c && c <= 'f')
}

/// The text of a random (version 4) UUID: lower case hexadecimal digits in
/// groups of 8, 4, 4, 4 and 12 with hyphens between, the version and the variant
/// at their places.
pub open spec fn is_uuid_text(s: Seq<char>) -> bool {
    &&& s.len() == 36
    &&& forall|i: int|
        0 <= i < 36 ==> if i == 8 || i == 13 || i == 18 || i == 23 {
            #[trigger] s[i] == '-'
        } else {
            is_hex_digit(s[i])
        }
    &&& s[14] == '4'
    &&& s[19] == '8' || s[19] == '9' || s[19] == 'a' || s[19] == 'b'
}

/// A fresh random token.
///
/// Calls `uuid::Uuid::new_v4` and `to_string` on what it gives: the text of a
/// random UUID. Which one is left to chance. The call panics where the system
/// has no source of randomness.
#[verifier::external_body]
pub fn random_token() -> (r: String)
    ensures
        is_uuid_text(r@),
{
    uuid::Uuid::new_v4().to_string()
}

/// A fresh random subdomain.
pub fn random_subdomain() -> (r: String)
    ensures
        is_uuid_text(r@),
{
    random_token()
}

/// Every random token fits the field that packets have for tokens and
/// connection ids, and as a subdomain it is a single label: there is no dot in
/// it.
pub proof fn law_random_token_is_id_and_label(s: Seq<char>)
    requires
        is_uuid_text(s),
    ensures
        proto::is_id(s),
        !s.contains('.'),
{
    assert(is_ascii_chars(s)) by {
        assert forall|i: int| 0 <= i < s.len() implies '\0' <= #[trigger] s[i] <= '\u{7f}' by {}
    }
    is_ascii_chars_encode_utf8(s);
    if s.contains('.') {
        let i = choose|i: int| 0 <= i < s.len() && s[i] == '.';
        assert(s[i] == '.');
    }
}

/// There are random tokens at all.
pub proof fn lemma_some_uuid_text() -> (s: Seq<char>)
    ensures
        is_uuid_text(s),
{
    let s = Seq::new(
        36,
        |i: int|
            if i == 8 || i == 13 || i == 18 || i == 23 {
                '-'
            } else if i == 14 {
                '4'
            } else {
                '8'
            },
    );
    s
}

} // verus!
