//! The query of a URI: its parameters, and texts written so that they can be
//! the value of one.

use crate::text;
use vstd::prelude::*;
use vstd::string::*;
use vstd::utf8::*;

verus! {

/// Whether a byte stands for itself in a query: a letter, a digit, or one of
/// `-`, `.`, `_` and `~`.
pub open spec fn is_plain(b: u8) -> bool {
    ||| 0x30 <= b <= 0x39
    ||| 0x41 <= b <= 0x5a
    ||| 0x61 <= b <= 0x7a
    ||| b == 0x2d
    ||| b == 0x2e
    ||| b == 0x5f
    ||| b == 0x7e
}

/// The hexadecimal digit for a number below 16.
pub open spec fn hex_digit(n: u8) -> char {
    if n < 10 {
        (0x30 + n) as char
    } else {
        (0x37 + n) as char
    }
}

/// The number that a hexadecimal digit stands for.
pub open spec fn hex_value(c: char) -> Option<u8> {
    if '0' <= c && c <= '9' {
        Some((c as u32 - 0x30) as u8)
    } else if 'A' <= c && c <= 'F' {
        Some((c as u32 - 0x37) as u8)
    } else if 'a' <= c && c <= 'f' {
        Some((c as u32 - 0x57) as u8)
    } else {
        None
    }
}

/// How a byte is written in a query.
pub open spec fn encoded_byte(b: u8) -> Seq<char> {
    if is_plain(b) {
        seq![b as char]
    } else {
        seq!['%', hex_digit(b / 16), hex_digit(b % 16)]
    }
}

/// How bytes are written in a query.
pub open spec fn encoded_bytes(bytes: Seq<u8>) -> Seq<char>
    decreases bytes.len(),
{
    if bytes.len() == 0 {
        Seq::empty()
    } else {
        encoded_byte(bytes[0]) + encoded_bytes(bytes.drop_first())
    }
}

/// How a text is written in a query: each byte of it that does not stand for
/// itself becomes `%` and two hexadecimal digits.
pub open spec fn encoded(s: Seq<char>) -> Seq<char> {
    encoded_bytes(encode_utf8(s))
}

/// The bytes that stand in a query.
pub open spec fn decoded_bytes(s: Seq<char>) -> Option<Seq<u8>>
    decreases s.len(),
{
    if s.len() == 0 {
        Some(Seq::empty())
    } else if s[0] == '%' {
        if s.len() < 3 {
            None
        } else {
            match (hex_value(s[1]), hex_value(s[2]), decoded_bytes(s.skip(3))) {
                (Some(high), Some(low), Some(rest)) => Some(seq![(high * 16 + low) as u8] + rest),
                _ => None,
            }
        }
    } else if s[0] <= '\u{7f}' {
        match decoded_bytes(s.skip(1)) {
            Some(rest) => Some(seq![s[0] as u8] + rest),
            None => None,
        }
    } else {
        None
    }
}

/// The text that stands in a query.
pub open spec fn decoded(s: Seq<char>) -> Option<Seq<char>> {
    match decoded_bytes(s) {
        Some(bytes) => text::text_of(bytes),
        None => None,
    }
}

/// What stands between the `c` in a text, before the first and after the last
/// one.
pub open spec fn pieces(s: Seq<char>, c: char) -> Seq<Seq<char>>
    decreases s.len(),
{
    proof {
        text::lemma_split_at_first(s, c);
    }
    match text::before_first(s, c) {
        Some(head) => seq![head] + pieces(s.skip(head.len() as int + 1), c),
        None => seq![s],
    }
}

/// The name and the value of a parameter; each is `None` where it is no text.
pub open spec fn parameter(piece: Seq<char>) -> (Option<Seq<char>>, Option<Seq<char>>) {
    match text::before_first(piece, '=') {
        Some(name) => (decoded(name), decoded(piece.skip(name.len() as int + 1))),
        None => (decoded(piece), Some(Seq::empty())),
    }
}

/// A URI without its fragment.
pub open spec fn without_fragment(uri: Seq<char>) -> Seq<char> {
    match text::before_first(uri, '#') {
        Some(head) => head,
        None => uri,
    }
}

/// The parameters in the query of a URI, in order.
pub open spec fn parameters(uri: Seq<char>) -> Seq<(Option<Seq<char>>, Option<Seq<char>>)> {
    let all = without_fragment(uri);
    match text::before_first(all, '?') {
        Some(head) => pieces(all.skip(head.len() as int + 1), '&').map_values(
            |piece: Seq<char>| parameter(piece),
        ),
        None => Seq::empty(),
    }
}

/// The bytes of a text that is ASCII.
spec fn ascii(s: Seq<char>) -> Seq<u8> {
    Seq::new(s.len(), |i: int| s[i] as u8)
}

/// Whether a character may occur in a text that was written for a query.
pub open spec fn is_query_char(c: char) -> bool {
    ||| '0' <= c && c <= '9'
    ||| 'A' <= c && c <= 'Z'
    ||| 'a' <= c && c <= 'z'
    ||| c == '-' || c == '.' || c == '_' || c == '~' || c == '%'
}

/// What is written for bytes holds nothing but plain characters and `%`.
proof fn lemma_encoded_bytes_are_plain(bytes: Seq<u8>)
    ensures
        forall|i: int|
            0 <= i < encoded_bytes(bytes).len() ==> is_query_char(
                #[trigger] encoded_bytes(bytes)[i],
            ),
    decreases bytes.len(),
{
    if bytes.len() > 0 {
        let first = encoded_byte(bytes[0]);
        let rest = encoded_bytes(bytes.drop_first());
        lemma_encoded_bytes_are_plain(bytes.drop_first());
        assert(forall|i: int| 0 <= i < first.len() ==> is_query_char(#[trigger] first[i]));
        assert forall|i: int| 0 <= i < (first + rest).len() implies is_query_char(
            #[trigger] (first + rest)[i],
        ) by {
            if i >= first.len() {
                assert((first + rest)[i] == rest[i - first.len()]);
            }
        }
    }
}

/// Reading what was written for bytes gives the bytes back.
proof fn lemma_decoded_encoded_bytes(bytes: Seq<u8>)
    ensures
        decoded_bytes(encoded_bytes(bytes)) == Some(bytes),
    decreases bytes.len(),
{
    if bytes.len() > 0 {
        let b = bytes[0];
        let s = encoded_bytes(bytes);
        let rest = encoded_bytes(bytes.drop_first());
        lemma_decoded_encoded_bytes(bytes.drop_first());
        if is_plain(b) {
            assert(s.skip(1) =~= rest);
            assert(s[0] as u8 == b);
        } else {
            assert(s.skip(3) =~= rest);
            assert(hex_value(hex_digit(b / 16)) == Some((b / 16) as u8));
            assert(hex_value(hex_digit(b % 16)) == Some((b % 16) as u8));
        }
        assert(seq![b] + bytes.drop_first() =~= bytes);
    } else {
        assert(bytes =~= Seq::empty());
    }
}

/// Writes `s` for a query.
pub fn encode(s: &str) -> (r: String)
    ensures
        r@ == encoded(s@),
{
    let bytes: &[u8] = s.as_bytes();
    let mut out: Vec<u8> = Vec::new();
    let mut i: usize = 0;
    assert(bytes@.skip(0) =~= bytes@);
    while i < bytes.len()
        invariant
            i <= bytes@.len(),
            out@ + ascii(encoded_bytes(bytes@.skip(i as int))) =~= ascii(encoded_bytes(bytes@)),
        decreases bytes@.len() - i,
    {
        let b: u8 = bytes[i];
        let ghost before = out@;
        proof {
            let left = bytes@.skip(i as int);
            assert(left[0] == b);
            assert(left.drop_first() =~= bytes@.skip(i + 1));
            assert(ascii(encoded_bytes(left)) =~= ascii(encoded_byte(b)) + ascii(
                encoded_bytes(left.drop_first()),
            ));
        }
        if plain(b) {
            out.push(b);
        } else {
            out.push(0x25);
            out.push(hex(b / 16));
            out.push(hex(b % 16));
        }
        assert(out@ =~= before + ascii(encoded_byte(b)));
        i = i + 1;
    }
    proof {
        assert(bytes@.skip(i as int) =~= Seq::empty());
        lemma_encoded_bytes_are_plain(bytes@);
        let all = encoded(s@);
        assert(is_ascii_chars(all)) by {
            assert forall|k: int| 0 <= k < all.len() implies '\0' <= #[trigger] all[k]
                <= '\u{7f}' by {
                assert(is_query_char(all[k]));
            }
        }
        is_ascii_chars_encode_utf8(all);
        assert(out@ =~= encode_utf8(all));
        text::lemma_text_of_encoded(all);
    }
    match text::decode(out.as_slice()) {
        Some(r) => r.to_owned(),
        None => String::new(),
    }
}

/// Whether a byte stands for itself in a query.
fn plain(b: u8) -> (r: bool)
    ensures
        r == is_plain(b),
{
    (0x30 <= b && b <= 0x39) || (0x41 <= b && b <= 0x5a) || (0x61 <= b && b <= 0x7a) || b == 0x2d
        || b == 0x2e || b == 0x5f || b == 0x7e
}

/// The hexadecimal digit for a number below 16.
fn hex(n: u8) -> (r: u8)
    requires
        n < 16,
    ensures
        r == hex_digit(n) as u8,
{
    if n < 10 {
        0x30 + n
    } else {
        0x37 + n
    }
}

/// Reading what was written gives the text back, whatever characters it holds.
pub proof fn law_decoding_undoes_encoding(s: Seq<char>)
    ensures
        decoded(encoded(s)) == Some(s),
{
    lemma_decoded_encoded_bytes(encode_utf8(s));
    text::lemma_text_of_encoded(s);
}

/// What is written for a query holds letters, digits, `-`, `.`, `_`, `~` and `%`
/// only: nothing that has a meaning in a URI, and no `+`, which some read as a
/// space. A text of characters that stand for themselves is written as it is.
pub proof fn law_encoded_is_plain(s: Seq<char>)
    ensures
        forall|i: int| 0 <= i < encoded(s).len() ==> is_query_char(#[trigger] encoded(s)[i]),
        (forall|i: int| 0 <= i < s.len() ==> s[i] != '%' && is_query_char(#[trigger] s[i]))
            ==> encoded(s) == s,
{
    lemma_encoded_bytes_are_plain(encode_utf8(s));
    if forall|i: int| 0 <= i < s.len() ==> s[i] != '%' && is_query_char(#[trigger] s[i]) {
        assert(is_ascii_chars(s)) by {
            assert forall|i: int| 0 <= i < s.len() implies '\0' <= #[trigger] s[i]
                <= '\u{7f}' by {
                assert(is_query_char(s[i]));
            }
        }
        is_ascii_chars_encode_utf8(s);
        assert(encode_utf8(s) =~= ascii(s));
        lemma_plain_is_kept(s);
    }
}

/// Characters that stand for themselves are written as they are.
proof fn lemma_plain_is_kept(s: Seq<char>)
    requires
        forall|i: int| 0 <= i < s.len() ==> s[i] != '%' && is_query_char(#[trigger] s[i]),
    ensures
        encoded_bytes(ascii(s)) == s,
    decreases s.len(),
{
    if s.len() > 0 {
        let rest = s.drop_first();
        assert forall|i: int| 0 <= i < rest.len() implies rest[i] != '%' && is_query_char(
            #[trigger] rest[i],
        ) by {
            assert(rest[i] == s[i + 1]);
        }
        lemma_plain_is_kept(rest);
        assert(ascii(s).drop_first() =~= ascii(rest));
        assert(is_query_char(s[0]));
        assert(ascii(s)[0] as char == s[0]);
        assert(encoded_bytes(ascii(s)) =~= seq![s[0]] + rest);
        assert(seq![s[0]] + rest =~= s);
    } else {
        assert(encoded_bytes(ascii(s)) =~= s);
    }
}

/// The pieces of two texts with `c` between them are the pieces of both.
pub proof fn lemma_pieces_joined(a: Seq<char>, c: char, b: Seq<char>)
    ensures
        pieces(a + seq![c] + b, c) == pieces(a, c) + pieces(b, c),
    decreases a.len(),
{
    let s = a + seq![c] + b;
    text::lemma_split_at_first(a, c);
    match text::before_first(a, c) {
        Some(head) => {
            let rest = a.skip(head.len() as int + 1);
            lemma_pieces_joined(rest, c, b);
            assert(s =~= head + seq![c] + (rest + seq![c] + b));
            text::lemma_before_first(head, c, rest + seq![c] + b);
            assert(s.skip(head.len() as int + 1) =~= rest + seq![c] + b);
            assert(seq![head] + (pieces(rest, c) + pieces(b, c)) =~= (seq![head] + pieces(rest, c))
                + pieces(b, c));
        },
        None => {
            text::lemma_before_first(a, c, b);
            assert(s.skip(a.len() as int + 1) =~= b);
        },
    }
}

/// A byte that does not stand for itself is written as `%` and its two
/// hexadecimal digits, the higher one first; bytes are written one by one.
pub proof fn law_escapes_are_hexadecimal(b: u8, before: Seq<u8>, after: Seq<u8>)
    ensures
        !is_plain(b) ==> encoded_bytes(seq![b]) == seq![
            '%',
            "0123456789ABCDEF"@[b as int / 16],
            "0123456789ABCDEF"@[b as int % 16],
        ],
        is_plain(b) <==> "-._~0123456789ABCDEFGHIJKLMNOPQRSTUVWXYZabcdefghijklmnopqrstuvwxyz"@.contains(
            b as char,
        ),
        encoded_bytes(before + after) == encoded_bytes(before) + encoded_bytes(after),
{
    reveal_strlit("0123456789ABCDEF");
    reveal_strlit("-._~0123456789ABCDEFGHIJKLMNOPQRSTUVWXYZabcdefghijklmnopqrstuvwxyz");
    let digits = "0123456789ABCDEF"@;
    let all = "-._~0123456789ABCDEFGHIJKLMNOPQRSTUVWXYZabcdefghijklmnopqrstuvwxyz"@;
    assert(forall|n: u8| n < 16 ==> hex_digit(n) == #[trigger] digits[n as int]);
    assert(digits[(b / 16) as int] == hex_digit(b / 16));
    assert(digits[(b % 16) as int] == hex_digit(b % 16));
    assert(seq![b].drop_first() =~= Seq::empty());
    assert(encoded_bytes(seq![b]) =~= encoded_byte(b)) by {
        assert(encoded_bytes(Seq::<u8>::empty()) =~= Seq::empty());
    }
    assert(forall|k: int| 4 <= k < 14 ==> #[trigger] all[k] as int == 48 + k - 4);
    assert(forall|k: int| 14 <= k < 40 ==> #[trigger] all[k] as int == 65 + k - 14);
    assert(forall|k: int| 40 <= k < 66 ==> #[trigger] all[k] as int == 97 + k - 40);
    if is_plain(b) {
        let k = if b == 0x2d {
            0
        } else if b == 0x2e {
            1
        } else if b == 0x5f {
            2
        } else if b == 0x7e {
            3
        } else if b <= 0x39 {
            b - 48 + 4
        } else if b <= 0x5a {
            b - 65 + 14
        } else {
            b - 97 + 40
        };
        assert(all[k] == b as char);
    }
    if all.contains(b as char) {
        let k = choose|k: int| 0 <= k < all.len() && all[k] == b as char;
        assert(all[k] as int == b as int);
    }
    lemma_encoded_bytes_joined(before, after);
}

/// What is written for bytes is written for the first and for the rest of them.
proof fn lemma_encoded_bytes_joined(before: Seq<u8>, after: Seq<u8>)
    ensures
        encoded_bytes(before + after) == encoded_bytes(before) + encoded_bytes(after),
    decreases before.len(),
{
    let both = before + after;
    if before.len() == 0 {
        assert(both =~= after);
        assert(encoded_bytes(before) + encoded_bytes(after) =~= encoded_bytes(after));
    } else {
        assert(both.drop_first() =~= before.drop_first() + after);
        lemma_encoded_bytes_joined(before.drop_first(), after);
        assert(encoded_bytes(both) =~= encoded_bytes(before) + encoded_bytes(after));
    }
}

} // verus!
