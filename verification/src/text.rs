//! Text: what the rest of the crate does with characters, stated over the
//! sequences of characters that strings hold.

use vstd::hash_set::StringHashSet;
use vstd::prelude::*;
use vstd::string::*;
use vstd::utf8::*;

verus! {

/// The error of [`core::str::from_utf8`]; nothing here looks inside it.
#[verifier::external_type_specification]
#[verifier::external_body]
pub struct ExUtf8Error(core::str::Utf8Error);

/// `core::str::from_utf8` gives the text whose UTF-8 encoding the bytes are,
/// and fails exactly on bytes that are not valid UTF-8.
pub assume_specification[ core::str::from_utf8 ](v: &[u8]) -> (r: Result<
    &str,
    core::str::Utf8Error,
>)
    ensures
        r is Ok <==> valid_utf8(v@),
        r matches Ok(s) ==> encode_utf8(s@) == v@,
;

/// `str::to_ascii_lowercase` maps the letters `A` to `Z` to `a` to `z` and
/// leaves every other character as it is.
pub assume_specification[ str::to_ascii_lowercase ](s: &str) -> (r: String)
    ensures
        r@ == ascii_lower(s@),
;

/// `str::to_ascii_uppercase` maps the letters `a` to `z` to `A` to `Z` and
/// leaves every other character as it is.
pub assume_specification[ str::to_ascii_uppercase ](s: &str) -> (r: String)
    ensures
        r@ == ascii_upper(s@),
;

/// The Unicode lower case of a text.
pub uninterp spec fn unicode_lower(s: Seq<char>) -> Seq<char>;

/// `str::to_lowercase` gives the Unicode lower case of the text. The mapping
/// itself (tables, final sigma) is not spelled out.
pub assume_specification[ str::to_lowercase ](s: &str) -> (r: String)
    ensures
        r@ == unicode_lower(s@),
;

/// What text a byte sequence holds: its UTF-8 decoding, if it is valid UTF-8.
pub open spec fn text_of(bytes: Seq<u8>) -> Option<Seq<char>> {
    if valid_utf8(bytes) {
        Some(decode_utf8(bytes))
    } else {
        None
    }
}

/// The text that `bytes` hold, or `None` where they are not valid UTF-8.
pub fn decode(bytes: &[u8]) -> (r: Option<&str>)
    ensures
        r is Some <==> text_of(bytes@) is Some,
        r matches Some(s) ==> text_of(bytes@) == Some(s@),
{
    match core::str::from_utf8(bytes) {
        Ok(s) => {
            proof {
                encode_utf8_decode_utf8(s@);
            }
            Some(s)
        },
        Err(_) => None,
    }
}

/// Encoding a text and decoding the bytes gives the text back.
pub proof fn lemma_text_of_encoded(s: Seq<char>)
    ensures
        text_of(encode_utf8(s)) == Some(s),
{
    encode_utf8_valid_utf8(s);
    encode_utf8_decode_utf8(s);
}

/// Decoding bytes and encoding the text gives the bytes back.
pub proof fn lemma_encoded_text_of(bytes: Seq<u8>)
    ensures
        text_of(bytes) matches Some(s) ==> encode_utf8(s) == bytes,
{
    if valid_utf8(bytes) {
        decode_utf8_encode_utf8(bytes);
    }
}

/// Whether the two texts are the same, character for character.
pub fn same(a: &str, b: &str) -> (r: bool)
    ensures
        r == (a@ == b@),
{
    let x: &[u8] = a.as_bytes();
    let y: &[u8] = b.as_bytes();
    proof {
        lemma_text_of_encoded(a@);
        lemma_text_of_encoded(b@);
    }
    if x.len() != y.len() {
        return false;
    }
    let mut i: usize = 0;
    while i < x.len()
        invariant
            i <= x@.len(),
            x@.len() == y@.len(),
            x@ == encode_utf8(a@),
            y@ == encode_utf8(b@),
            forall|k: int| 0 <= k < i ==> x@[k] == y@[k],
        decreases x@.len() - i,
    {
        if x[i] != y[i] {
            return false;
        }
        i = i + 1;
    }
    assert(x@ == y@);
    true
}

/// The characters of `s`, in order.
pub fn chars_of(s: &str) -> (r: Vec<char>)
    ensures
        r@ == s@,
{
    let mut r: Vec<char> = Vec::new();
    for c in it: s.chars()
        invariant
            r@ == it.seq().take(it.index()),
            it.seq() == s@,
    {
        r.push(c);
    }
    r
}

/// `a` followed by `b`.
pub fn join(a: &str, b: &str) -> (r: String)
    ensures
        r@ == a@ + b@,
{
    let mut r = String::new();
    r.append(a);
    r.append(b);
    assert(r@ == a@ + b@);
    r
}

/// What stands before the first `c` in `s`, if there is one.
pub open spec fn before_first(s: Seq<char>, c: char) -> Option<Seq<char>> {
    match s.index_of_first(c) {
        Some(i) => Some(s.take(i)),
        None => None,
    }
}

/// What stands before the first `c` in `s`, if there is one.
pub fn split_before(s: &str, c: char) -> (r: Option<&str>)
    ensures
        r is Some <==> before_first(s@, c) is Some,
        r matches Some(p) ==> before_first(s@, c) == Some(p@),
{
    let chars: Vec<char> = chars_of(s);
    proof {
        s@.index_of_first_ensures(c);
    }
    let mut i: usize = 0;
    while i < chars.len()
        invariant
            chars@ == s@,
            i <= chars@.len(),
            forall|j: int| 0 <= j < i ==> s@[j] != c,
        decreases chars@.len() - i,
    {
        if chars[i] == c {
            proof {
                s@.index_of_first_ensures(c);
                let first = s@.index_of_first(c)->0;
                assert(s@.contains(c));
                assert(first == i) by {
                    if first < i {
                        assert(s@[first] != c);
                    }
                }
            }
            let p: &str = s.substring_char(0, i);
            assert(p@ == s@.take(i as int));
            return Some(p);
        }
        i = i + 1;
    }
    None
}

/// A text that holds `c` after a stretch without it has that stretch before
/// its first `c`.
pub proof fn lemma_before_first(head: Seq<char>, c: char, tail: Seq<char>)
    requires
        !head.contains(c),
    ensures
        before_first(head + seq![c] + tail, c) == Some(head),
{
    let s = head + seq![c] + tail;
    s.index_of_first_ensures(c);
    assert(s[head.len() as int] == c);
    assert(s.contains(c));
    let first = s.index_of_first(c)->0;
    if first < head.len() {
        assert(head[first] == c);
    }
    assert(s.take(first) == head);
}

/// A text is what stands before its first `c`, that `c`, and the rest.
pub proof fn lemma_split_at_first(s: Seq<char>, c: char)
    ensures
        match before_first(s, c) {
            Some(head) => {
                &&& head.len() < s.len()
                &&& !head.contains(c)
                &&& s == head + seq![c] + s.skip(head.len() as int + 1)
            },
            None => !s.contains(c),
        },
{
    s.index_of_first_ensures(c);
    if s.contains(c) {
        let first = s.index_of_first(c)->0;
        let head = s.take(first);
        if head.contains(c) {
            let i = choose|i: int| 0 <= i < head.len() && head[i] == c;
            assert(s[i] == c);
        }
        assert(s =~= head + seq![c] + s.skip(head.len() as int + 1));
    }
}

/// The ASCII lower case of one character.
pub open spec fn ascii_lower_char(c: char) -> char {
    if 'A' <= c && c <= 'Z' {
        (c as u32 + 32) as char
    } else {
        c
    }
}

/// The ASCII upper case of one character.
pub open spec fn ascii_upper_char(c: char) -> char {
    if 'a' <= c && c <= 'z' {
        (c as u32 - 32) as char
    } else {
        c
    }
}

/// The ASCII lower case of a text.
pub open spec fn ascii_lower(s: Seq<char>) -> Seq<char> {
    Seq::new(s.len(), |i: int| ascii_lower_char(s[i]))
}

/// The ASCII upper case of a text.
pub open spec fn ascii_upper(s: Seq<char>) -> Seq<char> {
    Seq::new(s.len(), |i: int| ascii_upper_char(s[i]))
}

/// Whether the two texts differ at most in the case of ASCII letters.
pub fn same_ignoring_ascii_case(a: &str, b: &str) -> (r: bool)
    ensures
        r == (ascii_lower(a@) == ascii_lower(b@)),
{
    same(a.to_ascii_lowercase().as_str(), b.to_ascii_lowercase().as_str())
}

/// `s` with its first character in ASCII upper case.
pub open spec fn capitalized(s: Seq<char>) -> Seq<char> {
    if s.len() == 0 {
        s
    } else {
        s.update(0, ascii_upper_char(s[0]))
    }
}

/// `s` with its first character in ASCII upper case.
pub fn capitalize(s: &str) -> (r: String)
    ensures
        r@ == capitalized(s@),
{
    let n: usize = s.unicode_len();
    if n == 0 {
        return s.to_owned();
    }
    let first: String = s.substring_char(0, 1).to_ascii_uppercase();
    let r: String = join(first.as_str(), s.substring_char(1, n));
    assert(r@ == capitalized(s@));
    r
}

/// Whether `part` stands somewhere in `s`.
pub open spec fn occurs_in(part: Seq<char>, s: Seq<char>) -> bool {
    exists|i: int|
        0 <= i && i + part.len() <= s.len() && #[trigger] s.subrange(i, i + part.len()) == part
}

/// Whether `part` stands in `s` from position `at` on.
fn stands_at(part: &Vec<char>, s: &Vec<char>, at: usize) -> (r: bool)
    requires
        at + part@.len() <= s@.len(),
    ensures
        r == (s@.subrange(at as int, at + part@.len()) == part@),
{
    let n: usize = s.len();
    let mut j: usize = 0;
    while j < part.len()
        invariant
            n == s@.len(),
            j <= part@.len(),
            at + part@.len() <= s@.len(),
            forall|k: int| 0 <= k < j ==> s@[at + k] == part@[k],
        decreases part@.len() - j,
    {
        if s[at + j] != part[j] {
            assert(s@.subrange(at as int, at + part@.len())[j as int] != part@[j as int]);
            return false;
        }
        j = j + 1;
    }
    assert(s@.subrange(at as int, at + part@.len()) == part@);
    true
}

/// Whether `part` stands somewhere in `s`.
pub fn contains(s: &str, part: &str) -> (r: bool)
    ensures
        r == occurs_in(part@, s@),
{
    let sv: Vec<char> = chars_of(s);
    let pv: Vec<char> = chars_of(part);
    if pv.len() > sv.len() {
        return false;
    }
    let last: usize = sv.len() - pv.len();
    let mut i: usize = 0;
    while i <= last
        invariant
            sv@ == s@,
            pv@ == part@,
            last + pv@.len() == sv@.len(),
            i <= last + 1,
            forall|k: int| 0 <= k < i ==> #[trigger] s@.subrange(k, k + part@.len()) != part@,
        decreases last + 1 - i,
    {
        if stands_at(&pv, &sv, i) {
            return true;
        }
        if i == last {
            return false;
        }
        i = i + 1;
    }
    false
}

/// Whether `c` has the Unicode property `White_Space`.
pub open spec fn is_white_space(c: char) -> bool {
    let n = c as u32;
    ||| 0x9 <= n <= 0xd
    ||| n == 0x20
    ||| n == 0x85
    ||| n == 0xa0
    ||| n == 0x1680
    ||| 0x2000 <= n <= 0x200a
    ||| n == 0x2028
    ||| n == 0x2029
    ||| n == 0x202f
    ||| n == 0x205f
    ||| n == 0x3000
}

/// Whether `c` has the Unicode property `White_Space`.
pub fn white_space(c: char) -> (r: bool)
    ensures
        r == is_white_space(c),
{
    let n: u32 = c as u32;
    (0x9 <= n && n <= 0xd) || n == 0x20 || n == 0x85 || n == 0xa0 || n == 0x1680 || (0x2000 <= n
        && n <= 0x200a) || n == 0x2028 || n == 0x2029 || n == 0x202f || n == 0x205f || n == 0x3000
}

/// Whether `s` has a word from `i` up to `j`: a stretch without white space
/// that cannot be made longer.
pub open spec fn word_at(s: Seq<char>, i: int, j: int) -> bool {
    &&& 0 <= i < j <= s.len()
    &&& forall|k: int| i <= k < j ==> !is_white_space(#[trigger] s[k])
    &&& i == 0 || is_white_space(s[i - 1])
    &&& j == s.len() || is_white_space(s[j])
}

/// The words of `s`.
pub open spec fn words(s: Seq<char>) -> Set<Seq<char>> {
    Set::new(|w: Seq<char>| exists|i: int, j: int| #[trigger] word_at(s, i, j) && w == s.subrange(i, j))
}

/// The words of `s`, each once.
pub fn words_of(s: &str) -> (r: StringHashSet)
    ensures
        r@ == words(s@),
{
    let chars: Vec<char> = chars_of(s);
    let n: usize = chars.len();
    let mut r = StringHashSet::new();
    let mut i: usize = 0;
    while i < n
        invariant
            chars@ == s@,
            n == chars@.len(),
            i <= n,
            i == 0 || i == n || is_white_space(s@[i - 1]),
            forall|w: Seq<char>| #[trigger]
                r@.contains(w) <==> exists|a: int, b: int|
                    b <= i && #[trigger] word_at(s@, a, b) && w == s@.subrange(a, b),
        decreases n - i,
    {
        let start: usize = i;
        while i < n && !white_space(chars[i])
            invariant
                chars@ == s@,
                n == chars@.len(),
                start <= i <= n,
                forall|k: int| start <= k < i ==> !is_white_space(#[trigger] s@[k]),
            decreases n - i,
        {
            i = i + 1;
        }
        let ghost before = r@;
        let ghost stop = i as int;
        if start < i {
            assert(word_at(s@, start as int, i as int));
            r.insert(s.substring_char(start, i).to_owned());
        }
        if i < n {
            i = i + 1;
        }
        proof {
            assert forall|w: Seq<char>| #[trigger]
                r@.contains(w) implies exists|a: int, b: int|
                b <= i && #[trigger] word_at(s@, a, b) && w == s@.subrange(a, b) by {
                if before.contains(w) {
                    let (a, b) = choose|a: int, b: int|
                        b <= start && #[trigger] word_at(s@, a, b) && w == s@.subrange(a, b);
                    assert(word_at(s@, a, b));
                } else {
                    assert(word_at(s@, start as int, stop));
                }
            }
            assert forall|a: int, b: int| b <= i && #[trigger] word_at(s@, a, b) implies r@.contains(
                s@.subrange(a, b),
            ) by {
                if b <= start {
                    assert(before.contains(s@.subrange(a, b)));
                } else {
                    // The word ends after `start`, so it is the stretch just read.
                    assert(a >= start) by {
                        if a < start {
                            assert(is_white_space(s@[start - 1]));
                        }
                    }
                    assert(!is_white_space(s@[b - 1]));
                    assert(b <= stop) by {
                        if b > stop {
                            assert(is_white_space(s@[stop]));
                            assert(b - 1 == stop);
                        }
                    }
                    assert(a == start) by {
                        if a > start {
                            assert(is_white_space(s@[a - 1]));
                        }
                    }
                    assert(b == stop) by {
                        if b < stop {
                            assert(is_white_space(s@[b]));
                        }
                    }
                }
            }
        }
    }
    assert(r@ =~= words(s@));
    r
}

/// Lower case turns the letters `A` to `Z` into `a` to `z`, upper case does the
/// reverse, and neither changes any other character.
pub proof fn law_ascii_case(c: char, i: int)
    ensures
        0 <= i < 26 ==> {
            let upper = "ABCDEFGHIJKLMNOPQRSTUVWXYZ"@[i];
            let lower = "abcdefghijklmnopqrstuvwxyz"@[i];
            &&& ascii_lower_char(upper) == lower
            &&& ascii_upper_char(lower) == upper
        },
        !"ABCDEFGHIJKLMNOPQRSTUVWXYZ"@.contains(c) ==> ascii_lower_char(c) == c,
        !"abcdefghijklmnopqrstuvwxyz"@.contains(c) ==> ascii_upper_char(c) == c,
{
    reveal_strlit("ABCDEFGHIJKLMNOPQRSTUVWXYZ");
    reveal_strlit("abcdefghijklmnopqrstuvwxyz");
    let upper = "ABCDEFGHIJKLMNOPQRSTUVWXYZ"@;
    let lower = "abcdefghijklmnopqrstuvwxyz"@;
    assert(forall|k: int| 0 <= k < 26 ==> #[trigger] upper[k] as int == 65 + k);
    assert(forall|k: int| 0 <= k < 26 ==> #[trigger] lower[k] as int == 97 + k);
    if 'A' <= c && c <= 'Z' {
        assert(upper[c as int - 65] == c);
    }
    if 'a' <= c && c <= 'z' {
        assert(lower[c as int - 97] == c);
    }
}

/// The case of a text is that of its characters, one by one.
pub proof fn law_case_goes_by_characters(a: Seq<char>, c: char, b: Seq<char>)
    ensures
        ascii_lower(a + seq![c] + b) == ascii_lower(a) + seq![ascii_lower_char(c)] + ascii_lower(b),
        ascii_upper(a + seq![c] + b) == ascii_upper(a) + seq![ascii_upper_char(c)] + ascii_upper(b),
        ascii_lower(a).len() == a.len(),
        ascii_upper(a).len() == a.len(),
{
    assert(ascii_lower(a + seq![c] + b) =~= ascii_lower(a) + seq![ascii_lower_char(c)]
        + ascii_lower(b));
    assert(ascii_upper(a + seq![c] + b) =~= ascii_upper(a) + seq![ascii_upper_char(c)]
        + ascii_upper(b));
}

/// A name gets its first letter in upper case and is otherwise left as it is.
pub proof fn law_capitalized_changes_the_first_letter(c: char, rest: Seq<char>)
    ensures
        capitalized(seq![c] + rest) == seq![ascii_upper_char(c)] + rest,
        ascii_lower(capitalized(seq![c] + rest)) == ascii_lower(seq![c] + rest),
        capitalized(Seq::<char>::empty()) == Seq::<char>::empty(),
{
    assert(capitalized(seq![c] + rest) =~= seq![ascii_upper_char(c)] + rest);
    assert(ascii_lower(capitalized(seq![c] + rest)) =~= ascii_lower(seq![c] + rest));
}

/// A text occurs in another exactly if the other is made of something, the text,
/// and something.
pub proof fn law_occurrence(part: Seq<char>, s: Seq<char>)
    ensures
        occurs_in(part, s) <==> exists|a: Seq<char>, b: Seq<char>| s == #[trigger] (a + part + b),
{
    if occurs_in(part, s) {
        let i = choose|i: int|
            0 <= i && i + part.len() <= s.len() && #[trigger] s.subrange(i, i + part.len()) == part;
        let a = s.take(i);
        let b = s.skip(i + part.len());
        assert(s =~= a + s.subrange(i, i + part.len()) + b);
        assert(s == a + part + b);
    }
    if exists|a: Seq<char>, b: Seq<char>| s == #[trigger] (a + part + b) {
        let (a, b) = choose|a: Seq<char>, b: Seq<char>| s == #[trigger] (a + part + b);
        let i = a.len() as int;
        assert(s.subrange(i, i + part.len()) =~= part);
    }
}

/// Space, tab, line feed and carriage return are white space; the printable ASCII
/// characters are not.
pub proof fn law_ascii_white_space(c: char)
    ensures
        c == ' ' || c == '\t' || c == '\n' || c == '\r' ==> is_white_space(c),
        '!' <= c && c <= '~' ==> !is_white_space(c),
{
}

/// The words of two texts with white space between them are the words of both:
/// it does not matter where in a text, or on which line, a word stands.
pub proof fn law_words_of_both_sides(a: Seq<char>, c: char, b: Seq<char>)
    requires
        is_white_space(c),
    ensures
        words(a + seq![c] + b) == words(a).union(words(b)),
{
    let s = a + seq![c] + b;
    let n = a.len() as int;
    assert forall|w: Seq<char>| #[trigger] words(s).contains(w) implies words(a).union(
        words(b),
    ).contains(w) by {
        let (i, j) = choose|i: int, j: int| #[trigger] word_at(s, i, j) && w == s.subrange(i, j);
        assert(s[n] == c);
        if j <= n {
            assert(word_at(a, i, j)) by {
                assert forall|k: int| i <= k < j implies !is_white_space(#[trigger] a[k]) by {
                    assert(a[k] == s[k]);
                }
                if i > 0 {
                    assert(a[i - 1] == s[i - 1]);
                }
                if j < n {
                    assert(a[j] == s[j]);
                }
            }
            assert(a.subrange(i, j) =~= s.subrange(i, j));
        } else {
            assert(i > n) by {
                if i <= n {
                    assert(!is_white_space(s[n]));
                }
            }
            let (x, y) = (i - n - 1, j - n - 1);
            assert(word_at(b, x, y)) by {
                assert forall|k: int| x <= k < y implies !is_white_space(#[trigger] b[k]) by {
                    assert(b[k] == s[k + n + 1]);
                }
                if x > 0 {
                    assert(b[x - 1] == s[i - 1]);
                }
                if y < b.len() {
                    assert(b[y] == s[j]);
                }
            }
            assert(b.subrange(x, y) =~= s.subrange(i, j));
        }
    }
    assert forall|w: Seq<char>| #[trigger] words(a).contains(w) implies words(s).contains(w) by {
        let (i, j) = choose|i: int, j: int| #[trigger] word_at(a, i, j) && w == a.subrange(i, j);
        assert(word_at(s, i, j)) by {
            assert forall|k: int| i <= k < j implies !is_white_space(#[trigger] s[k]) by {
                assert(a[k] == s[k]);
            }
            if i > 0 {
                assert(a[i - 1] == s[i - 1]);
            }
            if j < n {
                assert(a[j] == s[j]);
            } else {
                assert(s[j] == c);
            }
        }
        assert(a.subrange(i, j) =~= s.subrange(i, j));
    }
    assert forall|w: Seq<char>| #[trigger] words(b).contains(w) implies words(s).contains(w) by {
        let (x, y) = choose|x: int, y: int| #[trigger] word_at(b, x, y) && w == b.subrange(x, y);
        let (i, j) = (x + n + 1, y + n + 1);
        assert(word_at(s, i, j)) by {
            assert forall|k: int| i <= k < j implies !is_white_space(#[trigger] s[k]) by {
                assert(b[k - n - 1] == s[k]);
            }
            if x > 0 {
                assert(b[x - 1] == s[i - 1]);
            } else {
                assert(s[i - 1] == c);
            }
            if y < b.len() {
                assert(b[y] == s[j]);
            }
        }
        assert(b.subrange(x, y) =~= s.subrange(i, j));
    }
    assert(words(s) =~= words(a).union(words(b)));
}

/// A text without white space is its only word, and the empty text has none.
pub proof fn law_a_word_is_its_only_word(w: Seq<char>)
    requires
        forall|i: int| 0 <= i < w.len() ==> !is_white_space(#[trigger] w[i]),
    ensures
        w.len() > 0 ==> words(w) == Set::<Seq<char>>::empty().insert(w),
        w.len() == 0 ==> words(w) == Set::<Seq<char>>::empty(),
{
    if w.len() > 0 {
        assert(word_at(w, 0, w.len() as int));
        assert(w.subrange(0, w.len() as int) =~= w);
        assert forall|v: Seq<char>| #[trigger] words(w).contains(v) implies v == w by {
            let (i, j) = choose|i: int, j: int| #[trigger] word_at(w, i, j) && v == w.subrange(i, j);
            if i > 0 {
                assert(!is_white_space(w[i - 1]));
            }
            if j < w.len() {
                assert(!is_white_space(w[j]));
            }
        }
        assert(words(w) =~= Set::<Seq<char>>::empty().insert(w));
    } else {
        assert(words(w) =~= Set::<Seq<char>>::empty());
    }
}

} // verus!
