//! How the server is set up: what environment variables say, and what holds
//! where they are not set.

use crate::request;
use crate::text;
use vstd::prelude::*;
use vstd::string::*;

verus! {

/// The port to run on where none is set.
pub const DEFAULT_PORT: u16 = 7777;

/// The domain that subdomains are handed out for where none is set.
pub const DEFAULT_DOMAIN: &'static str = "nadybotters.org";

/// Whether a character is a decimal digit.
pub open spec fn is_digit(c: char) -> bool {
    '0' <= c && c <= '9'
}

/// The number that decimal digits stand for.
pub open spec fn value(digits: Seq<char>) -> nat
    decreases digits.len(),
{
    if digits.len() == 0 {
        0
    } else {
        value(digits.drop_last()) * 10 + (digits.last() as nat - '0' as nat) as nat
    }
}

/// A text without the plus sign that it may start with.
pub open spec fn unsigned(s: Seq<char>) -> Seq<char> {
    if s.len() > 0 && s[0] == '+' {
        s.skip(1)
    } else {
        s
    }
}

/// The port that a text names: a decimal number that fits 16 bits, with or
/// without a plus sign.
pub open spec fn port_of(s: Seq<char>) -> Option<u16> {
    let digits = unsigned(s);
    if digits.len() > 0 && (forall|i: int| 0 <= i < digits.len() ==> is_digit(#[trigger] digits[i]))
        && value(digits) <= u16::MAX {
        Some(value(digits) as u16)
    } else {
        None
    }
}

/// The port to run on, where `PORT` is set to `set`.
pub open spec fn chosen_port(set: Option<Seq<char>>) -> u16 {
    match set {
        Some(s) => match port_of(s) {
            Some(port) => port,
            None => DEFAULT_PORT,
        },
        None => DEFAULT_PORT,
    }
}

/// The domain that subdomains are handed out for, where `DOMAIN` is set to
/// `set`.
pub open spec fn chosen_domain(set: Option<Seq<char>>) -> Seq<char> {
    match set {
        Some(s) => s,
        None => DEFAULT_DOMAIN@,
    }
}

/// A number does not become smaller when digits are appended.
proof fn lemma_value_grows(digits: Seq<char>, n: int)
    requires
        0 <= n <= digits.len(),
    ensures
        value(digits.take(n)) <= value(digits),
    decreases digits.len() - n,
{
    if n < digits.len() {
        let longer = digits.take(n + 1);
        assert(longer.drop_last() =~= digits.take(n));
        assert(value(digits.take(n)) <= value(longer));
        lemma_value_grows(digits, n + 1);
    } else {
        assert(digits.take(n) =~= digits);
    }
}

/// The port that a text names, if it names one.
pub fn parse_port(s: &str) -> (r: Option<u16>)
    ensures
        r == port_of(s@),
{
    let chars: Vec<char> = text::chars_of(s);
    let ghost digits = unsigned(s@);
    let start: usize = if chars.len() > 0 && chars[0] == '+' {
        1
    } else {
        0
    };
    assert(digits == s@.skip(start as int));
    if start == chars.len() {
        return None;
    }
    let mut number: u32 = 0;
    let mut i: usize = start;
    assert(digits.take(0) =~= Seq::<char>::empty());
    while i < chars.len()
        invariant
            chars@ == s@,
            start <= i <= chars@.len(),
            start <= 1,
            digits == s@.skip(start as int),
            number == value(digits.take(i - start)),
            number <= u16::MAX,
            forall|k: int| 0 <= k < i - start ==> is_digit(#[trigger] digits[k]),
            unsigned(s@) == digits,
        decreases chars@.len() - i,
    {
        let c: char = chars[i];
        assert(digits[i - start] == c);
        if c < '0' || '9' < c {
            return None;
        }
        assert(digits.take(i - start + 1).drop_last() =~= digits.take(i - start));
        number = number * 10 + (c as u32 - '0' as u32);
        if number > 0xffff {
            proof {
                lemma_value_grows(digits, i - start + 1);
            }
            return None;
        }
        i = i + 1;
    }
    assert(digits.take(digits.len() as int) =~= digits);
    Some(number as u16)
}

/// The port to run on, where `PORT` is set to `set`.
pub fn port(set: Option<&str>) -> (r: u16)
    ensures
        r == (match set {
            Some(s) => match port_of(s@) {
                Some(port) => port,
                None => DEFAULT_PORT,
            },
            None => DEFAULT_PORT,
        }),
        r == chosen_port(
            (match set {
                Some(s) => Some(s@),
                None => None,
            }),
        ),
{
    match set {
        Some(s) => match parse_port(s) {
            Some(port) => port,
            None => DEFAULT_PORT,
        },
        None => DEFAULT_PORT,
    }
}

/// The domain that subdomains are handed out for, where `DOMAIN` is set to
/// `set`.
pub fn domain(set: Option<String>) -> (r: String)
    ensures
        r@ == (match set {
            Some(s) => s@,
            None => DEFAULT_DOMAIN@,
        }),
        r@ == chosen_domain(
            (match set {
                Some(s) => Some(s@),
                None => None,
            }),
        ),
{
    match set {
        Some(s) => s,
        None => DEFAULT_DOMAIN.to_owned(),
    }
}

/// A number in decimal is made of digits and stands for that number.
proof fn lemma_decimal(n: nat)
    ensures
        request::decimal(n).len() > 0,
        forall|i: int| 0 <= i < request::decimal(n).len() ==> is_digit(#[trigger] request::decimal(n)[i]),
        value(request::decimal(n)) == n,
    decreases n,
{
    let s = request::decimal(n);
    reveal_with_fuel(value, 2);
    if n < 10 {
        assert(s.drop_last() =~= Seq::<char>::empty());
    } else {
        lemma_decimal(n / 10);
        assert(s.drop_last() =~= request::decimal(n / 10));
        assert(s.last() == request::digit(n % 10));
    }
}

/// A zero in front does not change a number.
proof fn lemma_leading_zero(digits: Seq<char>)
    ensures
        value(seq!['0'] + digits) == value(digits),
    decreases digits.len(),
{
    let s = seq!['0'] + digits;
    reveal_with_fuel(value, 2);
    if digits.len() == 0 {
        assert(s.drop_last() =~= Seq::<char>::empty());
    } else {
        lemma_leading_zero(digits.drop_last());
        assert(s.drop_last() =~= seq!['0'] + digits.drop_last());
    }
}

/// A port is read as the number that it is written as, with or without a plus
/// sign, if it fits 16 bits; zeros in front do not matter.
pub proof fn law_port_is_the_number(n: nat, s: Seq<char>)
    ensures
        n <= 65535 ==> port_of(request::decimal(n)) == Some(n as u16),
        n <= 65535 ==> port_of(seq!['+'] + request::decimal(n)) == Some(n as u16),
        n > 65535 ==> port_of(request::decimal(n)) is None,
        n > 65535 ==> port_of(seq!['+'] + request::decimal(n)) is None,
        s.len() > 0 && s[0] != '+' ==> port_of(seq!['0'] + s) == port_of(s),
{
    lemma_decimal(n);
    let d = request::decimal(n);
    assert(is_digit(d[0]));
    assert((seq!['+'] + d).skip(1) =~= d);
    lemma_leading_zero(s);
    let z = seq!['0'] + s;
    if s.len() > 0 && s[0] != '+' {
        if forall|i: int| 0 <= i < s.len() ==> is_digit(#[trigger] s[i]) {
            assert forall|i: int| 0 <= i < z.len() implies is_digit(#[trigger] z[i]) by {
                if i > 0 {
                    assert(z[i] == s[i - 1]);
                }
            }
        } else {
            let i = choose|i: int| 0 <= i < s.len() && !is_digit(#[trigger] s[i]);
            assert(z[i + 1] == s[i]);
            assert(!is_digit(z[i + 1]));
        }
    }
}

/// What is no number is no port: nothing, a plus sign alone, and anything with a
/// character that is no digit, but for one plus sign in front.
pub proof fn law_what_is_no_port(s: Seq<char>, i: int)
    ensures
        port_of(Seq::<char>::empty()) is None,
        port_of(seq!['+']) is None,
        0 <= i < s.len() && !('0' <= s[i] && s[i] <= '9') && !(i == 0 && s[i] == '+') ==> port_of(s)
            is None,
{
    assert(seq!['+'].skip(1) =~= Seq::<char>::empty());
    if 0 <= i < s.len() && !('0' <= s[i] && s[i] <= '9') && !(i == 0 && s[i] == '+') {
        let digits = unsigned(s);
        if s[0] == '+' {
            assert(digits[i - 1] == s[i]);
            assert(!is_digit(digits[i - 1]));
        } else {
            assert(!is_digit(digits[i]));
        }
    }
}

/// The server runs on the port that is set, and on 7777 where none is set or what
/// is set is no port.
pub proof fn law_port_to_run_on(n: nat, s: Seq<char>)
    ensures
        chosen_port(None) == 7777,
        port_of(s) is None ==> chosen_port(Some(s)) == 7777,
        n <= 65535 ==> chosen_port(Some(request::decimal(n))) == n,
{
    law_port_is_the_number(n, s);
}

/// Subdomains are handed out for the domain that is set, whatever it is, and for
/// `nadybotters.org` where none is set.
pub proof fn law_domain_to_hand_out_for(s: Seq<char>)
    ensures
        chosen_domain(Some(s)) == s,
        chosen_domain(None) == "nadybotters.org"@,
{
}

} // verus!
