//! Network addresses as text: the port an address ends in, and the address
//! on which a replica listens on every interface.

use vstd::prelude::*;
use vstd::string::*;

verus! {

broadcast use vstd::string::group_string_axioms;

/// Whether `c` is one of the ten decimal digits.
pub open spec fn is_digit(c: char) -> bool {
    '0' as u32 <= c as u32 && c as u32 <= '9' as u32
}

/// The number that the digit `c` stands for.
pub open spec fn digit_value(c: char) -> nat
    recommends
        is_digit(c),
{
    (c as u32 - '0' as u32) as nat
}

/// The digit that stands for `d`.
pub open spec fn digit_char(d: nat) -> char
    recommends
        d < 10,
{
    (d + '0' as u32) as char
}

/// Whether `s` consists of decimal digits only.
pub open spec fn all_digits(s: Seq<char>) -> bool {
    forall|i: int| 0 <= i < s.len() ==> is_digit(#[trigger] s[i])
}

/// The number that the digits `s` write in base ten; zero for no digits.
pub open spec fn decimal_value(s: Seq<char>) -> nat
    decreases s.len(),
{
    if s.len() == 0 {
        0
    } else {
        10 * decimal_value(s.drop_last()) + digit_value(s.last())
    }
}

/// `n` written in base ten, without leading zeros.
pub open spec fn decimal_text(n: nat) -> Seq<char>
    decreases n,
{
    if n < 10 {
        seq![digit_char(n)]
    } else {
        decimal_text(n / 10).push(digit_char(n % 10))
    }
}

/// The position of the last colon in `addr`, and -1 where it has none.
pub open spec fn last_colon(addr: Seq<char>) -> int
    decreases addr.len(),
{
    if addr.len() == 0 {
        -1
    } else if addr.last() == ':' {
        addr.len() - 1
    } else {
        last_colon(addr.drop_last())
    }
}

/// What follows the last colon of `addr`; all of `addr` where it has none.
pub open spec fn port_text(addr: Seq<char>) -> Seq<char> {
    addr.skip(last_colon(addr) + 1)
}

/// The port that `text` writes: an optional `+`, then at least one decimal
/// digit and nothing else, for a number that fits in sixteen bits.
pub open spec fn parse_port(text: Seq<char>) -> Option<u16> {
    let digits = if text.len() > 0 && text[0] == '+' {
        text.skip(1)
    } else {
        text
    };
    if digits.len() > 0 && all_digits(digits) && decimal_value(digits) <= u16::MAX {
        Some(decimal_value(digits) as u16)
    } else {
        None
    }
}

/// The port that the address `addr` ends in, if it ends in one.
pub open spec fn port_in(addr: Seq<char>) -> Option<u16> {
    parse_port(port_text(addr))
}

/// The address of every interface of this machine, at `port`.
pub open spec fn wildcard_text(port: u16) -> Seq<char> {
    "0.0.0.0:"@ + decimal_text(port as nat)
}

/// The characters of `s`, one by one.
fn chars_of(s: &str) -> (v: Vec<char>)
    ensures
        v@ == s@,
{
    let mut v: Vec<char> = Vec::new();
    for c in it: s.chars()
        invariant
            it.seq() == s@,
            v@ == s@.take(it.index()),
    {
        v.push(c);
    }
    v
}

/// Leaving digits off the end of a number does not make it larger.
proof fn lemma_decimal_value_grows(s: Seq<char>, k: int)
    requires
        0 <= k <= s.len(),
    ensures
        decimal_value(s.take(k)) <= decimal_value(s),
    decreases s.len(),
{
    if k == s.len() {
        assert(s.take(k) == s);
    } else {
        lemma_decimal_value_grows(s.drop_last(), k);
        assert(s.drop_last().take(k) == s.take(k));
    }
}

/// The port that the address `addr` ends in: what follows its last colon
/// (all of it, where it has none), read as a port number.
pub fn port_of(addr: &str) -> (port: Option<u16>)
    ensures
        port == port_in(addr@),
{
    let chars = chars_of(addr);
    let mut start: usize = 0;
    let mut i: usize = 0;
    while i < chars.len()
        invariant
            i <= chars.len(),
            start == last_colon(chars@.take(i as int)) + 1,
            start <= i,
        decreases chars.len() - i,
    {
        proof {
            assert(chars@.take(i + 1).drop_last() == chars@.take(i as int));
        }
        if chars[i] == ':' {
            start = i + 1;
        }
        i += 1;
    }
    proof {
        assert(chars@.take(i as int) == chars@);
    }
    let ghost text = port_text(addr@);
    let mut j: usize = start;
    if j < chars.len() && chars[j] == '+' {
        j += 1;
    }
    let first: usize = j;
    let ghost digits = chars@.skip(first as int);
    proof {
        assert(text == chars@.skip(start as int));
        if first > start {
            assert(text.len() > 0 && text[0] == '+');
            assert(text.skip(1) == digits);
        } else {
            assert(text == digits);
            assert(!(text.len() > 0 && text[0] == '+'));
        }
    }
    if j == chars.len() {
        return None;
    }
    let mut value: u32 = 0;
    while j < chars.len()
        invariant
            first <= j <= chars.len(),
            digits == chars@.skip(first as int),
            port_in(addr@) == if all_digits(digits) && decimal_value(digits) <= u16::MAX {
                Some(decimal_value(digits) as u16)
            } else {
                None
            },
            all_digits(digits.take(j - first)),
            value == decimal_value(digits.take(j - first)),
            value <= u16::MAX,
        decreases chars.len() - j,
    {
        let c: u32 = chars[j] as u32;
        proof {
            assert(digits.take(j - first + 1).drop_last() == digits.take(j - first));
            assert(digits.take(j - first + 1).last() == chars@[j as int]);
        }
        if c < '0' as u32 || c > '9' as u32 {
            proof {
                assert(!is_digit(digits[j - first]));
            }
            return None;
        }
        value = value * 10 + (c - '0' as u32);
        if value > 65535 {
            proof {
                if all_digits(digits) {
                    lemma_decimal_value_grows(digits, j - first + 1);
                }
            }
            return None;
        }
        j += 1;
    }
    proof {
        assert(digits.take(j - first) == digits);
    }
    Some(value as u16)
}

/// The one-character text of the digit for `d`.
fn digit_str(d: u8) -> (s: &'static str)
    requires
        d < 10,
    ensures
        s@ == seq![digit_char(d as nat)],
{
    proof {
        reveal_strlit("0");
        reveal_strlit("1");
        reveal_strlit("2");
        reveal_strlit("3");
        reveal_strlit("4");
        reveal_strlit("5");
        reveal_strlit("6");
        reveal_strlit("7");
        reveal_strlit("8");
        reveal_strlit("9");
    }
    let s = match d {
        0 => "0",
        1 => "1",
        2 => "2",
        3 => "3",
        4 => "4",
        5 => "5",
        6 => "6",
        7 => "7",
        8 => "8",
        _ => "9",
    };
    assert(s@ =~= seq![digit_char(d as nat)]);
    s
}

/// Writes `n` in base ten at the end of `out`.
fn push_decimal(out: &mut String, n: u16)
    ensures
        final(out)@ == old(out)@ + decimal_text(n as nat),
    decreases n,
{
    if n >= 10 {
        push_decimal(out, n / 10);
    }
    out.append(digit_str((n % 10) as u8));
    proof {
        if n >= 10 {
            assert(old(out)@ + decimal_text(n as nat / 10) + seq![digit_char(n as nat % 10)]
                == old(out)@ + decimal_text(n as nat / 10).push(digit_char(n as nat % 10)));
        }
    }
}

/// The address of every interface of this machine, at `port`:
/// `0.0.0.0:` and the port in base ten.
pub fn wildcard_address(port: u16) -> (addr: String)
    ensures
        addr@ == wildcard_text(port),
{
    let mut addr = String::from_str("0.0.0.0:");
    push_decimal(&mut addr, port);
    addr
}

} // verus!
