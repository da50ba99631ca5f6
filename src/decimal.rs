//! The decimal form of ids: how an id is written as a key of the persisted
//! file, and how such a key is read back.
use vstd::prelude::*;
use crate::text::{chars_of, push_char};

verus! {

/// Whether `c` is one of the ASCII digits `0` to `9`.
pub open spec fn is_digit(c: char) -> bool {
    '0' <= c && c <= '9'
}

/// The value of the ASCII digit `c`.
pub open spec fn digit_value(c: char) -> nat {
    (c as u32 - '0' as u32) as nat
}

/// The digit that stands for `d < 10`.
pub open spec fn digit_char(d: nat) -> char {
    ((d + '0' as u32) as u32) as char
}

/// Whether every character of `s` is a digit.
pub open spec fn all_digits(s: Seq<char>) -> bool {
    forall|i: int| 0 <= i < s.len() ==> is_digit(#[trigger] s[i])
}

/// The number that the digits `s` spell, most significant first.
pub open spec fn digits_value(s: Seq<char>) -> nat
    decreases s.len(),
{
    if s.len() == 0 {
        0
    } else {
        digits_value(s.drop_last()) * 10 + digit_value(s.last())
    }
}

/// The shortest decimal form of `n`: no sign, no leading zero.
pub open spec fn decimal(n: nat) -> Seq<char>
    decreases n,
{
    if n < 10 {
        seq![digit_char(n)]
    } else {
        decimal(n / 10).push(digit_char(n % 10))
    }
}

/// The digits of a key once an optional leading `+` is set aside.
pub open spec fn unsigned_digits(s: Seq<char>) -> Seq<char> {
    if s.len() > 0 && s[0] == '+' {
        s.drop_first()
    } else {
        s
    }
}

/// What reading `s` as an id gives: an optional `+`, then at least one
/// digit, and a value that fits in a `u32`.
pub open spec fn parsed_id(s: Seq<char>) -> Option<u32> {
    let d = unsigned_digits(s);
    if d.len() > 0 && all_digits(d) && digits_value(d) <= u32::MAX {
        Some(digits_value(d) as u32)
    } else {
        None
    }
}

proof fn lemma_decimal_digits(n: nat)
    ensures
        decimal(n).len() > 0,
        all_digits(decimal(n)),
        digits_value(decimal(n)) == n,
        decimal(n)[0] != '+',
    decreases n,
{
    if n < 10 {
        let s = decimal(n);
        assert(s.drop_last() =~= Seq::<char>::empty());
        assert(digit_value(digit_char(n)) == n);
        assert(digits_value(s.drop_last()) == 0);
        assert(s.last() == digit_char(n));
    } else {
        lemma_decimal_digits(n / 10);
        let s = decimal(n);
        assert(s.drop_last() =~= decimal(n / 10));
        assert(forall|i: int| 0 <= i < s.len() - 1 ==> s[i] == decimal(n / 10)[i]);
        assert(digit_value(digit_char(n % 10)) == n % 10);
        assert(s.last() == digit_char(n % 10));
        assert(digits_value(s) == digits_value(decimal(n / 10)) * 10 + n % 10);
        assert(n / 10 * 10 + n % 10 == n);
    }
}

/// Reading back the decimal form of an id gives that id.
pub proof fn lemma_parse_decimal(k: u32)
    ensures
        parsed_id(decimal(k as nat)) == Some(k),
{
    lemma_decimal_digits(k as nat);
}

/// Two ids with the same decimal form are the same id.
pub proof fn lemma_decimal_injective(a: u32, b: u32)
    ensures
        decimal(a as nat) == decimal(b as nat) ==> a == b,
{
    lemma_parse_decimal(a);
    lemma_parse_decimal(b);
}

/// The decimal form of `k`, as in the persisted file's keys.
pub fn format_id(k: u32) -> (r: String)
    ensures
        r@ == decimal(k as nat),
    decreases k,
{
    if k < 10 {
        let mut s = String::new();
        push_char(&mut s, ((k + '0' as u32) as u8) as char);
        assert(s@ =~= decimal(k as nat));
        s
    } else {
        let mut s = format_id(k / 10);
        push_char(&mut s, ((k % 10 + '0' as u32) as u8) as char);
        s
    }
}

/// Reads `s` as an id, as std's `u32::from_str` does.
pub fn parse_id(s: &str) -> (r: Option<u32>)
    ensures
        r == parsed_id(s@),
{
    let cs = chars_of(s);
    let start: usize = if cs.len() > 0 && cs[0] == '+' { 1 } else { 0 };
    let ghost d = unsigned_digits(s@);
    assert(d =~= cs@.subrange(start as int, cs.len() as int));
    if start == cs.len() {
        return None;
    }
    let mut value: u64 = 0;
    let mut i: usize = start;
    while i < cs.len()
        invariant
            cs@ == s@,
            start <= i <= cs.len(),
            d == cs@.subrange(start as int, cs.len() as int),
            d == unsigned_digits(s@),
            all_digits(cs@.subrange(start as int, i as int)),
            value == digits_value(cs@.subrange(start as int, i as int)),
            value <= u32::MAX,
        decreases cs.len() - i,
    {
        let c = cs[i];
        let ghost prev = cs@.subrange(start as int, i as int);
        let ghost next = cs@.subrange(start as int, i + 1);
        assert(next.drop_last() =~= prev);
        if c < '0' || c > '9' {
            assert(d[i - start] == c);
            assert(!is_digit(d[i - start]));
            return None;
        }
        value = value * 10 + (c as u32 - '0' as u32) as u64;
        assert(value == digits_value(next));
        if value > u32::MAX as u64 {
            proof {
                lemma_digits_value_grows(d, i + 1 - start);
                assert(d.subrange(0, i + 1 - start) =~= next);
            }
            return None;
        }
        i = i + 1;
    }
    assert(cs@.subrange(start as int, i as int) =~= d);
    Some(value as u32)
}

/// Appending digits never makes the value smaller.
proof fn lemma_digits_value_grows(s: Seq<char>, n: int)
    requires
        0 <= n <= s.len(),
    ensures
        digits_value(s.subrange(0, n)) <= digits_value(s),
    decreases s.len() - n,
{
    if n < s.len() {
        lemma_digits_value_grows(s, n + 1);
        assert(s.subrange(0, n + 1).drop_last() =~= s.subrange(0, n));
    } else {
        assert(s.subrange(0, n) =~= s);
    }
}

} // verus!
