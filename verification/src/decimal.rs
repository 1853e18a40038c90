//! Decimal numbers as text: what a digit string is worth, which strings
//! parse as a number of a given range, and how a number is written.

use vstd::prelude::*;

verus! {

/// `c` is one of the ASCII digits `0` to `9`.
pub open spec fn is_digit(c: char) -> bool {
    0x30 <= c as u32 <= 0x39
}

/// The number that the digit `c` stands for.
pub open spec fn digit_value(c: char) -> nat {
    (c as u32 - 0x30) as nat
}

/// Every character of `s` is a digit.
pub open spec fn all_digits(s: Seq<char>) -> bool {
    forall|k: int| 0 <= k < s.len() ==> is_digit(#[trigger] s[k])
}

/// The number that the digit string `s` denotes in base ten.
pub open spec fn digits_value(s: Seq<char>) -> nat
    decreases s.len(),
{
    if s.len() == 0 {
        0
    } else {
        10 * digits_value(s.drop_last()) + digit_value(s.last())
    }
}

/// The value of `s` read as an unsigned number of at most `max`: an optional
/// `+`, then one or more digits. `None` where `s` is no such text.
pub open spec fn unsigned_value(s: Seq<char>, max: nat) -> Option<nat> {
    let d = if s.len() > 0 && s[0] == '+' {
        s.drop_first()
    } else {
        s
    };
    if d.len() > 0 && all_digits(d) && digits_value(d) <= max {
        Some(digits_value(d))
    } else {
        None
    }
}

/// The value of `s` read as a signed number between `min` and `max`: an
/// optional `+` or `-`, then one or more digits. `None` where `s` is no such
/// text.
pub open spec fn signed_value(s: Seq<char>, min: int, max: int) -> Option<int> {
    let signed = s.len() > 0 && (s[0] == '+' || s[0] == '-');
    let d = if signed {
        s.drop_first()
    } else {
        s
    };
    let value = if s.len() > 0 && s[0] == '-' {
        -(digits_value(d) as int)
    } else {
        digits_value(d) as int
    };
    if d.len() > 0 && all_digits(d) && min <= value <= max {
        Some(value)
    } else {
        None
    }
}

/// The digit that stands for `d`.
pub open spec fn digit_char(d: nat) -> char {
    if d == 0 {
        '0'
    } else if d == 1 {
        '1'
    } else if d == 2 {
        '2'
    } else if d == 3 {
        '3'
    } else if d == 4 {
        '4'
    } else if d == 5 {
        '5'
    } else if d == 6 {
        '6'
    } else if d == 7 {
        '7'
    } else if d == 8 {
        '8'
    } else {
        '9'
    }
}

/// `n` written in base ten, without leading zeros.
pub open spec fn decimal(n: nat) -> Seq<char>
    decreases n,
{
    if n < 10 {
        seq![digit_char(n)]
    } else {
        decimal(n / 10).push(digit_char(n % 10))
    }
}

/// `i` written in base ten, with `-` in front where it is negative.
pub open spec fn decimal_int(i: int) -> Seq<char> {
    if i < 0 {
        seq!['-'] + decimal((-i) as nat)
    } else {
        decimal(i as nat)
    }
}

/// A prefix of a digit string is worth no more than the whole.
pub proof fn lemma_digits_value_prefix(s: Seq<char>, k: int)
    requires
        0 <= k <= s.len(),
    ensures
        digits_value(s.take(k)) <= digits_value(s),
    decreases s.len() - k,
{
    if k == s.len() {
        assert(s.take(k) =~= s);
    } else {
        lemma_digits_value_prefix(s.drop_last(), k);
        assert(s.drop_last().take(k) =~= s.take(k));
    }
}

/// What `decimal` writes is a non-empty digit string worth `n`.
pub proof fn lemma_decimal_value(n: nat)
    ensures
        decimal(n).len() > 0,
        all_digits(decimal(n)),
        digits_value(decimal(n)) == n,
    decreases n,
{
    if n < 10 {
        let s = decimal(n);
        assert(s.drop_last() =~= Seq::<char>::empty());
        assert(digits_value(s.drop_last()) == 0);
    } else {
        lemma_decimal_value(n / 10);
        let s = decimal(n);
        assert(s.drop_last() =~= decimal(n / 10));
        assert forall|k: int| 0 <= k < s.len() implies is_digit(#[trigger] s[k]) by {
            if k < s.len() - 1 {
                assert(s[k] == decimal(n / 10)[k]);
            }
        }
    }
}

/// Reads `v[from..to]` as a string of digits worth at most `max`.
pub fn parse_digits(v: &[char], from: usize, to: usize, max: u64) -> (r: Option<u64>)
    requires
        from <= to <= v.len(),
    ensures
        r is Some <==> from < to && all_digits(v@.subrange(from as int, to as int))
            && digits_value(v@.subrange(from as int, to as int)) <= max,
        r is Some ==> r.unwrap() == digits_value(v@.subrange(from as int, to as int)),
{
    if from == to {
        return None;
    }
    let ghost s = v@.subrange(from as int, to as int);
    let mut acc: u64 = 0;
    let mut i: usize = from;
    while i < to
        invariant
            from <= i <= to <= v.len(),
            s == v@.subrange(from as int, to as int),
            all_digits(s.take(i - from)),
            acc == digits_value(s.take(i - from)),
            acc <= max,
        decreases to - i,
    {
        let u: u32 = v[i] as u32;
        assert(s[i - from] == v@[i as int]);
        if u < 0x30 || u > 0x39 {
            assert(!is_digit(s[i - from]));
            return None;
        }
        let d: u64 = (u - 0x30) as u64;
        proof {
            let p = s.take(i - from + 1);
            assert(p.drop_last() =~= s.take(i - from));
            assert(p.last() == s[i - from]);
            assert(digits_value(p) == 10 * acc + d);
            lemma_digits_value_prefix(s, i - from + 1);
            assert forall|k: int| 0 <= k < p.len() implies is_digit(#[trigger] p[k]) by {
                if k < p.len() - 1 {
                    assert(p[k] == s.take(i - from)[k]);
                }
            }
        }
        if d > max || acc > (max - d) / 10 {
            return None;
        }
        acc = acc * 10 + d;
        i += 1;
    }
    assert(s.take(to - from) =~= s);
    Some(acc)
}

/// Reads `v[from..to]` as an unsigned number of at most `max`.
pub fn parse_unsigned(v: &[char], from: usize, to: usize, max: u64) -> (r: Option<u64>)
    requires
        from <= to <= v.len(),
    ensures
        r is Some <==> unsigned_value(v@.subrange(from as int, to as int), max as nat) is Some,
        r is Some ==> r.unwrap() == unsigned_value(
            v@.subrange(from as int, to as int),
            max as nat,
        ).unwrap(),
{
    let ghost s = v@.subrange(from as int, to as int);
    if from < to && v[from] == '+' {
        assert(s[0] == v@[from as int]);
        assert(s.drop_first() =~= v@.subrange(from + 1, to as int));
        parse_digits(v, from + 1, to, max)
    } else {
        if from < to {
            assert(s[0] == v@[from as int]);
        }
        parse_digits(v, from, to, max)
    }
}

/// Reads `v[from..to]` as a signed 32-bit number.
pub fn parse_i32(v: &[char], from: usize, to: usize) -> (r: Option<i32>)
    requires
        from <= to <= v.len(),
    ensures
        r is Some <==> signed_value(
            v@.subrange(from as int, to as int),
            i32::MIN as int,
            i32::MAX as int,
        ) is Some,
        r is Some ==> r.unwrap() == signed_value(
            v@.subrange(from as int, to as int),
            i32::MIN as int,
            i32::MAX as int,
        ).unwrap(),
{
    let ghost s = v@.subrange(from as int, to as int);
    if from < to {
        assert(s[0] == v@[from as int]);
        assert(s.drop_first() =~= v@.subrange(from + 1, to as int));
    }
    if from < to && v[from] == '-' {
        match parse_digits(v, from + 1, to, 2147483648) {
            Some(m) => {
                if m == 2147483648 {
                    Some(i32::MIN)
                } else {
                    Some(-(m as i32))
                }
            },
            None => None,
        }
    } else if from < to && v[from] == '+' {
        match parse_digits(v, from + 1, to, 2147483647) {
            Some(m) => Some(m as i32),
            None => None,
        }
    } else {
        match parse_digits(v, from, to, 2147483647) {
            Some(m) => Some(m as i32),
            None => None,
        }
    }
}

/// Writes `n` in base ten.
///
/// Calls `itoa::Buffer::format`, which prints an integer as its decimal
/// digits without sign or leading zeros; the contract states this as
/// `decimal`.
#[verifier::external_body]
pub(crate) fn format_u64(n: u64) -> (text: String)
    ensures
        text@ == decimal(n as nat),
{
    let mut buffer = itoa::Buffer::new();
    buffer.format(n).to_owned()
}

} // verus!
