//! Decimal text of integers: reading it and writing it.

use vstd::prelude::*;
use vstd::std_specs::iter::IteratorSpec;

verus! {

/// Whether `c` is one of the ten ASCII decimal digits.
pub open spec fn is_digit(c: char) -> bool {
    '0' <= c <= '9'
}

/// The number a decimal digit stands for.
pub open spec fn digit_value(c: char) -> nat {
    (c as nat - '0' as nat) as nat
}

/// The character that writes the digit `d`.
pub open spec fn digit_char(d: nat) -> char {
    ('0' as nat + d) as char
}

/// Whether every character of `s` is a decimal digit.
pub open spec fn all_digits(s: Seq<char>) -> bool {
    forall|i: int| 0 <= i < s.len() ==> is_digit(#[trigger] s[i])
}

/// The number written by a run of decimal digits, most significant first.
pub open spec fn digits_value(s: Seq<char>) -> nat
    decreases s.len(),
{
    if s.len() == 0 {
        0
    } else {
        digits_value(s.drop_last()) * 10 + digit_value(s.last())
    }
}

/// The integer that `s` writes: an optional sign, then one digit or more.
/// `None` for any other text. A minus sign is read only where `signed` is set.
pub open spec fn parse_decimal(s: Seq<char>, signed: bool) -> Option<int> {
    let negative = signed && s.len() > 0 && s[0] == '-';
    let body = if s.len() > 0 && (s[0] == '+' || negative) {
        s.skip(1)
    } else {
        s
    };
    if body.len() > 0 && all_digits(body) {
        Some(
            if negative {
                -(digits_value(body) as int)
            } else {
                digits_value(body) as int
            },
        )
    } else {
        None
    }
}

/// A longer run of digits never writes a smaller number than its beginning.
pub proof fn lemma_digits_value_prefix(s: Seq<char>, k: int)
    requires
        0 <= k <= s.len(),
    ensures
        digits_value(s.take(k)) <= digits_value(s),
    decreases s.len() - k,
{
    if k < s.len() {
        lemma_digits_value_prefix(s, k + 1);
        assert(s.take(k + 1).drop_last() =~= s.take(k));
    } else {
        assert(s.take(k) =~= s);
    }
}

/// The integer of `parse_decimal`, where it lies between `-below` and `above`.
pub open spec fn parse_bounded(s: Seq<char>, signed: bool, below: nat, above: nat) -> Option<int> {
    match parse_decimal(s, signed) {
        Some(v) => if -(below as int) <= v <= above as int {
            Some(v)
        } else {
            None
        },
        None => None,
    }
}

/// Reads the decimal integer that `s` writes, as its sign and its magnitude.
/// The magnitude may reach `above`, and `below` where a minus sign leads.
fn read_decimal(s: &str, signed: bool, below: u64, above: u64) -> (r: Option<(bool, u64)>)
    ensures
        match parse_bounded(s@, signed, below as nat, above as nat) {
            Some(v) => r == Some((signed && s@[0] == '-', vstd::math::abs(v) as u64)),
            None => r is None,
        },
{
    broadcast use vstd::string::group_string_axioms;

    let mut chars = s.chars();
    let mut negative = false;
    let mut acc: u64 = 0;
    let mut limit = above;
    let mut seen = false;
    let ghost mut k: int = 0;
    let ghost mut start: int = 0;
    match chars.next() {
        None => {
            return None;
        },
        Some(c) => {
            if c == '+' || (signed && c == '-') {
                negative = c == '-';
                if negative {
                    limit = below;
                }
                proof {
                    start = 1;
                }
            } else if c >= '0' && c <= '9' {
                acc = (c as u32 - '0' as u32) as u64;
                seen = true;
                assert(s@.take(1).drop_last() =~= Seq::<char>::empty());
                if acc > limit {
                    proof {
                        lemma_digits_value_prefix(s@, 1);
                    }
                    return None;
                }
            } else {
                return None;
            }
            proof {
                k = 1;
            }
        },
    }
    let ghost body = if start == 1 {
        s@.skip(1)
    } else {
        s@
    };
    proof {
        assert(digits_value(Seq::<char>::empty()) == 0);
        if start == 0 {
            assert(body.take(1).drop_last() =~= Seq::<char>::empty());
            assert(body.take(1).last() == s@[0]);
            assert(acc == digit_value(s@[0]));
            assert(digits_value(body.take(1)) == digit_value(s@[0]));
        } else {
            assert(body.take(0) =~= Seq::<char>::empty());
        }
    }
    loop
        invariant
            s@.len() > 0,
            0 <= start <= k <= s@.len(),
            start == 0 || start == 1,
            start == 1 <==> (s@[0] == '+' || (signed && s@[0] == '-')),
            negative == (signed && s@[0] == '-'),
            limit == (if negative { below } else { above }),
            chars.remaining() == s@.skip(k),
            body == (if start == 1 { s@.skip(1) } else { s@ }),
            all_digits(body.take(k - start)),
            acc == digits_value(body.take(k - start)),
            acc <= limit,
            seen == (k > start),
        decreases s@.len() - k,
    {
        match chars.next() {
            None => {
                assert(body.take(k - start) =~= body);
                if !seen {
                    return None;
                }
                return Some((negative, acc));
            },
            Some(c) => {
                assert(body[k - start] == c);
                assert(body.take(k - start + 1).drop_last() =~= body.take(k - start));
                if !(c >= '0' && c <= '9') {
                    return None;
                }
                let d: u64 = (c as u32 - '0' as u32) as u64;
                proof {
                    lemma_digits_value_prefix(body, k - start + 1);
                }
                if acc > limit / 10 || d > limit - acc * 10 {
                    return None;
                }
                acc = acc * 10 + d;
                seen = true;
                proof {
                    k = k + 1;
                }
            },
        }
    }
}

/// The integer that `s` writes, where a signed 64-bit integer holds it.
pub open spec fn parse_i64_text(s: Seq<char>) -> Option<int> {
    parse_bounded(s, true, 0x8000_0000_0000_0000, 0x7fff_ffff_ffff_ffff)
}

/// The integer that `s` writes without a minus sign, where an unsigned
/// machine-size integer holds it.
pub open spec fn parse_usize_text(s: Seq<char>) -> Option<int> {
    parse_bounded(s, false, 0, usize::MAX as nat)
}

/// Reads `s` as a signed 64-bit integer: an optional `+` or `-`, then decimal
/// digits, the whole within the type's range.
pub fn parse_i64(s: &str) -> (r: Option<i64>)
    ensures
        match parse_i64_text(s@) {
            Some(v) => r == Some(v as i64),
            None => r is None,
        },
{
    match read_decimal(s, true, 0x8000_0000_0000_0000, 0x7fff_ffff_ffff_ffff) {
        None => None,
        Some((negative, magnitude)) => {
            if negative {
                if magnitude == 0x8000_0000_0000_0000 {
                    Some(i64::MIN)
                } else {
                    Some(-(magnitude as i64))
                }
            } else {
                Some(magnitude as i64)
            }
        },
    }
}

/// Reads `s` as an unsigned machine-size integer: an optional `+`, then
/// decimal digits, the whole within the type's range.
pub fn parse_usize(s: &str) -> (r: Option<usize>)
    ensures
        match parse_usize_text(s@) {
            Some(v) => r == Some(v as usize),
            None => r is None,
        },
{
    match read_decimal(s, false, 0, usize::MAX as u64) {
        None => None,
        Some((_, magnitude)) => Some(magnitude as usize),
    }
}

/// The decimal digits that write `n`, most significant first, with no
/// leading zero.
pub open spec fn decimal(n: nat) -> Seq<char>
    decreases n,
{
    if n < 10 {
        seq![digit_char(n)]
    } else {
        decimal(n / 10).push(digit_char(n % 10))
    }
}

/// The decimal text of an integer: a minus sign where it is negative, then
/// the digits of its magnitude.
pub open spec fn signed_decimal(v: int) -> Seq<char> {
    if v < 0 {
        seq!['-'] + decimal((-v) as nat)
    } else {
        decimal(v as nat)
    }
}

/// What `decimal` writes is digits only, and reads back as the same number.
pub proof fn lemma_decimal_reads_back(n: nat)
    ensures
        decimal(n).len() > 0,
        all_digits(decimal(n)),
        digits_value(decimal(n)) == n,
    decreases n,
{
    if n < 10 {
        assert(decimal(n).drop_last() =~= Seq::<char>::empty());
        assert(digits_value(Seq::<char>::empty()) == 0);
    } else {
        lemma_decimal_reads_back(n / 10);
        assert(decimal(n).drop_last() =~= decimal(n / 10));
    }
}

/// The text written for an integer reads back as that integer.
pub proof fn lemma_signed_decimal_reads_back(v: int)
    ensures
        parse_decimal(signed_decimal(v), true) == Some(v),
{
    if v < 0 {
        lemma_decimal_reads_back((-v) as nat);
        assert(signed_decimal(v).skip(1) =~= decimal((-v) as nat));
    } else {
        lemma_decimal_reads_back(v as nat);
    }
}

fn digit_text(d: u64) -> (s: &'static str)
    requires
        d < 10,
    ensures
        s@ == seq![digit_char(d as nat)],
{
    proof {
        reveal_strlit("0");
        reveal_strlit("1");
        reveal_strlit("2");
        reveal_strlit("3");
        reveal_strlit("4");
        reveal_strlit("5");
        reveal_strlit("6");
        reveal_strlit("7");
        reveal_strlit("8");
        reveal_strlit("9");
    }
    let s = if d == 0 {
        "0"
    } else if d == 1 {
        "1"
    } else if d == 2 {
        "2"
    } else if d == 3 {
        "3"
    } else if d == 4 {
        "4"
    } else if d == 5 {
        "5"
    } else if d == 6 {
        "6"
    } else if d == 7 {
        "7"
    } else if d == 8 {
        "8"
    } else {
        "9"
    };
    assert(s@ =~= seq![digit_char(d as nat)]);
    s
}

/// Writes `n` in decimal.
pub fn u64_to_string(n: u64) -> (s: String)
    ensures
        s@ == decimal(n as nat),
    decreases n,
{
    if n < 10 {
        digit_text(n).to_owned()
    } else {
        let mut s = u64_to_string(n / 10);
        s.append(digit_text(n % 10));
        assert(s@ =~= decimal(n as nat));
        s
    }
}

/// Writes `n` in decimal, with a leading minus sign where it is negative.
pub fn i64_to_string(n: i64) -> (s: String)
    ensures
        s@ == signed_decimal(n as int),
{
    if n < 0 {
        let magnitude: u64 = if n == i64::MIN {
            0x8000_0000_0000_0000
        } else {
            (-n) as u64
        };
        proof {
            reveal_strlit("-");
        }
        let s = "-".to_owned().concat(u64_to_string(magnitude).as_str());
        assert(s@ =~= signed_decimal(n as int));
        s
    } else {
        u64_to_string(n as u64)
    }
}

} // verus!
