//! Decimal numerals over ASCII digits.

use vstd::prelude::*;

verus! {

/// An ASCII decimal digit.
pub open spec fn is_digit(c: char) -> bool {
    '0' <= c && c <= '9'
}

/// Every character of `s` is an ASCII decimal digit.
pub open spec fn all_digits(s: Seq<char>) -> bool {
    forall|i: int| 0 <= i < s.len() ==> is_digit(#[trigger] s[i])
}

/// The number that the digit `c` stands for.
pub open spec fn digit_of(c: char) -> nat {
    (c as u32 - '0' as u32) as nat
}

/// The number that the decimal numeral `s` stands for; the empty numeral
/// stands for zero.
pub open spec fn digits_value(s: Seq<char>) -> nat
    decreases s.len(),
{
    if s.len() == 0 {
        0
    } else {
        digits_value(s.drop_last()) * 10 + digit_of(s.last())
    }
}

/// Ten to the `n`.
pub open spec fn pow10(n: nat) -> nat
    decreases n,
{
    if n == 0 {
        1
    } else {
        10 * pow10((n - 1) as nat)
    }
}

pub(crate) proof fn lemma_digits_value_push(s: Seq<char>, c: char)
    ensures
        digits_value(s.push(c)) == digits_value(s) * 10 + digit_of(c),
{
    assert(s.push(c).drop_last() =~= s);
}

/// A numeral of `n` digits stands for a number below ten to the `n`.
pub(crate) proof fn lemma_digits_value_bound(s: Seq<char>)
    requires
        all_digits(s),
    ensures
        digits_value(s) < pow10(s.len()),
    decreases s.len(),
{
    if s.len() > 0 {
        let t = s.drop_last();
        assert forall|i: int| 0 <= i < t.len() implies is_digit(#[trigger] t[i]) by {
            assert(t[i] == s[i]);
        }
        lemma_digits_value_bound(t);
        assert(is_digit(s[s.len() - 1]));
    }
}

/// A numeral stands for at least what any of its prefixes stands for.
proof fn lemma_digits_value_prefix(s: Seq<char>, k: int)
    requires
        0 <= k <= s.len(),
    ensures
        digits_value(s.take(k)) <= digits_value(s),
    decreases s.len(),
{
    if k < s.len() {
        let t = s.drop_last();
        lemma_digits_value_prefix(t, k);
        assert(t.take(k) =~= s.take(k));
    } else {
        assert(s.take(k) =~= s);
    }
}

pub fn is_digit_char(c: char) -> (r: bool)
    ensures
        r == is_digit(c),
{
    '0' <= c && c <= '9'
}

/// Whether `v[lo..hi]` holds digits only.
pub fn digits_in(v: &Vec<char>, lo: usize, hi: usize) -> (r: bool)
    requires
        lo <= hi <= v.len(),
    ensures
        r == all_digits(v@.subrange(lo as int, hi as int)),
{
    let ghost s = v@.subrange(lo as int, hi as int);
    let mut i: usize = lo;
    while i < hi
        invariant
            lo <= i <= hi <= v.len(),
            s == v@.subrange(lo as int, hi as int),
            forall|j: int| 0 <= j < i - lo ==> is_digit(#[trigger] s[j]),
        decreases hi - i,
    {
        if !is_digit_char(v[i]) {
            assert(s[i - lo] == v@[i as int]);
            return false;
        }
        assert(s[i - lo] == v@[i as int]);
        i += 1;
    }
    true
}

/// The number written in `v[lo..hi]`, where it fits in 64 bits.
pub fn value_of(v: &Vec<char>, lo: usize, hi: usize) -> (r: Option<u64>)
    requires
        lo <= hi <= v.len(),
        all_digits(v@.subrange(lo as int, hi as int)),
    ensures
        match r {
            Some(x) => x == digits_value(v@.subrange(lo as int, hi as int)),
            None => digits_value(v@.subrange(lo as int, hi as int)) > u64::MAX,
        },
{
    let ghost s = v@.subrange(lo as int, hi as int);
    let mut acc: u64 = 0;
    let mut i: usize = lo;
    assert(s.take(0) =~= Seq::<char>::empty());
    while i < hi
        invariant
            lo <= i <= hi <= v.len(),
            s == v@.subrange(lo as int, hi as int),
            all_digits(s),
            acc == digits_value(s.take(i - lo)),
        decreases hi - i,
    {
        let c = v[i];
        proof {
            assert(s[i - lo] == c);
            assert(is_digit(s[i - lo]));
            assert(s.take(i - lo + 1) =~= s.take(i - lo).push(c));
            lemma_digits_value_push(s.take(i - lo), c);
            lemma_digits_value_prefix(s, i - lo + 1);
        }
        let d: u64 = (c as u32 - '0' as u32) as u64;
        if acc > (u64::MAX - d) / 10 {
            return None;
        }
        acc = acc * 10 + d;
        i += 1;
    }
    assert(s.take(hi - lo) =~= s);
    Some(acc)
}

/// An unsigned decimal numeral as the standard integer parser reads it: an
/// optional `+`, then at least one digit, standing for a number that fits in
/// 64 bits.
pub open spec fn unsigned_of(s: Seq<char>) -> Option<u64> {
    let body = if s.len() > 0 && s[0] == '+' {
        s.skip(1)
    } else {
        s
    };
    if body.len() > 0 && all_digits(body) && digits_value(body) <= u64::MAX {
        Some(digits_value(body) as u64)
    } else {
        None
    }
}

/// A signed decimal numeral as the standard integer parser reads it: an
/// optional `+` or `-`, then at least one digit, standing for a number that
/// fits in 64 bits with its sign.
pub open spec fn signed_of(s: Seq<char>) -> Option<i64> {
    let negative = s.len() > 0 && s[0] == '-';
    let body = if s.len() > 0 && (s[0] == '+' || s[0] == '-') {
        s.skip(1)
    } else {
        s
    };
    if body.len() > 0 && all_digits(body) {
        let magnitude = digits_value(body);
        if negative && magnitude <= 0x8000_0000_0000_0000 {
            Some((0 - magnitude) as i64)
        } else if !negative && magnitude <= i64::MAX {
            Some(magnitude as i64)
        } else {
            None
        }
    } else {
        None
    }
}

/// Reads `v[lo..hi]` as an unsigned numeral.
pub fn read_unsigned(v: &Vec<char>, lo: usize, hi: usize) -> (r: Option<u64>)
    requires
        lo <= hi <= v.len(),
    ensures
        r == unsigned_of(v@.subrange(lo as int, hi as int)),
{
    let ghost s = v@.subrange(lo as int, hi as int);
    let from: usize = if lo < hi && v[lo] == '+' {
        lo + 1
    } else {
        lo
    };
    proof {
        if lo < hi {
            assert(s[0] == v@[lo as int]);
        }
        assert(v@.subrange(from as int, hi as int) =~= if s.len() > 0 && s[0] == '+' {
            s.skip(1)
        } else {
            s
        });
    }
    if from == hi || !digits_in(v, from, hi) {
        return None;
    }
    value_of(v, from, hi)
}

/// Reads `v[lo..hi]` as a signed numeral.
pub fn read_signed(v: &Vec<char>, lo: usize, hi: usize) -> (r: Option<i64>)
    requires
        lo <= hi <= v.len(),
    ensures
        r == signed_of(v@.subrange(lo as int, hi as int)),
{
    let ghost s = v@.subrange(lo as int, hi as int);
    let negative = lo < hi && v[lo] == '-';
    let from: usize = if lo < hi && (v[lo] == '+' || v[lo] == '-') {
        lo + 1
    } else {
        lo
    };
    proof {
        if lo < hi {
            assert(s[0] == v@[lo as int]);
        }
        assert(v@.subrange(from as int, hi as int) =~= if s.len() > 0 && (s[0] == '+' || s[0]
            == '-') {
            s.skip(1)
        } else {
            s
        });
    }
    if from == hi || !digits_in(v, from, hi) {
        return None;
    }
    match value_of(v, from, hi) {
        None => None,
        Some(m) => {
            if negative {
                if m > 0x8000_0000_0000_0000 {
                    None
                } else if m == 0x8000_0000_0000_0000 {
                    Some(i64::MIN)
                } else {
                    Some(0 - (m as i64))
                }
            } else if m > 0x7fff_ffff_ffff_ffff {
                None
            } else {
                Some(m as i64)
            }
        },
    }
}

/// The digit that stands for `d`, which is below ten.
pub open spec fn digit_char(d: nat) -> char {
    if d == 0 {
        '0'
    } else if d == 1 {
        '1'
    } else if d == 2 {
        '2'
    } else if d == 3 {
        '3'
    } else if d == 4 {
        '4'
    } else if d == 5 {
        '5'
    } else if d == 6 {
        '6'
    } else if d == 7 {
        '7'
    } else if d == 8 {
        '8'
    } else {
        '9'
    }
}

/// The decimal numeral of `n`, without leading zeros.
pub open spec fn decimal_of(n: nat) -> Seq<char>
    decreases n,
{
    if n < 10 {
        seq![digit_char(n)]
    } else {
        decimal_of(n / 10).push(digit_char(n % 10))
    }
}

/// The decimal numeral of the signed number `n`: a minus sign before the
/// numeral of its magnitude where it is negative.
pub open spec fn signed_decimal_of(n: int) -> Seq<char> {
    if n < 0 {
        seq!['-'] + decimal_of((0 - n) as nat)
    } else {
        decimal_of(n as nat)
    }
}

/// The decimal numeral of a number is made of digits and stands for that
/// number.
pub proof fn lemma_decimal_reads_back(n: nat)
    ensures
        decimal_of(n).len() >= 1,
        all_digits(decimal_of(n)),
        digits_value(decimal_of(n)) == n,
    decreases n,
{
    if n < 10 {
        let s = seq![digit_char(n)];
        assert(s.drop_last() =~= Seq::<char>::empty());
        assert(digits_value(s.drop_last()) == 0);
        assert(digit_of(s.last()) == n);
    } else {
        lemma_decimal_reads_back(n / 10);
        let t = decimal_of(n / 10);
        let c = digit_char(n % 10);
        lemma_digits_value_push(t, c);
        assert(digit_of(c) == n % 10);
        assert forall|i: int| 0 <= i < t.push(c).len() implies is_digit(#[trigger] t.push(c)[i]) by {
            if i < t.len() {
                assert(t.push(c)[i] == t[i]);
            }
        }
    }
}

fn digit_for(d: u64) -> (c: char)
    requires
        d < 10,
    ensures
        c == digit_char(d as nat),
{
    if d == 0 {
        '0'
    } else if d == 1 {
        '1'
    } else if d == 2 {
        '2'
    } else if d == 3 {
        '3'
    } else if d == 4 {
        '4'
    } else if d == 5 {
        '5'
    } else if d == 6 {
        '6'
    } else if d == 7 {
        '7'
    } else if d == 8 {
        '8'
    } else {
        '9'
    }
}

/// Appends the decimal numeral of `n` to `out`.
pub fn push_decimal(out: &mut Vec<char>, n: u64)
    ensures
        final(out)@ == old(out)@ + decimal_of(n as nat),
    decreases n,
{
    if n < 10 {
        out.push(digit_for(n));
        assert(out@ =~= old(out)@ + decimal_of(n as nat));
    } else {
        push_decimal(out, n / 10);
        out.push(digit_for(n % 10));
        assert(out@ =~= old(out)@ + decimal_of(n as nat));
    }
}

/// Appends the decimal numeral of the signed number `n` to `out`.
pub fn push_signed_decimal(out: &mut Vec<char>, n: i64)
    ensures
        final(out)@ == old(out)@ + signed_decimal_of(n as int),
{
    if n < 0 {
        out.push('-');
        let magnitude: u64 = if n == i64::MIN {
            0x8000_0000_0000_0000
        } else {
            (0 - n) as u64
        };
        push_decimal(out, magnitude);
        assert(out@ =~= old(out)@ + signed_decimal_of(n as int));
    } else {
        push_decimal(out, n as u64);
    }
}

} // verus!
