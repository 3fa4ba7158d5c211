//! Integers written in decimal.
use vstd::prelude::*;

verus! {

pub open spec fn is_digit(b: u8) -> bool {
    48 <= b <= 57
}

pub open spec fn all_digits(s: Seq<u8>) -> bool {
    forall|i: int| 0 <= i < s.len() ==> is_digit(#[trigger] s[i])
}

/// The value of a string of decimal digits.
pub open spec fn decimal_value(s: Seq<u8>) -> nat
    decreases s.len(),
{
    if s.len() == 0 {
        0
    } else {
        10 * decimal_value(s.drop_last()) + (s.last() - 48) as nat
    }
}

/// The number that a string stands for, if it is made of decimal digits and not empty.
pub open spec fn numeral(s: Seq<u8>) -> Option<nat> {
    if s.len() > 0 && all_digits(s) {
        Some(decimal_value(s))
    } else {
        None
    }
}

/// The number that a string stands for, if it is a numeral that a plus sign may precede, and a
/// minus sign where numbers have one.
pub open spec fn integer_of(s: Seq<u8>, signed: bool) -> Option<int> {
    if s.len() > 0 && s[0] == 43 {
        match numeral(s.skip(1)) {
            Some(v) => Some(v as int),
            None => None,
        }
    } else if signed && s.len() > 0 && s[0] == 45 {
        match numeral(s.skip(1)) {
            Some(v) => Some(-v),
            None => None,
        }
    } else {
        match numeral(s) {
            Some(v) => Some(v as int),
            None => None,
        }
    }
}

/// A number, if it lies between `lo` and `hi`.
pub open spec fn within(v: Option<int>, lo: int, hi: int) -> Option<int> {
    match v {
        Some(x) => if lo <= x <= hi {
            Some(x)
        } else {
            None
        },
        None => None,
    }
}

pub open spec fn i64_of(s: Seq<u8>) -> Option<i64> {
    match within(integer_of(s, true), i64::MIN as int, i64::MAX as int) {
        Some(v) => Some(v as i64),
        None => None,
    }
}

pub open spec fn isize_of(s: Seq<u8>) -> Option<isize> {
    match within(integer_of(s, true), isize::MIN as int, isize::MAX as int) {
        Some(v) => Some(v as isize),
        None => None,
    }
}

pub open spec fn u64_of(s: Seq<u8>) -> Option<u64> {
    match within(integer_of(s, false), 0, u64::MAX as int) {
        Some(v) => Some(v as u64),
        None => None,
    }
}

pub open spec fn u128_of(s: Seq<u8>) -> Option<u128> {
    match within(integer_of(s, false), 0, u128::MAX as int) {
        Some(v) => Some(v as u128),
        None => None,
    }
}

pub open spec fn i128_of(s: Seq<u8>) -> Option<i128> {
    match within(integer_of(s, true), i128::MIN as int, i128::MAX as int) {
        Some(v) => Some(v as i128),
        None => None,
    }
}

pub open spec fn usize_of(s: Seq<u8>) -> Option<usize> {
    match within(integer_of(s, false), 0, usize::MAX as int) {
        Some(v) => Some(v as usize),
        None => None,
    }
}

pub open spec fn u32_of(s: Seq<u8>) -> Option<u32> {
    match within(integer_of(s, false), 0, u32::MAX as int) {
        Some(v) => Some(v as u32),
        None => None,
    }
}

pub open spec fn u16_of(s: Seq<u8>) -> Option<u16> {
    match within(integer_of(s, false), 0, u16::MAX as int) {
        Some(v) => Some(v as u16),
        None => None,
    }
}

pub open spec fn u8_of(s: Seq<u8>) -> Option<u8> {
    match within(integer_of(s, false), 0, u8::MAX as int) {
        Some(v) => Some(v as u8),
        None => None,
    }
}

/// A longer string of digits has no smaller value.
pub proof fn lemma_value_grows(s: Seq<u8>, k: int)
    requires
        all_digits(s),
        0 <= k <= s.len(),
    ensures
        decimal_value(s.take(k)) <= decimal_value(s),
    decreases s.len(),
{
    if k == s.len() {
        assert(s.take(k) =~= s);
    } else {
        let t = s.drop_last();
        assert forall|i: int| 0 <= i < t.len() implies is_digit(#[trigger] t[i]) by {
            assert(t[i] == s[i]);
        }
        lemma_value_grows(t, k);
        assert(t.take(k) =~= s.take(k));
        assert(is_digit(s[s.len() - 1]));
    }
}

/// The value of the digits from `from` on, if they are all digits, there is one, and the value
/// fits in 128 bits.
fn magnitude(s: &[u8], from: usize) -> (r: Option<u128>)
    requires
        from <= s.len(),
    ensures
        match r {
            Some(v) => numeral(s@.skip(from as int)) == Some(v as nat),
            None => match numeral(s@.skip(from as int)) {
                Some(v) => v > u128::MAX,
                None => true,
            },
        },
{
    let ghost t = s@.skip(from as int);
    if from == s.len() {
        return None;
    }
    let mut acc: u128 = 0;
    let mut i: usize = from;
    while i < s.len()
        invariant
            from < s.len(),
            from <= i <= s.len(),
            t == s@.skip(from as int),
            all_digits(t.take(i - from)),
            acc == decimal_value(t.take(i - from)),
        decreases s.len() - i,
    {
        let b: u8 = s[i];
        let ghost k = i - from;
        assert(t[k] == b);
        if b < 48 || b > 57 {
            assert(!is_digit(t[k]));
            return None;
        }
        let d: u128 = (b - 48) as u128;
        assert(t.take(k + 1).drop_last() =~= t.take(k));
        assert(t.take(k + 1).last() == b);
        assert forall|j: int| 0 <= j < k + 1 implies is_digit(#[trigger] t.take(k + 1)[j]) by {
            if j < k {
                assert(is_digit(t.take(k)[j]));
            }
        }
        if acc > 34028236692093846346337460743176821145 || (acc == 34028236692093846346337460743176821145 && d > 5) {
            proof {
                if all_digits(t) {
                    lemma_value_grows(t, k + 1);
                }
            }
            return None;
        }
        acc = acc * 10 + d;
        i = i + 1;
    }
    assert(t.take(i - from) =~= t);
    Some(acc)
}

/// `parse::<usize>` of a digit string with no sign.
pub fn parse_decimal_bytes(bytes: &[u8]) -> (r: Option<usize>)
    ensures
        match numeral(bytes@) {
            Some(v) => if v <= usize::MAX {
                r == Some(v as usize)
            } else {
                r is None
            },
            None => r is None,
        },
{
    assert(bytes@.skip(0) =~= bytes@);
    match magnitude(bytes, 0) {
        Some(v) => if v <= usize::MAX as u128 {
            Some(v as usize)
        } else {
            None
        },
        None => None,
    }
}

/// The magnitude of an integer without a minus sign, if it fits in 128 bits.
fn unsigned(s: &[u8]) -> (r: Option<u128>)
    ensures
        match r {
            Some(v) => integer_of(s@, false) == Some(v as int),
            None => match integer_of(s@, false) {
                Some(v) => v > u128::MAX,
                None => true,
            },
        },
{
    if s.len() > 0 && s[0] == 43 {
        magnitude(s, 1)
    } else {
        assert(s@.skip(0) =~= s@);
        magnitude(s, 0)
    }
}

pub(crate) fn read_i64(s: &[u8]) -> (r: Option<i64>)
    ensures
        r == i64_of(s@),
{
    if s.len() > 0 && s[0] == 45 {
        match magnitude(s, 1) {
            Some(v) => if v <= 9223372036854775807 {
                Some(-(v as i64))
            } else if v == 9223372036854775808 {
                Some(i64::MIN)
            } else {
                None
            },
            None => None,
        }
    } else {
        assert(integer_of(s@, true) == integer_of(s@, false));
        match unsigned(s) {
            Some(v) => if v <= 9223372036854775807 {
                Some(v as i64)
            } else {
                None
            },
            None => None,
        }
    }
}

pub(crate) fn read_isize(s: &[u8]) -> (r: Option<isize>)
    ensures
        r == isize_of(s@),
{
    match read_i64(s) {
        Some(v) => if isize::MIN as i64 <= v && v <= isize::MAX as i64 {
            Some(v as isize)
        } else {
            None
        },
        None => None,
    }
}

pub(crate) fn read_u64(s: &[u8]) -> (r: Option<u64>)
    ensures
        r == u64_of(s@),
{
    match unsigned(s) {
        Some(v) => if v <= 18446744073709551615 {
            Some(v as u64)
        } else {
            None
        },
        None => None,
    }
}

pub(crate) fn read_u128(s: &[u8]) -> (r: Option<u128>)
    ensures
        r == u128_of(s@),
{
    unsigned(s)
}

pub(crate) fn read_i128(s: &[u8]) -> (r: Option<i128>)
    ensures
        r == i128_of(s@),
{
    if s.len() > 0 && s[0] == 45 {
        match magnitude(s, 1) {
            Some(v) => if v <= 170141183460469231731687303715884105727 {
                Some(-(v as i128))
            } else if v == 170141183460469231731687303715884105728 {
                Some(i128::MIN)
            } else {
                None
            },
            None => None,
        }
    } else {
        assert(integer_of(s@, true) == integer_of(s@, false));
        match unsigned(s) {
            Some(v) => if v <= 170141183460469231731687303715884105727 {
                Some(v as i128)
            } else {
                None
            },
            None => None,
        }
    }
}

pub(crate) fn read_usize(s: &[u8]) -> (r: Option<usize>)
    ensures
        r == usize_of(s@),
{
    match unsigned(s) {
        Some(v) => if v <= usize::MAX as u128 {
            Some(v as usize)
        } else {
            None
        },
        None => None,
    }
}

pub(crate) fn read_u32(s: &[u8]) -> (r: Option<u32>)
    ensures
        r == u32_of(s@),
{
    match unsigned(s) {
        Some(v) => if v <= 4294967295 {
            Some(v as u32)
        } else {
            None
        },
        None => None,
    }
}

pub(crate) fn read_u16(s: &[u8]) -> (r: Option<u16>)
    ensures
        r == u16_of(s@),
{
    match unsigned(s) {
        Some(v) => if v <= 65535 {
            Some(v as u16)
        } else {
            None
        },
        None => None,
    }
}

pub(crate) fn read_u8(s: &[u8]) -> (r: Option<u8>)
    ensures
        r == u8_of(s@),
{
    match unsigned(s) {
        Some(v) => if v <= 255 {
            Some(v as u8)
        } else {
            None
        },
        None => None,
    }
}

/// The value of a hexadecimal digit, in either case.
pub open spec fn hex_digit(b: u8) -> Option<nat> {
    if 48 <= b <= 57 {
        Some((b - 48) as nat)
    } else if 65 <= b <= 70 {
        Some((b - 55) as nat)
    } else if 97 <= b <= 102 {
        Some((b - 87) as nat)
    } else {
        None
    }
}

/// The value of hexadecimal digits, if the string is made of them; that of none is zero.
pub open spec fn hex_value(s: Seq<u8>) -> Option<nat>
    decreases s.len(),
{
    if s.len() == 0 {
        Some(0)
    } else {
        match (hex_value(s.drop_last()), hex_digit(s.last())) {
            (Some(v), Some(d)) => Some(16 * v + d),
            _ => None,
        }
    }
}

/// The number that hexadecimal digits stand for, behind a plus sign or not, if it fits in 128
/// bits.
pub open spec fn hexadecimal_of(s: Seq<u8>) -> Option<u128> {
    let t = if s.len() > 0 && s[0] == 43 {
        s.skip(1)
    } else {
        s
    };
    match hex_value(t) {
        Some(v) => if t.len() > 0 && v <= u128::MAX {
            Some(v as u128)
        } else {
            None
        },
        None => None,
    }
}

proof fn lemma_hex_value_grows(s: Seq<u8>, k: int)
    requires
        0 <= k <= s.len(),
    ensures
        hex_value(s) is Some ==> hex_value(s.take(k)) is Some,
        hex_value(s) is Some ==> hex_value(s.take(k))->0 <= hex_value(s)->0,
    decreases s.len(),
{
    if k == s.len() {
        assert(s.take(k) =~= s);
    } else {
        lemma_hex_value_grows(s.drop_last(), k);
        assert(s.drop_last().take(k) =~= s.take(k));
    }
}

fn read_hex_digit(b: u8) -> (r: Option<u128>)
    ensures
        match r {
            Some(d) => hex_digit(b) == Some(d as nat) && d < 16,
            None => hex_digit(b) is None,
        },
{
    if 48 <= b && b <= 57 {
        Some((b - 48) as u128)
    } else if 65 <= b && b <= 70 {
        Some((b - 55) as u128)
    } else if 97 <= b && b <= 102 {
        Some((b - 87) as u128)
    } else {
        None
    }
}

pub(crate) fn read_hexadecimal(s: &[u8]) -> (r: Option<u128>)
    ensures
        r == hexadecimal_of(s@),
{
    let from: usize = if s.len() > 0 && s[0] == 43 {
        1
    } else {
        0
    };
    let ghost t = s@.skip(from as int);
    assert(from == 0 ==> t =~= s@);
    if from == s.len() {
        return None;
    }
    let mut acc: u128 = 0;
    let mut i: usize = from;
    while i < s.len()
        invariant
            from < s.len(),
            from <= i <= s.len(),
            t == s@.skip(from as int),
            t == (if s@.len() > 0 && s@[0] == 43 {
                s@.skip(1)
            } else {
                s@
            }),
            hex_value(t.take(i - from)) == Some(acc as nat),
        decreases s.len() - i,
    {
        let ghost k = i - from;
        assert(t.take(k + 1).drop_last() =~= t.take(k));
        assert(t.take(k + 1).last() == s@[i as int]);
        proof {
            lemma_hex_value_grows(t, k + 1);
        }
        match read_hex_digit(s[i]) {
            None => {
                return None;
            },
            Some(d) => {
                if acc > 21267647932558653966460912964485513215 {
                    return None;
                }
                acc = acc * 16 + d;
            },
        }
        i = i + 1;
    }
    assert(t.take(i - from) =~= t);
    Some(acc)
}

/// The decimal digits of a number, the most significant first.
pub open spec fn decimal_digits(n: nat) -> Seq<u8>
    decreases n,
{
    if n < 10 {
        seq![(48 + n) as u8]
    } else {
        decimal_digits(n / 10).push((48 + n % 10) as u8)
    }
}

/// Appends the decimal digits of `n`.
pub(crate) fn push_decimal(out: &mut Vec<u8>, n: u64)
    ensures
        final(out)@ == old(out)@ + decimal_digits(n as nat),
    decreases n,
{
    if n < 10 {
        out.push((48 + n) as u8);
        assert(out@ =~= old(out)@ + decimal_digits(n as nat));
    } else {
        push_decimal(out, n / 10);
        out.push((48 + n % 10) as u8);
        assert(out@ =~= old(out)@ + decimal_digits(n as nat));
    }
}

/// The decimal digits of a number read back as that number.
pub proof fn law_digits_read_back(n: nat)
    ensures
        numeral(decimal_digits(n)) == Some(n),
    decreases n,
{
    let s = decimal_digits(n);
    if n < 10 {
        assert(s.drop_last() =~= Seq::<u8>::empty());
        assert(decimal_value(s.drop_last()) == 0);
        assert(is_digit(s[0]));
    } else {
        law_digits_read_back(n / 10);
        assert(s.drop_last() =~= decimal_digits(n / 10));
        assert forall|i: int| 0 <= i < s.len() implies is_digit(#[trigger] s[i]) by {
            if i < s.len() - 1 {
                assert(is_digit(decimal_digits(n / 10)[i]));
            }
        }
    }
}

} // verus!
