//! Decimal text: rendering unsigned and signed integers as decimal
//! strings, and reading an unsigned integer back from a byte buffer that
//! may carry surrounding whitespace (the shape of a version-hint file).

use crate::errors::ErrorCode;
use vstd::prelude::*;

verus! {

/// The decimal digit character for `d`.
pub open spec fn digit_char(d: int) -> char {
    if d == 0 {
        '0'
    } else if d == 1 {
        '1'
    } else if d == 2 {
        '2'
    } else if d == 3 {
        '3'
    } else if d == 4 {
        '4'
    } else if d == 5 {
        '5'
    } else if d == 6 {
        '6'
    } else if d == 7 {
        '7'
    } else if d == 8 {
        '8'
    } else {
        '9'
    }
}

/// The decimal digits of `n`, most significant first.
pub open spec fn u64_dec(n: nat) -> Seq<char>
    decreases n,
{
    if n < 10 {
        seq![digit_char(n as int)]
    } else {
        u64_dec(n / 10) + seq![digit_char((n % 10) as int)]
    }
}

/// The decimal rendering of a signed value: a minus sign before the digits
/// of its magnitude when it is negative.
pub open spec fn i64_dec(v: int) -> Seq<char> {
    if v < 0 {
        seq!['-'] + u64_dec((-v) as nat)
    } else {
        u64_dec(v as nat)
    }
}

/// The one-character string for decimal digit `d`.
fn digit_str(d: u64) -> (r: &'static str)
    requires
        d < 10,
    ensures
        r@ == seq![digit_char(d as int)],
{
    proof {
        reveal_strlit("0");
        reveal_strlit("1");
        reveal_strlit("2");
        reveal_strlit("3");
        reveal_strlit("4");
        reveal_strlit("5");
        reveal_strlit("6");
        reveal_strlit("7");
        reveal_strlit("8");
        reveal_strlit("9");
    }
    if d == 0 {
        "0"
    } else if d == 1 {
        "1"
    } else if d == 2 {
        "2"
    } else if d == 3 {
        "3"
    } else if d == 4 {
        "4"
    } else if d == 5 {
        "5"
    } else if d == 6 {
        "6"
    } else if d == 7 {
        "7"
    } else if d == 8 {
        "8"
    } else {
        "9"
    }
}

/// Appends the decimal digits of `n`.
pub fn push_u64_dec(s: &mut String, n: u64)
    ensures
        final (s)@ == old(s)@ + u64_dec(n as nat),
    decreases n,
{
    if n < 10 {
        s.append(digit_str(n));
        proof {
            assert(s@ =~= old(s)@ + u64_dec(n as nat));
        }
    } else {
        push_u64_dec(s, n / 10);
        s.append(digit_str(n % 10));
        proof {
            assert(s@ =~= old(s)@ + u64_dec(n as nat));
        }
    }
}

/// The decimal string of `n`.
pub fn u64_to_string(n: u64) -> (s: String)
    ensures
        s@ == u64_dec(n as nat),
{
    let mut s = String::new();
    push_u64_dec(&mut s, n);
    proof {
        assert(s@ =~= u64_dec(n as nat));
    }
    s
}

/// The decimal string of a signed value.
pub fn i64_to_string(v: i64) -> (s: String)
    ensures
        s@ == i64_dec(v as int),
{
    if v < 0 {
        let mag: u64 = ((-(v as i128)) as u64);
        let mut s = String::new();
        s.append("-");
        push_u64_dec(&mut s, mag);
        proof {
            reveal_strlit("-");
            assert(s@ =~= i64_dec(v as int));
        }
        s
    } else {
        let s = u64_to_string(v as u64);
        s
    }
}

/// ASCII whitespace, the padding tolerated around a decimal in a hint file.
pub open spec fn is_space(b: u8) -> bool {
    b == 32 || b == 9 || b == 10 || b == 13
}

/// `s` without leading whitespace.
pub open spec fn trim_front(s: Seq<u8>) -> Seq<u8>
    decreases s.len(),
{
    if s.len() > 0 && is_space(s[0]) {
        trim_front(s.drop_first())
    } else {
        s
    }
}

/// `s` without trailing whitespace.
pub open spec fn trim_back(s: Seq<u8>) -> Seq<u8>
    decreases s.len(),
{
    if s.len() > 0 && is_space(s.last()) {
        trim_back(s.drop_last())
    } else {
        s
    }
}

/// `s` without surrounding whitespace.
pub open spec fn trimmed(s: Seq<u8>) -> Seq<u8> {
    trim_back(trim_front(s))
}

/// An ASCII decimal digit.
pub open spec fn is_digit(b: u8) -> bool {
    48 <= b <= 57
}

/// Every byte of `s` is a decimal digit.
pub open spec fn all_digits(s: Seq<u8>) -> bool {
    forall|i: int| 0 <= i < s.len() ==> is_digit(#[trigger] s[i])
}

/// The value of a sequence of decimal digit bytes, most significant first.
pub open spec fn dec_val(s: Seq<u8>) -> nat
    decreases s.len(),
{
    if s.len() == 0 {
        0
    } else {
        dec_val(s.drop_last()) * 10 + (s.last() - 48) as nat
    }
}

/// A longer digit string never names a smaller number.
proof fn lemma_dec_val_monotone(s: Seq<u8>, k: int)
    requires
        0 <= k <= s.len(),
    ensures
        dec_val(s.subrange(0, k)) <= dec_val(s),
    decreases s.len() - k,
{
    if k < s.len() {
        lemma_dec_val_monotone(s, k + 1);
        assert(s.subrange(0, k + 1).drop_last() =~= s.subrange(0, k));
        assert(dec_val(s.subrange(0, k + 1)) == dec_val(s.subrange(0, k)) * 10 + (s.subrange(
            0,
            k + 1,
        ).last() - 48) as nat);
    } else {
        assert(s.subrange(0, k) =~= s);
    }
}

/// Reads an unsigned decimal from a byte buffer, tolerating surrounding
/// whitespace: the shape of a version-hint file. The read succeeds exactly
/// when, after trimming, the buffer is one non-empty run of digits whose
/// value fits; anything else is malformed table data.
pub fn parse_version_hint(bytes: &Vec<u8>) -> (r: Result<u64, ErrorCode>)
    ensures
        r is Ok <==> {
            let t = trimmed(bytes@);
            &&& t.len() > 0
            &&& all_digits(t)
            &&& dec_val(t) <= u64::MAX
        },
        r is Ok ==> r->Ok_0 == dec_val(trimmed(bytes@)),
        r is Err ==> r == Err::<u64, ErrorCode>(ErrorCode::ReadTableData),
{
    let n = bytes.len();
    proof {
        assert(bytes@.subrange(0, n as int) =~= bytes@);
    }
    let mut lo: usize = 0;
    while lo < n && (bytes[lo] == 32 || bytes[lo] == 9 || bytes[lo] == 10 || bytes[lo] == 13)
        invariant
            n == bytes@.len(),
            0 <= lo <= n,
            trim_front(bytes@) == trim_front(bytes@.subrange(lo as int, n as int)),
        decreases n - lo,
    {
        proof {
            assert(bytes@.subrange(lo as int, n as int).drop_first() =~= bytes@.subrange(
                lo as int + 1,
                n as int,
            ));
        }
        lo = lo + 1;
    }
    proof {
        assert(trim_front(bytes@) =~= bytes@.subrange(lo as int, n as int));
    }
    let mut hi: usize = n;
    while hi > lo && (bytes[hi - 1] == 32 || bytes[hi - 1] == 9 || bytes[hi - 1] == 10 || bytes[hi
        - 1] == 13)
        invariant
            n == bytes@.len(),
            lo <= hi <= n,
            trim_back(bytes@.subrange(lo as int, n as int)) == trim_back(
                bytes@.subrange(lo as int, hi as int),
            ),
        decreases hi,
    {
        proof {
            assert(bytes@.subrange(lo as int, hi as int).drop_last() =~= bytes@.subrange(
                lo as int,
                hi as int - 1,
            ));
        }
        hi = hi - 1;
    }
    let ghost t = trimmed(bytes@);
    proof {
        assert(trim_back(bytes@.subrange(lo as int, hi as int)) =~= bytes@.subrange(
            lo as int,
            hi as int,
        ));
        assert(t =~= bytes@.subrange(lo as int, hi as int));
    }
    if lo == hi {
        return Err(ErrorCode::ReadTableData);
    }
    let mut acc: u128 = 0;
    let mut k: usize = lo;
    while k < hi
        invariant
            n == bytes@.len(),
            lo <= k <= hi <= n,
            t == trimmed(bytes@),
            t == bytes@.subrange(lo as int, hi as int),
            all_digits(bytes@.subrange(lo as int, k as int)),
            acc == dec_val(bytes@.subrange(lo as int, k as int)),
            acc <= u64::MAX,
        decreases hi - k,
    {
        let b = bytes[k];
        if b < 48 || b > 57 {
            proof {
                assert(t[k as int - lo as int] == bytes@[k as int]);
                assert(!is_digit(t[k as int - lo as int]));
            }
            return Err(ErrorCode::ReadTableData);
        }
        proof {
            assert(bytes@.subrange(lo as int, k as int + 1).drop_last() =~= bytes@.subrange(
                lo as int,
                k as int,
            ));
            assert(bytes@.subrange(lo as int, k as int + 1).last() == bytes@[k as int]);
        }
        acc = acc * 10 + ((b - 48) as u128);
        k = k + 1;
        if acc > u64::MAX as u128 {
            proof {
                let done = bytes@.subrange(lo as int, k as int);
                assert(done =~= t.subrange(0, k - lo));
                assert(acc == dec_val(done));
                lemma_dec_val_monotone(t, k - lo);
                assert(dec_val(t) >= dec_val(t.subrange(0, k - lo)));
                assert(dec_val(t) > u64::MAX);
            }
            return Err(ErrorCode::ReadTableData);
        }
    }
    proof {
        assert(bytes@.subrange(lo as int, hi as int) == t);
    }
    Ok(acc as u64)
}

} // verus!
