//! Decimal text of signed 64-bit integers, as stored counters and step
//! arguments are written.
use vstd::prelude::*;

verus! {

pub open spec fn is_digit(b: u8) -> bool {
    48 <= b <= 57
}

pub open spec fn all_digits(s: Seq<u8>) -> bool {
    forall|i: int| 0 <= i < s.len() ==> is_digit(#[trigger] s[i])
}

/// The value of a string of decimal digits, most significant first.
pub open spec fn digits_value(s: Seq<u8>) -> nat
    decreases s.len(),
{
    if s.len() == 0 {
        0
    } else {
        digits_value(s.drop_last()) * 10 + (s.last() - 48) as nat
    }
}

/// An optional `+` or `-` followed by one or more decimal digits, read as an
/// unbounded integer.
pub open spec fn parse_int(s: Seq<u8>) -> Option<int> {
    if s.len() > 0 && (s[0] == 45u8 || s[0] == 43u8) {
        let d = s.drop_first();
        if d.len() > 0 && all_digits(d) {
            if s[0] == 45u8 {
                Some(-(digits_value(d) as int))
            } else {
                Some(digits_value(d) as int)
            }
        } else {
            None
        }
    } else if s.len() > 0 && all_digits(s) {
        Some(digits_value(s) as int)
    } else {
        None
    }
}

pub open spec fn in_i64(v: int) -> bool {
    i64::MIN <= v <= i64::MAX
}

/// What a text reads as when taken as a signed 64-bit integer: `None` where it is
/// not integer-shaped or the value does not fit.
pub open spec fn parse_i64_spec(s: Seq<u8>) -> Option<i64> {
    match parse_int(s) {
        Some(v) => if in_i64(v) {
            Some(v as i64)
        } else {
            None
        },
        None => None,
    }
}

/// The shortest decimal digits of a natural number.
pub open spec fn digits_of(n: nat) -> Seq<u8>
    decreases n,
{
    if n < 10 {
        seq![(48 + n) as u8]
    } else {
        digits_of(n / 10).push((48 + n % 10) as u8)
    }
}

/// The canonical decimal text of an integer: a `-` before negative values.
pub open spec fn encode_spec(v: int) -> Seq<u8> {
    if v < 0 {
        seq![45u8] + digits_of((-v) as nat)
    } else {
        digits_of(v as nat)
    }
}

proof fn lemma_digits_of(n: nat)
    ensures
        digits_of(n).len() > 0,
        all_digits(digits_of(n)),
        digits_value(digits_of(n)) == n,
    decreases n,
{
    if n >= 10 {
        lemma_digits_of(n / 10);
        let d = digits_of(n / 10).push((48 + n % 10) as u8);
        assert(d.drop_last() =~= digits_of(n / 10));
        assert(d.last() == (48 + n % 10) as u8);
        assert(digits_value(d) == digits_value(digits_of(n / 10)) * 10 + n % 10);
        assert(n == (n / 10) * 10 + n % 10);
        assert(all_digits(d)) by {
            assert forall|k: int| 0 <= k < d.len() implies is_digit(#[trigger] d[k]) by {
                if k < d.len() - 1 {
                    assert(d[k] == digits_of(n / 10)[k]);
                }
            }
        }
    } else {
        let d = seq![(48 + n) as u8];
        assert(d.drop_last() =~= Seq::<u8>::empty());
        assert(digits_value(d) == digits_value(Seq::<u8>::empty()) * 10 + n);
    }
}

/// Reading back the canonical text of any integer gives that integer.
pub proof fn lemma_parse_encode(v: int)
    ensures
        parse_int(encode_spec(v)) == Some(v),
        in_i64(v) ==> parse_i64_spec(encode_spec(v)) == Some(v as i64),
{
    if v < 0 {
        let n = (-v) as nat;
        lemma_digits_of(n);
        let s = seq![45u8] + digits_of(n);
        assert(s.drop_first() =~= digits_of(n));
    } else {
        lemma_digits_of(v as nat);
        assert(digits_of(v as nat)[0] != 45u8 && digits_of(v as nat)[0] != 43u8) by {
            assert(is_digit(digits_of(v as nat)[0]));
        }
    }
}

fn push_digits(n: u64, out: &mut Vec<u8>)
    ensures
        final(out)@ == old(out)@ + digits_of(n as nat),
    decreases n,
{
    if n >= 10 {
        push_digits(n / 10, out);
    }
    out.push((48 + n % 10) as u8);
    proof {
        if n >= 10 {
            assert(old(out)@ + digits_of(n as nat) =~= old(out)@ + digits_of((n / 10) as nat) + seq![
                (48 + n % 10) as u8,
            ]);
        }
    }
}

/// The canonical decimal text of `v`.
pub fn encode_i64(v: i64) -> (r: Vec<u8>)
    ensures
        r@ == encode_spec(v as int),
{
    let mut out: Vec<u8> = Vec::new();
    if v < 0 {
        out.push(45u8);
        let n: u64 = (-(v as i128)) as u64;
        push_digits(n, &mut out);
    } else {
        push_digits(v as u64, &mut out);
    }
    out
}

/// Reads `s` as a signed 64-bit integer: an optional sign, then one or more
/// ASCII digits, with no other characters and a value in range.
pub fn parse_i64(s: &[u8]) -> (r: Option<i64>)
    ensures
        r == parse_i64_spec(s@),
{
    let len = s.len();
    if len == 0 {
        return None;
    }
    let negative = s[0] == 45u8;
    let start: usize = if s[0] == 45u8 || s[0] == 43u8 { 1 } else { 0 };
    if start == len {
        return None;
    }
    let ghost d = s@.subrange(start as int, len as int);
    let mut acc: u64 = 0;
    let mut big = false;
    let mut i: usize = start;
    while i < len
        invariant
            start <= i <= len,
            len == s@.len(),
            len > 0,
            start == 0 || start == 1,
            start == 1 <==> (s@[0] == 45u8 || s@[0] == 43u8),
            d == s@.subrange(start as int, len as int),
            all_digits(s@.subrange(start as int, i as int)),
            big ==> digits_value(s@.subrange(start as int, i as int)) > 0x8000_0000_0000_0000,
            !big ==> acc as nat == digits_value(s@.subrange(start as int, i as int)),
            !big ==> acc <= 0x8000_0000_0000_0000,
        decreases len - i,
    {
        let b = s[i];
        if b < 48 || b > 57 {
            proof {
                assert(d[i - start] == b);
                assert(!all_digits(d));
                if start == 1 {
                    assert(d =~= s@.drop_first());
                } else {
                    assert(d =~= s@);
                }
            }
            return None;
        }
        let ghost pre = s@.subrange(start as int, i as int);
        let ghost next = s@.subrange(start as int, i + 1);
        proof {
            assert(next.drop_last() =~= pre);
            assert(next.last() == b);
            assert(all_digits(next)) by {
                assert forall|k: int| 0 <= k < next.len() implies is_digit(#[trigger] next[k]) by {
                    if k < pre.len() {
                        assert(next[k] == pre[k]);
                    }
                }
            }
        }
        if !big {
            if acc > 0x0CCC_CCCC_CCCC_CCCC || acc * 10 + (b - 48) as u64 > 0x8000_0000_0000_0000 {
                big = true;
            } else {
                acc = acc * 10 + (b - 48) as u64;
            }
        }
        i = i + 1;
    }
    proof {
        assert(s@.subrange(start as int, len as int) =~= d);
        if start == 1 {
            assert(d =~= s@.drop_first());
        } else {
            assert(d =~= s@);
        }
    }
    if big {
        None
    } else if negative {
        Some((-(acc as i128)) as i64)
    } else if acc <= 0x7FFF_FFFF_FFFF_FFFF {
        Some(acc as i64)
    } else {
        None
    }
}

} // verus!
