//! Reading the numbers typed into the item fields.
use vstd::prelude::*;
use vstd::string::StringSliceAdditionalSpecFns;

verus! {

pub open spec fn is_digit(b: u8) -> bool {
    48 <= b <= 57
}

pub open spec fn all_digits(s: Seq<u8>) -> bool {
    forall|i: int| 0 <= i < s.len() ==> is_digit(#[trigger] s[i])
}

/// The number that a run of decimal digits denotes.
pub open spec fn digits_value(s: Seq<u8>) -> nat
    decreases s.len(),
{
    if s.len() == 0 {
        0
    } else {
        digits_value(s.drop_last()) * 10 + (s.last() - 48) as nat
    }
}

/// A non-empty run of digits whose value fits in a `u32`.
pub open spec fn digits_u32(s: Seq<u8>) -> Option<u32> {
    if s.len() > 0 && all_digits(s) && digits_value(s) <= u32::MAX {
        Some(digits_value(s) as u32)
    } else {
        None
    }
}

/// A quantity: an optional `+`, then a non-empty run of digits that fits in a `u32`.
pub open spec fn quantity_of(s: Seq<u8>) -> Option<u32> {
    if s.len() > 0 && s[0] == 43 {
        digits_u32(s.skip(1))
    } else {
        digits_u32(s)
    }
}

pub open spec fn is_first_dot(s: Seq<u8>, k: int) -> bool {
    0 <= k < s.len() && s[k] == 46 && forall|j: int| 0 <= j < k ==> s[j] != 46
}

pub open spec fn has_dot(s: Seq<u8>) -> bool {
    exists|k: int| 0 <= k < s.len() && s[k] == 46
}

/// Cents given by at most two digits after the decimal point: "5" is 50, "05" is 5.
pub open spec fn fraction_cents(f: Seq<u8>) -> nat {
    if f.len() == 0 {
        0
    } else if f.len() == 1 {
        digits_value(f) * 10
    } else {
        digits_value(f)
    }
}

/// Cents from a whole part and a fraction of at most two digits, both digit runs,
/// not both empty.
pub open spec fn price_parts(w: Seq<u8>, f: Seq<u8>) -> Option<u64> {
    if (w.len() > 0 || f.len() > 0) && all_digits(w) && all_digits(f) && f.len() <= 2
        && digits_value(w) * 100 + fraction_cents(f) <= u64::MAX {
        Some((digits_value(w) * 100 + fraction_cents(f)) as u64)
    } else {
        None
    }
}

/// An unsigned amount in cents: digits, optionally followed by a point and at most
/// two digits.
pub open spec fn magnitude_of(s: Seq<u8>) -> Option<u64> {
    if has_dot(s) {
        let k = choose|k: int| is_first_dot(s, k);
        price_parts(s.take(k), s.skip(k + 1))
    } else {
        price_parts(s, Seq::empty())
    }
}

/// The magnitude with a sign, when it fits in an `i64`.
pub open spec fn signed_cents(m: Option<u64>, negative: bool) -> Option<i64> {
    match m {
        Some(v) => if v <= i64::MAX {
            Some((if negative { -(v as int) } else { v as int }) as i64)
        } else {
            None
        },
        None => None,
    }
}

/// An amount in cents: an optional sign (`-` or `+`), then an unsigned amount.
pub open spec fn price_of(s: Seq<u8>) -> Option<i64> {
    if s.len() > 0 && (s[0] == 45 || s[0] == 43) {
        signed_cents(magnitude_of(s.skip(1)), s[0] == 45)
    } else {
        signed_cents(magnitude_of(s), false)
    }
}

proof fn lemma_digits_prefix_le(s: Seq<u8>, i: int)
    requires
        0 <= i <= s.len(),
    ensures
        digits_value(s.take(i)) <= digits_value(s),
    decreases s.len() - i,
{
    if i < s.len() {
        lemma_digits_prefix_le(s, i + 1);
        assert(s.take(i + 1).drop_last() =~= s.take(i));
    } else {
        assert(s.take(i) =~= s);
    }
}

/// Reads `b[lo..hi]` as decimal digits: the value when all are digits and it is at most
/// `limit`, else `None`.
pub fn parse_digits(b: &[u8], lo: usize, hi: usize, limit: u64) -> (r: Option<u64>)
    requires
        lo <= hi <= b@.len(),
    ensures
        r == (if all_digits(b@.subrange(lo as int, hi as int)) && digits_value(
            b@.subrange(lo as int, hi as int),
        ) <= limit {
            Some(digits_value(b@.subrange(lo as int, hi as int)) as u64)
        } else {
            None
        }),
{
    let ghost s = b@.subrange(lo as int, hi as int);
    let mut acc: u64 = 0;
    let mut i: usize = lo;
    let mut over = false;
    while i < hi
        invariant
            lo <= i <= hi <= b@.len(),
            s == b@.subrange(lo as int, hi as int),
            !over ==> all_digits(s.take(i - lo)) && acc as nat == digits_value(s.take(i - lo))
                && acc <= limit,
            over ==> !all_digits(s) || digits_value(s) > limit,
        decreases hi - i,
    {
        let c = b[i];
        let ghost t = s.take(i - lo + 1);
        assert(t.drop_last() =~= s.take(i - lo));
        if !over {
            if c < 48 || c > 57 {
                over = true;
            } else {
                let d = (c - 48) as u64;
                if d > limit || acc > (limit - d) / 10 {
                    assert(digits_value(t) > limit) by (nonlinear_arith)
                        requires
                            digits_value(t) == acc * 10 + d,
                            d > limit || acc > (limit - d) / 10,
                            acc >= 0,
                    {
                    }
                    over = true;
                } else {
                    acc = acc * 10 + d;
                }
            }
            if over {
                proof {
                    if all_digits(s) {
                        lemma_digits_prefix_le(s, i - lo + 1);
                    }
                }
            }
        }
        i += 1;
    }
    if over {
        None
    } else {
        assert(s.take(i - lo) =~= s);
        Some(acc)
    }
}

proof fn lemma_two_digits_small(f: Seq<u8>)
    requires
        all_digits(f),
        f.len() <= 2,
    ensures
        digits_value(f) <= 99,
{
    if f.len() > 0 {
        let g = f.drop_last();
        assert(is_digit(f[f.len() - 1]));
        let lo = (f.last() - 48) as nat;
        assert(lo <= 9);
        if g.len() > 0 {
            assert(is_digit(g[0]));
            assert(digits_value(g.drop_last()) == 0);
            assert(digits_value(g) <= 9);
        } else {
            assert(digits_value(g) == 0);
        }
        assert(digits_value(f) == digits_value(g) * 10 + lo);
    }
}

/// Reads a quantity: an optional `+`, then a non-empty run of decimal digits that
/// fits in a `u32`.
pub fn parse_quantity(text: &str) -> (r: Option<u32>)
    ensures
        r == quantity_of(text.spec_bytes()),
{
    let b = text.as_bytes();
    let n = b.len();
    let start: usize = if n > 0 && b[0] == 43 { 1 } else { 0 };
    assert(b@.subrange(start as int, n as int) =~= if start == 1 { b@.skip(1) } else { b@ });
    if start == n {
        return None;
    }
    match parse_digits(b, start, n, 4294967295) {
        Some(v) => Some(v as u32),
        None => None,
    }
}

/// Reads `b[lo..]` as an unsigned amount in cents.
fn parse_magnitude(b: &[u8], lo: usize) -> (r: Option<u64>)
    requires
        lo <= b@.len(),
    ensures
        r == magnitude_of(b@.subrange(lo as int, b@.len() as int)),
{
    let n = b.len();
    let ghost s = b@.subrange(lo as int, n as int);
    let mut k: usize = lo;
    while k < n && b[k] != 46
        invariant
            lo <= k <= n == b@.len(),
            s == b@.subrange(lo as int, n as int),
            forall|j: int| 0 <= j < k - lo ==> s[j] != 46,
        decreases n - k,
    {
        k += 1;
    }
    if k == n {
        assert(!has_dot(s));
        if n == lo {
            return None;
        }
        return match parse_digits(b, lo, n, 184467440737095516) {
            Some(w) => Some(w * 100),
            None => None,
        };
    }
    let ghost d = (k - lo) as int;
    proof {
        assert(is_first_dot(s, d));
        assert(has_dot(s));
        let c = choose|c: int| is_first_dot(s, c);
        assert(c == d);
        assert(b@.subrange(lo as int, k as int) =~= s.take(d));
        assert(b@.subrange(k + 1, n as int) =~= s.skip(d + 1));
    }
    let flen = n - k - 1;
    if (k == lo && flen == 0) || flen > 2 {
        return None;
    }
    let whole = parse_digits(b, lo, k, 184467440737095516);
    let frac = parse_digits(b, k + 1, n, 99);
    proof {
        let ws = b@.subrange(lo as int, k as int);
        let fs = b@.subrange(k + 1, n as int);
        if all_digits(ws) && digits_value(ws) > 184467440737095516 {
            assert(digits_value(ws) * 100 > 18446744073709551615) by (nonlinear_arith)
                requires
                    digits_value(ws) > 184467440737095516,
            {
            }
        }
        if all_digits(fs) && fs.len() <= 2 {
            lemma_two_digits_small(fs);
        }
    }
    match (whole, frac) {
        (Some(w), Some(f)) => {
            assert(w * 100 <= 18446744073709551600) by (nonlinear_arith)
                requires
                    w <= 184467440737095516,
            {
            }
            let fc = if flen == 1 { f * 10 } else { f };
            if w * 100 > 18446744073709551615 - fc {
                None
            } else {
                Some(w * 100 + fc)
            }
        },
        _ => None,
    }
}

/// Reads an amount in cents: "12", "12.5" and "12.50" all give 1250, ".5" gives
/// 50, "-3" gives -300.
pub fn parse_price(text: &str) -> (r: Option<i64>)
    ensures
        r == price_of(text.spec_bytes()),
{
    let b = text.as_bytes();
    let n = b.len();
    let signed = n > 0 && (b[0] == 45 || b[0] == 43);
    let start: usize = if signed { 1 } else { 0 };
    assert(b@.subrange(start as int, n as int) =~= if signed { b@.skip(1) } else { b@ });
    match parse_magnitude(b, start) {
        Some(v) => {
            if v > 9223372036854775807 {
                None
            } else if signed && b[0] == 45 {
                Some(-(v as i64))
            } else {
                Some(v as i64)
            }
        },
        None => None,
    }
}

} // verus!
