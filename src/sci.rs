//! Reading a number in scientific notation, `-?D+(.D+)?e-?D+`, into a
//! decimal real.
use vstd::prelude::*;
use crate::prim::Real;

verus! {

/// An ASCII digit.
pub open spec fn is_digit(b: u8) -> bool {
    48 <= b <= 57
}

/// How many digits stand at the front of a text.
pub open spec fn lead_digits(s: Seq<u8>) -> nat
    decreases s.len(),
{
    if s.len() > 0 && is_digit(s[0]) {
        1 + lead_digits(s.drop_first())
    } else {
        0
    }
}

/// The value of `v0` followed by the digits of `s`.
pub open spec fn digits_from(v0: int, s: Seq<u8>) -> int
    decreases s.len(),
{
    if s.len() == 0 {
        v0
    } else {
        digits_from(v0, s.drop_last()) * 10 + (s.last() - 48)
    }
}

/// The value of a run of digits.
pub open spec fn digits_val(s: Seq<u8>) -> int {
    digits_from(0, s)
}

/// `-1` after a minus sign, else `1`.
pub open spec fn sign_of(neg: bool) -> int {
    if neg {
        -1
    } else {
        1
    }
}

/// The exponent part after `e`: an optional minus sign and at least one
/// digit, up to the end.
pub open spec fn exp_part(w: Seq<u8>) -> Option<int> {
    let eneg = w.len() > 0 && w[0] == 45;
    let x = if eneg { w.drop_first() } else { w };
    if x.len() > 0 && lead_digits(x) == x.len() {
        Some(sign_of(eneg) * digits_val(x))
    } else {
        None
    }
}

/// After the mantissa's digits: `e` and the exponent part.
pub open spec fn exp_marker(v: Seq<u8>) -> Option<int> {
    if v.len() > 0 && v[0] == 101 {
        exp_part(v.drop_first())
    } else {
        None
    }
}

/// After the integer digits: an optional point and fraction digits, then
/// the exponent; the fraction digits and the exponent.
pub open spec fn frac_parse(u: Seq<u8>) -> Option<(Seq<u8>, int)> {
    if u.len() > 0 && u[0] == 46 {
        let b = lead_digits(u.drop_first()) as int;
        if b == 0 {
            None
        } else {
            match exp_marker(u.skip(1 + b)) {
                Some(e) => Some((u.subrange(1, 1 + b), e)),
                None => None,
            }
        }
    } else {
        match exp_marker(u) {
            Some(e) => Some((Seq::<u8>::empty(), e)),
            None => None,
        }
    }
}

/// Scientific notation without a sign: the digits' value and the exponent.
pub open spec fn unsigned_parse(t: Seq<u8>) -> Option<(int, int)> {
    let a = lead_digits(t) as int;
    if a == 0 {
        None
    } else {
        match frac_parse(t.skip(a)) {
            Some((frac, e)) => Some((digits_val(t.subrange(0, a) + frac), e - frac.len())),
            None => None,
        }
    }
}

/// The mantissa and exponent that scientific notation denotes, value
/// `mantissa * 10^exp`; `None` where the text does not have that form.
pub open spec fn sci_parse(s: Seq<u8>) -> Option<(int, int)> {
    let neg = s.len() > 0 && s[0] == 45;
    let t = if neg { s.drop_first() } else { s };
    match unsigned_parse(t) {
        Some((m, e)) => Some((sign_of(neg) * m, e)),
        None => None,
    }
}

/// The real number that scientific notation denotes, where its mantissa
/// fits 32 bits and its exponent 16.
pub open spec fn sci_real(s: Seq<u8>) -> Option<Real> {
    match sci_parse(s) {
        Some((m, e)) => fit(m, e),
        None => None,
    }
}

/// The real number `m * 10^e`, where `m` fits 32 bits and `e` 16.
pub open spec fn fit(m: int, e: int) -> Option<Real> {
    if i32::MIN <= m <= i32::MAX && i16::MIN <= e <= i16::MAX {
        Some(Real { mantissa: m as i32, exp: e as i16 })
    } else {
        None
    }
}

proof fn lemma_digits_concat(a: Seq<u8>, b: Seq<u8>)
    ensures
        digits_val(a + b) == digits_from(digits_val(a), b),
    decreases b.len(),
{
    if b.len() == 0 {
        assert(a + b =~= a);
    } else {
        assert((a + b).drop_last() =~= a + b.drop_last());
        lemma_digits_concat(a, b.drop_last());
    }
}

proof fn lemma_digits_grow(v0: int, s: Seq<u8>, i: int)
    requires
        v0 >= 0,
        0 <= i <= s.len(),
        forall|j: int| 0 <= j < s.len() ==> is_digit(#[trigger] s[j]),
    ensures
        digits_from(v0, s) >= digits_from(v0, s.subrange(0, i)),
        digits_from(v0, s.subrange(0, i)) >= 0,
    decreases s.len(),
{
    if i == s.len() {
        assert(s.subrange(0, i) =~= s);
        if s.len() > 0 {
            lemma_digits_grow(v0, s.drop_last(), i - 1);
            assert(s.drop_last().subrange(0, i - 1) =~= s.drop_last());
        }
    } else {
        lemma_digits_grow(v0, s.drop_last(), i);
        assert(s.drop_last().subrange(0, i) =~= s.subrange(0, i));
        lemma_digits_grow(v0, s.drop_last(), s.len() - 1);
        assert(s.drop_last().subrange(0, s.len() - 1) =~= s.drop_last());
    }
}

proof fn lemma_lead_digits_step(s: Seq<u8>, i: int)
    requires
        0 <= i < s.len(),
    ensures
        s.skip(i).drop_first() =~= s.skip(i + 1),
        is_digit(s[i]) ==> lead_digits(s.skip(i)) == 1 + lead_digits(s.skip(i + 1)),
        !is_digit(s[i]) ==> lead_digits(s.skip(i)) == 0,
{
    assert(s.skip(i).drop_first() =~= s.skip(i + 1));
}

/// The end of the run of digits that starts at `start`.
fn scan_digits(s: &[u8], start: usize) -> (end: usize)
    requires
        start <= s@.len(),
    ensures
        end == start + lead_digits(s@.skip(start as int)),
        end <= s@.len(),
        forall|j: int| start <= j < end ==> is_digit(#[trigger] s@[j]),
{
    let mut i: usize = start;
    while i < s.len() && 48 <= s[i] && s[i] <= 57
        invariant
            start <= i <= s@.len(),
            lead_digits(s@.skip(start as int)) == (i - start) + lead_digits(s@.skip(i as int)),
            forall|j: int| start <= j < i ==> is_digit(#[trigger] s@[j]),
        decreases s@.len() - i,
    {
        proof {
            lemma_lead_digits_step(s@, i as int);
        }
        i += 1;
    }
    proof {
        if i < s@.len() {
            lemma_lead_digits_step(s@, i as int);
        } else {
            assert(s@.skip(i as int).len() == 0);
        }
    }
    i
}

/// Continues `v0` with the digits of `s[start..end]`; `None` where the value
/// passes `bound`.
fn accumulate(s: &[u8], start: usize, end: usize, v0: u128, bound: u128) -> (r: Option<u128>)
    requires
        start <= end <= s@.len(),
        forall|j: int| start <= j < end ==> is_digit(#[trigger] s@[j]),
        v0 <= bound,
        bound <= 0x1_0000_0000_0000_0000_0000,
    ensures
        match r {
            Some(v) => v == digits_from(v0 as int, s@.subrange(start as int, end as int)) && v
                <= bound,
            None => digits_from(v0 as int, s@.subrange(start as int, end as int)) > bound,
        },
{
    let ghost seg = s@.subrange(start as int, end as int);
    let mut v: u128 = v0;
    let mut i: usize = start;
    while i < end
        invariant
            start <= i <= end,
            end <= s@.len(),
            seg == s@.subrange(start as int, end as int),
            forall|j: int| start <= j < end ==> is_digit(#[trigger] s@[j]),
            v <= bound,
            bound <= 0x1_0000_0000_0000_0000_0000,
            v == digits_from(v0 as int, s@.subrange(start as int, i as int)),
        decreases end - i,
    {
        assert(s@.subrange(start as int, i + 1).drop_last() =~= s@.subrange(
            start as int,
            i as int,
        ));
        let d = (s[i] - 48) as u128;
        let next = v * 10 + d;
        i += 1;
        if next > bound {
            proof {
                assert(forall|j: int| 0 <= j < seg.len() ==> is_digit(#[trigger] seg[j])) by {
                    assert(forall|j: int| 0 <= j < seg.len() ==> seg[j] == s@[start + j]);
                };
                lemma_digits_grow(v0 as int, seg, (i - start) as int);
                assert(seg.subrange(0, (i - start) as int) =~= s@.subrange(start as int, i as int));
            }
            return None;
        }
        v = next;
    }
    Some(v)
}

fn value_of(
    s: &[u8],
    neg: bool,
    start: usize,
    a_end: usize,
    f_start: usize,
    f_end: usize,
    e_neg: bool,
    x_start: usize,
) -> (r: Option<Real>)
    requires
        start <= a_end <= f_start <= f_end < x_start <= s@.len(),
        forall|j: int| start <= j < a_end ==> is_digit(#[trigger] s@[j]),
        forall|j: int| f_start <= j < f_end ==> is_digit(#[trigger] s@[j]),
        forall|j: int| x_start <= j < s@.len() ==> is_digit(#[trigger] s@[j]),
    ensures
        r == fit(
            sign_of(neg) * digits_val(
                s@.subrange(start as int, a_end as int) + s@.subrange(f_start as int, f_end as int),
            ),
            sign_of(e_neg) * digits_val(s@.subrange(x_start as int, s@.len() as int)) - (f_end
                - f_start),
        ),
{
    let ghost int_part = s@.subrange(start as int, a_end as int);
    let ghost frac = s@.subrange(f_start as int, f_end as int);
    let ghost both = int_part + frac;
    assert(forall|j: int| 0 <= j < both.len() ==> is_digit(#[trigger] both[j])) by {
        assert(forall|j: int| 0 <= j < int_part.len() ==> both[j] == s@[start + j]);
        assert(forall|j: int|
            int_part.len() <= j < both.len() ==> both[j] == s@[f_start + j - int_part.len()]);
    };
    proof {
        lemma_digits_concat(int_part, frac);
        lemma_digits_grow(0, both, int_part.len() as int);
        assert(both.subrange(0, int_part.len() as int) =~= int_part);
    }
    let bound: u128 = 2147483648;
    let mag = match accumulate(s, start, a_end, 0, bound) {
        Some(vi) => match accumulate(s, f_start, f_end, vi, bound) {
            Some(vm) => vm,
            None => {
                return None;
            },
        },
        None => {
            return None;
        },
    };
    let ev = match accumulate(s, x_start, s.len(), 0, 0x4_0000_0000_0000_0000) {
        Some(ev) => ev,
        None => {
            return None;
        },
    };
    let e: i128 = if e_neg { -(ev as i128) } else { ev as i128 };
    let e = e - ((f_end - f_start) as i128);
    let m: i64 = if neg { -(mag as i64) } else { mag as i64 };
    if m < -2147483648 || m > 2147483647 || e < -32768 || e > 32767 {
        return None;
    }
    Some(Real { mantissa: m as i32, exp: e as i16 })
}

/// Reads `e` and the exponent part at `pos`, up to the end: its sign and
/// where its digits start.
fn read_exp(s: &[u8], pos: usize) -> (r: Option<(bool, usize)>)
    requires
        pos <= s@.len(),
    ensures
        match r {
            Some((e_neg, x_start)) => {
                &&& pos < x_start <= s@.len()
                &&& forall|j: int| x_start <= j < s@.len() ==> is_digit(#[trigger] s@[j])
                &&& exp_marker(s@.skip(pos as int)) == Some(
                    sign_of(e_neg) * digits_val(s@.subrange(x_start as int, s@.len() as int)),
                )
            },
            None => exp_marker(s@.skip(pos as int)) == None::<int>,
        },
{
    let ghost v = s@.skip(pos as int);
    if pos >= s.len() || s[pos] != 101u8 {
        return None;
    }
    let ghost w = v.drop_first();
    assert(w =~= s@.skip(pos + 1));
    let e_neg = pos + 1 < s.len() && s[pos + 1] == 45u8;
    let x_start: usize = if e_neg { pos + 2 } else { pos + 1 };
    let ghost x = if e_neg { w.drop_first() } else { w };
    assert(x =~= s@.skip(x_start as int));
    let x_end = scan_digits(s, x_start);
    if x_end == x_start || x_end != s.len() {
        return None;
    }
    assert(x =~= s@.subrange(x_start as int, x_end as int));
    Some((e_neg, x_start))
}

/// Reads the optional fraction at `pos` and the exponent after it: where the
/// fraction digits stand, the exponent's sign and where its digits start.
fn read_frac(s: &[u8], pos: usize) -> (r: Option<(usize, usize, bool, usize)>)
    requires
        pos <= s@.len(),
    ensures
        match r {
            Some((f_start, f_end, e_neg, x_start)) => {
                &&& pos <= f_start <= f_end < x_start <= s@.len()
                &&& forall|j: int| f_start <= j < f_end ==> is_digit(#[trigger] s@[j])
                &&& forall|j: int| x_start <= j < s@.len() ==> is_digit(#[trigger] s@[j])
                &&& frac_parse(s@.skip(pos as int)) == Some(
                    (
                        s@.subrange(f_start as int, f_end as int),
                        sign_of(e_neg) * digits_val(s@.subrange(x_start as int, s@.len() as int)),
                    ),
                )
            },
            None => frac_parse(s@.skip(pos as int)) == None::<(Seq<u8>, int)>,
        },
{
    let ghost u = s@.skip(pos as int);
    if pos < s.len() && s[pos] == 46u8 {
        assert(u.drop_first() =~= s@.skip(pos + 1));
        let f_end = scan_digits(s, pos + 1);
        if f_end == pos + 1 {
            return None;
        }
        let ghost b = (f_end - pos - 1) as int;
        assert(u.skip(1 + b) =~= s@.skip(f_end as int));
        assert(u.subrange(1, 1 + b) =~= s@.subrange(pos + 1, f_end as int));
        match read_exp(s, f_end) {
            Some((e_neg, x_start)) => Some((pos + 1, f_end, e_neg, x_start)),
            None => None,
        }
    } else {
        assert(s@.subrange(pos as int, pos as int) =~= Seq::<u8>::empty());
        match read_exp(s, pos) {
            Some((e_neg, x_start)) => Some((pos, pos, e_neg, x_start)),
            None => None,
        }
    }
}

impl Real {
    /// Reads scientific notation such as `-1.25e-3`: an optional minus sign,
    /// digits, optionally a point and digits, `e`, an optional minus sign and
    /// digits. `None` where the text has another form or the value's digits
    /// do not fit.
    pub fn from_sci(s: &[u8]) -> (r: Option<Real>)
        ensures
            r == sci_real(s@),
    {
        let ghost ss = s@;
        let neg = s.len() > 0 && s[0] == 45u8;
        let start: usize = if neg { 1 } else { 0 };
        let ghost t = if neg { ss.drop_first() } else { ss };
        assert(t =~= ss.skip(start as int));
        let a_end = scan_digits(s, start);
        if a_end == start {
            return None;
        }
        let ghost a = (a_end - start) as int;
        assert(t.skip(a) =~= ss.skip(a_end as int));
        assert(t.subrange(0, a) =~= ss.subrange(start as int, a_end as int));
        match read_frac(s, a_end) {
            Some((f_start, f_end, e_neg, x_start)) => value_of(
                s,
                neg,
                start,
                a_end,
                f_start,
                f_end,
                e_neg,
                x_start,
            ),
            None => None,
        }
    }
}

} // verus!
