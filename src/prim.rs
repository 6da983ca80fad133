//! Primitive values and their canonical byte encodings.
use vstd::prelude::*;
use vstd::string::*;

verus! {

/// The ASCII digit for a value below ten.
pub open spec fn digit(d: nat) -> u8 {
    (48 + d) as u8
}

/// The uppercase hexadecimal digit for a value below sixteen.
pub open spec fn hex_digit(d: nat) -> u8 {
    if d < 10 {
        (48 + d) as u8
    } else {
        (55 + d) as u8
    }
}

/// Decimal digits of a natural number, without leading zeros.
pub open spec fn nat_text(n: nat) -> Seq<u8>
    decreases n,
{
    if n < 10 {
        seq![digit(n)]
    } else {
        nat_text(n / 10).push(digit(n % 10))
    }
}

/// Decimal text of an integer, with a leading `-` when it is negative.
pub open spec fn int_text(i: int) -> Seq<u8> {
    if i < 0 {
        seq![45u8] + nat_text((-i) as nat)
    } else {
        nat_text(i as nat)
    }
}

/// Two hexadecimal digits of a byte.
pub open spec fn hex_byte(b: u8) -> Seq<u8> {
    seq![hex_digit(b as nat / 16), hex_digit(b as nat % 16)]
}

/// Four hexadecimal digits of a 16-bit code unit.
pub open spec fn hex_u16(v: u16) -> Seq<u8> {
    hex_byte((v as nat / 256) as u8) + hex_byte((v as nat % 256) as u8)
}

/// Hexadecimal digits of every byte, in order.
pub open spec fn hex_bytes(s: Seq<u8>) -> Seq<u8>
    decreases s.len(),
{
    if s.len() == 0 {
        Seq::empty()
    } else {
        hex_bytes(s.drop_last()) + hex_byte(s.last())
    }
}

/// Appends the decimal digits of `n`.
pub fn push_nat(buf: &mut Vec<u8>, n: u64)
    ensures
        final(buf)@ == old(buf)@ + nat_text(n as nat),
    decreases n,
{
    if n >= 10 {
        push_nat(buf, n / 10);
    }
    buf.push((48 + n % 10) as u8);
    assert(final(buf)@ =~= old(buf)@ + nat_text(n as nat));
}

/// Appends the decimal text of `i`.
pub fn push_int(buf: &mut Vec<u8>, i: i64)
    ensures
        final(buf)@ == old(buf)@ + int_text(i as int),
{
    if i < 0 {
        buf.push(45u8);
        let m: u64 = if i == i64::MIN {
            9223372036854775808u64
        } else {
            (-i) as u64
        };
        push_nat(buf, m);
        assert(final(buf)@ =~= old(buf)@ + int_text(i as int));
    } else {
        push_nat(buf, i as u64);
    }
}

fn hex_char(d: u8) -> (r: u8)
    requires
        d < 16,
    ensures
        r == hex_digit(d as nat),
{
    if d < 10 {
        48 + d
    } else {
        55 + d
    }
}

/// Appends the two hexadecimal digits of a byte.
pub fn push_hex(buf: &mut Vec<u8>, b: u8)
    ensures
        final(buf)@ == old(buf)@ + hex_byte(b),
{
    buf.push(hex_char(b / 16));
    buf.push(hex_char(b % 16));
    assert(final(buf)@ =~= old(buf)@ + hex_byte(b));
}

/// Appends the four hexadecimal digits of a 16-bit code unit.
pub fn push_hex_u16(buf: &mut Vec<u8>, v: u16)
    ensures
        final(buf)@ == old(buf)@ + hex_u16(v),
{
    push_hex(buf, (v / 256) as u8);
    push_hex(buf, (v % 256) as u8);
    assert(final(buf)@ =~= old(buf)@ + hex_u16(v));
}

/// Appends a byte string unchanged.
pub fn push_bytes(buf: &mut Vec<u8>, s: &[u8])
    ensures
        final(buf)@ == old(buf)@ + s@,
{
    let mut i: usize = 0;
    while i < s.len()
        invariant
            i <= s@.len(),
            buf@ == old(buf)@ + s@.subrange(0, i as int),
        decreases s@.len() - i,
    {
        buf.push(s[i]);
        i += 1;
        assert(buf@ =~= old(buf)@ + s@.subrange(0, i as int));
    }
    assert(s@.subrange(0, i as int) =~= s@);
}

/// The bytes of a fixed text.
pub open spec fn text(s: &str) -> Seq<u8> {
    s.spec_bytes()
}

/// Appends the bytes of a fixed text.
pub fn push_str(buf: &mut Vec<u8>, s: &str)
    ensures
        final(buf)@ == old(buf)@ + text(s),
{
    push_bytes(buf, s.as_bytes());
}

/// A run of `n` zero digits.
pub open spec fn zeros(n: nat) -> Seq<u8> {
    Seq::new(n, |i: int| 48u8)
}

/// Appends `n` zero digits.
fn push_zeros(buf: &mut Vec<u8>, n: u32)
    ensures
        final(buf)@ == old(buf)@ + zeros(n as nat),
{
    let mut i: u32 = 0;
    while i < n
        invariant
            i <= n,
            buf@ == old(buf)@ + zeros(i as nat),
        decreases n - i,
    {
        buf.push(48u8);
        i += 1;
        assert(buf@ =~= old(buf)@ + zeros(i as nat));
    }
}

/// A decimal real number, `mantissa * 10^exp`.
///
/// This is how the library holds a non-integer number: every 32-bit float
/// has a shortest decimal form that fits here.
#[derive(Clone, Copy, Debug, PartialEq, Eq, Structural)]
pub struct Real {
    pub mantissa: i32,
    pub exp: i16,
}

/// Removes trailing zeros of the digits while they stand after the point.
pub open spec fn strip(d: nat, e: int) -> (nat, int)
    decreases d,
{
    if d != 0 && d % 10 == 0 && e < 0 {
        strip(d / 10, e + 1)
    } else {
        (d, e)
    }
}

/// Plain decimal text of `d * 10^e`, without an exponent.
pub open spec fn decimal_text(d: nat, e: int) -> Seq<u8> {
    let s = nat_text(d);
    if d == 0 {
        seq![48u8]
    } else if e >= 0 {
        s + zeros(e as nat)
    } else if s.len() > -e {
        s.subrange(0, s.len() + e) + seq![46u8] + s.subrange(s.len() + e, s.len() as int)
    } else {
        seq![48u8, 46u8] + zeros((-e - s.len()) as nat) + s
    }
}

/// The canonical text of a real number: a sign where it is negative and not
/// zero, then the digits, with no exponent and no trailing zeros after the
/// point.
pub open spec fn real_text(r: Real) -> Seq<u8> {
    let m = r.mantissa as int;
    let mag: nat = if m < 0 { (-m) as nat } else { m as nat };
    let (d, e) = strip(mag, r.exp as int);
    if m < 0 {
        seq![45u8] + decimal_text(d, e)
    } else {
        decimal_text(d, e)
    }
}

impl Real {
    /// The real number with the value of an integer.
    pub fn from_int(v: i32) -> (r: Real)
        ensures
            r.mantissa == v,
            r.exp == 0,
    {
        Real { mantissa: v, exp: 0 }
    }

    /// The real number `mantissa * 10^exp`.
    pub fn new(mantissa: i32, exp: i16) -> (r: Real)
        ensures
            r.mantissa == mantissa,
            r.exp == exp,
    {
        Real { mantissa, exp }
    }
}

fn push_decimal(buf: &mut Vec<u8>, d: u64, e: i32)
    requires
        d <= 2147483648,
        -40000 <= e <= 40000,
    ensures
        final(buf)@ == old(buf)@ + decimal_text(d as nat, e as int),
{
    let mut s: Vec<u8> = Vec::new();
    push_nat(&mut s, d);
    assert(s@ =~= nat_text(d as nat));
    if d == 0 {
        buf.push(48u8);
    } else if e >= 0 {
        push_bytes(buf, s.as_slice());
        push_zeros(buf, e as u32);
    } else {
        let k: usize = (-e) as usize;
        if s.len() > k {
            let cut: usize = s.len() - k;
            push_bytes(buf, &s.as_slice()[0..cut]);
            buf.push(46u8);
            push_bytes(buf, &s.as_slice()[cut..s.len()]);
        } else {
            buf.push(48u8);
            buf.push(46u8);
            push_zeros(buf, (k - s.len()) as u32);
            push_bytes(buf, s.as_slice());
        }
    }
    assert(final(buf)@ =~= old(buf)@ + decimal_text(d as nat, e as int));
}

/// Appends the canonical text of a real number.
pub fn push_real(buf: &mut Vec<u8>, r: Real)
    ensures
        final(buf)@ == old(buf)@ + real_text(r),
{
    let m: i64 = r.mantissa as i64;
    let mut d: u64 = if m < 0 { (-m) as u64 } else { m as u64 };
    let mut e: i32 = r.exp as i32;
    let ghost mag: nat = d as nat;
    while d != 0 && d % 10 == 0 && e < 0
        invariant
            strip(d as nat, e as int) == strip(mag, r.exp as int),
            d <= mag,
            mag <= 2147483648,
            r.exp <= e <= 0 || e == r.exp,
        decreases d,
    {
        d = d / 10;
        e = e + 1;
    }
    assert(strip(d as nat, e as int) == (d as nat, e as int));
    if m < 0 {
        buf.push(45u8);
    }
    push_decimal(buf, d, e);
    assert(final(buf)@ =~= old(buf)@ + real_text(r));
}

/// A name, written as `/name`. The bytes must hold no delimiter or white space.
#[derive(Clone, Copy, Debug, PartialEq, Eq)]
pub struct Name<'a>(pub &'a [u8]);

/// A byte string, written as a literal string in parentheses.
#[derive(Clone, Copy, Debug, PartialEq, Eq)]
pub struct Str<'a>(pub &'a [u8]);

/// The number of an indirect object, always at least one.
#[derive(Clone, Copy, Debug, PartialEq, Eq, Hash, Structural)]
pub struct Ref {
    id: i32,
}

impl Ref {
    /// The object number.
    pub closed spec fn num(self) -> int {
        self.id as int
    }

    /// A reference to the object with the given number.
    pub fn new(id: i32) -> (r: Ref)
        requires
            id >= 1,
        ensures
            r.num() == id,
    {
        Ref { id }
    }

    /// The object number.
    pub fn get(self) -> (r: i32)
        ensures
            r == self.num(),
    {
        self.id
    }
}

/// A rectangle given by two corners.
#[derive(Clone, Copy, Debug, PartialEq, Eq, Structural)]
pub struct Rect {
    pub x1: Real,
    pub y1: Real,
    pub x2: Real,
    pub y2: Real,
}

/// A value that is written in one piece.
#[derive(Clone, Copy, Debug)]
pub enum Primitive<'a> {
    Bool(bool),
    Int(i32),
    Real(Real),
    Name(Name<'a>),
    Str(Str<'a>),
    Ref(Ref),
    Rect(Rect),
}

/// Text of a name.
pub open spec fn name_text(n: Seq<u8>) -> Seq<u8> {
    seq![47u8] + n
}

/// One byte of a literal string, with a backslash before `\`, `(` and `)`.
pub open spec fn escaped(b: u8) -> Seq<u8> {
    if b == 92 || b == 40 || b == 41 {
        seq![92u8, b]
    } else {
        seq![b]
    }
}

/// Every byte of a literal string, escaped.
pub open spec fn escape(s: Seq<u8>) -> Seq<u8>
    decreases s.len(),
{
    if s.len() == 0 {
        Seq::empty()
    } else {
        escape(s.drop_last()) + escaped(s.last())
    }
}

/// Text of a literal string.
pub open spec fn str_text(s: Seq<u8>) -> Seq<u8> {
    seq![40u8] + escape(s) + seq![41u8]
}

/// Text of a reference: the object number and generation zero.
pub open spec fn ref_text(r: Ref) -> Seq<u8> {
    int_text(r.num()) + text(" 0 R")
}

/// Text of a rectangle, as an array of four numbers.
pub open spec fn rect_text(r: Rect) -> Seq<u8> {
    text("[ ") + real_text(r.x1) + text(" ") + real_text(r.y1) + text(" ") + real_text(r.x2)
        + text(" ") + real_text(r.y2) + text(" ]")
}

/// Text of a primitive value.
pub open spec fn prim_text(p: Primitive) -> Seq<u8> {
    match p {
        Primitive::Bool(b) => if b {
            text("true")
        } else {
            text("false")
        },
        Primitive::Int(i) => int_text(i as int),
        Primitive::Real(r) => real_text(r),
        Primitive::Name(n) => name_text(n.0@),
        Primitive::Str(s) => str_text(s.0@),
        Primitive::Ref(r) => ref_text(r),
        Primitive::Rect(r) => rect_text(r),
    }
}

/// Appends the text of a name.
pub fn push_name(buf: &mut Vec<u8>, n: Name)
    ensures
        final(buf)@ == old(buf)@ + name_text(n.0@),
{
    buf.push(47u8);
    push_bytes(buf, n.0);
    assert(final(buf)@ =~= old(buf)@ + name_text(n.0@));
}

/// Appends the text of a literal string.
pub fn push_str_lit(buf: &mut Vec<u8>, s: Str)
    ensures
        final(buf)@ == old(buf)@ + str_text(s.0@),
{
    buf.push(40u8);
    let ghost pre = buf@;
    let mut i: usize = 0;
    while i < s.0.len()
        invariant
            i <= s.0@.len(),
            buf@ == pre + escape(s.0@.subrange(0, i as int)),
        decreases s.0@.len() - i,
    {
        let b = s.0[i];
        if b == 92u8 || b == 40u8 || b == 41u8 {
            buf.push(92u8);
        }
        buf.push(b);
        i += 1;
        assert(s.0@.subrange(0, i as int).drop_last() =~= s.0@.subrange(0, i - 1));
        assert(buf@ =~= pre + escape(s.0@.subrange(0, i as int)));
    }
    assert(s.0@.subrange(0, i as int) =~= s.0@);
    buf.push(41u8);
    assert(final(buf)@ =~= old(buf)@ + str_text(s.0@));
}

/// Appends the text of a primitive value.
pub fn push_prim(buf: &mut Vec<u8>, p: Primitive)
    ensures
        final(buf)@ == old(buf)@ + prim_text(p),
{
    match p {
        Primitive::Bool(b) => if b {
            push_str(buf, "true");
        } else {
            push_str(buf, "false");
        },
        Primitive::Int(i) => push_int(buf, i as i64),
        Primitive::Real(r) => push_real(buf, r),
        Primitive::Name(n) => push_name(buf, n),
        Primitive::Str(s) => push_str_lit(buf, s),
        Primitive::Ref(r) => {
            push_int(buf, r.get() as i64);
            push_str(buf, " 0 R");
            assert(final(buf)@ =~= old(buf)@ + prim_text(p));
        },
        Primitive::Rect(r) => {
            push_str(buf, "[ ");
            push_real(buf, r.x1);
            push_str(buf, " ");
            push_real(buf, r.y1);
            push_str(buf, " ");
            push_real(buf, r.x2);
            push_str(buf, " ");
            push_real(buf, r.y2);
            push_str(buf, " ]");
            assert(final(buf)@ =~= old(buf)@ + prim_text(p));
        },
    }
}

/// A byte of plain decimal notation: a digit, a minus sign or a point.
pub open spec fn is_plain_decimal(b: u8) -> bool {
    (48 <= b <= 57) || b == 45 || b == 46
}

proof fn lemma_nat_text_digits(n: nat)
    ensures
        nat_text(n).len() >= 1,
        forall|i: int| 0 <= i < nat_text(n).len() ==> 48 <= #[trigger] nat_text(n)[i] <= 57,
    decreases n,
{
    if n >= 10 {
        lemma_nat_text_digits(n / 10);
    }
}

/// The text of a real number is plain decimal notation: every byte is a
/// digit, a minus sign or a point, so it never holds an exponent marker.
pub proof fn lemma_real_text_plain(r: Real)
    ensures
        forall|i: int| 0 <= i < real_text(r).len() ==> is_plain_decimal(#[trigger] real_text(r)[i]),
{
    let m = r.mantissa as int;
    let mag: nat = if m < 0 { (-m) as nat } else { m as nat };
    let (d, e) = strip(mag, r.exp as int);
    lemma_nat_text_digits(d);
    let t = decimal_text(d, e);
    assert(forall|i: int| 0 <= i < t.len() ==> is_plain_decimal(#[trigger] t[i]));
}

} // verus!
