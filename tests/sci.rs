use pdf_writer::prim::Real;

fn sci(s: &str) -> Option<(i32, i16)> {
    Real::from_sci(s.as_bytes()).map(|r| (r.mantissa, r.exp))
}

#[test]
fn sci_plain_forms() {
    assert_eq!(sci("1.25e1"), Some((125, -1)));
    assert_eq!(sci("-1.5e-3"), Some((-15, -4)));
    assert_eq!(sci("0e0"), Some((0, 0)));
    assert_eq!(sci("-0e0"), Some((0, 0)));
    assert_eq!(sci("12e2"), Some((12, 2)));
}

#[test]
fn sci_float_extremes() {
    assert_eq!(sci(&format!("{:e}", f32::MAX)), Some((34028235, 31)));
    assert_eq!(sci(&format!("{:e}", f32::from_bits(1))), Some((1, -45)));
    assert_eq!(sci(&format!("{:e}", 0.1f32)), Some((1, -1)));
}

#[test]
fn sci_mantissa_limits() {
    assert_eq!(sci("-2.147483648e9"), Some((i32::MIN, -0)));
    assert_eq!(sci("2.147483648e9"), None);
    assert_eq!(sci("2.147483647e0"), Some((i32::MAX, -9)));
    assert_eq!(sci("1e32767"), Some((1, i16::MAX)));
    assert_eq!(sci("1e32768"), None);
    assert_eq!(sci("1.0e-32767"), Some((10, i16::MIN)));
    assert_eq!(sci("1e99999999999999999999999"), None);
}

#[test]
fn sci_malformed() {
    for s in ["", "e1", "1", "1.e1", ".5e1", "1.5", "1e", "1e-", "1e1x", "--1e1", "1.5e+1", " 1e1"] {
        assert_eq!(sci(s), None, "{:?}", s);
    }
}

#[test]
fn sci_then_written() {
    let r = Real::from_sci(b"3.4028235e38").unwrap();
    let bytes = pdf_writer::text::TextStream::new().td(r, Real::from_int(0)).end();
    let s = String::from_utf8(bytes).unwrap();
    assert_eq!(s, format!("BT\n34028235{} 0 Td\nET", "0".repeat(31)));
}

fn written(r: Real) -> String {
    let bytes = pdf_writer::text::TextStream::new().td(r, Real::from_int(0)).end();
    let s = String::from_utf8(bytes).unwrap();
    s.strip_prefix("BT\n").unwrap().strip_suffix(" 0 Td\nET").unwrap().to_string()
}

#[test]
fn float_round_trip() {
    let mut bits: u32 = 0x1234_5678;
    let mut samples = vec![0.0f32, -0.0, 1.0, -1.0, 0.1, 12.0, 500.0, f32::MAX, f32::MIN,
        f32::MIN_POSITIVE, f32::from_bits(1), f32::EPSILON, 16777217.0, 1.0e-7];
    for _ in 0..2000 {
        bits = bits.wrapping_mul(1_664_525).wrapping_add(1_013_904_223);
        let f = f32::from_bits(bits);
        if f.is_finite() {
            samples.push(f);
        }
    }
    for f in samples {
        let r = Real::from_sci(format!("{:e}", f).as_bytes()).unwrap();
        let text = written(r);
        assert!(!text.contains('e') && !text.contains('E'), "{}", text);
        let back: f32 = text.parse().unwrap();
        assert_eq!(back.to_bits() & 0x7fff_ffff, f.to_bits() & 0x7fff_ffff, "{}", text);
        if f != 0.0 {
            assert_eq!(back.to_bits(), f.to_bits());
        }
    }
}
