use pdf_writer::obj::{Document, Frame};
use pdf_writer::prim::{Name, Primitive, Real, Rect, Ref, Str};

fn one_value(p: Primitive) -> String {
    let mut doc = Document::new();
    let id = doc.alloc_ref();
    let mut o = doc.indirect(id);
    o.value(p);
    doc.finish(o);
    let s = String::from_utf8(doc.as_bytes().to_vec()).unwrap();
    s.strip_prefix("1 0 obj\n").unwrap().strip_suffix("\nendobj\n\n").unwrap().to_string()
}

fn real_of(m: i32, e: i16) -> String {
    one_value(Primitive::Real(Real::new(m, e)))
}

#[test]
fn real_integers() {
    assert_eq!(real_of(12, 0), "12");
    assert_eq!(real_of(0, 0), "0");
    assert_eq!(real_of(3, 2), "300");
    assert_eq!(real_of(-7, 1), "-70");
}

#[test]
fn real_fractions() {
    assert_eq!(real_of(15, -1), "1.5");
    assert_eq!(real_of(-5, -3), "-0.005");
    assert_eq!(real_of(123456789, -4), "12345.6789");
    assert_eq!(real_of(1, -45), format!("0.{}1", "0".repeat(44)));
}

#[test]
fn real_trailing_zeros_trimmed() {
    assert_eq!(real_of(1200, -2), "12");
    assert_eq!(real_of(1250, -3), "1.25");
    assert_eq!(real_of(0, -3), "0");
    assert_eq!(real_of(10, -1), "1");
}

#[test]
fn real_extremes() {
    assert_eq!(real_of(i32::MIN, 0), "-2147483648");
    assert_eq!(real_of(34028235, 31), format!("34028235{}", "0".repeat(31)));
    assert!(!real_of(-2147483647, -20).contains('e'));
}

#[test]
fn integers_and_scalars() {
    assert_eq!(one_value(Primitive::Int(i32::MIN)), "-2147483648");
    assert_eq!(one_value(Primitive::Int(0)), "0");
    assert_eq!(one_value(Primitive::Int(907)), "907");
    assert_eq!(one_value(Primitive::Bool(true)), "true");
    assert_eq!(one_value(Primitive::Bool(false)), "false");
    assert_eq!(one_value(Primitive::Name(Name(b"Font"))), "/Font");
    assert_eq!(one_value(Primitive::Ref(Ref::new(42))), "42 0 R");
}

#[test]
fn literal_string_escapes() {
    assert_eq!(one_value(Primitive::Str(Str(b"a(b)\\c"))), "(a\\(b\\)\\\\c)");
    assert_eq!(one_value(Primitive::Str(Str(b""))), "()");
}

#[test]
fn rect_value() {
    let r = Rect {
        x1: Real::from_int(0),
        y1: Real::from_int(0),
        x2: Real::new(5955, -1),
        y2: Real::from_int(842),
    };
    assert_eq!(one_value(Primitive::Rect(r)), "[ 0 0 595.5 842 ]");
}

#[test]
fn nested_containers() {
    let mut doc = Document::new();
    let id = doc.alloc_ref();
    let mut o = doc.indirect(id);
    o.dict();
    o.pair(Name(b"A"), Primitive::Int(1));
    o.key(Name(b"B"));
    o.array();
    o.items(&[Primitive::Int(1), Primitive::Name(Name(b"x"))]);
    o.any();
    o.begin(Frame::Dict);
    o.end();
    o.end();
    o.key(Name(b"C"));
    o.array();
    o.end();
    o.end();
    doc.finish(o);
    let s = String::from_utf8(doc.as_bytes().to_vec()).unwrap();
    assert_eq!(s, "1 0 obj\n<< /A 1 /B [ 1 /x << >> ] /C [ ] >>\nendobj\n\n");
    assert_eq!(s.matches("<<").count(), s.matches(">>").count());
    assert_eq!(s.matches('[').count(), s.matches(']').count());
}

#[test]
fn objects_in_order() {
    let mut doc = Document::new();
    let a = doc.alloc_ref();
    let b = doc.alloc_ref();
    assert_eq!((a.get(), b.get()), (1, 2));
    let mut ob = doc.indirect(b);
    let mut oa = doc.indirect(a);
    ob.value(Primitive::Int(7));
    oa.value(Primitive::Ref(b));
    doc.finish(ob);
    doc.finish(oa);
    let s = String::from_utf8(doc.as_bytes().to_vec()).unwrap();
    assert_eq!(s, "2 0 obj\n7\nendobj\n\n1 0 obj\n2 0 R\nendobj\n\n");
}

#[test]
fn stream_object() {
    let mut doc = Document::new();
    let id = doc.alloc_ref();
    let mut o = doc.stream(id, b"q Q".to_vec());
    o.end();
    doc.finish(o);
    let s = String::from_utf8(doc.as_bytes().to_vec()).unwrap();
    assert_eq!(s, "1 0 obj\n<< /Length 3 >>\nstream\nq Q\nendstream\nendobj\n\n");
}
