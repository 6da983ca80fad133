use pdf_writer::obj::Document;
use pdf_writer::prim::{Name, Real, Rect, Str};
use pdf_writer::text::{
    CIDFont, CIDFontType, FontDescriptor, FontFlags, SystemInfo, TextStream, Type0Font, Type1Font,
};

fn body(doc: &Document) -> String {
    String::from_utf8(doc.as_bytes().to_vec()).unwrap()
}

#[test]
fn text_stream_example() {
    let bytes = TextStream::new()
        .tf(Name(b"F1"), Real::from_int(12))
        .td(Real::from_int(0), Real::from_int(0))
        .tj(b"Hi")
        .end();
    assert_eq!(bytes, b"BT\n/F1 12 Tf\n0 0 Td\n<4869> Tj\nET".to_vec());
}

#[test]
fn text_stream_empty() {
    assert_eq!(TextStream::new().end(), b"BT\nET".to_vec());
}

#[test]
fn text_stream_matrix_and_hex() {
    let bytes = TextStream::new()
        .tm(
            Real::from_int(1),
            Real::from_int(0),
            Real::new(-5, -1),
            Real::from_int(1),
            Real::new(725, -1),
            Real::from_int(-3),
        )
        .tj(&[0x00, 0xAB, 0xff])
        .end();
    assert_eq!(bytes, b"BT\n1 0 -0.5 1 72.5 -3 Tm\n<00ABFF> Tj\nET".to_vec());
}

#[test]
fn type0_font_example() {
    let mut doc = Document::new();
    let font_id = doc.alloc_ref();
    let mut cid_id = doc.alloc_ref();
    for _ in 0..3 {
        cid_id = doc.alloc_ref();
    }
    assert_eq!(cid_id.get(), 5);
    let mut font = Type0Font::start(doc.indirect(font_id));
    font.base_font(Name(b"Arial-Bold"));
    font.encoding_predefined(Name(b"Identity-H"));
    font.descendant_font(cid_id);
    doc.finish(font.finish());
    assert_eq!(
        body(&doc),
        "1 0 obj\n<< /Type /Font /Subtype /Type0 /BaseFont /Arial-Bold /Encoding /Identity-H \
         /DescendantFonts [ 5 0 R ] >>\nendobj\n\n"
    );
}

#[test]
fn type0_font_cmap_references() {
    let mut doc = Document::new();
    let font_id = doc.alloc_ref();
    let cmap_id = doc.alloc_ref();
    let mut font = Type0Font::start(doc.indirect(font_id));
    font.encoding_cmap(cmap_id);
    font.to_unicode(cmap_id);
    doc.finish(font.finish());
    assert_eq!(
        body(&doc),
        "1 0 obj\n<< /Type /Font /Subtype /Type0 /Encoding 2 0 R /ToUnicode 2 0 R >>\nendobj\n\n"
    );
}

#[test]
fn type1_font_base_font() {
    let mut doc = Document::new();
    let id = doc.alloc_ref();
    let mut font = Type1Font::start(doc.indirect(id));
    font.base_font(Name(b"Helvetica"));
    doc.finish(font.finish());
    assert_eq!(
        body(&doc),
        "1 0 obj\n<< /Type /Font /Subtype /Type1 /BaseFont /Helvetica >>\nendobj\n\n"
    );
}

#[test]
fn widths_same_then_individual() {
    let mut doc = Document::new();
    let id = doc.alloc_ref();
    let font = CIDFont::start(doc.indirect(id), CIDFontType::Type2);
    let mut w = font.widths();
    w.same(10, 12, Real::from_int(500));
    w.individual(20, &[Real::from_int(1), Real::from_int(2)]);
    let font = w.finish();
    doc.finish(font.finish());
    assert_eq!(
        body(&doc),
        "1 0 obj\n<< /Type /Font /Subtype /CIDFontType2 /W [ 10 12 500 20 [ 1 2 ] ] >>\nendobj\n\n"
    );
}

#[test]
fn widths_empty_run() {
    let mut doc = Document::new();
    let id = doc.alloc_ref();
    let mut w = CIDFont::start(doc.indirect(id), CIDFontType::Type0).widths();
    w.individual(65535, &[]);
    doc.finish(w.finish().finish());
    assert_eq!(
        body(&doc),
        "1 0 obj\n<< /Type /Font /Subtype /CIDFontType0 /W [ 65535 [ ] ] >>\nendobj\n\n"
    );
}

#[test]
fn cid_font_entries() {
    let mut doc = Document::new();
    let id = doc.alloc_ref();
    let desc = doc.alloc_ref();
    let mut font = CIDFont::start(doc.indirect(id), CIDFontType::Type0);
    font.base_font(Name(b"Noto"));
    font.system_info(SystemInfo {
        registry: Str(b"Adobe"),
        ordering: Str(b"Identity"),
        supplement: 0,
    });
    font.font_descriptor(desc);
    doc.finish(font.finish());
    assert_eq!(
        body(&doc),
        "1 0 obj\n<< /Type /Font /Subtype /CIDFontType0 /BaseFont /Noto /CIDSystemInfo \
         << /Registry (Adobe) /Ordering (Identity) /Supplement 0 >> /FontDescriptor 2 0 R >>\
         \nendobj\n\n"
    );
}

#[test]
fn cid_font_type_names() {
    assert_eq!(CIDFontType::Type0.name().0, b"CIDFontType0");
    assert_eq!(CIDFontType::Type2.name().0, b"CIDFontType2");
}

#[test]
fn font_descriptor_entries() {
    let mut doc = Document::new();
    let id = doc.alloc_ref();
    let file = doc.alloc_ref();
    let mut d = FontDescriptor::start(doc.indirect(id));
    d.font_name(Name(b"Noto"));
    d.font_flags(FontFlags::from_bits_truncate(FontFlags::SERIF | FontFlags::NON_SYMBOLIC));
    d.font_bbox(Rect {
        x1: Real::from_int(-100),
        y1: Real::new(-2505, -1),
        x2: Real::from_int(1000),
        y2: Real::from_int(900),
    });
    d.italic_angle(Real::new(-125, -1));
    d.ascent(Real::from_int(880));
    d.descent(Real::from_int(-120));
    d.cap_height(Real::new(7005, -1));
    d.stem_v(Real::from_int(80));
    d.font_file2(file);
    doc.finish(d.finish());
    assert_eq!(
        body(&doc),
        "1 0 obj\n<< /Type /FontDescriptor /FontName /Noto /Flags 34 \
         /FontBBox [ -100 -250.5 1000 900 ] /ItalicAngle -12.5 /Ascent 880 /Descent -120 \
         /CapHeight 700.5 /StemV 80 /FontFile2 2 0 R >>\nendobj\n\n"
    );
}

#[test]
fn font_flags_bits() {
    let f = FontFlags::from_bits_truncate(FontFlags::FIXED_PITCH)
        .union(FontFlags::from_bits_truncate(FontFlags::FORCE_BOLD));
    assert_eq!(f.bits(), 1 | (1 << 18));
    assert!(f.contains(FontFlags::from_bits_truncate(FontFlags::FORCE_BOLD)));
    assert!(!f.contains(FontFlags::from_bits_truncate(FontFlags::ITALIC)));
    assert_eq!(FontFlags::from_bits_truncate(u32::MAX).bits(), 0x7006F);
    assert_eq!(FontFlags::from_bits_truncate(1 << 4).bits(), 0);
    assert_eq!(FontFlags::empty().bits(), 0);
    assert_eq!(
        FontFlags::SYMBOLIC | FontFlags::SCRIPT | FontFlags::ITALIC | FontFlags::ALL_CAP
            | FontFlags::SMALL_CAP,
        4 | 8 | 64 | (1 << 16) | (1 << 17)
    );
}
