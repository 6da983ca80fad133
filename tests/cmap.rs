use pdf_writer::cmap::{cmap_bytes, write_cmap};
use pdf_writer::obj::Document;
use pdf_writer::prim::{Name, Str};
use pdf_writer::text::SystemInfo;

fn info() -> SystemInfo<'static> {
    SystemInfo { registry: Str(b"Adobe"), ordering: Str(b"UCS"), supplement: 0 }
}

fn bfchar_block(s: &str) -> (String, Vec<String>) {
    let start = s.find(" beginbfchar\n").unwrap();
    let count_start = s[..start].rfind('\n').unwrap() + 1;
    let count = s[count_start..start].to_string();
    let rest = &s[start + " beginbfchar\n".len()..];
    let end = rest.find("endbfchar\n").unwrap();
    let lines = rest[..end].lines().map(|l| l.to_string()).collect();
    (count, lines)
}

#[test]
fn cmap_line_count() {
    let mapping = [(1u16, 'A'), (2u16, 'b'), (3u16, '\u{20AC}')];
    let s = String::from_utf8(cmap_bytes(Name(b"Custom"), info(), &mapping)).unwrap();
    let (count, lines) = bfchar_block(&s);
    assert_eq!(count, "3");
    assert_eq!(lines, vec!["<0001> <0041>", "<0002> <0062>", "<0003> <20AC>"]);
}

#[test]
fn cmap_empty_mapping() {
    let s = String::from_utf8(cmap_bytes(Name(b"Custom"), info(), &[])).unwrap();
    let (count, lines) = bfchar_block(&s);
    assert_eq!(count, "0");
    assert!(lines.is_empty());
}

#[test]
fn cmap_surrogates() {
    let mapping = [(0xFFFFu16, '\u{1F600}'), (0x0010u16, '\u{FFFF}')];
    let s = String::from_utf8(cmap_bytes(Name(b"Custom"), info(), &mapping)).unwrap();
    let (_, lines) = bfchar_block(&s);
    assert_eq!(lines, vec!["<FFFF> <D83DDE00>", "<0010> <FFFF>"]);
}

#[test]
fn cmap_whole_script() {
    let s = String::from_utf8(cmap_bytes(Name(b"Custom"), info(), &[(7u16, 'z')])).unwrap();
    let expected = "%!PS-Adobe-3.0 Resource-CMap\n\
%%DocumentNeededResources: procset CIDInit\n\
%%IncludeResource: procset CIDInit\n\
%%BeginResource: CMap Custom\n\
%%Title: (Custom Adobe UCS 0)\n\
%%Version: 1\n\
%%EndComments\n\
/CIDInit /ProcSet findresource begin\n\
9 dict begin\n\
begincmap\n\
/CIDSystemInfo 3 dict dup begin\n    \
/Registry (Adobe) def\n    \
/Ordering (UCS) def\n    \
/Supplement 0 def\n\
end def\n\
/CMapName /Custom def\n\
/CMapVersion 1 def\n\
/CMapType 0 def\n\
1 begincodespacerange\n\
<0000> <ffff>\n\
endcodespacerange\n\
1 beginbfchar\n\
<0007> <007A>\n\
endbfchar\n\
endcmap\n\
CMapName currentdict /CMap defineresource pop\n\
end\n\
end\n\
%%EndResource\n\
%%EOF";
    assert_eq!(s, expected);
}

#[test]
fn cmap_stream_object() {
    let mut doc = Document::new();
    let id = doc.alloc_ref();
    let mapping = [(1u16, 'A')];
    write_cmap(&mut doc, id, Name(b"Custom"), info(), &mapping);
    let payload = cmap_bytes(Name(b"Custom"), info(), &mapping);
    let s = String::from_utf8(doc.as_bytes().to_vec()).unwrap();
    let head = format!(
        "1 0 obj\n<< /Length {} /Type /CMap /CMapName /Custom /CIDSystemInfo \
         << /Registry (Adobe) /Ordering (UCS) /Supplement 0 >> >>\nstream\n",
        payload.len()
    );
    assert!(s.starts_with(&head));
    assert!(s.ends_with("%%EOF\nendstream\nendobj\n\n"));
    assert_eq!(&s[head.len()..head.len() + payload.len()], String::from_utf8(payload).unwrap());
}
