//! Character maps: the embedded script that maps character codes to Unicode,
//! registered as a stream object.
use vstd::prelude::*;
use crate::obj::{Document, Obj, entry, object_text};
use crate::prim::{
    Name, Primitive, Ref, hex_u16, int_text, name_text, nat_text, push_bytes, push_hex_u16,
    push_int, push_name, push_nat, push_str, push_str_lit, str_text, text,
};
use crate::text::{SystemInfo, system_info_text};

verus! {

/// The UTF-16 code units of a character: one below U+10000, else a surrogate
/// pair.
pub open spec fn utf16_units(c: char) -> Seq<u16> {
    let v = c as int;
    if v < 0x10000 {
        seq![v as u16]
    } else {
        let w = v - 0x10000;
        seq![(0xD800 + w / 0x400) as u16, (0xDC00 + w % 0x400) as u16]
    }
}

/// Four hexadecimal digits for each code unit, in order.
pub open spec fn units_hex(us: Seq<u16>) -> Seq<u8>
    decreases us.len(),
{
    if us.len() == 0 {
        Seq::empty()
    } else {
        units_hex(us.drop_last()) + hex_u16(us.last())
    }
}

/// One mapping line: `<code> <units>` and a newline.
pub open spec fn bfchar_line(code: u16, c: char) -> Seq<u8> {
    seq![60u8] + hex_u16(code) + seq![62u8, 32u8, 60u8] + units_hex(utf16_units(c)) + seq![
        62u8,
        10u8,
    ]
}

/// The mapping lines, in order.
pub open spec fn bfchar_lines(m: Seq<(u16, char)>) -> Seq<u8>
    decreases m.len(),
{
    if m.len() == 0 {
        Seq::empty()
    } else {
        bfchar_lines(m.drop_last()) + bfchar_line(m.last().0, m.last().1)
    }
}

/// The comment lines that open the script.
pub open spec fn cmap_comments(name: Seq<u8>, info: SystemInfo) -> Seq<u8> {
    text("%!PS-Adobe-3.0 Resource-CMap\n%%DocumentNeededResources: procset CIDInit\n")
        + text("%%IncludeResource: procset CIDInit\n%%BeginResource: CMap ") + name
        + text("\n%%Title: (") + name + text(" ") + info.registry.0@ + text(" ")
        + info.ordering.0@ + text(" ") + int_text(info.supplement as int)
        + text(")\n%%Version: 1\n%%EndComments\n")
}

/// The definitions that follow the comments: collection, name, version,
/// type and code space.
pub open spec fn cmap_defs(name: Seq<u8>, info: SystemInfo) -> Seq<u8> {
    text("/CIDInit /ProcSet findresource begin\n9 dict begin\nbegincmap\n")
        + text("/CIDSystemInfo 3 dict dup begin\n    /Registry ") + str_text(info.registry.0@)
        + text(" def\n    /Ordering ") + str_text(info.ordering.0@)
        + text(" def\n    /Supplement ") + int_text(info.supplement as int)
        + text(" def\nend def\n/CMapName ") + name_text(name)
        + text(" def\n/CMapVersion 1 def\n/CMapType 0 def\n")
        + text("1 begincodespacerange\n<0000> <ffff>\nendcodespacerange\n")
}

/// Everything before the count of mappings.
pub open spec fn cmap_head(name: Seq<u8>, info: SystemInfo) -> Seq<u8> {
    cmap_comments(name, info) + cmap_defs(name, info)
}

/// Everything after the mapping lines.
pub open spec fn cmap_foot() -> Seq<u8> {
    text("endbfchar\nendcmap\nCMapName currentdict /CMap defineresource pop\n")
        + text("end\nend\n%%EndResource\n%%EOF")
}

/// The whole character map script.
#[verifier::opaque]
pub open spec fn cmap_text(name: Seq<u8>, info: SystemInfo, m: Seq<(u16, char)>) -> Seq<u8> {
    cmap_head(name, info) + nat_text(m.len()) + text(" beginbfchar\n") + bfchar_lines(m)
        + cmap_foot()
}

/// The dictionary of a character map stream whose payload has `len` bytes.
pub open spec fn cmap_dict_text(name: Seq<u8>, info: SystemInfo, len: int) -> Seq<u8> {
    text("<<") + entry(text("Length"), int_text(len)) + cmap_entries(name, info) + text(" >>")
}

/// Appends the UTF-16 code units of a character in hexadecimal.
fn push_utf16(buf: &mut Vec<u8>, c: char)
    ensures
        final(buf)@ == old(buf)@ + units_hex(utf16_units(c)),
{
    let v: u32 = c as u32;
    reveal_with_fuel(units_hex, 3);
    if v < 0x10000 {
        let u = v as u16;
        push_hex_u16(buf, u);
        assert(utf16_units(c) =~= seq![u]);
        assert(seq![u].drop_last() =~= Seq::<u16>::empty());
    } else {
        let w: u32 = v - 0x10000;
        let hi = (0xD800 + w / 0x400) as u16;
        let lo = (0xDC00 + w % 0x400) as u16;
        push_hex_u16(buf, hi);
        push_hex_u16(buf, lo);
        assert(utf16_units(c) =~= seq![hi, lo]);
        assert(seq![hi, lo].drop_last() =~= seq![hi]);
        assert(seq![hi].drop_last() =~= Seq::<u16>::empty());
    }
    assert(final(buf)@ =~= old(buf)@ + units_hex(utf16_units(c)));
}

fn push_cmap_comments(buf: &mut Vec<u8>, name: Name, info: SystemInfo)
    ensures
        final(buf)@ == old(buf)@ + cmap_comments(name.0@, info),
{
    let ghost pre = buf@;
    push_str(buf, "%!PS-Adobe-3.0 Resource-CMap\n%%DocumentNeededResources: procset CIDInit\n");
    push_str(buf, "%%IncludeResource: procset CIDInit\n%%BeginResource: CMap ");
    push_bytes(buf, name.0);
    push_str(buf, "\n%%Title: (");
    push_bytes(buf, name.0);
    let ghost mid = buf@;
    push_str(buf, " ");
    push_bytes(buf, info.registry.0);
    push_str(buf, " ");
    push_bytes(buf, info.ordering.0);
    push_str(buf, " ");
    push_int(buf, info.supplement as i64);
    push_str(buf, ")\n%%Version: 1\n%%EndComments\n");
    assert(mid =~= pre
        + text("%!PS-Adobe-3.0 Resource-CMap\n%%DocumentNeededResources: procset CIDInit\n")
        + text("%%IncludeResource: procset CIDInit\n%%BeginResource: CMap ") + name.0@
        + text("\n%%Title: (") + name.0@);
    assert(final(buf)@ =~= old(buf)@ + cmap_comments(name.0@, info));
}

fn push_cmap_defs(buf: &mut Vec<u8>, name: Name, info: SystemInfo)
    ensures
        final(buf)@ == old(buf)@ + cmap_defs(name.0@, info),
{
    let ghost pre = buf@;
    push_str(buf, "/CIDInit /ProcSet findresource begin\n9 dict begin\nbegincmap\n");
    push_str(buf, "/CIDSystemInfo 3 dict dup begin\n    /Registry ");
    push_str_lit(buf, info.registry);
    push_str(buf, " def\n    /Ordering ");
    push_str_lit(buf, info.ordering);
    let ghost mid = buf@;
    push_str(buf, " def\n    /Supplement ");
    push_int(buf, info.supplement as i64);
    push_str(buf, " def\nend def\n/CMapName ");
    push_name(buf, name);
    push_str(buf, " def\n/CMapVersion 1 def\n/CMapType 0 def\n");
    push_str(buf, "1 begincodespacerange\n<0000> <ffff>\nendcodespacerange\n");
    assert(mid =~= pre + text("/CIDInit /ProcSet findresource begin\n9 dict begin\nbegincmap\n")
        + text("/CIDSystemInfo 3 dict dup begin\n    /Registry ") + str_text(info.registry.0@)
        + text(" def\n    /Ordering ") + str_text(info.ordering.0@));
    assert(final(buf)@ =~= old(buf)@ + cmap_defs(name.0@, info));
}

/// The character map script that maps each code to its character, one line
/// per mapping, in order.
pub fn cmap_bytes(name: Name, info: SystemInfo, mapping: &[(u16, char)]) -> (r: Vec<u8>)
    ensures
        r@ == cmap_text(name.0@, info, mapping@),
{
    let mut buf: Vec<u8> = Vec::new();
    push_cmap_comments(&mut buf, name, info);
    push_cmap_defs(&mut buf, name, info);
    assert(buf@ =~= cmap_head(name.0@, info));
    push_nat(&mut buf, mapping.len() as u64);
    push_str(&mut buf, " beginbfchar\n");
    let ghost pre = buf@;
    let mut i: usize = 0;
    while i < mapping.len()
        invariant
            i <= mapping@.len(),
            buf@ == pre + bfchar_lines(mapping@.subrange(0, i as int)),
        decreases mapping@.len() - i,
    {
        let (code, c) = mapping[i];
        let ghost before = buf@;
        buf.push(60u8);
        push_hex_u16(&mut buf, code);
        buf.push(62u8);
        buf.push(32u8);
        buf.push(60u8);
        push_utf16(&mut buf, c);
        buf.push(62u8);
        buf.push(10u8);
        assert(buf@ =~= before + bfchar_line(code, c));
        i += 1;
        assert(mapping@.subrange(0, i as int).drop_last() =~= mapping@.subrange(0, i - 1));
        assert(buf@ =~= pre + bfchar_lines(mapping@.subrange(0, i as int)));
    }
    assert(mapping@.subrange(0, i as int) =~= mapping@);
    push_str(&mut buf, "endbfchar\nendcmap\nCMapName currentdict /CMap defineresource pop\n");
    push_str(&mut buf, "end\nend\n%%EndResource\n%%EOF");
    reveal(cmap_text);
    assert(buf@ =~= cmap_text(name.0@, info, mapping@));
    buf
}

/// The entries of a character map stream's dictionary after its length.
pub open spec fn cmap_entries(name: Seq<u8>, info: SystemInfo) -> Seq<u8> {
    entry(text("Type"), name_text(text("CMap"))) + entry(text("CMapName"), name_text(name))
        + entry(text("CIDSystemInfo"), system_info_text(info))
}

fn write_cmap_entries(dict: &mut Obj, name: Name, info: SystemInfo)
    requires
        old(dict).wf(),
        old(dict).in_dict(),
    ensures
        final(dict).wf(),
        final(dict).in_dict(),
        final(dict).bytes() == old(dict).bytes() + cmap_entries(name.0@, info),
        final(dict).frames() == old(dict).frames(),
        final(dict).id() == old(dict).id(),
        final(dict).data() == old(dict).data(),
{
    dict.pair(Name("Type".as_bytes()), Primitive::Name(Name("CMap".as_bytes())));
    dict.pair(Name("CMapName".as_bytes()), Primitive::Name(name));
    dict.key(Name("CIDSystemInfo".as_bytes()));
    info.write(dict);
    assert(dict.bytes() =~= old(dict).bytes() + cmap_entries(name.0@, info));
}

/// Writes a character map as the stream object `id` and registers it.
pub fn write_cmap(
    w: &mut Document,
    id: Ref,
    name: Name,
    info: SystemInfo,
    mapping: &[(u16, char)],
)
    requires
        old(w).wf(),
        1 <= id.num() < old(w).next(),
        !old(w).registered().contains(id.num()),
        !old(w).pending().contains(id.num()),
        cmap_text(name.0@, info, mapping@).len() <= 2147483647,
    ensures
        final(w).wf(),
        final(w).registered() == old(w).registered().push(id.num()),
        final(w).pending() == old(w).pending(),
        final(w).next() == old(w).next(),
        final(w).bytes() == old(w).bytes() + object_text(
            id,
            cmap_dict_text(name.0@, info, cmap_text(name.0@, info, mapping@).len() as int),
            Some(cmap_text(name.0@, info, mapping@)),
        ),
{
    let buf = cmap_bytes(name, info, mapping);
    let ghost len = buf@.len() as int;
    let mut dict = w.stream(id, buf);
    write_cmap_entries(&mut dict, name, info);
    dict.end();
    assert(dict.bytes() =~= cmap_dict_text(name.0@, info, len));
    w.finish(dict);
    assert(final(w).pending() =~= old(w).pending());
}

/// How many newline bytes a text holds.
pub open spec fn count_newlines(s: Seq<u8>) -> nat
    decreases s.len(),
{
    if s.len() == 0 {
        0
    } else {
        count_newlines(s.drop_last()) + if s.last() == 10 {
            1nat
        } else {
            0nat
        }
    }
}

proof fn lemma_count_concat(a: Seq<u8>, b: Seq<u8>)
    ensures
        count_newlines(a + b) == count_newlines(a) + count_newlines(b),
    decreases b.len(),
{
    if b.len() == 0 {
        assert(a + b =~= a);
    } else {
        assert((a + b).drop_last() =~= a + b.drop_last());
        lemma_count_concat(a, b.drop_last());
    }
}

proof fn lemma_hex_u16_no_newline(v: u16)
    ensures
        count_newlines(hex_u16(v)) == 0,
{
    let h = hex_u16(v);
    reveal_with_fuel(count_newlines, 5);
    assert(h.drop_last().drop_last().drop_last().drop_last() =~= Seq::<u8>::empty());
}

proof fn lemma_units_no_newline(us: Seq<u16>)
    ensures
        count_newlines(units_hex(us)) == 0,
    decreases us.len(),
{
    if us.len() > 0 {
        lemma_units_no_newline(us.drop_last());
        lemma_hex_u16_no_newline(us.last());
        lemma_count_concat(units_hex(us.drop_last()), hex_u16(us.last()));
    }
}

proof fn lemma_line_one_newline(code: u16, c: char)
    ensures
        count_newlines(bfchar_line(code, c)) == 1,
        bfchar_line(code, c).last() == 10,
{
    let a = seq![60u8];
    let b = hex_u16(code);
    let d = seq![62u8, 32u8, 60u8];
    let e = units_hex(utf16_units(c));
    let f = seq![62u8, 10u8];
    reveal_with_fuel(count_newlines, 4);
    assert(a.drop_last() =~= Seq::<u8>::empty());
    assert(d.drop_last().drop_last().drop_last() =~= Seq::<u8>::empty());
    assert(f.drop_last().drop_last() =~= Seq::<u8>::empty());
    lemma_hex_u16_no_newline(code);
    lemma_units_no_newline(utf16_units(c));
    lemma_count_concat(a, b);
    lemma_count_concat(a + b, d);
    lemma_count_concat(a + b + d, e);
    lemma_count_concat(a + b + d + e, f);
}

/// The mapping block of a character map holds exactly one line per mapping:
/// the script is the head, the declared count (the number of mappings),
/// ` beginbfchar`, the lines, then `endbfchar` and the foot; the lines hold
/// one newline per mapping, and end with one.
pub proof fn lemma_cmap_line_count(name: Seq<u8>, info: SystemInfo, m: Seq<(u16, char)>)
    ensures
        cmap_text(name, info, m) == cmap_head(name, info) + nat_text(m.len()) + text(
            " beginbfchar\n",
        ) + bfchar_lines(m) + cmap_foot(),
        count_newlines(bfchar_lines(m)) == m.len(),
        m.len() > 0 ==> bfchar_lines(m).last() == 10,
    decreases m.len(),
{
    reveal(cmap_text);
    if m.len() > 0 {
        lemma_cmap_line_count(name, info, m.drop_last());
        lemma_line_one_newline(m.last().0, m.last().1);
        lemma_count_concat(bfchar_lines(m.drop_last()), bfchar_line(m.last().0, m.last().1));
    }
}

/// A character at or above U+10000 is written as two UTF-16 code units, a
/// high and a low surrogate, eight hexadecimal digits in all; one below is
/// written as the single code unit of its own value, four digits.
pub proof fn lemma_surrogates(c: char)
    ensures
        (c as int) < 0x10000 ==> utf16_units(c) == seq![c as u16] && units_hex(utf16_units(c)).len()
            == 4,
        (c as int) >= 0x10000 ==> {
            let u = utf16_units(c);
            &&& u.len() == 2
            &&& 0xD800 <= u[0] < 0xDC00
            &&& 0xDC00 <= u[1] < 0xE000
            &&& units_hex(u).len() == 8
        },
{
    reveal_with_fuel(units_hex, 3);
    let u = utf16_units(c);
    if (c as int) < 0x10000 {
        assert(u.drop_last() =~= Seq::<u16>::empty());
    } else {
        assert(u.drop_last().drop_last() =~= Seq::<u16>::empty());
    }
}

} // verus!
