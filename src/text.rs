//! Text content streams, font dictionaries and character maps.
use vstd::prelude::*;
use crate::obj::{Frame, Obj, entry, item_text, name_entry, pair_text};
use crate::prim::{
    Name, Primitive, Real, Rect, Ref, Str, hex_bytes, int_text, name_text, prim_text, push_hex,
    push_name, push_real, push_str, real_text, text,
};

verus! {

/// A stream of text operations.
pub struct TextStream {
    buf: Vec<u8>,
}

impl TextStream {
    /// The operations written so far.
    pub closed spec fn bytes(&self) -> Seq<u8> {
        self.buf@
    }

    /// Create a new text stream: it begins a text object.
    pub fn new() -> (r: TextStream)
        ensures
            r.bytes() == text("BT\n"),
    {
        let mut buf: Vec<u8> = Vec::new();
        push_str(&mut buf, "BT\n");
        TextStream { buf }
    }

    /// `Tf` operator: Select a font by name and set the font size as a scale factor.
    pub fn tf(self, font: Name, size: Real) -> (r: TextStream)
        ensures
            r.bytes() == self.bytes() + name_text(font.0@) + text(" ") + real_text(size) + text(
                " Tf\n",
            ),
    {
        let mut s = self;
        push_name(&mut s.buf, font);
        push_str(&mut s.buf, " ");
        push_real(&mut s.buf, size);
        push_str(&mut s.buf, " Tf\n");
        s
    }

    /// `Td` operator: Move to the start of the next line.
    pub fn td(self, x: Real, y: Real) -> (r: TextStream)
        ensures
            r.bytes() == self.bytes() + real_text(x) + text(" ") + real_text(y) + text(" Td\n"),
    {
        let mut s = self;
        push_real(&mut s.buf, x);
        push_str(&mut s.buf, " ");
        push_real(&mut s.buf, y);
        push_str(&mut s.buf, " Td\n");
        s
    }

    /// `Tm` operator: Set the text matrix.
    pub fn tm(self, a: Real, b: Real, c: Real, d: Real, e: Real, f: Real) -> (r: TextStream)
        ensures
            r.bytes() == self.bytes() + real_text(a) + text(" ") + real_text(b) + text(" ")
                + real_text(c) + text(" ") + real_text(d) + text(" ") + real_text(e) + text(" ")
                + real_text(f) + text(" Tm\n"),
    {
        let mut s = self;
        push_real(&mut s.buf, a);
        push_str(&mut s.buf, " ");
        push_real(&mut s.buf, b);
        push_str(&mut s.buf, " ");
        push_real(&mut s.buf, c);
        push_str(&mut s.buf, " ");
        push_real(&mut s.buf, d);
        push_str(&mut s.buf, " ");
        push_real(&mut s.buf, e);
        push_str(&mut s.buf, " ");
        push_real(&mut s.buf, f);
        push_str(&mut s.buf, " Tm\n");
        s
    }

    /// `Tj` operator: Write text.
    ///
    /// This function takes raw bytes, written as a hexadecimal string. The
    /// encoding is up to the caller.
    pub fn tj(self, t: &[u8]) -> (r: TextStream)
        ensures
            r.bytes() == self.bytes() + text("<") + hex_bytes(t@) + text("> Tj\n"),
    {
        let mut s = self;
        push_str(&mut s.buf, "<");
        let ghost pre = s.buf@;
        let mut i: usize = 0;
        while i < t.len()
            invariant
                i <= t@.len(),
                s.buf@ == pre + hex_bytes(t@.subrange(0, i as int)),
            decreases t@.len() - i,
        {
            push_hex(&mut s.buf, t[i]);
            i += 1;
            assert(t@.subrange(0, i as int).drop_last() =~= t@.subrange(0, i - 1));
            assert(s.buf@ =~= pre + hex_bytes(t@.subrange(0, i as int)));
        }
        assert(t@.subrange(0, i as int) =~= t@);
        push_str(&mut s.buf, "> Tj\n");
        s
    }

    /// Return the raw constructed byte stream: the text object is ended.
    pub fn end(self) -> (r: Vec<u8>)
        ensures
            r@ == self.bytes() + text("ET"),
    {
        let mut s = self;
        push_str(&mut s.buf, "ET");
        s.buf
    }
}

/// Specifics about a character collection.
#[derive(Debug, Copy, Clone)]
pub struct SystemInfo<'a> {
    /// The issuer of the collection.
    pub registry: Str<'a>,
    /// A unique name of the collection within the registry.
    pub ordering: Str<'a>,
    /// The supplement number (i.e. the version).
    pub supplement: i32,
}

/// The dictionary text of a character collection.
pub open spec fn system_info_text(info: SystemInfo) -> Seq<u8> {
    text("<<") + pair_text(text("Registry"), Primitive::Str(info.registry)) + pair_text(
        text("Ordering"),
        Primitive::Str(info.ordering),
    ) + pair_text(text("Supplement"), Primitive::Int(info.supplement)) + text(" >>")
}

impl SystemInfo<'_> {
    /// Writes the collection as a dictionary into an open slot.
    pub fn write(&self, any: &mut Obj)
        requires
            old(any).wf(),
            old(any).slot_open(),
        ensures
            final(any).wf(),
            !final(any).slot_open(),
            final(any).bytes() == old(any).bytes() + system_info_text(*self),
            final(any).frames() == old(any).frames(),
            final(any).id() == old(any).id(),
            final(any).data() == old(any).data(),
    {
        any.dict();
        any.pair(Name("Registry".as_bytes()), Primitive::Str(self.registry));
        any.pair(Name("Ordering".as_bytes()), Primitive::Str(self.ordering));
        any.pair(Name("Supplement".as_bytes()), Primitive::Int(self.supplement));
        any.end();
        assert(any.frames() =~= old(any).frames());
        assert(any.bytes() =~= old(any).bytes() + system_info_text(*self));
    }
}

/// The subtype of a CID font.
#[derive(Debug, Copy, Clone, PartialEq, Eq, Hash, Structural)]
pub enum CIDFontType {
    /// A CID font containing CFF glyph descriptions.
    Type0,
    /// A CID font containing TrueType glyph descriptions.
    Type2,
}

/// The subtype name of a CID font type.
pub open spec fn cid_subtype(t: CIDFontType) -> Seq<u8> {
    match t {
        CIDFontType::Type0 => text("CIDFontType0"),
        CIDFontType::Type2 => text("CIDFontType2"),
    }
}

impl CIDFontType {
    /// The subtype name.
    pub fn name(self) -> (r: Name<'static>)
        ensures
            r.0@ == cid_subtype(self),
    {
        match self {
            CIDFontType::Type0 => Name("CIDFontType0".as_bytes()),
            CIDFontType::Type2 => Name("CIDFontType2".as_bytes()),
        }
    }
}

/// The bits that name a font characteristic.
pub const FONT_FLAG_MASK: u32 = 0x7006F;

/// Bitflags describing various characteristics of fonts.
#[derive(Debug, Copy, Clone, PartialEq, Eq, Hash, Structural)]
pub struct FontFlags {
    bits: u32,
}

impl FontFlags {
    /// All glyphs have the same width.
    pub const FIXED_PITCH: u32 = 1;
    /// Glyphs have serifs.
    pub const SERIF: u32 = 2;
    /// The font holds glyphs outside the standard Latin character set.
    pub const SYMBOLIC: u32 = 4;
    /// Glyphs resemble cursive handwriting.
    pub const SCRIPT: u32 = 8;
    /// The font uses the standard Latin character set.
    pub const NON_SYMBOLIC: u32 = 32;
    /// Glyphs have dominant vertical strokes that are slanted.
    pub const ITALIC: u32 = 64;
    /// The font holds no lowercase letters.
    pub const ALL_CAP: u32 = 65536;
    /// Lowercase letters are small capitals.
    pub const SMALL_CAP: u32 = 131072;
    /// Bold glyphs are painted with extra pixels even at small sizes.
    pub const FORCE_BOLD: u32 = 262144;

    /// The set bits.
    pub closed spec fn value(self) -> u32 {
        self.bits
    }

    /// Only named characteristics are set.
    pub open spec fn wf(self) -> bool {
        self.value() & FONT_FLAG_MASK == self.value()
    }

    /// No characteristic.
    pub fn empty() -> (r: FontFlags)
        ensures
            r.value() == 0,
    {
        FontFlags { bits: 0 }
    }

    /// The flags of the given bits, with those that name no characteristic
    /// dropped.
    pub fn from_bits_truncate(bits: u32) -> (r: FontFlags)
        ensures
            r.value() == bits & FONT_FLAG_MASK,
            r.wf(),
    {
        let b = bits & FONT_FLAG_MASK;
        assert(b & FONT_FLAG_MASK == b) by (bit_vector)
            requires
                b == bits & 0x7006Fu32,
        ;
        FontFlags { bits: b }
    }

    /// The set bits.
    pub fn bits(self) -> (r: u32)
        ensures
            r == self.value(),
    {
        self.bits
    }

    /// The characteristics of either.
    pub fn union(self, other: FontFlags) -> (r: FontFlags)
        ensures
            r.value() == self.value() | other.value(),
            self.wf() && other.wf() ==> r.wf(),
    {
        let a = self.bits;
        let b = other.bits;
        assert(a & FONT_FLAG_MASK == a && b & FONT_FLAG_MASK == b ==> (a | b) & FONT_FLAG_MASK == (
        a | b)) by (bit_vector);
        FontFlags { bits: a | b }
    }

    /// Whether every characteristic of `other` is set.
    pub fn contains(self, other: FontFlags) -> (r: bool)
        ensures
            r == (self.value() & other.value() == other.value()),
    {
        self.bits & other.bits == other.bits
    }
}

/// Writer for a _Type-1 font_.
pub struct Type1Font {
    dict: Obj,
}

impl Type1Font {
    /// The dictionary written so far.
    pub closed spec fn bytes(&self) -> Seq<u8> {
        self.dict.bytes()
    }

    /// The object this font belongs to.
    pub closed spec fn id(&self) -> Ref {
        self.dict.id()
    }

    /// The dictionary is the only open container, awaiting a key.
    pub closed spec fn wf(&self) -> bool {
        &&& self.dict.wf()
        &&& self.dict.in_dict()
        &&& self.dict.frames() == seq![Frame::Dict]
        &&& self.dict.data() == None::<Seq<u8>>
    }

    /// Starts the dictionary in the body of an indirect object and writes its
    /// type.
    pub fn start(any: Obj) -> (r: Self)
        requires
            any.wf(),
            any.slot_open(),
            any.frames().len() == 0,
            any.data() == None::<Seq<u8>>,
        ensures
            r.wf(),
            r.id() == any.id(),
            r.bytes() == any.bytes() + text("<<")
                + name_entry(text("Type"), text("Font"))
                + name_entry(text("Subtype"), text("Type1")),
    {
        let mut dict = any;
        dict.dict();
        dict.pair(Name("Type".as_bytes()), Primitive::Name(Name("Font".as_bytes())));
        dict.pair(Name("Subtype".as_bytes()), Primitive::Name(Name("Type1".as_bytes())));
        assert(dict.frames() =~= seq![Frame::Dict]);
        assert(dict.bytes() =~= any.bytes() + text("<<")
            + name_entry(text("Type"), text("Font"))
            + name_entry(text("Subtype"), text("Type1")));
        Type1Font { dict }
    }

    /// Closes the dictionary; the object is then complete.
    pub fn finish(self) -> (r: Obj)
        requires
            self.wf(),
        ensures
            r.wf(),
            r.complete(),
            r.id() == self.id(),
            r.bytes() == self.bytes() + text(" >>"),
            r.data() == None::<Seq<u8>>,
    {
        let mut dict = self.dict;
        dict.end();
        dict
    }

    /// Write the `/BaseFont` attribute.
    pub fn base_font(&mut self, name: Name)
        requires
            old(self).wf(),
        ensures
            final(self).wf(),
            final(self).id() == old(self).id(),
            final(self).bytes() == old(self).bytes() + name_entry(text("BaseFont"), name.0@),
    {
        self.dict.pair(Name("BaseFont".as_bytes()), Primitive::Name(name));
    }
}

/// Writer for a _Type-0 (composite) font_.
pub struct Type0Font {
    dict: Obj,
}

impl Type0Font {
    /// The dictionary written so far.
    pub closed spec fn bytes(&self) -> Seq<u8> {
        self.dict.bytes()
    }

    /// The object this font belongs to.
    pub closed spec fn id(&self) -> Ref {
        self.dict.id()
    }

    /// The dictionary is the only open container, awaiting a key.
    pub closed spec fn wf(&self) -> bool {
        &&& self.dict.wf()
        &&& self.dict.in_dict()
        &&& self.dict.frames() == seq![Frame::Dict]
        &&& self.dict.data() == None::<Seq<u8>>
    }

    /// Starts the dictionary in the body of an indirect object and writes its
    /// type.
    pub fn start(any: Obj) -> (r: Self)
        requires
            any.wf(),
            any.slot_open(),
            any.frames().len() == 0,
            any.data() == None::<Seq<u8>>,
        ensures
            r.wf(),
            r.id() == any.id(),
            r.bytes() == any.bytes() + text("<<")
                + name_entry(text("Type"), text("Font"))
                + name_entry(text("Subtype"), text("Type0")),
    {
        let mut dict = any;
        dict.dict();
        dict.pair(Name("Type".as_bytes()), Primitive::Name(Name("Font".as_bytes())));
        dict.pair(Name("Subtype".as_bytes()), Primitive::Name(Name("Type0".as_bytes())));
        assert(dict.frames() =~= seq![Frame::Dict]);
        assert(dict.bytes() =~= any.bytes() + text("<<")
            + name_entry(text("Type"), text("Font"))
            + name_entry(text("Subtype"), text("Type0")));
        Type0Font { dict }
    }

    /// Closes the dictionary; the object is then complete.
    pub fn finish(self) -> (r: Obj)
        requires
            self.wf(),
        ensures
            r.wf(),
            r.complete(),
            r.id() == self.id(),
            r.bytes() == self.bytes() + text(" >>"),
            r.data() == None::<Seq<u8>>,
    {
        let mut dict = self.dict;
        dict.end();
        dict
    }

    /// Write the `/BaseFont` attribute.
    pub fn base_font(&mut self, name: Name)
        requires
            old(self).wf(),
        ensures
            final(self).wf(),
            final(self).id() == old(self).id(),
            final(self).bytes() == old(self).bytes() + name_entry(text("BaseFont"), name.0@),
    {
        self.dict.pair(Name("BaseFont".as_bytes()), Primitive::Name(name));
    }

    /// Write the `/Encoding` attribute as a predefined encoding.
    pub fn encoding_predefined(&mut self, encoding: Name)
        requires
            old(self).wf(),
        ensures
            final(self).wf(),
            final(self).id() == old(self).id(),
            final(self).bytes() == old(self).bytes() + name_entry(text("Encoding"), encoding.0@),
    {
        self.dict.pair(Name("Encoding".as_bytes()), Primitive::Name(encoding));
    }

    /// Write the `/Encoding` attribute as a reference to a character map stream.
    pub fn encoding_cmap(&mut self, cmap: Ref)
        requires
            old(self).wf(),
        ensures
            final(self).wf(),
            final(self).id() == old(self).id(),
            final(self).bytes() == old(self).bytes() + entry(
                text("Encoding"),
                prim_text(Primitive::Ref(cmap)),
            ),
    {
        self.dict.pair(Name("Encoding".as_bytes()), Primitive::Ref(cmap));
    }

    /// Write the `/ToUnicode` attribute as a reference to a character map stream.
    pub fn to_unicode(&mut self, cmap: Ref)
        requires
            old(self).wf(),
        ensures
            final(self).wf(),
            final(self).id() == old(self).id(),
            final(self).bytes() == old(self).bytes() + entry(
                text("ToUnicode"),
                prim_text(Primitive::Ref(cmap)),
            ),
    {
        self.dict.pair(Name("ToUnicode".as_bytes()), Primitive::Ref(cmap));
    }

    /// Write the `/DescendantFonts` attribute as a one-element array containing a
    /// reference to a CID font.
    pub fn descendant_font(&mut self, cid_font: Ref)
        requires
            old(self).wf(),
        ensures
            final(self).wf(),
            final(self).id() == old(self).id(),
            final(self).bytes() == old(self).bytes() + entry(
                text("DescendantFonts"),
                text("[") + item_text(Primitive::Ref(cid_font)) + text(" ]"),
            ),
    {
        let ghost pre = self.dict.bytes();
        self.dict.key(Name("DescendantFonts".as_bytes()));
        self.dict.array();
        self.dict.item(Primitive::Ref(cid_font));
        self.dict.end();
        assert(self.dict.frames() =~= seq![Frame::Dict]);
        assert(self.dict.bytes() =~= pre + entry(
            text("DescendantFonts"),
            text("[") + item_text(Primitive::Ref(cid_font)) + text(" ]"),
        ));
    }
}

/// Writer for a _CID font_, a descendant of a Type-0 font.
pub struct CIDFont {
    dict: Obj,
}

impl CIDFont {
    /// The dictionary written so far.
    pub closed spec fn bytes(&self) -> Seq<u8> {
        self.dict.bytes()
    }

    /// The object this font belongs to.
    pub closed spec fn id(&self) -> Ref {
        self.dict.id()
    }

    /// The dictionary is the only open container, awaiting a key.
    pub closed spec fn wf(&self) -> bool {
        &&& self.dict.wf()
        &&& self.dict.in_dict()
        &&& self.dict.frames() == seq![Frame::Dict]
        &&& self.dict.data() == None::<Seq<u8>>
    }

    /// Starts the dictionary in the body of an indirect object and writes its
    /// type.
    pub fn start(any: Obj, subtype: CIDFontType) -> (r: Self)
        requires
            any.wf(),
            any.slot_open(),
            any.frames().len() == 0,
            any.data() == None::<Seq<u8>>,
        ensures
            r.wf(),
            r.id() == any.id(),
            r.bytes() == any.bytes() + text("<<")
                + name_entry(text("Type"), text("Font"))
                + name_entry(text("Subtype"), cid_subtype(subtype)),
    {
        let mut dict = any;
        dict.dict();
        dict.pair(Name("Type".as_bytes()), Primitive::Name(Name("Font".as_bytes())));
        dict.pair(Name("Subtype".as_bytes()), Primitive::Name(subtype.name()));
        assert(dict.frames() =~= seq![Frame::Dict]);
        assert(dict.bytes() =~= any.bytes() + text("<<")
            + name_entry(text("Type"), text("Font"))
            + name_entry(text("Subtype"), cid_subtype(subtype)));
        CIDFont { dict }
    }

    /// Closes the dictionary; the object is then complete.
    pub fn finish(self) -> (r: Obj)
        requires
            self.wf(),
        ensures
            r.wf(),
            r.complete(),
            r.id() == self.id(),
            r.bytes() == self.bytes() + text(" >>"),
            r.data() == None::<Seq<u8>>,
    {
        let mut dict = self.dict;
        dict.end();
        dict
    }

    /// Write the `/BaseFont` attribute.
    pub fn base_font(&mut self, name: Name)
        requires
            old(self).wf(),
        ensures
            final(self).wf(),
            final(self).id() == old(self).id(),
            final(self).bytes() == old(self).bytes() + name_entry(text("BaseFont"), name.0@),
    {
        self.dict.pair(Name("BaseFont".as_bytes()), Primitive::Name(name));
    }

    /// Write the `/FontDescriptor` attribute as a reference to a font descriptor.
    pub fn font_descriptor(&mut self, descriptor: Ref)
        requires
            old(self).wf(),
        ensures
            final(self).wf(),
            final(self).id() == old(self).id(),
            final(self).bytes() == old(self).bytes() + entry(
                text("FontDescriptor"),
                prim_text(Primitive::Ref(descriptor)),
            ),
    {
        self.dict.pair(Name("FontDescriptor".as_bytes()), Primitive::Ref(descriptor));
    }

    /// Write the `/CIDSystemInfo` dictionary.
    pub fn system_info(&mut self, info: SystemInfo)
        requires
            old(self).wf(),
        ensures
            final(self).wf(),
            final(self).id() == old(self).id(),
            final(self).bytes() == old(self).bytes() + entry(
                text("CIDSystemInfo"),
                system_info_text(info),
            ),
    {
        let ghost pre = self.dict.bytes();
        self.dict.key(Name("CIDSystemInfo".as_bytes()));
        info.write(&mut self.dict);
        assert(self.dict.bytes() =~= pre + entry(text("CIDSystemInfo"), system_info_text(info)));
    }

    /// Start writing the `/W` (widths) array; the font is handed back by
    /// [`Widths::finish`].
    pub fn widths(self) -> (r: Widths)
        requires
            self.wf(),
        ensures
            r.wf(),
            r.id() == self.id(),
            r.bytes() == self.bytes() + text(" ") + name_text(text("W")) + text(" ") + text("["),
    {
        let mut dict = self.dict;
        dict.key(Name("W".as_bytes()));
        Widths::start(dict)
    }
}

/// Writer for the _width array_ in a CID font.
pub struct Widths {
    array: Obj,
}

/// The text of widths as array items.
pub open spec fn reals_text(ws: Seq<Real>) -> Seq<u8>
    decreases ws.len(),
{
    if ws.len() == 0 {
        Seq::empty()
    } else {
        reals_text(ws.drop_last()) + text(" ") + real_text(ws.last())
    }
}

impl Widths {
    /// The object written so far.
    pub closed spec fn bytes(&self) -> Seq<u8> {
        self.array.bytes()
    }

    /// The object this array belongs to.
    pub closed spec fn id(&self) -> Ref {
        self.array.id()
    }

    /// The array is open inside the font dictionary, awaiting an item.
    pub closed spec fn wf(&self) -> bool {
        &&& self.array.wf()
        &&& self.array.in_array()
        &&& self.array.frames() == seq![Frame::Dict, Frame::Array]
        &&& self.array.data() == None::<Seq<u8>>
    }

    /// Starts the array in the open slot of a font dictionary's key.
    pub fn start(any: Obj) -> (r: Widths)
        requires
            any.wf(),
            any.slot_open(),
            any.frames() == seq![Frame::Dict],
            any.data() == None::<Seq<u8>>,
        ensures
            r.wf(),
            r.id() == any.id(),
            r.bytes() == any.bytes() + text("["),
    {
        let mut array = any;
        array.array();
        assert(array.frames() =~= seq![Frame::Dict, Frame::Array]);
        Widths { array }
    }

    /// Specifies individual widths for a range of CIDs starting at `start`.
    pub fn individual(&mut self, start: u16, widths: &[Real])
        requires
            old(self).wf(),
        ensures
            final(self).wf(),
            final(self).id() == old(self).id(),
            final(self).bytes() == old(self).bytes() + item_text(Primitive::Int(start as i32))
                + text(" ") + text("[") + reals_text(widths@) + text(" ]"),
    {
        self.array.item(Primitive::Int(start as i32));
        self.array.any();
        self.array.array();
        let ghost pre = self.array.bytes();
        let mut i: usize = 0;
        while i < widths.len()
            invariant
                i <= widths@.len(),
                self.array.wf(),
                self.array.in_array(),
                self.array.frames() == seq![Frame::Dict, Frame::Array, Frame::Array],
                self.array.id() == old(self).id(),
                self.array.data() == None::<Seq<u8>>,
                self.array.bytes() == pre + reals_text(widths@.subrange(0, i as int)),
            decreases widths@.len() - i,
        {
            self.array.item(Primitive::Real(widths[i]));
            i += 1;
            assert(widths@.subrange(0, i as int).drop_last() =~= widths@.subrange(0, i - 1));
            assert(self.array.bytes() =~= pre + reals_text(widths@.subrange(0, i as int)));
        }
        assert(widths@.subrange(0, i as int) =~= widths@);
        self.array.end();
        assert(self.array.frames() =~= seq![Frame::Dict, Frame::Array]);
        assert(self.array.bytes() =~= old(self).bytes() + item_text(Primitive::Int(start as i32))
            + text(" ") + text("[") + reals_text(widths@) + text(" ]"));
    }

    /// Specifies the same width for all CIDs in the (inclusive) range from `first` to
    /// `last`.
    pub fn same(&mut self, first: u16, last: u16, width: Real)
        requires
            old(self).wf(),
        ensures
            final(self).wf(),
            final(self).id() == old(self).id(),
            final(self).bytes() == old(self).bytes() + item_text(Primitive::Int(first as i32))
                + item_text(Primitive::Int(last as i32)) + item_text(Primitive::Real(width)),
    {
        self.array.item(Primitive::Int(first as i32));
        self.array.item(Primitive::Int(last as i32));
        self.array.item(Primitive::Real(width));
        assert(self.array.bytes() =~= old(self).bytes() + item_text(Primitive::Int(first as i32))
            + item_text(Primitive::Int(last as i32)) + item_text(Primitive::Real(width)));
    }

    /// Closes the array and hands the font back.
    pub fn finish(self) -> (r: CIDFont)
        requires
            self.wf(),
        ensures
            r.wf(),
            r.id() == self.id(),
            r.bytes() == self.bytes() + text(" ]"),
    {
        let mut dict = self.array;
        dict.end();
        assert(dict.frames() =~= seq![Frame::Dict]);
        CIDFont { dict }
    }
}

/// Writer for a _font descriptor_.
pub struct FontDescriptor {
    dict: Obj,
}

impl FontDescriptor {
    /// The dictionary written so far.
    pub closed spec fn bytes(&self) -> Seq<u8> {
        self.dict.bytes()
    }

    /// The object this font belongs to.
    pub closed spec fn id(&self) -> Ref {
        self.dict.id()
    }

    /// The dictionary is the only open container, awaiting a key.
    pub closed spec fn wf(&self) -> bool {
        &&& self.dict.wf()
        &&& self.dict.in_dict()
        &&& self.dict.frames() == seq![Frame::Dict]
        &&& self.dict.data() == None::<Seq<u8>>
    }

    /// Starts the dictionary in the body of an indirect object and writes its
    /// type.
    pub fn start(any: Obj) -> (r: Self)
        requires
            any.wf(),
            any.slot_open(),
            any.frames().len() == 0,
            any.data() == None::<Seq<u8>>,
        ensures
            r.wf(),
            r.id() == any.id(),
            r.bytes() == any.bytes() + text("<<")
                + name_entry(text("Type"), text("FontDescriptor")),
    {
        let mut dict = any;
        dict.dict();
        dict.pair(Name("Type".as_bytes()), Primitive::Name(Name("FontDescriptor".as_bytes())));
        assert(dict.frames() =~= seq![Frame::Dict]);
        assert(dict.bytes() =~= any.bytes() + text("<<")
            + name_entry(text("Type"), text("FontDescriptor")));
        FontDescriptor { dict }
    }

    /// Closes the dictionary; the object is then complete.
    pub fn finish(self) -> (r: Obj)
        requires
            self.wf(),
        ensures
            r.wf(),
            r.complete(),
            r.id() == self.id(),
            r.bytes() == self.bytes() + text(" >>"),
            r.data() == None::<Seq<u8>>,
    {
        let mut dict = self.dict;
        dict.end();
        dict
    }

    /// Write the `/FontName` attribute.
    pub fn font_name(&mut self, name: Name)
        requires
            old(self).wf(),
        ensures
            final(self).wf(),
            final(self).id() == old(self).id(),
            final(self).bytes() == old(self).bytes() + name_entry(text("FontName"), name.0@),
    {
        self.dict.pair(Name("FontName".as_bytes()), Primitive::Name(name));
    }

    /// Write the `/Flags` attribute.
    pub fn font_flags(&mut self, flags: FontFlags)
        requires
            old(self).wf(),
            flags.wf(),
        ensures
            final(self).wf(),
            final(self).id() == old(self).id(),
            final(self).bytes() == old(self).bytes() + entry(
                text("Flags"),
                int_text(flags.value() as int),
            ),
    {
        let bits = flags.bits();
        assert(bits & 0x7006Fu32 == bits ==> bits <= 0x7006Fu32) by (bit_vector);
        self.dict.pair(Name("Flags".as_bytes()), Primitive::Int(bits as i32));
    }

    /// Write the `/FontBBox` attribute.
    pub fn font_bbox(&mut self, bbox: Rect)
        requires
            old(self).wf(),
        ensures
            final(self).wf(),
            final(self).id() == old(self).id(),
            final(self).bytes() == old(self).bytes() + entry(
                text("FontBBox"),
                prim_text(Primitive::Rect(bbox)),
            ),
    {
        self.dict.pair(Name("FontBBox".as_bytes()), Primitive::Rect(bbox));
    }

    /// Write the `/ItalicAngle` attribute.
    pub fn italic_angle(&mut self, angle: Real)
        requires
            old(self).wf(),
        ensures
            final(self).wf(),
            final(self).id() == old(self).id(),
            final(self).bytes() == old(self).bytes() + entry(text("ItalicAngle"), real_text(angle)),
    {
        self.dict.pair(Name("ItalicAngle".as_bytes()), Primitive::Real(angle));
    }

    /// Write the `/Ascent` attribute.
    pub fn ascent(&mut self, ascent: Real)
        requires
            old(self).wf(),
        ensures
            final(self).wf(),
            final(self).id() == old(self).id(),
            final(self).bytes() == old(self).bytes() + entry(text("Ascent"), real_text(ascent)),
    {
        self.dict.pair(Name("Ascent".as_bytes()), Primitive::Real(ascent));
    }

    /// Write the `/Descent` attribute.
    pub fn descent(&mut self, descent: Real)
        requires
            old(self).wf(),
        ensures
            final(self).wf(),
            final(self).id() == old(self).id(),
            final(self).bytes() == old(self).bytes() + entry(text("Descent"), real_text(descent)),
    {
        self.dict.pair(Name("Descent".as_bytes()), Primitive::Real(descent));
    }

    /// Write the `/CapHeight` attribute.
    pub fn cap_height(&mut self, cap_height: Real)
        requires
            old(self).wf(),
        ensures
            final(self).wf(),
            final(self).id() == old(self).id(),
            final(self).bytes() == old(self).bytes() + entry(
                text("CapHeight"),
                real_text(cap_height),
            ),
    {
        self.dict.pair(Name("CapHeight".as_bytes()), Primitive::Real(cap_height));
    }

    /// Write the `/StemV` attribute.
    pub fn stem_v(&mut self, stem_v: Real)
        requires
            old(self).wf(),
        ensures
            final(self).wf(),
            final(self).id() == old(self).id(),
            final(self).bytes() == old(self).bytes() + entry(text("StemV"), real_text(stem_v)),
    {
        self.dict.pair(Name("StemV".as_bytes()), Primitive::Real(stem_v));
    }

    /// Write the `/FontFile2` attribute as a reference to a stream containing a
    /// TrueType font program.
    pub fn font_file2(&mut self, true_type_stream: Ref)
        requires
            old(self).wf(),
        ensures
            final(self).wf(),
            final(self).id() == old(self).id(),
            final(self).bytes() == old(self).bytes() + entry(
                text("FontFile2"),
                prim_text(Primitive::Ref(true_type_stream)),
            ),
    {
        self.dict.pair(Name("FontFile2".as_bytes()), Primitive::Ref(true_type_stream));
    }
}

} // verus!
