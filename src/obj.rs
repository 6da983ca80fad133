//! Writing the body of one indirect object: nested dictionaries and arrays
//! filled slot by slot, and a document that allocates references and takes
//! each finished object once.
use vstd::prelude::*;
use crate::prim::{
    Name, Primitive, Ref, int_text, name_text, prim_text, push_bytes, push_int, push_name,
    push_prim, push_str, text,
};

verus! {

/// An open container.
#[derive(Clone, Copy, Debug, PartialEq, Eq, Structural)]
pub enum Frame {
    Dict,
    Array,
}

/// The text that closes a container.
pub open spec fn close_text(f: Frame) -> Seq<u8> {
    match f {
        Frame::Dict => text(" >>"),
        Frame::Array => text(" ]"),
    }
}

/// The text that opens a container.
pub open spec fn open_text(f: Frame) -> Seq<u8> {
    match f {
        Frame::Dict => text("<<"),
        Frame::Array => text("["),
    }
}

/// The writer of one indirect object's body.
///
/// At each moment it is in one of three states: a slot is open and one value
/// must be written into it; the innermost open container is a dictionary; or
/// it is an array. With no container open and no slot open, the object is
/// complete. Each operation states the state it needs, so a caller that
/// writes a slot twice, or leaves a container open, does not verify.
pub struct Obj {
    id: Ref,
    buf: Vec<u8>,
    frames: Vec<Frame>,
    slot: bool,
    data: Option<Vec<u8>>,
    opened: Ghost<nat>,
    closed: Ghost<nat>,
}

impl Obj {
    /// The object this body belongs to.
    pub closed spec fn id(&self) -> Ref {
        self.id
    }

    /// The body written so far.
    pub closed spec fn bytes(&self) -> Seq<u8> {
        self.buf@
    }

    /// The open containers, outermost first.
    pub closed spec fn frames(&self) -> Seq<Frame> {
        self.frames@
    }

    /// Whether a slot is open.
    pub closed spec fn slot_open(&self) -> bool {
        self.slot
    }

    /// The stream payload, where this object is a stream.
    pub closed spec fn data(&self) -> Option<Seq<u8>> {
        match self.data {
            Some(d) => Some(d@),
            None => None,
        }
    }

    /// How many opening delimiters were written.
    pub closed spec fn opened(&self) -> nat {
        self.opened@
    }

    /// How many closing delimiters were written.
    pub closed spec fn closed(&self) -> nat {
        self.closed@
    }

    /// Every opened container that is not closed is still on the stack.
    pub closed spec fn wf(&self) -> bool {
        self.opened@ == self.closed@ + self.frames@.len()
    }

    /// The innermost open container is a dictionary, awaiting a key.
    pub open spec fn in_dict(&self) -> bool {
        !self.slot_open() && self.frames().len() > 0 && self.frames().last() == Frame::Dict
    }

    /// The innermost open container is an array, awaiting an item.
    pub open spec fn in_array(&self) -> bool {
        !self.slot_open() && self.frames().len() > 0 && self.frames().last() == Frame::Array
    }

    /// Nothing is open: the body is done.
    pub open spec fn complete(&self) -> bool {
        !self.slot_open() && self.frames().len() == 0
    }

    /// Writes a primitive value into the open slot.
    pub fn value(&mut self, p: Primitive)
        requires
            old(self).wf(),
            old(self).slot_open(),
        ensures
            final(self).wf(),
            !final(self).slot_open(),
            final(self).bytes() == old(self).bytes() + prim_text(p),
            final(self).frames() == old(self).frames(),
            final(self).id() == old(self).id(),
            final(self).data() == old(self).data(),
            final(self).opened() == old(self).opened(),
            final(self).closed() == old(self).closed(),
    {
        push_prim(&mut self.buf, p);
        self.slot = false;
    }

    /// Turns the open slot into a container of the given kind.
    pub fn begin(&mut self, f: Frame)
        requires
            old(self).wf(),
            old(self).slot_open(),
        ensures
            final(self).wf(),
            !final(self).slot_open(),
            final(self).bytes() == old(self).bytes() + open_text(f),
            final(self).frames() == old(self).frames().push(f),
            final(self).id() == old(self).id(),
            final(self).data() == old(self).data(),
            final(self).opened() == old(self).opened() + 1,
            final(self).closed() == old(self).closed(),
    {
        match f {
            Frame::Dict => push_str(&mut self.buf, "<<"),
            Frame::Array => push_str(&mut self.buf, "["),
        }
        self.frames.push(f);
        self.slot = false;
        self.opened = Ghost((self.opened@ + 1) as nat);
    }

    /// Turns the open slot into a dictionary.
    pub fn dict(&mut self)
        requires
            old(self).wf(),
            old(self).slot_open(),
        ensures
            final(self).wf(),
            final(self).in_dict(),
            final(self).bytes() == old(self).bytes() + text("<<"),
            final(self).frames() == old(self).frames().push(Frame::Dict),
            final(self).id() == old(self).id(),
            final(self).data() == old(self).data(),
    {
        self.begin(Frame::Dict);
    }

    /// Turns the open slot into an array.
    pub fn array(&mut self)
        requires
            old(self).wf(),
            old(self).slot_open(),
        ensures
            final(self).wf(),
            final(self).in_array(),
            final(self).bytes() == old(self).bytes() + text("["),
            final(self).frames() == old(self).frames().push(Frame::Array),
            final(self).id() == old(self).id(),
            final(self).data() == old(self).data(),
    {
        self.begin(Frame::Array);
    }

    /// Writes a key into the innermost dictionary and opens the slot for its
    /// value.
    pub fn key(&mut self, k: Name)
        requires
            old(self).wf(),
            old(self).in_dict(),
        ensures
            final(self).wf(),
            final(self).slot_open(),
            final(self).bytes() == old(self).bytes() + text(" ") + name_text(k.0@) + text(" "),
            final(self).frames() == old(self).frames(),
            final(self).id() == old(self).id(),
            final(self).data() == old(self).data(),
            final(self).opened() == old(self).opened(),
            final(self).closed() == old(self).closed(),
    {
        push_str(&mut self.buf, " ");
        push_name(&mut self.buf, k);
        push_str(&mut self.buf, " ");
        self.slot = true;
    }

    /// Writes a key and a primitive value into the innermost dictionary.
    pub fn pair(&mut self, k: Name, p: Primitive)
        requires
            old(self).wf(),
            old(self).in_dict(),
        ensures
            final(self).wf(),
            final(self).in_dict(),
            final(self).bytes() == old(self).bytes() + pair_text(k.0@, p),
            final(self).frames() == old(self).frames(),
            final(self).id() == old(self).id(),
            final(self).data() == old(self).data(),
            final(self).opened() == old(self).opened(),
            final(self).closed() == old(self).closed(),
    {
        self.key(k);
        self.value(p);
        assert(self.bytes() =~= old(self).bytes() + pair_text(k.0@, p));
    }

    /// Opens the slot for the next item of the innermost array.
    pub fn any(&mut self)
        requires
            old(self).wf(),
            old(self).in_array(),
        ensures
            final(self).wf(),
            final(self).slot_open(),
            final(self).bytes() == old(self).bytes() + text(" "),
            final(self).frames() == old(self).frames(),
            final(self).id() == old(self).id(),
            final(self).data() == old(self).data(),
            final(self).opened() == old(self).opened(),
            final(self).closed() == old(self).closed(),
    {
        push_str(&mut self.buf, " ");
        self.slot = true;
    }

    /// Writes a primitive item into the innermost array.
    pub fn item(&mut self, p: Primitive)
        requires
            old(self).wf(),
            old(self).in_array(),
        ensures
            final(self).wf(),
            final(self).in_array(),
            final(self).bytes() == old(self).bytes() + item_text(p),
            final(self).frames() == old(self).frames(),
            final(self).id() == old(self).id(),
            final(self).data() == old(self).data(),
            final(self).opened() == old(self).opened(),
            final(self).closed() == old(self).closed(),
    {
        self.any();
        self.value(p);
        assert(self.bytes() =~= old(self).bytes() + item_text(p));
    }

    /// Writes primitive items into the innermost array, in order.
    pub fn items(&mut self, ps: &[Primitive])
        requires
            old(self).wf(),
            old(self).in_array(),
        ensures
            final(self).wf(),
            final(self).in_array(),
            final(self).bytes() == old(self).bytes() + items_text(ps@),
            final(self).frames() == old(self).frames(),
            final(self).id() == old(self).id(),
            final(self).data() == old(self).data(),
            final(self).opened() == old(self).opened(),
            final(self).closed() == old(self).closed(),
    {
        let mut i: usize = 0;
        while i < ps.len()
            invariant
                i <= ps@.len(),
                self.wf(),
                self.in_array(),
                self.bytes() == old(self).bytes() + items_text(ps@.subrange(0, i as int)),
                self.frames() == old(self).frames(),
                self.id() == old(self).id(),
                self.data() == old(self).data(),
                self.opened() == old(self).opened(),
                self.closed() == old(self).closed(),
            decreases ps@.len() - i,
        {
            self.item(ps[i]);
            i += 1;
            assert(ps@.subrange(0, i as int).drop_last() =~= ps@.subrange(0, i - 1));
            assert(self.bytes() =~= old(self).bytes() + items_text(ps@.subrange(0, i as int)));
        }
        assert(ps@.subrange(0, i as int) =~= ps@);
    }

    /// Closes the innermost container; the slot that held it is then written.
    pub fn end(&mut self)
        requires
            old(self).wf(),
            old(self).in_dict() || old(self).in_array(),
        ensures
            final(self).wf(),
            !final(self).slot_open(),
            final(self).bytes() == old(self).bytes() + close_text(old(self).frames().last()),
            final(self).frames() == old(self).frames().drop_last(),
            final(self).id() == old(self).id(),
            final(self).data() == old(self).data(),
            final(self).opened() == old(self).opened(),
            final(self).closed() == old(self).closed() + 1,
    {
        let f = self.frames.pop().unwrap();
        match f {
            Frame::Dict => push_str(&mut self.buf, " >>"),
            Frame::Array => push_str(&mut self.buf, " ]"),
        }
        self.closed = Ghost((self.closed@ + 1) as nat);
    }
}

/// The text of one dictionary entry, given the text of its value.
pub open spec fn entry(k: Seq<u8>, v: Seq<u8>) -> Seq<u8> {
    text(" ") + name_text(k) + text(" ") + v
}

/// The text of one dictionary entry whose value is a name.
pub open spec fn name_entry(k: Seq<u8>, v: Seq<u8>) -> Seq<u8> {
    entry(k, name_text(v))
}

/// The text of one dictionary entry with a primitive value.
pub open spec fn pair_text(k: Seq<u8>, p: Primitive) -> Seq<u8> {
    entry(k, prim_text(p))
}

/// The text of one array item.
pub open spec fn item_text(p: Primitive) -> Seq<u8> {
    text(" ") + prim_text(p)
}

/// The text of array items, in order.
pub open spec fn items_text(ps: Seq<Primitive>) -> Seq<u8>
    decreases ps.len(),
{
    if ps.len() == 0 {
        Seq::empty()
    } else {
        items_text(ps.drop_last()) + item_text(ps.last())
    }
}

/// Every container opened in a complete body was closed again: as many
/// opening delimiters were written as closing ones.
pub proof fn lemma_complete_balanced(o: &Obj)
    requires
        o.wf(),
        o.complete(),
    ensures
        o.opened() == o.closed(),
{
}

/// The full text of a finished object: header, body, stream payload if any,
/// and trailer.
pub open spec fn object_text(id: Ref, body: Seq<u8>, data: Option<Seq<u8>>) -> Seq<u8> {
    let head = int_text(id.num()) + text(" 0 obj\n") + body;
    let tail = text("\nendobj\n\n");
    match data {
        Some(d) => head + text("\nstream\n") + d + text("\nendstream") + tail,
        None => head + tail,
    }
}

/// A document under construction: it hands out references in increasing
/// order and takes each finished object exactly once.
pub struct Document {
    buf: Vec<u8>,
    next: i32,
    done: Vec<i32>,
    pending: Ghost<Set<int>>,
}

impl Document {
    /// The bytes of all finished objects, in the order they were finished.
    pub closed spec fn bytes(&self) -> Seq<u8> {
        self.buf@
    }

    /// The number the next allocated reference gets.
    pub closed spec fn next(&self) -> int {
        self.next as int
    }

    /// The numbers of the finished objects, in order.
    pub closed spec fn registered(&self) -> Seq<int> {
        self.done@.map_values(|i: i32| i as int)
    }

    /// The numbers of the objects begun and not yet finished.
    pub closed spec fn pending(&self) -> Set<int> {
        self.pending@
    }

    /// Every finished object was finished once, was allocated, and is no
    /// longer pending; every pending object was allocated.
    pub open spec fn wf(&self) -> bool {
        &&& self.next() >= 1
        &&& self.registered().no_duplicates()
        &&& forall|i: int|
            0 <= i < self.registered().len() ==> 1 <= #[trigger] self.registered()[i] < self.next()
        &&& forall|n: int| #[trigger] self.pending().contains(n) ==> 1 <= n < self.next()
                && !self.registered().contains(n)
    }

    /// An empty document.
    pub fn new() -> (r: Document)
        ensures
            r.wf(),
            r.next() == 1,
            r.bytes() == Seq::<u8>::empty(),
            r.registered() == Seq::<int>::empty(),
            r.pending() == Set::<int>::empty(),
    {
        let r = Document {
            buf: Vec::new(),
            next: 1,
            done: Vec::new(),
            pending: Ghost(Set::empty()),
        };
        assert(r.registered() =~= Seq::<int>::empty());
        r
    }

    /// Allocates a fresh reference.
    pub fn alloc_ref(&mut self) -> (r: Ref)
        requires
            old(self).wf(),
            old(self).next() < 2147483647,
        ensures
            final(self).wf(),
            r.num() == old(self).next(),
            final(self).next() == old(self).next() + 1,
            final(self).bytes() == old(self).bytes(),
            final(self).registered() == old(self).registered(),
            final(self).pending() == old(self).pending(),
    {
        let r = Ref::new(self.next);
        self.next = self.next + 1;
        assert(self.registered() == old(self).registered());
        assert(forall|i: int|
            0 <= i < self.registered().len() ==> #[trigger] self.registered()[i] < self.next());
        assert(self.pending() == old(self).pending());
        assert(forall|n: int| #[trigger] self.pending().contains(n) ==> n < self.next());
        r
    }

    /// Begins the body of an allocated object: its one slot is open.
    pub fn indirect(&mut self, id: Ref) -> (o: Obj)
        requires
            old(self).wf(),
            1 <= id.num() < old(self).next(),
            !old(self).registered().contains(id.num()),
            !old(self).pending().contains(id.num()),
        ensures
            final(self).wf(),
            final(self).pending() == old(self).pending().insert(id.num()),
            final(self).next() == old(self).next(),
            final(self).bytes() == old(self).bytes(),
            final(self).registered() == old(self).registered(),
            o.wf(),
            o.slot_open(),
            o.id() == id,
            o.bytes() == Seq::<u8>::empty(),
            o.frames() == Seq::<Frame>::empty(),
            o.data() == None::<Seq<u8>>,
    {
        self.pending = Ghost(self.pending@.insert(id.num()));
        Obj {
            id,
            buf: Vec::new(),
            frames: Vec::new(),
            slot: true,
            data: None,
            opened: Ghost(0),
            closed: Ghost(0),
        }
    }

    /// Begins a stream object with the given payload: its dictionary is open
    /// and holds the payload's length.
    pub fn stream(&mut self, id: Ref, data: Vec<u8>) -> (o: Obj)
        requires
            old(self).wf(),
            1 <= id.num() < old(self).next(),
            !old(self).registered().contains(id.num()),
            !old(self).pending().contains(id.num()),
            data@.len() <= 2147483647,
        ensures
            final(self).wf(),
            final(self).pending() == old(self).pending().insert(id.num()),
            final(self).next() == old(self).next(),
            final(self).bytes() == old(self).bytes(),
            final(self).registered() == old(self).registered(),
            o.wf(),
            o.in_dict(),
            o.id() == id,
            o.bytes() == text("<<") + entry(text("Length"), int_text(data@.len() as int)),
            o.frames() == seq![Frame::Dict],
            o.data() == Some(data@),
    {
        let len = data.len() as i32;
        let mut o = self.indirect(id);
        o.data = Some(data);
        o.dict();
        o.pair(Name("Length".as_bytes()), Primitive::Int(len));
        assert(o.frames() =~= seq![Frame::Dict]);
        o
    }

    /// Takes a complete object; its text is appended to the document.
    pub fn finish(&mut self, o: Obj)
        requires
            old(self).wf(),
            o.wf(),
            o.complete(),
            old(self).pending().contains(o.id().num()),
        ensures
            final(self).wf(),
            final(self).registered() == old(self).registered().push(o.id().num()),
            final(self).pending() == old(self).pending().remove(o.id().num()),
            final(self).next() == old(self).next(),
            final(self).bytes() == old(self).bytes() + object_text(o.id(), o.bytes(), o.data()),
    {
        let ghost pre = self.buf@;
        push_int(&mut self.buf, o.id.get() as i64);
        push_str(&mut self.buf, " 0 obj\n");
        push_bytes(&mut self.buf, o.buf.as_slice());
        match &o.data {
            Some(d) => {
                push_str(&mut self.buf, "\nstream\n");
                push_bytes(&mut self.buf, d.as_slice());
                push_str(&mut self.buf, "\nendstream");
            },
            None => {},
        }
        push_str(&mut self.buf, "\nendobj\n\n");
        self.done.push(o.id.get());
        self.pending = Ghost(self.pending@.remove(o.id().num()));
        assert(self.registered() =~= old(self).registered().push(o.id().num()));
        assert(self.buf@ =~= pre + object_text(o.id(), o.bytes(), o.data()));
    }

    /// The bytes of all finished objects.
    pub fn as_bytes(&self) -> (r: &[u8])
        ensures
            r@ == self.bytes(),
    {
        self.buf.as_slice()
    }
}

/// Each object begun on a document is finished at most once: the finished
/// objects hold no number twice, and none of them is still pending.
pub proof fn lemma_registered_once(d: &Document, n: int)
    requires
        d.wf(),
    ensures
        d.registered().no_duplicates(),
        d.pending().contains(n) ==> !d.registered().contains(n),
{
}

} // verus!
