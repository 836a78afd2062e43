use vstd::prelude::*;

verus! {

/// The payload kinds the pipeline knows how to frame and inspect.
#[derive(Debug, Clone, Copy, PartialEq, Eq, Structural)]
pub enum PacketType {
    Text,
    Binary,
    Vita49,
    Sdds,
}

pub open spec fn packet_type_name(t: PacketType) -> Seq<char> {
    match t {
        PacketType::Text => "text"@,
        PacketType::Binary => "binary"@,
        PacketType::Vita49 => "vita49"@,
        PacketType::Sdds => "sdds"@,
    }
}

impl PacketType {
    /// The lower-case name used on the command line and in log lines.
    pub fn name(&self) -> (r: &'static str)
        ensures
            r@ == packet_type_name(*self),
    {
        match self {
            PacketType::Text => "text",
            PacketType::Binary => "binary",
            PacketType::Vita49 => "vita49",
            PacketType::Sdds => "sdds",
        }
    }
}

/// An owned byte buffer with a logical length that may be shorter than the
/// buffer, so that a buffer can be reused without reallocation.
#[derive(Debug, Clone, PartialEq, Eq, Hash, Default)]
pub struct Packet {
    data: Vec<u8>,
    length: usize,
}

/// A published, immutable batch of packets shared between consumers.
pub type PacketBatch = std::sync::Arc<Vec<Packet>>;

pub open spec fn min_nat(a: nat, b: nat) -> nat {
    if a <= b { a } else { b }
}

impl Packet {
    /// The whole underlying allocation.
    pub closed spec fn buffer(&self) -> Seq<u8> {
        self.data@
    }

    /// The logical length, which may exceed the allocation.
    pub closed spec fn length(&self) -> nat {
        self.length as nat
    }

    pub open spec fn capacity(&self) -> nat {
        self.buffer().len()
    }

    /// The bytes a reader sees: the buffer cut at the logical length.
    pub closed spec fn view_bytes(&self) -> Seq<u8> {
        self.data@.subrange(0, min_nat(self.length as nat, self.data@.len()) as int)
    }

    /// The visible bytes are the buffer's prefix of length
    /// `min(length, capacity)`.
    pub proof fn lemma_view(p: &Packet)
        ensures
            p@.len() == min_nat(p.length(), p.capacity()),
            p@ == p.buffer().subrange(0, min_nat(p.length(), p.capacity()) as int),
    {
    }

    pub fn new(data: Vec<u8>) -> (r: Packet)
        ensures
            r.buffer() == data@,
            r.length() == data@.len(),
            r@ == data@,
    {
        let length = data.len();
        let r = Packet { data, length };
        assert(r@ =~= data@);
        r
    }

    pub fn with_capacity(capacity: usize) -> (r: Packet)
        ensures
            r.buffer() == Seq::new(capacity as nat, |i: int| 0u8),
            r.length() == capacity,
            r@ == Seq::new(capacity as nat, |i: int| 0u8),
    {
        let r = Packet { data: vec![0u8; capacity], length: capacity };
        assert(r.buffer() =~= Seq::new(capacity as nat, |i: int| 0u8));
        assert(r@ =~= r.buffer());
        r
    }

    pub fn set_length(&mut self, length: usize)
        ensures
            final(self).buffer() == old(self).buffer(),
            final(self).length() == length,
    {
        self.length = length;
    }

    /// True when the logical length is zero.
    pub fn is_empty(&self) -> (r: bool)
        ensures
            r == (self.length() == 0),
    {
        self.length == 0
    }

    /// Number of visible bytes.
    pub fn len(&self) -> (r: usize)
        ensures
            r == self@.len(),
    {
        if self.length <= self.data.len() {
            self.length
        } else {
            self.data.len()
        }
    }

    /// The whole allocation, for a scatter/gather fill.
    pub fn data_mut(&mut self) -> (r: &mut [u8])
        ensures
            r@ == old(self).buffer(),
            final(self).buffer() == final(r)@,
            final(self).length() == old(self).length(),
    {
        self.data.as_mut_slice()
    }

    /// The visible bytes, `buffer[0..min(length, capacity)]`.
    pub fn bytes(&self) -> (r: &[u8])
        ensures
            r@ == self@,
    {
        let n = self.len();
        vstd::slice::slice_subrange(self.data.as_slice(), 0, n)
    }
}

impl View for Packet {
    type V = Seq<u8>;

    open spec fn view(&self) -> Seq<u8> {
        self.view_bytes()
    }
}

} // verus!
