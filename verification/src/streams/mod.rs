//! Reading from and writing to positioned byte streams.

pub mod advanced_readers;
pub mod any_int;
pub mod byte_stream;
pub mod endian;
pub mod field_map;
pub mod helpers;
pub mod lp;
pub mod read;
pub mod round_trip;
pub mod write;

pub use any_int::AnyInt;
pub use byte_stream::ByteStream;
pub use field_map::FieldMap;
pub use lp::{LPBuffer, LPStr, LPString, LPType};

use vstd::prelude::*;

verus! {

/// The byte order of a multi-byte integer on the wire.
#[derive(Debug, Clone, Copy, PartialEq, Eq, Structural, PartialOrd, Ord, Hash)]
pub enum Endianness {
    LittleEndian,
    BigEndian,
}

/// The unsigned value of `bytes` under the byte order `e`.
pub open spec fn decode_uint(bytes: Seq<u8>, e: Endianness) -> nat {
    match e {
        Endianness::LittleEndian => endian::le_value(bytes),
        Endianness::BigEndian => endian::be_value(bytes),
    }
}

/// The `n` low-order bytes of `v` under the byte order `e`.
pub open spec fn encode_uint(v: nat, n: nat, e: Endianness) -> Seq<u8> {
    match e {
        Endianness::LittleEndian => endian::le_bytes(v, n),
        Endianness::BigEndian => endian::be_bytes(v, n),
    }
}

/// Why an operation on a stream failed.
#[derive(Debug, Clone, Copy, PartialEq, Eq, Structural, Hash)]
pub enum IoErrorKind {
    /// Fewer bytes were left in the stream than the operation needed, or a
    /// search ran out of stream or of its limit.
    UnexpectedEndOfStream,
    /// A write would end beyond the largest offset the machine can address.
    PositionOutOfRange,
}

/// The failures of the stream operations.
#[derive(Debug, Clone, PartialEq, Eq)]
pub enum StreamError {
    /// A failure described only by a message.
    StreamError(String),
    /// A character that a pattern may not hold, and its offset.
    InvalidChar(char, usize),
    /// A malformed pattern token.
    InvalidPattern(String),
    /// A short read or write.
    IOError(IoErrorKind),
    /// Bytes that had to be UTF-8 text and are not.
    InvalidEncoding,
    /// A length that the chosen prefix width cannot hold.
    LengthOverflow,
    /// A terminator that did not come within the allowed length.
    LengthExceeded,
    /// A tagged integer of another variant than the one asked for.
    TypeMismatch,
}

/// A map from names to values that a stream can be read into and written
/// from.
///
/// An implementation says which bindings it holds (`bindings`), in which
/// order it lists them (`listed`) and when it is in order (`map_wf`); the
/// contracts of the methods are stated over these.
pub trait MapType: Sized {
    /// The bindings of the map.
    spec fn bindings(&self) -> Map<Seq<char>, AnyInt>;

    /// The entries of the map in the order in which `iter` gives them.
    spec fn listed(&self) -> Seq<(String, AnyInt)>;

    /// The invariant of the map.
    spec fn map_wf(&self) -> bool;

    /// A map without bindings.
    fn new() -> (m: Self)
        ensures
            m.map_wf(),
            m.bindings() == Map::<Seq<char>, AnyInt>::empty(),
    ;

    /// The value bound to `key`, if one is.
    fn get(&self, key: &str) -> (r: Option<&AnyInt>)
        requires
            self.map_wf(),
        ensures
            r == if self.bindings().contains_key(key@) {
                Some(&self.bindings()[key@])
            } else {
                None
            },
    ;

    /// The value bound to `key`, if one is, to be changed in place.
    fn get_mut(&mut self, key: &str) -> (r: Option<&mut AnyInt>)
        requires
            old(self).map_wf(),
        ensures
            final(self).map_wf(),
            r.is_some() == old(self).bindings().contains_key(key@),
            r.is_some() ==> *r.unwrap() == old(self).bindings()[key@] && final(self).bindings()
                == old(self).bindings().insert(key@, *final(r.unwrap())),
            r.is_none() ==> final(self).bindings() == old(self).bindings(),
    ;

    /// Binds `key` to `value` and returns the value that was bound to it
    /// before, if one was.
    fn insert(&mut self, key: String, value: AnyInt) -> (r: Option<AnyInt>)
        requires
            old(self).map_wf(),
        ensures
            final(self).map_wf(),
            final(self).bindings() == old(self).bindings().insert(key@, value),
            r == if old(self).bindings().contains_key(key@) {
                Some(old(self).bindings()[key@])
            } else {
                None
            },
    ;

    /// Unbinds `key` and returns the value that was bound to it, if one was.
    fn remove(&mut self, key: &str) -> (r: Option<AnyInt>)
        requires
            old(self).map_wf(),
        ensures
            final(self).map_wf(),
            final(self).bindings() == old(self).bindings().remove(key@),
            r == if old(self).bindings().contains_key(key@) {
                Some(old(self).bindings()[key@])
            } else {
                None
            },
    ;

    /// The names of the entries, in the order of `iter`.
    fn keys(&self) -> (keys: Vec<String>)
        requires
            self.map_wf(),
        ensures
            keys@.len() == self.listed().len(),
            forall|i: int| 0 <= i < keys@.len() ==> (#[trigger] keys@[i])@ == self.listed()[i].0@,
    ;

    /// The values of the entries, in the order of `iter`.
    fn values(&self) -> (values: Vec<AnyInt>)
        requires
            self.map_wf(),
        ensures
            values@.len() == self.listed().len(),
            forall|i: int| 0 <= i < values@.len() ==> #[trigger] values@[i] == self.listed()[i].1,
    ;

    /// The number of bindings.
    fn len(&self) -> (n: usize)
        requires
            self.map_wf(),
        ensures
            n == self.bindings().dom().len(),
            n == self.listed().len(),
    ;

    /// Whether the map has no binding.
    fn is_empty(&self) -> (r: bool)
        requires
            self.map_wf(),
        ensures
            r == (self.bindings().dom().len() == 0),
    ;

    /// The entries of the map: each name that is bound once, with the value
    /// that it is bound to.
    fn iter(&self) -> (entries: Vec<(String, AnyInt)>)
        requires
            self.map_wf(),
        ensures
            entries@ == self.listed(),
            field_map::distinct_names(entries@),
            field_map::assoc(entries@) == self.bindings(),
    ;
}

/// The width of the length field in front of a framed payload.
#[derive(Debug, Clone, Copy, PartialEq, Eq, Structural, PartialOrd, Ord, Hash)]
pub enum LPWidth {
    LP8,
    LP16,
    LP32,
    LP64,
}

impl LPWidth {
    /// The number of bytes of a length field of this width.
    pub open spec fn spec_size(self) -> nat {
        match self {
            LPWidth::LP8 => 1,
            LPWidth::LP16 => 2,
            LPWidth::LP32 => 4,
            LPWidth::LP64 => 8,
        }
    }

    /// The number of bytes of a length field of this width.
    pub fn size(&self) -> (n: usize)
        ensures
            n == self.spec_size(),
    {
        match self {
            LPWidth::LP8 => 1,
            LPWidth::LP16 => 2,
            LPWidth::LP32 => 4,
            LPWidth::LP64 => 8,
        }
    }

    /// Whether a length field of width `lptype` can hold `len`.
    pub fn usize_fits(lptype: LPWidth, len: usize) -> (fits: bool)
        ensures
            fits == (len < endian::radix(lptype.spec_size())),
    {
        proof {
            endian::lemma_radix_values();
        }
        match lptype {
            LPWidth::LP8 => len <= 0xff,
            LPWidth::LP16 => len <= 0xffff,
            LPWidth::LP32 => len as u64 <= 0xffff_ffff,
            LPWidth::LP64 => true,
        }
    }
}

} // verus!
