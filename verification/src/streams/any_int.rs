//! A value that holds an integer of any supported width and signedness, or a
//! boolean, together with its form on the wire.

use super::endian::{
    be_bytes, be_write_i128, be_write_i16, be_write_i32, be_write_i64, be_write_u128,
    be_write_u16, be_write_u32, be_write_u64, le_bytes, le_write_i128, le_write_i16,
    le_write_i32, le_write_i64, le_write_u128, le_write_u16, le_write_u32, le_write_u64,
    lemma_be_bytes_len, lemma_le_bytes_len, unsigned8, unsigned_of,
};
use super::{encode_uint, Endianness, StreamError};
use vstd::std_specs::convert::{FromSpecImpl, TryFromSpecImpl};
use vstd::prelude::*;

verus! {

/// An integer of one of the supported widths, or a boolean.
///
/// The 48-bit variants live in a 64-bit slot in memory and take six bytes on
/// the wire.
#[derive(Clone, Copy, Debug, PartialEq, Eq, Structural, PartialOrd, Ord, Hash)]
pub enum AnyInt {
    U8(u8),
    U16(u16),
    U32(u32),
    U48(u64),
    U64(u64),
    U128(u128),
    I8(i8),
    I16(i16),
    I32(i32),
    I48(i64),
    I64(i64),
    I128(i128),
    Bool(bool),
}

/// The six bytes that a 48-bit slot holding the unsigned value `v` is written
/// as: the first six of the eight bytes of the slot in the byte order `e`.
/// In little-endian order these are the low six bytes of the slot, and its
/// two most-significant bytes are dropped; in big-endian order they are the
/// high six bytes, and its two least-significant bytes are dropped.
pub open spec fn slot48_bytes(v: nat, e: Endianness) -> Seq<u8> {
    match e {
        Endianness::LittleEndian => le_bytes(v, 8).take(6),
        Endianness::BigEndian => be_bytes(v, 8).take(6),
    }
}

impl AnyInt {
    /// The number of bytes the value takes in memory.
    pub open spec fn spec_size(self) -> nat {
        match self {
            AnyInt::U8(_) | AnyInt::I8(_) | AnyInt::Bool(_) => 1,
            AnyInt::U16(_) | AnyInt::I16(_) => 2,
            AnyInt::U32(_) | AnyInt::I32(_) => 4,
            AnyInt::U48(_) | AnyInt::I48(_) | AnyInt::U64(_) | AnyInt::I64(_) => 8,
            AnyInt::U128(_) | AnyInt::I128(_) => 16,
        }
    }

    /// The number of bytes the value takes on the wire.
    pub open spec fn spec_ser_size(self) -> nat {
        match self {
            AnyInt::U8(_) | AnyInt::I8(_) | AnyInt::Bool(_) => 1,
            AnyInt::U16(_) | AnyInt::I16(_) => 2,
            AnyInt::U32(_) | AnyInt::I32(_) => 4,
            AnyInt::U48(_) | AnyInt::I48(_) => 6,
            AnyInt::U64(_) | AnyInt::I64(_) => 8,
            AnyInt::U128(_) | AnyInt::I128(_) => 16,
        }
    }

    /// The bytes the value is written as under the byte order `e`.
    ///
    /// Signed values are written in two's complement and a boolean as one
    /// byte, 1 for `true` and 0 for `false`.
    pub open spec fn wire_bytes(self, e: Endianness) -> Seq<u8> {
        match self {
            AnyInt::U8(v) => seq![v],
            AnyInt::U16(v) => encode_uint(v as nat, 2, e),
            AnyInt::U32(v) => encode_uint(v as nat, 4, e),
            AnyInt::U48(v) => slot48_bytes(v as nat, e),
            AnyInt::U64(v) => encode_uint(v as nat, 8, e),
            AnyInt::U128(v) => encode_uint(v as nat, 16, e),
            AnyInt::I8(v) => seq![unsigned_of(v as int, 1) as u8],
            AnyInt::I16(v) => encode_uint(unsigned_of(v as int, 2), 2, e),
            AnyInt::I32(v) => encode_uint(unsigned_of(v as int, 4), 4, e),
            AnyInt::I48(v) => slot48_bytes(unsigned_of(v as int, 8), e),
            AnyInt::I64(v) => encode_uint(unsigned_of(v as int, 8), 8, e),
            AnyInt::I128(v) => encode_uint(unsigned_of(v as int, 16), 16, e),
            AnyInt::Bool(v) => seq![if v { 1u8 } else { 0u8 }],
        }
    }

    /// The wire form of a value has exactly its wire size.
    pub proof fn lemma_wire_bytes_len(self, e: Endianness)
        ensures
            self.wire_bytes(e).len() == self.spec_ser_size(),
    {
        lemma_le_bytes_len(self.wire_word(), 2);
        lemma_le_bytes_len(self.wire_word(), 4);
        lemma_le_bytes_len(self.wire_word(), 8);
        lemma_le_bytes_len(self.wire_word(), 16);
        lemma_be_bytes_len(self.wire_word(), 2);
        lemma_be_bytes_len(self.wire_word(), 4);
        lemma_be_bytes_len(self.wire_word(), 8);
        lemma_be_bytes_len(self.wire_word(), 16);
    }

    /// The unsigned number whose low-order bytes make up the wire form.
    pub open spec fn wire_word(self) -> nat {
        match self {
            AnyInt::U8(v) => v as nat,
            AnyInt::U16(v) => v as nat,
            AnyInt::U32(v) => v as nat,
            AnyInt::U48(v) => v as nat,
            AnyInt::U64(v) => v as nat,
            AnyInt::U128(v) => v as nat,
            AnyInt::I8(v) => unsigned_of(v as int, 1),
            AnyInt::I16(v) => unsigned_of(v as int, 2),
            AnyInt::I32(v) => unsigned_of(v as int, 4),
            AnyInt::I48(v) => unsigned_of(v as int, 8),
            AnyInt::I64(v) => unsigned_of(v as int, 8),
            AnyInt::I128(v) => unsigned_of(v as int, 16),
            AnyInt::Bool(v) => if v { 1 } else { 0 },
        }
    }

    /// The bytes of the value in little-endian order.
    pub fn to_bytes_le(&self) -> (out: Vec<u8>)
        ensures
            out@ == self.wire_bytes(Endianness::LittleEndian),
            out@.len() == self.spec_ser_size(),
    {
        proof {
            self.lemma_wire_bytes_len(Endianness::LittleEndian);
        }
        match self {
            AnyInt::U8(v) => single_byte(*v),
            AnyInt::U16(v) => {
                let mut buf = zeroed(2);
                le_write_u16(buf.as_mut_slice(), *v);
                buf
            },
            AnyInt::U32(v) => {
                let mut buf = zeroed(4);
                le_write_u32(buf.as_mut_slice(), *v);
                buf
            },
            AnyInt::U48(v) => AnyInt::write_u48(*v, Endianness::LittleEndian),
            AnyInt::U64(v) => {
                let mut buf = zeroed(8);
                le_write_u64(buf.as_mut_slice(), *v);
                buf
            },
            AnyInt::U128(v) => {
                let mut buf = zeroed(16);
                le_write_u128(buf.as_mut_slice(), *v);
                buf
            },
            AnyInt::I8(v) => single_byte(unsigned8(*v)),
            AnyInt::I16(v) => {
                let mut buf = zeroed(2);
                le_write_i16(buf.as_mut_slice(), *v);
                buf
            },
            AnyInt::I32(v) => {
                let mut buf = zeroed(4);
                le_write_i32(buf.as_mut_slice(), *v);
                buf
            },
            AnyInt::I48(v) => AnyInt::write_i48(*v, Endianness::LittleEndian),
            AnyInt::I64(v) => {
                let mut buf = zeroed(8);
                le_write_i64(buf.as_mut_slice(), *v);
                buf
            },
            AnyInt::I128(v) => {
                let mut buf = zeroed(16);
                le_write_i128(buf.as_mut_slice(), *v);
                buf
            },
            AnyInt::Bool(v) => single_byte(if *v { 1 } else { 0 }),
        }
    }

    /// The bytes of the value in big-endian order.
    pub fn to_bytes_be(&self) -> (out: Vec<u8>)
        ensures
            out@ == self.wire_bytes(Endianness::BigEndian),
            out@.len() == self.spec_ser_size(),
    {
        proof {
            self.lemma_wire_bytes_len(Endianness::BigEndian);
        }
        match self {
            AnyInt::U8(v) => single_byte(*v),
            AnyInt::U16(v) => {
                let mut buf = zeroed(2);
                be_write_u16(buf.as_mut_slice(), *v);
                buf
            },
            AnyInt::U32(v) => {
                let mut buf = zeroed(4);
                be_write_u32(buf.as_mut_slice(), *v);
                buf
            },
            AnyInt::U48(v) => AnyInt::write_u48(*v, Endianness::BigEndian),
            AnyInt::U64(v) => {
                let mut buf = zeroed(8);
                be_write_u64(buf.as_mut_slice(), *v);
                buf
            },
            AnyInt::U128(v) => {
                let mut buf = zeroed(16);
                be_write_u128(buf.as_mut_slice(), *v);
                buf
            },
            AnyInt::I8(v) => single_byte(unsigned8(*v)),
            AnyInt::I16(v) => {
                let mut buf = zeroed(2);
                be_write_i16(buf.as_mut_slice(), *v);
                buf
            },
            AnyInt::I32(v) => {
                let mut buf = zeroed(4);
                be_write_i32(buf.as_mut_slice(), *v);
                buf
            },
            AnyInt::I48(v) => AnyInt::write_i48(*v, Endianness::BigEndian),
            AnyInt::I64(v) => {
                let mut buf = zeroed(8);
                be_write_i64(buf.as_mut_slice(), *v);
                buf
            },
            AnyInt::I128(v) => {
                let mut buf = zeroed(16);
                be_write_i128(buf.as_mut_slice(), *v);
                buf
            },
            AnyInt::Bool(v) => single_byte(if *v { 1 } else { 0 }),
        }
    }

    /// The bytes of the value under the byte order `endianness`.
    pub fn to_bytes(&self, endianness: Endianness) -> (out: Vec<u8>)
        ensures
            out@ == self.wire_bytes(endianness),
            out@.len() == self.spec_ser_size(),
    {
        match endianness {
            Endianness::LittleEndian => self.to_bytes_le(),
            Endianness::BigEndian => self.to_bytes_be(),
        }
    }

    /// In-memory size of the value, in bytes.
    pub fn size(&self) -> (n: usize)
        ensures
            n == self.spec_size(),
    {
        match self {
            AnyInt::U8(_) => 1,
            AnyInt::U16(_) => 2,
            AnyInt::U32(_) => 4,
            AnyInt::U48(_) => 8,
            AnyInt::U64(_) => 8,
            AnyInt::U128(_) => 16,
            AnyInt::I8(_) => 1,
            AnyInt::I16(_) => 2,
            AnyInt::I32(_) => 4,
            AnyInt::I48(_) => 8,
            AnyInt::I64(_) => 8,
            AnyInt::I128(_) => 16,
            AnyInt::Bool(_) => 1,
        }
    }

    /// Size of the value on the wire, in bytes.
    pub fn ser_size(&self) -> (n: usize)
        ensures
            n == self.spec_ser_size(),
    {
        match self {
            AnyInt::U8(_) => 1,
            AnyInt::U16(_) => 2,
            AnyInt::U32(_) => 4,
            AnyInt::U48(_) => 6,
            AnyInt::U64(_) => 8,
            AnyInt::U128(_) => 16,
            AnyInt::I8(_) => 1,
            AnyInt::I16(_) => 2,
            AnyInt::I32(_) => 4,
            AnyInt::I48(_) => 6,
            AnyInt::I64(_) => 8,
            AnyInt::I128(_) => 16,
            AnyInt::Bool(_) => 1,
        }
    }

    /// The six wire bytes of an unsigned 48-bit slot.
    fn write_u48(v: u64, endianness: Endianness) -> (out: Vec<u8>)
        ensures
            out@ == slot48_bytes(v as nat, endianness),
    {
        let mut buf = zeroed(8);
        match endianness {
            Endianness::LittleEndian => {
                le_write_u64(buf.as_mut_slice(), v);
                proof {
                    lemma_le_bytes_len(v as nat, 8);
                }
                buf.truncate(6);
                buf
            },
            Endianness::BigEndian => {
                be_write_u64(buf.as_mut_slice(), v);
                proof {
                    lemma_be_bytes_len(v as nat, 8);
                }
                buf.truncate(6);
                buf
            },
        }
    }

    /// The six wire bytes of a signed 48-bit slot.
    fn write_i48(v: i64, endianness: Endianness) -> (out: Vec<u8>)
        ensures
            out@ == slot48_bytes(unsigned_of(v as int, 8), endianness),
    {
        let mut buf = zeroed(8);
        match endianness {
            Endianness::LittleEndian => {
                le_write_i64(buf.as_mut_slice(), v);
                proof {
                    lemma_le_bytes_len(unsigned_of(v as int, 8), 8);
                }
                buf.truncate(6);
                buf
            },
            Endianness::BigEndian => {
                be_write_i64(buf.as_mut_slice(), v);
                proof {
                    lemma_be_bytes_len(unsigned_of(v as int, 8), 8);
                }
                buf.truncate(6);
                buf
            },
        }
    }
}

impl From<u8> for AnyInt {
    /// The variant of the same width and signedness as `v`.
    fn from(v: u8) -> (r: Self) {
        AnyInt::U8(v)
    }
}

impl FromSpecImpl<u8> for AnyInt {
    open spec fn obeys_from_spec() -> bool {
        true
    }

    open spec fn from_spec(v: u8) -> Self {
        AnyInt::U8(v)
    }
}

impl From<u16> for AnyInt {
    /// The variant of the same width and signedness as `v`.
    fn from(v: u16) -> (r: Self) {
        AnyInt::U16(v)
    }
}

impl FromSpecImpl<u16> for AnyInt {
    open spec fn obeys_from_spec() -> bool {
        true
    }

    open spec fn from_spec(v: u16) -> Self {
        AnyInt::U16(v)
    }
}

impl From<u32> for AnyInt {
    /// The variant of the same width and signedness as `v`.
    fn from(v: u32) -> (r: Self) {
        AnyInt::U32(v)
    }
}

impl FromSpecImpl<u32> for AnyInt {
    open spec fn obeys_from_spec() -> bool {
        true
    }

    open spec fn from_spec(v: u32) -> Self {
        AnyInt::U32(v)
    }
}

impl From<u64> for AnyInt {
    /// The variant of the same width and signedness as `v`.
    fn from(v: u64) -> (r: Self) {
        AnyInt::U64(v)
    }
}

impl FromSpecImpl<u64> for AnyInt {
    open spec fn obeys_from_spec() -> bool {
        true
    }

    open spec fn from_spec(v: u64) -> Self {
        AnyInt::U64(v)
    }
}

impl From<u128> for AnyInt {
    /// The variant of the same width and signedness as `v`.
    fn from(v: u128) -> (r: Self) {
        AnyInt::U128(v)
    }
}

impl FromSpecImpl<u128> for AnyInt {
    open spec fn obeys_from_spec() -> bool {
        true
    }

    open spec fn from_spec(v: u128) -> Self {
        AnyInt::U128(v)
    }
}

impl From<i8> for AnyInt {
    /// The variant of the same width and signedness as `v`.
    fn from(v: i8) -> (r: Self) {
        AnyInt::I8(v)
    }
}

impl FromSpecImpl<i8> for AnyInt {
    open spec fn obeys_from_spec() -> bool {
        true
    }

    open spec fn from_spec(v: i8) -> Self {
        AnyInt::I8(v)
    }
}

impl From<i16> for AnyInt {
    /// The variant of the same width and signedness as `v`.
    fn from(v: i16) -> (r: Self) {
        AnyInt::I16(v)
    }
}

impl FromSpecImpl<i16> for AnyInt {
    open spec fn obeys_from_spec() -> bool {
        true
    }

    open spec fn from_spec(v: i16) -> Self {
        AnyInt::I16(v)
    }
}

impl From<i32> for AnyInt {
    /// The variant of the same width and signedness as `v`.
    fn from(v: i32) -> (r: Self) {
        AnyInt::I32(v)
    }
}

impl FromSpecImpl<i32> for AnyInt {
    open spec fn obeys_from_spec() -> bool {
        true
    }

    open spec fn from_spec(v: i32) -> Self {
        AnyInt::I32(v)
    }
}

impl From<i64> for AnyInt {
    /// The variant of the same width and signedness as `v`.
    fn from(v: i64) -> (r: Self) {
        AnyInt::I64(v)
    }
}

impl FromSpecImpl<i64> for AnyInt {
    open spec fn obeys_from_spec() -> bool {
        true
    }

    open spec fn from_spec(v: i64) -> Self {
        AnyInt::I64(v)
    }
}

impl From<i128> for AnyInt {
    /// The variant of the same width and signedness as `v`.
    fn from(v: i128) -> (r: Self) {
        AnyInt::I128(v)
    }
}

impl FromSpecImpl<i128> for AnyInt {
    open spec fn obeys_from_spec() -> bool {
        true
    }

    open spec fn from_spec(v: i128) -> Self {
        AnyInt::I128(v)
    }
}

impl From<bool> for AnyInt {
    /// The variant of the same width and signedness as `v`.
    fn from(v: bool) -> (r: Self) {
        AnyInt::Bool(v)
    }
}

impl FromSpecImpl<bool> for AnyInt {
    open spec fn obeys_from_spec() -> bool {
        true
    }

    open spec fn from_spec(v: bool) -> Self {
        AnyInt::Bool(v)
    }
}

impl TryFrom<AnyInt> for u8 {
    type Error = StreamError;

    /// The number held by a `U8`; any other variant is a type
    /// mismatch.
    fn try_from(v: AnyInt) -> (r: Result<u8, StreamError>) {
        match v {
            AnyInt::U8(v) => Ok(v),
            _ => Err(StreamError::TypeMismatch),
        }
    }
}

impl TryFromSpecImpl<AnyInt> for u8 {
    open spec fn obeys_try_from_spec() -> bool {
        true
    }

    open spec fn try_from_spec(v: AnyInt) -> Result<u8, StreamError> {
        match v {
            AnyInt::U8(v) => Ok(v),
            _ => Err(StreamError::TypeMismatch),
        }
    }
}

impl TryFrom<AnyInt> for u16 {
    type Error = StreamError;

    /// The number held by a `U16`; any other variant is a type
    /// mismatch.
    fn try_from(v: AnyInt) -> (r: Result<u16, StreamError>) {
        match v {
            AnyInt::U16(v) => Ok(v),
            _ => Err(StreamError::TypeMismatch),
        }
    }
}

impl TryFromSpecImpl<AnyInt> for u16 {
    open spec fn obeys_try_from_spec() -> bool {
        true
    }

    open spec fn try_from_spec(v: AnyInt) -> Result<u16, StreamError> {
        match v {
            AnyInt::U16(v) => Ok(v),
            _ => Err(StreamError::TypeMismatch),
        }
    }
}

impl TryFrom<AnyInt> for u32 {
    type Error = StreamError;

    /// The number held by a `U32`; any other variant is a type
    /// mismatch.
    fn try_from(v: AnyInt) -> (r: Result<u32, StreamError>) {
        match v {
            AnyInt::U32(v) => Ok(v),
            _ => Err(StreamError::TypeMismatch),
        }
    }
}

impl TryFromSpecImpl<AnyInt> for u32 {
    open spec fn obeys_try_from_spec() -> bool {
        true
    }

    open spec fn try_from_spec(v: AnyInt) -> Result<u32, StreamError> {
        match v {
            AnyInt::U32(v) => Ok(v),
            _ => Err(StreamError::TypeMismatch),
        }
    }
}

impl TryFrom<AnyInt> for u64 {
    type Error = StreamError;

    /// The number held by a `U48` or a `U64`; any other variant is a
    /// type mismatch.
    fn try_from(v: AnyInt) -> (r: Result<u64, StreamError>) {
        match v {
            AnyInt::U48(v) => Ok(v),
            AnyInt::U64(v) => Ok(v),
            _ => Err(StreamError::TypeMismatch),
        }
    }
}

impl TryFromSpecImpl<AnyInt> for u64 {
    open spec fn obeys_try_from_spec() -> bool {
        true
    }

    open spec fn try_from_spec(v: AnyInt) -> Result<u64, StreamError> {
        match v {
            AnyInt::U48(v) => Ok(v),
            AnyInt::U64(v) => Ok(v),
            _ => Err(StreamError::TypeMismatch),
        }
    }
}

impl TryFrom<AnyInt> for u128 {
    type Error = StreamError;

    /// The number held by a `U128`; any other variant is a type
    /// mismatch.
    fn try_from(v: AnyInt) -> (r: Result<u128, StreamError>) {
        match v {
            AnyInt::U128(v) => Ok(v),
            _ => Err(StreamError::TypeMismatch),
        }
    }
}

impl TryFromSpecImpl<AnyInt> for u128 {
    open spec fn obeys_try_from_spec() -> bool {
        true
    }

    open spec fn try_from_spec(v: AnyInt) -> Result<u128, StreamError> {
        match v {
            AnyInt::U128(v) => Ok(v),
            _ => Err(StreamError::TypeMismatch),
        }
    }
}

impl TryFrom<AnyInt> for i8 {
    type Error = StreamError;

    /// The number held by a `I8`; any other variant is a type
    /// mismatch.
    fn try_from(v: AnyInt) -> (r: Result<i8, StreamError>) {
        match v {
            AnyInt::I8(v) => Ok(v),
            _ => Err(StreamError::TypeMismatch),
        }
    }
}

impl TryFromSpecImpl<AnyInt> for i8 {
    open spec fn obeys_try_from_spec() -> bool {
        true
    }

    open spec fn try_from_spec(v: AnyInt) -> Result<i8, StreamError> {
        match v {
            AnyInt::I8(v) => Ok(v),
            _ => Err(StreamError::TypeMismatch),
        }
    }
}

impl TryFrom<AnyInt> for i16 {
    type Error = StreamError;

    /// The number held by a `I16`; any other variant is a type
    /// mismatch.
    fn try_from(v: AnyInt) -> (r: Result<i16, StreamError>) {
        match v {
            AnyInt::I16(v) => Ok(v),
            _ => Err(StreamError::TypeMismatch),
        }
    }
}

impl TryFromSpecImpl<AnyInt> for i16 {
    open spec fn obeys_try_from_spec() -> bool {
        true
    }

    open spec fn try_from_spec(v: AnyInt) -> Result<i16, StreamError> {
        match v {
            AnyInt::I16(v) => Ok(v),
            _ => Err(StreamError::TypeMismatch),
        }
    }
}

impl TryFrom<AnyInt> for i32 {
    type Error = StreamError;

    /// The number held by a `I32`; any other variant is a type
    /// mismatch.
    fn try_from(v: AnyInt) -> (r: Result<i32, StreamError>) {
        match v {
            AnyInt::I32(v) => Ok(v),
            _ => Err(StreamError::TypeMismatch),
        }
    }
}

impl TryFromSpecImpl<AnyInt> for i32 {
    open spec fn obeys_try_from_spec() -> bool {
        true
    }

    open spec fn try_from_spec(v: AnyInt) -> Result<i32, StreamError> {
        match v {
            AnyInt::I32(v) => Ok(v),
            _ => Err(StreamError::TypeMismatch),
        }
    }
}

impl TryFrom<AnyInt> for i64 {
    type Error = StreamError;

    /// The number held by a `I48` or a `I64`; any other variant is a
    /// type mismatch.
    fn try_from(v: AnyInt) -> (r: Result<i64, StreamError>) {
        match v {
            AnyInt::I48(v) => Ok(v),
            AnyInt::I64(v) => Ok(v),
            _ => Err(StreamError::TypeMismatch),
        }
    }
}

impl TryFromSpecImpl<AnyInt> for i64 {
    open spec fn obeys_try_from_spec() -> bool {
        true
    }

    open spec fn try_from_spec(v: AnyInt) -> Result<i64, StreamError> {
        match v {
            AnyInt::I48(v) => Ok(v),
            AnyInt::I64(v) => Ok(v),
            _ => Err(StreamError::TypeMismatch),
        }
    }
}

impl TryFrom<AnyInt> for i128 {
    type Error = StreamError;

    /// The number held by a `I128`; any other variant is a type
    /// mismatch.
    fn try_from(v: AnyInt) -> (r: Result<i128, StreamError>) {
        match v {
            AnyInt::I128(v) => Ok(v),
            _ => Err(StreamError::TypeMismatch),
        }
    }
}

impl TryFromSpecImpl<AnyInt> for i128 {
    open spec fn obeys_try_from_spec() -> bool {
        true
    }

    open spec fn try_from_spec(v: AnyInt) -> Result<i128, StreamError> {
        match v {
            AnyInt::I128(v) => Ok(v),
            _ => Err(StreamError::TypeMismatch),
        }
    }
}

impl TryFrom<AnyInt> for bool {
    type Error = StreamError;

    /// The boolean held by a `Bool`; any other variant is a type
    /// mismatch.
    fn try_from(v: AnyInt) -> (r: Result<bool, StreamError>) {
        match v {
            AnyInt::Bool(v) => Ok(v),
            _ => Err(StreamError::TypeMismatch),
        }
    }
}

impl TryFromSpecImpl<AnyInt> for bool {
    open spec fn obeys_try_from_spec() -> bool {
        true
    }

    open spec fn try_from_spec(v: AnyInt) -> Result<bool, StreamError> {
        match v {
            AnyInt::Bool(v) => Ok(v),
            _ => Err(StreamError::TypeMismatch),
        }
    }
}

/// A buffer of `n` zero bytes.
pub(crate) fn zeroed(n: usize) -> (buf: Vec<u8>)
    ensures
        buf@.len() == n,
        forall|i: int| 0 <= i < n ==> buf@[i] == 0u8,
{
    let mut buf: Vec<u8> = Vec::new();
    let mut i: usize = 0;
    while i < n
        invariant
            i <= n,
            buf@.len() == i,
            forall|j: int| 0 <= j < i ==> buf@[j] == 0u8,
        decreases n - i,
    {
        buf.push(0u8);
        i += 1;
    }
    buf
}

/// Appends `more` to `buf`.
pub(crate) fn append_bytes(buf: &mut Vec<u8>, more: &[u8])
    ensures
        final(buf)@ == old(buf)@ + more@,
{
    let n = more.len();
    let mut i: usize = 0;
    while i < n
        invariant
            i <= n,
            n == more@.len(),
            buf@ == old(buf)@ + more@.take(i as int),
        decreases n - i,
    {
        buf.push(more[i]);
        i += 1;
    }
}

/// A buffer that holds the one byte `b`.
pub(crate) fn single_byte(b: u8) -> (buf: Vec<u8>)
    ensures
        buf@ == seq![b],
{
    let mut buf: Vec<u8> = Vec::new();
    buf.push(b);
    buf
}

} // verus!
