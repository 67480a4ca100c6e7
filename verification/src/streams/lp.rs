//! Payloads that carry the width and byte order of the length field that
//! they are framed with.

use super::{Endianness, LPWidth};
use vstd::prelude::*;
use vstd::std_specs::convert::FromSpecImpl;
use vstd::utf8::encode_utf8;

verus! {

/// The common face of the framed payloads.
pub trait LPType<T, R: ?Sized + View> {
    /// The width of the length field.
    spec fn spec_lpwidth(&self) -> LPWidth;

    /// The byte order of the length field.
    spec fn spec_lpendian(&self) -> Endianness;

    /// The length of the payload in bytes.
    spec fn spec_lp(&self) -> nat;

    /// The payload.
    spec fn spec_val(&self) -> R::V;

    /// The width of the length field.
    fn lpwidth(&self) -> (w: &LPWidth)
        ensures
            *w == self.spec_lpwidth(),
    ;

    /// The byte order of the length field.
    fn lpendian(&self) -> (e: &Endianness)
        ensures
            *e == self.spec_lpendian(),
    ;

    /// Sets the byte order of the length field and leaves the rest.
    fn set_endian(&mut self, endianness: Endianness)
        ensures
            final(self).spec_lpendian() == endianness,
            final(self).spec_lpwidth() == old(self).spec_lpwidth(),
            final(self).spec_lp() == old(self).spec_lp(),
            final(self).spec_val() == old(self).spec_val(),
    ;

    /// The length of the payload in bytes.
    fn lp(&self) -> (n: usize)
        ensures
            n == self.spec_lp(),
    ;

    /// The payload.
    fn val(&self) -> (v: &R)
        ensures
            v@ == self.spec_val(),
    ;
}

/// A text with the width and byte order of its length field.
#[derive(Debug, Clone, PartialEq, Eq, PartialOrd, Ord, Hash)]
pub struct LPString {
    lpwidth: LPWidth,
    lpendian: Endianness,
    lp: usize,
    val: String,
}

impl LPType<String, str> for LPString {
    closed spec fn spec_lpwidth(&self) -> LPWidth {
        self.lpwidth
    }

    closed spec fn spec_lpendian(&self) -> Endianness {
        self.lpendian
    }

    closed spec fn spec_lp(&self) -> nat {
        self.lp as nat
    }

    closed spec fn spec_val(&self) -> Seq<char> {
        self.val@
    }

    fn lpwidth(&self) -> (w: &LPWidth) {
        &self.lpwidth
    }

    fn lpendian(&self) -> (e: &Endianness) {
        &self.lpendian
    }

    fn set_endian(&mut self, endianness: Endianness) {
        self.lpendian = endianness;
    }

    fn lp(&self) -> (n: usize) {
        self.lp
    }

    fn val(&self) -> (v: &str) {
        self.val.as_str()
    }
}

impl From<String> for LPString {
    /// `s` behind a length field of four bytes in little-endian order.
    fn from(s: String) -> (r: Self)
        ensures
            r.spec_lpwidth() == LPWidth::LP32,
            r.spec_lpendian() == Endianness::LittleEndian,
            r.spec_lp() == encode_utf8(s@).len(),
            r.spec_val() == s@,
    {
        let lp = s.as_str().as_bytes().len();
        LPString { lpwidth: LPWidth::LP32, lpendian: Endianness::LittleEndian, lp, val: s }
    }
}

impl FromSpecImpl<String> for LPString {
    open spec fn obeys_from_spec() -> bool {
        true
    }

    closed spec fn from_spec(s: String) -> Self {
        LPString {
            lpwidth: LPWidth::LP32,
            lpendian: Endianness::LittleEndian,
            lp: encode_utf8(s@).len() as usize,
            val: s,
        }
    }
}

impl From<LPString> for String {
    /// The payload of `s`.
    fn from(s: LPString) -> (r: Self)
        ensures
            r@ == s.spec_val(),
    {
        s.val
    }
}

impl FromSpecImpl<LPString> for String {
    open spec fn obeys_from_spec() -> bool {
        true
    }

    closed spec fn from_spec(s: LPString) -> Self {
        s.val
    }
}

impl From<&str> for LPString {
    /// A copy of `s` behind a length field of four bytes in little-endian
    /// order.
    fn from(s: &str) -> (r: Self)
        ensures
            r.spec_lpwidth() == LPWidth::LP32,
            r.spec_lpendian() == Endianness::LittleEndian,
            r.spec_lp() == encode_utf8(s@).len(),
            r.spec_val() == s@,
    {
        let lp = s.as_bytes().len();
        LPString {
            lpwidth: LPWidth::LP32,
            lpendian: Endianness::LittleEndian,
            lp,
            val: s.to_owned(),
        }
    }
}

/// The copy of a text has no name in specifications, so there is no value to
/// compare the result with: what `from` gives is fixed by its own contract.
impl FromSpecImpl<&str> for LPString {
    open spec fn obeys_from_spec() -> bool {
        false
    }

    open spec fn from_spec(s: &str) -> Self {
        arbitrary()
    }
}

/// A borrowed text with the width and byte order of its length field.
#[derive(Debug, Clone, PartialEq, Eq, PartialOrd, Ord, Hash)]
pub struct LPStr<'data> {
    lpwidth: LPWidth,
    lpendian: Endianness,
    lp: usize,
    val: &'data str,
}

impl<'data> LPType<&str, str> for LPStr<'data> {
    closed spec fn spec_lpwidth(&self) -> LPWidth {
        self.lpwidth
    }

    closed spec fn spec_lpendian(&self) -> Endianness {
        self.lpendian
    }

    closed spec fn spec_lp(&self) -> nat {
        self.lp as nat
    }

    closed spec fn spec_val(&self) -> Seq<char> {
        self.val@
    }

    fn lpwidth(&self) -> (w: &LPWidth) {
        &self.lpwidth
    }

    fn lpendian(&self) -> (e: &Endianness) {
        &self.lpendian
    }

    fn set_endian(&mut self, endianness: Endianness) {
        self.lpendian = endianness;
    }

    fn lp(&self) -> (n: usize) {
        self.lp
    }

    fn val(&self) -> (v: &str) {
        self.val
    }
}

impl<'data> From<&'data str> for LPStr<'data> {
    /// `s` behind a length field of four bytes in little-endian order.
    fn from(s: &'data str) -> (r: Self)
        ensures
            r.spec_lpwidth() == LPWidth::LP32,
            r.spec_lpendian() == Endianness::LittleEndian,
            r.spec_lp() == encode_utf8(s@).len(),
            r.spec_val() == s@,
    {
        let lp = s.as_bytes().len();
        LPStr { lpwidth: LPWidth::LP32, lpendian: Endianness::LittleEndian, lp, val: s }
    }
}

impl<'data> FromSpecImpl<&'data str> for LPStr<'data> {
    open spec fn obeys_from_spec() -> bool {
        true
    }

    closed spec fn from_spec(s: &'data str) -> Self {
        LPStr {
            lpwidth: LPWidth::LP32,
            lpendian: Endianness::LittleEndian,
            lp: encode_utf8(s@).len() as usize,
            val: s,
        }
    }
}

impl<'data> From<LPStr<'data>> for &'data str {
    /// The payload of `s`.
    fn from(s: LPStr<'data>) -> (r: Self)
        ensures
            r@ == s.spec_val(),
    {
        s.val
    }
}

impl<'data> FromSpecImpl<LPStr<'data>> for &'data str {
    open spec fn obeys_from_spec() -> bool {
        true
    }

    closed spec fn from_spec(s: LPStr<'data>) -> Self {
        s.val
    }
}

/// Borrowed bytes with the width and byte order of their length field.
#[derive(Debug, Clone, PartialEq, Eq, PartialOrd, Ord, Hash)]
pub struct LPBuffer<'data> {
    lpwidth: LPWidth,
    lpendian: Endianness,
    lp: usize,
    val: &'data [u8],
}

impl<'data> LPType<&[u8], [u8]> for LPBuffer<'data> {
    closed spec fn spec_lpwidth(&self) -> LPWidth {
        self.lpwidth
    }

    closed spec fn spec_lpendian(&self) -> Endianness {
        self.lpendian
    }

    closed spec fn spec_lp(&self) -> nat {
        self.lp as nat
    }

    closed spec fn spec_val(&self) -> Seq<u8> {
        self.val@
    }

    fn lpwidth(&self) -> (w: &LPWidth) {
        &self.lpwidth
    }

    fn lpendian(&self) -> (e: &Endianness) {
        &self.lpendian
    }

    fn set_endian(&mut self, endianness: Endianness) {
        self.lpendian = endianness;
    }

    fn lp(&self) -> (n: usize) {
        self.lp
    }

    fn val(&self) -> (v: &[u8]) {
        self.val
    }
}

impl<'data> From<&'data [u8]> for LPBuffer<'data> {
    /// `s` behind a length field of four bytes in little-endian order.
    fn from(s: &'data [u8]) -> (r: Self)
        ensures
            r.spec_lpwidth() == LPWidth::LP32,
            r.spec_lpendian() == Endianness::LittleEndian,
            r.spec_lp() == s@.len(),
            r.spec_val() == s@,
    {
        let lp = s.len();
        LPBuffer { lpwidth: LPWidth::LP32, lpendian: Endianness::LittleEndian, lp, val: s }
    }
}

impl<'data> FromSpecImpl<&'data [u8]> for LPBuffer<'data> {
    open spec fn obeys_from_spec() -> bool {
        true
    }

    closed spec fn from_spec(s: &'data [u8]) -> Self {
        LPBuffer {
            lpwidth: LPWidth::LP32,
            lpendian: Endianness::LittleEndian,
            lp: s@.len() as usize,
            val: s,
        }
    }
}

impl<'data> From<LPBuffer<'data>> for &'data [u8] {
    /// The payload of `s`.
    fn from(s: LPBuffer<'data>) -> (r: Self)
        ensures
            r@ == s.spec_val(),
    {
        s.val
    }
}

impl<'data> FromSpecImpl<LPBuffer<'data>> for &'data [u8] {
    open spec fn obeys_from_spec() -> bool {
        true
    }

    closed spec fn from_spec(s: LPBuffer<'data>) -> Self {
        s.val
    }
}

} // verus!
