//! Declarative layouts: an ordered list of tokens that says how a run of
//! bytes is cut into values, and a struct reader that names the values.

use super::endian::{
    lemma_be_value_of_bytes, lemma_le_value_of_bytes, lemma_radix_values,
    lemma_single_byte_value, signed_of,
};
use super::helpers::{
    read_i16, read_i32, read_i64, read_i8, read_u16, read_u32, read_u64, read_u8, short_read,
};
use super::{decode_uint, AnyInt, ByteStream, Endianness, FieldMap, IoErrorKind, StreamError};
use vstd::prelude::*;

verus! {

broadcast use vstd::layout::layout_of_primitives;

/// A test on an unsigned integer, as a predicate token applies it.
#[derive(Debug, Clone, PartialEq, Eq)]
pub enum Predicate {
    /// Holds of the one value given.
    Equals(u64),
    /// Holds of each of the values given.
    OneOf(Vec<u64>),
    /// Holds of the values whose bits under `mask` are those of `expected`.
    MaskMatch { mask: u64, expected: u64 },
}

impl Predicate {
    /// Whether the predicate holds of `v`.
    pub open spec fn holds(&self, v: u64) -> bool {
        match self {
            Predicate::Equals(c) => v == *c,
            Predicate::OneOf(set) => set@.contains(v),
            Predicate::MaskMatch { mask, expected } => v & *mask == *expected,
        }
    }

    /// Whether the predicate holds of `v`.
    #[verifier::loop_isolation(false)]
    pub fn eval(&self, v: u64) -> (r: bool)
        ensures
            r == self.holds(v),
    {
        match self {
            Predicate::Equals(c) => v == *c,
            Predicate::OneOf(set) => {
                let mut i: usize = 0;
                while i < set.len()
                    invariant
                        i <= set@.len(),
                        forall|j: int| 0 <= j < i ==> set@[j] != v,
                    decreases set@.len() - i,
                {
                    if set[i] == v {
                        return true;
                    }
                    i += 1;
                }
                false
            },
            Predicate::MaskMatch { mask, expected } => v & *mask == *expected,
        }
    }
}

/// One step of a layout.
#[derive(Debug, PartialEq, Eq)]
pub enum PatternReaderTokens {
    /// Bytes that are stepped over and give no value.
    Padding(usize),
    Bool,
    U8,
    U16,
    U32,
    U64,
    I8,
    I16,
    I32,
    I64,
    /// An unsigned integer as wide as the pointers of the machine.
    USize,
    /// An unsigned integer of the width given, in bytes, of which only the
    /// outcome of the predicate is kept.
    Expr((u8, Predicate)),
}

/// The width in bytes of the pointers of the machine.
pub open spec fn word_width() -> nat {
    vstd::layout::size_of::<usize>()
}

impl PatternReaderTokens {
    /// The number of bytes the token stands for.
    pub open spec fn width(&self) -> nat {
        match self {
            PatternReaderTokens::Padding(n) => *n as nat,
            PatternReaderTokens::Bool | PatternReaderTokens::U8 | PatternReaderTokens::I8 => 1,
            PatternReaderTokens::U16 | PatternReaderTokens::I16 => 2,
            PatternReaderTokens::U32 | PatternReaderTokens::I32 => 4,
            PatternReaderTokens::U64 | PatternReaderTokens::I64 => 8,
            PatternReaderTokens::USize => word_width(),
            PatternReaderTokens::Expr((w, _)) => *w as nat,
        }
    }

    /// Whether the token can be decoded: a predicate token must be one, two,
    /// four or eight bytes wide.
    pub open spec fn well_formed(&self) -> bool {
        match self {
            PatternReaderTokens::Expr((w, _)) => *w == 1 || *w == 2 || *w == 4 || *w == 8,
            _ => true,
        }
    }

    /// Whether decoding the token gives a value.
    pub open spec fn yields(&self) -> bool {
        !(self is Padding)
    }

    /// The value that a well-formed token makes of `bytes`, which are as
    /// many as its width, under the byte order `e`. Padding makes none.
    pub open spec fn value(&self, bytes: Seq<u8>, e: Endianness) -> Option<AnyInt> {
        match self {
            PatternReaderTokens::Padding(_) => None,
            PatternReaderTokens::Bool => Some(AnyInt::Bool(bytes[0] != 0)),
            PatternReaderTokens::U8 => Some(AnyInt::U8(bytes[0])),
            PatternReaderTokens::U16 => Some(AnyInt::U16(decode_uint(bytes, e) as u16)),
            PatternReaderTokens::U32 => Some(AnyInt::U32(decode_uint(bytes, e) as u32)),
            PatternReaderTokens::U64 => Some(AnyInt::U64(decode_uint(bytes, e) as u64)),
            PatternReaderTokens::I8 => Some(AnyInt::I8(signed_of(bytes[0] as nat, 1) as i8)),
            PatternReaderTokens::I16 => Some(
                AnyInt::I16(signed_of(decode_uint(bytes, e), 2) as i16),
            ),
            PatternReaderTokens::I32 => Some(
                AnyInt::I32(signed_of(decode_uint(bytes, e), 4) as i32),
            ),
            PatternReaderTokens::I64 => Some(
                AnyInt::I64(signed_of(decode_uint(bytes, e), 8) as i64),
            ),
            PatternReaderTokens::USize => if word_width() == 4 {
                Some(AnyInt::U32(decode_uint(bytes, e) as u32))
            } else {
                Some(AnyInt::U64(decode_uint(bytes, e) as u64))
            },
            PatternReaderTokens::Expr((_, p)) => Some(
                AnyInt::Bool(p.holds(decode_uint(bytes, e) as u64)),
            ),
        }
    }
}

/// Why decoding a layout stopped early.
#[derive(Debug, Clone, Copy, PartialEq, Eq, Structural)]
pub enum DecodeFailure {
    /// A predicate token has a width other than one, two, four or eight.
    InvalidPattern,
    /// The stream held fewer bytes than a token needs.
    EndOfStream,
}

/// How far decoding has come: the values made so far, the offset of the
/// cursor, and the failure that stopped it, if one did.
pub struct DecodeState {
    pub values: Seq<AnyInt>,
    pub pos: nat,
    pub failure: Option<DecodeFailure>,
}

/// Where the cursor stays when a token that needs more bytes than are left is
/// met at `pos`: padding is stepped over byte by byte and so uses up the
/// stream, any other token is read at once or not at all.
pub open spec fn short_stop(token: PatternReaderTokens, len: nat, pos: nat) -> nat {
    if token is Padding && pos < len {
        len
    } else {
        pos
    }
}

/// Decoding `token` in the state `st` against the bytes `data`.
pub open spec fn decode_step(
    st: DecodeState,
    token: PatternReaderTokens,
    data: Seq<u8>,
    e: Endianness,
) -> DecodeState {
    if st.failure is Some {
        st
    } else if !token.well_formed() {
        DecodeState { values: st.values, pos: st.pos, failure: Some(DecodeFailure::InvalidPattern) }
    } else if st.pos + token.width() > data.len() {
        DecodeState {
            values: st.values,
            pos: short_stop(token, data.len(), st.pos),
            failure: Some(DecodeFailure::EndOfStream),
        }
    } else {
        DecodeState {
            values: match token.value(
                data.subrange(st.pos as int, (st.pos + token.width()) as int),
                e,
            ) {
                Some(v) => st.values.push(v),
                None => st.values,
            },
            pos: st.pos + token.width(),
            failure: None,
        }
    }
}

/// Decoding the first `k` of `tokens` against `data`, from the offset `start`
/// on: the tokens are taken one after the other, and nothing changes once one
/// has failed.
pub open spec fn decode_tokens(
    tokens: Seq<PatternReaderTokens>,
    k: nat,
    data: Seq<u8>,
    start: nat,
    e: Endianness,
) -> DecodeState
    decreases k,
{
    if k == 0 {
        DecodeState { values: Seq::empty(), pos: start, failure: None }
    } else {
        decode_step(decode_tokens(tokens, (k - 1) as nat, data, start, e), tokens[k - 1], data, e)
    }
}

/// The widths of the first `k` of `tokens`, added up.
pub open spec fn total_width(tokens: Seq<PatternReaderTokens>, k: nat) -> nat
    decreases k,
{
    if k == 0 {
        0
    } else {
        total_width(tokens, (k - 1) as nat) + tokens[k - 1].width()
    }
}

/// How many of the first `k` of `tokens` give a value.
pub open spec fn yield_count(tokens: Seq<PatternReaderTokens>, k: nat) -> nat
    decreases k,
{
    if k == 0 {
        0
    } else {
        yield_count(tokens, (k - 1) as nat) + if tokens[k - 1].yields() {
            1nat
        } else {
            0nat
        }
    }
}

/// Whether every one of `tokens` is well formed.
pub open spec fn all_well_formed(tokens: Seq<PatternReaderTokens>) -> bool {
    forall|i: int| 0 <= i < tokens.len() ==> (#[trigger] tokens[i]).well_formed()
}

/// Once a token has failed, the tokens after it change nothing.
pub proof fn lemma_failure_is_final(
    tokens: Seq<PatternReaderTokens>,
    k: nat,
    n: nat,
    data: Seq<u8>,
    start: nat,
    e: Endianness,
)
    requires
        k <= n,
        decode_tokens(tokens, k, data, start, e).failure is Some,
    ensures
        decode_tokens(tokens, n, data, start, e) == decode_tokens(tokens, k, data, start, e),
    decreases n - k,
{
    if k < n {
        lemma_failure_is_final(tokens, k, (n - 1) as nat, data, start, e);
    }
}

/// The widths of a shorter run of tokens add up to no more than those of a
/// longer one.
pub proof fn lemma_total_width_grows(tokens: Seq<PatternReaderTokens>, k: nat, n: nat)
    requires
        k <= n,
    ensures
        total_width(tokens, k) <= total_width(tokens, n),
    decreases n - k,
{
    if k < n {
        lemma_total_width_grows(tokens, k, (n - 1) as nat);
    }
}

/// A well-formed layout, decoded against a stream that holds at least as many
/// bytes as its widths add up to, does not fail, uses up exactly that many
/// bytes, and gives one value for each token that is not padding.
pub proof fn lemma_decode_consumes_total_width(
    tokens: Seq<PatternReaderTokens>,
    k: nat,
    data: Seq<u8>,
    start: nat,
    e: Endianness,
)
    requires
        k <= tokens.len(),
        all_well_formed(tokens),
        start + total_width(tokens, k) <= data.len(),
    ensures
        decode_tokens(tokens, k, data, start, e).failure is None,
        decode_tokens(tokens, k, data, start, e).pos == start + total_width(tokens, k),
        decode_tokens(tokens, k, data, start, e).values.len() == yield_count(tokens, k),
    decreases k,
{
    if k > 0 {
        lemma_decode_consumes_total_width(tokens, (k - 1) as nat, data, start, e);
    }
}

/// A decoding that did not fail gave one value for each token that is not
/// padding, and moved the cursor by the widths of the tokens.
pub proof fn lemma_decode_success(
    tokens: Seq<PatternReaderTokens>,
    k: nat,
    data: Seq<u8>,
    start: nat,
    e: Endianness,
)
    requires
        decode_tokens(tokens, k, data, start, e).failure is None,
    ensures
        decode_tokens(tokens, k, data, start, e).values.len() == yield_count(tokens, k),
        decode_tokens(tokens, k, data, start, e).pos == start + total_width(tokens, k),
        start + total_width(tokens, k) <= data.len() || k == 0,
    decreases k,
{
    if k > 0 {
        lemma_decode_success(tokens, (k - 1) as nat, data, start, e);
    }
}

/// The token that reads a value of the variant of `v`. The variants of 48
/// and of 128 bits have none.
pub open spec fn token_for(v: AnyInt) -> Option<PatternReaderTokens> {
    match v {
        AnyInt::U8(_) => Some(PatternReaderTokens::U8),
        AnyInt::U16(_) => Some(PatternReaderTokens::U16),
        AnyInt::U32(_) => Some(PatternReaderTokens::U32),
        AnyInt::U64(_) => Some(PatternReaderTokens::U64),
        AnyInt::I8(_) => Some(PatternReaderTokens::I8),
        AnyInt::I16(_) => Some(PatternReaderTokens::I16),
        AnyInt::I32(_) => Some(PatternReaderTokens::I32),
        AnyInt::I64(_) => Some(PatternReaderTokens::I64),
        AnyInt::Bool(_) => Some(PatternReaderTokens::Bool),
        _ => None,
    }
}

/// Decoding the wire form of a value with the one token of its variant, in
/// the byte order in which it was written, gives the value back and uses up
/// the whole wire form.
pub proof fn lemma_wire_round_trip(v: AnyInt, e: Endianness)
    requires
        token_for(v) is Some,
    ensures
        decode_tokens(seq![token_for(v).unwrap()], 1, v.wire_bytes(e), 0, e) == (DecodeState {
            values: seq![v],
            pos: v.spec_ser_size(),
            failure: None,
        }),
{
    let token = token_for(v).unwrap();
    let data = v.wire_bytes(e);
    let w = v.spec_ser_size();
    v.lemma_wire_bytes_len(e);
    lemma_radix_values();
    assert(data.subrange(0, w as int) =~= data);
    let word = v.wire_word();
    if w > 1 {
        lemma_le_value_of_bytes(word, w);
        lemma_be_value_of_bytes(word, w);
    }
    reveal_with_fuel(decode_tokens, 2);
}

/// An ordered layout of tokens with the byte order of its integers.
#[derive(Debug, PartialEq, Eq)]
pub struct PatternReader {
    pattern: Vec<PatternReaderTokens>,
    endianess: Endianness,
}

impl PatternReader {
    /// The tokens of the layout, in the order in which they were added.
    pub closed spec fn tokens(&self) -> Seq<PatternReaderTokens> {
        self.pattern@
    }

    /// The byte order in which the integers of the layout are read.
    pub closed spec fn byte_order(&self) -> Endianness {
        self.endianess
    }

    /// The number of bytes that the layout stands for.
    pub open spec fn required(&self) -> nat {
        total_width(self.tokens(), self.tokens().len())
    }

    /// What decoding the layout against `data` from the offset `start` on
    /// comes to.
    pub open spec fn outcome(&self, data: Seq<u8>, start: nat) -> DecodeState {
        decode_tokens(self.tokens(), self.tokens().len(), data, start, self.byte_order())
    }

    /// An empty layout whose integers are big-endian.
    pub fn new_be() -> (p: Self)
        ensures
            p.tokens() == Seq::<PatternReaderTokens>::empty(),
            p.byte_order() == Endianness::BigEndian,
    {
        Self::new(Endianness::BigEndian)
    }

    /// An empty layout whose integers are little-endian.
    pub fn new_le() -> (p: Self)
        ensures
            p.tokens() == Seq::<PatternReaderTokens>::empty(),
            p.byte_order() == Endianness::LittleEndian,
    {
        Self::new(Endianness::LittleEndian)
    }

    /// An empty layout whose integers have the byte order `endianness`.
    pub fn new(endianness: Endianness) -> (p: Self)
        ensures
            p.tokens() == Seq::<PatternReaderTokens>::empty(),
            p.byte_order() == endianness,
    {
        PatternReader { pattern: Vec::new(), endianess: endianness }
    }

    /// Adds `token` at the end of the layout.
    pub fn add_token(&mut self, token: PatternReaderTokens) -> (ret: &mut Self)
        ensures
            ret.tokens() == old(self).tokens().push(token),
            ret.byte_order() == old(self).byte_order(),
            *final(self) == *final(ret),
    {
        self.pattern.push(token);
        self
    }

    /// Adds an unsigned byte at the end of the layout.
    pub fn add_u8(&mut self) -> (ret: &mut Self)
        ensures
            ret.tokens() == old(self).tokens().push(PatternReaderTokens::U8),
            ret.byte_order() == old(self).byte_order(),
            *final(self) == *final(ret),
    {
        self.add_token(PatternReaderTokens::U8)
    }

    /// Adds an unsigned 16-bit integer at the end of the layout.
    pub fn add_u16(&mut self) -> (ret: &mut Self)
        ensures
            ret.tokens() == old(self).tokens().push(PatternReaderTokens::U16),
            ret.byte_order() == old(self).byte_order(),
            *final(self) == *final(ret),
    {
        self.add_token(PatternReaderTokens::U16)
    }

    /// Adds an unsigned 32-bit integer at the end of the layout.
    pub fn add_u32(&mut self) -> (ret: &mut Self)
        ensures
            ret.tokens() == old(self).tokens().push(PatternReaderTokens::U32),
            ret.byte_order() == old(self).byte_order(),
            *final(self) == *final(ret),
    {
        self.add_token(PatternReaderTokens::U32)
    }

    /// Adds an unsigned 64-bit integer at the end of the layout.
    pub fn add_u64(&mut self) -> (ret: &mut Self)
        ensures
            ret.tokens() == old(self).tokens().push(PatternReaderTokens::U64),
            ret.byte_order() == old(self).byte_order(),
            *final(self) == *final(ret),
    {
        self.add_token(PatternReaderTokens::U64)
    }

    /// Adds a signed byte at the end of the layout.
    pub fn add_i8(&mut self) -> (ret: &mut Self)
        ensures
            ret.tokens() == old(self).tokens().push(PatternReaderTokens::I8),
            ret.byte_order() == old(self).byte_order(),
            *final(self) == *final(ret),
    {
        self.add_token(PatternReaderTokens::I8)
    }

    /// Adds a signed 16-bit integer at the end of the layout.
    pub fn add_i16(&mut self) -> (ret: &mut Self)
        ensures
            ret.tokens() == old(self).tokens().push(PatternReaderTokens::I16),
            ret.byte_order() == old(self).byte_order(),
            *final(self) == *final(ret),
    {
        self.add_token(PatternReaderTokens::I16)
    }

    /// Adds a signed 32-bit integer at the end of the layout.
    pub fn add_i32(&mut self) -> (ret: &mut Self)
        ensures
            ret.tokens() == old(self).tokens().push(PatternReaderTokens::I32),
            ret.byte_order() == old(self).byte_order(),
            *final(self) == *final(ret),
    {
        self.add_token(PatternReaderTokens::I32)
    }

    /// Adds a signed 64-bit integer at the end of the layout.
    pub fn add_i64(&mut self) -> (ret: &mut Self)
        ensures
            ret.tokens() == old(self).tokens().push(PatternReaderTokens::I64),
            ret.byte_order() == old(self).byte_order(),
            *final(self) == *final(ret),
    {
        self.add_token(PatternReaderTokens::I64)
    }

    /// Adds an unsigned integer as wide as a pointer at the end of the layout.
    pub fn add_usize(&mut self) -> (ret: &mut Self)
        ensures
            ret.tokens() == old(self).tokens().push(PatternReaderTokens::USize),
            ret.byte_order() == old(self).byte_order(),
            *final(self) == *final(ret),
    {
        self.add_token(PatternReaderTokens::USize)
    }

    /// Adds a boolean of one byte at the end of the layout.
    pub fn add_bool(&mut self) -> (ret: &mut Self)
        ensures
            ret.tokens() == old(self).tokens().push(PatternReaderTokens::Bool),
            ret.byte_order() == old(self).byte_order(),
            *final(self) == *final(ret),
    {
        self.add_token(PatternReaderTokens::Bool)
    }

    /// Adds `len` bytes of padding at the end of the layout.
    pub fn add_padding(&mut self, len: usize) -> (ret: &mut Self)
        ensures
            ret.tokens() == old(self).tokens().push(PatternReaderTokens::Padding(len)),
            ret.byte_order() == old(self).byte_order(),
            *final(self) == *final(ret),
    {
        self.add_token(PatternReaderTokens::Padding(len))
    }

    /// Adds a predicate at the end of the layout: an unsigned integer of
    /// `par_width` bytes is read, and the value is whether `expr` holds of it.
    pub fn add_expr(&mut self, par_width: u8, expr: Predicate) -> (ret: &mut Self)
        ensures
            ret.tokens() == old(self).tokens().push(PatternReaderTokens::Expr((par_width, expr))),
            ret.byte_order() == old(self).byte_order(),
            *final(self) == *final(ret),
    {
        self.add_token(PatternReaderTokens::Expr((par_width, expr)))
    }

    /// The tokens of the layout.
    pub fn tokens_ref(&self) -> (tokens: &Vec<PatternReaderTokens>)
        ensures
            tokens@ == self.tokens(),
    {
        &self.pattern
    }

    /// The byte order of the layout.
    pub fn endianness(&self) -> (e: Endianness)
        ensures
            e == self.byte_order(),
    {
        self.endianess
    }

    /// How many bytes of input the layout needs: the widths of its tokens
    /// added up.
    pub fn pattern_required_bytes(&self) -> (bytes: u64)
        requires
            self.required() <= u64::MAX,
        ensures
            bytes == self.required(),
    {
        let mut bytes: u64 = 0;
        let mut i: usize = 0;
        let n = self.pattern.len();
        while i < n
            invariant
                i <= n,
                n == self.pattern@.len(),
                bytes == total_width(self.pattern@, i as nat),
                total_width(self.pattern@, n as nat) <= u64::MAX,
            decreases n - i,
        {
            proof {
                lemma_total_width_grows(self.pattern@, (i + 1) as nat, n as nat);
            }
            let w: u64 = match &self.pattern[i] {
                PatternReaderTokens::Padding(sz) => *sz as u64,
                PatternReaderTokens::U8 | PatternReaderTokens::I8 | PatternReaderTokens::Bool => 1,
                PatternReaderTokens::U16 | PatternReaderTokens::I16 => 2,
                PatternReaderTokens::U32 | PatternReaderTokens::I32 => 4,
                PatternReaderTokens::U64 | PatternReaderTokens::I64 => 8,
                PatternReaderTokens::USize => core::mem::size_of::<usize>() as u64,
                PatternReaderTokens::Expr((w, _)) => *w as u64,
            };
            bytes = bytes + w;
            i += 1;
        }
        bytes
    }

    /// Decodes the layout against `stream`, token by token from the cursor
    /// on, and gives the values of the tokens that are not padding, in the
    /// order of the layout.
    ///
    /// Decoding stops at the first token that fails: a predicate token of a
    /// width other than one, two, four or eight, before any of its bytes is
    /// read, or a token for which too few bytes are left.
    pub fn read_pattern(&self, stream: &mut ByteStream) -> (r: Result<Vec<AnyInt>, StreamError>)
        ensures
            final(stream).bytes() == old(stream).bytes(),
            final(stream).pos() == self.outcome(old(stream).bytes(), old(stream).pos()).pos,
            match self.outcome(old(stream).bytes(), old(stream).pos()).failure {
                None => r.is_ok() && r.unwrap()@ == self.outcome(
                    old(stream).bytes(),
                    old(stream).pos(),
                ).values,
                Some(DecodeFailure::InvalidPattern) => r matches Err(
                    StreamError::InvalidPattern(msg),
                ) && msg@ == "invalid parameter width"@,
                Some(DecodeFailure::EndOfStream) => r == Err::<Vec<AnyInt>, StreamError>(
                    StreamError::IOError(IoErrorKind::UnexpectedEndOfStream),
                ),
            },
            all_well_formed(self.tokens()) && old(stream).has(self.required()) ==> r.is_ok()
                && final(stream).pos() == old(stream).pos() + self.required(),
    {
        let ghost data = stream.bytes();
        let ghost start = stream.pos();
        let ghost tokens = self.pattern@;
        let e = self.endianess;
        let n = self.pattern.len();
        proof {
            if all_well_formed(tokens) && start + total_width(tokens, n as nat) <= data.len() {
                lemma_decode_consumes_total_width(tokens, n as nat, data, start, e);
            }
        }
        let mut values: Vec<AnyInt> = Vec::new();
        let mut i: usize = 0;
        while i < n
            invariant
                i <= n,
                n == tokens.len(),
                tokens == self.pattern@,
                e == self.endianess,
                data == old(stream).bytes(),
                start == old(stream).pos(),
                stream.bytes() == data,
                all_well_formed(tokens) && start + total_width(tokens, n as nat) <= data.len()
                    ==> decode_tokens(tokens, n as nat, data, start, e).failure is None
                    && decode_tokens(tokens, n as nat, data, start, e).pos == start + total_width(
                    tokens,
                    n as nat,
                ),
                decode_tokens(tokens, i as nat, data, start, e) == (DecodeState {
                    values: values@,
                    pos: stream.pos(),
                    failure: None,
                }),
            decreases n - i,
        {
            let ghost after = decode_tokens(tokens, (i + 1) as nat, data, start, e);
            proof {
                if after.failure is Some {
                    lemma_failure_is_final(tokens, (i + 1) as nat, n as nat, data, start, e);
                }
            }
            match read_token(&self.pattern[i], stream, e)? {
                Some(v) => {
                    values.push(v);
                },
                None => {},
            }
            i += 1;
        }
        Ok(values)
    }
}

impl Default for PatternReader {
    /// The empty little-endian layout, as [`PatternReader::new_le`] gives it.
    fn default() -> (p: Self)
        ensures
            p.tokens() == Seq::<PatternReaderTokens>::empty(),
            p.byte_order() == Endianness::LittleEndian,
    {
        PatternReader::new_le()
    }
}

/// The state in which the decoding of a layout begins at the offset `pos`.
pub open spec fn decode_start(pos: nat) -> DecodeState {
    DecodeState { values: Seq::empty(), pos, failure: None }
}

/// Decodes one token against `stream` at the cursor: the value of the token,
/// or `None` for padding.
#[verifier::rlimit(40)]
pub fn read_token(token: &PatternReaderTokens, stream: &mut ByteStream, e: Endianness) -> (r:
    Result<Option<AnyInt>, StreamError>)
    ensures
        final(stream).bytes() == old(stream).bytes(),
        final(stream).pos() == decode_step(
            decode_start(old(stream).pos()),
            *token,
            old(stream).bytes(),
            e,
        ).pos,
        match decode_step(decode_start(old(stream).pos()), *token, old(stream).bytes(), e).failure {
            None => r.is_ok() && r.unwrap() == token.value(old(stream).next(token.width()), e),
            Some(DecodeFailure::InvalidPattern) => r matches Err(StreamError::InvalidPattern(msg))
                && msg@ == "invalid parameter width"@,
            Some(DecodeFailure::EndOfStream) => r == Err::<Option<AnyInt>, StreamError>(
                StreamError::IOError(IoErrorKind::UnexpectedEndOfStream),
            ),
        },
{
    match token {
        PatternReaderTokens::Padding(size) => {
            stream.skip(*size)?;
            Ok(None)
        },
        PatternReaderTokens::U8 => Ok(Some(AnyInt::U8(read_u8(stream)?))),
        PatternReaderTokens::I8 => Ok(Some(AnyInt::I8(read_i8(stream)?))),
        PatternReaderTokens::U16 => Ok(Some(AnyInt::U16(read_u16(stream, e)?))),
        PatternReaderTokens::U32 => Ok(Some(AnyInt::U32(read_u32(stream, e)?))),
        PatternReaderTokens::U64 => Ok(Some(AnyInt::U64(read_u64(stream, e)?))),
        PatternReaderTokens::I16 => Ok(Some(AnyInt::I16(read_i16(stream, e)?))),
        PatternReaderTokens::I32 => Ok(Some(AnyInt::I32(read_i32(stream, e)?))),
        PatternReaderTokens::I64 => Ok(Some(AnyInt::I64(read_i64(stream, e)?))),
        PatternReaderTokens::USize => {
            if core::mem::size_of::<usize>() == 4 {
                Ok(Some(AnyInt::U32(read_u32(stream, e)?)))
            } else {
                Ok(Some(AnyInt::U64(read_u64(stream, e)?)))
            }
        },
        PatternReaderTokens::Bool => {
            let v = read_u8(stream)?;
            Ok(Some(AnyInt::Bool(v != 0)))
        },
        PatternReaderTokens::Expr((par_width, expr)) => {
            let v = read_parameter(*par_width, stream, e)?;
            Ok(Some(AnyInt::Bool(expr.eval(v))))
        },
    }
}

/// Reads the unsigned integer of `par_width` bytes that a predicate is
/// applied to. A width other than one, two, four or eight is refused before
/// any byte is read.
pub fn read_parameter(par_width: u8, stream: &mut ByteStream, e: Endianness) -> (r: Result<
    u64,
    StreamError,
>)
    ensures
        final(stream).bytes() == old(stream).bytes(),
        !(par_width == 1 || par_width == 2 || par_width == 4 || par_width == 8) ==> (r matches Err(
            StreamError::InvalidPattern(msg),
        ) && msg@ == "invalid parameter width"@) && old(stream).advanced(final(stream), 0),
        (par_width == 1 || par_width == 2 || par_width == 4 || par_width == 8) && !old(stream).has(
            par_width as nat,
        ) ==> r == short_read::<u64>() && old(stream).advanced(final(stream), 0),
        (par_width == 1 || par_width == 2 || par_width == 4 || par_width == 8) && old(stream).has(
            par_width as nat,
        ) ==> r.is_ok() && r.unwrap() as nat == decode_uint(old(stream).next(par_width as nat), e)
            && old(stream).advanced(final(stream), par_width as nat),
{
    match par_width {
        1 => {
            proof {
                if stream.has(1) {
                    lemma_single_byte_value(stream.next(1));
                }
            }
            Ok(read_u8(stream)? as u64)
        },
        2 => Ok(read_u16(stream, e)? as u64),
        4 => Ok(read_u32(stream, e)? as u64),
        8 => read_u64(stream, e),
        _ => Err(StreamError::InvalidPattern("invalid parameter width".to_string())),
    }
}

/// The bindings of `m` after the first `k` of `names` were bound, one after
/// the other, each to the value at its place in `values`. Of two equal names
/// the later one counts.
pub open spec fn bind(
    m: Map<Seq<char>, AnyInt>,
    names: Seq<Seq<char>>,
    values: Seq<AnyInt>,
    k: nat,
) -> Map<Seq<char>, AnyInt>
    decreases k,
{
    if k == 0 {
        m
    } else {
        bind(m, names, values, (k - 1) as nat).insert(names[k - 1], values[k - 1])
    }
}

/// The count of the tokens that give a value is not changed by a token added
/// behind them.
pub proof fn lemma_yield_count_push(
    tokens: Seq<PatternReaderTokens>,
    token: PatternReaderTokens,
    k: nat,
)
    requires
        k <= tokens.len(),
    ensures
        yield_count(tokens.push(token), k) == yield_count(tokens, k),
    decreases k,
{
    if k > 0 {
        lemma_yield_count_push(tokens, token, (k - 1) as nat);
    }
}

/// A layout whose tokens, padding apart, each have a name, and the values
/// that a decoding has bound to the names.
#[derive(Debug, PartialEq, Eq)]
pub struct StructReader {
    fields: PatternReader,
    field_names: Vec<String>,
    results: FieldMap,
}

impl StructReader {
    /// The layout of the struct.
    pub closed spec fn layout(&self) -> PatternReader {
        self.fields
    }

    /// The names of the fields, in the order of the layout.
    pub closed spec fn names(&self) -> Seq<Seq<char>> {
        self.field_names@.map_values(|s: String| s@)
    }

    /// The values that decoding has bound to names.
    pub closed spec fn bindings(&self) -> Map<Seq<char>, AnyInt> {
        self.results@
    }

    /// The invariant of the struct reader: there is one name for each token
    /// of the layout that gives a value.
    pub closed spec fn wf(&self) -> bool {
        &&& self.field_names@.len() == yield_count(self.fields.tokens(), self.fields.tokens().len())
        &&& self.results.wf()
    }

    /// Whether `after` is this reader with `token` added to the layout and,
    /// where `named` is given, that name added for it.
    pub open spec fn extended(
        &self,
        after: &StructReader,
        token: PatternReaderTokens,
        named: Option<Seq<char>>,
    ) -> bool {
        &&& after.wf()
        &&& after.layout().tokens() == self.layout().tokens().push(token)
        &&& after.layout().byte_order() == self.layout().byte_order()
        &&& after.names() == match named {
            Some(name) => self.names().push(name),
            None => self.names(),
        }
        &&& after.bindings() == self.bindings()
    }

    /// Whether `after` is this reader with a field `name` of the kind
    /// `token` added.
    pub open spec fn with_field(
        &self,
        after: &StructReader,
        token: PatternReaderTokens,
        name: Seq<char>,
    ) -> bool {
        self.extended(after, token, Some(name))
    }

    /// An empty struct whose integers are big-endian.
    pub fn new_be() -> (r: Self)
        ensures
            r.wf(),
            r.layout().tokens().len() == 0,
            r.layout().byte_order() == Endianness::BigEndian,
            r.names().len() == 0,
            r.bindings() == Map::<Seq<char>, AnyInt>::empty(),
    {
        Self::new(Endianness::BigEndian)
    }

    /// An empty struct whose integers are little-endian.
    pub fn new_le() -> (r: Self)
        ensures
            r.wf(),
            r.layout().tokens().len() == 0,
            r.layout().byte_order() == Endianness::LittleEndian,
            r.names().len() == 0,
            r.bindings() == Map::<Seq<char>, AnyInt>::empty(),
    {
        Self::new(Endianness::LittleEndian)
    }

    /// An empty struct whose integers have the byte order `endianness`.
    pub fn new(endianness: Endianness) -> (r: Self)
        ensures
            r.wf(),
            r.layout().tokens().len() == 0,
            r.layout().byte_order() == endianness,
            r.names().len() == 0,
            r.bindings() == Map::<Seq<char>, AnyInt>::empty(),
    {
        StructReader {
            fields: PatternReader::new(endianness),
            field_names: Vec::new(),
            results: FieldMap::new(),
        }
    }

    /// Adds `token`, which is not padding, and the name `name` for it.
    fn add_field(self, token: PatternReaderTokens, name: &str) -> (r: Self)
        requires
            self.wf(),
            token.yields(),
        ensures
            self.with_field(&r, token, name@),
    {
        let mut this = self;
        proof {
            lemma_yield_count_push(this.fields.tokens(), token, this.fields.tokens().len());
        }
        let ghost names = this.names();
        this.fields.add_token(token);
        this.field_names.push(name.to_owned());
        assert(this.names() =~= names.push(name@));
        this
    }

    /// Adds a field named `name` that holds an unsigned byte.
    pub fn add_u8_field(self, name: &str) -> (r: Self)
        requires
            self.wf(),
        ensures
            self.with_field(&r, PatternReaderTokens::U8, name@),
    {
        self.add_field(PatternReaderTokens::U8, name)
    }

    /// Adds a field named `name` that holds an unsigned 16-bit integer.
    pub fn add_u16_field(self, name: &str) -> (r: Self)
        requires
            self.wf(),
        ensures
            self.with_field(&r, PatternReaderTokens::U16, name@),
    {
        self.add_field(PatternReaderTokens::U16, name)
    }

    /// Adds a field named `name` that holds an unsigned 32-bit integer.
    pub fn add_u32_field(self, name: &str) -> (r: Self)
        requires
            self.wf(),
        ensures
            self.with_field(&r, PatternReaderTokens::U32, name@),
    {
        self.add_field(PatternReaderTokens::U32, name)
    }

    /// Adds a field named `name` that holds an unsigned 64-bit integer.
    pub fn add_u64_field(self, name: &str) -> (r: Self)
        requires
            self.wf(),
        ensures
            self.with_field(&r, PatternReaderTokens::U64, name@),
    {
        self.add_field(PatternReaderTokens::U64, name)
    }

    /// Adds a field named `name` that holds an unsigned integer as wide as a pointer.
    pub fn add_usize_field(self, name: &str) -> (r: Self)
        requires
            self.wf(),
        ensures
            self.with_field(&r, PatternReaderTokens::USize, name@),
    {
        self.add_field(PatternReaderTokens::USize, name)
    }

    /// Adds a field named `name` that holds a signed byte.
    pub fn add_i8_field(self, name: &str) -> (r: Self)
        requires
            self.wf(),
        ensures
            self.with_field(&r, PatternReaderTokens::I8, name@),
    {
        self.add_field(PatternReaderTokens::I8, name)
    }

    /// Adds a field named `name` that holds a signed 16-bit integer.
    pub fn add_i16_field(self, name: &str) -> (r: Self)
        requires
            self.wf(),
        ensures
            self.with_field(&r, PatternReaderTokens::I16, name@),
    {
        self.add_field(PatternReaderTokens::I16, name)
    }

    /// Adds a field named `name` that holds a signed 32-bit integer.
    pub fn add_i32_field(self, name: &str) -> (r: Self)
        requires
            self.wf(),
        ensures
            self.with_field(&r, PatternReaderTokens::I32, name@),
    {
        self.add_field(PatternReaderTokens::I32, name)
    }

    /// Adds a field named `name` that holds a signed 64-bit integer.
    pub fn add_i64_field(self, name: &str) -> (r: Self)
        requires
            self.wf(),
        ensures
            self.with_field(&r, PatternReaderTokens::I64, name@),
    {
        self.add_field(PatternReaderTokens::I64, name)
    }

    /// Adds a field named `name` that holds a boolean of one byte.
    pub fn add_bool_field(self, name: &str) -> (r: Self)
        requires
            self.wf(),
        ensures
            self.with_field(&r, PatternReaderTokens::Bool, name@),
    {
        self.add_field(PatternReaderTokens::Bool, name)
    }

    /// Adds `size` bytes of padding, which have no name.
    pub fn add_padding(self, size: usize) -> (r: Self)
        requires
            self.wf(),
        ensures
            self.extended(&r, PatternReaderTokens::Padding(size), None),
    {
        let mut this = self;
        proof {
            lemma_yield_count_push(
                this.fields.tokens(),
                PatternReaderTokens::Padding(size),
                this.fields.tokens().len(),
            );
        }
        this.fields.add_padding(size);
        this
    }

    /// Adds a field named `name` that holds whether `expr` holds of an
    /// unsigned integer of `par_width` bytes.
    pub fn add_expr_field(self, name: &str, par_width: u8, expr: Predicate) -> (r: Self)
        requires
            self.wf(),
        ensures
            self.with_field(&r, PatternReaderTokens::Expr((par_width, expr)), name@),
    {
        self.add_field(PatternReaderTokens::Expr((par_width, expr)), name)
    }

    /// How many bytes of input the struct needs.
    pub fn required_bytes(&self) -> (bytes: u64)
        requires
            self.layout().required() <= u64::MAX,
        ensures
            bytes == self.layout().required(),
    {
        self.fields.pattern_required_bytes()
    }

    /// Decodes the layout against `stream` and binds each name to the value
    /// at its place, in the order of the layout; a name that is bound already
    /// is bound anew. Where decoding fails nothing is bound, and the failure
    /// and the cursor are those of [`PatternReader::read_pattern`].
    pub fn read(self, stream: &mut ByteStream) -> (r: Result<Self, StreamError>)
        requires
            self.wf(),
        ensures
            final(stream).bytes() == old(stream).bytes(),
            final(stream).pos() == self.layout().outcome(
                old(stream).bytes(),
                old(stream).pos(),
            ).pos,
            match self.layout().outcome(old(stream).bytes(), old(stream).pos()).failure {
                None => r.is_ok() && r.unwrap().wf() && r.unwrap().layout() == self.layout()
                    && r.unwrap().names() == self.names() && r.unwrap().bindings() == bind(
                    self.bindings(),
                    self.names(),
                    self.layout().outcome(old(stream).bytes(), old(stream).pos()).values,
                    self.names().len(),
                ),
                Some(DecodeFailure::InvalidPattern) => r matches Err(
                    StreamError::InvalidPattern(msg),
                ) && msg@ == "invalid parameter width"@,
                Some(DecodeFailure::EndOfStream) => r == Err::<StructReader, StreamError>(
                    StreamError::IOError(IoErrorKind::UnexpectedEndOfStream),
                ),
            },
            self.layout().outcome(old(stream).bytes(), old(stream).pos()).failure is None
                ==> self.layout().outcome(old(stream).bytes(), old(stream).pos()).values.len()
                == self.names().len(),
            all_well_formed(self.layout().tokens()) && old(stream).has(self.layout().required())
                ==> r.is_ok() && final(stream).pos() == old(stream).pos()
                + self.layout().required(),
    {
        let mut this = self;
        let ghost out = this.fields.outcome(stream.bytes(), stream.pos());
        proof {
            if out.failure is None {
                lemma_decode_success(
                    this.fields.tokens(),
                    this.fields.tokens().len(),
                    stream.bytes(),
                    stream.pos(),
                    this.fields.byte_order(),
                );
            }
        }
        let values = this.fields.read_pattern(stream)?;
        let n = this.field_names.len();
        let mut i: usize = 0;
        while i < n
            invariant
                i <= n,
                n == this.field_names@.len(),
                n == values@.len(),
                values@ == out.values,
                this.fields == self.fields,
                this.field_names == self.field_names,
                this.results.wf(),
                this.results@ == bind(self.results@, self.names(), values@, i as nat),
            decreases n - i,
        {
            let name = this.field_names[i].clone();
            this.results.insert(name, values[i]);
            i += 1;
        }
        Ok(this)
    }

    /// The value bound to `name`, if one is.
    pub fn get(&self, name: &str) -> (r: Option<AnyInt>)
        requires
            self.wf(),
        ensures
            r == if self.bindings().contains_key(name@) {
                Some(self.bindings()[name@])
            } else {
                None
            },
    {
        match self.results.get(name) {
            Some(v) => Some(*v),
            None => None,
        }
    }

    /// The bindings, giving up the reader.
    pub fn into_inner(self) -> (m: FieldMap)
        requires
            self.wf(),
        ensures
            m.wf(),
            m@ == self.bindings(),
    {
        self.results
    }

    /// The layout of the struct.
    pub fn get_inner_pattern(&self) -> (p: &PatternReader)
        ensures
            *p == self.layout(),
    {
        &self.fields
    }

    /// The bindings.
    pub fn results(&self) -> (m: &FieldMap)
        requires
            self.wf(),
        ensures
            m.wf(),
            m@ == self.bindings(),
    {
        &self.results
    }

    /// The bindings as a list of entries in the order of their names, giving
    /// up the reader.
    pub fn into_vec(self) -> (entries: Vec<(String, AnyInt)>)
        requires
            self.wf(),
        ensures
            super::field_map::sorted_names(entries@),
            super::field_map::assoc(entries@) == self.bindings(),
    {
        self.results.into_vec()
    }
}

impl Default for StructReader {
    /// The empty little-endian struct, as [`StructReader::new_le`] gives it.
    fn default() -> (r: Self)
        ensures
            r.wf(),
            r.layout().tokens().len() == 0,
            r.layout().byte_order() == Endianness::LittleEndian,
            r.names().len() == 0,
            r.bindings() == Map::<Seq<char>, AnyInt>::empty(),
    {
        StructReader::new_le()
    }
}

impl core::ops::Index<&str> for StructReader {
    type Output = AnyInt;

    /// The value bound to `name`, which must be bound.
    fn index(&self, name: &str) -> (r: &AnyInt)
        ensures
            *r == self.bindings()[name@],
    {
        match self.results.get(name) {
            Some(v) => v,
            None => vstd::pervasive::unreached(),
        }
    }
}

impl vstd::std_specs::core::IndexSpecImpl<&str> for StructReader {
    open spec fn index_req(&self, index: &&str) -> bool {
        self.wf() && self.bindings().contains_key((*index)@)
    }
}

} // verus!
