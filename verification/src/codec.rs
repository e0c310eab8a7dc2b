//! The compact self-describing binary format that the game speaks.
//!
//! Fixed-width integers travel big-endian; a `bool` is one byte that
//! must be 0 or 1; an `Option` opens with a one-byte tag (0 = none,
//! 1 = some); a tagged variant opens with a one-byte tag equal to the
//! variant's index; sequences and mappings open with a `u64` length.
//!
//! Every encoding has a mathematical mirror: `enc_*` says which bytes a
//! value becomes, `dec_*` says what a byte string decodes to and how
//! many bytes that consumes.  The executable [`EncoderWriter`] and
//! [`DecoderReader`] are proved to follow those mirrors exactly, and
//! the `lemma_dec_enc_*` lemmas prove that decoding inverts encoding.

use vstd::prelude::*;

verus! {

/// Bytes that are not a valid encoding of the expected type.
#[derive(PartialEq, Eq, Clone, Copy, Debug)]
pub struct InvalidBytes {
    pub desc: &'static str,
}

/// Why a decode failed: the input ran out, or the bytes present were
/// not a valid encoding.
#[derive(PartialEq, Eq, Clone, Copy, Debug)]
pub enum DecodingError {
    EndOfInput,
    InvalidBytes(InvalidBytes),
}

impl DecodingError {
    /// A short account of the failure, for logs.
    pub fn description(&self) -> (r: &'static str)
        ensures
            self is EndOfInput ==> r@ == "input ran out while decoding"@,
            self matches DecodingError::InvalidBytes(ib) ==> r == ib.desc,
    {
        match self {
            DecodingError::EndOfInput => "input ran out while decoding",
            DecodingError::InvalidBytes(ib) => ib.desc,
        }
    }
}

pub type DecodingResult<T> = Result<T, DecodingError>;

/// True of a decode outcome that reports invalid bytes (as opposed to
/// an input that merely ran out).
pub open spec fn reports_invalid_bytes<T>(r: DecodingResult<T>) -> bool {
    r matches Err(DecodingError::InvalidBytes(_))
}

// ---------------------------------------------------------------------
// The mathematical encodings.

pub open spec fn bool_byte(v: bool) -> u8 {
    if v {
        1
    } else {
        0
    }
}

pub open spec fn enc_u8(v: u8) -> Seq<u8> {
    seq![v]
}

pub open spec fn enc_u16(v: u16) -> Seq<u8> {
    seq![(v >> 8) as u8, v as u8]
}

pub open spec fn enc_u32(v: u32) -> Seq<u8> {
    seq![(v >> 24) as u8, (v >> 16) as u8, (v >> 8) as u8, v as u8]
}

pub open spec fn enc_u64(v: u64) -> Seq<u8> {
    seq![
        (v >> 56) as u8,
        (v >> 48) as u8,
        (v >> 40) as u8,
        (v >> 32) as u8,
        (v >> 24) as u8,
        (v >> 16) as u8,
        (v >> 8) as u8,
        v as u8,
    ]
}

pub open spec fn enc_i8(v: i8) -> Seq<u8> {
    enc_u8(v as u8)
}

pub open spec fn enc_i16(v: i16) -> Seq<u8> {
    enc_u16(v as u16)
}

pub open spec fn enc_i32(v: i32) -> Seq<u8> {
    enc_u32(v as u32)
}

pub open spec fn enc_i64(v: i64) -> Seq<u8> {
    enc_u64(v as u64)
}

/// A machine-word count travels as a `u64`.
pub open spec fn enc_usize(v: usize) -> Seq<u8> {
    enc_u64(v as u64)
}

pub open spec fn enc_bool(v: bool) -> Seq<u8> {
    seq![bool_byte(v)]
}

// ---------------------------------------------------------------------
// The mathematical decodings.  Each yields the value and the count of
// bytes consumed, or nothing where the input is no valid encoding.

pub open spec fn comb16(b0: u8, b1: u8) -> u16 {
    ((b0 as u16) << 8) | (b1 as u16)
}

pub open spec fn comb32(b0: u8, b1: u8, b2: u8, b3: u8) -> u32 {
    ((b0 as u32) << 24) | ((b1 as u32) << 16) | ((b2 as u32) << 8) | (b3 as u32)
}

pub open spec fn comb64(b0: u8, b1: u8, b2: u8, b3: u8, b4: u8, b5: u8, b6: u8, b7: u8) -> u64 {
    ((b0 as u64) << 56) | ((b1 as u64) << 48) | ((b2 as u64) << 40) | ((b3 as u64) << 32)
        | ((b4 as u64) << 24) | ((b5 as u64) << 16) | ((b6 as u64) << 8) | (b7 as u64)
}

pub open spec fn dec_u8(s: Seq<u8>) -> Option<(u8, int)> {
    if s.len() >= 1 {
        Some((s[0], 1int))
    } else {
        None
    }
}

pub open spec fn dec_u16(s: Seq<u8>) -> Option<(u16, int)> {
    if s.len() >= 2 {
        Some((comb16(s[0], s[1]), 2int))
    } else {
        None
    }
}

pub open spec fn dec_u32(s: Seq<u8>) -> Option<(u32, int)> {
    if s.len() >= 4 {
        Some((comb32(s[0], s[1], s[2], s[3]), 4int))
    } else {
        None
    }
}

pub open spec fn dec_u64(s: Seq<u8>) -> Option<(u64, int)> {
    if s.len() >= 8 {
        Some((comb64(s[0], s[1], s[2], s[3], s[4], s[5], s[6], s[7]), 8int))
    } else {
        None
    }
}

pub open spec fn dec_i8(s: Seq<u8>) -> Option<(i8, int)> {
    match dec_u8(s) {
        Some((v, n)) => Some((v as i8, n)),
        None => None,
    }
}

pub open spec fn dec_i16(s: Seq<u8>) -> Option<(i16, int)> {
    match dec_u16(s) {
        Some((v, n)) => Some((v as i16, n)),
        None => None,
    }
}

pub open spec fn dec_i32(s: Seq<u8>) -> Option<(i32, int)> {
    match dec_u32(s) {
        Some((v, n)) => Some((v as i32, n)),
        None => None,
    }
}

pub open spec fn dec_i64(s: Seq<u8>) -> Option<(i64, int)> {
    match dec_u64(s) {
        Some((v, n)) => Some((v as i64, n)),
        None => None,
    }
}

/// A `u64` on the wire is a valid count only when it fits the machine word.
pub open spec fn dec_usize(s: Seq<u8>) -> Option<(usize, int)> {
    match dec_u64(s) {
        Some((v, n)) => if v <= usize::MAX as u64 {
            Some((v as usize, n))
        } else {
            None
        },
        None => None,
    }
}

/// An option opens with a one-byte tag: 0 for none, 1 for some, and
/// nothing else.
pub open spec fn enc_option_tag(some: bool) -> Seq<u8> {
    seq![bool_byte(some)]
}

pub open spec fn dec_option_tag(s: Seq<u8>) -> Option<(bool, int)> {
    if s.len() >= 1 {
        if s[0] == 0 {
            Some((false, 1int))
        } else if s[0] == 1 {
            Some((true, 1int))
        } else {
            None
        }
    } else {
        None
    }
}

pub open spec fn dec_bool(s: Seq<u8>) -> Option<(bool, int)> {
    if s.len() >= 1 {
        if s[0] == 0 {
            Some((false, 1int))
        } else if s[0] == 1 {
            Some((true, 1int))
        } else {
            None
        }
    } else {
        None
    }
}

// ---------------------------------------------------------------------
// The writer.

/// Serializes values by appending their encodings to a byte buffer.
/// The view of a writer is the bytes written so far.
pub struct EncoderWriter {
    buf: Vec<u8>,
}

impl View for EncoderWriter {
    type V = Seq<u8>;

    closed spec fn view(&self) -> Seq<u8> {
        self.buf@
    }
}

impl EncoderWriter {
    /// A writer holding no bytes yet.
    pub fn new() -> (w: EncoderWriter)
        ensures
            w@ == Seq::<u8>::empty(),
    {
        EncoderWriter { buf: Vec::new() }
    }

    /// Hand the written bytes out.
    pub fn into_bytes(self) -> (r: Vec<u8>)
        ensures
            r@ == self@,
    {
        self.buf
    }

    /// How many bytes stand written.
    pub fn len(&self) -> (r: usize)
        ensures
            r == self@.len(),
    {
        self.buf.len()
    }

    pub fn emit_u8(&mut self, v: u8)
        ensures
            final(self)@ == old(self)@ + enc_u8(v),
    {
        self.buf.push(v);
        assert(self.buf@ =~= old(self)@ + enc_u8(v));
    }

    pub fn emit_u16(&mut self, v: u16)
        ensures
            final(self)@ == old(self)@ + enc_u16(v),
    {
        self.buf.push((v >> 8) as u8);
        self.buf.push(v as u8);
        assert(self.buf@ =~= old(self)@ + enc_u16(v));
    }

    pub fn emit_u32(&mut self, v: u32)
        ensures
            final(self)@ == old(self)@ + enc_u32(v),
    {
        self.buf.push((v >> 24) as u8);
        self.buf.push((v >> 16) as u8);
        self.buf.push((v >> 8) as u8);
        self.buf.push(v as u8);
        assert(self.buf@ =~= old(self)@ + enc_u32(v));
    }

    pub fn emit_u64(&mut self, v: u64)
        ensures
            final(self)@ == old(self)@ + enc_u64(v),
    {
        self.buf.push((v >> 56) as u8);
        self.buf.push((v >> 48) as u8);
        self.buf.push((v >> 40) as u8);
        self.buf.push((v >> 32) as u8);
        self.buf.push((v >> 24) as u8);
        self.buf.push((v >> 16) as u8);
        self.buf.push((v >> 8) as u8);
        self.buf.push(v as u8);
        assert(self.buf@ =~= old(self)@ + enc_u64(v));
    }

    pub fn emit_i8(&mut self, v: i8)
        ensures
            final(self)@ == old(self)@ + enc_i8(v),
    {
        self.emit_u8(v as u8);
    }

    pub fn emit_i16(&mut self, v: i16)
        ensures
            final(self)@ == old(self)@ + enc_i16(v),
    {
        self.emit_u16(v as u16);
    }

    pub fn emit_i32(&mut self, v: i32)
        ensures
            final(self)@ == old(self)@ + enc_i32(v),
    {
        self.emit_u32(v as u32);
    }

    pub fn emit_i64(&mut self, v: i64)
        ensures
            final(self)@ == old(self)@ + enc_i64(v),
    {
        self.emit_u64(v as u64);
    }

    pub fn emit_usize(&mut self, v: usize)
        ensures
            final(self)@ == old(self)@ + enc_usize(v),
    {
        self.emit_u64(v as u64);
    }

    pub fn emit_bool(&mut self, v: bool)
        ensures
            final(self)@ == old(self)@ + enc_bool(v),
    {
        self.emit_u8(if v { 1 } else { 0 });
    }

    /// Open an option: say whether a payload follows.
    pub fn emit_option_tag(&mut self, some: bool)
        ensures
            final(self)@ == old(self)@ + enc_option_tag(some),
    {
        self.emit_u8(if some { 1 } else { 0 });
    }
}

// ---------------------------------------------------------------------
// The reader.

/// Deserializes values from a byte buffer, front to back.  The view of
/// a reader is the bytes it has not consumed yet.
pub struct DecoderReader {
    buf: Vec<u8>,
    pos: usize,
}

impl View for DecoderReader {
    type V = Seq<u8>;

    closed spec fn view(&self) -> Seq<u8> {
        self.buf@.skip(self.pos as int)
    }
}

impl DecoderReader {
    #[verifier::type_invariant]
    spec fn inv(self) -> bool {
        self.pos <= self.buf@.len()
    }

    /// A reader over the given bytes, nothing consumed yet.
    pub fn new(buf: Vec<u8>) -> (r: DecoderReader)
        ensures
            r@ == buf@,
    {
        let r = DecoderReader { buf, pos: 0 };
        assert(r@ =~= r.buf@);
        r
    }

    /// Hand the unconsumed bytes out, giving the reader up.
    pub fn into_rest(self) -> (r: Vec<u8>)
        ensures
            r@ == self@,
    {
        proof {
            use_type_invariant(&self);
        }
        let DecoderReader { mut buf, pos } = self;
        buf.split_off(pos)
    }

    /// How many bytes are left.
    pub fn remaining(&self) -> (r: usize)
        ensures
            r == self@.len(),
    {
        proof {
            use_type_invariant(self);
        }
        self.buf.len() - self.pos
    }

    pub fn read_u8(&mut self) -> (r: DecodingResult<u8>)
        ensures
            match dec_u8(old(self)@) {
                Some(d) => r == DecodingResult::<u8>::Ok(d.0) && final(self)@ == old(self)@.skip(d.1),
                None => r == DecodingResult::<u8>::Err(DecodingError::EndOfInput) && final(self)@
                    == old(self)@,
            },
    {
        proof {
            use_type_invariant(&*self);
        }
        if self.buf.len() - self.pos >= 1 {
            let v = self.buf[self.pos];
            self.pos = self.pos + 1;
            assert(self@ =~= old(self)@.skip(1));
            Ok(v)
        } else {
            Err(DecodingError::EndOfInput)
        }
    }

    pub fn read_u16(&mut self) -> (r: DecodingResult<u16>)
        ensures
            match dec_u16(old(self)@) {
                Some(d) => r == DecodingResult::<u16>::Ok(d.0) && final(self)@ == old(
                    self,
                )@.skip(d.1),
                None => r == DecodingResult::<u16>::Err(DecodingError::EndOfInput) && final(self)@
                    == old(self)@,
            },
    {
        proof {
            use_type_invariant(&*self);
        }
        if self.buf.len() - self.pos >= 2 {
            let b0 = self.buf[self.pos];
            let b1 = self.buf[self.pos + 1];
            let v = ((b0 as u16) << 8) | (b1 as u16);
            self.pos = self.pos + 2;
            assert(self@ =~= old(self)@.skip(2));
            Ok(v)
        } else {
            Err(DecodingError::EndOfInput)
        }
    }

    pub fn read_u32(&mut self) -> (r: DecodingResult<u32>)
        ensures
            match dec_u32(old(self)@) {
                Some(d) => r == DecodingResult::<u32>::Ok(d.0) && final(self)@ == old(
                    self,
                )@.skip(d.1),
                None => r == DecodingResult::<u32>::Err(DecodingError::EndOfInput) && final(self)@
                    == old(self)@,
            },
    {
        proof {
            use_type_invariant(&*self);
        }
        if self.buf.len() - self.pos >= 4 {
            let b0 = self.buf[self.pos];
            let b1 = self.buf[self.pos + 1];
            let b2 = self.buf[self.pos + 2];
            let b3 = self.buf[self.pos + 3];
            let v = ((b0 as u32) << 24) | ((b1 as u32) << 16) | ((b2 as u32) << 8) | (b3 as u32);
            self.pos = self.pos + 4;
            assert(self@ =~= old(self)@.skip(4));
            Ok(v)
        } else {
            Err(DecodingError::EndOfInput)
        }
    }

    pub fn read_u64(&mut self) -> (r: DecodingResult<u64>)
        ensures
            match dec_u64(old(self)@) {
                Some(d) => r == DecodingResult::<u64>::Ok(d.0) && final(self)@ == old(
                    self,
                )@.skip(d.1),
                None => r == DecodingResult::<u64>::Err(DecodingError::EndOfInput) && final(self)@
                    == old(self)@,
            },
    {
        proof {
            use_type_invariant(&*self);
        }
        if self.buf.len() - self.pos >= 8 {
            let b0 = self.buf[self.pos];
            let b1 = self.buf[self.pos + 1];
            let b2 = self.buf[self.pos + 2];
            let b3 = self.buf[self.pos + 3];
            let b4 = self.buf[self.pos + 4];
            let b5 = self.buf[self.pos + 5];
            let b6 = self.buf[self.pos + 6];
            let b7 = self.buf[self.pos + 7];
            let v = ((b0 as u64) << 56) | ((b1 as u64) << 48) | ((b2 as u64) << 40) | ((b3
                as u64) << 32) | ((b4 as u64) << 24) | ((b5 as u64) << 16) | ((b6 as u64) << 8) | (
            b7 as u64);
            self.pos = self.pos + 8;
            assert(self@ =~= old(self)@.skip(8));
            Ok(v)
        } else {
            Err(DecodingError::EndOfInput)
        }
    }

    pub fn read_i8(&mut self) -> (r: DecodingResult<i8>)
        ensures
            match dec_i8(old(self)@) {
                Some(d) => r == DecodingResult::<i8>::Ok(d.0) && final(self)@ == old(
                    self,
                )@.skip(d.1),
                None => r == DecodingResult::<i8>::Err(DecodingError::EndOfInput) && final(self)@
                    == old(self)@,
            },
    {
        match self.read_u8() {
            Ok(v) => Ok(v as i8),
            Err(e) => Err(e),
        }
    }

    pub fn read_i16(&mut self) -> (r: DecodingResult<i16>)
        ensures
            match dec_i16(old(self)@) {
                Some(d) => r == DecodingResult::<i16>::Ok(d.0) && final(self)@ == old(
                    self,
                )@.skip(d.1),
                None => r == DecodingResult::<i16>::Err(DecodingError::EndOfInput) && final(self)@
                    == old(self)@,
            },
    {
        match self.read_u16() {
            Ok(v) => Ok(v as i16),
            Err(e) => Err(e),
        }
    }

    pub fn read_i32(&mut self) -> (r: DecodingResult<i32>)
        ensures
            match dec_i32(old(self)@) {
                Some(d) => r == DecodingResult::<i32>::Ok(d.0) && final(self)@ == old(
                    self,
                )@.skip(d.1),
                None => r == DecodingResult::<i32>::Err(DecodingError::EndOfInput) && final(self)@
                    == old(self)@,
            },
    {
        match self.read_u32() {
            Ok(v) => Ok(v as i32),
            Err(e) => Err(e),
        }
    }

    pub fn read_i64(&mut self) -> (r: DecodingResult<i64>)
        ensures
            match dec_i64(old(self)@) {
                Some(d) => r == DecodingResult::<i64>::Ok(d.0) && final(self)@ == old(
                    self,
                )@.skip(d.1),
                None => r == DecodingResult::<i64>::Err(DecodingError::EndOfInput) && final(self)@
                    == old(self)@,
            },
    {
        match self.read_u64() {
            Ok(v) => Ok(v as i64),
            Err(e) => Err(e),
        }
    }

    pub fn read_usize(&mut self) -> (r: DecodingResult<usize>)
        ensures
            match dec_usize(old(self)@) {
                Some(d) => r == DecodingResult::<usize>::Ok(d.0) && final(self)@ == old(
                    self,
                )@.skip(d.1),
                None => r.is_err() && final(self)@ == old(self)@,
            },
            old(self)@.len() < 8 ==> r == DecodingResult::<usize>::Err(DecodingError::EndOfInput),
            (match dec_u64(old(self)@) {
                Some(d) => d.0 > usize::MAX as u64,
                None => false,
            }) ==> reports_invalid_bytes(r),
    {
        proof {
            use_type_invariant(&*self);
        }
        if self.buf.len() - self.pos >= 8 {
            let b0 = self.buf[self.pos];
            let b1 = self.buf[self.pos + 1];
            let b2 = self.buf[self.pos + 2];
            let b3 = self.buf[self.pos + 3];
            let b4 = self.buf[self.pos + 4];
            let b5 = self.buf[self.pos + 5];
            let b6 = self.buf[self.pos + 6];
            let b7 = self.buf[self.pos + 7];
            let v = ((b0 as u64) << 56) | ((b1 as u64) << 48) | ((b2 as u64) << 40) | ((b3
                as u64) << 32) | ((b4 as u64) << 24) | ((b5 as u64) << 16) | ((b6 as u64) << 8) | (
            b7 as u64);
            if v <= usize::MAX as u64 {
                self.pos = self.pos + 8;
                assert(self@ =~= old(self)@.skip(8));
                Ok(v as usize)
            } else {
                // A count too large for this machine: treat the bytes as
                // invalid rather than silently truncating.
                Err(
                    DecodingError::InvalidBytes(
                        InvalidBytes { desc: "length prefix exceeds the machine word" },
                    ),
                )
            }
        } else {
            Err(DecodingError::EndOfInput)
        }
    }

    /// Read the tag that opens an option: whether a payload follows.
    pub fn read_option_tag(&mut self) -> (r: DecodingResult<bool>)
        ensures
            match dec_option_tag(old(self)@) {
                Some(d) => r == DecodingResult::<bool>::Ok(d.0) && final(self)@ == old(
                    self,
                )@.skip(d.1),
                None => r.is_err() && final(self)@ == old(self)@,
            },
            old(self)@.len() == 0 ==> r == DecodingResult::<bool>::Err(DecodingError::EndOfInput),
            old(self)@.len() >= 1 && old(self)@[0] > 1 ==> reports_invalid_bytes(r),
    {
        proof {
            use_type_invariant(&*self);
        }
        if self.buf.len() - self.pos >= 1 {
            let b = self.buf[self.pos];
            if b == 0 {
                self.pos = self.pos + 1;
                assert(self@ =~= old(self)@.skip(1));
                Ok(false)
            } else if b == 1 {
                self.pos = self.pos + 1;
                assert(self@ =~= old(self)@.skip(1));
                Ok(true)
            } else {
                Err(
                    DecodingError::InvalidBytes(
                        InvalidBytes { desc: "invalid tag when decoding option" },
                    ),
                )
            }
        } else {
            Err(DecodingError::EndOfInput)
        }
    }

    pub fn read_bool(&mut self) -> (r: DecodingResult<bool>)
        ensures
            match dec_bool(old(self)@) {
                Some(d) => r == DecodingResult::<bool>::Ok(d.0) && final(self)@ == old(
                    self,
                )@.skip(d.1),
                None => r.is_err() && final(self)@ == old(self)@,
            },
            old(self)@.len() == 0 ==> r == DecodingResult::<bool>::Err(DecodingError::EndOfInput),
            old(self)@.len() >= 1 && old(self)@[0] > 1 ==> reports_invalid_bytes(r),
    {
        proof {
            use_type_invariant(&*self);
        }
        if self.buf.len() - self.pos >= 1 {
            let b = self.buf[self.pos];
            if b == 0 {
                self.pos = self.pos + 1;
                assert(self@ =~= old(self)@.skip(1));
                Ok(false)
            } else if b == 1 {
                self.pos = self.pos + 1;
                assert(self@ =~= old(self)@.skip(1));
                Ok(true)
            } else {
                Err(DecodingError::InvalidBytes(InvalidBytes { desc: "invalid byte when decoding bool" }))
            }
        } else {
            Err(DecodingError::EndOfInput)
        }
    }
}

// ---------------------------------------------------------------------
// Decoding inverts encoding.

/// What a concatenation leaves after its first part is consumed.
pub proof fn lemma_concat_skip<A>(a: Seq<A>, b: Seq<A>)
    ensures
        (a + b).skip(a.len() as int) == b,
{
    assert((a + b).skip(a.len() as int) =~= b);
}

/// Consuming twice is consuming once, further along.
pub proof fn lemma_skip_skip<A>(s: Seq<A>, a: int, b: int)
    requires
        0 <= a,
        0 <= b,
        a + b <= s.len(),
    ensures
        s.skip(a).skip(b) == s.skip(a + b),
{
    assert(s.skip(a).skip(b) =~= s.skip(a + b));
}

pub proof fn lemma_dec_enc_u8(v: u8, rest: Seq<u8>)
    ensures
        dec_u8(enc_u8(v) + rest) == Some((v, 1int)),
{
}

pub proof fn lemma_dec_enc_u16(v: u16, rest: Seq<u8>)
    ensures
        dec_u16(enc_u16(v) + rest) == Some((v, 2int)),
{
    assert(comb16((v >> 8) as u8, v as u8) == v) by (bit_vector);
}

pub proof fn lemma_dec_enc_u32(v: u32, rest: Seq<u8>)
    ensures
        dec_u32(enc_u32(v) + rest) == Some((v, 4int)),
{
    assert(comb32((v >> 24) as u8, (v >> 16) as u8, (v >> 8) as u8, v as u8) == v)
        by (bit_vector);
}

pub proof fn lemma_dec_enc_u64(v: u64, rest: Seq<u8>)
    ensures
        dec_u64(enc_u64(v) + rest) == Some((v, 8int)),
{
    assert(comb64(
        (v >> 56) as u8,
        (v >> 48) as u8,
        (v >> 40) as u8,
        (v >> 32) as u8,
        (v >> 24) as u8,
        (v >> 16) as u8,
        (v >> 8) as u8,
        v as u8,
    ) == v) by (bit_vector);
}

pub proof fn lemma_dec_enc_i8(v: i8, rest: Seq<u8>)
    ensures
        dec_i8(enc_i8(v) + rest) == Some((v, 1int)),
{
    lemma_dec_enc_u8(v as u8, rest);
    assert((v as u8) as i8 == v) by (bit_vector);
}

pub proof fn lemma_dec_enc_i16(v: i16, rest: Seq<u8>)
    ensures
        dec_i16(enc_i16(v) + rest) == Some((v, 2int)),
{
    lemma_dec_enc_u16(v as u16, rest);
    assert((v as u16) as i16 == v) by (bit_vector);
}

pub proof fn lemma_dec_enc_i32(v: i32, rest: Seq<u8>)
    ensures
        dec_i32(enc_i32(v) + rest) == Some((v, 4int)),
{
    lemma_dec_enc_u32(v as u32, rest);
    assert((v as u32) as i32 == v) by (bit_vector);
}

pub proof fn lemma_dec_enc_i64(v: i64, rest: Seq<u8>)
    ensures
        dec_i64(enc_i64(v) + rest) == Some((v, 8int)),
{
    lemma_dec_enc_u64(v as u64, rest);
    assert((v as u64) as i64 == v) by (bit_vector);
}

pub proof fn lemma_dec_enc_usize(v: usize, rest: Seq<u8>)
    ensures
        dec_usize(enc_usize(v) + rest) == Some((v, 8int)),
{
    lemma_dec_enc_u64(v as u64, rest);
}

pub proof fn lemma_dec_enc_bool(v: bool, rest: Seq<u8>)
    ensures
        dec_bool(enc_bool(v) + rest) == Some((v, 1int)),
{
}

pub proof fn lemma_dec_enc_option_tag(some: bool, rest: Seq<u8>)
    ensures
        dec_option_tag(enc_option_tag(some) + rest) == Some((some, 1int)),
{
}

} // verus!
