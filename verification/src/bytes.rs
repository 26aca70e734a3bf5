//! Little-endian byte-level reading and writing, including the
//! variable-length unsigned integer ("varuint") encoding used by the wire
//! framing: seven value bits per byte, least significant group first, high
//! bit set on every byte but the last.

use vstd::prelude::*;

verus! {

use vstd::bytes::{
    spec_u16_from_le_bytes,
    spec_u16_to_le_bytes,
    spec_u32_from_le_bytes,
    spec_u32_to_le_bytes,
    spec_u64_from_le_bytes,
    spec_u64_to_le_bytes,
    u16_from_le_bytes,
    u32_from_le_bytes,
    u64_from_le_bytes,
    u16_to_le_bytes,
    u32_to_le_bytes,
    u64_to_le_bytes,
};
use vstd::slice::{slice_index_get, slice_subrange};
use vstd::string::StringSliceAdditionalSpecFns;

/// Why a read from a byte cursor failed.
#[derive(Clone, Copy, PartialEq, Eq, Structural, Debug)]
pub enum ByteReadError {
    /// The input ended before the value was complete.
    OutOfBounds,
    /// A length-prefixed string held bytes that are not valid UTF-8.
    InvalidUtf8,
    /// A varuint kept its continuation bit set past the largest value
    /// a 64-bit integer can hold.
    VaruintOverflow,
}

/// The bytes of `n` in varuint form: seven bits at a time, least
/// significant first, the high bit marking a continuation.
pub open spec fn spec_varuint_bytes(n: nat) -> Seq<u8>
    decreases n,
{
    if n < 0x80 {
        seq![n as u8]
    } else {
        seq![(0x80 + (n % 0x80)) as u8] + spec_varuint_bytes(n / 0x80)
    }
}

/// Parses a varuint from the front of `s`: the value and the number of
/// bytes consumed, or `None` when `s` ends before a byte without the
/// continuation bit.
pub open spec fn spec_parse_varuint(s: Seq<u8>) -> Option<(nat, int)>
    decreases s.len(),
{
    if s.len() == 0 {
        None
    } else if s[0] < 0x80 {
        Some((s[0] as nat, 1))
    } else {
        match spec_parse_varuint(s.drop_first()) {
            Some((v, c)) => Some((((s[0] - 0x80) as nat + 0x80 * v) as nat, c + 1)),
            None => None,
        }
    }
}

/// Parsing inverts encoding: a varuint written at the front of any input
/// is read back as the same value, consuming exactly its own bytes.
pub proof fn lemma_varuint_round_trip(n: nat, rest: Seq<u8>)
    ensures
        spec_parse_varuint(spec_varuint_bytes(n) + rest) == Some(
            (n, spec_varuint_bytes(n).len() as int),
        ),
        spec_varuint_bytes(n).len() >= 1,
    decreases n,
{
    let s = spec_varuint_bytes(n) + rest;
    if n < 0x80 {
        assert(s[0] == n as u8);
    } else {
        lemma_varuint_round_trip(n / 0x80, rest);
        assert(s[0] == (0x80 + (n % 0x80)) as u8);
        assert(s.drop_first() =~= spec_varuint_bytes(n / 0x80) + rest);
        assert((s[0] - 0x80) as nat + 0x80 * (n / 0x80) == n) by {
            assert(n == 0x80 * (n / 0x80) + n % 0x80) by (nonlinear_arith)
                requires n >= 0x80;
        }
    }
}

/// A cursor over borrowed bytes, advancing as values are read.
pub struct ByteReader<'a> {
    data: &'a [u8],
    pos: usize,
}

impl<'a> ByteReader<'a> {
    /// The whole underlying input.
    pub closed spec fn spec_data(&self) -> Seq<u8> {
        self.data@
    }

    /// How many bytes have been consumed so far.
    pub closed spec fn spec_pos(&self) -> int {
        self.pos as int
    }

    /// The cursor never runs past the end of its input.
    pub open spec fn wf(&self) -> bool {
        0 <= self.spec_pos() <= self.spec_data().len()
    }

    /// The bytes not yet consumed.
    pub open spec fn remaining(&self) -> Seq<u8> {
        self.spec_data().skip(self.spec_pos())
    }

    /// What well-formedness gives: the position lies within the input,
    /// and position plus remaining length is the whole input's length.
    pub proof fn lemma_wf(&self)
        requires
            self.wf(),
        ensures
            0 <= self.spec_pos() <= self.spec_data().len(),
            self.remaining().len() == self.spec_data().len() - self.spec_pos(),
    {
    }

    pub fn new(data: &'a [u8]) -> (r: ByteReader<'a>)
        ensures
            r.wf(),
            r.spec_data() == data@,
            r.spec_pos() == 0,
    {
        ByteReader { data, pos: 0 }
    }

    /// How many bytes are left to read.
    pub fn remaining_len(&self) -> (n: usize)
        requires
            self.wf(),
        ensures
            n == self.remaining().len(),
    {
        self.data.len() - self.pos
    }

    /// The bytes not yet consumed, as a slice.
    pub fn remaining_bytes(&self) -> (r: &'a [u8])
        requires
            self.wf(),
        ensures
            r@ == self.remaining(),
    {
        slice_subrange(self.data, self.pos, self.data.len())
    }

    /// The number of bytes consumed so far.
    pub fn position(&self) -> (n: usize)
        ensures
            n == self.spec_pos(),
    {
        self.pos
    }

    pub fn read_u8(&mut self) -> (r: Result<u8, ByteReadError>)
        requires
            old(self).wf(),
        ensures
            final(self).wf(),
            final(self).spec_data() == old(self).spec_data(),
            r is Ok <==> old(self).remaining().len() >= 1,
            r matches Ok(b) ==> b == old(self).remaining()[0] && final(self).spec_pos() == old(
                self,
            ).spec_pos() + 1,
            r is Err ==> *final(self) == *old(self) && r == Err::<u8, ByteReadError>(
                ByteReadError::OutOfBounds,
            ),
    {
        if self.pos < self.data.len() {
            let b = *slice_index_get(self.data, self.pos);
            self.pos = self.pos + 1;
            Ok(b)
        } else {
            Err(ByteReadError::OutOfBounds)
        }
    }

    /// Reads exactly `n` bytes, advancing past them.
    pub fn read_bytes(&mut self, n: usize) -> (r: Result<&'a [u8], ByteReadError>)
        requires
            old(self).wf(),
        ensures
            final(self).wf(),
            final(self).spec_data() == old(self).spec_data(),
            r is Ok <==> old(self).remaining().len() >= n,
            r matches Ok(s) ==> s@ == old(self).remaining().take(n as int) && final(self).spec_pos()
                == old(self).spec_pos() + n,
            r is Err ==> *final(self) == *old(self) && r == Err::<&[u8], ByteReadError>(
                ByteReadError::OutOfBounds,
            ),
    {
        if n <= self.data.len() - self.pos {
            let s = slice_subrange(self.data, self.pos, self.pos + n);
            self.pos = self.pos + n;
            assert(s@ =~= old(self).remaining().take(n as int));
            Ok(s)
        } else {
            Err(ByteReadError::OutOfBounds)
        }
    }

    pub fn read_u16(&mut self) -> (r: Result<u16, ByteReadError>)
        requires
            old(self).wf(),
        ensures
            final(self).wf(),
            final(self).spec_data() == old(self).spec_data(),
            r is Ok <==> old(self).remaining().len() >= 2,
            r matches Ok(v) ==> v == spec_u16_from_le_bytes(old(self).remaining().take(2))
                && final(self).spec_pos() == old(self).spec_pos() + 2,
            r is Err ==> *final(self) == *old(self) && r == Err::<u16, ByteReadError>(
                ByteReadError::OutOfBounds,
            ),
    {
        match self.read_bytes(2) {
            Ok(s) => Ok(u16_from_le_bytes(s)),
            Err(e) => Err(e),
        }
    }

    pub fn read_u32(&mut self) -> (r: Result<u32, ByteReadError>)
        requires
            old(self).wf(),
        ensures
            final(self).wf(),
            final(self).spec_data() == old(self).spec_data(),
            r is Ok <==> old(self).remaining().len() >= 4,
            r matches Ok(v) ==> v == spec_u32_from_le_bytes(old(self).remaining().take(4))
                && final(self).spec_pos() == old(self).spec_pos() + 4,
            r is Err ==> *final(self) == *old(self) && r == Err::<u32, ByteReadError>(
                ByteReadError::OutOfBounds,
            ),
    {
        match self.read_bytes(4) {
            Ok(s) => Ok(u32_from_le_bytes(s)),
            Err(e) => Err(e),
        }
    }

    pub fn read_u64(&mut self) -> (r: Result<u64, ByteReadError>)
        requires
            old(self).wf(),
        ensures
            final(self).wf(),
            final(self).spec_data() == old(self).spec_data(),
            r is Ok <==> old(self).remaining().len() >= 8,
            r matches Ok(v) ==> v == spec_u64_from_le_bytes(old(self).remaining().take(8))
                && final(self).spec_pos() == old(self).spec_pos() + 8,
            r is Err ==> *final(self) == *old(self) && r == Err::<u64, ByteReadError>(
                ByteReadError::OutOfBounds,
            ),
    {
        match self.read_bytes(8) {
            Ok(s) => Ok(u64_from_le_bytes(s)),
            Err(e) => Err(e),
        }
    }

    pub fn read_i32(&mut self) -> (r: Result<i32, ByteReadError>)
        requires
            old(self).wf(),
        ensures
            final(self).wf(),
            final(self).spec_data() == old(self).spec_data(),
            r is Ok <==> old(self).remaining().len() >= 4,
            r matches Ok(v) ==> v == spec_u32_from_le_bytes(old(self).remaining().take(4)) as i32
                && final(self).spec_pos() == old(self).spec_pos() + 4,
            r is Err ==> *final(self) == *old(self) && r == Err::<i32, ByteReadError>(
                ByteReadError::OutOfBounds,
            ),
    {
        match self.read_u32() {
            Ok(v) => Ok(v as i32),
            Err(e) => Err(e),
        }
    }

    pub fn read_i64(&mut self) -> (r: Result<i64, ByteReadError>)
        requires
            old(self).wf(),
        ensures
            final(self).wf(),
            final(self).spec_data() == old(self).spec_data(),
            r is Ok <==> old(self).remaining().len() >= 8,
            r matches Ok(v) ==> v == spec_u64_from_le_bytes(old(self).remaining().take(8)) as i64
                && final(self).spec_pos() == old(self).spec_pos() + 8,
            r is Err ==> *final(self) == *old(self) && r == Err::<i64, ByteReadError>(
                ByteReadError::OutOfBounds,
            ),
    {
        match self.read_u64() {
            Ok(v) => Ok(v as i64),
            Err(e) => Err(e),
        }
    }

    /// Reads a varuint from the cursor.
    pub fn read_varuint(&mut self) -> (r: Result<u64, ByteReadError>)
        requires
            old(self).wf(),
        ensures
            final(self).wf(),
            final(self).spec_data() == old(self).spec_data(),
            r matches Ok(v) ==> spec_parse_varuint(old(self).remaining()) == Some(
                (v as nat, final(self).spec_pos() - old(self).spec_pos()),
            ),
            r == Err::<u64, ByteReadError>(ByteReadError::OutOfBounds) <==> spec_parse_varuint(
                old(self).remaining(),
            ) is None,
            r == Err::<u64, ByteReadError>(ByteReadError::VaruintOverflow) <==> (
            spec_parse_varuint(old(self).remaining()) matches Some((v, c)) && v > u64::MAX),
            r is Err ==> final(self).spec_pos() == old(self).spec_pos(),
            r is Err ==> r == Err::<u64, ByteReadError>(ByteReadError::OutOfBounds) || r
                == Err::<u64, ByteReadError>(ByteReadError::VaruintOverflow),
        decreases old(self).remaining().len(),
    {
        let ghost pre = *self;
        let start = self.pos;
        let first = match self.read_u8() {
            Ok(b) => b,
            Err(e) => {
                return Err(e);
            },
        };
        if first < 0x80 {
            return Ok(first as u64);
        }
        proof {
            assert(pre.remaining().drop_first() =~= self.remaining());
        }
        let low: u64 = (first - 0x80) as u64;
        let ghost mid = *self;
        let rest = match self.read_varuint() {
            Ok(v) => v,
            Err(e) => {
                proof {
                    assert(pre.remaining().drop_first() == mid.remaining());
                    if e == ByteReadError::VaruintOverflow {
                        let (vi, ci) = spec_parse_varuint(mid.remaining()).unwrap();
                        assert(0x80 * vi >= vi) by (nonlinear_arith)
                            requires vi >= 0;
                    }
                }
                self.pos = start;
                return Err(e);
            },
        };
        if rest > (u64::MAX - low) / 0x80 {
            self.pos = start;
            return Err(ByteReadError::VaruintOverflow);
        }
        assert(low + 0x80 * (rest as nat) <= u64::MAX) by {
            assert(rest <= (u64::MAX - low) / 0x80 ==> 0x80 * rest <= u64::MAX - low)
                by (nonlinear_arith);
        }
        Ok(low + rest * 0x80)
    }

    /// Reads a string prefixed by its byte length in one byte.
    pub fn read_string_u8(&mut self) -> (r: Result<String, ByteReadError>)
        requires
            old(self).wf(),
        ensures
            final(self).wf(),
            final(self).spec_data() == old(self).spec_data(),
            ({
                let rem = old(self).remaining();
                &&& (r is Ok <==> rem.len() >= 1 && rem.len() >= 1 + rem[0]
                    && vstd::utf8::valid_utf8(rem.subrange(1, 1 + rem[0] as int)))
                &&& (r matches Ok(s) ==> s@ == vstd::utf8::decode_utf8(
                    rem.subrange(1, 1 + rem[0] as int),
                ) && final(self).spec_pos() == old(self).spec_pos() + 1 + rem[0])
                &&& (r == Err::<String, ByteReadError>(ByteReadError::OutOfBounds) <==> (
                rem.len() == 0 || rem.len() < 1 + rem[0]))
                &&& (r is Err ==> final(self).spec_pos() == old(self).spec_pos())
                &&& (r is Err ==> r == Err::<String, ByteReadError>(ByteReadError::OutOfBounds)
                    || r == Err::<String, ByteReadError>(ByteReadError::InvalidUtf8))
            }),
    {
        let ghost pre = *self;
        let start = self.pos;
        let len = match self.read_u8() {
            Ok(b) => b,
            Err(e) => {
                return Err(e);
            },
        };
        let bytes = match self.read_bytes(len as usize) {
            Ok(s) => s,
            Err(e) => {
                self.pos = start;
                return Err(e);
            },
        };
        proof {
            assert(bytes@ =~= pre.remaining().subrange(1, 1 + pre.remaining()[0] as int));
        }
        match string_from_utf8(vstd::slice::slice_to_vec(bytes)) {
            Ok(s) => Ok(s),
            Err(_) => {
                self.pos = start;
                Err(ByteReadError::InvalidUtf8)
            },
        }
    }

    /// Reads a string prefixed by its byte length in two little-endian bytes.
    pub fn read_string_u16(&mut self) -> (r: Result<String, ByteReadError>)
        requires
            old(self).wf(),
        ensures
            final(self).wf(),
            final(self).spec_data() == old(self).spec_data(),
            ({
                let rem = old(self).remaining();
                let l = spec_u16_from_le_bytes(rem.take(2)) as int;
                &&& (r is Ok <==> rem.len() >= 2 && rem.len() >= 2 + l
                    && vstd::utf8::valid_utf8(rem.subrange(2, 2 + l)))
                &&& (r matches Ok(s) ==> s@ == vstd::utf8::decode_utf8(rem.subrange(2, 2 + l))
                    && final(self).spec_pos() == old(self).spec_pos() + 2 + l)
                &&& (r == Err::<String, ByteReadError>(ByteReadError::OutOfBounds) <==> (
                rem.len() < 2 || rem.len() < 2 + l))
                &&& (r is Err ==> final(self).spec_pos() == old(self).spec_pos())
                &&& (r is Err ==> r == Err::<String, ByteReadError>(ByteReadError::OutOfBounds)
                    || r == Err::<String, ByteReadError>(ByteReadError::InvalidUtf8))
            }),
    {
        let ghost pre = *self;
        let start = self.pos;
        let len = match self.read_u16() {
            Ok(v) => v,
            Err(e) => {
                return Err(e);
            },
        };
        let bytes = match self.read_bytes(len as usize) {
            Ok(s) => s,
            Err(e) => {
                self.pos = start;
                return Err(e);
            },
        };
        proof {
            assert(bytes@ =~= pre.remaining().subrange(
                2,
                2 + spec_u16_from_le_bytes(pre.remaining().take(2)) as int,
            ));
        }
        match string_from_utf8(vstd::slice::slice_to_vec(bytes)) {
            Ok(s) => Ok(s),
            Err(_) => {
                self.pos = start;
                Err(ByteReadError::InvalidUtf8)
            },
        }
    }
}

/// Relies on `String::from_utf8`: it succeeds exactly on valid UTF-8 input
/// and returns the string of the characters those bytes encode.
#[verifier::external_body]
pub(crate) fn string_from_utf8(v: Vec<u8>) -> (r: Result<String, ()>)
    ensures
        r is Ok <==> vstd::utf8::valid_utf8(v@),
        r matches Ok(s) ==> s@ == vstd::utf8::decode_utf8(v@),
{
    match String::from_utf8(v) {
        Ok(s) => Ok(s),
        Err(_) => Err(()),
    }
}

/// An append-only byte buffer that values are serialized into.
pub struct ByteWriter {
    data: Vec<u8>,
}

impl View for ByteWriter {
    type V = Seq<u8>;

    closed spec fn view(&self) -> Seq<u8> {
        self.data@
    }
}

impl ByteWriter {
    pub fn new() -> (r: ByteWriter)
        ensures
            r@ == Seq::<u8>::empty(),
    {
        ByteWriter { data: Vec::new() }
    }

    /// How many bytes have been written so far.
    pub fn written_len(&self) -> (n: usize)
        ensures
            n == self@.len(),
    {
        self.data.len()
    }

    /// The bytes written so far.
    pub fn written(&self) -> (r: &[u8])
        ensures
            r@ == self@,
    {
        self.data.as_slice()
    }

    /// Hands the written bytes over to the caller.
    pub fn into_vec(self) -> (r: Vec<u8>)
        ensures
            r@ == self@,
    {
        self.data
    }

    pub fn write_u8(&mut self, b: u8)
        ensures
            final(self)@ == old(self)@ + seq![b],
    {
        self.data.push(b);
        assert(self@ =~= old(self)@ + seq![b]);
    }

    pub fn write_bytes(&mut self, s: &[u8])
        ensures
            final(self)@ == old(self)@ + s@,
    {
        self.data.extend_from_slice(s);
    }

    pub fn write_u16(&mut self, x: u16)
        ensures
            final(self)@ == old(self)@ + spec_u16_to_le_bytes(x),
    {
        let mut tmp = u16_to_le_bytes(x);
        self.data.append(&mut tmp);
    }

    pub fn write_u32(&mut self, x: u32)
        ensures
            final(self)@ == old(self)@ + spec_u32_to_le_bytes(x),
    {
        let mut tmp = u32_to_le_bytes(x);
        self.data.append(&mut tmp);
    }

    pub fn write_u64(&mut self, x: u64)
        ensures
            final(self)@ == old(self)@ + spec_u64_to_le_bytes(x),
    {
        let mut tmp = u64_to_le_bytes(x);
        self.data.append(&mut tmp);
    }

    pub fn write_i32(&mut self, x: i32)
        ensures
            final(self)@ == old(self)@ + spec_u32_to_le_bytes(x as u32),
    {
        self.write_u32(x as u32);
    }

    pub fn write_i64(&mut self, x: i64)
        ensures
            final(self)@ == old(self)@ + spec_u64_to_le_bytes(x as u64),
    {
        self.write_u64(x as u64);
    }

    /// Writes `n` in varuint form.
    pub fn write_varuint(&mut self, n: u64)
        ensures
            final(self)@ == old(self)@ + spec_varuint_bytes(n as nat),
        decreases n,
    {
        if n < 0x80 {
            self.write_u8(n as u8);
        } else {
            self.write_u8((0x80 + (n % 0x80)) as u8);
            self.write_varuint(n / 0x80);
            assert(final(self)@ =~= old(self)@ + spec_varuint_bytes(n as nat));
        }
    }

    /// Writes a string prefixed by its byte length in one byte.
    pub fn write_string_u8(&mut self, s: &str)
        requires
            s.spec_bytes().len() < 256,
        ensures
            final(self)@ == old(self)@ + seq![s.spec_bytes().len() as u8] + s.spec_bytes(),
    {
        let bytes = s.as_bytes();
        self.write_u8(bytes.len() as u8);
        self.write_bytes(bytes);
    }

    /// Writes a string prefixed by its byte length in two little-endian bytes.
    pub fn write_string_u16(&mut self, s: &str)
        requires
            s.spec_bytes().len() < 65536,
        ensures
            final(self)@ == old(self)@ + spec_u16_to_le_bytes(s.spec_bytes().len() as u16)
                + s.spec_bytes(),
    {
        let bytes = s.as_bytes();
        self.write_u16(bytes.len() as u16);
        self.write_bytes(bytes);
    }
}

} // verus!
