//! The encode and decode pipelines and their error taxonomy: encoding
//! builds a message through an allocation strategy, computes its exact
//! serialized size and frames the packed bytes behind a varuint length
//! prefix; decoding validates the prefix against a hard ceiling, unpacks,
//! resolves the root discriminant and dispatches.

use vstd::prelude::*;

verus! {

use crate::builder::BuildFault;
use crate::bytes::ByteReadError;

/// Why decoding an incoming message failed.
#[derive(Clone, Copy, PartialEq, Eq, Debug)]
pub enum DataDecodeError {
    /// The packed bytes are structurally invalid: they end before the
    /// declared unpacked length is reached.
    InvalidStructure,
    /// The root union discriminant is outside the known variant set.
    InvalidDiscriminant,
    /// A text field holds bytes that are not valid UTF-8.
    InvalidUtf8,
    /// A username field exceeds its fixed capacity.
    UsernameTooLong,
    /// No handler is registered for the resolved message variant.
    NoMessageHandler,
    /// The declared unpacked length exceeds the hard ceiling.
    MessageTooLong(usize),
    /// The length prefix could not be decoded.
    InvalidBinary(ByteReadError),
    /// A string field is longer than permitted: its length and the limit.
    StringTooLong(usize, usize),
    /// A floating-point field holds a NaN or infinite value.
    InvalidFloat,
    /// The data is logically invalid; semantic validation failed.
    ValidationFailed,
}

/// Why encoding an outgoing message failed.
#[derive(Clone, PartialEq, Eq, Debug)]
pub enum EncodeMessageError {
    /// The construction step raised a fault, carried here.
    ConstructionFailed(BuildFault),
    /// The serialized size does not fit the reserved framing budget.
    MessageTooLong,
}

impl EncodeMessageError {
    /// A human-readable description of the error, in place of a
    /// formatter-based one.
    pub fn message(&self) -> (r: String)
        ensures
            ({
                let d = r@;
                match self {
                    EncodeMessageError::ConstructionFailed(f) => match f {
                        BuildFault::Alloc(af) => d == (if af is AlreadyAllocated {
                            "error: allocation strategy already granted its segment"@
                        } else {
                            "error: allocation request exceeds the strategy's capacity"@
                        }),
                        BuildFault::OutOfSpace => d
                            == "error: message does not fit the granted segment"@,
                        BuildFault::RootAlreadySet => d
                            == "error: message root initialized twice"@,
                        BuildFault::Aborted(m) => d == "error: "@ + m@,
                    },
                    EncodeMessageError::MessageTooLong => d
                        == "message too long, could not encode"@,
                }
            }),
    {
        proof {
            reveal_strlit("error: allocation strategy already granted its segment");
            reveal_strlit("error: allocation request exceeds the strategy's capacity");
            reveal_strlit("error: message does not fit the granted segment");
            reveal_strlit("error: message root initialized twice");
            reveal_strlit("error: ");
            reveal_strlit("message too long, could not encode");
        }
        match self {
            EncodeMessageError::ConstructionFailed(f) => match f {
                BuildFault::Alloc(af) => {
                    if matches!(af, crate::allocators::AllocFault::AlreadyAllocated) {
                        <String as vstd::string::StringExecFns>::from_str(
                            "error: allocation strategy already granted its segment",
                        )
                    } else {
                        <String as vstd::string::StringExecFns>::from_str(
                            "error: allocation request exceeds the strategy's capacity",
                        )
                    }
                },
                BuildFault::OutOfSpace => <String as vstd::string::StringExecFns>::from_str(
                    "error: message does not fit the granted segment",
                ),
                BuildFault::RootAlreadySet => <String as vstd::string::StringExecFns>::from_str(
                    "error: message root initialized twice",
                ),
                BuildFault::Aborted(m) => {
                    let head = <String as vstd::string::StringExecFns>::from_str("error: ");
                    <String as vstd::string::StringExecFns>::concat(head, m.as_str())
                },
            },
            EncodeMessageError::MessageTooLong => <String as vstd::string::StringExecFns>::from_str(
                "message too long, could not encode",
            ),
        }
    }
}

use crate::allocators::{Allocator, CapnpAlloc, CapnpBorrowAlloc, CapnpHeapAlloc};
use crate::builder::MessageBuilder;
use crate::bytes::{spec_parse_varuint, spec_varuint_bytes, ByteReader, ByteWriter};
use crate::pack::{
    lemma_pack_round_trip,
    pack_bytes,
    spec_pack,
    spec_unpack,
    unpack_bytes,
};
use crate::schema::{
    lemma_message_unpacked_len,
    lemma_root_round_trip,
    read_root,
    spec_message_unpacked,
    spec_read_root,
    DispatchTable,
    Message,
    MessageView,
};

/// The hard, non-configurable ceiling on a message's declared unpacked
/// length: 1 MiB.
pub const MAX_UNPACKED_LEN: usize = 1048576;

/// The largest serialized size whose varuint prefix fits the reserved
/// four-byte framing budget.
pub const MAX_FRAMED_LEN: u64 = 0x10000000;

/// The framed wire form of a message: its unpacked length as a varuint,
/// then the packed bytes of its unpacked layout.
pub open spec fn spec_frame(m: MessageView) -> Seq<u8>
    recommends
        m.wf(),
{
    spec_varuint_bytes(m.unpacked_len()) + spec_pack(spec_message_unpacked(m))
}

/// The `MessageTooLong` payload for a declared length: the length itself,
/// saturated to what a `usize` can carry.
pub open spec fn spec_len_payload(len: nat) -> usize {
    if len <= usize::MAX {
        len as usize
    } else {
        usize::MAX
    }
}

/// What decoding a framed input yields: the message and the number of
/// consumed bytes (the length prefix plus the packed bytes), or the first
/// error the pipeline meets. The ceiling is enforced before any unpack
/// step, and an unknown root discriminant never reaches a handler.
pub open spec fn spec_decode_message(input: Seq<u8>, table: DispatchTable) -> Result<
    (MessageView, int),
    DataDecodeError,
> {
    match spec_parse_varuint(input) {
        None => Err(DataDecodeError::InvalidBinary(ByteReadError::OutOfBounds)),
        Some((len, c)) => {
            if len > u64::MAX {
                Err(DataDecodeError::InvalidBinary(ByteReadError::VaruintOverflow))
            } else if len > MAX_UNPACKED_LEN {
                Err(DataDecodeError::MessageTooLong(spec_len_payload(len)))
            } else if len % 8 != 0 {
                Err(DataDecodeError::InvalidStructure)
            } else {
                match spec_unpack(input.skip(c), len / 8) {
                    None => Err(DataDecodeError::InvalidStructure),
                    Some((unpacked, pc)) => match spec_read_root(unpacked, table) {
                        Ok(mv) => Ok((mv, c + pc)),
                        Err(e) => Err(e),
                    },
                }
            }
        },
    }
}

/// Decodes one framed message: reads and validates the length prefix
/// against the hard ceiling, unpacks into a fresh scratch buffer, resolves
/// the root discriminant, and builds the typed variant for the caller's
/// registered handling. Trailing bytes beyond the consumed count are the
/// caller's concern.
pub fn decode_message(input: &[u8], table: &DispatchTable) -> (r: Result<
    (Message, usize),
    DataDecodeError,
>)
    ensures
        match r {
            Ok((m, c)) => spec_decode_message(input@, *table) == Ok::<
                (MessageView, int),
                DataDecodeError,
            >((m@, c as int)) && m@.wf(),
            Err(e) => spec_decode_message(input@, *table) == Err::<
                (MessageView, int),
                DataDecodeError,
            >(e),
        },
{
    let mut reader = ByteReader::new(input);
    proof {
        assert(reader.remaining() =~= input@);
    }
    let unpacked_len = match reader.read_varuint() {
        Ok(v) => v,
        Err(e) => {
            return Err(DataDecodeError::InvalidBinary(e));
        },
    };
    let prefix_len = reader.position();
    if unpacked_len > MAX_UNPACKED_LEN as u64 {
        let payload = if unpacked_len > usize::MAX as u64 {
            usize::MAX
        } else {
            unpacked_len as usize
        };
        return Err(DataDecodeError::MessageTooLong(payload));
    }
    if unpacked_len % 8 != 0 {
        return Err(DataDecodeError::InvalidStructure);
    }
    let nwords = (unpacked_len / 8) as usize;
    let rembuf = reader.remaining_bytes();
    let (unpacked, packed_len) = match unpack_bytes(rembuf, nwords) {
        Ok(v) => v,
        Err(_) => {
            return Err(DataDecodeError::InvalidStructure);
        },
    };
    let m = match read_root(unpacked.as_slice(), table) {
        Ok(m) => m,
        Err(e) => {
            return Err(e);
        },
    };
    proof {
        reader.lemma_wf();
    }
    let total = input.len();
    assert(prefix_len + packed_len <= total);
    Ok((m, prefix_len + packed_len))
}

/// Wraps an allocation strategy as a message builder: requests a segment
/// of `size_words` words and hands back a fresh builder over it.
pub fn builder<A: Allocator>(a: A, size_words: u32) -> (r: Result<
    MessageBuilder,
    crate::allocators::AllocFault,
>)
    ensures
        r is Ok <==> !a.engaged() && a.can_grant(size_words),
        r matches Ok(b) ==> b.wf() && b.spec_len() == 0 && b.capacity() == a.granted_words(
            size_words,
        ) * 8,
{
    let mut a = a;
    match a.allocate_segment(size_words) {
        Ok(seg) => Ok(MessageBuilder::from_segment(seg)),
        Err(f) => Err(f),
    }
}

/// A builder over a fresh growable heap strategy, for dynamic encodes
/// with no capacity estimate: one baseline segment of 1 KiB.
pub fn builder_dyn() -> (r: MessageBuilder)
    ensures
        r.wf(),
        r.spec_len() == 0,
        r.capacity() == 1024,
{
    let mut a = CapnpHeapAlloc::new();
    proof {
        CapnpHeapAlloc::lemma_caps(a);
    }
    match a.allocate_segment(0) {
        Ok(seg) => MessageBuilder::from_segment(seg),
        Err(_) => {
            proof {
                assert(false);
            }
            MessageBuilder::from_segment(Vec::new())
        },
    }
}

/// A builder over a caller-supplied window (a pooled transport buffer),
/// zero-filled and truncated to whole words by the borrowed strategy.
pub fn builder_borrow(window: Vec<u8>) -> (r: MessageBuilder)
    ensures
        r.wf(),
        r.spec_len() == 0,
        r.capacity() == (window@.len() / 8) * 8,
{
    let ghost wlen = window@.len();
    let mut a = CapnpBorrowAlloc::new(window);
    proof {
        CapnpBorrowAlloc::lemma_caps(a);
    }
    match a.allocate_segment(0) {
        Ok(seg) => {
            let b = MessageBuilder::from_segment(seg);
            b
        },
        Err(_) => {
            proof {
                assert(false);
            }
            MessageBuilder::from_segment(Vec::new())
        },
    }
}

/// Encodes a message through the given allocation strategy: requests a
/// segment of `size_words` words, builds the message's unpacked layout
/// into it, computes the exact serialized size, and frames the packed
/// bytes behind the varuint length prefix. An allocation or construction
/// fault is caught here and returned as `ConstructionFailed`; the strategy
/// stays engaged afterwards until its caller releases it.
pub fn encode_message_with<A: Allocator>(alloc: &mut A, size_words: u32, m: &Message) -> (r:
    Result<Vec<u8>, EncodeMessageError>)
    requires
        m@.wf(),
    ensures
        r is Ok <==> (!old(alloc).engaged() && old(alloc).can_grant(size_words)
            && m@.unpacked_len() <= old(alloc).granted_words(size_words) * 8),
        r matches Ok(bytes) ==> bytes@ == spec_frame(m@) && A::post_allocate(
            *old(alloc),
            *final(alloc),
            size_words,
        ),
        r matches Err(e) ==> (e matches EncodeMessageError::ConstructionFailed(f) && (f matches
            BuildFault::Alloc(af) ==> *final(alloc) == *old(alloc) && (af is AlreadyAllocated
            <==> old(alloc).engaged()))),
{
    proof {
        lemma_message_unpacked_len(m@);
    }
    let seg = match alloc.allocate_segment(size_words) {
        Ok(s) => s,
        Err(af) => {
            return Err(EncodeMessageError::ConstructionFailed(BuildFault::Alloc(af)));
        },
    };
    let mut b = MessageBuilder::from_segment(seg);
    match b.init_root(m) {
        Ok(()) => {},
        Err(f) => {
            return Err(EncodeMessageError::ConstructionFailed(f));
        },
    }
    let ser_size = b.built_len();
    let mut writer = ByteWriter::new();
    writer.write_varuint(ser_size as u64);
    let packed = pack_bytes(b.built_bytes());
    writer.write_bytes(packed.as_slice());
    let out = writer.into_vec();
    assert(out@ =~= spec_frame(m@));
    Ok(out)
}

/// Encodes with the fixed-capacity inline strategy: succeeds exactly when
/// the message's serialized size fits the compile-time capacity `N`, and
/// never silently truncates.
pub fn encode_message_unsafe<const N: usize>(m: &Message) -> (r: Result<
    Vec<u8>,
    EncodeMessageError,
>)
    requires
        m@.wf(),
        N <= u32::MAX,
    ensures
        r is Ok <==> m@.unpacked_len() <= (N / 8) * 8,
        r matches Ok(bytes) ==> bytes@ == spec_frame(m@),
        r is Err ==> r matches Err(EncodeMessageError::ConstructionFailed(_)),
{
    let mut alloc: CapnpAlloc<N> = CapnpAlloc::new();
    proof {
        CapnpAlloc::<N>::lemma_caps(alloc);
        lemma_message_unpacked_len(m@);
    }
    let words = (m.unpacked_size() / 8) as u32;
    let r = encode_message_with(&mut alloc, words, m);
    proof {
        assert(words * 8 == m@.unpacked_len());
        assert(m@.unpacked_len() <= N ==> m@.unpacked_len() <= (N / 8) * 8) by (nonlinear_arith)
            requires
                m@.unpacked_len() % 8 == 0,
        ;
        assert((N / 8) * 8 <= N) by (nonlinear_arith);
    }
    r
}

/// Encodes with the borrowed strategy over a caller-supplied window (a
/// pooled transport buffer): succeeds exactly when the message's
/// serialized size fits the window, rounded down to whole words.
pub fn encode_message_heap(window: Vec<u8>, m: &Message) -> (r: Result<Vec<u8>, EncodeMessageError>)
    requires
        m@.wf(),
    ensures
        r is Ok <==> m@.unpacked_len() <= (window@.len() / 8) * 8,
        r matches Ok(bytes) ==> bytes@ == spec_frame(m@),
        r is Err ==> r matches Err(EncodeMessageError::ConstructionFailed(_)),
{
    let ghost wlen = window@.len();
    let mut alloc = CapnpBorrowAlloc::new(window);
    proof {
        CapnpBorrowAlloc::lemma_caps(alloc);
        lemma_message_unpacked_len(m@);
    }
    let words = (m.unpacked_size() / 8) as u32;
    let r = encode_message_with(&mut alloc, words, m);
    proof {
        assert(words * 8 == m@.unpacked_len());
        assert(m@.unpacked_len() <= wlen ==> m@.unpacked_len() <= (wlen / 8) * 8)
            by (nonlinear_arith)
            requires
                m@.unpacked_len() % 8 == 0,
        ;
        assert((wlen / 8) * 8 <= wlen) by (nonlinear_arith);
    }
    r
}

/// Encodes with the growable heap strategy: the dynamic path for encodes
/// without a capacity estimate. It cannot fail.
pub fn encode_message_dyn(m: &Message) -> (r: Vec<u8>)
    requires
        m@.wf(),
    ensures
        r@ == spec_frame(m@),
{
    let mut alloc = CapnpHeapAlloc::new();
    proof {
        CapnpHeapAlloc::lemma_caps(alloc);
        lemma_message_unpacked_len(m@);
    }
    let words = (m.unpacked_size() / 8) as u32;
    match encode_message_with(&mut alloc, words, m) {
        Ok(bytes) => bytes,
        Err(_) => {
            proof {
                assert(false);
            }
            Vec::new()
        },
    }
}

/// Encodes with a store of exactly the caller's capacity estimate,
/// rounded up to whole words, as the encode entry point does when the
/// estimate is not a compile-time constant: a pooled window of that many
/// bytes. A message whose serialized size exceeds the estimate faults
/// instead of silently growing; the inline path for compile-time
/// estimates is `encode_message_unsafe`.
pub fn encode_message(estimated_capacity: usize, m: &Message) -> (r: Result<
    Vec<u8>,
    EncodeMessageError,
>)
    requires
        m@.wf(),
        estimated_capacity <= usize::MAX - 7,
    ensures
        r is Ok <==> m@.unpacked_len() <= ((estimated_capacity + 7) as nat / 8) * 8,
        r matches Ok(bytes) ==> bytes@ == spec_frame(m@),
        r is Err ==> r matches Err(EncodeMessageError::ConstructionFailed(_)),
{
    let rounded = ((estimated_capacity + 7) / 8) * 8;
    let window = crate::allocators::zeroed_vec(rounded);
    let r = encode_message_heap(window, m);
    proof {
        assert((((estimated_capacity + 7) as nat / 8) * 8) / 8 * 8 == ((estimated_capacity + 7)
            as nat / 8) * 8) by (nonlinear_arith);
    }
    r
}

/// Encodes through the given strategy with a caller-supplied construction
/// step: requests a segment, hands the construction step a fresh builder
/// over it, computes the exact serialized size of what it built, and
/// frames the packed bytes behind the varuint length prefix.
///
/// Fault containment: a fault raised by the construction step - and an
/// allocation fault - is caught here and returned as the typed
/// `ConstructionFailed` error rather than propagating, so one bad message
/// leaves the caller free to encode the next. A fresh strategy that can
/// grant the request never reports an allocation fault: the fault carried
/// out is then the construction step's own.
pub fn encode_with_builder<A: Allocator, F: FnOnce(MessageBuilder) -> Result<
    MessageBuilder,
    BuildFault,
>>(alloc: &mut A, size_words: u32, construct: F) -> (r: Result<Vec<u8>, EncodeMessageError>)
    requires
        forall|b0: MessageBuilder|
            b0.wf() && b0.spec_len() == 0 ==> #[trigger] call_requires(construct, (b0,)),
        forall|b0: MessageBuilder, res: Result<MessageBuilder, BuildFault>|
            #[trigger] call_ensures(construct, (b0,), res) ==> match res {
                Ok(b1) => b1.wf() && b1.spec_len() % 8 == 0,
                Err(f) => !(f matches BuildFault::Alloc(_)),
            },
    ensures
        !old(alloc).engaged() && old(alloc).can_grant(size_words) ==> !(r matches Err(
            EncodeMessageError::ConstructionFailed(BuildFault::Alloc(_)),
        )),
        r matches Err(EncodeMessageError::ConstructionFailed(f)) ==> (f matches BuildFault::Alloc(
            af,
        ) ==> *final(alloc) == *old(alloc) && (af is AlreadyAllocated <==> old(alloc).engaged())),
        r matches Err(EncodeMessageError::ConstructionFailed(f)) ==> (!(f matches
        BuildFault::Alloc(_)) ==> exists|b0: MessageBuilder|
            b0.spec_len() == 0 && b0.capacity() == old(alloc).granted_words(size_words) * 8 && (
            #[trigger] call_ensures(construct, (b0,), Err(f)))),
        r matches Ok(bytes) ==> exists|b0: MessageBuilder, b1: MessageBuilder|
            b0.spec_len() == 0 && b0.capacity() == old(alloc).granted_words(size_words) * 8 && (
            #[trigger] call_ensures(construct, (b0,), Ok(b1))) && b1.spec_len() < MAX_FRAMED_LEN
                && bytes@ == spec_varuint_bytes(b1.spec_len()) + spec_pack(b1.contents()),
        r == Err::<Vec<u8>, EncodeMessageError>(EncodeMessageError::MessageTooLong) ==> exists|
            b0: MessageBuilder,
            b1: MessageBuilder,
        |
            (#[trigger] call_ensures(construct, (b0,), Ok(b1))) && b1.spec_len()
                >= MAX_FRAMED_LEN,
{
    let seg = match alloc.allocate_segment(size_words) {
        Ok(s) => s,
        Err(af) => {
            return Err(EncodeMessageError::ConstructionFailed(BuildFault::Alloc(af)));
        },
    };
    let b0 = MessageBuilder::from_segment(seg);
    let ghost g0 = b0;
    let b1 = match construct(b0) {
        Ok(b) => b,
        Err(f) => {
            assert(call_ensures(construct, (g0,), Err(f)));
            return Err(EncodeMessageError::ConstructionFailed(f));
        },
    };
    let ser_size = b1.built_len();
    if ser_size as u64 >= MAX_FRAMED_LEN {
        return Err(EncodeMessageError::MessageTooLong);
    }
    let mut writer = ByteWriter::new();
    writer.write_varuint(ser_size as u64);
    let packed = pack_bytes(b1.built_bytes());
    writer.write_bytes(packed.as_slice());
    let out = writer.into_vec();
    assert(out@ =~= spec_varuint_bytes(b1.spec_len()) + spec_pack(b1.contents()));
    Ok(out)
}

/// Ceiling enforcement: an input whose declared unpacked length exceeds
/// the hard 1 MiB ceiling always fails with `MessageTooLong` carrying that
/// length, before any unpack step - whatever the rest of the input holds
/// and whatever the dispatch table says.
pub proof fn lemma_ceiling_enforcement(input: Seq<u8>, table: DispatchTable, len: nat, c: int)
    requires
        spec_parse_varuint(input) == Some((len, c)),
        len <= u64::MAX,
        len > MAX_UNPACKED_LEN,
    ensures
        spec_decode_message(input, table) == Err::<(MessageView, int), DataDecodeError>(
            DataDecodeError::MessageTooLong(spec_len_payload(len)),
        ),
{
}

/// Round-trip: decoding the framed form of any well-formed message whose
/// variant the table handles yields that message, field for field,
/// consuming exactly the frame's bytes, whatever trails it.
pub proof fn lemma_message_round_trip(m: MessageView, table: DispatchTable, rest: Seq<u8>)
    requires
        m.wf(),
        table.handles(m),
    ensures
        spec_decode_message(spec_frame(m) + rest, table) == Ok::<
            (MessageView, int),
            DataDecodeError,
        >((m, spec_frame(m).len() as int)),
{
    lemma_message_unpacked_len(m);
    let unpacked = spec_message_unpacked(m);
    let len = m.unpacked_len();
    let prefix = spec_varuint_bytes(len);
    let packed = spec_pack(unpacked);
    let input = spec_frame(m) + rest;
    assert(input =~= prefix + (packed + rest));
    crate::bytes::lemma_varuint_round_trip(len, packed + rest);
    assert(input.skip(prefix.len() as int) =~= packed + rest);
    lemma_pack_round_trip(unpacked, rest);
    lemma_root_round_trip(m, table);
}

} // verus!
