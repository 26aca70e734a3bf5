//! Session identifiers packed into a single 64-bit integer:
//! top 8 bits server ID, next 24 bits room ID, last 32 bits level ID.

use vstd::prelude::*;

verus! {

/// A session identifier, `server_id:8 | room_id:24 | level_id:32`.
#[derive(Clone, Copy, PartialEq, Eq, Structural, Hash, Debug)]
pub struct SessionId(pub u64);

/// The packed form of the given parts: the server ID in the top 8 bits,
/// the low 24 bits of the room ID in the next 24, and the level ID
/// (reinterpreted as unsigned) in the low 32.
pub open spec fn spec_session_id(server_id: u8, level_id: i32, room_id: u32) -> u64 {
    ((server_id as u64) << 56) | (((room_id & 0x00ffffff) as u64) << 32) | (level_id as u32 as u64)
}

impl SessionId {
    /// Creates a new `SessionId` from the given server ID, level ID, and room ID.
    pub fn from_parts(server_id: u8, level_id: i32, room_id: u32) -> (r: SessionId)
        ensures
            r.0 == spec_session_id(server_id, level_id, room_id),
    {
        let server_id: u64 = u64::from(server_id) << 56;
        let room_id: u64 = u64::from(room_id & 0x00ffffff) << 32;
        let level_id: u64 = u64::from(level_id as u32);
        SessionId(server_id | room_id | level_id)
    }

    pub fn server_id(&self) -> (r: u8)
        ensures
            r == (self.0 >> 56) as u8,
    {
        (self.0 >> 56) as u8
    }

    pub fn level_id(&self) -> (r: i32)
        ensures
            r == (self.0 & 0xffffffff) as u32 as i32,
    {
        (self.0 & 0xffffffff) as u32 as i32
    }

    pub fn room_id(&self) -> (r: u32)
        ensures
            r == ((self.0 >> 32) & 0x00ffffff) as u32,
    {
        ((self.0 >> 32) & 0x00ffffff) as u32
    }

    pub fn as_u64(&self) -> (r: u64)
        ensures
            r == self.0,
    {
        self.0
    }

    pub fn is_zero(&self) -> (r: bool)
        ensures
            r == (self.0 == 0),
    {
        self.0 == 0
    }
}

impl From<u64> for SessionId {
    fn from(value: u64) -> (r: SessionId)
        ensures
            r.0 == value,
    {
        SessionId(value)
    }
}

impl vstd::std_specs::convert::FromSpecImpl<u64> for SessionId {
    open spec fn obeys_from_spec() -> bool {
        true
    }

    open spec fn from_spec(value: u64) -> SessionId {
        SessionId(value)
    }
}

/// Packing then unpacking recovers each part: the server ID exactly, the
/// level ID exactly, and the low 24 bits of the room ID.
pub proof fn lemma_session_id_parts(server_id: u8, level_id: i32, room_id: u32)
    ensures
        (spec_session_id(server_id, level_id, room_id) >> 56) as u8 == server_id,
        (spec_session_id(server_id, level_id, room_id) & 0xffffffff) as u32 as i32 == level_id,
        ((spec_session_id(server_id, level_id, room_id) >> 32) & 0x00ffffff) as u32 == room_id
            & 0x00ffffff,
{
    assert((((server_id as u64) << 56) | (((room_id & 0x00ffffff) as u64) << 32) | (
    level_id as u32 as u64)) >> 56 == server_id as u64) by (bit_vector);
    assert(((((server_id as u64) << 56) | (((room_id & 0x00ffffff) as u64) << 32) | (
    level_id as u32 as u64)) & 0xffffffff) as u32 == level_id as u32) by (bit_vector);
    assert(level_id as u32 as i32 == level_id) by (bit_vector);
    assert((((((server_id as u64) << 56) | (((room_id & 0x00ffffff) as u64) << 32) | (
    level_id as u32 as u64)) >> 32) & 0x00ffffff) as u32 == room_id & 0x00ffffff)
        by (bit_vector);
}

} // verus!
