//! Shared capacity constants.

use vstd::prelude::*;

verus! {

/// The largest username length accepted, in bytes. The game caps names at
/// 15 characters; this leaves headroom for private servers.
pub const MAX_USERNAME_LENGTH: usize = 24;

/// The largest room name length accepted, in bytes.
pub const MAX_ROOM_NAME_LENGTH: usize = 32;

} // verus!
