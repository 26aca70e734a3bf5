//! Server configuration helpers: memory-limit tiers keyed by a usage
//! level.

use vstd::prelude::*;

verus! {

pub const S_4KIB: usize = 8192;

pub const S_8KIB: usize = 16384;

pub const S_16KIB: usize = 32768;

pub const S_32KIB: usize = 32768;

pub const S_64KIB: usize = 65536;

pub const S_128KIB: usize = 131072;

pub const S_256KIB: usize = 262144;

pub const S_512KIB: usize = 524288;

pub const S_1MIB: usize = 1048576;

pub const S_2MIB: usize = 2097152;

pub const S_4MIB: usize = 4194304;

pub const S_8MIB: usize = 8388608;

pub const S_16MIB: usize = 16777216;

pub const S_32MIB: usize = 33554432;

pub const S_64MIB: usize = 67108864;

pub const S_128MIB: usize = 134217728;

pub const S_256MIB: usize = 268435456;

pub const S_1GIB: usize = 1073741824;

/// The memory limits for a usage level, clamped to 1 through 11: the
/// baseline and maximum pool sizes, and the optional per-buffer and
/// per-connection caps of the higher tiers.
pub open spec fn spec_memory_limits(usage: u32) -> (usize, usize, Option<usize>, Option<usize>) {
    let u = if usage < 1 {
        1u32
    } else if usage > 11 {
        11u32
    } else {
        usage
    };
    if u == 1 {
        (S_16KIB, S_64KIB, None, None)
    } else if u == 2 {
        (S_64KIB, S_256KIB, None, None)
    } else if u == 3 {
        (S_256KIB, S_1MIB, None, None)
    } else if u == 4 {
        (S_512KIB, S_4MIB, None, None)
    } else if u == 5 {
        (S_1MIB, S_8MIB, None, None)
    } else if u == 6 {
        (S_2MIB, S_16MIB, None, None)
    } else if u == 7 {
        (S_4MIB, S_32MIB, None, Some(S_512KIB))
    } else if u == 8 {
        (S_8MIB, S_64MIB, None, Some(S_1MIB))
    } else if u == 9 {
        (S_16MIB, S_128MIB, Some(S_512KIB), Some(S_2MIB))
    } else if u == 10 {
        (S_16MIB, S_256MIB, Some(S_1MIB), Some(S_4MIB))
    } else {
        (S_32MIB, S_1GIB, Some(S_2MIB), Some(S_8MIB))
    }
}

/// The memory limits for a usage level, clamped to 1 through 11.
pub fn make_memory_limits(usage: u32) -> (r: (usize, usize, Option<usize>, Option<usize>))
    ensures
        r == spec_memory_limits(usage),
{
    let usage = if usage < 1 {
        1
    } else if usage > 11 {
        11
    } else {
        usage
    };
    match usage {
        1 => (S_16KIB, S_64KIB, None, None),
        2 => (S_64KIB, S_256KIB, None, None),
        3 => (S_256KIB, S_1MIB, None, None),
        4 => (S_512KIB, S_4MIB, None, None),
        5 => (S_1MIB, S_8MIB, None, None),
        6 => (S_2MIB, S_16MIB, None, None),
        7 => (S_4MIB, S_32MIB, None, Some(S_512KIB)),
        8 => (S_8MIB, S_64MIB, None, Some(S_1MIB)),
        9 => (S_16MIB, S_128MIB, Some(S_512KIB), Some(S_2MIB)),
        10 => (S_16MIB, S_256MIB, Some(S_1MIB), Some(S_4MIB)),
        _ => (S_32MIB, S_1GIB, Some(S_2MIB), Some(S_8MIB)),
    }
}

/// The datagram buffer-pool parameters for a usage level, clamped to 1
/// through 11: the buffer size and the minimum and maximum buffer counts.
/// Primarily for the game server.
pub open spec fn spec_udp_memory_limits(usage: u32) -> (usize, usize, usize) {
    let u = if usage < 1 {
        1u32
    } else if usage > 11 {
        11u32
    } else {
        usage
    };
    if u == 1 {
        (1500, 4, 32)
    } else if u == 2 {
        (1500, 8, 64)
    } else if u == 3 {
        (1500, 16, 128)
    } else if u == 4 {
        (1500, 16, 256)
    } else if u == 5 {
        (1500, 16, 512)
    } else if u == 6 {
        (1500, 32, 1024)
    } else if u == 7 {
        (1500, 32, S_4KIB)
    } else if u == 8 {
        (1500, 64, S_8KIB)
    } else if u == 9 {
        (1500, 128, S_16KIB)
    } else if u == 10 {
        (1500, 256, S_32KIB)
    } else {
        (1500, 512, S_128KIB)
    }
}

/// The datagram buffer-pool parameters for a usage level, clamped to 1
/// through 11: the buffer size and the minimum and maximum buffer counts.
pub fn make_udp_memory_limits(usage: u32) -> (r: (usize, usize, usize))
    ensures
        r == spec_udp_memory_limits(usage),
{
    let usage = if usage < 1 {
        1
    } else if usage > 11 {
        11
    } else {
        usage
    };
    match usage {
        1 => (1500, 4, 32),
        2 => (1500, 8, 64),
        3 => (1500, 16, 128),
        4 => (1500, 16, 256),
        5 => (1500, 16, 512),
        6 => (1500, 32, 1024),
        7 => (1500, 32, S_4KIB),
        8 => (1500, 64, S_8KIB),
        9 => (1500, 128, S_16KIB),
        10 => (1500, 256, S_32KIB),
        _ => (1500, 512, S_128KIB),
    }
}

} // verus!
