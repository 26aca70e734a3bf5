//! Per-user visibility settings and their word-aligned layout inside an
//! unpacked message.

use vstd::prelude::*;

verus! {

use crate::builder::{spec_zeros, BuildFault, MessageBuilder};

/// The size of a settings record in the unpacked layout, in bytes.
pub const SETTINGS_BYTES: usize = 8;

/// A user's visibility settings.
#[derive(Clone, Copy, PartialEq, Eq, Structural, Debug, Default)]
pub struct UserSettings {
    pub hide_in_level: bool,
    pub hide_in_menus: bool,
    pub hide_roles: bool,
}

/// A flag as its wire byte.
pub open spec fn spec_flag_byte(b: bool) -> u8 {
    if b {
        1
    } else {
        0
    }
}

/// The unpacked layout of a settings record: one byte per flag, padded
/// with zeros to a whole word.
pub open spec fn spec_settings_bytes(s: UserSettings) -> Seq<u8> {
    seq![
        spec_flag_byte(s.hide_in_level),
        spec_flag_byte(s.hide_in_menus),
        spec_flag_byte(s.hide_roles),
    ] + spec_zeros(5)
}

/// Reads a settings record back from its unpacked layout: any nonzero
/// byte counts as a set flag.
pub open spec fn spec_settings_from_bytes(b: Seq<u8>) -> UserSettings
    recommends
        b.len() >= SETTINGS_BYTES,
{
    UserSettings { hide_in_level: b[0] != 0, hide_in_menus: b[1] != 0, hide_roles: b[2] != 0 }
}

/// Reading a settings record back from its own layout recovers it.
pub proof fn lemma_settings_round_trip(s: UserSettings)
    ensures
        spec_settings_bytes(s).len() == SETTINGS_BYTES,
        spec_settings_from_bytes(spec_settings_bytes(s)) == s,
{
}

impl UserSettings {
    /// Reads a settings record at `base` in an unpacked buffer.
    pub fn from_reader(buf: &[u8], base: usize) -> (r: UserSettings)
        requires
            base + SETTINGS_BYTES <= buf@.len(),
        ensures
            r == spec_settings_from_bytes(buf@.subrange(base as int, base + SETTINGS_BYTES)),
    {
        let len = buf.len();
        let ghost w = buf@.subrange(base as int, base + SETTINGS_BYTES);
        let r = UserSettings {
            hide_in_level: *vstd::slice::slice_index_get(buf, base) != 0,
            hide_in_menus: *vstd::slice::slice_index_get(buf, base + 1) != 0,
            hide_roles: *vstd::slice::slice_index_get(buf, base + 2) != 0,
        };
        proof {
            assert(buf@[base as int] == w[0] && buf@[base + 1] == w[1] && buf@[base + 2] == w[2]);
        }
        r
    }

    /// Appends this record's unpacked layout to the builder.
    pub fn encode(&self, b: &mut MessageBuilder) -> (r: Result<(), BuildFault>)
        requires
            old(b).wf(),
        ensures
            final(b).wf(),
            final(b).capacity() == old(b).capacity(),
            r is Ok <==> old(b).spec_len() + SETTINGS_BYTES <= old(b).capacity(),
            r is Ok ==> final(b).contents() == old(b).contents() + spec_settings_bytes(*self),
            r matches Err(f) ==> *final(b) == *old(b) && f == BuildFault::OutOfSpace,
    {
        proof {
            old(b).lemma_wf();
        }
        if b.capacity_bytes() - b.built_len() < SETTINGS_BYTES {
            return Err(BuildFault::OutOfSpace);
        }
        let _ = b.append_u8(if self.hide_in_level {
            1
        } else {
            0
        });
        let _ = b.append_u8(if self.hide_in_menus {
            1
        } else {
            0
        });
        let _ = b.append_u8(if self.hide_roles {
            1
        } else {
            0
        });
        let _ = b.append_zeros(5);
        assert(final(b).contents() =~= old(b).contents() + spec_settings_bytes(*self));
        Ok(())
    }
}

} // verus!
