//! Player-facing data records and their fixed word-aligned layouts inside
//! an unpacked message: icon sets, display data, and game-server
//! descriptions.

use vstd::prelude::*;

verus! {

use vstd::bytes::{
    spec_u16_from_le_bytes,
    spec_u16_to_le_bytes,
    spec_u32_from_le_bytes,
    spec_u32_to_le_bytes,
    u16_from_le_bytes,
    u32_from_le_bytes,
    lemma_auto_spec_u16_to_from_le_bytes,
    lemma_auto_spec_u32_to_from_le_bytes,
};
use vstd::slice::slice_subrange;
use vstd::string::StringSliceAdditionalSpecFns;
use vstd::utf8::{decode_utf8, encode_utf8, valid_utf8};

use crate::builder::{spec_zeros, BuildFault, MessageBuilder};
use crate::bytes::string_from_utf8;
use crate::encoding::DataDecodeError;

/// The size of an icon record in the unpacked layout, in bytes.
pub const ICON_DATA_BYTES: usize = 32;

/// The size of a display-data record in the unpacked layout, in bytes.
pub const DISPLAY_DATA_BYTES: usize = 80;

/// The byte capacity of a username field in a display-data record.
pub const USERNAME_CAPACITY: usize = 32;

/// A description of one game server.
#[derive(Clone, Debug)]
pub struct GameServerData {
    pub id: u8,
    pub address: String,
    pub string_id: String,
    pub name: String,
    pub region: String,
}

impl GameServerData {
    /// Every text field fits its fixed byte capacity.
    pub open spec fn wf(&self) -> bool {
        &&& encode_utf8(self.address@).len() <= 64
        &&& encode_utf8(self.string_id@).len() <= 32
        &&& encode_utf8(self.name@).len() <= 64
        &&& encode_utf8(self.region@).len() <= 32
    }
}

/// A player's icon selection.
#[derive(Clone, Copy, PartialEq, Eq, Structural, Debug)]
pub struct PlayerIconData {
    pub cube: i16,
    pub ship: i16,
    pub ball: i16,
    pub ufo: i16,
    pub wave: i16,
    pub robot: i16,
    pub spider: i16,
    pub swing: i16,
    pub jetpack: i16,
    pub color1: u16,
    pub color2: u16,
    pub glow_color: u16,
    pub death_effect: u8,
    pub trail: u8,
    pub ship_trail: u8,
}

impl Default for PlayerIconData {
    fn default() -> (r: PlayerIconData)
        ensures
            r == PlayerIconData::spec_default(),
    {
        PlayerIconData {
            cube: 0,
            ship: 0,
            ball: 0,
            ufo: 0,
            wave: 0,
            robot: 0,
            spider: 0,
            swing: 0,
            jetpack: 0,
            color1: 0,
            color2: 0,
            glow_color: 0,
            death_effect: 1,
            trail: 255,
            ship_trail: 255,
        }
    }
}

/// The unpacked layout of an icon record: the nine mode icons and three
/// colors as 16-bit little-endian values, then the three single-byte
/// fields, padded with zeros to a whole number of words.
pub open spec fn spec_icon_bytes(d: PlayerIconData) -> Seq<u8> {
    spec_u16_to_le_bytes(d.cube as u16) + spec_u16_to_le_bytes(d.ship as u16)
        + spec_u16_to_le_bytes(d.ball as u16) + spec_u16_to_le_bytes(d.ufo as u16)
        + spec_u16_to_le_bytes(d.wave as u16) + spec_u16_to_le_bytes(d.robot as u16)
        + spec_u16_to_le_bytes(d.spider as u16) + spec_u16_to_le_bytes(d.swing as u16)
        + spec_u16_to_le_bytes(d.jetpack as u16) + spec_u16_to_le_bytes(d.color1)
        + spec_u16_to_le_bytes(d.color2) + spec_u16_to_le_bytes(d.glow_color)
        + seq![d.death_effect, d.trail, d.ship_trail] + spec_zeros(5)
}

/// Reads an icon record back from its unpacked layout.
pub open spec fn spec_icon_from_bytes(b: Seq<u8>) -> PlayerIconData
    recommends
        b.len() >= ICON_DATA_BYTES,
{
    PlayerIconData {
        cube: spec_u16_from_le_bytes(b.subrange(0, 2)) as i16,
        ship: spec_u16_from_le_bytes(b.subrange(2, 4)) as i16,
        ball: spec_u16_from_le_bytes(b.subrange(4, 6)) as i16,
        ufo: spec_u16_from_le_bytes(b.subrange(6, 8)) as i16,
        wave: spec_u16_from_le_bytes(b.subrange(8, 10)) as i16,
        robot: spec_u16_from_le_bytes(b.subrange(10, 12)) as i16,
        spider: spec_u16_from_le_bytes(b.subrange(12, 14)) as i16,
        swing: spec_u16_from_le_bytes(b.subrange(14, 16)) as i16,
        jetpack: spec_u16_from_le_bytes(b.subrange(16, 18)) as i16,
        color1: spec_u16_from_le_bytes(b.subrange(18, 20)),
        color2: spec_u16_from_le_bytes(b.subrange(20, 22)),
        glow_color: spec_u16_from_le_bytes(b.subrange(22, 24)),
        death_effect: b[24],
        trail: b[25],
        ship_trail: b[26],
    }
}

/// Reading an icon record back from its own layout recovers it exactly.
pub proof fn lemma_icon_round_trip(d: PlayerIconData)
    ensures
        spec_icon_bytes(d).len() == ICON_DATA_BYTES,
        spec_icon_from_bytes(spec_icon_bytes(d)) == d,
{
    lemma_auto_spec_u16_to_from_le_bytes();
    let b = spec_icon_bytes(d);
    assert(forall|x: i16| #[trigger] ((x as u16) as i16) == x) by (bit_vector);
    assert(b.subrange(0, 2) =~= spec_u16_to_le_bytes(d.cube as u16));
    assert(b.subrange(2, 4) =~= spec_u16_to_le_bytes(d.ship as u16));
    assert(b.subrange(4, 6) =~= spec_u16_to_le_bytes(d.ball as u16));
    assert(b.subrange(6, 8) =~= spec_u16_to_le_bytes(d.ufo as u16));
    assert(b.subrange(8, 10) =~= spec_u16_to_le_bytes(d.wave as u16));
    assert(b.subrange(10, 12) =~= spec_u16_to_le_bytes(d.robot as u16));
    assert(b.subrange(12, 14) =~= spec_u16_to_le_bytes(d.spider as u16));
    assert(b.subrange(14, 16) =~= spec_u16_to_le_bytes(d.swing as u16));
    assert(b.subrange(16, 18) =~= spec_u16_to_le_bytes(d.jetpack as u16));
    assert(b.subrange(18, 20) =~= spec_u16_to_le_bytes(d.color1));
    assert(b.subrange(20, 22) =~= spec_u16_to_le_bytes(d.color2));
    assert(b.subrange(22, 24) =~= spec_u16_to_le_bytes(d.glow_color));
    assert(b[24] == d.death_effect && b[25] == d.trail && b[26] == d.ship_trail);
}

impl PlayerIconData {
    /// The record the schema defaults to: all icons unset, the default
    /// death effect, and no trails.
    pub open spec fn spec_default() -> PlayerIconData {
        PlayerIconData {
            cube: 0,
            ship: 0,
            ball: 0,
            ufo: 0,
            wave: 0,
            robot: 0,
            spider: 0,
            swing: 0,
            jetpack: 0,
            color1: 0,
            color2: 0,
            glow_color: 0,
            death_effect: 1,
            trail: 255,
            ship_trail: 255,
        }
    }

    /// Reads an icon record at `base` in an unpacked buffer.
    pub fn from_reader(buf: &[u8], base: usize) -> (r: Result<PlayerIconData, DataDecodeError>)
        requires
            base + ICON_DATA_BYTES <= buf@.len(),
        ensures
            r == Ok::<PlayerIconData, DataDecodeError>(
                spec_icon_from_bytes(buf@.subrange(base as int, base + ICON_DATA_BYTES)),
            ),
    {
        let len = buf.len();
        let ghost w = buf@.subrange(base as int, base + ICON_DATA_BYTES);
        let r = PlayerIconData {
            cube: u16_from_le_bytes(slice_subrange(buf, base, base + 2)) as i16,
            ship: u16_from_le_bytes(slice_subrange(buf, base + 2, base + 4)) as i16,
            ball: u16_from_le_bytes(slice_subrange(buf, base + 4, base + 6)) as i16,
            ufo: u16_from_le_bytes(slice_subrange(buf, base + 6, base + 8)) as i16,
            wave: u16_from_le_bytes(slice_subrange(buf, base + 8, base + 10)) as i16,
            robot: u16_from_le_bytes(slice_subrange(buf, base + 10, base + 12)) as i16,
            spider: u16_from_le_bytes(slice_subrange(buf, base + 12, base + 14)) as i16,
            swing: u16_from_le_bytes(slice_subrange(buf, base + 14, base + 16)) as i16,
            jetpack: u16_from_le_bytes(slice_subrange(buf, base + 16, base + 18)) as i16,
            color1: u16_from_le_bytes(slice_subrange(buf, base + 18, base + 20)),
            color2: u16_from_le_bytes(slice_subrange(buf, base + 20, base + 22)),
            glow_color: u16_from_le_bytes(slice_subrange(buf, base + 22, base + 24)),
            death_effect: *vstd::slice::slice_index_get(buf, base + 24),
            trail: *vstd::slice::slice_index_get(buf, base + 25),
            ship_trail: *vstd::slice::slice_index_get(buf, base + 26),
        };
        proof {
            assert(buf@.subrange(base as int, base + 2) =~= w.subrange(0, 2));
            assert(buf@.subrange(base + 2, base + 4) =~= w.subrange(2, 4));
            assert(buf@.subrange(base + 4, base + 6) =~= w.subrange(4, 6));
            assert(buf@.subrange(base + 6, base + 8) =~= w.subrange(6, 8));
            assert(buf@.subrange(base + 8, base + 10) =~= w.subrange(8, 10));
            assert(buf@.subrange(base + 10, base + 12) =~= w.subrange(10, 12));
            assert(buf@.subrange(base + 12, base + 14) =~= w.subrange(12, 14));
            assert(buf@.subrange(base + 14, base + 16) =~= w.subrange(14, 16));
            assert(buf@.subrange(base + 16, base + 18) =~= w.subrange(16, 18));
            assert(buf@.subrange(base + 18, base + 20) =~= w.subrange(18, 20));
            assert(buf@.subrange(base + 20, base + 22) =~= w.subrange(20, 22));
            assert(buf@.subrange(base + 22, base + 24) =~= w.subrange(22, 24));
            assert(buf@[base + 24] == w[24] && buf@[base + 25] == w[25] && buf@[base + 26]
                == w[26]);
        }
        Ok(r)
    }

    /// Appends this record's unpacked layout to the builder.
    pub fn encode(&self, b: &mut MessageBuilder) -> (r: Result<(), BuildFault>)
        requires
            old(b).wf(),
        ensures
            final(b).wf(),
            final(b).capacity() == old(b).capacity(),
            r is Ok <==> old(b).spec_len() + ICON_DATA_BYTES <= old(b).capacity(),
            r is Ok ==> final(b).contents() == old(b).contents() + spec_icon_bytes(*self),
            r matches Err(f) ==> *final(b) == *old(b) && f == BuildFault::OutOfSpace,
    {
        proof {
            old(b).lemma_wf();
        }
        if b.capacity_bytes() - b.built_len() < ICON_DATA_BYTES {
            return Err(BuildFault::OutOfSpace);
        }
        proof {
            vstd::bytes::lemma_auto_spec_u16_to_from_le_bytes();
        }
        let _ = b.append_u16(self.cube as u16);
        let _ = b.append_u16(self.ship as u16);
        let _ = b.append_u16(self.ball as u16);
        let _ = b.append_u16(self.ufo as u16);
        let _ = b.append_u16(self.wave as u16);
        let _ = b.append_u16(self.robot as u16);
        let _ = b.append_u16(self.spider as u16);
        let _ = b.append_u16(self.swing as u16);
        let _ = b.append_u16(self.jetpack as u16);
        let _ = b.append_u16(self.color1);
        let _ = b.append_u16(self.color2);
        let _ = b.append_u16(self.glow_color);
        let _ = b.append_u8(self.death_effect);
        let _ = b.append_u8(self.trail);
        let _ = b.append_u8(self.ship_trail);
        let _ = b.append_zeros(5);
        assert(final(b).contents() =~= old(b).contents() + spec_icon_bytes(*self));
        Ok(())
    }
}

/// What a display-data record says, with its username as the character
/// sequence it holds.
pub struct PlayerDisplayDataView {
    pub account_id: i32,
    pub user_id: i32,
    pub username: Seq<char>,
    pub icons: PlayerIconData,
}

/// A player's display data: identity, username, and icons.
#[derive(Clone, Debug, PartialEq)]
pub struct PlayerDisplayData {
    pub account_id: i32,
    pub user_id: i32,
    pub username: String,
    pub icons: PlayerIconData,
}

impl View for PlayerDisplayData {
    type V = PlayerDisplayDataView;

    open spec fn view(&self) -> PlayerDisplayDataView {
        PlayerDisplayDataView {
            account_id: self.account_id,
            user_id: self.user_id,
            username: self.username@,
            icons: self.icons,
        }
    }
}

impl PlayerDisplayDataView {
    /// The username fits its fixed byte capacity.
    pub open spec fn wf(&self) -> bool {
        encode_utf8(self.username).len() <= USERNAME_CAPACITY
    }
}

/// The unpacked layout of a display-data record: the two 32-bit
/// identifiers, the username as a length byte and its bytes inside a
/// zero-padded fixed-capacity area, then the icon record.
pub open spec fn spec_display_bytes(v: PlayerDisplayDataView) -> Seq<u8>
    recommends
        v.wf(),
{
    let uname = encode_utf8(v.username);
    spec_u32_to_le_bytes(v.account_id as u32) + spec_u32_to_le_bytes(v.user_id as u32) + seq![
        uname.len() as u8,
    ] + uname + spec_zeros(39 - uname.len()) + spec_icon_bytes(v.icons)
}

/// Reads a display-data record back from its unpacked layout, validating
/// the username's encoding and length. The text is examined first, so an
/// invalid encoding is reported before an overlong name; only a length
/// byte that runs past the record's 39-byte username area - where there
/// is no text to examine - is reported as overlong outright.
pub open spec fn spec_display_from_bytes(b: Seq<u8>) -> Result<
    PlayerDisplayDataView,
    DataDecodeError,
>
    recommends
        b.len() >= DISPLAY_DATA_BYTES,
{
    let ulen = b[8] as int;
    if ulen > 39 {
        Err(DataDecodeError::StringTooLong(b[8] as usize, USERNAME_CAPACITY))
    } else if !valid_utf8(b.subrange(9, 9 + ulen)) {
        Err(DataDecodeError::InvalidUtf8)
    } else if ulen > USERNAME_CAPACITY {
        Err(DataDecodeError::StringTooLong(b[8] as usize, USERNAME_CAPACITY))
    } else {
        Ok(
            PlayerDisplayDataView {
                account_id: spec_u32_from_le_bytes(b.subrange(0, 4)) as i32,
                user_id: spec_u32_from_le_bytes(b.subrange(4, 8)) as i32,
                username: decode_utf8(b.subrange(9, 9 + ulen)),
                icons: spec_icon_from_bytes(b.subrange(48, 80)),
            },
        )
    }
}

/// Reading a display-data record back from its own layout recovers it
/// exactly, whenever its username fits the capacity.
pub proof fn lemma_display_round_trip(v: PlayerDisplayDataView)
    requires
        v.wf(),
    ensures
        spec_display_bytes(v).len() == DISPLAY_DATA_BYTES,
        spec_display_from_bytes(spec_display_bytes(v)) == Ok::<
            PlayerDisplayDataView,
            DataDecodeError,
        >(v),
{
    lemma_auto_spec_u32_to_from_le_bytes();
    lemma_auto_spec_u16_to_from_le_bytes();
    lemma_icon_round_trip(v.icons);
    let b = spec_display_bytes(v);
    let uname = encode_utf8(v.username);
    let ulen = uname.len() as int;
    assert(b[8] == ulen as u8);
    assert(b.subrange(0, 4) =~= spec_u32_to_le_bytes(v.account_id as u32));
    assert(b.subrange(4, 8) =~= spec_u32_to_le_bytes(v.user_id as u32));
    assert(b.subrange(9, 9 + ulen) =~= uname);
    vstd::utf8::encode_utf8_valid_utf8(v.username);
    vstd::utf8::encode_utf8_decode_utf8(v.username);
    assert(b.subrange(48, 80) =~= spec_icon_bytes(v.icons));
    assert(forall|x: i32| #[trigger] ((x as u32) as i32) == x) by (bit_vector);
}

impl PlayerDisplayData {
    /// Reads a display-data record at `base` in an unpacked buffer.
    pub fn from_reader(buf: &[u8], base: usize) -> (r: Result<PlayerDisplayData, DataDecodeError>)
        requires
            base + DISPLAY_DATA_BYTES <= buf@.len(),
        ensures
            ({
                let spec = spec_display_from_bytes(
                    buf@.subrange(base as int, base + DISPLAY_DATA_BYTES),
                );
                match r {
                    Ok(d) => spec == Ok::<PlayerDisplayDataView, DataDecodeError>(d@) && d@.wf(),
                    Err(e) => spec == Err::<PlayerDisplayDataView, DataDecodeError>(e),
                }
            }),
    {
        let len = buf.len();
        let ghost w = buf@.subrange(base as int, base + DISPLAY_DATA_BYTES);
        let account_id = u32_from_le_bytes(slice_subrange(buf, base, base + 4)) as i32;
        let user_id = u32_from_le_bytes(slice_subrange(buf, base + 4, base + 8)) as i32;
        let ulen = *vstd::slice::slice_index_get(buf, base + 8) as usize;
        proof {
            assert(buf@.subrange(base as int, base + 4) =~= w.subrange(0, 4));
            assert(buf@.subrange(base + 4, base + 8) =~= w.subrange(4, 8));
            assert(buf@[base + 8] == w[8]);
        }
        if ulen > 39 {
            return Err(DataDecodeError::StringTooLong(ulen, USERNAME_CAPACITY));
        }
        let uname_bytes = slice_subrange(buf, base + 9, base + 9 + ulen);
        proof {
            assert(uname_bytes@ =~= w.subrange(9, 9 + ulen as int));
        }
        let username = match string_from_utf8(vstd::slice::slice_to_vec(uname_bytes)) {
            Ok(s) => s,
            Err(_) => {
                return Err(DataDecodeError::InvalidUtf8);
            },
        };
        if ulen > USERNAME_CAPACITY {
            return Err(DataDecodeError::StringTooLong(ulen, USERNAME_CAPACITY));
        }
        let icons = match PlayerIconData::from_reader(buf, base + 48) {
            Ok(i) => i,
            Err(_) => {
                return Err(DataDecodeError::ValidationFailed);
            },
        };
        proof {
            assert(buf@.subrange(base + 48, base + 48 + ICON_DATA_BYTES) =~= w.subrange(48, 80));
            vstd::utf8::decode_utf8_encode_utf8(w.subrange(9, 9 + ulen as int));
        }
        Ok(PlayerDisplayData { account_id, user_id, username, icons })
    }

    /// Appends this record's unpacked layout to the builder.
    pub fn encode(&self, b: &mut MessageBuilder) -> (r: Result<(), BuildFault>)
        requires
            old(b).wf(),
            self@.wf(),
        ensures
            final(b).wf(),
            final(b).capacity() == old(b).capacity(),
            r is Ok <==> old(b).spec_len() + DISPLAY_DATA_BYTES <= old(b).capacity(),
            r is Ok ==> final(b).contents() == old(b).contents() + spec_display_bytes(self@),
            r matches Err(f) ==> *final(b) == *old(b) && f == BuildFault::OutOfSpace,
    {
        proof {
            old(b).lemma_wf();
        }
        if b.capacity_bytes() - b.built_len() < DISPLAY_DATA_BYTES {
            return Err(BuildFault::OutOfSpace);
        }
        proof {
            vstd::bytes::lemma_auto_spec_u16_to_from_le_bytes();
            vstd::bytes::lemma_auto_spec_u32_to_from_le_bytes();
        }
        let uname = self.username.as_str().as_bytes();
        let ulen = uname.len();
        let _ = b.append_u32(self.account_id as u32);
        let _ = b.append_u32(self.user_id as u32);
        let _ = b.append_u8(ulen as u8);
        let _ = b.append_bytes(uname);
        let _ = b.append_zeros(39 - ulen);
        let _ = self.icons.encode(b);
        assert(final(b).contents() =~= old(b).contents() + spec_display_bytes(self@));
        Ok(())
    }
}

} // verus!
