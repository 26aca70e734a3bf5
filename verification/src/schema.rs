//! The message schema: the root union of known message variants, its
//! word-aligned unpacked layout, and the runtime dispatch table that says
//! which variants the caller handles.

use vstd::prelude::*;

verus! {

use vstd::bytes::{
    spec_u16_from_le_bytes,
    spec_u16_to_le_bytes,
    u16_from_le_bytes,
    lemma_auto_spec_u16_to_from_le_bytes,
};
use vstd::slice::slice_subrange;

use crate::builder::{spec_zeros, BuildFault, MessageBuilder};
use crate::data::{
    spec_display_bytes,
    spec_display_from_bytes,
    spec_icon_bytes,
    spec_icon_from_bytes,
    lemma_display_round_trip,
    lemma_icon_round_trip,
    PlayerDisplayData,
    PlayerDisplayDataView,
    PlayerIconData,
    DISPLAY_DATA_BYTES,
    ICON_DATA_BYTES,
};
use crate::encoding::DataDecodeError;
use crate::user_settings::{
    spec_settings_bytes,
    spec_settings_from_bytes,
    lemma_settings_round_trip,
    UserSettings,
    SETTINGS_BYTES,
};

/// The size of the root word, in bytes.
pub const ROOT_BYTES: usize = 8;

/// The root discriminant of an icon-data message.
pub const DISC_ICON_DATA: u16 = 0;

/// The root discriminant of a display-data message.
pub const DISC_DISPLAY_DATA: u16 = 1;

/// The root discriminant of a settings message.
pub const DISC_SETTINGS: u16 = 2;

/// The root union of known message variants.
#[derive(Clone, Debug, PartialEq)]
pub enum Message {
    IconData(PlayerIconData),
    DisplayData(PlayerDisplayData),
    Settings(UserSettings),
}

/// What a message says, with strings as character sequences.
pub enum MessageView {
    IconData(PlayerIconData),
    DisplayData(PlayerDisplayDataView),
    Settings(UserSettings),
}

impl View for Message {
    type V = MessageView;

    open spec fn view(&self) -> MessageView {
        match self {
            Message::IconData(d) => MessageView::IconData(*d),
            Message::DisplayData(d) => MessageView::DisplayData(d@),
            Message::Settings(s) => MessageView::Settings(*s),
        }
    }
}

impl MessageView {
    /// Every variable-capacity field of the message fits its capacity.
    pub open spec fn wf(&self) -> bool {
        match self {
            MessageView::DisplayData(v) => v.wf(),
            _ => true,
        }
    }

    /// The message's exact serialized (unpacked) size in bytes.
    pub open spec fn unpacked_len(&self) -> nat {
        match self {
            MessageView::IconData(_) => (ROOT_BYTES + ICON_DATA_BYTES) as nat,
            MessageView::DisplayData(_) => (ROOT_BYTES + DISPLAY_DATA_BYTES) as nat,
            MessageView::Settings(_) => (ROOT_BYTES + SETTINGS_BYTES) as nat,
        }
    }
}

/// The unpacked layout of a whole message: a root word holding the
/// variant's discriminant, then the variant's record.
pub open spec fn spec_message_unpacked(m: MessageView) -> Seq<u8>
    recommends
        m.wf(),
{
    match m {
        MessageView::IconData(d) => spec_u16_to_le_bytes(DISC_ICON_DATA) + spec_zeros(6)
            + spec_icon_bytes(d),
        MessageView::DisplayData(v) => spec_u16_to_le_bytes(DISC_DISPLAY_DATA) + spec_zeros(6)
            + spec_display_bytes(v),
        MessageView::Settings(s) => spec_u16_to_le_bytes(DISC_SETTINGS) + spec_zeros(6)
            + spec_settings_bytes(s),
    }
}

/// The runtime dispatch table: which known variants the caller has
/// registered handling for. Built once at startup; decoding a message
/// whose variant is unregistered fails with `NoMessageHandler`.
#[derive(Clone, Copy, PartialEq, Eq, Structural, Debug)]
pub struct DispatchTable {
    pub icon_data: bool,
    pub display_data: bool,
    pub settings: bool,
}

impl DispatchTable {
    /// A table that handles every known variant.
    pub fn all() -> (r: DispatchTable)
        ensures
            r.icon_data && r.display_data && r.settings,
    {
        DispatchTable { icon_data: true, display_data: true, settings: true }
    }

    /// Whether the table handles the given message.
    pub open spec fn handles(&self, m: MessageView) -> bool {
        match m {
            MessageView::IconData(_) => self.icon_data,
            MessageView::DisplayData(_) => self.display_data,
            MessageView::Settings(_) => self.settings,
        }
    }

    /// Whether every known variant has registered handling: the startup
    /// exhaustiveness check.
    pub fn is_complete(&self) -> (r: bool)
        ensures
            r == (self.icon_data && self.display_data && self.settings),
    {
        self.icon_data && self.display_data && self.settings
    }
}

/// Resolves the root of an unpacked buffer: its discriminant, the
/// dispatch table's entry for it, and the variant's record. An
/// unrecognized discriminant never reaches a handler.
pub open spec fn spec_read_root(b: Seq<u8>, table: DispatchTable) -> Result<
    MessageView,
    DataDecodeError,
> {
    if b.len() < ROOT_BYTES {
        Err(DataDecodeError::InvalidDiscriminant)
    } else {
        let disc = spec_u16_from_le_bytes(b.subrange(0, 2));
        if disc == DISC_ICON_DATA {
            if !table.icon_data {
                Err(DataDecodeError::NoMessageHandler)
            } else if b.len() < ROOT_BYTES + ICON_DATA_BYTES {
                Err(DataDecodeError::InvalidStructure)
            } else {
                Ok(MessageView::IconData(spec_icon_from_bytes(b.subrange(8, 40))))
            }
        } else if disc == DISC_DISPLAY_DATA {
            if !table.display_data {
                Err(DataDecodeError::NoMessageHandler)
            } else if b.len() < ROOT_BYTES + DISPLAY_DATA_BYTES {
                Err(DataDecodeError::InvalidStructure)
            } else {
                match spec_display_from_bytes(b.subrange(8, 88)) {
                    Ok(v) => Ok(MessageView::DisplayData(v)),
                    Err(e) => Err(e),
                }
            }
        } else if disc == DISC_SETTINGS {
            if !table.settings {
                Err(DataDecodeError::NoMessageHandler)
            } else if b.len() < ROOT_BYTES + SETTINGS_BYTES {
                Err(DataDecodeError::InvalidStructure)
            } else {
                Ok(MessageView::Settings(spec_settings_from_bytes(b.subrange(8, 16))))
            }
        } else {
            Err(DataDecodeError::InvalidDiscriminant)
        }
    }
}

/// Resolves the root of an unpacked buffer and builds the typed variant.
pub fn read_root(buf: &[u8], table: &DispatchTable) -> (r: Result<Message, DataDecodeError>)
    ensures
        match r {
            Ok(m) => spec_read_root(buf@, *table) == Ok::<MessageView, DataDecodeError>(m@)
                && m@.wf(),
            Err(e) => spec_read_root(buf@, *table) == Err::<MessageView, DataDecodeError>(e),
        },
{
    let len = buf.len();
    if len < ROOT_BYTES {
        return Err(DataDecodeError::InvalidDiscriminant);
    }
    let disc = u16_from_le_bytes(slice_subrange(buf, 0, 2));
    if disc == DISC_ICON_DATA {
        if !table.icon_data {
            return Err(DataDecodeError::NoMessageHandler);
        }
        if len < ROOT_BYTES + ICON_DATA_BYTES {
            return Err(DataDecodeError::InvalidStructure);
        }
        match PlayerIconData::from_reader(buf, ROOT_BYTES) {
            Ok(d) => Ok(Message::IconData(d)),
            Err(e) => Err(e),
        }
    } else if disc == DISC_DISPLAY_DATA {
        if !table.display_data {
            return Err(DataDecodeError::NoMessageHandler);
        }
        if len < ROOT_BYTES + DISPLAY_DATA_BYTES {
            return Err(DataDecodeError::InvalidStructure);
        }
        match PlayerDisplayData::from_reader(buf, ROOT_BYTES) {
            Ok(d) => Ok(Message::DisplayData(d)),
            Err(e) => Err(e),
        }
    } else if disc == DISC_SETTINGS {
        if !table.settings {
            return Err(DataDecodeError::NoMessageHandler);
        }
        if len < ROOT_BYTES + SETTINGS_BYTES {
            return Err(DataDecodeError::InvalidStructure);
        }
        Ok(Message::Settings(UserSettings::from_reader(buf, ROOT_BYTES)))
    } else {
        Err(DataDecodeError::InvalidDiscriminant)
    }
}

impl Message {
    /// The message's exact serialized (unpacked) size in bytes.
    pub fn unpacked_size(&self) -> (n: usize)
        ensures
            n == self@.unpacked_len(),
    {
        match self {
            Message::IconData(_) => ROOT_BYTES + ICON_DATA_BYTES,
            Message::DisplayData(_) => ROOT_BYTES + DISPLAY_DATA_BYTES,
            Message::Settings(_) => ROOT_BYTES + SETTINGS_BYTES,
        }
    }
}

impl MessageBuilder {
    /// Initializes the root of the message being built: writes the
    /// variant's discriminant word and its record. Faults when a root was
    /// already initialized or when the message does not fit the segment.
    pub fn init_root(&mut self, m: &Message) -> (r: Result<(), BuildFault>)
        requires
            old(self).wf(),
            m@.wf(),
        ensures
            final(self).wf(),
            final(self).capacity() == old(self).capacity(),
            r is Ok <==> old(self).spec_len() == 0 && m@.unpacked_len() <= old(self).capacity(),
            r is Ok ==> final(self).contents() == spec_message_unpacked(m@),
            r matches Err(f) ==> *final(self) == *old(self) && (f == BuildFault::RootAlreadySet
                <==> old(self).spec_len() != 0) && (f == BuildFault::RootAlreadySet || f
                == BuildFault::OutOfSpace),
    {
        proof {
            old(self).lemma_wf();
            lemma_auto_spec_u16_to_from_le_bytes();
        }
        if self.built_len() != 0 {
            return Err(BuildFault::RootAlreadySet);
        }
        match m {
            Message::IconData(d) => {
                if self.capacity_bytes() < ROOT_BYTES + ICON_DATA_BYTES {
                    return Err(BuildFault::OutOfSpace);
                }
                let _ = self.append_u16(DISC_ICON_DATA);
                let _ = self.append_zeros(6);
                let _ = d.encode(self);
                assert(final(self).contents() =~= spec_message_unpacked(m@));
                Ok(())
            },
            Message::DisplayData(d) => {
                if self.capacity_bytes() < ROOT_BYTES + DISPLAY_DATA_BYTES {
                    return Err(BuildFault::OutOfSpace);
                }
                let _ = self.append_u16(DISC_DISPLAY_DATA);
                let _ = self.append_zeros(6);
                let _ = d.encode(self);
                assert(final(self).contents() =~= spec_message_unpacked(m@));
                Ok(())
            },
            Message::Settings(s) => {
                if self.capacity_bytes() < ROOT_BYTES + SETTINGS_BYTES {
                    return Err(BuildFault::OutOfSpace);
                }
                let _ = self.append_u16(DISC_SETTINGS);
                let _ = self.append_zeros(6);
                let _ = s.encode(self);
                assert(final(self).contents() =~= spec_message_unpacked(m@));
                Ok(())
            },
        }
    }
}

/// The unpacked layout of a message is word-aligned and exactly as long
/// as the message's serialized size.
pub proof fn lemma_message_unpacked_len(m: MessageView)
    requires
        m.wf(),
    ensures
        spec_message_unpacked(m).len() == m.unpacked_len(),
        m.unpacked_len() % 8 == 0,
        8 <= m.unpacked_len() <= 88,
{
    lemma_auto_spec_u16_to_from_le_bytes();
    match m {
        MessageView::IconData(d) => {
            lemma_icon_round_trip(d);
        },
        MessageView::DisplayData(v) => {
            lemma_display_round_trip(v);
        },
        MessageView::Settings(s) => {
            lemma_settings_round_trip(s);
        },
    }
}

/// Unknown discriminant: a root whose discriminant lies outside the known
/// variant set resolves to `InvalidDiscriminant`, never to a variant -
/// whatever the dispatch table says.
pub proof fn lemma_unknown_discriminant(b: Seq<u8>, table: DispatchTable)
    requires
        b.len() >= ROOT_BYTES,
        spec_u16_from_le_bytes(b.subrange(0, 2)) != DISC_ICON_DATA,
        spec_u16_from_le_bytes(b.subrange(0, 2)) != DISC_DISPLAY_DATA,
        spec_u16_from_le_bytes(b.subrange(0, 2)) != DISC_SETTINGS,
    ensures
        spec_read_root(b, table) == Err::<MessageView, DataDecodeError>(
            DataDecodeError::InvalidDiscriminant,
        ),
{
}

/// Resolving the root of a message's own unpacked layout recovers the
/// message, whenever its variant is registered in the table.
pub proof fn lemma_root_round_trip(m: MessageView, table: DispatchTable)
    requires
        m.wf(),
        table.handles(m),
    ensures
        spec_read_root(spec_message_unpacked(m), table) == Ok::<MessageView, DataDecodeError>(m),
{
    lemma_auto_spec_u16_to_from_le_bytes();
    lemma_message_unpacked_len(m);
    let b = spec_message_unpacked(m);
    match m {
        MessageView::IconData(d) => {
            assert(b.subrange(0, 2) =~= spec_u16_to_le_bytes(DISC_ICON_DATA));
            assert(b.subrange(8, 40) =~= spec_icon_bytes(d));
            lemma_icon_round_trip(d);
        },
        MessageView::DisplayData(v) => {
            assert(b.subrange(0, 2) =~= spec_u16_to_le_bytes(DISC_DISPLAY_DATA));
            assert(b.subrange(8, 88) =~= spec_display_bytes(v));
            lemma_display_round_trip(v);
        },
        MessageView::Settings(s) => {
            assert(b.subrange(0, 2) =~= spec_u16_to_le_bytes(DISC_SETTINGS));
            assert(b.subrange(8, 16) =~= spec_settings_bytes(s));
            lemma_settings_round_trip(s);
        },
    }
}

} // verus!
