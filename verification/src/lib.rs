//! Zero-copy message construction and framing for a game-server process
//! family: pluggable allocation strategies backing a single outgoing
//! message, an encode pipeline that frames packed message bytes behind a
//! varint length prefix, and the matching decode pipeline that validates,
//! unpacks and dispatches incoming bytes.

pub mod allocators;
pub mod builder;
pub mod bytes;
pub mod config;
pub mod constants;
pub mod data;
pub mod encoding;
pub mod hmac_signer;
pub mod multi_color;
pub mod pack;
pub mod schema;
pub mod session_id;
pub mod token_issuer;
pub mod user_settings;

pub use allocators::{AllocFault, Allocator, CapnpAlloc, CapnpBorrowAlloc, CapnpHeapAlloc};
pub use builder::{BuildFault, MessageBuilder};
pub use config::{make_memory_limits, make_udp_memory_limits};
pub use bytes::{ByteReader, ByteReadError, ByteWriter};
pub use constants::{MAX_ROOM_NAME_LENGTH, MAX_USERNAME_LENGTH};
pub use data::{GameServerData, PlayerDisplayData, PlayerDisplayDataView, PlayerIconData};
pub use encoding::{builder, builder_borrow, builder_dyn, decode_message, encode_with_builder, encode_message, encode_message_dyn, encode_message_heap, encode_message_unsafe, encode_message_with, DataDecodeError, EncodeMessageError};
pub use hmac_signer::HmacSigner;
pub use multi_color::{ColorVec, MultiColor, MultiColorDecodeError, MultiColorParseError, MultiColorView, RGBColor};
pub use schema::{DispatchTable, Message, MessageView};
pub use session_id::SessionId;
pub use token_issuer::{parse_token_payload, TokenData, TokenDataView, TokenIssuer, TokenValidationError};
pub use user_settings::UserSettings;


