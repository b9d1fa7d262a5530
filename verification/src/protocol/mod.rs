//! The IPMsg/Feiq wire protocol: command numbers, the packet text format,
//! file attachment metadata and message payloads.
pub mod codec;
pub mod message;
pub mod transcoder;

pub use codec::{
    parse_file_attachments, serialize_file_attachment, serialize_file_attachments, IPMsgPacket,
};
pub use message::{
    get_clipboard_downloads, parse_getfiledata_extra, parse_incoming_message, GetFileDataRequest,
};
pub use crate::types::format_file_size;
pub use transcoder::{GbkTranscoder, TextTranscoder, Utf8Transcoder};
pub use crate::types::FileAttachment;

use vstd::prelude::*;

verus! {

/// The protocol version that every packet carries.
pub const IPMSG_VERSION: &'static str = "1";

/// The default UDP/TCP port of the protocol.
pub const IPMSG_PORT: u16 = 2425;

pub const IPMSG_NOOPERATION: u32 = 0x00000000;
pub const IPMSG_BR_ENTRY: u32 = 0x00000001;
pub const IPMSG_BR_EXIT: u32 = 0x00000002;
pub const IPMSG_ANSENTRY: u32 = 0x00000003;
pub const IPMSG_SENDMSG: u32 = 0x00000020;
pub const IPMSG_RECVMSG: u32 = 0x00000021;
pub const IPMSG_GETFILEDATA: u32 = 0x00000060;
/// Feiq: the peer started typing.
pub const IPMSG_INPUTING: u32 = 0x00000079;
/// Feiq: the peer stopped typing.
pub const IPMSG_INPUT_END: u32 = 0x0000007A;
/// Feiq: a window knock (screen nudge).
pub const IPMSG_KNOCK: u32 = 0x000000D1;

/// Option flag: the sender asks for a `RECVMSG` acknowledgement.
pub const IPMSG_SENDCHECKOPT: u32 = 0x00000100;
/// Option flag: the message carries file attachments.
pub const IPMSG_FILEATTACHOPT: u32 = 0x00200000;

/// File attribute: a regular file.
pub const IPMSG_FILE_REGULAR: u32 = 0x00000001;
/// File attribute: a directory.
pub const IPMSG_FILE_DIR: u32 = 0x00000002;
/// File attribute: return to the parent directory (directory transfer).
pub const IPMSG_FILE_RETPARENT: u32 = 0x00000003;
/// File attribute flag: an inline clipboard image.
pub const IPMSG_FILE_CLIPBOARD: u32 = 0x00000020;

} // verus!
