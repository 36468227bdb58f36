//! Messages between the control client and the daemon, and their framing on
//! the socket.

use vstd::prelude::*;

use crate::decimal::{dec, push_decimal};
use crate::text::string_of_chars;
use crate::types::{HwDecPreference, ScaleMode, WallpaperKind};
use vstd::bytes::{
    lemma_auto_spec_u32_to_from_le_bytes, spec_u32_from_le_bytes, spec_u32_to_le_bytes,
    u32_from_le_bytes, u32_to_le_bytes,
};

verus! {

/// Client → daemon.
#[derive(Debug, Clone)]
pub enum Request {
    Ping,
    SetWallpaper {
        /// Output name, or `"ALL"`.
        output: String,
        path: String,
        mode: Option<ScaleMode>,
        /// Persist this assignment to the config file so it is restored on
        /// the next daemon start.
        save: bool,
    },
    Clear { output: String },
    Pause,
    Resume,
    Status,
    Shutdown,
    /// Persist the currently displayed wallpapers to the config file.
    Save,
    SetHwdec { hwdec: HwDecPreference },
}

/// Daemon → client, with the status payload left to the caller.
#[derive(Debug, Clone)]
pub enum Reply {
    Ack { message: Option<String> },
    Error { message: String },
    /// The daemon's status (assembled by the caller).
    Status,
    Pong,
}

/// One output as the daemon reports it.
#[derive(Debug, Clone)]
pub struct OutputStatus {
    pub name: String,
    pub width: i32,
    pub height: i32,
    pub refresh_mhz: i32,
    pub path: Option<String>,
    pub kind: Option<WallpaperKind>,
    pub mode: ScaleMode,
    pub playing: bool,
}

/// Largest payload a frame may carry.
pub const MAX_MSG: u32 = 16 * 1024 * 1024;

/// IPC failures.
#[derive(Debug, Clone)]
pub enum IpcError {
    /// The transport failed.
    Io(String),
    /// The peer broke the framing rules.
    Protocol(String),
    /// The payload was not a valid message.
    Json(String),
}

/// The frame of a payload of at most `MAX_MSG` bytes: its length as four
/// little-endian bytes, then the payload.
pub open spec fn spec_frame(payload: Seq<u8>) -> Seq<u8> {
    spec_u32_to_le_bytes(payload.len() as u32) + payload
}

/// Frames a serialized message; payloads longer than `MAX_MSG` are refused.
pub fn encode_frame(payload: &[u8]) -> (r: Result<Vec<u8>, IpcError>)
    ensures
        payload@.len() > MAX_MSG ==> (r matches Err(IpcError::Protocol(m)) && m@
            == "message too large"@),
        payload@.len() <= MAX_MSG ==> (r matches Ok(f) && f@ == spec_frame(payload@)),
{
    if payload.len() as u64 > MAX_MSG as u64 {
        return Err(IpcError::Protocol(String::from_str("message too large")));
    }
    let len: u32 = payload.len() as u32;
    let mut out = u32_to_le_bytes(len);
    let mut i: usize = 0;
    while i < payload.len()
        invariant
            i <= payload@.len(),
            out@ == spec_u32_to_le_bytes(len) + payload@.take(i as int),
        decreases payload@.len() - i,
    {
        out.push(payload[i]);
        i = i + 1;
        assert(out@ =~= spec_u32_to_le_bytes(len) + payload@.take(i as int));
    }
    assert(payload@.take(i as int) =~= payload@);
    Ok(out)
}

/// The payload length announced by a frame header; lengths above `MAX_MSG`
/// are refused.
pub fn frame_length(header: &[u8]) -> (r: Result<u32, IpcError>)
    requires
        header@.len() == 4,
    ensures
        spec_u32_from_le_bytes(header@) > MAX_MSG ==> (r matches Err(IpcError::Protocol(m)) && m@
            == "message length "@ + dec(spec_u32_from_le_bytes(header@) as nat) + " exceeds limit"@),
        spec_u32_from_le_bytes(header@) <= MAX_MSG ==> r == Ok::<u32, IpcError>(
            spec_u32_from_le_bytes(header@),
        ),
{
    let len = u32_from_le_bytes(header);
    if len > MAX_MSG {
        let mut m: Vec<char> = Vec::new();
        let mut msg = String::from_str("message length ");
        push_decimal(&mut m, len as u64);
        msg.append(string_of_chars(&m).as_str());
        msg.append(" exceeds limit");
        return Err(IpcError::Protocol(msg));
    }
    Ok(len)
}

/// What a frame's reader gets back: a payload framed without error is
/// announced with its own length, and follows the header unchanged.
pub proof fn frame_round_trip(payload: Seq<u8>)
    requires
        payload.len() <= MAX_MSG,
    ensures
        spec_frame(payload).len() == 4 + payload.len(),
        spec_u32_from_le_bytes(spec_frame(payload).take(4)) == payload.len(),
        spec_frame(payload).skip(4) == payload,
{
    lemma_auto_spec_u32_to_from_le_bytes();
    let h = spec_u32_to_le_bytes(payload.len() as u32);
    assert(spec_frame(payload).take(4) =~= h);
    assert(spec_frame(payload).skip(4) =~= payload);
}

} // verus!
