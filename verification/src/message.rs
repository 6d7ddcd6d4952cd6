//! Messages between the device and a controller, as far as the library reads
//! or makes them.
//!
//! `X` stands for payloads that the library hands through without looking
//! inside: input events, directory entries, file blocks and the like.

use vstd::prelude::*;

verus! {

/// The controller's half of the key exchange.
pub struct PublicKey {
    pub asymmetric_value: Vec<u8>,
    pub symmetric_value: Vec<u8>,
}

/// The directory that a file-transfer session starts in.
pub struct FileTransfer {
    pub dir: String,
    pub show_hidden: bool,
}

/// A controller's request to log in.
pub struct LoginRequest {
    pub my_name: String,
    pub password: Vec<u8>,
    /// Present when the session is for file transfer only.
    pub file_transfer: Option<FileTransfer>,
}

/// A request of the controller on the device's files.
pub enum FileAction<X> {
    ReadDir { path: String, include_hidden: bool },
    AllFiles { id: i32, path: String, include_hidden: bool },
    /// The controller downloads: the device reads files.
    Send { id: i32, path: String, include_hidden: bool },
    /// The controller uploads: the device writes files.
    Receive { id: i32, path: String, files: Vec<X>, file_num: i32 },
    SendConfirm { id: i32, confirm: X },
    Cancel { id: i32 },
    RemoveDir { id: i32, path: String, recursive: bool },
    RemoveFile { id: i32, path: String, file_num: i32 },
    Create { id: i32, path: String },
    Rename { id: i32, path: String, new_name: String },
    /// An action that the device does not know.
    Other,
    /// No action at all.
    Empty,
}

/// A message of the controller about a file that it sends.
pub enum FileResponse<X> {
    Block { id: i32, file_num: i32, block: X },
    Digest { id: i32, digest: X },
    Done { id: i32, file_num: i32 },
    Error { id: i32 },
    /// Anything else, or nothing.
    Other,
}

/// A message that came in.
pub enum Incoming<X> {
    PublicKey(PublicKey),
    LoginRequest(LoginRequest),
    MouseEvent(X),
    KeyEvent(X),
    TestDelay { last_delay: u32 },
    Misc { close_reason: bool },
    FileAction(FileAction<X>),
    FileResponse(FileResponse<X>),
    /// A message that the device does not handle.
    Other,
    /// A message without content.
    Empty,
}

/// A screen of the device.
pub struct DisplayInfo {
    pub x: i32,
    pub y: i32,
    pub width: i32,
    pub height: i32,
    pub name: String,
    pub online: bool,
}

/// What a controller learns about the device when it has logged in.
pub struct PeerInfo {
    pub username: String,
    pub hostname: String,
    pub platform: String,
    pub current_display: i32,
    pub sas_enabled: bool,
    pub version: String,
    pub displays: Vec<DisplayInfo>,
    /// Whether the device can encode H.264.
    pub h264: bool,
}

/// One encoded picture.
pub struct EncodedFrame {
    pub data: Vec<u8>,
    pub key: bool,
    pub pts: i64,
}

/// A message that goes out.
pub enum Message<X> {
    SignedId { signed: Vec<u8> },
    Hash { salt: String, challenge: String },
    LoginOk(PeerInfo),
    LoginError { error: String },
    TestDelay { from_client: bool, last_delay: u32 },
    /// H.264 pictures of one display.
    VideoFrame { display: i32, h264s: Vec<EncodedFrame> },
    Dir { id: i32, path: String, entries: Vec<X> },
    TransferError { id: i32, error: String, file_num: i32 },
    TransferDone { id: i32, file_num: i32 },
    /// A message of the file-transfer module: a block, a digest, a confirmation.
    Transfer(X),
}

/// The answer to a login that failed.
pub fn login_err_msg<X>(err: &str) -> (r: Message<X>)
    ensures
        r matches Message::LoginError { error } && error@ == err@,
{
    Message::LoginError { error: err.to_string() }
}

/// The message with one encoded picture of the first display.
pub fn video_frame_msg<X>(frame: EncodedFrame) -> (r: Message<X>)
    ensures
        r matches Message::VideoFrame { display, h264s } && display == 0 && h264s@ == seq![frame],
{
    let mut h264s: Vec<EncodedFrame> = Vec::new();
    h264s.push(frame);
    Message::VideoFrame { display: 0, h264s }
}

} // verus!
