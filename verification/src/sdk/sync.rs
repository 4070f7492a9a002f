//! The adapter-owned data exchange boundary.
use vstd::prelude::*;
use crate::manifest::AppId;
use crate::path::FilePath;
use crate::path::joined;
use crate::sdk::frame::{announced_length, encode_frame};
use crate::sdk::frame::{big_endian_value, frame_of, valid_length};
use crate::text::decimal_text;
use crate::text::decimal;

verus! {

/// Narrow client for the adapter-owned data exchange boundary, separate from
/// the manager UI and its control API.
#[derive(Debug)]
pub struct SyncClient {
    pub socket: FilePath,
    pub requester: AppId,
    pub provider: AppId,
}

/// What is asked of a provider.
#[derive(Clone, Debug, PartialEq, Eq)]
pub enum SyncAction {
    Prepare,
    Export { output: FilePath },
    Import { input: FilePath },
    Finish,
}

/// A request to the broker.
#[derive(Debug, PartialEq, Eq)]
pub struct SyncRequest {
    pub requester: AppId,
    pub provider: AppId,
    pub action: SyncAction,
}

/// What the broker answered.
#[derive(Debug, PartialEq, Eq)]
pub enum SyncReply {
    Output { success: bool, output: String },
    Error { message: String },
    Other,
}

/// Why an exchange fails.
#[derive(Debug, PartialEq, Eq)]
pub enum SyncError {
    FrameLength(usize),
    Rejected(String),
    UnexpectedResponse,
    Io(String),
    Json(String),
}

impl SyncClient {
    /// The client of one requester towards one provider.
    pub fn new(socket: FilePath, requester: AppId, provider: AppId) -> (r: SyncClient)
        ensures
            r.socket == socket,
            r.requester == requester,
            r.provider == provider,
    {
        SyncClient { socket, requester, provider }
    }

    /// The directory in which the requester exchanges data.
    pub fn exchange_root(data_home: &FilePath) -> (r: FilePath)
        ensures
            r@ == joined(data_home@, "sync-exchange"@),
    {
        data_home.join("sync-exchange")
    }

    /// The request that carries an action.
    pub fn request(&self, action: SyncAction) -> (r: SyncRequest)
        ensures
            r.requester == self.requester,
            r.provider == self.provider,
            r.action == action,
    {
        SyncRequest {
            requester: self.requester.clone(),
            provider: self.provider.clone(),
            action,
        }
    }

    /// What an answer means.
    pub fn conclude(reply: SyncReply) -> (r: Result<String, SyncError>)
        ensures
            match reply {
                SyncReply::Output { success, output } => if success {
                    r == Ok::<String, SyncError>(output)
                } else {
                    r == Err::<String, SyncError>(SyncError::Rejected(output))
                },
                SyncReply::Error { message } => r == Err::<String, SyncError>(
                    SyncError::Rejected(message),
                ),
                SyncReply::Other => r == Err::<String, SyncError>(SyncError::UnexpectedResponse),
            },
    {
        match reply {
            SyncReply::Output { success, output } => if success {
                Ok(output)
            } else {
                Err(SyncError::Rejected(output))
            },
            SyncReply::Error { message } => Err(SyncError::Rejected(message)),
            SyncReply::Other => Err(SyncError::UnexpectedResponse),
        }
    }
}

/// The frame of a request with the given encoding.
pub fn request_frame(contents: &[u8], max_frame: usize) -> (r: Result<Vec<u8>, SyncError>)
    requires
        max_frame <= u32::MAX - 4,
    ensures
        match r {
            Ok(packet) => valid_length(contents@.len() as int, max_frame) && packet@ == frame_of(
                contents@,
            ),
            Err(e) => e == SyncError::FrameLength(contents@.len() as usize) && !valid_length(
                contents@.len() as int,
                max_frame,
            ),
        },
{
    match encode_frame(contents, max_frame) {
        Ok(packet) => Ok(packet),
        Err(length) => Err(SyncError::FrameLength(length)),
    }
}

/// The length of an answer, from the four bytes before it.
pub fn reply_length(header: &[u8], max_frame: usize) -> (r: Result<usize, SyncError>)
    requires
        header@.len() == 4,
        max_frame <= u32::MAX,
    ensures
        match r {
            Ok(length) => length == big_endian_value(header@) && valid_length(
                length as int,
                max_frame,
            ),
            Err(e) => e == SyncError::FrameLength(big_endian_value(header@) as usize)
                && !valid_length(big_endian_value(header@), max_frame),
        },
{
    match announced_length(header, max_frame) {
        Ok(length) => Ok(length),
        Err(length) => Err(SyncError::FrameLength(length)),
    }
}

impl SyncError {
    /// The reason in words.
    pub open spec fn text(self) -> Seq<char> {
        match self {
            SyncError::FrameLength(a) => "sync frame length is invalid: "@ + decimal(a as nat),
            SyncError::Rejected(a) => "sync request was rejected: "@ + a@,
            SyncError::UnexpectedResponse => "sync broker returned an unexpected response"@,
            SyncError::Io(a) => a@,
            SyncError::Json(a) => a@,
        }
    }

    /// The reason in words.
    pub fn message(&self) -> (r: String)
        ensures
            r@ == self.text(),
    {
        match self {
            SyncError::FrameLength(a) => {
                let mut message = "sync frame length is invalid: ".to_owned();
                message.append(decimal_text(*a as u64).as_str());
                message
            },
            SyncError::Rejected(a) => {
                let mut message = "sync request was rejected: ".to_owned();
                message.append(a.as_str());
                message
            },
            SyncError::UnexpectedResponse => "sync broker returned an unexpected response".to_owned(),
            SyncError::Io(a) => {
                let mut message = String::new();
                message.append(a.as_str());
                message
            },
            SyncError::Json(a) => {
                let mut message = String::new();
                message.append(a.as_str());
                message
            },
        }
    }
}

} // verus!
