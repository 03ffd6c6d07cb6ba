//! Decisions of the messenger facade that do not touch the network: which
//! events report a file transfer, and where a received file is stored.
use vstd::prelude::*;
use vstd::string::StringExecFns;
use crate::error::{error_text, P2PError, P2PResult};
use crate::events::P2PEvent;
use crate::protocol::{Message, MessageContent};

verus! {

/// Directory, relative to the working directory, that received files go to.
pub const RECEIVED_DIR: &'static str = "recibidos";

/// The event that opens the transfer of the file message `msg` to `peer_id`,
/// sent before the message is queued.
pub fn file_transfer_started(peer_id: &String, msg: &Message) -> (ev: P2PEvent)
    requires
        msg.content is File,
    ensures
        match msg.content {
            MessageContent::File { filename, data } => ev == (P2PEvent::FileTransferStarted {
                peer_id: *peer_id,
                filename,
                size: data@.len() as u64,
            }),
            _ => false,
        },
{
    match &msg.content {
        MessageContent::File { filename, data } => P2PEvent::FileTransferStarted {
            peer_id: peer_id.clone(),
            filename: filename.clone(),
            size: data.len() as u64,
        },
        _ => P2PEvent::Error(String::new()),
    }
}

/// The events that close the transfer of the file message `msg` to `peer_id`
/// once queuing it gave `outcome`: on success the transfer completes and the
/// message counts as sent, in that order; on failure the transfer fails with
/// the error's text.
pub fn file_transfer_finished(peer_id: &String, msg: Message, outcome: &P2PResult<()>) -> (r: Vec<P2PEvent>)
    requires
        msg.content is File,
    ensures
        match msg.content {
            MessageContent::File { filename, .. } => match outcome {
                Ok(_) => r@ == seq![
                    P2PEvent::FileTransferCompleted { peer_id: *peer_id, filename },
                    P2PEvent::MessageSent(msg),
                ],
                Err(e) => r@.len() == 1 && (r@[0] matches P2PEvent::FileTransferFailed { peer_id: p, filename: f, error }
                    && p == *peer_id && f == filename && error@ == error_text(*e)),
            },
            _ => false,
        },
{
    let filename = match &msg.content {
        MessageContent::File { filename, .. } => filename.clone(),
        _ => String::new(),
    };
    let mut out: Vec<P2PEvent> = Vec::new();
    match outcome {
        Ok(_) => {
            out.push(P2PEvent::FileTransferCompleted { peer_id: peer_id.clone(), filename });
            out.push(P2PEvent::MessageSent(msg));
        },
        Err(e) => {
            out.push(P2PEvent::FileTransferFailed { peer_id: peer_id.clone(), filename, error: e.describe() });
        },
    }
    out
}

/// Where a received message's file is stored: `dir/filename`. Anything but
/// a file message is rejected as invalid.
pub fn received_file_path(msg: &Message, dir: &str) -> (r: P2PResult<String>)
    ensures
        match msg.content {
            MessageContent::File { filename, .. } => r matches Ok(path) && path@ == dir@ + "/"@ + filename@,
            _ => r == Err::<String, P2PError>(P2PError::InvalidMessage),
        },
{
    match &msg.content {
        MessageContent::File { filename, .. } => Ok(dir.to_owned().concat("/").concat(filename.as_str())),
        _ => Err(P2PError::InvalidMessage),
    }
}

} // verus!
