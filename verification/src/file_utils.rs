//! Result shaping for the upload path.
//!
//! An upload hands the payload to the backend as a document attachment; the
//! backend answers with the pair of identifiers that addresses the stored
//! message from then on. This module turns that answer into the value the
//! caller keeps, and passes a rejection through verbatim.

use vstd::prelude::*;

verus! {

/// The two-integer address of a stored object: the storage channel and the
/// message holding the document attachment.
#[derive(Clone, Copy, Debug, PartialEq, Eq, Structural)]
pub struct MessageInfo {
    pub chat_id: i64,
    pub message_id: i32,
}

/// The durable handle returned to an uploader.
#[derive(Clone, Debug, PartialEq, Eq)]
pub struct UploadedFile {
    /// Which storage backend holds the object.
    pub backend: String,
    /// The address of the stored object within that backend.
    pub data: MessageInfo,
}

/// What the backend answered to a document-send request, as plain values.
pub enum SendOutcome {
    /// The backend stored the document in the given chat under the given
    /// message identifier.
    Sent { chat_id: i64, message_id: i32 },
    /// The backend declined; `message` is its own description, verbatim.
    Rejected { message: String },
}

/// Turns the backend's answer to a document-send into the upload result:
/// success yields the addressing pair, a rejection is passed through
/// unchanged, and no retry happens here.
pub fn upload_outcome(outcome: SendOutcome) -> (r: Result<UploadedFile, String>)
    ensures
        (outcome matches SendOutcome::Sent { chat_id, message_id } ==> {
            &&& r matches Ok(u)
            &&& u.backend@ == "bot"@
            &&& u.data.chat_id == chat_id
            &&& u.data.message_id == message_id
        }),
        (outcome matches SendOutcome::Rejected { message } ==> {
            &&& r matches Err(m)
            &&& m@ == message@
        }),
{
    match outcome {
        SendOutcome::Sent { chat_id, message_id } => Ok(UploadedFile {
            backend: "bot".to_owned(),
            data: MessageInfo { chat_id, message_id },
        }),
        SendOutcome::Rejected { message } => Err(message),
    }
}

} // verus!
