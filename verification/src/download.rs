//! Download path: the retrieval protocol as a state machine.
//!
//! The backend only exposes attachment bytes relative to a currently
//! resolvable message, so a download first forwards the stored message into
//! a temporary channel, registers the forwarded copy for later cleanup,
//! resolves the copy's attachment to a local path, and finally opens a
//! sequential byte stream over it. Each backend call is a suspension point
//! performed outside this module; the decisions in between are the pure
//! transition function here, so the outcome of one download depends on its
//! own state and events alone. There are no retries: one invocation is one
//! best-effort pass.

use vstd::prelude::*;

verus! {

/// Where a single download stands.
#[derive(Clone, Debug, PartialEq, Eq)]
pub enum DownloadState {
    /// The forward of the referenced message has been requested.
    Requesting { chat_id: i64, message_id: i32 },
    /// The transient copy exists and carries a document attachment.
    Forwarded { message_id: i32, transient_message_id: i32, file_id: String },
    /// The attachment has been resolved to a readable location.
    AttachmentResolved { path: String },
    /// The byte stream is open and flowing to the caller.
    Streaming,
    /// The stream ended; the download is complete.
    Done,
    /// The referenced object is not retrievable: deleted upstream, or not a
    /// document-carrying message this service produced.
    NotFound,
    /// An unexpected backend error; `message` is the backend's description.
    Failed { message: String },
}

/// What the backend reported back, as plain values.
#[derive(Clone, Debug, PartialEq, Eq)]
pub enum DownloadEvent {
    /// The forward went through; the copy carries the given document's file
    /// identifier, or none if the message has no document attachment.
    ForwardSucceeded { transient_message_id: i32, document_file_id: Option<String> },
    /// The forward failed because the referenced message no longer exists.
    ForwardSourceMissing,
    /// The attachment was resolved to a readable path.
    FileInfoResolved { path: String },
    /// The byte stream over the resolved path is open.
    StreamOpened,
    /// The byte stream was fully delivered.
    StreamFinished,
    /// Any other backend failure, with the backend's description.
    BackendFailed { message: String },
}

/// What the surrounding process must do next.
#[derive(Clone, Debug, PartialEq, Eq)]
pub enum DownloadAction {
    /// Forward the referenced message into the temporary channel.
    ForwardMessage { from_chat_id: i64, message_id: i32 },
    /// Register the transient copy for cleanup, then fetch the attachment's
    /// location from the backend.
    RegisterAndFetch { original_message_id: i32, transient_message_id: i32, file_id: String },
    /// Open a sequential byte stream over the resolved path.
    OpenStream { path: String },
    /// Hand the open stream to the caller.
    DeliverStream,
    /// Answer the caller with "not found" — an absent result, not a fault.
    DeliverNotFound,
    /// Answer the caller with a failure carrying the backend's description.
    DeliverError { message: String },
    /// Nothing remains to be done.
    Finish,
}

/// A state from which no further event is expected.
pub open spec fn is_terminal(s: DownloadState) -> bool {
    s is Done || s is NotFound || s is Failed
}

/// The complete transition table of one download. `None` marks a pairing of
/// state and event that the protocol never produces; every admissible pair
/// maps to the next state and the action to perform. A backend failure in
/// any active state leads to `Failed`; a missing source or a copy without a
/// document attachment leads to `NotFound`.
pub open spec fn spec_step(s: DownloadState, e: DownloadEvent) -> Option<
    (DownloadState, DownloadAction),
> {
    if e is BackendFailed && !is_terminal(s) {
        let message = e->BackendFailed_message;
        Some(
            (
                DownloadState::Failed { message },
                DownloadAction::DeliverError { message: e->BackendFailed_message },
            ),
        )
    } else {
        match (s, e) {
            (
                DownloadState::Requesting { chat_id, message_id },
                DownloadEvent::ForwardSourceMissing,
            ) => Some((DownloadState::NotFound, DownloadAction::DeliverNotFound)),
            (
                DownloadState::Requesting { chat_id, message_id },
                DownloadEvent::ForwardSucceeded { transient_message_id, document_file_id },
            ) => match document_file_id {
                Some(file_id) => Some(
                    (
                        DownloadState::Forwarded { message_id, transient_message_id, file_id },
                        DownloadAction::RegisterAndFetch {
                            original_message_id: message_id,
                            transient_message_id,
                            file_id,
                        },
                    ),
                ),
                None => Some((DownloadState::NotFound, DownloadAction::DeliverNotFound)),
            },
            (
                DownloadState::Forwarded { message_id, transient_message_id, file_id },
                DownloadEvent::FileInfoResolved { path },
            ) => Some(
                (
                    DownloadState::AttachmentResolved { path },
                    DownloadAction::OpenStream { path },
                ),
            ),
            (DownloadState::AttachmentResolved { path }, DownloadEvent::StreamOpened) => Some(
                (DownloadState::Streaming, DownloadAction::DeliverStream),
            ),
            (DownloadState::Streaming, DownloadEvent::StreamFinished) => Some(
                (DownloadState::Done, DownloadAction::Finish),
            ),
            _ => None,
        }
    }
}

/// Begins a download of the object addressed by `chat_id` and `message_id`:
/// the initial state and the forward request to issue.
pub fn start_download(chat_id: i64, message_id: i32) -> (r: (DownloadState, DownloadAction))
    ensures
        r.0 == (DownloadState::Requesting { chat_id, message_id }),
        r.1 == (DownloadAction::ForwardMessage { from_chat_id: chat_id, message_id }),
{
    (
        DownloadState::Requesting { chat_id, message_id },
        DownloadAction::ForwardMessage { from_chat_id: chat_id, message_id },
    )
}

/// Advances one download by one observed event, exactly as the transition
/// table says.
pub fn download_step(s: DownloadState, e: DownloadEvent) -> (r: Option<
    (DownloadState, DownloadAction),
>)
    ensures
        r == spec_step(s, e),
{
    match (s, e) {
        (s, DownloadEvent::BackendFailed { message }) => {
            if matches!(s, DownloadState::Done | DownloadState::NotFound | DownloadState::Failed { .. }) {
                None
            } else {
                let reported = message.clone();
                Some(
                    (
                        DownloadState::Failed { message },
                        DownloadAction::DeliverError { message: reported },
                    ),
                )
            }
        },
        (
            DownloadState::Requesting { chat_id: _, message_id: _ },
            DownloadEvent::ForwardSourceMissing,
        ) => Some((DownloadState::NotFound, DownloadAction::DeliverNotFound)),
        (
            DownloadState::Requesting { chat_id: _, message_id },
            DownloadEvent::ForwardSucceeded { transient_message_id, document_file_id },
        ) => match document_file_id {
            Some(file_id) => {
                let registered = file_id.clone();
                Some(
                    (
                        DownloadState::Forwarded { message_id, transient_message_id, file_id },
                        DownloadAction::RegisterAndFetch {
                            original_message_id: message_id,
                            transient_message_id,
                            file_id: registered,
                        },
                    ),
                )
            },
            None => Some((DownloadState::NotFound, DownloadAction::DeliverNotFound)),
        },
        (
            DownloadState::Forwarded { message_id: _, transient_message_id: _, file_id: _ },
            DownloadEvent::FileInfoResolved { path },
        ) => {
            let opened = path.clone();
            Some(
                (
                    DownloadState::AttachmentResolved { path },
                    DownloadAction::OpenStream { path: opened },
                ),
            )
        },
        (DownloadState::AttachmentResolved { path: _ }, DownloadEvent::StreamOpened) => Some(
            (DownloadState::Streaming, DownloadAction::DeliverStream),
        ),
        (DownloadState::Streaming, DownloadEvent::StreamFinished) => Some(
            (DownloadState::Done, DownloadAction::Finish),
        ),
        (_, _) => None,
    }
}

/// Law: downloading a reference whose message was deleted upstream ends in
/// "not found" with an absent-result answer, never in a failure.
pub proof fn lemma_deleted_source_is_not_found(chat_id: i64, message_id: i32)
    ensures
        spec_step(
            DownloadState::Requesting { chat_id, message_id },
            DownloadEvent::ForwardSourceMissing,
        ) == Some((DownloadState::NotFound, DownloadAction::DeliverNotFound)),
{
}

/// Law: a reference to a message without a document attachment ends in "not
/// found" as well — such a message is not one this service produced.
pub proof fn lemma_missing_document_is_not_found(
    chat_id: i64,
    message_id: i32,
    transient_message_id: i32,
)
    ensures
        spec_step(
            DownloadState::Requesting { chat_id, message_id },
            DownloadEvent::ForwardSucceeded { transient_message_id, document_file_id: None },
        ) == Some((DownloadState::NotFound, DownloadAction::DeliverNotFound)),
{
}

} // verus!
