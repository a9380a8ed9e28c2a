use tgstore::download::{
    download_step, start_download, DownloadAction, DownloadEvent, DownloadState,
};

#[test]
fn start_requests_a_forward() {
    let (state, action) = start_download(-100500, 42);
    assert_eq!(state, DownloadState::Requesting { chat_id: -100500, message_id: 42 });
    assert_eq!(action, DownloadAction::ForwardMessage { from_chat_id: -100500, message_id: 42 });
}

#[test]
fn deleted_source_is_not_found_not_error() {
    let (state, _) = start_download(-100500, 42);
    let (next, action) = download_step(state, DownloadEvent::ForwardSourceMissing).unwrap();
    assert_eq!(next, DownloadState::NotFound);
    assert_eq!(action, DownloadAction::DeliverNotFound);
}

#[test]
fn message_without_document_is_not_found() {
    let (state, _) = start_download(-100500, 42);
    let event = DownloadEvent::ForwardSucceeded {
        transient_message_id: 77,
        document_file_id: None,
    };
    let (next, action) = download_step(state, event).unwrap();
    assert_eq!(next, DownloadState::NotFound);
    assert_eq!(action, DownloadAction::DeliverNotFound);
}

#[test]
fn happy_path_walks_to_done() {
    let (state, _) = start_download(-100500, 42);
    let (state, action) = download_step(
        state,
        DownloadEvent::ForwardSucceeded {
            transient_message_id: 77,
            document_file_id: Some("file-abc".to_string()),
        },
    )
    .unwrap();
    assert_eq!(
        state,
        DownloadState::Forwarded {
            message_id: 42,
            transient_message_id: 77,
            file_id: "file-abc".to_string(),
        }
    );
    assert_eq!(
        action,
        DownloadAction::RegisterAndFetch {
            original_message_id: 42,
            transient_message_id: 77,
            file_id: "file-abc".to_string(),
        }
    );
    let (state, action) = download_step(
        state,
        DownloadEvent::FileInfoResolved { path: "/var/lib/telegram-bot-api/x/documents/f1".to_string() },
    )
    .unwrap();
    assert_eq!(
        state,
        DownloadState::AttachmentResolved {
            path: "/var/lib/telegram-bot-api/x/documents/f1".to_string()
        }
    );
    assert_eq!(
        action,
        DownloadAction::OpenStream { path: "/var/lib/telegram-bot-api/x/documents/f1".to_string() }
    );
    let (state, action) = download_step(state, DownloadEvent::StreamOpened).unwrap();
    assert_eq!(state, DownloadState::Streaming);
    assert_eq!(action, DownloadAction::DeliverStream);
    let (state, action) = download_step(state, DownloadEvent::StreamFinished).unwrap();
    assert_eq!(state, DownloadState::Done);
    assert_eq!(action, DownloadAction::Finish);
}

#[test]
fn backend_failure_surfaces_its_message() {
    let (state, _) = start_download(-100500, 42);
    let (next, action) = download_step(
        state,
        DownloadEvent::BackendFailed { message: "Forbidden: bot was kicked".to_string() },
    )
    .unwrap();
    assert_eq!(next, DownloadState::Failed { message: "Forbidden: bot was kicked".to_string() });
    assert_eq!(
        action,
        DownloadAction::DeliverError { message: "Forbidden: bot was kicked".to_string() }
    );
}

#[test]
fn failure_after_forward_surfaces_too() {
    let state = DownloadState::Forwarded {
        message_id: 42,
        transient_message_id: 77,
        file_id: "file-abc".to_string(),
    };
    let (next, _) = download_step(
        state,
        DownloadEvent::BackendFailed { message: "timeout".to_string() },
    )
    .unwrap();
    assert_eq!(next, DownloadState::Failed { message: "timeout".to_string() });
}

#[test]
fn terminal_states_accept_no_events() {
    assert!(download_step(
        DownloadState::Done,
        DownloadEvent::BackendFailed { message: "late".to_string() }
    )
    .is_none());
    assert!(download_step(DownloadState::NotFound, DownloadEvent::StreamOpened).is_none());
    assert!(download_step(DownloadState::Streaming, DownloadEvent::StreamOpened).is_none());
}
