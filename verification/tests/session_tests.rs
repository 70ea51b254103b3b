use oli::session::{Action, Event, Phase, TransferError, TransferSession};

#[test]
fn session_happy_path_finalizes_once_at_the_end() {
    let mut s = TransferSession::new();
    assert_eq!(s.current(), Phase::Idle);

    assert!(matches!(s.step(Event::SourceOpened), Action::OpenDest));
    assert_eq!(s.current(), Phase::SourceOpen);

    assert!(matches!(s.step(Event::DestOpened), Action::ReadChunk));
    assert_eq!(s.current(), Phase::DestOpen);

    let a = s.step(Event::ChunkRead(vec![1, 2, 3]));
    assert!(matches!(a, Action::WriteChunk(d) if d == vec![1, 2, 3]));
    assert_eq!(s.current(), Phase::Streaming);

    assert!(matches!(s.step(Event::ChunkWritten), Action::ReadChunk));
    assert_eq!(s.current(), Phase::Streaming);

    assert!(matches!(s.step(Event::EndOfStream), Action::Finalize));
    assert_eq!(s.current(), Phase::Finalizing);

    assert!(matches!(s.step(Event::Finalized), Action::Succeed));
    assert_eq!(s.current(), Phase::Complete);
}

#[test]
fn session_source_open_failure_aborts_before_destination() {
    let mut s = TransferSession::new();
    let a = s.step(Event::SourceOpenFailed);
    assert!(matches!(a, Action::Abort(TransferError::SourceOpen)));
    assert_eq!(s.current(), Phase::Failed);
}

#[test]
fn session_dest_open_failure_aborts() {
    let mut s = TransferSession::new();
    s.step(Event::SourceOpened);
    let a = s.step(Event::DestOpenFailed);
    assert!(matches!(a, Action::Abort(TransferError::DestOpen)));
    assert_eq!(s.current(), Phase::Failed);
}

#[test]
fn session_read_failure_mid_stream_never_finalizes() {
    let mut s = TransferSession::new();
    s.step(Event::SourceOpened);
    s.step(Event::DestOpened);
    let a = s.step(Event::ChunkRead(vec![1]));
    assert!(matches!(a, Action::WriteChunk(_)));
    s.step(Event::ChunkWritten);
    let a = s.step(Event::ReadFailed);
    assert!(matches!(a, Action::Abort(TransferError::Stream)));
    assert_eq!(s.current(), Phase::Failed);
}

#[test]
fn session_empty_object_goes_straight_to_finalize() {
    let mut s = TransferSession::new();
    s.step(Event::SourceOpened);
    s.step(Event::DestOpened);
    assert!(matches!(s.step(Event::EndOfStream), Action::Finalize));
    assert_eq!(s.current(), Phase::Finalizing);
    assert!(matches!(s.step(Event::Finalized), Action::Succeed));
    assert_eq!(s.current(), Phase::Complete);
}

#[test]
fn session_finalize_failure_fails_the_transfer() {
    let mut s = TransferSession::new();
    s.step(Event::SourceOpened);
    s.step(Event::DestOpened);
    s.step(Event::EndOfStream);
    let a = s.step(Event::FinalizeFailed);
    assert!(matches!(a, Action::Abort(TransferError::Stream)));
    assert_eq!(s.current(), Phase::Failed);
}
