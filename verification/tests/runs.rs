use vaultfetch::controller::{
    Action, Controller, ControllerError, Event, ExtractOutcome, FetchOutcome, Phase,
};

fn fresh(expected: &str, diagnostic: bool) -> (Controller, Action) {
    Controller::start(expected.to_string(), diagnostic)
}

#[test]
fn idempotent_when_payload_already_matches() {
    // Second run over an already-verified target: no fetch is ever asked
    // for, and the run reports that nothing was downloaded.
    let (mut c, a0) = fresh("1a2b3c4d", false);
    assert_eq!(a0, Action::ProbeArchive);
    let a1 = c.step(Event::ArchivePresent(false));
    assert_eq!(a1, Action::ProbePayload);
    let a2 = c.step(Event::PayloadChecksum(Some("1a2b3c4d".to_string())));
    assert_eq!(a2, Action::Stop);
    assert_eq!(c.phase, Phase::Verified { downloaded: false });
}

#[test]
fn resumption_extracts_before_any_download() {
    // An unverified archive artifact left by an earlier run is extracted
    // first; no fetch precedes the extraction attempt.
    let (mut c, a0) = fresh("1a2b3c4d", false);
    assert_eq!(a0, Action::ProbeArchive);
    let a1 = c.step(Event::ArchivePresent(true));
    assert_eq!(a1, Action::ExtractArchive);
}

#[test]
fn mismatch_deletes_payload_and_refetches() {
    let (mut c, _) = fresh("cafef00d", false);
    c.step(Event::ArchivePresent(false));
    let a = c.step(Event::PayloadChecksum(Some("deadbeef".to_string())));
    assert_eq!(a, Action::DeletePayload);
    let a = c.step(Event::PayloadDeleted(true));
    assert_eq!(a, Action::Fetch);
}

#[test]
fn mismatch_in_diagnostic_mode_aborts_without_deleting() {
    let (mut c, _) = fresh("cafef00d", true);
    c.step(Event::ArchivePresent(false));
    let a = c.step(Event::PayloadChecksum(Some("deadbeef".to_string())));
    assert_eq!(a, Action::Stop);
    assert_eq!(c.phase, Phase::Failed { error: ControllerError::ChecksumMismatch });
}

#[test]
fn corrupt_archive_is_deleted_and_refetched() {
    let (mut c, _) = fresh("1a2b3c4d", false);
    let a = c.step(Event::ArchivePresent(true));
    assert_eq!(a, Action::ExtractArchive);
    let a = c.step(Event::ExtractDone(ExtractOutcome::CorruptArchive));
    assert_eq!(a, Action::DeleteArchive);
    let a = c.step(Event::ArchiveDeleted(true));
    assert_eq!(a, Action::Fetch);
}

#[test]
fn unsupported_format_is_fatal() {
    let (mut c, _) = fresh("1a2b3c4d", false);
    c.step(Event::ArchivePresent(true));
    let a = c.step(Event::ExtractDone(ExtractOutcome::UnsupportedFormat));
    assert_eq!(a, Action::Stop);
    assert_eq!(c.phase, Phase::Failed { error: ControllerError::UnsupportedFormat });
}

#[test]
fn retryable_transfer_sleeps_then_restarts_checks() {
    let (mut c, _) = fresh("1a2b3c4d", false);
    c.step(Event::ArchivePresent(false));
    let a = c.step(Event::PayloadChecksum(None));
    assert_eq!(a, Action::Fetch);
    let a = c.step(Event::FetchDone(FetchOutcome::Retryable));
    assert_eq!(a, Action::Sleep);
    // The whole iteration restarts at the archive check, because a
    // partial archive could already be sitting there.
    let a = c.step(Event::SleptOk);
    assert_eq!(a, Action::ProbeArchive);
}

#[test]
fn rename_failure_is_fatal() {
    let (mut c, _) = fresh("1a2b3c4d", false);
    c.step(Event::ArchivePresent(false));
    c.step(Event::PayloadChecksum(None));
    let a = c.step(Event::FetchDone(FetchOutcome::RenameFailed));
    assert_eq!(a, Action::Stop);
    assert_eq!(c.phase, Phase::Failed { error: ControllerError::Filesystem });
}

#[test]
fn end_to_end_download_extract_verify() {
    // Nothing on disk: the controller fetches, extracts, deletes the
    // archive, verifies the payload checksum, and reports a download.
    let (mut c, a) = fresh("1a2b3c4d", false);
    assert_eq!(a, Action::ProbeArchive);
    assert_eq!(c.step(Event::ArchivePresent(false)), Action::ProbePayload);
    assert_eq!(c.step(Event::PayloadChecksum(None)), Action::Fetch);
    assert_eq!(c.step(Event::FetchDone(FetchOutcome::Published)), Action::ProbeArchive);
    assert_eq!(c.step(Event::ArchivePresent(true)), Action::ExtractArchive);
    assert_eq!(c.step(Event::ExtractDone(ExtractOutcome::Extracted)), Action::DeleteArchive);
    assert_eq!(c.step(Event::ArchiveDeleted(true)), Action::ProbePayload);
    assert_eq!(
        c.step(Event::PayloadChecksum(Some("1a2b3c4d".to_string()))),
        Action::Stop
    );
    assert_eq!(c.phase, Phase::Verified { downloaded: true });
}

#[test]
fn mismatch_then_recovery() {
    // A stale payload with the wrong checksum is deleted, the target is
    // re-downloaded, and the fresh payload verifies.
    let (mut c, _) = fresh("1a2b3c4d", false);
    assert_eq!(c.step(Event::ArchivePresent(false)), Action::ProbePayload);
    assert_eq!(
        c.step(Event::PayloadChecksum(Some("00000000".to_string()))),
        Action::DeletePayload
    );
    assert_eq!(c.step(Event::PayloadDeleted(true)), Action::Fetch);
    assert_eq!(c.step(Event::FetchDone(FetchOutcome::Published)), Action::ProbeArchive);
    assert_eq!(c.step(Event::ArchivePresent(true)), Action::ExtractArchive);
    assert_eq!(c.step(Event::ExtractDone(ExtractOutcome::Extracted)), Action::DeleteArchive);
    assert_eq!(c.step(Event::ArchiveDeleted(true)), Action::ProbePayload);
    assert_eq!(
        c.step(Event::PayloadChecksum(Some("1a2b3c4d".to_string()))),
        Action::Stop
    );
    assert_eq!(c.phase, Phase::Verified { downloaded: true });
}

#[test]
fn failed_payload_delete_is_fatal() {
    let (mut c, _) = fresh("cafef00d", false);
    c.step(Event::ArchivePresent(false));
    c.step(Event::PayloadChecksum(Some("deadbeef".to_string())));
    let a = c.step(Event::PayloadDeleted(false));
    assert_eq!(a, Action::Stop);
    assert_eq!(c.phase, Phase::Failed { error: ControllerError::Filesystem });
}

#[test]
fn failed_archive_delete_is_fatal() {
    let (mut c, _) = fresh("1a2b3c4d", false);
    c.step(Event::ArchivePresent(true));
    c.step(Event::ExtractDone(ExtractOutcome::Extracted));
    let a = c.step(Event::ArchiveDeleted(false));
    assert_eq!(a, Action::Stop);
    assert_eq!(c.phase, Phase::Failed { error: ControllerError::Filesystem });
}
