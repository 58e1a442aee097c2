//! The Verification & Extraction Controller: a state machine that turns
//! the unreliable download–verify–extract process into one with clear
//! idempotence and self-healing guarantees.
//!
//! The controller never touches the network or the filesystem.  Each step
//! consumes the outcome of the previous action and names the next one;
//! the surrounding binary performs the actions.  The transition relation
//! is a spec function, so every guarantee below is a theorem about it.

use vstd::prelude::*;

verus! {

/// How an extraction attempt ended.
#[derive(Clone, Copy, PartialEq, Eq, Structural, Debug)]
pub enum ExtractOutcome {
    /// The payload was written into the downloads directory.
    Extracted,
    /// The archive's bytes do not form a readable archive.
    CorruptArchive,
    /// The archive's name names no supported container format.
    UnsupportedFormat,
}

/// How a transfer attempt ended.
#[derive(Clone, Copy, PartialEq, Eq, Structural, Debug)]
pub enum FetchOutcome {
    /// The staging file was fully written and renamed to the archive
    /// name: the publish point.
    Published,
    /// An HTTP failure, connection error or mid-stream read error; the
    /// staging file was discarded and the attempt may be repeated.
    Retryable,
    /// The staging file was written but the rename failed — a
    /// filesystem-level problem, not retried.
    RenameFailed,
}

/// Why a run ended without a verified payload.
#[derive(Clone, Copy, PartialEq, Eq, Structural, Debug)]
pub enum ControllerError {
    /// Diagnostic mode saw a checksum mismatch and aborted instead of
    /// deleting the evidence.
    ChecksumMismatch,
    /// The archive's format cannot be read; downloading again cannot fix
    /// it.
    UnsupportedFormat,
    /// A create, rename or remove failed: surfaced, not retried.
    Filesystem,
}

/// What the controller is waiting to learn.
#[derive(Clone, Copy, PartialEq, Eq, Structural, Debug)]
pub enum Phase {
    /// Waiting to hear whether an archive artifact exists.
    ProbingArchive,
    /// Waiting for the outcome of an extraction attempt.
    AwaitingExtract,
    /// Waiting for the archive artifact to be deleted; `redownload` says
    /// whether a fetch follows (corrupt archive) or the payload check
    /// does (successful extraction made the archive redundant).
    AwaitingArchiveDelete { redownload: bool },
    /// Waiting to hear the payload artifact's checksum, if one exists.
    ProbingPayload,
    /// Waiting for a mismatched payload artifact to be deleted.
    AwaitingPayloadDelete,
    /// Waiting for the transfer manager's outcome.
    Fetching,
    /// Waiting out the backoff after a retryable transfer failure.
    Sleeping,
    /// Terminal: a payload with the expected checksum is on disk.
    Verified { downloaded: bool },
    /// Terminal: a non-retryable error.
    Failed { error: ControllerError },
}

/// The next thing the surrounding binary must do.
#[derive(Clone, Copy, PartialEq, Eq, Structural, Debug)]
pub enum Action {
    /// Report whether a file exists at the archive path.
    ProbeArchive,
    /// Extract the archive into the downloads directory.
    ExtractArchive,
    /// Delete the archive artifact.
    DeleteArchive,
    /// Report the payload artifact's checksum, or that none exists.
    ProbePayload,
    /// Delete the payload artifact.
    DeletePayload,
    /// Download to the staging file and publish by rename.
    Fetch,
    /// Wait out the retry backoff.
    Sleep,
    /// Nothing: the run is over.
    Stop,
}

/// What the surrounding binary learned by performing the last action.
#[derive(Debug)]
pub enum Event {
    /// Whether the archive artifact exists.
    ArchivePresent(bool),
    /// How extraction ended.
    ExtractDone(ExtractOutcome),
    /// Whether deleting the archive succeeded.
    ArchiveDeleted(bool),
    /// The payload artifact's checksum, or `None` when no payload
    /// artifact exists.
    PayloadChecksum(Option<String>),
    /// Whether deleting the payload succeeded.
    PayloadDeleted(bool),
    /// How the transfer ended.
    FetchDone(FetchOutcome),
    /// The backoff has elapsed.
    SleptOk,
}

/// One target's verification run.
#[derive(Debug)]
pub struct Controller {
    /// The checksum the page published, trimmed and lower-cased.
    pub expected: String,
    /// Diagnostic mode: abort on mismatch instead of deleting evidence.
    pub diagnostic: bool,
    /// Whether a fetch has been published during this run.
    pub downloaded: bool,
    /// What the controller is waiting to learn.
    pub phase: Phase,
}

/// The event kind that answers the pending action of a phase.
pub open spec fn event_matches(phase: Phase, ev: Event) -> bool {
    match (phase, ev) {
        (Phase::ProbingArchive, Event::ArchivePresent(_)) => true,
        (Phase::AwaitingExtract, Event::ExtractDone(_)) => true,
        (Phase::AwaitingArchiveDelete { .. }, Event::ArchiveDeleted(_)) => true,
        (Phase::ProbingPayload, Event::PayloadChecksum(_)) => true,
        (Phase::AwaitingPayloadDelete, Event::PayloadDeleted(_)) => true,
        (Phase::Fetching, Event::FetchDone(_)) => true,
        (Phase::Sleeping, Event::SleptOk) => true,
        _ => false,
    }
}

/// A phase from which no step is taken.
pub open spec fn is_terminal(phase: Phase) -> bool {
    phase is Verified || phase is Failed
}

/// The transition relation: the controller after consuming `ev`, and the
/// action it asks for next.
pub open spec fn spec_step(c: Controller, ev: Event) -> (Controller, Action) {
    match (c.phase, ev) {
        (Phase::ProbingArchive, Event::ArchivePresent(present)) => {
            if present {
                (Controller { phase: Phase::AwaitingExtract, ..c }, Action::ExtractArchive)
            } else {
                (Controller { phase: Phase::ProbingPayload, ..c }, Action::ProbePayload)
            }
        },
        (Phase::AwaitingExtract, Event::ExtractDone(out)) => match out {
            ExtractOutcome::Extracted => (
                Controller { phase: Phase::AwaitingArchiveDelete { redownload: false }, ..c },
                Action::DeleteArchive,
            ),
            ExtractOutcome::CorruptArchive => (
                Controller { phase: Phase::AwaitingArchiveDelete { redownload: true }, ..c },
                Action::DeleteArchive,
            ),
            ExtractOutcome::UnsupportedFormat => (
                Controller {
                    phase: Phase::Failed { error: ControllerError::UnsupportedFormat },
                    ..c
                },
                Action::Stop,
            ),
        },
        (Phase::AwaitingArchiveDelete { redownload }, Event::ArchiveDeleted(ok)) => {
            if !ok {
                (
                    Controller { phase: Phase::Failed { error: ControllerError::Filesystem }, ..c },
                    Action::Stop,
                )
            } else if redownload {
                (Controller { phase: Phase::Fetching, ..c }, Action::Fetch)
            } else {
                (Controller { phase: Phase::ProbingPayload, ..c }, Action::ProbePayload)
            }
        },
        (Phase::ProbingPayload, Event::PayloadChecksum(found)) => match found {
            Option::None => (Controller { phase: Phase::Fetching, ..c }, Action::Fetch),
            Option::Some(h) => {
                if h@ == c.expected@ {
                    (
                        Controller {
                            phase: Phase::Verified { downloaded: c.downloaded },
                            ..c
                        },
                        Action::Stop,
                    )
                } else if c.diagnostic {
                    (
                        Controller {
                            phase: Phase::Failed { error: ControllerError::ChecksumMismatch },
                            ..c
                        },
                        Action::Stop,
                    )
                } else {
                    (
                        Controller { phase: Phase::AwaitingPayloadDelete, ..c },
                        Action::DeletePayload,
                    )
                }
            },
        },
        (Phase::AwaitingPayloadDelete, Event::PayloadDeleted(ok)) => {
            if ok {
                (Controller { phase: Phase::Fetching, ..c }, Action::Fetch)
            } else {
                (
                    Controller { phase: Phase::Failed { error: ControllerError::Filesystem }, ..c },
                    Action::Stop,
                )
            }
        },
        (Phase::Fetching, Event::FetchDone(out)) => match out {
            FetchOutcome::Published => (
                Controller { phase: Phase::ProbingArchive, downloaded: true, ..c },
                Action::ProbeArchive,
            ),
            FetchOutcome::Retryable => (Controller { phase: Phase::Sleeping, ..c }, Action::Sleep),
            FetchOutcome::RenameFailed => (
                Controller { phase: Phase::Failed { error: ControllerError::Filesystem }, ..c },
                Action::Stop,
            ),
        },
        (Phase::Sleeping, Event::SleptOk) => (
            Controller { phase: Phase::ProbingArchive, ..c },
            Action::ProbeArchive,
        ),
        _ => (c, Action::Stop),
    }
}

impl Controller {
    /// A fresh run for one target: nothing downloaded yet, first action a
    /// probe for an existing archive artifact.
    pub fn start(expected: String, diagnostic: bool) -> (r: (Controller, Action))
        ensures
            r.0.expected == expected,
            r.0.diagnostic == diagnostic,
            r.0.downloaded == false,
            r.0.phase == Phase::ProbingArchive,
            r.1 == Action::ProbeArchive,
    {
        (
            Controller { expected, diagnostic, downloaded: false, phase: Phase::ProbingArchive },
            Action::ProbeArchive,
        )
    }

    /// Consumes the outcome of the pending action and names the next
    /// one, exactly as the transition relation says.
    pub fn step(&mut self, ev: Event) -> (a: Action)
        requires
            !is_terminal(old(self).phase),
            event_matches(old(self).phase, ev),
        ensures
            *final(self) == spec_step(*old(self), ev).0,
            a == spec_step(*old(self), ev).1,
    {
        let next: Action;
        match (self.phase, ev) {
            (Phase::ProbingArchive, Event::ArchivePresent(present)) => {
                if present {
                    self.phase = Phase::AwaitingExtract;
                    next = Action::ExtractArchive;
                } else {
                    self.phase = Phase::ProbingPayload;
                    next = Action::ProbePayload;
                }
            },
            (Phase::AwaitingExtract, Event::ExtractDone(out)) => match out {
                ExtractOutcome::Extracted => {
                    self.phase = Phase::AwaitingArchiveDelete { redownload: false };
                    next = Action::DeleteArchive;
                },
                ExtractOutcome::CorruptArchive => {
                    self.phase = Phase::AwaitingArchiveDelete { redownload: true };
                    next = Action::DeleteArchive;
                },
                ExtractOutcome::UnsupportedFormat => {
                    self.phase = Phase::Failed { error: ControllerError::UnsupportedFormat };
                    next = Action::Stop;
                },
            },
            (Phase::AwaitingArchiveDelete { redownload }, Event::ArchiveDeleted(ok)) => {
                if !ok {
                    self.phase = Phase::Failed { error: ControllerError::Filesystem };
                    next = Action::Stop;
                } else if redownload {
                    self.phase = Phase::Fetching;
                    next = Action::Fetch;
                } else {
                    self.phase = Phase::ProbingPayload;
                    next = Action::ProbePayload;
                }
            },
            (Phase::ProbingPayload, Event::PayloadChecksum(found)) => match found {
                Option::None => {
                    self.phase = Phase::Fetching;
                    next = Action::Fetch;
                },
                Option::Some(h) => {
                    if h == self.expected {
                        self.phase = Phase::Verified { downloaded: self.downloaded };
                        next = Action::Stop;
                    } else if self.diagnostic {
                        self.phase = Phase::Failed { error: ControllerError::ChecksumMismatch };
                        next = Action::Stop;
                    } else {
                        self.phase = Phase::AwaitingPayloadDelete;
                        next = Action::DeletePayload;
                    }
                },
            },
            (Phase::AwaitingPayloadDelete, Event::PayloadDeleted(ok)) => {
                if ok {
                    self.phase = Phase::Fetching;
                    next = Action::Fetch;
                } else {
                    self.phase = Phase::Failed { error: ControllerError::Filesystem };
                    next = Action::Stop;
                }
            },
            (Phase::Fetching, Event::FetchDone(out)) => match out {
                FetchOutcome::Published => {
                    self.downloaded = true;
                    self.phase = Phase::ProbingArchive;
                    next = Action::ProbeArchive;
                },
                FetchOutcome::Retryable => {
                    self.phase = Phase::Sleeping;
                    next = Action::Sleep;
                },
                FetchOutcome::RenameFailed => {
                    self.phase = Phase::Failed { error: ControllerError::Filesystem };
                    next = Action::Stop;
                },
            },
            (Phase::Sleeping, Event::SleptOk) => {
                self.phase = Phase::ProbingArchive;
                next = Action::ProbeArchive;
            },
            _ => {
                next = Action::Stop;
            },
        }
        next
    }
}

/// The actions a run asks for while consuming the events of `evs` in
/// order, starting from `c`.
pub open spec fn run_actions(c: Controller, evs: Seq<Event>) -> Seq<Action>
    decreases evs.len(),
{
    if evs.len() == 0 {
        seq![]
    } else {
        seq![spec_step(c, evs[0]).1] + run_actions(spec_step(c, evs[0]).0, evs.skip(1))
    }
}

/// The controller after consuming the events of `evs` in order.
pub open spec fn run_state(c: Controller, evs: Seq<Event>) -> Controller
    decreases evs.len(),
{
    if evs.len() == 0 {
        c
    } else {
        run_state(spec_step(c, evs[0]).0, evs.skip(1))
    }
}

/// A finished run stays finished: from a terminal phase every further
/// event leaves the controller unchanged and asks for nothing.
pub proof fn lemma_terminal_runs_only_stop(c: Controller, evs: Seq<Event>)
    requires
        is_terminal(c.phase),
    ensures
        run_state(c, evs) == c,
        forall|i: int| 0 <= i < run_actions(c, evs).len() ==> run_actions(c, evs)[i]
            == Action::Stop,
    decreases evs.len(),
{
    if evs.len() > 0 {
        assert(spec_step(c, evs[0]) == (c, Action::Stop));
        lemma_terminal_runs_only_stop(c, evs.skip(1));
        assert forall|i: int| 0 <= i < run_actions(c, evs).len() implies run_actions(c, evs)[i]
            == Action::Stop by {
            if i > 0 {
                assert(run_actions(c, evs)[i] == run_actions(c, evs.skip(1))[i - 1]);
            }
        }
    }
}

/// Idempotence: on a target whose payload already matches the expected
/// checksum, a fresh run reaches `Verified` after the two probes, asks
/// for no fetch on the way, and reports that nothing was downloaded.
pub proof fn lemma_idempotent_already_satisfied(c: Controller, h: String)
    requires
        c.phase == Phase::ProbingArchive,
        c.downloaded == false,
        h@ == c.expected@,
    ensures
        ({
            let (c1, a1) = spec_step(c, Event::ArchivePresent(false));
            let (c2, a2) = spec_step(c1, Event::PayloadChecksum(Option::Some(h)));
            a1 != Action::Fetch && a2 != Action::Fetch && c2.phase == (Phase::Verified {
                downloaded: false,
            }) && is_terminal(c2.phase)
        }),
{
}

/// Idempotence over a whole run: once the first two probes find no
/// archive and a payload whose checksum already matches, the run asks
/// for no fetch — however long it is driven on — and ends `Verified`
/// with nothing downloaded.
pub proof fn lemma_idempotent_run_never_fetches(c: Controller, h: String, evs: Seq<Event>)
    requires
        c.phase == Phase::ProbingArchive,
        c.downloaded == false,
        evs.len() >= 2,
        evs[0] == Event::ArchivePresent(false),
        evs[1] == Event::PayloadChecksum(Option::Some(h)),
        h@ == c.expected@,
    ensures
        forall|i: int| 0 <= i < run_actions(c, evs).len() ==> run_actions(c, evs)[i]
            != Action::Fetch,
        run_state(c, evs).phase == (Phase::Verified { downloaded: false }),
{
    let c1 = spec_step(c, evs[0]).0;
    let c2 = spec_step(c1, evs[1]).0;
    let rest = evs.skip(1).skip(1);
    assert(spec_step(c, evs[0]).1 == Action::ProbePayload);
    assert(spec_step(c1, evs[1]).1 == Action::Stop);
    assert(c2.phase == (Phase::Verified { downloaded: false }));
    assert(evs.skip(1)[0] == evs[1]);
    lemma_terminal_runs_only_stop(c2, rest);
    assert forall|i: int| 0 <= i < run_actions(c, evs).len() implies run_actions(c, evs)[i]
        != Action::Fetch by {
        if i > 0 {
            assert(run_actions(c, evs)[i] == run_actions(c1, evs.skip(1))[i - 1]);
            if i > 1 {
                assert(run_actions(c1, evs.skip(1))[i - 1] == run_actions(c2, rest)[i - 2]);
            }
        }
    }
    assert(run_state(c, evs) == run_state(c1, evs.skip(1)));
    assert(evs.skip(1).len() >= 1);
    assert(run_state(c1, evs.skip(1)) == run_state(c2, rest));
}

/// Resumption: when an archive artifact is present, the very first thing
/// the controller asks for is extraction, never a download.
pub proof fn lemma_resume_extracts_first(c: Controller)
    requires
        c.phase == Phase::ProbingArchive,
    ensures
        spec_step(c, Event::ArchivePresent(true)).1 == Action::ExtractArchive,
        spec_step(c, Event::ArchivePresent(true)).0.phase == Phase::AwaitingExtract,
{
}

/// Resumption over a whole run: when the first probe finds an archive
/// artifact, extraction is the run's first action, so every download the
/// run ever asks for comes after an extraction attempt.
pub proof fn lemma_extract_precedes_any_fetch(c: Controller, evs: Seq<Event>)
    requires
        c.phase == Phase::ProbingArchive,
        evs.len() > 0,
        evs[0] == Event::ArchivePresent(true),
    ensures
        run_actions(c, evs)[0] == Action::ExtractArchive,
        forall|i: int|
            0 <= i < run_actions(c, evs).len() && run_actions(c, evs)[i] == Action::Fetch
                ==> exists|j: int|
                0 <= j < i && run_actions(c, evs)[j] == Action::ExtractArchive,
{
    assert(run_actions(c, evs)[0] == Action::ExtractArchive);
    assert forall|i: int|
        0 <= i < run_actions(c, evs).len() && run_actions(c, evs)[i]
            == Action::Fetch implies exists|j: int|
        0 <= j < i && run_actions(c, evs)[j] == Action::ExtractArchive by {
        assert(0 <= 0 < i && run_actions(c, evs)[0] == Action::ExtractArchive);
    }
}

/// A download is only ever requested once the archive and payload checks
/// have run their course: after a missing or mismatched-and-deleted
/// payload, or after a corrupt archive was deleted — never while an
/// archive awaits extraction.
pub proof fn lemma_fetch_only_after_checks(c: Controller, ev: Event)
    requires
        spec_step(c, ev).1 == Action::Fetch,
    ensures
        c.phase == Phase::ProbingPayload || c.phase == Phase::AwaitingPayloadDelete || c.phase
            == (Phase::AwaitingArchiveDelete { redownload: true }),
{
}

/// Self-healing on mismatch: a payload whose checksum disagrees with the
/// expected one is deleted and a fresh download follows.
pub proof fn lemma_mismatch_self_healing(c: Controller, h: String)
    requires
        c.phase == Phase::ProbingPayload,
        !c.diagnostic,
        h@ != c.expected@,
    ensures
        ({
            let (c1, a1) = spec_step(c, Event::PayloadChecksum(Option::Some(h)));
            let (c2, a2) = spec_step(c1, Event::PayloadDeleted(true));
            a1 == Action::DeletePayload && a2 == Action::Fetch && c2.phase == Phase::Fetching
        }),
{
}

/// In diagnostic mode the same mismatch aborts the run loudly and asks
/// for no deletion, preserving the evidence.
pub proof fn lemma_mismatch_diagnostic_aborts(c: Controller, h: String)
    requires
        c.phase == Phase::ProbingPayload,
        c.diagnostic,
        h@ != c.expected@,
    ensures
        ({
            let (c1, a1) = spec_step(c, Event::PayloadChecksum(Option::Some(h)));
            a1 == Action::Stop && a1 != Action::DeletePayload && c1.phase == (Phase::Failed {
                error: ControllerError::ChecksumMismatch,
            })
        }),
{
}

/// Corrupt-archive recovery: an archive the inspector cannot read is
/// deleted and re-downloaded; extraction is never retried on the same
/// bytes.
pub proof fn lemma_corrupt_archive_recovery(c: Controller)
    requires
        c.phase == Phase::AwaitingExtract,
    ensures
        ({
            let (c1, a1) = spec_step(c, Event::ExtractDone(ExtractOutcome::CorruptArchive));
            let (c2, a2) = spec_step(c1, Event::ArchiveDeleted(true));
            a1 == Action::DeleteArchive && a2 == Action::Fetch && a1 != Action::ExtractArchive
                && a2 != Action::ExtractArchive && c2.phase == Phase::Fetching
        }),
{
}

/// `Verified` is reached one way only: by hearing that the payload's
/// checksum equals the expected one.
pub proof fn lemma_verified_only_on_match(c: Controller, ev: Event)
    requires
        !(c.phase is Verified),
        spec_step(c, ev).0.phase is Verified,
    ensures
        c.phase == Phase::ProbingPayload,
        ev matches Event::PayloadChecksum(found) && found matches Option::Some(h) && h@
            == c.expected@,
        spec_step(c, ev).0.phase == (Phase::Verified { downloaded: c.downloaded }),
{
}

/// The `downloaded` report is truthful: it is set by a published fetch
/// and by nothing else.
pub proof fn lemma_downloaded_only_by_publish(c: Controller, ev: Event)
    ensures
        spec_step(c, ev).0.downloaded == (c.downloaded || (c.phase == Phase::Fetching
            && ev == Event::FetchDone(FetchOutcome::Published))),
{
}

/// A step never changes the target's expected checksum or the diagnostic
/// switch.
pub proof fn lemma_step_keeps_target(c: Controller, ev: Event)
    ensures
        spec_step(c, ev).0.expected == c.expected,
        spec_step(c, ev).0.diagnostic == c.diagnostic,
{
}

} // verus!

