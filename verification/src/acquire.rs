//! The acquisition flow: given a resolved concrete version, decide whether
//! it must be fetched, and in what order the collaborators are consulted.
//!
//! The flow is a small state machine. The surrounding application owns the
//! outside work: it asks the local presence oracle, the remote catalog, the
//! interactive prompt and the fetcher, and feeds each answer back as an
//! event. Every decision is taken here and is verified.

use vstd::prelude::*;
use crate::errors::CaveError;
use crate::text::{spec_trim, trim};

verus! {

/// Where the acquisition flow stands. Each non-final state names the one
/// piece of outside work the application must perform next.
#[derive(Debug, Clone, PartialEq, Eq)]
pub enum AcquireState {
    /// Ask the local presence oracle whether the version is present.
    QueryLocal(String),
    /// Ask the remote catalog whether the version exists upstream.
    QueryRemote(String),
    /// Ask the user whether the missing version should be downloaded.
    AwaitAnswer(String),
    /// Fetch the version.
    Fetching(String),
    /// The version is available locally; acquisition succeeded.
    Ready(String),
    /// Acquisition failed; nothing was changed.
    Failed(CaveError),
}

/// One answer from the outside world.
#[derive(Debug, PartialEq, Eq)]
pub enum AcquireEvent {
    /// Whether the local presence oracle reports the version present.
    LocalPresence(bool),
    /// Whether the version exists in the upstream catalog.
    RemotePresence(bool),
    /// The raw line the user typed at the download prompt.
    Answer(String),
    /// The outcome of the fetch.
    FetchDone(Result<(), CaveError>),
}

/// Whether a prompt answer counts as affirmative: exactly the letter `y`,
/// case-insensitively, once surrounding whitespace is removed.
pub open spec fn spec_affirmative(s: Seq<char>) -> bool {
    spec_trim(s) == seq!['y'] || spec_trim(s) == seq!['Y']
}

/// The transition function of the acquisition flow.
///
/// - Present locally: done, no network call, no prompt.
/// - Absent locally: the remote catalog is consulted; absent there too
///   fails with `VersionNotAvailable` without ever prompting.
/// - Present remotely only: the user is prompted; a non-affirmative answer
///   aborts with `UserAborted` and no side effect; an affirmative answer
///   triggers the fetch, whose failure is surfaced verbatim.
///
/// An event that the current state does not wait for leaves the state
/// unchanged; final states absorb every event.
pub open spec fn spec_acquire_step(s: AcquireState, e: AcquireEvent) -> AcquireState {
    match (s, e) {
        (AcquireState::QueryLocal(v), AcquireEvent::LocalPresence(present)) => if present {
            AcquireState::Ready(v)
        } else {
            AcquireState::QueryRemote(v)
        },
        (AcquireState::QueryRemote(v), AcquireEvent::RemotePresence(present)) => if present {
            AcquireState::AwaitAnswer(v)
        } else {
            AcquireState::Failed(CaveError::VersionNotAvailable(v))
        },
        (AcquireState::AwaitAnswer(v), AcquireEvent::Answer(a)) => if spec_affirmative(a@) {
            AcquireState::Fetching(v)
        } else {
            AcquireState::Failed(CaveError::UserAborted)
        },
        (AcquireState::Fetching(v), AcquireEvent::FetchDone(outcome)) => match outcome {
            Ok(_) => AcquireState::Ready(v),
            Err(err) => AcquireState::Failed(err),
        },
        (s, _) => s,
    }
}

/// The flow starts by consulting the local presence oracle.
pub fn acquire_init(version: String) -> (s: AcquireState)
    ensures
        s == AcquireState::QueryLocal(version),
{
    AcquireState::QueryLocal(version)
}

/// Advances the acquisition flow by one answered event.
pub fn acquire_step(s: AcquireState, e: AcquireEvent) -> (next: AcquireState)
    ensures
        next == spec_acquire_step(s, e),
{
    match (s, e) {
        (AcquireState::QueryLocal(v), AcquireEvent::LocalPresence(present)) => if present {
            AcquireState::Ready(v)
        } else {
            AcquireState::QueryRemote(v)
        },
        (AcquireState::QueryRemote(v), AcquireEvent::RemotePresence(present)) => if present {
            AcquireState::AwaitAnswer(v)
        } else {
            AcquireState::Failed(CaveError::VersionNotAvailable(v))
        },
        (AcquireState::AwaitAnswer(v), AcquireEvent::Answer(a)) => if is_affirmative(a.as_str()) {
            AcquireState::Fetching(v)
        } else {
            AcquireState::Failed(CaveError::UserAborted)
        },
        (AcquireState::Fetching(v), AcquireEvent::FetchDone(outcome)) => match outcome {
            Ok(_) => AcquireState::Ready(v),
            Err(err) => AcquireState::Failed(err),
        },
        (s, _) => s,
    }
}

/// Whether a prompt answer counts as affirmative.
pub fn is_affirmative(answer: &str) -> (r: bool)
    ensures
        r == spec_affirmative(answer@),
{
    let t = trim(answer);
    let r = t.as_str().unicode_len() == 1 && (t.as_str().get_char(0) == 'y'
        || t.as_str().get_char(0) == 'Y');
    proof {
        if t@.len() == 1 {
            assert(t@ =~= seq![t@[0]]);
        }
    }
    r
}

/// A version present neither locally nor remotely always fails with
/// `VersionNotAvailable`, and the user is never prompted: from the initial
/// state, the flow passes only through the two oracle queries and ends in
/// the failure, never reaching the prompting state.
pub proof fn lemma_absent_version_never_prompts(version: String)
    ensures
        ({
            let s0 = AcquireState::QueryLocal(version);
            let s1 = spec_acquire_step(s0, AcquireEvent::LocalPresence(false));
            let s2 = spec_acquire_step(s1, AcquireEvent::RemotePresence(false));
            &&& s1 == AcquireState::QueryRemote(version)
            &&& s2 == AcquireState::Failed(CaveError::VersionNotAvailable(version))
            &&& !(s0 is AwaitAnswer)
            &&& !(s1 is AwaitAnswer)
            &&& !(s2 is AwaitAnswer)
        }),
{
}

} // verus!
