//! The reconciliation state machine: on each run, a previously pinned
//! alias is re-resolved against upstream, drift is detected, and the flow
//! decides whether to silently adopt, prompt, or keep the stored
//! resolution.
//!
//! As with acquisition, the application performs the outside work (resolve,
//! presence check, prompt, fetch, store write) and feeds the answers back
//! as events; every decision is taken here. Every exit either orders a
//! write of one fully-formed record or orders no write at all.

use vstd::prelude::*;
use crate::errors::CaveError;
use crate::acquire::spec_affirmative;
use crate::acquire::is_affirmative;
use crate::store::ResolutionRecord;
use crate::version::Alias;

verus! {

/// Where the reconciliation flow stands. Each non-final state names the
/// outside work the application must perform next.
#[derive(Debug, Clone, PartialEq, Eq)]
pub enum ReconcileState {
    /// Re-resolve the alias upstream to its live version.
    Resolving { alias: Alias, stored: String },
    /// Ask the local presence oracle whether the live version is present.
    CheckingLocal { alias: Alias, stored: String, live: String },
    /// Ask the user whether the updated version should be installed.
    AwaitAnswer { alias: Alias, stored: String, live: String },
    /// Fetch the live version.
    Fetching { alias: Alias, stored: String, live: String },
    /// Reconciliation is over: use `version`; if `write` holds a record,
    /// persist it over the stored one, else leave the store untouched.
    Settled { version: String, write: Option<ResolutionRecord> },
    /// Reconciliation failed; the store was not touched.
    Failed(CaveError),
}

/// One answer from the outside world.
#[derive(Debug, PartialEq, Eq)]
pub enum ReconcileEvent {
    /// The outcome of re-resolving the alias upstream.
    Resolved(Result<String, CaveError>),
    /// Whether the live version is already present locally.
    LocalPresence(bool),
    /// The raw line the user typed at the install prompt.
    Answer(String),
    /// The outcome of the fetch.
    FetchDone(Result<(), CaveError>),
}

/// Where reconciliation starts, given the stored record and the
/// configuration read once per invocation.
///
/// A bare record is terminal: the stored version is returned unchanged.
/// A pinned record enters the machine only when auto-update is enabled and
/// the network is reachable; otherwise the stored resolution is kept.
pub open spec fn spec_reconcile_start(
    record: ResolutionRecord,
    auto_update: bool,
    network: bool,
) -> ReconcileState {
    match record {
        ResolutionRecord::Bare(v) => ReconcileState::Settled { version: v, write: None },
        ResolutionRecord::Pinned(alias, stored) => if auto_update && network {
            ReconcileState::Resolving { alias, stored }
        } else {
            ReconcileState::Settled { version: stored, write: None }
        },
    }
}

/// The transition function of the reconciliation flow.
///
/// - No drift (the live version equals the stored one): keep the stored
///   version, write nothing.
/// - Drift with the live version already present locally: silently adopt —
///   order a write of the updated pinned record and return the live
///   version.
/// - Drift with the live version absent: prompt. An affirmative answer
///   fetches; fetch failure is a hard error; success adopts. A
///   non-affirmative answer keeps the stored version and writes nothing.
///
/// An event that the current state does not wait for leaves the state
/// unchanged; final states absorb every event.
pub open spec fn spec_reconcile_step(s: ReconcileState, e: ReconcileEvent) -> ReconcileState {
    match (s, e) {
        (ReconcileState::Resolving { alias, stored }, ReconcileEvent::Resolved(outcome)) => match outcome {
            Ok(live) => if live@ == stored@ {
                ReconcileState::Settled { version: stored, write: None }
            } else {
                ReconcileState::CheckingLocal { alias, stored, live }
            },
            Err(err) => ReconcileState::Failed(err),
        },
        (
            ReconcileState::CheckingLocal { alias, stored, live },
            ReconcileEvent::LocalPresence(present),
        ) => if present {
            ReconcileState::Settled {
                version: live,
                write: Some(ResolutionRecord::Pinned(alias, live)),
            }
        } else {
            ReconcileState::AwaitAnswer { alias, stored, live }
        },
        (ReconcileState::AwaitAnswer { alias, stored, live }, ReconcileEvent::Answer(a)) => if spec_affirmative(
            a@,
        ) {
            ReconcileState::Fetching { alias, stored, live }
        } else {
            ReconcileState::Settled { version: stored, write: None }
        },
        (ReconcileState::Fetching { alias, stored, live }, ReconcileEvent::FetchDone(outcome)) => match outcome {
            Ok(_) => ReconcileState::Settled {
                version: live,
                write: Some(ResolutionRecord::Pinned(alias, live)),
            },
            Err(err) => ReconcileState::Failed(err),
        },
        (s, _) => s,
    }
}

/// Enters the reconciliation flow for a stored record.
pub fn reconcile_start(record: ResolutionRecord, auto_update: bool, network: bool) -> (s:
    ReconcileState)
    ensures
        s == spec_reconcile_start(record, auto_update, network),
{
    match record {
        ResolutionRecord::Bare(v) => ReconcileState::Settled { version: v, write: None },
        ResolutionRecord::Pinned(alias, stored) => if auto_update && network {
            ReconcileState::Resolving { alias, stored }
        } else {
            ReconcileState::Settled { version: stored, write: None }
        },
    }
}

/// Advances the reconciliation flow by one answered event.
pub fn reconcile_step(s: ReconcileState, e: ReconcileEvent) -> (next: ReconcileState)
    ensures
        next == spec_reconcile_step(s, e),
{
    match (s, e) {
        (ReconcileState::Resolving { alias, stored }, ReconcileEvent::Resolved(outcome)) => match outcome {
            Ok(live) => if live == stored {
                ReconcileState::Settled { version: stored, write: None }
            } else {
                ReconcileState::CheckingLocal { alias, stored, live }
            },
            Err(err) => ReconcileState::Failed(err),
        },
        (
            ReconcileState::CheckingLocal { alias, stored, live },
            ReconcileEvent::LocalPresence(present),
        ) => if present {
            let record = ResolutionRecord::Pinned(alias, live.clone());
            ReconcileState::Settled { version: live, write: Some(record) }
        } else {
            ReconcileState::AwaitAnswer { alias, stored, live }
        },
        (ReconcileState::AwaitAnswer { alias, stored, live }, ReconcileEvent::Answer(a)) => if is_affirmative(
            a.as_str(),
        ) {
            ReconcileState::Fetching { alias, stored, live }
        } else {
            ReconcileState::Settled { version: stored, write: None }
        },
        (ReconcileState::Fetching { alias, stored, live }, ReconcileEvent::FetchDone(outcome)) => match outcome {
            Ok(_) => {
                let record = ResolutionRecord::Pinned(alias, live.clone());
                ReconcileState::Settled { version: live, write: Some(record) }
            },
            Err(err) => ReconcileState::Failed(err),
        },
        (s, _) => s,
    }
}

/// With a pinned record, auto-update enabled and the network reachable, if
/// upstream still resolves the alias to the stored version, reconciliation
/// returns the stored version and performs no write.
pub proof fn lemma_no_drift_keeps_store(alias: Alias, stored: String, live: String)
    requires
        live@ == stored@,
    ensures
        ({
            let s0 = spec_reconcile_start(ResolutionRecord::Pinned(alias, stored), true, true);
            let s1 = spec_reconcile_step(s0, ReconcileEvent::Resolved(Ok(live)));
            &&& s0 == (ReconcileState::Resolving { alias, stored })
            &&& s1 == (ReconcileState::Settled { version: stored, write: None })
        }),
{
}

/// With a pinned record, auto-update enabled and the network reachable, if
/// upstream now resolves the alias to a different version that is already
/// present locally, reconciliation silently adopts: it orders a write of
/// the updated pinned record and returns the live version, without
/// prompting.
pub proof fn lemma_drift_present_adopts(alias: Alias, stored: String, live: String)
    requires
        live@ != stored@,
    ensures
        ({
            let s0 = spec_reconcile_start(ResolutionRecord::Pinned(alias, stored), true, true);
            let s1 = spec_reconcile_step(s0, ReconcileEvent::Resolved(Ok(live)));
            let s2 = spec_reconcile_step(s1, ReconcileEvent::LocalPresence(true));
            &&& s0 == (ReconcileState::Resolving { alias, stored })
            &&& s1 == (ReconcileState::CheckingLocal { alias, stored, live })
            &&& s2 == (ReconcileState::Settled {
                version: live,
                write: Some(ResolutionRecord::Pinned(alias, live)),
            })
            &&& !(s1 is AwaitAnswer)
            &&& !(s2 is AwaitAnswer)
        }),
{
}

/// A settled state either orders no write or orders a write of one
/// fully-formed pinned record whose version is the one being returned.
pub open spec fn settled_write_ok(s: ReconcileState) -> bool {
    s matches ReconcileState::Settled { version, write: Some(record) }
        ==> record matches ResolutionRecord::Pinned(_, v) && v == version
}

/// The flow never corrupts the store: its entry state orders no write, and
/// every step preserves [`settled_write_ok`], so every exit either writes
/// one fully-formed pinned record or writes nothing.
pub proof fn lemma_settled_write_well_formed(
    record: ResolutionRecord,
    auto_update: bool,
    network: bool,
    s: ReconcileState,
    e: ReconcileEvent,
)
    requires
        settled_write_ok(s),
    ensures
        settled_write_ok(spec_reconcile_start(record, auto_update, network)),
        settled_write_ok(spec_reconcile_step(s, e)),
{
}

} // verus!
