use cave::acquire::{acquire_init, acquire_step, is_affirmative, AcquireEvent, AcquireState};
use cave::errors::CaveError;
use cave::reconcile::{reconcile_start, reconcile_step, ReconcileEvent, ReconcileState};
use cave::store::ResolutionRecord;
use cave::version::Alias;

#[test]
fn affirmative_answers() {
    assert!(is_affirmative("y"));
    assert!(is_affirmative("Y"));
    assert!(is_affirmative(" y\n"));
    assert!(is_affirmative("\tY \r\n"));
    assert!(!is_affirmative("yes"));
    assert!(!is_affirmative("n"));
    assert!(!is_affirmative(""));
    assert!(!is_affirmative(" \n"));
    assert!(!is_affirmative("y y"));
}

#[test]
fn locally_present_version_is_used_at_once() {
    let s = acquire_init("22.0.1".to_string());
    assert_eq!(s, AcquireState::QueryLocal("22.0.1".to_string()));
    let s = acquire_step(s, AcquireEvent::LocalPresence(true));
    assert_eq!(s, AcquireState::Ready("22.0.1".to_string()));
}

#[test]
fn absent_everywhere_fails_without_prompt() {
    let s = acquire_init("99.99.99".to_string());
    let s = acquire_step(s, AcquireEvent::LocalPresence(false));
    assert_eq!(s, AcquireState::QueryRemote("99.99.99".to_string()));
    let s = acquire_step(s, AcquireEvent::RemotePresence(false));
    assert_eq!(
        s,
        AcquireState::Failed(CaveError::VersionNotAvailable("99.99.99".to_string()))
    );
}

#[test]
fn declined_download_aborts_with_no_side_effect() {
    let s = acquire_init("17.3.1".to_string());
    let s = acquire_step(s, AcquireEvent::LocalPresence(false));
    let s = acquire_step(s, AcquireEvent::RemotePresence(true));
    assert_eq!(s, AcquireState::AwaitAnswer("17.3.1".to_string()));
    let s = acquire_step(s, AcquireEvent::Answer("n\n".to_string()));
    assert_eq!(s, AcquireState::Failed(CaveError::UserAborted));
}

#[test]
fn accepted_download_fetches_and_succeeds() {
    let s = acquire_init("17.3.1".to_string());
    let s = acquire_step(s, AcquireEvent::LocalPresence(false));
    let s = acquire_step(s, AcquireEvent::RemotePresence(true));
    let s = acquire_step(s, AcquireEvent::Answer(" Y\n".to_string()));
    assert_eq!(s, AcquireState::Fetching("17.3.1".to_string()));
    let s = acquire_step(s, AcquireEvent::FetchDone(Ok(())));
    assert_eq!(s, AcquireState::Ready("17.3.1".to_string()));
}

#[test]
fn failed_fetch_is_surfaced_verbatim() {
    let err = CaveError::DockerError("Failed to pull version: 17.3.1\nno space".to_string());
    let s = AcquireState::Fetching("17.3.1".to_string());
    let s = acquire_step(s, AcquireEvent::FetchDone(Err(err.clone())));
    assert_eq!(s, AcquireState::Failed(err));
}

fn pinned(alias: Alias, v: &str) -> ResolutionRecord {
    ResolutionRecord::Pinned(alias, v.to_string())
}

#[test]
fn bare_record_is_terminal() {
    let s = reconcile_start(ResolutionRecord::Bare("22.0.1".to_string()), true, true);
    assert_eq!(
        s,
        ReconcileState::Settled { version: "22.0.1".to_string(), write: None }
    );
}

#[test]
fn pinned_record_without_auto_update_keeps_the_store() {
    let s = reconcile_start(pinned(Alias::Stable, "21.4.9"), false, true);
    assert_eq!(
        s,
        ReconcileState::Settled { version: "21.4.9".to_string(), write: None }
    );
    let s = reconcile_start(pinned(Alias::Stable, "21.4.9"), true, false);
    assert_eq!(
        s,
        ReconcileState::Settled { version: "21.4.9".to_string(), write: None }
    );
}

#[test]
fn no_drift_returns_stored_and_writes_nothing() {
    let s = reconcile_start(pinned(Alias::Stable, "21.4.9"), true, true);
    assert_eq!(
        s,
        ReconcileState::Resolving { alias: Alias::Stable, stored: "21.4.9".to_string() }
    );
    let s = reconcile_step(s, ReconcileEvent::Resolved(Ok("21.4.9".to_string())));
    assert_eq!(
        s,
        ReconcileState::Settled { version: "21.4.9".to_string(), write: None }
    );
}

#[test]
fn drift_to_installed_version_silently_adopts() {
    let s = reconcile_start(pinned(Alias::Stable, "21.4.9"), true, true);
    let s = reconcile_step(s, ReconcileEvent::Resolved(Ok("22.0.1".to_string())));
    assert_eq!(
        s,
        ReconcileState::CheckingLocal {
            alias: Alias::Stable,
            stored: "21.4.9".to_string(),
            live: "22.0.1".to_string(),
        }
    );
    let s = reconcile_step(s, ReconcileEvent::LocalPresence(true));
    assert_eq!(
        s,
        ReconcileState::Settled {
            version: "22.0.1".to_string(),
            write: Some(pinned(Alias::Stable, "22.0.1")),
        }
    );
}

#[test]
fn declined_update_keeps_stored_version() {
    let s = reconcile_start(pinned(Alias::Testing, "21.4.9"), true, true);
    let s = reconcile_step(s, ReconcileEvent::Resolved(Ok("22.0.1".to_string())));
    let s = reconcile_step(s, ReconcileEvent::LocalPresence(false));
    assert_eq!(
        s,
        ReconcileState::AwaitAnswer {
            alias: Alias::Testing,
            stored: "21.4.9".to_string(),
            live: "22.0.1".to_string(),
        }
    );
    let s = reconcile_step(s, ReconcileEvent::Answer("no\n".to_string()));
    assert_eq!(
        s,
        ReconcileState::Settled { version: "21.4.9".to_string(), write: None }
    );
}

#[test]
fn accepted_update_fetches_and_adopts() {
    let s = reconcile_start(pinned(Alias::Testing, "21.4.9"), true, true);
    let s = reconcile_step(s, ReconcileEvent::Resolved(Ok("22.0.1".to_string())));
    let s = reconcile_step(s, ReconcileEvent::LocalPresence(false));
    let s = reconcile_step(s, ReconcileEvent::Answer("y".to_string()));
    assert_eq!(
        s,
        ReconcileState::Fetching {
            alias: Alias::Testing,
            stored: "21.4.9".to_string(),
            live: "22.0.1".to_string(),
        }
    );
    let s = reconcile_step(s, ReconcileEvent::FetchDone(Ok(())));
    assert_eq!(
        s,
        ReconcileState::Settled {
            version: "22.0.1".to_string(),
            write: Some(pinned(Alias::Testing, "22.0.1")),
        }
    );
}

#[test]
fn failed_update_fetch_is_a_hard_error() {
    let s = ReconcileState::Fetching {
        alias: Alias::Stable,
        stored: "21.4.9".to_string(),
        live: "22.0.1".to_string(),
    };
    let err = CaveError::DockerError("pull failed".to_string());
    let s = reconcile_step(s, ReconcileEvent::FetchDone(Err(err.clone())));
    assert_eq!(s, ReconcileState::Failed(err));
}

#[test]
fn failed_resolution_is_surfaced() {
    let s = reconcile_start(pinned(Alias::Stable, "21.4.9"), true, true);
    let err = CaveError::HttpError("status 500".to_string());
    let s = reconcile_step(s, ReconcileEvent::Resolved(Err(err.clone())));
    assert_eq!(s, ReconcileState::Failed(err));
}
