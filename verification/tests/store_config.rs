use cave::acquire::{acquire_init, acquire_step, AcquireEvent, AcquireState};
use cave::cli::{apply_config_action, ConfigAction};
use cave::config::{
    default_enable_auto_update, ensure_user_id, set_auto_release_check, set_auto_update,
    set_version_tracking, Config,
};
use cave::errors::CaveError;
use cave::store::{choose_scoped, decode_record, encode_record, make_record, ResolutionRecord};
use cave::version::{parse_version, Alias, VersionIdentifier};

#[test]
fn record_lines_round_trip() {
    let bare = ResolutionRecord::Bare("17.3.1".to_string());
    assert_eq!(encode_record(&bare), "17.3.1");
    assert_eq!(decode_record("17.3.1"), bare);

    let pinned = ResolutionRecord::Pinned(Alias::Stable, "22.0.1".to_string());
    assert_eq!(encode_record(&pinned), "stable:22.0.1");
    assert_eq!(decode_record("stable:22.0.1"), pinned);

    let pinned_testing = ResolutionRecord::Pinned(Alias::Testing, "1.2.3".to_string());
    assert_eq!(encode_record(&pinned_testing), "testing:1.2.3");
    assert_eq!(decode_record(&encode_record(&pinned_testing)), pinned_testing);
}

#[test]
fn stored_lines_are_trimmed_before_decoding() {
    assert_eq!(
        decode_record(" 22.0.1\n"),
        ResolutionRecord::Bare("22.0.1".to_string())
    );
    assert_eq!(
        decode_record("\ttesting:9.9.9 \r\n"),
        ResolutionRecord::Pinned(Alias::Testing, "9.9.9".to_string())
    );
}

#[test]
fn project_scope_wins_over_user_scope() {
    assert_eq!(
        choose_scoped(Some("1.1.1".to_string()), Some("2.2.2".to_string())).unwrap(),
        "1.1.1"
    );
    assert_eq!(choose_scoped(None, Some("2.2.2".to_string())).unwrap(), "2.2.2");
    match choose_scoped(None, None) {
        Err(CaveError::FileNotFound(m)) => {
            assert_eq!(m, "No version found. Use `cave use <version>` or `cave pin <version>`.")
        }
        other => panic!("expected FileNotFound, got {:?}", other),
    }
}

#[test]
fn alias_requests_persist_the_alias_identity() {
    let alias_request = parse_version("stable").unwrap();
    let record = make_record(&alias_request, "21.4.9".to_string());
    assert_eq!(record, ResolutionRecord::Pinned(Alias::Stable, "21.4.9".to_string()));
    assert_eq!(encode_record(&record), "stable:21.4.9");

    let concrete_request = parse_version("17.3.1").unwrap();
    let record = make_record(&concrete_request, "17.3.1".to_string());
    assert_eq!(record, ResolutionRecord::Bare("17.3.1".to_string()));
}

// Requesting a novel, well-formed version that is available remotely, with
// the user answering "y": the store line at the selected scope ends up as
// exactly the requested version.
#[test]
fn accepted_novel_version_ends_as_bare_store_line() {
    let requested = parse_version("17.3.1").unwrap();
    assert!(matches!(requested, VersionIdentifier::Concrete(_)));

    let s = acquire_init("17.3.1".to_string());
    let s = acquire_step(s, AcquireEvent::LocalPresence(false));
    let s = acquire_step(s, AcquireEvent::RemotePresence(true));
    assert_eq!(s, AcquireState::AwaitAnswer("17.3.1".to_string()));
    let s = acquire_step(s, AcquireEvent::Answer("y\n".to_string()));
    let s = acquire_step(s, AcquireEvent::FetchDone(Ok(())));
    let version = match s {
        AcquireState::Ready(v) => v,
        other => panic!("expected Ready, got {:?}", other),
    };

    let record = make_record(&requested, version);
    assert_eq!(encode_record(&record), "17.3.1");
}

// Requesting a version available nowhere exits with a message containing
// "is not available", and nothing is ever written.
#[test]
fn test_error_on_unknown_version_use_and_pin() {
    let requested = parse_version("99.99.99").unwrap();
    assert!(matches!(requested, VersionIdentifier::Concrete(_)));

    let s = acquire_init("99.99.99".to_string());
    let s = acquire_step(s, AcquireEvent::LocalPresence(false));
    let s = acquire_step(s, AcquireEvent::RemotePresence(false));
    let err = match s {
        AcquireState::Failed(e) => e,
        other => panic!("expected failure, got {:?}", other),
    };
    assert_eq!(err, CaveError::VersionNotAvailable("99.99.99".to_string()));
    let message = err.message();
    assert!(message.contains("Version '99.99.99' is not available"));
    assert!(message.contains("is not available"));
}

fn base_config() -> Config {
    Config {
        auto_update: false,
        auto_release_check: true,
        version_tracking: true,
        registry: None,
        user_id: "fixed-user".to_string(),
    }
}

#[test]
fn setters_touch_exactly_one_flag() {
    let mut cfg = base_config();
    set_auto_update(&mut cfg, true);
    assert!(cfg.auto_update);
    assert!(cfg.auto_release_check);
    assert!(cfg.version_tracking);
    assert_eq!(cfg.user_id, "fixed-user");

    set_auto_release_check(&mut cfg, false);
    assert!(cfg.auto_update);
    assert!(!cfg.auto_release_check);
    assert!(cfg.version_tracking);

    set_version_tracking(&mut cfg, false);
    assert!(cfg.auto_update);
    assert!(!cfg.auto_release_check);
    assert!(!cfg.version_tracking);
}

#[test]
fn config_actions_dispatch_to_the_right_flag() {
    let mut cfg = base_config();
    apply_config_action(&mut cfg, ConfigAction::EnableAutoUpdate);
    assert!(cfg.auto_update);
    apply_config_action(&mut cfg, ConfigAction::DisableAutoUpdate);
    assert!(!cfg.auto_update);
    apply_config_action(&mut cfg, ConfigAction::DisableUpdateCheck);
    assert!(!cfg.auto_release_check);
    apply_config_action(&mut cfg, ConfigAction::EnableUpdateCheck);
    assert!(cfg.auto_release_check);
    apply_config_action(&mut cfg, ConfigAction::DisableUsageTracking);
    assert!(!cfg.version_tracking);
    apply_config_action(&mut cfg, ConfigAction::EnableUsageTracking);
    assert!(cfg.version_tracking);
    assert_eq!(cfg.user_id, "fixed-user");
}

#[test]
fn default_config_draws_a_user_id() {
    assert!(default_enable_auto_update());
    let cfg = Config::default();
    assert!(!cfg.auto_update);
    assert!(cfg.auto_release_check);
    assert!(cfg.version_tracking);
    assert!(cfg.registry.is_none());
    assert_eq!(cfg.user_id.chars().count(), 36);
}

#[test]
fn user_id_is_kept_or_freshly_drawn() {
    let mut cfg = base_config();
    let id = ensure_user_id(&mut cfg);
    assert_eq!(id, "fixed-user");
    assert_eq!(cfg.user_id, "fixed-user");

    cfg.user_id = String::new();
    let id = ensure_user_id(&mut cfg);
    assert_eq!(id.chars().count(), 36);
    assert_eq!(cfg.user_id, id);
}
