use cave::errors::CaveError;
use cave::listing::{filter_versions, short_date, sort_versions, tag_label, version_le};
use cave::local::{exists_locally, first_nonempty_line, parse_image_lines};
use cave::telemetry::{build_execution_data, build_payload, is_interactive, ExecutionData};

fn strings(items: &[&str]) -> Vec<String> {
    items.iter().map(|s| s.to_string()).collect()
}

#[test]
fn image_listing_lines_are_cleaned() {
    let out = parse_image_lines("22.0.1\n  21.4.9 \n\nstable\n");
    assert_eq!(out, strings(&["22.0.1", "21.4.9", "stable"]));
    assert_eq!(parse_image_lines(""), Vec::<String>::new());
    assert_eq!(parse_image_lines(" \n \n"), Vec::<String>::new());
    assert_eq!(parse_image_lines("one"), strings(&["one"]));
}

#[test]
fn local_presence_is_exact_membership() {
    let versions = strings(&["22.0.1", "21.4.9"]);
    assert!(exists_locally(&versions, "22.0.1"));
    assert!(!exists_locally(&versions, "22.0"));
    assert!(!exists_locally(&versions, "17.3.1"));
    assert!(!exists_locally(&Vec::new(), "22.0.1"));
}

#[test]
fn image_id_is_first_reported_line() {
    assert_eq!(
        first_nonempty_line("\n  abc123def \nother\n").unwrap(),
        "abc123def"
    );
    assert_eq!(first_nonempty_line("  \n"), None);
}

#[test]
fn numeric_version_order() {
    assert!(version_le("2.0.1", "10.0.0"));
    assert!(!version_le("10.0.0", "2.0.1"));
    assert!(version_le("1.2.3", "1.2.3"));
    assert!(version_le("1.2", "1.2.3"));
    assert!(version_le("+1.2", "1.2"));
    // an overflowing component drops out of the key: only the 1 remains
    assert!(!version_le("99999999999.1", "0.5"));
    assert!(version_le("99999999999.1", "2"));
    assert!(version_le("beta", "0.0.1"));
}

#[test]
fn listing_filter_keeps_digit_leading_matches() {
    let versions = strings(&["22.0.1", "stable", "21.4.9", "2.1.0", "testing", ""]);
    assert_eq!(
        filter_versions(&versions, ""),
        strings(&["22.0.1", "21.4.9", "2.1.0"])
    );
    assert_eq!(filter_versions(&versions, "2"), strings(&["22.0.1", "21.4.9", "2.1.0"]));
    assert_eq!(filter_versions(&versions, "21"), strings(&["21.4.9"]));
    assert_eq!(filter_versions(&versions, "9"), Vec::<String>::new());
}

#[test]
fn listing_sorts_numerically() {
    let sorted = sort_versions(strings(&["10.0.0", "2.0.1", "2.0.0", "1.99.1"]));
    assert_eq!(sorted, strings(&["1.99.1", "2.0.0", "2.0.1", "10.0.0"]));
    assert_eq!(sort_versions(Vec::new()), Vec::<String>::new());
}

#[test]
fn alias_labels_for_the_remote_listing() {
    assert_eq!(tag_label("21.4.9", "21.4.9", "22.0.1"), "stable");
    assert_eq!(tag_label("22.0.1", "21.4.9", "22.0.1"), "testing");
    assert_eq!(tag_label("20.0.0", "21.4.9", "22.0.1"), "");
    // one tag under both aliases: the testing label wins
    assert_eq!(tag_label("21.4.9", "21.4.9", "21.4.9"), "testing");
}

#[test]
fn push_dates_are_shortened_for_display() {
    assert_eq!(short_date("2023-10-10T10:00:00Z"), "2023-10-10 10h");
    assert_eq!(short_date("2023-10-10"), "unknown");
    assert_eq!(short_date(""), "unknown");
}

#[test]
fn error_messages_render_exactly() {
    assert_eq!(
        CaveError::InvalidFormat("abc".to_string()).message(),
        "Invalid version input: 'abc'. Expected stable, testing or under this format: xx.x.xx"
    );
    assert_eq!(
        CaveError::VersionNotAvailable("9.9.9".to_string()).message(),
        "Version '9.9.9' is not available. Run `cave available` or see on https://hub.docker.com/r/simvia/code_aster."
    );
    assert_eq!(
        CaveError::UserAborted.message(),
        "No version pinned. Operation cancelled by user."
    );
    assert_eq!(
        CaveError::VersionNotInstalled("1.2.3".to_string()).message(),
        "Invalid version : '1.2.3', not installed. Run cave pin 1.2.3."
    );
    assert_eq!(
        CaveError::NoInternetConnection.message(),
        "Error: No internet connection detected. Please check your network and try again."
    );
    assert_eq!(
        CaveError::NoDocker.message(),
        "Docker not found. Please install Docker and try again."
    );
    assert_eq!(CaveError::HomeNotFound.message(), "Home not found.");
    assert_eq!(
        CaveError::DockerError("boom".to_string()).message(),
        "Docker error: boom"
    );
    assert_eq!(CaveError::IoError("io".to_string()).message(), "I/O error: io");
    assert_eq!(CaveError::SerdeError("sj".to_string()).message(), "I/O error: sj");
    assert_eq!(
        CaveError::HttpError("404".to_string()).message(),
        "Error pulling image versions : 404"
    );
    assert_eq!(
        CaveError::CodeAsterError("run failed".to_string()).message(),
        "code_aster error: run failed"
    );
    assert_eq!(
        CaveError::TelemetryError("down".to_string()).message(),
        "telemetry error: down"
    );
    assert_eq!(CaveError::FileNotFound("gone".to_string()).message(), "gone");
    assert_eq!(
        CaveError::AliasUnresolved("stable".to_string()).message(),
        "Alias 'stable' could not be resolved against the upstream catalog."
    );
}

#[test]
fn execution_report_assembly() {
    let data = build_execution_data(
        "user-1".to_string(),
        1234,
        true,
        "+02:00".to_string(),
        "22.0.1".to_string(),
        "abc123".to_string(),
    );
    assert_eq!(data.user_id, "user-1");
    assert_eq!(data.time_execution, 1234);
    assert!(data.valid_result);

    let payload = build_payload(&data);
    assert_eq!(payload.user_id, "user-1");
    assert_eq!(payload.time_execution, 1234i64);
    assert_eq!(payload.record_type, 0);
    assert_eq!(payload.version, "22.0.1");

    let empty = ExecutionData::default();
    assert_eq!(empty.user_id, "");
    assert_eq!(empty.time_execution, 0);
    assert!(!empty.valid_result);
}

#[test]
fn interactive_runs_are_detected() {
    assert!(is_interactive(&strings(&["-i", "case.export"])));
    assert!(!is_interactive(&strings(&["case.export"])));
    assert!(!is_interactive(&Vec::new()));
    assert!(!is_interactive(&strings(&["-interactive"])));
}
