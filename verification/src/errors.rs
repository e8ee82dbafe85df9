//! The error taxonomy of the engine. Every failure carries plain values;
//! [`CaveError::message`] renders the human-readable report.

use vstd::prelude::*;

verus! {

/// Everything that can go wrong while resolving, acquiring or
/// reconciling a version.
#[derive(Debug, Clone, PartialEq, Eq)]
pub enum CaveError {
    /// Invalid version format.
    InvalidFormat(String),
    /// Requested version is not available locally or remotely.
    VersionNotAvailable(String),
    /// The user aborted the operation.
    UserAborted,
    /// Input/output error.
    IoError(String),
    /// Docker-related error (commands, connection, etc.).
    DockerError(String),
    /// HOME directory not found.
    HomeNotFound,
    /// File not found.
    FileNotFound(String),
    /// Installed version is missing on the system.
    VersionNotInstalled(String),
    /// HTTP request error.
    HttpError(String),
    /// Docker is not installed.
    NoDocker,
    /// No internet connection for the client.
    NoInternetConnection,
    /// JSON serialization/deserialization error.
    SerdeError(String),
    /// code_aster related error (commands, wrong file, etc.).
    CodeAsterError(String),
    /// Error encountered while saving the execution data.
    TelemetryError(String),
    /// An alias is absent from the upstream catalog.
    AliasUnresolved(String),
}

/// The report text of each error.
pub open spec fn spec_message(e: CaveError) -> Seq<char> {
    match e {
        CaveError::InvalidFormat(v) => "Invalid version input: '"@ + v@
            + "'. Expected stable, testing or under this format: xx.x.xx"@,
        CaveError::VersionNotAvailable(v) => "Version '"@ + v@
            + "' is not available. Run `cave available` or see on https://hub.docker.com/r/simvia/code_aster."@,
        CaveError::UserAborted => "No version pinned. Operation cancelled by user."@,
        CaveError::IoError(m) => "I/O error: "@ + m@,
        CaveError::DockerError(m) => "Docker error: "@ + m@,
        CaveError::HomeNotFound => "Home not found."@,
        CaveError::FileNotFound(m) => m@,
        CaveError::VersionNotInstalled(v) => "Invalid version : '"@ + v@
            + "', not installed. Run cave pin "@ + v@ + "."@,
        CaveError::HttpError(m) => "Error pulling image versions : "@ + m@,
        CaveError::NoDocker => "Docker not found. Please install Docker and try again."@,
        CaveError::NoInternetConnection =>
            "Error: No internet connection detected. Please check your network and try again."@,
        CaveError::SerdeError(m) => "I/O error: "@ + m@,
        CaveError::CodeAsterError(m) => "code_aster error: "@ + m@,
        CaveError::TelemetryError(m) => "telemetry error: "@ + m@,
        CaveError::AliasUnresolved(a) => "Alias '"@ + a@
            + "' could not be resolved against the upstream catalog."@,
    }
}

impl CaveError {
    /// The human-readable report for this error.
    pub fn message(&self) -> (r: String)
        ensures
            r@ == spec_message(*self),
    {
        match self {
            CaveError::InvalidFormat(v) => String::from_str("Invalid version input: '")
                .concat(v.as_str())
                .concat("'. Expected stable, testing or under this format: xx.x.xx"),
            CaveError::VersionNotAvailable(v) => String::from_str("Version '")
                .concat(v.as_str())
                .concat(
                "' is not available. Run `cave available` or see on https://hub.docker.com/r/simvia/code_aster.",
            ),
            CaveError::UserAborted => String::from_str(
                "No version pinned. Operation cancelled by user.",
            ),
            CaveError::IoError(m) => String::from_str("I/O error: ").concat(m.as_str()),
            CaveError::DockerError(m) => String::from_str("Docker error: ").concat(m.as_str()),
            CaveError::HomeNotFound => String::from_str("Home not found."),
            CaveError::FileNotFound(m) => m.clone(),
            CaveError::VersionNotInstalled(v) => String::from_str("Invalid version : '")
                .concat(v.as_str())
                .concat("', not installed. Run cave pin ")
                .concat(v.as_str())
                .concat("."),
            CaveError::HttpError(m) => String::from_str("Error pulling image versions : ")
                .concat(m.as_str()),
            CaveError::NoDocker => String::from_str(
                "Docker not found. Please install Docker and try again.",
            ),
            CaveError::NoInternetConnection => String::from_str(
                "Error: No internet connection detected. Please check your network and try again.",
            ),
            CaveError::SerdeError(m) => String::from_str("I/O error: ").concat(m.as_str()),
            CaveError::CodeAsterError(m) => String::from_str("code_aster error: ")
                .concat(m.as_str()),
            CaveError::TelemetryError(m) => String::from_str("telemetry error: ")
                .concat(m.as_str()),
            CaveError::AliasUnresolved(a) => String::from_str("Alias '")
                .concat(a.as_str())
                .concat("' could not be resolved against the upstream catalog."),
        }
    }
}

} // verus!
