//! The execution report assembled after a non-interactive run.
//!
//! The engine only assembles plain values here; the transport that carries
//! the report is owned by the surrounding application, and its failures
//! never affect the engine.

use vstd::prelude::*;

verus! {

/// One execution's outcome, as collected for the usage report.
#[derive(Debug, Clone, PartialEq, Eq)]
pub struct ExecutionData {
    pub user_id: String,
    pub time_execution: u128,
    pub valid_result: bool,
    pub timezone: String,
    pub version: String,
    pub id_docker: String,
}

impl Default for ExecutionData {
    /// An empty report: no user, zero duration, failed result.
    fn default() -> (r: ExecutionData)
        ensures
            r.user_id@ == Seq::<char>::empty(),
            r.time_execution == 0,
            r.valid_result == false,
            r.timezone@ == Seq::<char>::empty(),
            r.version@ == Seq::<char>::empty(),
            r.id_docker@ == Seq::<char>::empty(),
    {
        ExecutionData {
            user_id: String::new(),
            time_execution: 0,
            valid_result: false,
            timezone: String::new(),
            version: String::new(),
            id_docker: String::new(),
        }
    }
}

/// Assembles the report for one non-interactive execution.
pub fn build_execution_data(
    user_id: String,
    time_execution: u128,
    valid_result: bool,
    timezone: String,
    version: String,
    id_docker: String,
) -> (r: ExecutionData)
    ensures
        r.user_id == user_id,
        r.time_execution == time_execution,
        r.valid_result == valid_result,
        r.timezone == timezone,
        r.version == version,
        r.id_docker == id_docker,
{
    ExecutionData { user_id, time_execution, valid_result, timezone, version, id_docker }
}

/// Whether the run was interactive: an interactive run sends no report.
pub fn is_interactive(args: &Vec<String>) -> (r: bool)
    ensures
        r == exists|k: int| 0 <= k < args@.len() && args@[k]@ == "-i"@,
{
    let mut i: usize = 0;
    while i < args.len()
        invariant
            i <= args@.len(),
            forall|k: int| 0 <= k < i ==> args@[k]@ != "-i"@,
        decreases args@.len() - i,
    {
        if crate::text::str_eq(args[i].as_str(), "-i") {
            return true;
        }
        i += 1;
    }
    false
}


/// The wire record of one execution report. The record type is fixed: this
/// tool always reports as itself.
#[derive(Debug, Clone, PartialEq, Eq)]
pub struct TelemetryPayload {
    pub user_id: String,
    pub time_execution: i64,
    pub valid_result: bool,
    pub timezone: String,
    pub version: String,
    pub id_docker: String,
    pub record_type: i32,
}

/// Assembles the wire record from a collected report: every field carries
/// over, the duration is narrowed to the wire's integer width, and the
/// record type is zero.
pub fn build_payload(e: &ExecutionData) -> (r: TelemetryPayload)
    ensures
        r.user_id == e.user_id,
        r.time_execution == e.time_execution as i64,
        r.valid_result == e.valid_result,
        r.timezone == e.timezone,
        r.version == e.version,
        r.id_docker == e.id_docker,
        r.record_type == 0,
{
    TelemetryPayload {
        user_id: e.user_id.clone(),
        time_execution: #[verifier::truncate] (e.time_execution as i64),
        valid_result: e.valid_result,
        timezone: e.timezone.clone(),
        version: e.version.clone(),
        id_docker: e.id_docker.clone(),
        record_type: 0,
    }
}

} // verus!
