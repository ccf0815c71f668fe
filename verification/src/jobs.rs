//! Remote reconstruction jobs: which job a request names and whether its
//! inputs exist.
use vstd::prelude::*;
use crate::text::{push_str, str_equal, string_of};

verus! {

/// The reconstructions a job can run.
#[derive(Debug, Clone, Copy, PartialEq, Eq, Structural)]
pub enum JobType {
    GaussianSplatting,
    Photogrammetry,
}

/// The job type of a request: named by its kind, else by the payload's
/// `job_type`.
pub open spec fn spec_job_type(kind: Seq<char>, payload_job_type: Option<Seq<char>>) -> Option<JobType> {
    if kind == "unified_gaussian_splatting"@ {
        Some(JobType::GaussianSplatting)
    } else if kind == "unified_photogrammetry"@ {
        Some(JobType::Photogrammetry)
    } else {
        match payload_job_type {
            Some(t) => if t == "gaussian_splatting"@ {
                Some(JobType::GaussianSplatting)
            } else if t == "photogrammetry"@ {
                Some(JobType::Photogrammetry)
            } else {
                None
            },
            None => None,
        }
    }
}

pub fn resolve_job_type(kind: &str, payload_job_type: Option<&str>) -> (r: Option<JobType>)
    ensures
        r == spec_job_type(kind@, match payload_job_type { Some(t) => Some(t@), None => None }),
{
    if str_equal(kind, "unified_gaussian_splatting") {
        Some(JobType::GaussianSplatting)
    } else if str_equal(kind, "unified_photogrammetry") {
        Some(JobType::Photogrammetry)
    } else {
        match payload_job_type {
            Some(t) => if str_equal(t, "gaussian_splatting") {
                Some(JobType::GaussianSplatting)
            } else if str_equal(t, "photogrammetry") {
                Some(JobType::Photogrammetry)
            } else {
                None
            },
            None => None,
        }
    }
}

/// `Unsupported job kind: <kind>`.
pub fn unsupported_job_message(kind: &str) -> (r: String)
    ensures
        r@ == "Unsupported job kind: "@ + kind@,
{
    let mut v: Vec<char> = Vec::new();
    push_str(&mut v, "Unsupported job kind: ");
    push_str(&mut v, kind);
    string_of(v.as_slice())
}

/// A named input path must exist: `<label> does not exist` otherwise.
pub fn validate_path_str(label: &str, exists: bool) -> (r: Result<(), String>)
    ensures
        exists ==> r is Ok,
        !exists ==> (r matches Err(e) && e@ == label@ + " does not exist"@),
{
    if exists {
        Ok(())
    } else {
        let mut v: Vec<char> = Vec::new();
        push_str(&mut v, label);
        push_str(&mut v, " does not exist");
        Err(string_of(v.as_slice()))
    }
}

/// The inputs of a job are checked in order: the workspace, then the live
/// scan and the DSLR folder when given (`None` = not given).
pub fn check_job_inputs(workspace_exists: bool, livescan_exists: Option<bool>, dslr_exists: Option<bool>) -> (r: Result<(), String>)
    ensures
        !workspace_exists ==> (r matches Err(e) && e@ == "workspace_path does not exist"@),
        workspace_exists && livescan_exists == Some(false) ==> (r matches Err(e) && e@ == "livescan_path does not exist"@),
        workspace_exists && livescan_exists != Some(false) && dslr_exists == Some(false)
            ==> (r matches Err(e) && e@ == "dslr_path does not exist"@),
        workspace_exists && livescan_exists != Some(false) && dslr_exists != Some(false) ==> r is Ok,
{
    proof {
        reveal_strlit("workspace_path");
        reveal_strlit(" does not exist");
        reveal_strlit("workspace_path does not exist");
        reveal_strlit("livescan_path");
        reveal_strlit("livescan_path does not exist");
        reveal_strlit("dslr_path");
        reveal_strlit("dslr_path does not exist");
    }
    validate_path_str("workspace_path", workspace_exists)?;
    match livescan_exists {
        Some(e) => validate_path_str("livescan_path", e)?,
        None => {},
    }
    match dslr_exists {
        Some(e) => validate_path_str("dslr_path", e)?,
        None => {},
    }
    Ok(())
}

/// Jobs are tried three times unless configured otherwise.
pub fn job_max_attempts(configured: Option<u32>) -> (r: i64)
    ensures
        r == (match configured { Some(v) => v as int, None => 3 }),
{
    match configured {
        Some(v) => v as i64,
        None => 3,
    }
}

/// The request's webhook goes into the payload when the payload is an
/// object without one.
pub fn adds_webhook(has_webhook_url: bool, payload_is_object: bool, payload_has_webhook: bool) -> (r: bool)
    ensures
        r == (has_webhook_url && payload_is_object && !payload_has_webhook),
{
    has_webhook_url && payload_is_object && !payload_has_webhook
}

} // verus!
