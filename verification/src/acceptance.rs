//! Opting in to the native deconstruction acceptance run.
//!
//! The run is enabled by an artifact directory in the process environment.
//! The caller reads the environment and the file system into
//! [`AcceptanceEnvFacts`]; [`acceptance_config`] decides whether the run is
//! off, refused, or enabled with its run identifier.

use vstd::prelude::*;
use crate::text::{spec_valid_run_id, validate_run_id};

verus! {

/// What the environment and the file system say of a requested run.
#[derive(Debug, Clone)]
pub struct AcceptanceEnvFacts {
    /// The artifact directory variable is set.
    pub artifact_set: bool,
    /// It is set to the empty string.
    pub artifact_empty: bool,
    /// It names an absolute path.
    pub artifact_absolute: bool,
    /// It names an existing directory.
    pub artifact_is_dir: bool,
    /// The window backend variable asks for a headless window.
    pub headless_backend: bool,
    /// The run identifier variable, when it is set.
    pub run_id: Option<String>,
    /// The driver's result file already exists in the artifact directory.
    pub result_exists: bool,
    /// Its screenshot already exists there.
    pub screenshot_exists: bool,
    /// Its save file already exists there.
    pub save_exists: bool,
}

/// One of the files the driver writes into the artifact directory.
#[derive(Debug, Clone, Copy, PartialEq, Eq, Structural)]
pub enum DriverOutput {
    Result,
    Screenshot,
    Save,
}

/// Why an acceptance run was refused.
#[derive(Debug, Clone, Copy, PartialEq, Eq, Structural)]
pub enum AcceptanceConfigError {
    EmptyArtifactPath,
    RelativeArtifactPath,
    MissingArtifactDirectory,
    HeadlessBackend,
    MissingRunId,
    InvalidRunId,
    /// A fresh run finds no output of an earlier one.
    StaleOutput(DriverOutput),
}

/// A run identifier that `validate_run_id` accepts.
pub open spec fn run_id_ok(id: String) -> bool {
    spec_valid_run_id(vstd::utf8::encode_utf8(id@))
}

/// The first reason to refuse a requested run, in the order the checks run,
/// or `None` when the run may start.
pub open spec fn spec_config_error(f: AcceptanceEnvFacts) -> Option<AcceptanceConfigError> {
    if f.artifact_empty {
        Some(AcceptanceConfigError::EmptyArtifactPath)
    } else if !f.artifact_absolute {
        Some(AcceptanceConfigError::RelativeArtifactPath)
    } else if !f.artifact_is_dir {
        Some(AcceptanceConfigError::MissingArtifactDirectory)
    } else if f.headless_backend {
        Some(AcceptanceConfigError::HeadlessBackend)
    } else if f.run_id is None {
        Some(AcceptanceConfigError::MissingRunId)
    } else if !run_id_ok(f.run_id.unwrap()) {
        Some(AcceptanceConfigError::InvalidRunId)
    } else if f.result_exists {
        Some(AcceptanceConfigError::StaleOutput(DriverOutput::Result))
    } else if f.screenshot_exists {
        Some(AcceptanceConfigError::StaleOutput(DriverOutput::Screenshot))
    } else if f.save_exists {
        Some(AcceptanceConfigError::StaleOutput(DriverOutput::Save))
    } else {
        None
    }
}

/// Decides the acceptance run: off when the artifact variable is unset,
/// refused for the first failing check, and otherwise enabled with the
/// run identifier.
pub fn acceptance_config(f: AcceptanceEnvFacts) -> (r: Result<Option<String>, AcceptanceConfigError>)
    ensures
        !f.artifact_set ==> r matches Ok(None),
        f.artifact_set && spec_config_error(f) is Some ==> r == Err::<Option<String>, AcceptanceConfigError>(
            spec_config_error(f).unwrap(),
        ),
        f.artifact_set && spec_config_error(f) is None ==> (r matches Ok(Some(id)) && id@ == f.run_id.unwrap()@),
{
    if !f.artifact_set {
        return Ok(None);
    }
    if f.artifact_empty {
        return Err(AcceptanceConfigError::EmptyArtifactPath);
    }
    if !f.artifact_absolute {
        return Err(AcceptanceConfigError::RelativeArtifactPath);
    }
    if !f.artifact_is_dir {
        return Err(AcceptanceConfigError::MissingArtifactDirectory);
    }
    if f.headless_backend {
        return Err(AcceptanceConfigError::HeadlessBackend);
    }
    let ghost facts = f;
    let id = match f.run_id {
        Some(id) => id,
        None => return Err(AcceptanceConfigError::MissingRunId),
    };
    if validate_run_id(id.as_str()).is_err() {
        return Err(AcceptanceConfigError::InvalidRunId);
    }
    if f.result_exists {
        return Err(AcceptanceConfigError::StaleOutput(DriverOutput::Result));
    }
    if f.screenshot_exists {
        return Err(AcceptanceConfigError::StaleOutput(DriverOutput::Screenshot));
    }
    if f.save_exists {
        return Err(AcceptanceConfigError::StaleOutput(DriverOutput::Save));
    }
    assert(facts.run_id.unwrap() == id);
    Ok(Some(id))
}

} // verus!
