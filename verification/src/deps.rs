//! The dependency checker.
//!
//! Per-vault dependency installation is delegated to the
//! project-level package manager, which runs before the supervisor
//! ever spawns a worker; what remains here is the decision of whether
//! a vault's dependencies would need installing at all, computed from
//! what the shell finds on disk.

use vstd::prelude::*;
use vstd::string::*;

use crate::errors::SidecarError;

verus! {

/// Checks a vault's worker dependencies before a spawn.
pub struct DependencyChecker;

impl DependencyChecker {
    /// Check and install dependencies for a vault.  Installation is
    /// handled by the external package manager before the supervisor
    /// runs, so there is nothing left to do here: the check always
    /// succeeds, for every vault path.
    pub fn check_and_install(_vault_path: &str) -> (r: Result<(), SidecarError>)
        ensures
            r is Ok,
    {
        Ok(())
    }

    /// Whether a vault's dependencies would need installing: exactly
    /// when the vault lists requirements but the library directory
    /// they would be installed into does not exist yet.  The shell
    /// checks the two paths on disk and hands the outcomes in.
    pub fn needs_update(requirements_present: bool, lib_present: bool) -> (r: bool)
        ensures
            r == (requirements_present && !lib_present),
    {
        requirements_present && !lib_present
    }

    /// The ordered package-installer names a dependency install would
    /// probe on the PATH, were one still performed here.
    pub fn pip_candidates() -> (r: Vec<String>)
        ensures
            r@.len() == 2,
            r@[0]@ == "pip3"@,
            r@[1]@ == "pip"@,
    {
        let mut v: Vec<String> = Vec::new();
        v.push("pip3".to_owned());
        v.push("pip".to_owned());
        v
    }
}

} // verus!
