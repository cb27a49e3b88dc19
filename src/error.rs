use vstd::prelude::*;

verus! {

/// Errors raised while reading the project configuration or resolving the
/// dependency graph between its canisters.
#[derive(Debug)]
pub enum DfxConfigError {
    /// A dependency cycle; the path ends with the name that closes the cycle.
    CanisterCircularDependency(Vec<String>),
    /// The requested canister is not declared in the project.
    CanisterNotFound(String),
    /// A canister (first) lists a dependency (second) that is not declared.
    CanisterDependencyNotFound(String, String),
    /// Two canisters of the project are declared under the same name.
    DuplicateCanisterName(String),
    /// The configuration declares no canisters at all.
    CanistersFieldDoesNotExist(),
    /// Resolution for the given canister (or for all canisters) failed.
    GetCanistersWithDependenciesFailed(Option<String>, Box<DfxConfigError>),
}

/// Errors raised while locating the per-user project directories.
#[derive(Debug)]
pub enum GetProjectDirsError {
    NoHomeInEnvironment(),
}

} // verus!
