//! What a write may ask for and what comes of it.
use crate::error::{already_exists, precondition, Failure, StoreError};
use vstd::prelude::*;

verus! {

/// The state of an object that an update replaces.
#[derive(Debug)]
pub struct UpdateVersion {
    pub e_tag: Option<String>,
    pub version: Option<String>,
}

/// When a write may take place.
#[derive(Debug)]
pub enum PutMode {
    /// Always.
    Overwrite,
    /// Where no object stands.
    Create,
    /// Where the object is in this state.
    Update(UpdateVersion),
}

/// When a copy may take place.
#[derive(Clone, Copy, Debug, PartialEq, Eq, Structural)]
pub enum CopyMode {
    /// Always.
    Overwrite,
    /// Where no object stands.
    Create,
}

/// What a store says of an object that it has written.
#[derive(Debug)]
pub struct PutResult {
    pub e_tag: Option<String>,
    pub version: Option<String>,
}

/// The write that a copy ends in.
pub fn copy_put_mode(mode: CopyMode) -> (put: PutMode)
    ensures
        put == (match mode {
            CopyMode::Overwrite => PutMode::Overwrite,
            CopyMode::Create => PutMode::Create,
        }),
{
    match mode {
        CopyMode::Overwrite => PutMode::Overwrite,
        CopyMode::Create => PutMode::Create,
    }
}

/// What a write that its condition has stopped fails with.
pub open spec fn stopped_put(location: Seq<char>, mode: PutMode) -> Failure {
    match mode {
        PutMode::Create => Failure::AlreadyExists {
            path: location,
            message: "R2 create precondition failed"@,
        },
        _ => Failure::Precondition { path: location, message: "R2 update precondition failed"@ },
    }
}

/// The error of a write that its condition has stopped.
pub fn failed_put_precondition(location: &str, mode: &PutMode) -> (error: StoreError)
    ensures
        error@ == stopped_put(location@, *mode),
{
    match mode {
        PutMode::Create => already_exists(location, "R2 create precondition failed"),
        _ => precondition(location, "R2 update precondition failed"),
    }
}

/// A write that its condition has stopped fails at its location: a creating one because an object
/// stands there, any other because the object is not in the wanted state.
pub proof fn law_stopped_writes_say_why(location: Seq<char>, mode: PutMode)
    ensures
        mode is Create ==> (stopped_put(location, mode) matches Failure::AlreadyExists {
            path,
            message,
        } && path == location && message == "R2 create precondition failed"@),
        !(mode is Create) ==> (stopped_put(location, mode) matches Failure::Precondition {
            path,
            message,
        } && path == location && message == "R2 update precondition failed"@),
{
}

} // verus!
