use vstd::prelude::*;

use crate::permission::Permission;

verus! {

/// Errors of the lapps manager, the instance call protocol and the gateway.
#[derive(Debug)]
pub enum ServerError {
    /// The registry lock was left unusable by a holder that failed inside.
    LappsManagerNotLock,
    /// The lapp's instance is poisoned and takes no call until it is reloaded.
    LappNotLock,
    LappNotFound(String),
    LappNotEnabled(String),
    LappNotLoaded(String),
    LappAlreadyLoaded(String),
    LappAlreadyExists(String),
    LappStillLoaded(String),
    /// A call into the lapp is already in flight.
    LappBusy(String),
    /// The name cannot address a lapp (empty, or holding a `/`).
    UnknownLappName,
    LappPermissionDenied(String, Permission),
    /// The lapp has no gossip subscription to publish on.
    LappNotSubscribed(String),
    /// The instance has no export of that name: (lapp, export).
    ExportNotFound(String, String),
    /// The module trapped while executing the named export.
    TrapDuringExecution(String),
    WrongResultLength,
    ResultNotParsed,
    LappInitError(String),
}

/// `e` is `LappNotFound` for `name`.
pub open spec fn is_not_found(e: ServerError, name: Seq<char>) -> bool {
    e matches ServerError::LappNotFound(n) && n@ == name
}

pub open spec fn is_not_enabled(e: ServerError, name: Seq<char>) -> bool {
    e matches ServerError::LappNotEnabled(n) && n@ == name
}

pub open spec fn is_not_loaded(e: ServerError, name: Seq<char>) -> bool {
    e matches ServerError::LappNotLoaded(n) && n@ == name
}

pub open spec fn is_already_loaded(e: ServerError, name: Seq<char>) -> bool {
    e matches ServerError::LappAlreadyLoaded(n) && n@ == name
}

pub open spec fn is_already_exists(e: ServerError, name: Seq<char>) -> bool {
    e matches ServerError::LappAlreadyExists(n) && n@ == name
}

pub open spec fn is_still_loaded(e: ServerError, name: Seq<char>) -> bool {
    e matches ServerError::LappStillLoaded(n) && n@ == name
}

pub open spec fn is_busy(e: ServerError, name: Seq<char>) -> bool {
    e matches ServerError::LappBusy(n) && n@ == name
}

pub open spec fn is_denied(e: ServerError, name: Seq<char>, p: Permission) -> bool {
    e matches ServerError::LappPermissionDenied(n, q) && n@ == name && q == p
}

pub open spec fn is_not_subscribed(e: ServerError, name: Seq<char>) -> bool {
    e matches ServerError::LappNotSubscribed(n) && n@ == name
}

pub open spec fn is_export_not_found(e: ServerError, name: Seq<char>, export: Seq<char>) -> bool {
    e matches ServerError::ExportNotFound(n, x) && n@ == name && x@ == export
}

pub open spec fn is_trap(e: ServerError, name: Seq<char>) -> bool {
    e matches ServerError::TrapDuringExecution(n) && n@ == name
}


/// The HTTP status that the gateway answers an error with.
pub open spec fn status_of(e: ServerError) -> u16 {
    match e {
        ServerError::LappNotFound(_) => 404,
        ServerError::UnknownLappName => 404,
        ServerError::ExportNotFound(_, _) => 404,
        ServerError::LappNotEnabled(_) => 409,
        ServerError::LappNotLoaded(_) => 409,
        ServerError::LappAlreadyLoaded(_) => 409,
        ServerError::LappAlreadyExists(_) => 409,
        ServerError::LappStillLoaded(_) => 409,
        ServerError::LappNotSubscribed(_) => 409,
        ServerError::LappBusy(_) => 503,
        ServerError::LappPermissionDenied(_, _) => 403,
        ServerError::LappsManagerNotLock => 500,
        ServerError::LappNotLock => 500,
        ServerError::TrapDuringExecution(_) => 500,
        ServerError::WrongResultLength => 500,
        ServerError::ResultNotParsed => 500,
        ServerError::LappInitError(_) => 500,
    }
}

impl ServerError {
    /// The HTTP status code for this error: 404 for what does not exist,
    /// 409 for a lapp in the wrong lifecycle state, 403 for a denied
    /// permission, 503 for a lapp busy with another call, 500 otherwise.
    pub fn status_code(&self) -> (r: u16)
        ensures
            r == status_of(*self),
    {
        match self {
            ServerError::LappNotFound(_) => 404,
            ServerError::UnknownLappName => 404,
            ServerError::ExportNotFound(_, _) => 404,
            ServerError::LappNotEnabled(_) => 409,
            ServerError::LappNotLoaded(_) => 409,
            ServerError::LappAlreadyLoaded(_) => 409,
            ServerError::LappAlreadyExists(_) => 409,
            ServerError::LappStillLoaded(_) => 409,
            ServerError::LappNotSubscribed(_) => 409,
            ServerError::LappBusy(_) => 503,
            ServerError::LappPermissionDenied(_, _) => 403,
            ServerError::LappsManagerNotLock => 500,
            ServerError::LappNotLock => 500,
            ServerError::TrapDuringExecution(_) => 500,
            ServerError::WrongResultLength => 500,
            ServerError::ResultNotParsed => 500,
            ServerError::LappInitError(_) => 500,
        }
    }
}

} // verus!
