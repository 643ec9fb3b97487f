//! Error type for Harmony.
//!
//! `HarmonyError` is a flat struct categorized by what the caller can do
//! (kind) and whether it is safe to retry (status). Callers interact via the
//! `is_xxx()` query methods.

use vstd::prelude::*;
use vstd::string::StringExecFns;

verus! {

/// What went wrong, by what the caller can do about it.
#[derive(Debug, Clone, Copy, PartialEq, Eq, Structural)]
pub enum ErrorKind {
    ConnectionFailed,
    SendFailed,
    DiscoveryFailed,
    ConfigInvalid,
    Internal,
}

/// Whether retrying may succeed.
#[derive(Debug, Clone, Copy, PartialEq, Eq, Structural)]
pub enum ErrorStatus {
    Permanent,
    Temporary,
}

#[derive(Debug)]
pub struct HarmonyError {
    kind: ErrorKind,
    status: ErrorStatus,
    message: String,
}

impl View for HarmonyError {
    type V = (ErrorKind, ErrorStatus, Seq<char>);

    closed spec fn view(&self) -> (ErrorKind, ErrorStatus, Seq<char>) {
        (self.kind, self.status, self.message@)
    }
}

impl HarmonyError {
    /// A connection failure (temporary).
    pub fn connection(message: &str) -> (r: Self)
        ensures
            r@ == (ErrorKind::ConnectionFailed, ErrorStatus::Temporary, message@),
    {
        HarmonyError {
            kind: ErrorKind::ConnectionFailed,
            status: ErrorStatus::Temporary,
            message: message.to_string(),
        }
    }

    /// A failure to send a message (temporary).
    pub fn send(message: &str) -> (r: Self)
        ensures
            r@ == (ErrorKind::SendFailed, ErrorStatus::Temporary, message@),
    {
        HarmonyError {
            kind: ErrorKind::SendFailed,
            status: ErrorStatus::Temporary,
            message: message.to_string(),
        }
    }

    /// A failure to discover channels or users (temporary).
    pub fn discovery(message: &str) -> (r: Self)
        ensures
            r@ == (ErrorKind::DiscoveryFailed, ErrorStatus::Temporary, message@),
    {
        HarmonyError {
            kind: ErrorKind::DiscoveryFailed,
            status: ErrorStatus::Temporary,
            message: message.to_string(),
        }
    }

    /// An invalid configuration (permanent).
    pub fn config(message: &str) -> (r: Self)
        ensures
            r@ == (ErrorKind::ConfigInvalid, ErrorStatus::Permanent, message@),
    {
        HarmonyError {
            kind: ErrorKind::ConfigInvalid,
            status: ErrorStatus::Permanent,
            message: message.to_string(),
        }
    }

    /// An internal error (permanent).
    pub fn internal(message: &str) -> (r: Self)
        ensures
            r@ == (ErrorKind::Internal, ErrorStatus::Permanent, message@),
    {
        HarmonyError {
            kind: ErrorKind::Internal,
            status: ErrorStatus::Permanent,
            message: message.to_string(),
        }
    }

    /// The same error, marked safe to retry.
    pub fn temporary(self) -> (r: Self)
        ensures
            r@ == (self@.0, ErrorStatus::Temporary, self@.2),
    {
        let mut e = self;
        e.status = ErrorStatus::Temporary;
        e
    }

    /// The same error, marked not worth retrying.
    pub fn permanent(self) -> (r: Self)
        ensures
            r@ == (self@.0, ErrorStatus::Permanent, self@.2),
    {
        let mut e = self;
        e.status = ErrorStatus::Permanent;
        e
    }

    /// Whether connecting to a platform failed.
    pub fn is_connection_failure(&self) -> (r: bool)
        ensures
            r == (self@.0 == ErrorKind::ConnectionFailed),
    {
        matches!(self.kind, ErrorKind::ConnectionFailed)
    }

    /// Whether sending a message failed.
    pub fn is_send_failure(&self) -> (r: bool)
        ensures
            r == (self@.0 == ErrorKind::SendFailed),
    {
        matches!(self.kind, ErrorKind::SendFailed)
    }

    /// Whether discovering channels or users failed.
    pub fn is_discovery_failure(&self) -> (r: bool)
        ensures
            r == (self@.0 == ErrorKind::DiscoveryFailed),
    {
        matches!(self.kind, ErrorKind::DiscoveryFailed)
    }

    /// Whether the configuration is invalid.
    pub fn is_config_invalid(&self) -> (r: bool)
        ensures
            r == (self@.0 == ErrorKind::ConfigInvalid),
    {
        matches!(self.kind, ErrorKind::ConfigInvalid)
    }

    /// Whether this is an internal error.
    pub fn is_internal(&self) -> (r: bool)
        ensures
            r == (self@.0 == ErrorKind::Internal),
    {
        matches!(self.kind, ErrorKind::Internal)
    }

    /// Whether retrying may succeed.
    pub fn is_temporary(&self) -> (r: bool)
        ensures
            r == (self@.1 == ErrorStatus::Temporary),
    {
        matches!(self.status, ErrorStatus::Temporary)
    }

    /// The error's message.
    pub fn message(&self) -> (r: &str)
        ensures
            r@ == self@.2,
    {
        self.message.as_str()
    }

    /// The error as shown to people: `"<message> (temporary)"` or
    /// `"<message> (permanent)"`.
    pub fn to_text(&self) -> (r: String)
        ensures
            r@ == self@.2 + " ("@ + (if self@.1 == ErrorStatus::Temporary {
                "temporary"@
            } else {
                "permanent"@
            }) + ")"@,
    {
        let status = if self.is_temporary() {
            "temporary"
        } else {
            "permanent"
        };
        let mut s = self.message.clone();
        s.append(" (");
        s.append(status);
        s.append(")");
        s
    }
}

/// An error after a chain of status changes, in order: `true` for
/// `temporary()`, `false` for `permanent()`.
pub open spec fn after_statuses(v: (ErrorKind, ErrorStatus, Seq<char>), ops: Seq<bool>) -> (ErrorKind, ErrorStatus, Seq<char>)
    decreases ops.len(),
{
    if ops.len() == 0 {
        v
    } else {
        let w = after_statuses(v, ops.drop_last());
        (
            w.0,
            if ops.last() {
                ErrorStatus::Temporary
            } else {
                ErrorStatus::Permanent
            },
            w.2,
        )
    }
}

/// The number of kind queries (`is_connection_failure`, `is_send_failure`,
/// `is_discovery_failure`, `is_config_invalid`, `is_internal`) that hold
/// for an error of kind `k`.
pub open spec fn kinds_holding(k: ErrorKind) -> int {
    (if k == ErrorKind::ConnectionFailed { 1int } else { 0int }) + (if k == ErrorKind::SendFailed {
        1int
    } else {
        0int
    }) + (if k == ErrorKind::DiscoveryFailed { 1int } else { 0int }) + (if k == ErrorKind::ConfigInvalid {
        1int
    } else {
        0int
    }) + (if k == ErrorKind::Internal { 1int } else { 0int })
}

/// An error keeps the kind and message its constructor gave it through any
/// chain of `temporary()` and `permanent()` calls, exactly one kind query
/// holds of it, and its status is the one last set (the constructor's when
/// none was).
pub proof fn law_status_changes_keep_kind(v: (ErrorKind, ErrorStatus, Seq<char>), ops: Seq<bool>)
    ensures
        after_statuses(v, ops).0 == v.0,
        after_statuses(v, ops).2 == v.2,
        after_statuses(v, ops).1 == (if ops.len() == 0 {
            v.1
        } else if ops.last() {
            ErrorStatus::Temporary
        } else {
            ErrorStatus::Permanent
        }),
        kinds_holding(after_statuses(v, ops).0) == 1,
    decreases ops.len(),
{
    if ops.len() > 0 {
        law_status_changes_keep_kind(v, ops.drop_last());
    }
}

} // verus!
