//! What an offload handler answers, what the Android side replies, and the
//! permission gate in front of the handlers.
use vstd::prelude::*;
use crate::json::json_null;
use crate::params::ParamValue;
use crate::text::{chars_of, extend_str, owned, string_of};

verus! {

broadcast use vstd::string::group_string_axioms;

/// The answer of an offload handler.
#[derive(Debug)]
pub struct OffloadResult {
    pub success: bool,
    /// What the Android side or the web service returned (JSON null when
    /// there is nothing).
    pub data: serde_json::Value,
    pub error: Option<String>,
    /// The exit code a command-line caller sees: 0 on success, 1 when the
    /// work failed, 2 for bad arguments, 126 when permission is denied.
    pub exit_code: i32,
}

/// `r` is a failure with message `m` and exit code `code`.
pub open spec fn fails(r: OffloadResult, m: Seq<char>, code: i32) -> bool {
    &&& !r.success
    &&& r.error matches Some(e) && e@ == m
    &&& r.exit_code == code
}

/// `r` is the answer to arguments rejected with message `m`.
pub open spec fn bad_args(r: OffloadResult, m: Seq<char>) -> bool {
    fails(r, m, 2)
}

/// The message of a refused permission.
pub open spec fn denial_message(display_name: Seq<char>) -> Seq<char> {
    "permission_denied: "@ + display_name
}

impl OffloadResult {
    /// A success carrying `data`.
    pub fn ok(data: serde_json::Value) -> (r: OffloadResult)
        ensures
            r.success,
            r.data == data,
            r.error is None,
            r.exit_code == 0,
    {
        OffloadResult { success: true, data, error: None, exit_code: 0 }
    }

    /// A failure with `message` and exit code `code`, carrying no data.
    pub fn error(message: &str, code: i32) -> (r: OffloadResult)
        ensures
            fails(r, message@, code),
    {
        OffloadResult { success: false, data: json_null(), error: Some(owned(message)), exit_code: code }
    }

    /// Arguments rejected with `message` (exit code 2).
    pub fn bad_args(message: &str) -> (r: OffloadResult)
        ensures
            bad_args(r, message@),
    {
        Self::error(message, 2)
    }

    /// The permission for `display_name` was refused (exit code 126).
    pub fn permission_denied(display_name: &str) -> (r: OffloadResult)
        ensures
            fails(r, denial_message(display_name@), 126),
    {
        let mut m = chars_of("permission_denied: ");
        extend_str(&mut m, display_name);
        let m = string_of(&m);
        Self::error(m.as_str(), 126)
    }

    /// The answer to a reply of the Android side: a failure with exit code
    /// 1 when the reply holds an `error` member (its text, when it is a
    /// string, becomes the error), else a success; the reply is the data
    /// either way.
    pub fn from_reply(reply: JniReply) -> (r: OffloadResult)
        ensures
            r.data == reply.data,
            match reply.error {
                Some(e) => !r.success && r.exit_code == 1 && match e {
                    ParamValue::Str(s) => r.error == Some(s),
                    _ => r.error is None,
                },
                None => r.success && r.error is None && r.exit_code == 0,
            },
    {
        match reply.error {
            Some(e) => {
                let error = match e {
                    ParamValue::Str(s) => Some(s),
                    _ => None,
                };
                OffloadResult { success: false, data: reply.data, error, exit_code: 1 }
            },
            None => Self::ok(reply.data),
        }
    }
}

/// A reply of the Android side: the JSON it returned and its `error`
/// member, if it has one.
#[derive(Debug)]
pub struct JniReply {
    pub data: serde_json::Value,
    pub error: Option<ParamValue>,
}

/// Whether a capability may be used.
#[derive(Debug, Clone, Copy, PartialEq, Eq, Structural)]
pub enum PermissionState {
    Allowed,
    /// Allowed after asking the user once; asking is not wired up yet, so
    /// this is let through.
    AskOnce,
    NotAllowed,
}

/// The permission check in front of every handler.
#[derive(Debug, Clone, Copy)]
pub struct OffloadGate;

impl OffloadGate {
    /// Given the handler's permission state and display name: `None` to go
    /// ahead, or the denial to answer with.
    pub fn enforce(state: PermissionState, display_name: &str) -> (r: Option<OffloadResult>)
        ensures
            state == PermissionState::NotAllowed <==> r is Some,
            r matches Some(d) ==> fails(d, denial_message(display_name@), 126),
    {
        match state {
            PermissionState::Allowed => None,
            PermissionState::AskOnce => None,
            PermissionState::NotAllowed => Some(OffloadResult::permission_denied(display_name)),
        }
    }
}

} // verus!
