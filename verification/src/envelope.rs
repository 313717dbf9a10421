//! The uniform reply shape every command returns to the UI, together with
//! the discipline it obeys: exactly one of `data` / `error` is present,
//! matching `success`.

use vstd::prelude::*;

verus! {

/// Reply envelope for a command: `success` tells which of `data` / `error`
/// may be present. A successful reply may carry no payload at all.
pub struct CommandResponse<T> {
    pub success: bool,
    pub data: Option<T>,
    pub error: Option<String>,
}

/// Envelope discipline: a successful reply carries no error, and a failed
/// reply carries an error and no data.
pub open spec fn envelope_wf<T>(r: CommandResponse<T>) -> bool {
    &&& r.success ==> r.error is None
    &&& !r.success ==> r.data is None && r.error is Some
}

impl<T> CommandResponse<T> {
    /// Successful reply carrying a payload.
    pub fn ok(data: T) -> (r: Self)
        ensures
            r.success,
            r.data == Some(data),
            r.error is None,
            envelope_wf(r),
    {
        CommandResponse { success: true, data: Some(data), error: None }
    }

    /// Successful reply with no payload.
    pub fn ok_empty() -> (r: Self)
        ensures
            r.success,
            r.data is None,
            r.error is None,
            envelope_wf(r),
    {
        CommandResponse { success: true, data: None, error: None }
    }

    /// Failed reply carrying a human-readable error message.
    pub fn err(msg: &str) -> (r: Self)
        ensures
            !r.success,
            r.data is None,
            r.error matches Some(m) && m@ == msg@,
            envelope_wf(r),
    {
        CommandResponse { success: false, data: None, error: Some(msg.to_owned()) }
    }

    /// Wrap an operation's outcome: the payload on success, the message on
    /// failure.
    pub fn from_result(r: Result<T, String>) -> (resp: Self)
        ensures
            r matches Ok(v) ==> resp.success && resp.data == Some(v) && resp.error is None,
            r matches Err(e) ==> !resp.success && resp.data is None && resp.error == Some(e),
            envelope_wf(resp),
    {
        match r {
            Ok(v) => CommandResponse { success: true, data: Some(v), error: None },
            Err(e) => CommandResponse { success: false, data: None, error: Some(e) },
        }
    }
}

} // verus!
