//! The engine connection slot: the process-wide record of whether a shared
//! engine client exists and which socket it was opened on.
//!
//! Discovery tries the default local connection first (label `"default"`),
//! then, on macOS, the VM runtime's conventional socket under the user's
//! home directory. The slot only records the outcome; opening the
//! connection itself is the shell's work. Every operation asks the slot
//! whether the cached client can be reused or discovery must run again.

use vstd::prelude::*;
use vstd::string::*;
use crate::text::str_eq;

verus! {

/// Request timeout, in seconds, when connecting over the VM runtime's
/// socket.
pub const COLIMA_CONNECT_TIMEOUT_SECS: u64 = 120;

/// The label recorded when default discovery succeeded.
pub fn default_connection_label() -> (r: String)
    ensures
        r@ == "default"@,
{
    String::from_str("default")
}

/// The VM runtime's conventional socket path under this home directory.
pub fn colima_socket_path(home: &str) -> (r: String)
    ensures
        r@ == home@ + "/.colima/default/docker.sock"@,
{
    let mut p = String::from_str(home);
    p.append("/.colima/default/docker.sock");
    p
}

/// The same socket as a connection URL.
pub fn colima_socket_url(home: &str) -> (r: String)
    ensures
        r@ == "unix://"@ + home@ + "/.colima/default/docker.sock"@,
{
    let mut p = String::from_str("unix://");
    p.append(home);
    p.append("/.colima/default/docker.sock");
    p
}

/// The `-H` argument for the engine CLI: set exactly when the cached label
/// is a real socket path rather than the default connection.
pub fn cli_host_arg(path: &str) -> (r: Option<String>)
    ensures
        path@ == "default"@ || path@.len() == 0 ==> r is None,
        path@ != "default"@ && path@.len() > 0 ==> (r matches Some(h) && h@ == "unix://"@
            + path@),
{
    if path.is_empty() || str_eq(path, "default") {
        None
    } else {
        let mut h = String::from_str("unix://");
        h.append(path);
        Some(h)
    }
}

/// Process-wide connection slot: whether a client is cached, and the path
/// label it was created with (`"default"`, a socket path, or empty while
/// nothing is connected).
pub struct ConnectionSlot {
    pub has_client: bool,
    pub path: String,
}

impl ConnectionSlot {
    /// The empty slot: no client yet, no label.
    pub fn new() -> (r: Self)
        ensures
            !r.has_client,
            r.path@ == Seq::<char>::empty(),
    {
        ConnectionSlot { has_client: false, path: String::new() }
    }

    /// Whether an operation can reuse the cached client (`false`) or must
    /// run discovery first (`true`). Cheap to ask per operation.
    pub fn must_connect(&self) -> (r: bool)
        ensures
            r == !self.has_client,
    {
        !self.has_client
    }

    /// Discovery succeeded: record the client and the label it was opened
    /// under.
    pub fn note_connected(&mut self, path: String)
        ensures
            final(self).has_client,
            final(self).path == path,
    {
        self.has_client = true;
        self.path = path;
    }

    /// The label of the current connection.
    pub fn get_path(&self) -> (r: String)
        ensures
            r@ == self.path@,
    {
        self.path.clone()
    }
}

} // verus!
