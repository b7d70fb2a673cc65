//! What the SSH connection reports to the client.

use vstd::prelude::*;

verus! {

/// An event of the remote session.
#[derive(Debug)]
pub enum SshEvent {
    /// Output of the remote shell.
    Data(Vec<u8>),
    /// The remote side closed its output.
    Eof,
    /// The remote command exited with this status.
    ExitStatus(u32),
}

} // verus!
