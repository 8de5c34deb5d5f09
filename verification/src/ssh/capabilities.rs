//! What an SSH session may do, independent of whether a login was authorized.
use vstd::prelude::*;

verus! {

#[derive(Debug, Clone, Copy, PartialEq, Eq, Structural)]
pub struct SshCapabilities {
    pub shell: bool,
    /// Single commands.
    pub commands: bool,
    pub sftp: bool,
    pub local_forward: bool,
    pub remote_forward: bool,
    pub agent_forward: bool,
    pub env_forward: bool,
}

/// Shell, commands, SFTP and environment variables; no forwarding.
pub open spec fn conservative() -> SshCapabilities {
    SshCapabilities {
        shell: true,
        commands: true,
        sftp: true,
        local_forward: false,
        remote_forward: false,
        agent_forward: false,
        env_forward: true,
    }
}

impl SshCapabilities {
    /// Direct mode starts conservative: shell, exec and SFTP, no forwarding.
    pub fn direct() -> (r: Self)
        ensures
            r == conservative(),
    {
        SshCapabilities {
            shell: true,
            commands: true,
            sftp: true,
            local_forward: false,
            remote_forward: false,
            agent_forward: false,
            env_forward: true,
        }
    }

    pub fn managed() -> (r: Self)
        ensures
            r == conservative(),
    {
        SshCapabilities::direct()
    }
}

} // verus!
