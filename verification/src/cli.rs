use vstd::prelude::*;

use crate::errors::SyncError;
use crate::synth::{feed_of, rejection, Direction, SyncRequest, Transport};

verus! {

/// Flags of the sync subcommand, as the argument surface hands them over.
#[derive(Debug, Clone, PartialEq, Eq)]
pub struct SyncArgs {
    /// Only print the corresponding path and exit.
    pub path: bool,
    /// Only print the synthesized command and exit.
    pub print: bool,
    /// List files at the corresponding path instead of syncing.
    pub list: bool,
    /// Sync with the object store (default: host-based).
    pub s3: bool,
    /// Sync only git-tracked files.
    pub git: bool,
    /// Read the file list from the given file.
    pub pipe: Option<String>,
    /// Sync from the remote side (default: to it).
    pub from: bool,
    /// Target host for host-based sync.
    pub host: String,
    /// Arguments passed through to the inner program.
    pub prog_args: Vec<String>,
}

impl SyncArgs {
    /// The transport these flags select.
    pub open spec fn spec_transport(self) -> Transport {
        if self.s3 {
            Transport::ObjectStore
        } else {
            Transport::HostBased
        }
    }

    /// The direction these flags select.
    pub open spec fn spec_direction(self) -> Direction {
        if self.from {
            Direction::Pull
        } else {
            Direction::Push
        }
    }

    /// The target host handed to the request: none for the object store,
    /// whose transport takes no host.
    pub open spec fn spec_host(self) -> Option<String> {
        if self.s3 {
            None
        } else {
            Some(self.host)
        }
    }

    /// The marker filename this invocation resolves through.
    pub fn marker_filename(&self) -> (r: &'static str)
        ensures
            r@ == (if self.s3 {
                ".s3-prefix"@
            } else {
                ".vm-prefix"@
            }),
    {
        if self.s3 {
            ".s3-prefix"
        } else {
            ".vm-prefix"
        }
    }

    /// Builds the validated request for these flags and an already resolved
    /// remote path, rejecting impossible flag combinations.
    pub fn to_request(self, remote_path: String) -> (r: Result<SyncRequest, SyncError>)
        ensures
            match rejection(self.spec_transport(), self.git, self.pipe, self.spec_host()) {
                Some(msg) => r matches Err(e) && (e matches SyncError::InvalidCombination {
                    reason,
                } && reason@ == msg),
                None => r matches Ok(q) && q == (SyncRequest {
                    transport: self.spec_transport(),
                    direction: self.spec_direction(),
                    listing: self.list,
                    feed: feed_of(self.git, self.pipe),
                    host: self.spec_host(),
                    remote_path,
                    extra_args: self.prog_args,
                }) && q.valid(),
            },
    {
        let host = if self.s3 {
            None
        } else {
            Some(self.host)
        };
        let transport = if self.s3 {
            Transport::ObjectStore
        } else {
            Transport::HostBased
        };
        let direction = if self.from {
            Direction::Pull
        } else {
            Direction::Push
        };
        SyncRequest::new(
            transport,
            direction,
            self.list,
            self.git,
            self.pipe,
            host,
            remote_path,
            self.prog_args,
        )
    }
}

/// Flags of the MFA subcommand.
#[derive(Debug, Clone, PartialEq, Eq)]
pub struct MfaArgs {
    /// Multi-factor OTP token.
    pub token: Option<String>,
    /// Device serial identifier (default: from configuration).
    pub device: Option<String>,
    /// Only check whether the current token session has expired.
    pub check: bool,
}

/// What the machine subcommand is asked to do.
#[derive(Debug, Clone, Copy, PartialEq, Eq)]
pub enum Cmd {
    /// Start a machine.
    Start,
    /// Stop a machine.
    Stop,
    /// Point the local shell configuration at a machine.
    SetupSsh,
    /// Print the machine's identifier.
    Print,
    /// Describe the machine.
    Describe,
}

/// Flags of the machine subcommand.
#[derive(Debug, Clone, PartialEq, Eq)]
pub struct VmArgs {
    /// Command to run.
    pub cmd: Cmd,
    /// Machine identifier to operate on.
    pub id: Option<String>,
    /// Region for choosing a machine.
    pub region: Option<String>,
}

} // verus!
