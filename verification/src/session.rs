//! Session records.

use vstd::prelude::*;

verus! {

/// The state of the process that a session runs.
#[derive(Debug, Clone, Copy, PartialEq, Eq, Structural)]
pub enum SessionStatus {
    Running,
    Paused,
    Exited,
}

/// Whether a client is attached to a session.
#[derive(Debug, Clone, Copy, PartialEq, Eq, Structural)]
pub enum SessionAttachment {
    Attached,
    Detached,
}

/// What is recorded of a session.
#[derive(Debug, Clone, PartialEq, Eq)]
pub struct SessionRecord {
    pub session_id: String,
    pub name: Option<String>,
    pub supervisor_pid: u32,
    pub child_pid: u32,
    /// When the session was started, as RFC 3339 text.
    pub started: String,
    /// When the session was started, in seconds since the Unix epoch.
    pub started_epoch: u64,
    pub status: SessionStatus,
    pub attachment: SessionAttachment,
    pub exit_code: Option<i32>,
    pub command: Vec<String>,
    pub profile: Option<String>,
    pub workdir: Vec<u8>,
    pub network: String,
    pub rollback_session: Option<String>,
}

pub open spec fn status_name(status: SessionStatus) -> Seq<char> {
    match status {
        SessionStatus::Running => "Running"@,
        SessionStatus::Paused => "Paused"@,
        SessionStatus::Exited => "Exited"@,
    }
}

pub open spec fn attachment_name(attachment: SessionAttachment) -> Seq<char> {
    match attachment {
        SessionAttachment::Attached => "Attached"@,
        SessionAttachment::Detached => "Detached"@,
    }
}

impl SessionStatus {
    /// The name of the state.
    pub fn name(&self) -> (out: &'static str)
        ensures
            out@ == status_name(*self),
    {
        match self {
            SessionStatus::Running => "Running",
            SessionStatus::Paused => "Paused",
            SessionStatus::Exited => "Exited",
        }
    }
}

impl SessionAttachment {
    /// The name of the state.
    pub fn name(&self) -> (out: &'static str)
        ensures
            out@ == attachment_name(*self),
    {
        match self {
            SessionAttachment::Attached => "Attached",
            SessionAttachment::Detached => "Detached",
        }
    }
}

/// The names of the states are those of the variants.
pub proof fn law_states_are_named(status: SessionStatus, attachment: SessionAttachment)
    ensures
        status == SessionStatus::Running ==> status_name(status) == "Running"@,
        status == SessionStatus::Paused ==> status_name(status) == "Paused"@,
        status == SessionStatus::Exited ==> status_name(status) == "Exited"@,
        attachment == SessionAttachment::Attached ==> attachment_name(attachment) == "Attached"@,
        attachment == SessionAttachment::Detached ==> attachment_name(attachment) == "Detached"@,
{
}

} // verus!
