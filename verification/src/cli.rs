//! What the user asked for, command by command.

use vstd::prelude::*;

use crate::capability::AccessMode;

verus! {

/// The status that `nono ps --status` pins.
#[derive(Debug, Clone, Copy, PartialEq, Eq, Structural)]
pub enum PsStatusFilter {
    Running,
    Paused,
    Exited,
}

/// The key of `nono ps --sort`.
#[derive(Debug, Clone, Copy, PartialEq, Eq, Structural)]
pub enum PsSortBy {
    Started,
    Name,
    Status,
    Profile,
}

/// The text formats of `nono ps --output`.
#[derive(Debug, Clone, Copy, PartialEq, Eq, Structural)]
pub enum PsOutputFormat {
    Csv,
    Tsv,
    Ndjson,
}

/// How the header of the session table is drawn.
#[derive(Debug, Clone, Copy, PartialEq, Eq, Structural)]
pub enum PsHeaderFormat {
    Fancy,
    Ascii,
    NoHeader,
}

impl Default for PsHeaderFormat {
    fn default() -> (fmt: PsHeaderFormat)
        ensures
            fmt == PsHeaderFormat::Fancy,
    {
        PsHeaderFormat::Fancy
    }
}

/// The columns of the session table, in their usual order.
#[derive(Debug, Clone, Copy, PartialEq, Eq, Structural)]
pub enum PsColumn {
    Session,
    Name,
    Status,
    Attach,
    Pid,
    Uptime,
    Profile,
    Command,
}

/// `nono ps`.
#[derive(Debug, Clone, PartialEq, Eq)]
pub struct PsArgs {
    pub json: bool,
    pub all: bool,
    pub name: Option<String>,
    pub profile: Option<String>,
    pub status: Option<PsStatusFilter>,
    pub exit_code: Option<i32>,
    pub since: Option<String>,
    pub sort: Option<PsSortBy>,
    pub reverse: bool,
    pub short: bool,
    pub output: Option<PsOutputFormat>,
    pub watch: Option<String>,
    pub compact: bool,
    pub header_format: PsHeaderFormat,
    pub no_truncate: bool,
    pub columns: Vec<PsColumn>,
    pub field: Option<String>,
    pub max_iterations: Option<u64>,
}

/// `nono stop`.
#[derive(Debug, Clone, PartialEq, Eq)]
pub struct StopArgs {
    pub session: String,
    pub force: bool,
    /// Seconds to wait before the session is killed.
    pub timeout: u64,
}

/// `nono detach`.
#[derive(Debug, Clone, PartialEq, Eq)]
pub struct DetachArgs {
    pub session: String,
}

/// `nono attach`.
#[derive(Debug, Clone, PartialEq, Eq)]
pub struct AttachArgs {
    pub session: String,
}

/// `nono logs`.
#[derive(Debug, Clone, PartialEq, Eq)]
pub struct LogsArgs {
    pub session: String,
    pub follow: bool,
    pub tail: Option<usize>,
    pub json: bool,
}

/// `nono inspect`.
#[derive(Debug, Clone, PartialEq, Eq)]
pub struct InspectArgs {
    pub session: String,
    pub json: bool,
    pub compact: bool,
    pub field: Option<String>,
    pub events: bool,
    pub logs_tail: Option<usize>,
}

/// `nono prune`.
#[derive(Debug, Clone, PartialEq, Eq)]
pub struct PruneArgs {
    pub dry_run: bool,
    /// Minimum age, as a duration.
    pub age: Option<String>,
    /// Minimum age, in days.
    pub older_than: Option<u64>,
    pub keep: Option<usize>,
    pub json: bool,
    pub compact: bool,
    pub interactive: bool,
}

/// `nono dry-run-schema`.
#[derive(Debug, Clone, PartialEq, Eq)]
pub struct DryRunSchemaArgs {
    pub output: Option<Vec<u8>>,
    pub field: Option<String>,
    pub compact: bool,
}

/// The operation that `nono why --op` names.
#[derive(Debug, Clone, Copy, PartialEq, Eq, Structural)]
pub enum WhyOp {
    Read,
    Write,
    ReadWrite,
}

/// `nono why`.
#[derive(Debug, Clone, PartialEq, Eq)]
pub struct WhyArgs {
    pub path: Option<Vec<u8>>,
    pub op: Option<WhyOp>,
    pub host: Option<String>,
    pub port: u16,
    pub net: Option<String>,
    pub tcp: Option<u16>,
    pub command_name: Option<String>,
    pub json: bool,
    pub compact: bool,
    pub explain: bool,
    pub print_policy: bool,
    pub self_query: bool,
    pub profile: Option<String>,
    pub allow: Vec<Vec<u8>>,
    pub read: Vec<Vec<u8>>,
    pub write: Vec<Vec<u8>>,
    pub allow_file: Vec<Vec<u8>>,
    pub read_file: Vec<Vec<u8>>,
    pub write_file: Vec<Vec<u8>>,
    pub block_net: bool,
    pub workdir: Option<Vec<u8>>,
    pub allow_command: Vec<String>,
    pub block_command: Vec<String>,
}

pub open spec fn requested_access(op: Option<WhyOp>) -> AccessMode {
    match op {
        Some(WhyOp::Read) => AccessMode::Read,
        Some(WhyOp::Write) => AccessMode::Write,
        Some(WhyOp::ReadWrite) => AccessMode::ReadWrite,
        None => AccessMode::Read,
    }
}

/// The access that a query asks about; reading, where nothing is said.
pub fn access_of(op: Option<WhyOp>) -> (mode: AccessMode)
    ensures
        mode == requested_access(op),
{
    match op {
        Some(WhyOp::Read) => AccessMode::Read,
        Some(WhyOp::Write) => AccessMode::Write,
        Some(WhyOp::ReadWrite) => AccessMode::ReadWrite,
        None => AccessMode::Read,
    }
}

/// A question asks about reading unless it says that only writing is meant, and about writing
/// exactly when it says so.
pub proof fn law_operation_names_the_rights(op: Option<WhyOp>)
    ensures
        requested_access(op) == AccessMode::Write <==> op == Some(WhyOp::Write),
        requested_access(op) == AccessMode::ReadWrite <==> op == Some(WhyOp::ReadWrite),
        requested_access(op) == AccessMode::Read <==> op is None || op == Some(WhyOp::Read),
{
}

} // verus!
