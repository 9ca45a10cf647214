//! Answers to "is this operation permitted?" for `nono why`.

use vstd::prelude::*;
use vstd::utf8::*;

use crate::capability;
use crate::capability::{AccessMode, CapabilitySet, FsCapability};
use crate::error;
use crate::error::{ErrorView, NonoError};
use crate::numbers;
use crate::order;
use crate::paint;
use crate::paths;
use crate::text;

verus! {

/// The capability that matched, or nearly matched, a query.
#[derive(Debug, Clone, PartialEq, Eq)]
pub struct CapabilityMatch {
    /// Granted path.
    pub path: String,
    /// Granted access mode.
    pub access: String,
    /// Where the grant comes from: user, profile, group:<name> or system.
    pub source: String,
}

#[verifier::ext_equal]
pub struct CapabilityMatchView {
    pub path: Seq<char>,
    pub access: Seq<char>,
    pub source: Seq<char>,
}

impl View for CapabilityMatch {
    type V = CapabilityMatchView;

    open spec fn view(&self) -> CapabilityMatchView {
        CapabilityMatchView { path: self.path@, access: self.access@, source: self.source@ }
    }
}

/// Whether an operation is permitted, and why.
#[derive(Debug, Clone, PartialEq, Eq)]
pub enum QueryResult {
    /// The operation is allowed.
    Allowed {
        reason: String,
        granted_path: Option<String>,
        access: Option<String>,
        source: Option<String>,
    },
    /// The operation is denied.
    Denied {
        reason: String,
        details: Option<String>,
        policy_source: Option<String>,
        matching_capability: Option<CapabilityMatch>,
        suggested_flag: Option<String>,
    },
    /// There is no sandbox to ask about.
    NotSandboxed { message: String },
}

#[verifier::ext_equal]
pub enum QueryResultView {
    Allowed {
        reason: Seq<char>,
        granted_path: Option<Seq<char>>,
        access: Option<Seq<char>>,
        source: Option<Seq<char>>,
    },
    Denied {
        reason: Seq<char>,
        details: Option<Seq<char>>,
        policy_source: Option<Seq<char>>,
        matching_capability: Option<CapabilityMatchView>,
        suggested_flag: Option<Seq<char>>,
    },
    NotSandboxed { message: Seq<char> },
}

impl View for QueryResult {
    type V = QueryResultView;

    open spec fn view(&self) -> QueryResultView {
        match self {
            QueryResult::Allowed { reason, granted_path, access, source } => {
                QueryResultView::Allowed {
                    reason: reason@,
                    granted_path: text::opt_text(*granted_path),
                    access: text::opt_text(*access),
                    source: text::opt_text(*source),
                }
            },
            QueryResult::Denied {
                reason,
                details,
                policy_source,
                matching_capability,
                suggested_flag,
            } => {
                QueryResultView::Denied {
                    reason: reason@,
                    details: text::opt_text(*details),
                    policy_source: text::opt_text(*policy_source),
                    matching_capability: match matching_capability {
                        Some(m) => Some(m@),
                        None => None,
                    },
                    suggested_flag: text::opt_text(*suggested_flag),
                }
            },
            QueryResult::NotSandboxed { message } => {
                QueryResultView::NotSandboxed { message: message@ }
            },
        }
    }
}

/// What is known of a path on disk.
#[derive(Debug, Clone, PartialEq, Eq)]
pub enum Resolution {
    /// It exists, and this is its canonical form.
    Resolved(Vec<u8>),
    /// It exists, but could not be made canonical, for the reason given.
    Failed(String),
    /// It does not exist.
    Missing,
}

/// What is known of a queried path and of its parent directory.
#[derive(Debug, Clone, PartialEq, Eq)]
pub struct PathProbe {
    pub itself: Resolution,
    pub parent: Resolution,
}

/// The path that a query is about: canonical where it exists, else below its canonical parent,
/// else as it was given.
pub open spec fn query_target(path: Seq<u8>, probe: PathProbe) -> Result<Seq<u8>, ErrorView> {
    match probe.itself {
        Resolution::Resolved(p) => Ok(p@),
        Resolution::Failed(e) => Err(ErrorView::PathCanonicalization { path, source: e@ }),
        Resolution::Missing => match paths::parent_of(path) {
            None => Ok(path),
            Some(parent) => match probe.parent {
                Resolution::Resolved(p) => Ok(
                    paths::joined_path(
                        p@,
                        match paths::file_name_of(path) {
                            Some(name) => name,
                            None => Seq::empty(),
                        },
                    ),
                ),
                Resolution::Failed(e) => Err(
                    ErrorView::PathCanonicalization { path: parent, source: e@ },
                ),
                Resolution::Missing => Ok(path),
            },
        },
    }
}

/// Lenient canonicalization: a query about a file that is yet to be created is resolved against
/// its real directory.
pub fn canonicalize_for_query(path: &[u8], probe: &PathProbe) -> (r: Result<Vec<u8>, NonoError>)
    ensures
        error::outcome(r) == query_target(path@, *probe),
{
    match &probe.itself {
        Resolution::Resolved(p) => Ok(paths::bytes_copy(p)),
        Resolution::Failed(e) => Err(
            NonoError::PathCanonicalization { path: paths::bytes_copy(path), source: e.clone() },
        ),
        Resolution::Missing => {
            if let Some(parent) = paths::parent(path) {
                match &probe.parent {
                    Resolution::Resolved(p) => {
                        let name = match paths::file_name(path) {
                            Some(name) => name,
                            None => Vec::new(),
                        };
                        Ok(paths::join_path(p, &name))
                    },
                    Resolution::Failed(e) => Err(
                        NonoError::PathCanonicalization { path: parent, source: e.clone() },
                    ),
                    Resolution::Missing => Ok(paths::bytes_copy(path)),
                }
            } else {
                Ok(paths::bytes_copy(path))
            }
        },
    }
}

/// What is known on disk of the path that a query resolves to.
#[derive(Debug, Clone, Copy, PartialEq, Eq, Structural)]
pub struct TargetFacts {
    pub exists: bool,
    pub is_file: bool,
    pub is_dir: bool,
}

/// The flag that grants `requested` access to a file, or to a directory.
pub open spec fn flag_text(is_file: bool, requested: AccessMode) -> Seq<char> {
    match (is_file, requested) {
        (true, AccessMode::Read) => "--read-file"@,
        (true, AccessMode::Write) => "--write-file"@,
        (true, AccessMode::ReadWrite) => "--allow-file"@,
        (false, AccessMode::Read) => "--read"@,
        (false, AccessMode::Write) => "--write"@,
        (false, AccessMode::ReadWrite) => "--allow"@,
    }
}

/// The path that a flag should name: for what does not exist its parent, but never the root.
pub open spec fn suggested_target(path: Seq<u8>, facts: TargetFacts) -> Seq<u8> {
    match paths::parent_of(path) {
        Some(parent) if !facts.exists && !facts.is_dir && !paths::same_path(
            parent,
            seq![paths::SEP],
        ) => parent,
        _ => path,
    }
}

/// The flag and the path to suggest for a denied path.
pub fn suggested_flag_parts(path: &[u8], requested: AccessMode, facts: TargetFacts) -> (parts: (
    &'static str,
    Vec<u8>,
))
    ensures
        parts.0@ == flag_text(facts.is_file, requested),
        parts.1@ == suggested_target(path@, facts),
{
    let flag = if facts.is_file {
        match requested {
            AccessMode::Read => "--read-file",
            AccessMode::Write => "--write-file",
            AccessMode::ReadWrite => "--allow-file",
        }
    } else {
        match requested {
            AccessMode::Read => "--read",
            AccessMode::Write => "--write",
            AccessMode::ReadWrite => "--allow",
        }
    };
    if facts.exists || facts.is_dir {
        return (flag, paths::bytes_copy(path));
    }
    let target = match paths::parent(path) {
        None => paths::bytes_copy(path),
        Some(parent) => {
            let root: [u8; 1] = [paths::SEP];
            assert(root@ =~= seq![paths::SEP]);
            if paths::path_eq(&parent, &root) {
                paths::bytes_copy(path)
            } else {
                parent
            }
        },
    };
    (flag, target)
}

pub open spec fn suggestion_text(path: Seq<u8>, requested: AccessMode, facts: TargetFacts) -> Seq<
    char,
> {
    flag_text(facts.is_file, requested) + " "@ + paths::shown(suggested_target(path, facts))
}

/// The suggested flag with its path, as typed on the command line.
pub fn suggested_flag_for_path(path: &[u8], requested: AccessMode, facts: TargetFacts) -> (out:
    String)
    ensures
        out@ == suggestion_text(path@, requested, facts),
{
    let (flag, target) = suggested_flag_parts(path, requested, facts);
    let mut out = flag.to_owned();
    out.append(" ");
    let shown = paths::display(&target);
    out.append(shown.as_str());
    out
}

/// Suggesting a grant never suggests the root, unless the root itself was asked about.
pub proof fn law_root_is_never_suggested(path: Seq<u8>, facts: TargetFacts)
    requires
        paths::same_path(suggested_target(path, facts), seq![paths::SEP]),
    ensures
        paths::same_path(path, seq![paths::SEP]),
{
}

/// The suggested path has the queried path under it, so that the grant would cover it.
pub proof fn law_suggestion_covers_path(path: Seq<u8>, facts: TargetFacts)
    ensures
        paths::is_under(path, suggested_target(path, facts)),
{
    paths::law_under_itself(path);
    if paths::parent_of(path) is Some {
        paths::law_under_parent(path);
    }
}

/// A policy group that marks a path as sensitive.
#[derive(Debug, Clone, PartialEq, Eq)]
pub struct SensitiveMatch {
    pub group_name: String,
    pub description: String,
}

/// Whether the grant extends to the path.
pub open spec fn covers(cap: FsCapability, path: Seq<u8>) -> bool {
    if cap.is_file {
        paths::same_path(cap.resolved@, path)
    } else {
        paths::is_under(path, cap.resolved@)
    }
}

/// Whether the grant extends to the path, with enough access where some is asked for.
pub open spec fn qualifies(
    cap: FsCapability,
    path: Seq<u8>,
    requested: Option<AccessMode>,
) -> bool {
    &&& covers(cap, path)
    &&& (requested is Some ==> capability::is_sufficient(cap.access, requested->0))
}

/// Among the first `n` grants, number `k` is the most specific one that qualifies: none has a
/// longer path, and none that comes later has one as long.
pub open spec fn is_best_of(
    fs: Seq<FsCapability>,
    path: Seq<u8>,
    requested: Option<AccessMode>,
    n: int,
    k: int,
) -> bool {
    &&& 0 <= k < n
    &&& qualifies(fs[k], path, requested)
    &&& forall|j: int|
        0 <= j < n && qualifies(#[trigger] fs[j], path, requested) ==> fs[j].resolved@.len()
            < fs[k].resolved@.len() || (fs[j].resolved@.len() == fs[k].resolved@.len() && j <= k)
}

/// The number of the most specific grant that qualifies.
pub open spec fn best_grant(
    fs: Seq<FsCapability>,
    path: Seq<u8>,
    requested: Option<AccessMode>,
) -> Option<int> {
    if exists|k: int| is_best_of(fs, path, requested, fs.len() as int, k) {
        Some(choose|k: int| is_best_of(fs, path, requested, fs.len() as int, k))
    } else {
        None
    }
}

/// Whether the path is, or is below, a path that was exempted from the deny groups.
pub open spec fn is_exempt(path: Seq<u8>, overridden: Seq<Vec<u8>>) -> bool {
    exists|k: int| 0 <= k < overridden.len() && paths::is_under(path, #[trigger] overridden[k]@)
}

/// The answer for a path that the policy marks as sensitive.
pub open spec fn sensitive_denial(group: Seq<char>, description: Seq<char>) -> QueryResultView {
    QueryResultView::Denied {
        reason: "sensitive_path"@,
        details: Some(
            "Blocked by policy group '"@ + group + "': "@ + description
                + " Use policy.override_deny to exempt specific paths when appropriate."@,
        ),
        policy_source: Some("group:"@ + group),
        matching_capability: None,
        suggested_flag: None,
    }
}

/// The answer that the grants alone give.
pub open spec fn grant_verdict(
    path: Seq<u8>,
    requested: AccessMode,
    fs: Seq<FsCapability>,
    target: TargetFacts,
) -> QueryResultView {
    match best_grant(fs, path, Some(requested)) {
        Some(k) => QueryResultView::Allowed {
            reason: "granted_path"@,
            granted_path: Some(paths::shown(fs[k].resolved@)),
            access: Some(capability::access_text(fs[k].access)),
            source: Some(capability::source_text(fs[k].source)),
        },
        None => match best_grant(fs, path, None) {
            Some(k) => QueryResultView::Denied {
                reason: "insufficient_access"@,
                details: Some(
                    "Path is covered by '"@ + paths::shown(fs[k].resolved@) + "', which grants "@
                        + capability::access_text(fs[k].access) + " access from "@
                        + capability::source_text(fs[k].source) + " but "@
                        + capability::access_text(requested) + " was requested"@,
                ),
                policy_source: None,
                matching_capability: Some(
                    CapabilityMatchView {
                        path: paths::shown(fs[k].resolved@),
                        access: capability::access_text(fs[k].access),
                        source: capability::source_text(fs[k].source),
                    },
                ),
                suggested_flag: Some(suggestion_text(path, requested, target)),
            },
            None => QueryResultView::Denied {
                reason: "path_not_granted"@,
                details: Some("Path is not covered by any capability: "@ + paths::shown(path)),
                policy_source: None,
                matching_capability: None,
                suggested_flag: Some(suggestion_text(path, requested, target)),
            },
        },
    }
}

/// The answer for a canonical path. The policy has the first word, unless the path is exempt.
pub open spec fn path_verdict(
    path: Seq<u8>,
    requested: AccessMode,
    fs: Seq<FsCapability>,
    overridden: Seq<Vec<u8>>,
    target: TargetFacts,
    sensitive: Result<Option<SensitiveMatch>, NonoError>,
) -> Result<QueryResultView, ErrorView> {
    if is_exempt(path, overridden) {
        Ok(grant_verdict(path, requested, fs, target))
    } else {
        match sensitive {
            Err(e) => Err(e@),
            Ok(Some(m)) => Ok(sensitive_denial(m.group_name@, m.description@)),
            Ok(None) => Ok(grant_verdict(path, requested, fs, target)),
        }
    }
}

/// At most one grant is the most specific one.
pub proof fn lemma_best_is_unique(
    fs: Seq<FsCapability>,
    path: Seq<u8>,
    requested: Option<AccessMode>,
    k: int,
)
    requires
        is_best_of(fs, path, requested, fs.len() as int, k),
    ensures
        best_grant(fs, path, requested) == Some(k),
{
    let c = choose|c: int| is_best_of(fs, path, requested, fs.len() as int, c);
    assert(is_best_of(fs, path, requested, fs.len() as int, c));
    assert(qualifies(fs[c], path, requested) && qualifies(fs[k], path, requested));
}

/// Finds the most specific grant that qualifies.
fn find_best(fs: &Vec<FsCapability>, path: &[u8], requested: Option<AccessMode>) -> (best: Option<
    usize,
>)
    ensures
        match best {
            Some(k) => k < fs.len() && best_grant(fs@, path@, requested) == Some(k as int),
            None => best_grant(fs@, path@, requested) is None,
        },
{
    let mut best: Option<usize> = None;
    let mut i: usize = 0;
    while i < fs.len()
        invariant
            i <= fs.len(),
            match best {
                Some(k) => is_best_of(fs@, path@, requested, i as int, k as int),
                None => forall|j: int| 0 <= j < i ==> !qualifies(#[trigger] fs@[j], path@, requested),
            },
        decreases fs.len() - i,
    {
        let cap = &fs[i];
        let covered = if cap.is_file {
            paths::path_eq(&cap.resolved, path)
        } else {
            paths::starts_with(path, &cap.resolved)
        };
        let enough = match requested {
            Some(r) => cap.access.satisfies(r),
            None => true,
        };
        let better = match best {
            Some(k) => cap.resolved.len() >= fs[k].resolved.len(),
            None => true,
        };
        assert(qualifies(fs@[i as int], path@, requested) == (covered && enough));
        if covered && enough && better {
            best = Some(i);
        }
        i += 1;
    }
    proof {
        match best {
            Some(k) => lemma_best_is_unique(fs@, path@, requested, k as int),
            None => {
                if exists|k: int| is_best_of(fs@, path@, requested, fs.len() as int, k) {
                    let k = choose|k: int| is_best_of(fs@, path@, requested, fs.len() as int, k);
                    assert(!qualifies(fs@[k], path@, requested));
                }
            },
        }
    }
    best
}

/// Whether the path is covered by an exemption from the deny groups.
pub fn is_overridden(path: &[u8], overridden: &Vec<Vec<u8>>) -> (yes: bool)
    ensures
        yes == is_exempt(path@, overridden@),
{
    let mut i: usize = 0;
    while i < overridden.len()
        invariant
            i <= overridden.len(),
            forall|j: int| 0 <= j < i ==> !paths::is_under(path@, #[trigger] overridden@[j]@),
        decreases overridden.len() - i,
    {
        if paths::starts_with(path, &overridden[i]) {
            assert(paths::is_under(path@, overridden@[i as int]@));
            return true;
        }
        i += 1;
    }
    false
}

/// Answers from the grants alone.
fn query_grants(path: &[u8], requested: AccessMode, caps: &CapabilitySet, target: TargetFacts) -> (
    out: QueryResult)
    ensures
        out@ == grant_verdict(path@, requested, caps.fs@, target),
{
    if let Some(k) = find_best(&caps.fs, path, Some(requested)) {
        let cap = &caps.fs[k];
        return QueryResult::Allowed {
            reason: "granted_path".to_owned(),
            granted_path: Some(paths::display(&cap.resolved)),
            access: Some(cap.access.label()),
            source: Some(cap.source.label()),
        };
    }
    let suggestion = suggested_flag_for_path(path, requested, target);
    if let Some(k) = find_best(&caps.fs, path, None) {
        let cap = &caps.fs[k];
        let shown = paths::display(&cap.resolved);
        let access = cap.access.label();
        let source = cap.source.label();
        let wanted = requested.label();
        let mut details = "Path is covered by '".to_owned();
        details.append(shown.as_str());
        details.append("', which grants ");
        details.append(access.as_str());
        details.append(" access from ");
        details.append(source.as_str());
        details.append(" but ");
        details.append(wanted.as_str());
        details.append(" was requested");
        return QueryResult::Denied {
            reason: "insufficient_access".to_owned(),
            details: Some(details),
            policy_source: None,
            matching_capability: Some(CapabilityMatch { path: shown, access, source }),
            suggested_flag: Some(suggestion),
        };
    }
    let mut details = "Path is not covered by any capability: ".to_owned();
    let shown = paths::display(path);
    details.append(shown.as_str());
    QueryResult::Denied {
        reason: "path_not_granted".to_owned(),
        details: Some(details),
        policy_source: None,
        matching_capability: None,
        suggested_flag: Some(suggestion),
    }
}

/// Everything outside the capabilities that a path query depends on.
#[derive(Debug)]
pub struct PathContext {
    /// What is on disk at the queried path.
    pub probe: PathProbe,
    /// What is on disk at the path that the query resolves to.
    pub target: TargetFacts,
    /// What the policy says of the path that the query resolves to.
    pub sensitive: Result<Option<SensitiveMatch>, NonoError>,
}

/// The answer to a path query.
pub open spec fn path_answer(
    path: Seq<u8>,
    requested: AccessMode,
    fs: Seq<FsCapability>,
    overridden: Seq<Vec<u8>>,
    context: PathContext,
) -> Result<QueryResultView, ErrorView> {
    match query_target(path, context.probe) {
        Err(e) => Err(e),
        Ok(target) => path_verdict(
            target,
            requested,
            fs,
            overridden,
            context.target,
            context.sensitive,
        ),
    }
}

/// Answers whether `requested` access to a path is permitted.
///
/// `overridden_paths` are canonical paths that were exempted from the deny groups. The policy is
/// not consulted for a path that is equal to or below one of them.
pub fn query_path(
    path: &[u8],
    requested: AccessMode,
    caps: &CapabilitySet,
    overridden_paths: &Vec<Vec<u8>>,
    context: &PathContext,
) -> (r: Result<QueryResult, NonoError>)
    ensures
        error::outcome(r) == path_answer(
            path@,
            requested,
            caps.fs@,
            overridden_paths@,
            *context,
        ),
{
    let canonical = match canonicalize_for_query(path, &context.probe) {
        Ok(p) => p,
        Err(e) => return Err(e),
    };
    if !is_overridden(&canonical, overridden_paths) {
        match &context.sensitive {
            Err(e) => return Err(e.duplicate()),
            Ok(Some(m)) => {
                let mut details = "Blocked by policy group '".to_owned();
                details.append(m.group_name.as_str());
                details.append("': ");
                details.append(m.description.as_str());
                details.append(
                    " Use policy.override_deny to exempt specific paths when appropriate.",
                );
                let mut policy = "group:".to_owned();
                policy.append(m.group_name.as_str());
                return Ok(
                    QueryResult::Denied {
                        reason: "sensitive_path".to_owned(),
                        details: Some(details),
                        policy_source: Some(policy),
                        matching_capability: None,
                        suggested_flag: None,
                    },
                );
            },
            Ok(None) => {},
        }
    }
    Ok(query_grants(&canonical, requested, caps, context.target))
}

/// A capability that covers the queried path, and whether it alone would have been enough.
#[derive(Debug, Clone, PartialEq, Eq)]
pub struct ExplainedMatch {
    /// Granted path.
    pub path: String,
    /// Granted access mode.
    pub access: String,
    /// Where the grant comes from.
    pub source: String,
    /// Whether the grant alone satisfies the request; the others are near misses.
    pub sufficient: bool,
}

#[verifier::ext_equal]
pub struct ExplainedMatchView {
    pub path: Seq<char>,
    pub access: Seq<char>,
    pub source: Seq<char>,
    pub sufficient: bool,
}

impl View for ExplainedMatch {
    type V = ExplainedMatchView;

    open spec fn view(&self) -> ExplainedMatchView {
        ExplainedMatchView {
            path: self.path@,
            access: self.access@,
            source: self.source@,
            sufficient: self.sufficient,
        }
    }
}

/// The row that explains one grant.
pub open spec fn explained(cap: FsCapability, requested: AccessMode) -> ExplainedMatchView {
    ExplainedMatchView {
        path: paths::shown(cap.resolved@),
        access: capability::access_text(cap.access),
        source: capability::source_text(cap.source),
        sufficient: capability::is_sufficient(cap.access, requested),
    }
}

/// The rows of all grants that cover the path, in the order of the grants.
pub open spec fn covering_rows(
    fs: Seq<FsCapability>,
    path: Seq<u8>,
    requested: AccessMode,
) -> Seq<ExplainedMatchView> {
    fs.filter(|cap: FsCapability| covers(cap, path)).map_values(
        |cap: FsCapability| explained(cap, requested),
    )
}

/// Longer paths, in bytes of UTF-8, come first.
pub open spec fn longer_first() -> spec_fn(ExplainedMatchView, ExplainedMatchView) -> bool {
    |a: ExplainedMatchView, b: ExplainedMatchView|
        encode_utf8(a.path).len() > encode_utf8(b.path).len()
}

/// The views of a list of rows.
pub open spec fn row_views(rows: Seq<ExplainedMatch>) -> Seq<ExplainedMatchView> {
    rows.map_values(|m: ExplainedMatch| m@)
}

/// Lists the grants that cover a path, the most specific first.
pub fn explain_path(path: &[u8], requested: AccessMode, caps: &CapabilitySet) -> (rows: Vec<
    ExplainedMatch,
>)
    ensures
        order::is_stable_sort(
            covering_rows(caps.fs@, path@, requested),
            row_views(rows@),
            longer_first(),
        ),
{
    let fs = &caps.fs;
    let ghost p = |cap: FsCapability| covers(cap, path@);
    let ghost f = |cap: FsCapability| explained(cap, requested);
    let mut rows: Vec<ExplainedMatch> = Vec::new();
    let mut i: usize = 0;
    proof {
        reveal(Seq::filter);
        assert(row_views(rows@) =~= fs@.take(0).filter(p).map_values(f));
    }
    while i < fs.len()
        invariant
            i <= fs.len(),
            p == (|cap: FsCapability| covers(cap, path@)),
            f == (|cap: FsCapability| explained(cap, requested)),
            row_views(rows@) == fs@.take(i as int).filter(p).map_values(f),
        decreases fs.len() - i,
    {
        let cap = &fs[i];
        let covered = if cap.is_file {
            paths::path_eq(&cap.resolved, path)
        } else {
            paths::starts_with(path, &cap.resolved)
        };
        let ghost before = rows@;
        proof {
            reveal(Seq::filter);
            assert(fs@.take(i + 1).drop_last() =~= fs@.take(i as int));
        }
        if covered {
            let row = ExplainedMatch {
                path: paths::display(&cap.resolved),
                access: cap.access.label(),
                source: cap.source.label(),
                sufficient: cap.access.satisfies(requested),
            };
            rows.push(row);
            proof {
                assert(row@ == f(fs@[i as int]));
                assert(row_views(rows@) =~= row_views(before).push(row@));
                assert(fs@.take(i + 1).filter(p) == fs@.take(i as int).filter(p).push(
                    fs@[i as int],
                ));
                assert(fs@.take(i + 1).filter(p).map_values(f) =~= fs@.take(i as int).filter(
                    p,
                ).map_values(f).push(f(fs@[i as int])));
            }
        }
        i += 1;
    }
    assert(fs@.take(fs@.len() as int) =~= fs@);
    let ghost input = rows@;
    let ghost view = |m: ExplainedMatch| m@;
    let ghost less = |a: ExplainedMatch, b: ExplainedMatch| longer_first()(a@, b@);
    let longer = |a: &ExplainedMatch, b: &ExplainedMatch| -> (r: bool)
        ensures
            r == longer_first()(a@, b@),
        { text::byte_len(a.path.as_str()) > text::byte_len(b.path.as_str()) };
    let sorted = order::stable_sort(rows, longer, Ghost(less));
    proof {
        order::lemma_sort_of_images(input, sorted@, less, view, longer_first());
    }
    sorted
}

/// Like [`query_path`], but also lists every grant that covers the path.
pub fn query_path_explained(
    path: &[u8],
    requested: AccessMode,
    caps: &CapabilitySet,
    overridden_paths: &Vec<Vec<u8>>,
    context: &PathContext,
) -> (r: Result<(QueryResult, Vec<ExplainedMatch>), NonoError>)
    ensures
        match r {
            Ok((verdict, rows)) => {
                &&& path_answer(path@, requested, caps.fs@, overridden_paths@, *context) == Ok::<
                    QueryResultView,
                    ErrorView,
                >(verdict@)
                &&& order::is_stable_sort(
                    covering_rows(caps.fs@, query_target(path@, context.probe)->Ok_0, requested),
                    row_views(rows@),
                    longer_first(),
                )
            },
            Err(e) => path_answer(path@, requested, caps.fs@, overridden_paths@, *context) == Err::<
                QueryResultView,
                ErrorView,
            >(e@),
        },
{
    let verdict = match query_path(path, requested, caps, overridden_paths, context) {
        Ok(v) => v,
        Err(e) => return Err(e),
    };
    let canonical = match canonicalize_for_query(path, &context.probe) {
        Ok(p) => p,
        Err(e) => return Err(e),
    };
    let rows = explain_path(&canonical, requested, caps);
    Ok((verdict, rows))
}

/// The last part of a `host:port` text: the port must be a number from 1 to 65535.
pub open spec fn with_port(host: Seq<char>, port_part: Seq<char>) -> Result<
    (Seq<char>, u16),
    ErrorView,
> {
    match numbers::unsigned_value(port_part, 65535) {
        None => Err(ErrorView::ConfigParse("--net invalid port `"@ + port_part + "`"@)),
        Some(port) => if port == 0 {
            Err(ErrorView::ConfigParse("--net port must be in 1..=65535"@))
        } else {
            Ok((host, port as u16))
        },
    }
}

/// What `host:port`, `[host]:port` and `host` mean. A plain text is split at its last colon, a
/// bracketed one at its first closing bracket.
pub open spec fn host_port(input: Seq<char>, default_port: u16) -> Result<
    (Seq<char>, u16),
    ErrorView,
> {
    let t = text::trimmed(input);
    if t.len() == 0 {
        Err(ErrorView::ConfigParse("--net requires a non-empty host[:port]"@))
    } else if t[0] == '[' {
        let rest = t.skip(1);
        match rest.index_of_first(']') {
            None => Err(ErrorView::ConfigParse("--net unmatched `[` in IPv6 address"@)),
            Some(k) => {
                let host = rest.take(k);
                let after = rest.skip(k + 1);
                if host.len() == 0 {
                    Err(ErrorView::ConfigParse("--net IPv6 host inside brackets is empty"@))
                } else if after.len() == 0 || after[0] != ':' {
                    Err(
                        ErrorView::ConfigParse(
                            "--net bracketed IPv6 form requires a port: `["@ + host
                                + "]:<port>`"@,
                        ),
                    )
                } else {
                    with_port(host, after.skip(1))
                }
            },
        }
    } else {
        match t.index_of_last(':') {
            Some(k) => if k == 0 {
                Err(ErrorView::ConfigParse("--net host portion is empty"@))
            } else {
                with_port(t.take(k), t.skip(k + 1))
            },
            None => Ok((t, default_port)),
        }
    }
}

/// Where a character first occurs.
fn find_first(chars: &[char], c: char) -> (at: Option<usize>)
    ensures
        match at {
            Some(k) => k < chars.len() && chars@.index_of_first(c) == Some(k as int),
            None => chars@.index_of_first(c) is None,
        },
{
    let mut i: usize = 0;
    while i < chars.len()
        invariant
            i <= chars.len(),
            forall|j: int| 0 <= j < i ==> chars@[j] != c,
        decreases chars.len() - i,
    {
        if chars[i] == c {
            proof {
                chars@.index_of_first_ensures(c);
                assert(chars@.contains(chars@[i as int]));
            }
            return Some(i);
        }
        i += 1;
    }
    proof {
        chars@.index_of_first_ensures(c);
    }
    None
}

/// Where a character last occurs.
fn find_last(chars: &[char], c: char) -> (at: Option<usize>)
    ensures
        match at {
            Some(k) => k < chars.len() && chars@.index_of_last(c) == Some(k as int),
            None => chars@.index_of_last(c) is None,
        },
{
    let mut i: usize = chars.len();
    while i > 0
        invariant
            i <= chars.len(),
            forall|j: int| i <= j < chars.len() ==> chars@[j] != c,
        decreases i,
    {
        i -= 1;
        if chars[i] == c {
            proof {
                chars@.index_of_last_ensures(c);
                assert(chars@.contains(chars@[i as int]));
            }
            return Some(i);
        }
    }
    proof {
        chars@.index_of_last_ensures(c);
    }
    None
}

/// Reads the port behind a host, from position `at` on.
fn read_port(host: String, chars: &Vec<char>, at: usize) -> (r: Result<(String, u16), NonoError>)
    requires
        at <= chars.len(),
    ensures
        error::outcome(r) == with_port(host@, chars@.skip(at as int)),
{
    let part = text::text_range(chars, at, chars.len());
    assert(chars@.subrange(at as int, chars@.len() as int) =~= chars@.skip(at as int));
    let digits = text::chars_of(part.as_str());
    match numbers::parse_unsigned(&digits, 65535) {
        None => {
            let mut m = "--net invalid port `".to_owned();
            m.append(part.as_str());
            m.append("`");
            Err(NonoError::ConfigParse(m))
        },
        Some(port) => {
            if port == 0 {
                Err(NonoError::ConfigParse("--net port must be in 1..=65535".to_owned()))
            } else {
                Ok((host, port as u16))
            }
        },
    }
}

/// Reads a `host:port` shorthand.
///
/// Accepts `host:port`, `[host]:port` (here the port is required) and `host`, for which the port
/// is `default_port`. Rejects an empty host, a missing or non-numeric port, and port 0.
pub fn parse_host_port(input: &str, default_port: u16) -> (r: Result<(String, u16), NonoError>)
    ensures
        error::outcome(r) == host_port(input@, default_port),
{
    let trimmed = text::trim(input);
    let chars = text::chars_of(trimmed.as_str());
    let ghost t = trimmed@;
    if chars.len() == 0 {
        return Err(NonoError::ConfigParse("--net requires a non-empty host[:port]".to_owned()));
    }
    if chars[0] == '[' {
        let inner = text::text_range(&chars, 1, chars.len());
        let rest = text::chars_of(inner.as_str());
        assert(rest@ =~= t.skip(1));
        return match find_first(&rest, ']') {
            None => Err(
                NonoError::ConfigParse("--net unmatched `[` in IPv6 address".to_owned()),
            ),
            Some(k) => {
                let host = text::text_range(&rest, 0, k);
                assert(host@ =~= rest@.take(k as int));
                if k == 0 {
                    Err(
                        NonoError::ConfigParse(
                            "--net IPv6 host inside brackets is empty".to_owned(),
                        ),
                    )
                } else if k + 1 >= rest.len() || rest[k + 1] != ':' {
                    let mut m = "--net bracketed IPv6 form requires a port: `[".to_owned();
                    m.append(host.as_str());
                    m.append("]:<port>`");
                    Err(NonoError::ConfigParse(m))
                } else {
                    assert(rest@.skip(k + 1).skip(1) =~= rest@.skip(k + 2));
                    read_port(host, &rest, k + 2)
                }
            },
        };
    }
    match find_last(&chars, ':') {
        Some(k) => {
            if k == 0 {
                Err(NonoError::ConfigParse("--net host portion is empty".to_owned()))
            } else {
                let host = text::text_range(&chars, 0, k);
                assert(host@ =~= chars@.take(k as int));
                read_port(host, &chars, k + 1)
            }
        },
        None => Ok((trimmed, default_port)),
    }
}

/// An answer that allows, without a granted path.
pub open spec fn allowed_view(
    reason: Seq<char>,
    access: Option<Seq<char>>,
    source: Option<Seq<char>>,
) -> QueryResultView {
    QueryResultView::Allowed { reason, granted_path: None, access, source }
}

fn allowed(reason: &str, access: Option<String>, source: Option<String>) -> (out: QueryResult)
    ensures
        out@ == allowed_view(reason@, text::opt_text(access), text::opt_text(source)),
{
    QueryResult::Allowed { reason: reason.to_owned(), granted_path: None, access, source }
}

/// An answer that denies, without a matching capability.
pub open spec fn denied_view(
    reason: Seq<char>,
    details: Seq<char>,
    policy_source: Option<Seq<char>>,
    suggested_flag: Option<Seq<char>>,
) -> QueryResultView {
    QueryResultView::Denied {
        reason,
        details: Some(details),
        policy_source,
        matching_capability: None,
        suggested_flag,
    }
}

fn denied(
    reason: &str,
    details: String,
    policy_source: Option<String>,
    suggested_flag: Option<String>,
) -> (out: QueryResult)
    ensures
        out@ == denied_view(
            reason@,
            details@,
            text::opt_text(policy_source),
            text::opt_text(suggested_flag),
        ),
{
    QueryResult::Denied {
        reason: reason.to_owned(),
        details: Some(details),
        policy_source,
        matching_capability: None,
        suggested_flag,
    }
}

/// `before`, then the port.
fn port_text(before: &str, port: u16) -> (out: String)
    ensures
        out@ == before@ + numbers::decimal(port as nat),
{
    let mut out = before.to_owned();
    let digits = numbers::decimal_text(port as u64);
    out.append(digits.as_str());
    out
}

/// `before`, the port, `after`.
fn port_sentence(before: &str, port: u16, after: &str) -> (out: String)
    ensures
        out@ == before@ + numbers::decimal(port as nat) + after@,
{
    let mut out = port_text(before, port);
    out.append(after);
    out
}

/// The text that explains why a TCP port is denied.
pub open spec fn tcp_denial_text(port: u16) -> Seq<char> {
    let p = numbers::decimal(port as nat);
    "Port "@ + p
        + " is not in tcp_connect_ports, tcp_bind_ports, or localhost_ports, and the resolved network mode blocks unfiltered outbound. Add `--allow-port "@
        + p + "` (bind), `--allow-connect-port "@ + p
        + "` (connect), or relax with `--allow-net` to permit the port."@
}

/// Whether a TCP port may be used: localhost pins first, then the connect list, then the bind
/// list, and at last the network mode.
pub open spec fn tcp_verdict(port: u16, caps: CapabilitySet) -> QueryResultView {
    let p = numbers::decimal(port as nat);
    if caps.localhost@.contains(port) {
        allowed_view(
            "tcp_localhost_pinned"@,
            Some("localhost-only IPC on port "@ + p),
            Some("policy:localhost_ports"@),
        )
    } else if caps.connect@.contains(port) {
        allowed_view(
            "tcp_connect_allowed"@,
            Some("outbound TCP connect on port "@ + p),
            Some("policy:tcp_connect_ports"@),
        )
    } else if caps.bind@.contains(port) {
        allowed_view(
            "tcp_bind_allowed"@,
            Some("local TCP bind on port "@ + p),
            Some("policy:tcp_bind_ports"@),
        )
    } else if caps.network_blocked {
        denied_view(
            "tcp_port_not_allowlisted"@,
            tcp_denial_text(port),
            None,
            Some("--allow-connect-port "@ + p),
        )
    } else {
        allowed_view(
            "network_unrestricted"@,
            Some("Network is not filtered by port — TCP port "@ + p + " is reachable"@),
            None,
        )
    }
}

/// Answers whether a TCP port is allowed.
///
/// The first hit wins: ports pinned to localhost, ports that may be connected to, ports that may
/// be bound. Other ports are denied where the network is blocked, and allowed where it is open.
pub fn query_tcp_port(port: u16, caps: &CapabilitySet) -> (out: QueryResult)
    ensures
        out@ == tcp_verdict(port, *caps),
{
    if capability::lists_port(&caps.localhost, port) {
        return allowed(
            "tcp_localhost_pinned",
            Some(port_text("localhost-only IPC on port ", port)),
            Some("policy:localhost_ports".to_owned()),
        );
    }
    if capability::lists_port(&caps.connect, port) {
        return allowed(
            "tcp_connect_allowed",
            Some(port_text("outbound TCP connect on port ", port)),
            Some("policy:tcp_connect_ports".to_owned()),
        );
    }
    if capability::lists_port(&caps.bind, port) {
        return allowed(
            "tcp_bind_allowed",
            Some(port_text("local TCP bind on port ", port)),
            Some("policy:tcp_bind_ports".to_owned()),
        );
    }
    if caps.network_blocked {
        let digits = numbers::decimal_text(port as u64);
        let mut details = port_sentence(
            "Port ",
            port,
            " is not in tcp_connect_ports, tcp_bind_ports, or localhost_ports, and the resolved network mode blocks unfiltered outbound. Add `--allow-port ",
        );
        details.append(digits.as_str());
        details.append("` (bind), `--allow-connect-port ");
        details.append(digits.as_str());
        details.append("` (connect), or relax with `--allow-net` to permit the port.");
        denied(
            "tcp_port_not_allowlisted",
            details,
            None,
            Some(port_text("--allow-connect-port ", port)),
        )
    } else {
        allowed(
            "network_unrestricted",
            Some(
                port_sentence(
                    "Network is not filtered by port — TCP port ",
                    port,
                    " is reachable",
                ),
            ),
            None,
        )
    }
}

/// The text that explains why binding a TCP port is denied.
pub open spec fn tcp_bind_denial_text(port: u16) -> Seq<char> {
    let p = numbers::decimal(port as nat);
    "Port "@ + p
        + " is not in tcp_bind_ports or localhost_ports, and the resolved network mode blocks unfiltered bind. Add `--allow-port "@
        + p + "` (bind) or `--allow-localhost-port "@ + p
        + "` (bidirectional localhost) to permit binding. (`tcp_connect_ports` grants are intentionally ignored here — they authorize outbound only.)"@
}

/// Whether a TCP port may be bound: localhost pins first, then the bind list, and at last the
/// network mode.
pub open spec fn tcp_bind_verdict(port: u16, caps: CapabilitySet) -> QueryResultView {
    let p = numbers::decimal(port as nat);
    if caps.localhost@.contains(port) {
        allowed_view(
            "tcp_localhost_pinned"@,
            Some("localhost-only IPC on port "@ + p + " (covers bind + connect)"@),
            Some("policy:localhost_ports"@),
        )
    } else if caps.bind@.contains(port) {
        allowed_view(
            "tcp_bind_allowed"@,
            Some("local TCP bind on port "@ + p),
            Some("policy:tcp_bind_ports"@),
        )
    } else if caps.network_blocked {
        denied_view(
            "tcp_bind_not_allowlisted"@,
            tcp_bind_denial_text(port),
            None,
            Some("--allow-port "@ + p),
        )
    } else {
        allowed_view(
            "network_unrestricted"@,
            Some(
                "Network is not filtered by bind allowlist — TCP bind on port "@ + p
                    + " is permitted"@,
            ),
            None,
        )
    }
}

/// Answers whether a TCP port may be bound. Ports that may only be connected to do not count.
pub fn query_tcp_bind_port(port: u16, caps: &CapabilitySet) -> (out: QueryResult)
    ensures
        out@ == tcp_bind_verdict(port, *caps),
{
    if capability::lists_port(&caps.localhost, port) {
        return allowed(
            "tcp_localhost_pinned",
            Some(port_sentence("localhost-only IPC on port ", port, " (covers bind + connect)")),
            Some("policy:localhost_ports".to_owned()),
        );
    }
    if capability::lists_port(&caps.bind, port) {
        return allowed(
            "tcp_bind_allowed",
            Some(port_text("local TCP bind on port ", port)),
            Some("policy:tcp_bind_ports".to_owned()),
        );
    }
    if caps.network_blocked {
        let digits = numbers::decimal_text(port as u64);
        let mut details = port_sentence(
            "Port ",
            port,
            " is not in tcp_bind_ports or localhost_ports, and the resolved network mode blocks unfiltered bind. Add `--allow-port ",
        );
        details.append(digits.as_str());
        details.append("` (bind) or `--allow-localhost-port ");
        details.append(digits.as_str());
        details.append(
            "` (bidirectional localhost) to permit binding. (`tcp_connect_ports` grants are intentionally ignored here — they authorize outbound only.)",
        );
        denied(
            "tcp_bind_not_allowlisted",
            details,
            None,
            Some(port_text("--allow-port ", port)),
        )
    } else {
        allowed(
            "network_unrestricted",
            Some(
                port_sentence(
                    "Network is not filtered by bind allowlist — TCP bind on port ",
                    port,
                    " is permitted",
                ),
            ),
            None,
        )
    }
}

/// Whether a connection to a host and port is permitted.
pub open spec fn network_verdict(host: Seq<char>, port: u16, caps: CapabilitySet) -> QueryResultView {
    let p = numbers::decimal(port as nat);
    if caps.network_blocked {
        denied_view(
            "network_blocked"@,
            "Network access is blocked. Connection to "@ + host + ":"@ + p
                + " would be denied."@,
            None,
            None,
        )
    } else {
        allowed_view(
            "network_allowed"@,
            Some("Connection to "@ + host + ":"@ + p + " would be allowed"@),
            None,
        )
    }
}

/// Answers whether network access to a host and port is permitted.
pub fn query_network(host: &str, port: u16, caps: &CapabilitySet) -> (out: QueryResult)
    ensures
        out@ == network_verdict(host@, port, *caps),
{
    let digits = numbers::decimal_text(port as u64);
    if caps.network_blocked {
        let mut details = "Network access is blocked. Connection to ".to_owned();
        details.append(host);
        details.append(":");
        details.append(digits.as_str());
        details.append(" would be denied.");
        denied("network_blocked", details, None, None)
    } else {
        let mut access = "Connection to ".to_owned();
        access.append(host);
        access.append(":");
        access.append(digits.as_str());
        access.append(" would be allowed");
        allowed("network_allowed", Some(access), None)
    }
}

/// The name by which a command is looked up: the last component of its path, where it has one.
pub open spec fn command_basename(name: Seq<char>) -> Seq<char> {
    match paths::file_name_of(encode_utf8(name)) {
        Some(base) => paths::shown(base),
        None => name,
    }
}

/// The name by which a command is looked up.
pub fn basename(name: &str) -> (out: String)
    ensures
        out@ == command_basename(name@),
{
    match paths::file_name(name.as_bytes()) {
        Some(base) => paths::display(&base),
        None => name.to_owned(),
    }
}

/// The blocked name that a command matches; the allow list takes precedence.
pub open spec fn blocked_name(
    name: Seq<char>,
    allowed: Seq<Seq<char>>,
    blocked: Seq<Seq<char>>,
) -> Option<Seq<char>> {
    let base = command_basename(name);
    if !allowed.contains(base) && blocked.contains(base) {
        Some(base)
    } else {
        None
    }
}

/// Looks a command up in the blocklist, unless the allow list has it.
pub fn check_blocked_command(name: &str, allowed: &Vec<String>, blocked: &Vec<String>) -> (matched:
    Option<String>)
    ensures
        text::opt_text(matched) == blocked_name(
            name@,
            text::texts(allowed@),
            text::texts(blocked@),
        ),
{
    let base = basename(name);
    if !text::list_contains(allowed, &base) && text::list_contains(blocked, &base) {
        Some(base)
    } else {
        None
    }
}

/// Whether a command may be run.
pub open spec fn command_verdict(
    name: Seq<char>,
    allowed: Seq<Seq<char>>,
    blocked: Seq<Seq<char>>,
) -> QueryResultView {
    match blocked_name(name, allowed, blocked) {
        Some(matched) => denied_view(
            "blocked_command"@,
            "Command '"@ + matched
                + "' is blocked by the resolved policy. Override with `--allow-command "@ + matched
                + "` if you understand the risk."@,
            Some("policy:blocked_commands"@),
            Some("--allow-command "@ + matched),
        ),
        None => if allowed.contains(command_basename(name)) {
            allowed_view("command_explicitly_allowed"@, None, Some("policy:allowed_commands"@))
        } else {
            allowed_view("command_not_blocked"@, None, None)
        },
    }
}

/// Answers whether running a command is permitted. The explicit allow list takes precedence over
/// the blocklist, and only the last component of the command's path counts.
pub fn query_command(name: &str, caps: &CapabilitySet) -> (r: Result<QueryResult, NonoError>)
    ensures
        error::outcome(r) == Ok::<QueryResultView, ErrorView>(
            command_verdict(name@, text::texts(caps.allowed@), text::texts(caps.blocked@)),
        ),
{
    if let Some(matched) = check_blocked_command(name, &caps.allowed, &caps.blocked) {
        let mut details = "Command '".to_owned();
        details.append(matched.as_str());
        details.append("' is blocked by the resolved policy. Override with `--allow-command ");
        details.append(matched.as_str());
        details.append("` if you understand the risk.");
        let mut flag = "--allow-command ".to_owned();
        flag.append(matched.as_str());
        return Ok(
            denied(
                "blocked_command",
                details,
                Some("policy:blocked_commands".to_owned()),
                Some(flag),
            ),
        );
    }
    let base = basename(name);
    if text::list_contains(&caps.allowed, &base) {
        Ok(
            allowed(
                "command_explicitly_allowed",
                None,
                Some("policy:allowed_commands".to_owned()),
            ),
        )
    } else {
        Ok(allowed("command_not_blocked", None, None))
    }
}

/// A labelled line, where there is something to show.
pub open spec fn opt_line(label: Seq<char>, value: Option<Seq<char>>) -> Seq<char> {
    match value {
        Some(v) => label + v + "\n"@,
        None => Seq::empty(),
    }
}

fn line_for(label: &str, value: &Option<String>) -> (out: String)
    ensures
        out@ == opt_line(label@, text::opt_text(*value)),
{
    match value {
        Some(v) => {
            let mut out = label.to_owned();
            out.append(v.as_str());
            out.append("\n");
            out
        },
        None => String::new(),
    }
}

/// The one-word answer.
pub open spec fn result_heading(result: QueryResultView) -> (Seq<char>, paint::Tint) {
    match result {
        QueryResultView::Allowed { .. } => ("ALLOWED"@, paint::Tint::Green),
        QueryResultView::Denied { .. } => ("DENIED"@, paint::Tint::Red),
        QueryResultView::NotSandboxed { .. } => ("NOT SANDBOXED"@, paint::Tint::Yellow),
    }
}

/// The lines below the one-word answer.
pub open spec fn result_lines(result: QueryResultView) -> Seq<char> {
    match result {
        QueryResultView::Allowed { reason, granted_path, access, source } => {
            "  Reason: "@ + reason + "\n"@ + opt_line("  Granted by: "@, granted_path) + opt_line(
                "  Access: "@,
                access,
            ) + opt_line("  Source: "@, source)
        },
        QueryResultView::Denied {
            reason,
            details,
            policy_source,
            matching_capability,
            suggested_flag,
        } => {
            "  Reason: "@ + reason + "\n"@ + opt_line("  Details: "@, details) + opt_line(
                "  Policy: "@,
                policy_source,
            ) + opt_line(
                "  Closest match: "@,
                match matching_capability {
                    Some(m) => Some(m.path + " ("@ + m.access + ", "@ + m.source + ")"@),
                    None => None,
                },
            ) + opt_line("  Suggested fix: "@, suggested_flag)
        },
        QueryResultView::NotSandboxed { message } => "  "@ + message + "\n"@,
    }
}

/// Writes the lines below the one-word answer.
pub fn render_result_lines(result: &QueryResult) -> (out: String)
    ensures
        out@ == result_lines(result@),
{
    match result {
        QueryResult::Allowed { reason, granted_path, access, source } => {
            let mut out = "  Reason: ".to_owned();
            out.append(reason.as_str());
            out.append("\n");
            out.append(line_for("  Granted by: ", granted_path).as_str());
            out.append(line_for("  Access: ", access).as_str());
            out.append(line_for("  Source: ", source).as_str());
            out
        },
        QueryResult::Denied {
            reason,
            details,
            policy_source,
            matching_capability,
            suggested_flag,
        } => {
            let closest = match matching_capability {
                Some(m) => {
                    let mut c = m.path.clone();
                    c.append(" (");
                    c.append(m.access.as_str());
                    c.append(", ");
                    c.append(m.source.as_str());
                    c.append(")");
                    Some(c)
                },
                None => None,
            };
            let mut out = "  Reason: ".to_owned();
            out.append(reason.as_str());
            out.append("\n");
            out.append(line_for("  Details: ", details).as_str());
            out.append(line_for("  Policy: ", policy_source).as_str());
            out.append(line_for("  Closest match: ", &closest).as_str());
            out.append(line_for("  Suggested fix: ", suggested_flag).as_str());
            out
        },
        QueryResult::NotSandboxed { message } => {
            let mut out = "  ".to_owned();
            out.append(message.as_str());
            out.append("\n");
            out
        },
    }
}

/// `out` shows the result: the one-word answer, bold and in its color or bare, and the lines.
pub open spec fn shows_result(out: Seq<char>, result: QueryResultView) -> bool {
    let (word, tint) = result_heading(result);
    exists|heading: Seq<char>|
        #[trigger] paint::is_painted(heading, word, "1;"@ + paint::tint_code(tint)) && out
            == heading + "\n"@ + result_lines(result)
}

/// Writes a query result for people.
pub fn render_result(result: &QueryResult) -> (out: String)
    ensures
        shows_result(out@, result@),
{
    proof {
        reveal_strlit("ALLOWED");
        reveal_strlit("DENIED");
        reveal_strlit("NOT SANDBOXED");
    }
    let heading = match result {
        QueryResult::Allowed { .. } => paint::paint_bold("ALLOWED", paint::Tint::Green),
        QueryResult::Denied { .. } => paint::paint_bold("DENIED", paint::Tint::Red),
        QueryResult::NotSandboxed { .. } => paint::paint_bold(
            "NOT SANDBOXED",
            paint::Tint::Yellow,
        ),
    };
    let ghost h = heading@;
    let mut out = heading;
    out.append("\n");
    out.append(render_result_lines(result).as_str());
    proof {
        let (word, tint) = result_heading(result@);
        assert(paint::is_painted(h, word, "1;"@ + paint::tint_code(tint)));
    }
    out
}

/// What is shown of a result is its reason and all else that is known of it, each behind its label
/// and on a line of its own; what is not known is not mentioned.
pub proof fn law_results_show_what_is_known(result: QueryResultView)
    ensures
        result matches QueryResultView::Allowed { reason, granted_path, access, source }
            ==> result_lines(result) == "  Reason: "@ + reason + "\n"@ + (if granted_path is Some {
            "  Granted by: "@ + granted_path->0 + "\n"@
        } else {
            Seq::empty()
        }) + (if access is Some {
            "  Access: "@ + access->0 + "\n"@
        } else {
            Seq::empty()
        }) + (if source is Some {
            "  Source: "@ + source->0 + "\n"@
        } else {
            Seq::empty()
        }),
        result matches QueryResultView::Denied {
            reason,
            details,
            policy_source,
            matching_capability,
            suggested_flag,
        } ==> result_lines(result) == "  Reason: "@ + reason + "\n"@ + (if details is Some {
            "  Details: "@ + details->0 + "\n"@
        } else {
            Seq::empty()
        }) + (if policy_source is Some {
            "  Policy: "@ + policy_source->0 + "\n"@
        } else {
            Seq::empty()
        }) + (if matching_capability is Some {
            "  Closest match: "@ + (matching_capability->0.path + " ("@
                + matching_capability->0.access + ", "@ + matching_capability->0.source + ")"@)
                + "\n"@
        } else {
            Seq::empty()
        }) + (if suggested_flag is Some {
            "  Suggested fix: "@ + suggested_flag->0 + "\n"@
        } else {
            Seq::empty()
        }),
        result matches QueryResultView::NotSandboxed { message } ==> result_lines(result) == "  "@
            + message + "\n"@,
{
}

} // verus!
