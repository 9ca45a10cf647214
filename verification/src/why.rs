//! `nono why`: what is asked, and how the answer is shown.

use vstd::prelude::*;
use vstd::utf8::*;

use crate::capability::{AccessMode, CapabilitySet};
use crate::cli;
use crate::cli::WhyArgs;
use crate::error;
use crate::error::{ErrorView, NonoError};
use crate::json;
use crate::order;
use crate::paths;
use crate::query_ext;
use crate::query_laws;
use crate::query_ext::{
    ExplainedMatch, ExplainedMatchView, PathContext, QueryResult, QueryResultView, Resolution,
};
use crate::text;

verus! {

/// The flags that shape a sandbox.
#[derive(Debug, Clone, PartialEq, Eq)]
pub struct SandboxArgs {
    pub allow: Vec<Vec<u8>>,
    pub read: Vec<Vec<u8>>,
    pub write: Vec<Vec<u8>>,
    pub allow_file: Vec<Vec<u8>>,
    pub read_file: Vec<Vec<u8>>,
    pub write_file: Vec<Vec<u8>>,
    pub block_net: bool,
    pub workdir: Option<Vec<u8>>,
    pub allow_command: Vec<String>,
    pub block_command: Vec<String>,
}

/// The paths of a list.
pub open spec fn path_list(list: Seq<Vec<u8>>) -> Seq<Seq<u8>> {
    Seq::new(list.len(), |i: int| list[i]@)
}

/// An optional path.
pub open spec fn opt_path(o: Option<Vec<u8>>) -> Option<Seq<u8>> {
    match o {
        Some(p) => Some(p@),
        None => None,
    }
}

fn copy_paths(list: &Vec<Vec<u8>>) -> (out: Vec<Vec<u8>>)
    ensures
        path_list(out@) == path_list(list@),
{
    let mut out: Vec<Vec<u8>> = Vec::new();
    let mut i: usize = 0;
    while i < list.len()
        invariant
            i <= list.len(),
            out.len() == i,
            forall|j: int| 0 <= j < i ==> #[trigger] out@[j]@ == list@[j]@,
        decreases list.len() - i,
    {
        out.push(paths::bytes_copy(&list[i]));
        i += 1;
    }
    assert(path_list(out@) =~= path_list(list@));
    out
}

fn copy_texts(list: &Vec<String>) -> (out: Vec<String>)
    ensures
        text::texts(out@) == text::texts(list@),
{
    let mut out: Vec<String> = Vec::new();
    let mut i: usize = 0;
    while i < list.len()
        invariant
            i <= list.len(),
            out.len() == i,
            forall|j: int| 0 <= j < i ==> #[trigger] out@[j]@ == list@[j]@,
        decreases list.len() - i,
    {
        out.push(list[i].clone());
        i += 1;
    }
    assert(text::texts(out@) =~= text::texts(list@));
    out
}

/// Takes over the flags that shape a sandbox.
pub fn sandbox_args(args: &WhyArgs) -> (out: SandboxArgs)
    ensures
        path_list(out.allow@) == path_list(args.allow@),
        path_list(out.read@) == path_list(args.read@),
        path_list(out.write@) == path_list(args.write@),
        path_list(out.allow_file@) == path_list(args.allow_file@),
        path_list(out.read_file@) == path_list(args.read_file@),
        path_list(out.write_file@) == path_list(args.write_file@),
        out.block_net == args.block_net,
        opt_path(out.workdir) == opt_path(args.workdir),
        text::texts(out.allow_command@) == text::texts(args.allow_command@),
        text::texts(out.block_command@) == text::texts(args.block_command@),
{
    SandboxArgs {
        allow: copy_paths(&args.allow),
        read: copy_paths(&args.read),
        write: copy_paths(&args.write),
        allow_file: copy_paths(&args.allow_file),
        read_file: copy_paths(&args.read_file),
        write_file: copy_paths(&args.write_file),
        block_net: args.block_net,
        workdir: match &args.workdir {
            Some(p) => Some(paths::bytes_copy(p)),
            None => None,
        },
        allow_command: copy_texts(&args.allow_command),
        block_command: copy_texts(&args.block_command),
    }
}

/// Where the capabilities come from that a question is about.
#[derive(Debug, Clone, PartialEq, Eq)]
pub enum WhySource {
    /// The sandbox that this process runs in.
    Itself,
    /// A profile, with the flags on top.
    Profile(String),
    /// The flags alone.
    Flags,
}

/// Whether `source` is where the capabilities come from: this very sandbox where that is asked
/// about, else the profile where one is named, else the flags.
pub open spec fn is_source(source: WhySource, args: WhyArgs) -> bool {
    match source {
        WhySource::Itself => args.self_query,
        WhySource::Profile(name) => !args.self_query && text::opt_text(args.profile) == Some(
            name@,
        ),
        WhySource::Flags => !args.self_query && args.profile is None,
    }
}

/// Picks where the capabilities come from.
pub fn why_source(args: &WhyArgs) -> (source: WhySource)
    ensures
        is_source(source, *args),
        match source {
            WhySource::Itself => args.self_query,
            WhySource::Profile(name) => !args.self_query && text::opt_text(args.profile) == Some(
                name@,
            ),
            WhySource::Flags => !args.self_query && args.profile is None,
        },
{
    if args.self_query {
        return WhySource::Itself;
    }
    match &args.profile {
        Some(name) => WhySource::Profile(name.clone()),
        None => WhySource::Flags,
    }
}

/// The answer where there is no sandbox to ask about.
pub fn not_sandboxed() -> (out: QueryResult)
    ensures
        out@ == (QueryResultView::NotSandboxed { message: "Not running inside a nono sandbox"@ }),
{
    QueryResult::NotSandboxed { message: "Not running inside a nono sandbox".to_owned() }
}

/// The directory that relative paths of a profile start from: the one that was given, else the
/// current one, else `.`.
pub open spec fn working_directory(
    given: Option<Seq<u8>>,
    current: Option<Seq<u8>>,
) -> Seq<u8> {
    match (given, current) {
        (Some(p), _) => p,
        (None, Some(p)) => p,
        (None, None) => seq![paths::DOT],
    }
}

/// Resolves the directory that relative paths of a profile start from.
pub fn resolve_workdir(given: &Option<Vec<u8>>, current: &Option<Vec<u8>>) -> (out: Vec<u8>)
    ensures
        out@ == working_directory(opt_path(*given), opt_path(*current)),
{
    match (given, current) {
        (Some(p), _) => paths::bytes_copy(p),
        (None, Some(p)) => paths::bytes_copy(p),
        (None, None) => {
            let mut dot: Vec<u8> = Vec::new();
            dot.push(paths::DOT);
            assert(dot@ =~= seq![paths::DOT]);
            dot
        },
    }
}

/// The exemption that a path of a profile makes: its canonical form where it exists, the path
/// itself where it does not, and none where it cannot be made canonical.
pub open spec fn exemption(expanded: Seq<u8>, found: Resolution) -> Option<Seq<u8>> {
    match found {
        Resolution::Resolved(p) => Some(p@),
        Resolution::Failed(_) => None,
        Resolution::Missing => Some(expanded),
    }
}

/// Resolves an exemption of a profile.
pub fn override_path(expanded: &[u8], found: &Resolution) -> (out: Option<Vec<u8>>)
    ensures
        opt_path(out) == exemption(expanded@, *found),
{
    match found {
        Resolution::Resolved(p) => Some(paths::bytes_copy(p)),
        Resolution::Failed(_) => None,
        Resolution::Missing => Some(paths::bytes_copy(expanded)),
    }
}

/// What is asked.
#[derive(Debug, Clone, PartialEq, Eq)]
pub enum WhyQuestion {
    /// May the path be accessed? `explain` asks for all grants that cover it.
    Path { path: Vec<u8>, requested: AccessMode, explain: bool },
    /// May the host be connected to?
    Network { host: String, port: u16 },
    /// May the TCP port be used?
    Tcp { port: u16 },
    /// May the command be run?
    Command { name: String },
}

#[verifier::ext_equal]
pub enum WhyQuestionView {
    Path { path: Seq<u8>, requested: AccessMode, explain: bool },
    Network { host: Seq<char>, port: u16 },
    Tcp { port: u16 },
    Command { name: Seq<char> },
}

impl View for WhyQuestion {
    type V = WhyQuestionView;

    open spec fn view(&self) -> WhyQuestionView {
        match self {
            WhyQuestion::Path { path, requested, explain } => WhyQuestionView::Path {
                path: path@,
                requested: *requested,
                explain: *explain,
            },
            WhyQuestion::Network { host, port } => WhyQuestionView::Network {
                host: host@,
                port: *port,
            },
            WhyQuestion::Tcp { port } => WhyQuestionView::Tcp { port: *port },
            WhyQuestion::Command { name } => WhyQuestionView::Command { name: name@ },
        }
    }
}

/// What the flags ask. The first of these that is given counts: a path, `host:port`, a host, a TCP
/// port, a command.
pub open spec fn question_of(args: WhyArgs) -> Result<WhyQuestionView, ErrorView> {
    if args.path is Some {
        Ok(
            WhyQuestionView::Path {
                path: args.path->0@,
                requested: cli::requested_access(args.op),
                explain: args.explain,
            },
        )
    } else if args.net is Some {
        match query_ext::host_port(args.net->0@, args.port) {
            Ok((host, port)) => Ok(WhyQuestionView::Network { host, port }),
            Err(e) => Err(e),
        }
    } else if args.host is Some {
        Ok(WhyQuestionView::Network { host: args.host->0@, port: args.port })
    } else if args.tcp is Some {
        Ok(WhyQuestionView::Tcp { port: args.tcp->0 })
    } else if args.command_name is Some {
        Ok(WhyQuestionView::Command { name: args.command_name->0@ })
    } else {
        Err(
            ErrorView::ConfigParse("--path, --host, --net, --tcp or --command is required"@),
        )
    }
}

/// Works out what the flags ask.
pub fn why_question(args: &WhyArgs) -> (r: Result<WhyQuestion, NonoError>)
    ensures
        error::outcome(r) == question_of(*args),
{
    if let Some(path) = &args.path {
        return Ok(
            WhyQuestion::Path {
                path: paths::bytes_copy(path),
                requested: cli::access_of(args.op),
                explain: args.explain,
            },
        );
    }
    if let Some(net) = &args.net {
        return match query_ext::parse_host_port(net.as_str(), args.port) {
            Ok((host, port)) => Ok(WhyQuestion::Network { host, port }),
            Err(e) => Err(e),
        };
    }
    if let Some(host) = &args.host {
        return Ok(WhyQuestion::Network { host: host.clone(), port: args.port });
    }
    if let Some(port) = args.tcp {
        return Ok(WhyQuestion::Tcp { port });
    }
    if let Some(name) = &args.command_name {
        return Ok(WhyQuestion::Command { name: name.clone() });
    }
    Err(
        NonoError::ConfigParse(
            "--path, --host, --net, --tcp or --command is required".to_owned(),
        ),
    )
}

/// The verdict on a question. `context` is what is known of the path, for a question about one.
pub open spec fn verdict_on(
    question: WhyQuestionView,
    caps: CapabilitySet,
    overridden: Seq<Vec<u8>>,
    context: PathContext,
) -> Result<QueryResultView, ErrorView> {
    match question {
        WhyQuestionView::Path { path, requested, .. } => query_ext::path_answer(
            path,
            requested,
            caps.fs@,
            overridden,
            context,
        ),
        WhyQuestionView::Network { host, port } => Ok(
            query_ext::network_verdict(host, port, caps),
        ),
        WhyQuestionView::Tcp { port } => Ok(query_ext::tcp_verdict(port, caps)),
        WhyQuestionView::Command { name } => Ok(
            query_ext::command_verdict(
                name,
                text::texts(caps.allowed@),
                text::texts(caps.blocked@),
            ),
        ),
    }
}

/// Whether a question asks for all grants that cover a path.
pub open spec fn asks_to_explain(question: WhyQuestionView) -> bool {
    question matches WhyQuestionView::Path { explain, .. } && explain
}

/// The rows explain a question about a path: they are those of the grants that cover it, the
/// longest path first.
pub open spec fn explains(
    rows: Seq<ExplainedMatchView>,
    question: WhyQuestionView,
    caps: CapabilitySet,
    context: PathContext,
) -> bool {
    match question {
        WhyQuestionView::Path { path, requested, .. } => order::is_stable_sort(
            query_ext::covering_rows(
                caps.fs@,
                query_ext::query_target(path, context.probe)->Ok_0,
                requested,
            ),
            rows,
            query_ext::longer_first(),
        ),
        _ => false,
    }
}

/// An answer: the verdict, and the rows of the explanation where one was asked for.
#[derive(Debug, Clone, PartialEq, Eq)]
pub struct WhyAnswer {
    pub verdict: QueryResult,
    pub matches: Option<Vec<ExplainedMatch>>,
}

/// Answers a question.
pub fn answer_why(
    question: &WhyQuestion,
    caps: &CapabilitySet,
    overridden_paths: &Vec<Vec<u8>>,
    context: &PathContext,
) -> (r: Result<WhyAnswer, NonoError>)
    ensures
        match r {
            Ok(answer) => {
                &&& verdict_on(question@, *caps, overridden_paths@, *context) == Ok::<
                    QueryResultView,
                    ErrorView,
                >(answer.verdict@)
                &&& answer.matches is Some <==> asks_to_explain(question@)
                &&& answer.matches is Some ==> explains(
                    query_ext::row_views(answer.matches->0@),
                    question@,
                    *caps,
                    *context,
                )
            },
            Err(e) => verdict_on(question@, *caps, overridden_paths@, *context) == Err::<
                QueryResultView,
                ErrorView,
            >(e@),
        },
{
    match question {
        WhyQuestion::Path { path, requested, explain } => {
            if *explain {
                match query_ext::query_path_explained(
                    path,
                    *requested,
                    caps,
                    overridden_paths,
                    context,
                ) {
                    Ok((verdict, rows)) => Ok(WhyAnswer { verdict, matches: Some(rows) }),
                    Err(e) => Err(e),
                }
            } else {
                match query_ext::query_path(path, *requested, caps, overridden_paths, context) {
                    Ok(verdict) => Ok(WhyAnswer { verdict, matches: None }),
                    Err(e) => Err(e),
                }
            }
        },
        WhyQuestion::Network { host, port } => Ok(
            WhyAnswer {
                verdict: query_ext::query_network(host.as_str(), *port, caps),
                matches: None,
            },
        ),
        WhyQuestion::Tcp { port } => Ok(
            WhyAnswer { verdict: query_ext::query_tcp_port(*port, caps), matches: None },
        ),
        WhyQuestion::Command { name } => match query_ext::query_command(name.as_str(), caps) {
            Ok(verdict) => Ok(WhyAnswer { verdict, matches: None }),
            Err(e) => Err(e),
        },
    }
}

/// Asking for an explanation does not change the verdict.
pub proof fn law_explanation_is_additive(
    path: Seq<u8>,
    requested: AccessMode,
    caps: CapabilitySet,
    overridden: Seq<Vec<u8>>,
    context: PathContext,
)
    ensures
        verdict_on(
            WhyQuestionView::Path { path, requested, explain: true },
            caps,
            overridden,
            context,
        ) == verdict_on(
            WhyQuestionView::Path { path, requested, explain: false },
            caps,
            overridden,
            context,
        ),
{
}

/// A question about `host:port` gets the answer that the host and the port get when they are given
/// apart.
pub proof fn law_net_is_shorthand_for_host_and_port(
    args: WhyArgs,
    host: String,
    port: u16,
)
    requires
        args.path is None,
        args.net is Some,
        query_ext::host_port(args.net->0@, args.port) == Ok::<(Seq<char>, u16), ErrorView>(
            (host@, port),
        ),
    ensures
        question_of(args) == question_of(WhyArgs { net: None, host: Some(host), port, ..args }),
{
}

/// The document of an answer: the verdict alone, or an object of the verdict and the rows.
pub open spec fn answer_json(verdict: Seq<char>, matches: Option<Seq<char>>) -> Seq<char> {
    match matches {
        None => verdict,
        Some(rows) => "{"@ + text::joined(
            seq![
                json::quoted_json("matches"@) + ":"@ + rows,
                json::quoted_json("result"@) + ":"@ + verdict,
            ],
            ","@,
        ) + "}"@,
    }
}

/// Builds the document of an answer out of the serialized verdict and rows.
pub fn answer_value(verdict: serde_json::Value, matches: Option<serde_json::Value>) -> (value:
    serde_json::Value)
    ensures
        json::json_text(value) == answer_json(
            json::json_text(verdict),
            match matches {
                Some(rows) => Some(json::json_text(rows)),
                None => None,
            },
        ),
        matches is Some ==> json::pointed_json(json::json_text(value), json::pointer_to("result"@))
            == Some(json::json_text(verdict)),
        matches is Some ==> json::pointed_json(
            json::json_text(value),
            json::pointer_to("matches"@),
        ) == Some(json::json_text(matches->0)),
{
    match matches {
        None => verdict,
        Some(rows) => {
            let mut members: Vec<(String, serde_json::Value)> = Vec::new();
            members.push(("matches".to_owned(), rows));
            members.push(("result".to_owned(), verdict));
            proof {
                reveal_strlit("matches");
                reveal_strlit("result");
                assert("matches"@.take(0) =~= "result"@.take(0));
                order::lemma_ascii_before("matches"@, "result"@, 0);
                assert(members@[0].0@ == "matches"@);
                assert(members@[1].0@ == "result"@);
                assert(json::member_texts(members@) =~= seq![
                    json::quoted_json("matches"@) + ":"@ + json::json_text(rows),
                    json::quoted_json("result"@) + ":"@ + json::json_text(verdict),
                ]);
            }
            json::json_object(members)
        },
    }
}

/// Whether a path can be shortened: it is short enough, or its last 47 bytes start with a whole
/// character.
pub open spec fn can_shorten(path: Seq<char>) -> bool {
    let bytes = encode_utf8(path);
    bytes.len() > 48 ==> is_char_boundary(bytes, bytes.len() - 47)
}

/// A path of at most 48 bytes as it is; of a longer one an ellipsis and the last 47 bytes.
pub open spec fn shortened(path: Seq<char>) -> Seq<char> {
    let bytes = encode_utf8(path);
    if bytes.len() > 48 {
        "…"@ + decode_utf8(bytes.skip(bytes.len() - 47))
    } else {
        path
    }
}

/// Shortens a path from the left.
pub fn shorten_path(path: &str) -> (out: String)
    requires
        can_shorten(path@),
    ensures
        out@ == shortened(path@),
{
    let len: usize = text::byte_len(path);
    if len > 48 {
        let (_, end) = path.split_at(len - 47);
        proof {
            let bytes = encode_utf8(path@);
            assert(bytes.skip(bytes.len() - 47) =~= bytes.subrange(
                bytes.len() - 47,
                bytes.len() as int,
            ));
            encode_utf8_decode_utf8(end@);
        }
        let mut out = "…".to_owned();
        out.append(end);
        out
    } else {
        path.to_owned()
    }
}

/// One row of the explanation: the path, the access, where the grant comes from, and whether it
/// would have been enough.
pub open spec fn explained_row(row: ExplainedMatchView) -> Seq<char> {
    "  "@ + text::padded(shortened(row.path), 48) + "  "@ + text::padded(row.access, 10) + "  "@
        + text::padded(row.source, 24) + "  "@ + (if row.sufficient {
        "yes"@
    } else {
        "no"@
    }) + "\n"@
}

/// The rows of the explanation.
pub open spec fn explained_rows(rows: Seq<ExplainedMatchView>) -> Seq<char>
    decreases rows.len(),
{
    if rows.len() == 0 {
        Seq::empty()
    } else {
        explained_rows(rows.drop_last()) + explained_row(rows.last())
    }
}

/// The titles of the explanation.
pub open spec fn explained_titles() -> Seq<char> {
    "  "@ + text::padded("PATH"@, 48) + "  "@ + text::padded("ACCESS"@, 10) + "  "@ + text::padded(
        "SOURCE"@,
        24,
    ) + "  SUFFICIENT?\n"@
}

/// The explanation.
pub open spec fn explained_text(rows: Seq<ExplainedMatchView>) -> Seq<char> {
    "All matching capabilities:\n"@ + if rows.len() == 0 {
        "  (no fs capability covers this path)\n"@
    } else {
        explained_titles() + explained_rows(rows)
    }
}

/// Writes one row of the explanation.
fn render_explained_row(row: &ExplainedMatch) -> (out: String)
    requires
        can_shorten(row.path@),
    ensures
        out@ == explained_row(row@),
{
    let mut out = "  ".to_owned();
    out.append(text::pad_right(shorten_path(row.path.as_str()).as_str(), 48).as_str());
    out.append("  ");
    out.append(text::pad_right(row.access.as_str(), 10).as_str());
    out.append("  ");
    out.append(text::pad_right(row.source.as_str(), 24).as_str());
    out.append("  ");
    out.append(
        if row.sufficient {
            "yes"
        } else {
            "no"
        },
    );
    out.append("\n");
    out
}

/// Writes the explanation as a small table. An empty list is reported as such, so that the user
/// knows that grants were looked for.
pub fn render_explained_matches(matches: &Vec<ExplainedMatch>) -> (out: String)
    requires
        forall|i: int| 0 <= i < matches.len() ==> can_shorten((#[trigger] matches@[i]).path@),
    ensures
        out@ == explained_text(query_ext::row_views(matches@)),
{
    let ghost all = query_ext::row_views(matches@);
    let mut out = "All matching capabilities:\n".to_owned();
    if matches.len() == 0 {
        out.append("  (no fs capability covers this path)\n");
        return out;
    }
    let mut titles = "  ".to_owned();
    titles.append(text::pad_right("PATH", 48).as_str());
    titles.append("  ");
    titles.append(text::pad_right("ACCESS", 10).as_str());
    titles.append("  ");
    titles.append(text::pad_right("SOURCE", 24).as_str());
    titles.append("  SUFFICIENT?\n");
    let mut rows = String::new();
    let mut i: usize = 0;
    while i < matches.len()
        invariant
            i <= matches.len(),
            all == query_ext::row_views(matches@),
            forall|i: int| 0 <= i < matches.len() ==> can_shorten((#[trigger] matches@[i]).path@),
            rows@ == explained_rows(all.take(i as int)),
        decreases matches.len() - i,
    {
        proof {
            assert(all.take(i + 1).drop_last() =~= all.take(i as int));
            assert(all.take(i + 1).last() == matches@[i as int]@);
        }
        rows.append(render_explained_row(&matches[i]).as_str());
        i += 1;
    }
    assert(all.take(all.len() as int) =~= all);
    titles.append(rows.as_str());
    out.append(titles.as_str());
    out
}

/// `out` shows an answer to people: the result, and below it the explanation where there is one.
pub open spec fn shows_answer(
    out: Seq<char>,
    verdict: QueryResultView,
    matches: Option<Seq<ExplainedMatchView>>,
) -> bool {
    match matches {
        None => query_ext::shows_result(out, verdict),
        Some(rows) => exists|shown: Seq<char>| #[trigger]
            query_ext::shows_result(shown, verdict) && out == shown + "\n"@ + explained_text(rows),
    }
}

/// Writes an answer for people.
pub fn render_answer(answer: &WhyAnswer) -> (out: String)
    requires
        answer.matches is Some ==> forall|i: int|
            0 <= i < answer.matches->0@.len() ==> can_shorten(
                (#[trigger] answer.matches->0@[i]).path@,
            ),
    ensures
        shows_answer(
            out@,
            answer.verdict@,
            match answer.matches {
                Some(rows) => Some(query_ext::row_views(rows@)),
                None => None,
            },
        ),
{
    let mut out = query_ext::render_result(&answer.verdict);
    let ghost shown = out@;
    if let Some(rows) = &answer.matches {
        out.append("\n");
        out.append(render_explained_matches(rows).as_str());
        assert(query_ext::shows_result(shown, answer.verdict@));
    }
    out
}

/// A question about the sandbox itself needs no flag and no profile; else a profile counts where one
/// is named, and the flags alone where none is.
pub proof fn law_the_sandbox_itself_comes_first(source: WhySource, args: WhyArgs)
    requires
        is_source(source, args),
    ensures
        source is Itself <==> args.self_query,
        source is Profile <==> !args.self_query && args.profile is Some,
        source is Flags <==> !args.self_query && args.profile is None,
        source matches WhySource::Profile(name) ==> name@ == args.profile->0@,
{
}

/// What is asked about is the first of these that is given: a path, `host:port`, a host, a TCP
/// port, a command. Without any of them there is nothing to ask.
pub proof fn law_the_first_question_counts(args: WhyArgs)
    ensures
        ({
            let q = question_of(args);
            let (path, net, host, tcp, command) = (
                args.path is Some,
                args.net is Some,
                args.host is Some,
                args.tcp is Some,
                args.command_name is Some,
            );
            &&& path ==> (q matches Ok(WhyQuestionView::Path { path: p, requested, explain }) && p
                == args.path->0@ && explain == args.explain && requested == cli::requested_access(
                args.op,
            ))
            &&& !path && net ==> (match query_ext::host_port(args.net->0@, args.port) {
                Ok((h, p)) => q matches Ok(WhyQuestionView::Network { host: x, port: y }) && x == h
                    && y == p,
                Err(e) => q == Err::<WhyQuestionView, ErrorView>(e),
            })
            &&& !path && !net && host ==> (q matches Ok(WhyQuestionView::Network { host: x, port: y })
                && x == args.host->0@ && y == args.port)
            &&& !path && !net && !host && tcp ==> (q matches Ok(WhyQuestionView::Tcp { port: y })
                && Some(y) == args.tcp)
            &&& !path && !net && !host && !tcp && command ==> (q matches Ok(
                WhyQuestionView::Command { name },
            ) && name == args.command_name->0@)
            &&& !path && !net && !host && !tcp && !command ==> q == Err::<
                WhyQuestionView,
                ErrorView,
            >(ErrorView::ConfigParse("--path, --host, --net, --tcp or --command is required"@))
        }),
{
}

/// Each kind of question is answered by its own rules, and only questions about paths can be
/// explained.
pub proof fn law_questions_are_answered_in_kind(
    question: WhyQuestionView,
    caps: CapabilitySet,
    overridden: Seq<Vec<u8>>,
    context: PathContext,
)
    ensures
        question matches WhyQuestionView::Network { host, port } ==> verdict_on(
            question,
            caps,
            overridden,
            context,
        ) == Ok::<QueryResultView, ErrorView>(query_ext::network_verdict(host, port, caps)),
        question matches WhyQuestionView::Tcp { port } ==> verdict_on(
            question,
            caps,
            overridden,
            context,
        ) == Ok::<QueryResultView, ErrorView>(query_ext::tcp_verdict(port, caps)),
        question matches WhyQuestionView::Command { name } ==> verdict_on(
            question,
            caps,
            overridden,
            context,
        ) == Ok::<QueryResultView, ErrorView>(
            query_ext::command_verdict(
                name,
                text::texts(caps.allowed@),
                text::texts(caps.blocked@),
            ),
        ),
        question matches WhyQuestionView::Path { path, requested, explain } ==> verdict_on(
            question,
            caps,
            overridden,
            context,
        ) == query_ext::path_answer(path, requested, caps.fs@, overridden, context)
            && asks_to_explain(question) == explain,
        !(question is Path) ==> !asks_to_explain(question),
{
}

/// The directory that was given counts, else the current one, and else a dot.
pub proof fn law_given_directories_count_first(given: Option<Seq<u8>>, current: Option<Seq<u8>>)
    ensures
        given is Some ==> working_directory(given, current) == given->0,
        given is None && current is Some ==> working_directory(given, current) == current->0,
        given is None && current is None ==> working_directory(given, current) == seq![46u8],
{
}

/// An exemption is about the canonical path of what exists and about the path itself of what does
/// not; what exists but cannot be made canonical is not exempt.
pub proof fn law_exemptions_are_canonical(expanded: Seq<u8>, found: Resolution)
    ensures
        found matches Resolution::Resolved(p) ==> exemption(expanded, found) == Some(p@),
        found is Missing ==> exemption(expanded, found) == Some(expanded),
        found is Failed ==> exemption(expanded, found) is None,
{
}

/// A path of at most 48 bytes is shown whole; of a longer one an ellipsis and the last 47 bytes.
pub proof fn law_long_paths_keep_their_end(front: Seq<char>, end: Seq<char>)
    ensures
        encode_utf8(front).len() <= 48 ==> shortened(front) == front,
        encode_utf8(front).len() > 1 && encode_utf8(end).len() == 47 ==> shortened(front + end)
            == seq!['…'] + end,
{
    reveal_strlit("…");
    assert("…"@ =~= seq!['…']);
    if encode_utf8(front).len() > 1 && encode_utf8(end).len() == 47 {
        query_laws::lemma_encode_concat(front, end);
        let bytes = encode_utf8(front + end);
        assert(bytes.skip(bytes.len() - 47) =~= encode_utf8(end));
        encode_utf8_decode_utf8(end);
    }
}

/// A row of the explanation is the shortened path, the access, the source and whether it would have
/// been enough, in this order.
pub proof fn law_rows_of_explanations(row: ExplainedMatchView)
    ensures
        explained_row(row) == "  "@ + text::joined(
            seq![
                text::padded(shortened(row.path), 48),
                text::padded(row.access, 10),
                text::padded(row.source, 24),
                if row.sufficient {
                    "yes"@
                } else {
                    "no"@
                },
            ],
            "  "@,
        ) + "\n"@,
{
    let a = text::padded(shortened(row.path), 48);
    let b = text::padded(row.access, 10);
    let c = text::padded(row.source, 24);
    let d = if row.sufficient {
        "yes"@
    } else {
        "no"@
    };
    assert(seq![a, b, c, d].drop_last() =~= seq![a, b, c]);
    assert(seq![a, b, c].drop_last() =~= seq![a, b]);
    assert(seq![a, b].drop_last() =~= seq![a]);
    reveal_with_fuel(text::joined, 4);
    assert(explained_row(row) =~= "  "@ + (a + "  "@ + b + "  "@ + c + "  "@ + d) + "\n"@);
}

/// An explanation has a line for each row, in order, below a line of titles, and says so where there
/// are none.
pub proof fn law_explanations_have_a_line_per_row(
    rows: Seq<ExplainedMatchView>,
    row: ExplainedMatchView,
)
    ensures
        explained_text(Seq::empty()) == "All matching capabilities:\n"@
            + "  (no fs capability covers this path)\n"@,
        explained_text(seq![row]) == "All matching capabilities:\n"@ + (explained_titles()
            + explained_row(row)),
        rows.len() > 0 ==> explained_text(rows.push(row)) == explained_text(rows) + explained_row(
            row,
        ),
{
    let head = "All matching capabilities:\n"@;
    assert(rows.push(row).drop_last() =~= rows);
    assert(seq![row].drop_last() =~= Seq::empty());
    reveal_with_fuel(explained_rows, 2);
    assert(explained_rows(seq![row]) =~= explained_row(row));
    if rows.len() > 0 {
        assert(explained_text(rows.push(row)) =~= explained_text(rows) + explained_row(row));
    }
}

/// An answer for people is the result and, where one was asked for, the explanation below it.
pub proof fn law_answers_show_result_and_explanation(
    out: Seq<char>,
    verdict: QueryResultView,
    rows: Seq<ExplainedMatchView>,
)
    ensures
        shows_answer(out, verdict, None) <==> query_ext::shows_result(out, verdict),
        shows_answer(out, verdict, Some(rows)) ==> exists|shown: Seq<char>| #[trigger]
            query_ext::shows_result(shown, verdict) && out == shown + "\n"@ + explained_text(rows),
{
}

/// Only questions about paths are explained; the rows are those of the grants that cover the
/// target, longer paths first.
pub proof fn law_explanations_are_about_the_path(
    rows: Seq<ExplainedMatchView>,
    question: WhyQuestionView,
    caps: CapabilitySet,
    context: PathContext,
    target: Seq<u8>,
)
    requires
        explains(rows, question, caps, context),
    ensures
        question is Path,
        question matches WhyQuestionView::Path { path, requested, .. } ==> {
            query_ext::query_target(path, context.probe) == Ok::<Seq<u8>, ErrorView>(target)
                ==> order::is_stable_sort(
                query_ext::covering_rows(caps.fs@, target, requested),
                rows,
                query_ext::longer_first(),
            )
        },
{
}

/// An answer in JSON is the verdict, which stands beside the rows where an explanation was asked
/// for.
pub proof fn law_json_answers_hold_verdict_and_rows(verdict: Seq<char>, rows: Seq<char>)
    ensures
        answer_json(verdict, None) == verdict,
        answer_json(verdict, Some(rows)) == "{"@ + (json::quoted_json("matches"@) + ":"@ + rows
            + ","@ + (json::quoted_json("result"@) + ":"@ + verdict)) + "}"@,
{
    let a = json::quoted_json("matches"@) + ":"@ + rows;
    let b = json::quoted_json("result"@) + ":"@ + verdict;
    reveal_with_fuel(text::joined, 2);
    assert(seq![a, b].drop_last() =~= seq![a]);
}

/// Paths of at most 48 bytes can be shown; of longer ones those whose last 47 bytes start a
/// character.
pub proof fn law_paths_that_can_be_shortened(front: Seq<char>)
    ensures
        encode_utf8(front).len() <= 48 ==> can_shorten(front),
        encode_utf8(front).len() > 48 ==> (can_shorten(front) <==> is_char_boundary(
            encode_utf8(front),
            encode_utf8(front).len() - 47,
        )),
{
}

/// The titles of an explanation stand above their columns.
pub proof fn law_titles_of_explanations()
    ensures
        explained_titles() == "  "@ + text::joined(
            seq![
                text::padded("PATH"@, 48),
                text::padded("ACCESS"@, 10),
                text::padded("SOURCE"@, 24),
                "SUFFICIENT?"@,
            ],
            "  "@,
        ) + "\n"@,
{
    let a = text::padded("PATH"@, 48);
    let b = text::padded("ACCESS"@, 10);
    let c = text::padded("SOURCE"@, 24);
    let d = "SUFFICIENT?"@;
    assert(seq![a, b, c, d].drop_last() =~= seq![a, b, c]);
    assert(seq![a, b, c].drop_last() =~= seq![a, b]);
    assert(seq![a, b].drop_last() =~= seq![a]);
    reveal_with_fuel(text::joined, 4);
    reveal_strlit("  SUFFICIENT?\n");
    reveal_strlit("SUFFICIENT?");
    reveal_strlit("  ");
    reveal_strlit("\n");
    assert("  SUFFICIENT?\n"@ =~= "  "@ + d + "\n"@);
    assert(explained_titles() =~= "  "@ + (a + "  "@ + b + "  "@ + c + "  "@ + d) + "\n"@);
}

} // verus!
