//! What `nono ps` prints, once or again and again.

use vstd::prelude::*;

use crate::cli::{PsArgs, PsColumn, PsHeaderFormat, PsOutputFormat};
use crate::error::NonoError;
use crate::event_log;
use crate::ps_filter;
use crate::ps_order;
use crate::ps_table;
use crate::session::SessionRecord;
use crate::text;

verus! {

/// The forms that the list of sessions can take.
#[derive(Debug, Clone, Copy, PartialEq, Eq, Structural)]
pub enum PsOutputMode {
    /// One field of the JSON document.
    JsonField,
    /// The JSON document, on one line.
    CompactJson,
    /// The JSON document, laid out on lines.
    PrettyJson,
    /// A text format for other programs.
    Tabular(PsOutputFormat),
    /// A message on the error stream, in place of an empty table.
    Empty,
    /// The short table.
    Short,
    /// The table.
    Table,
}

/// The form to use. The formats for other programs are used even where there are no sessions.
pub open spec fn output_mode(args: PsArgs, no_sessions: bool) -> PsOutputMode {
    if args.json {
        if args.field is Some {
            PsOutputMode::JsonField
        } else if args.compact {
            PsOutputMode::CompactJson
        } else {
            PsOutputMode::PrettyJson
        }
    } else if args.output is Some {
        PsOutputMode::Tabular(args.output->0)
    } else if no_sessions {
        PsOutputMode::Empty
    } else if args.short {
        PsOutputMode::Short
    } else {
        PsOutputMode::Table
    }
}

/// Picks the form to use.
pub fn ps_output_mode(args: &PsArgs, no_sessions: bool) -> (mode: PsOutputMode)
    ensures
        mode == output_mode(*args, no_sessions),
{
    if args.json {
        return if args.field.is_some() {
            PsOutputMode::JsonField
        } else if args.compact {
            PsOutputMode::CompactJson
        } else {
            PsOutputMode::PrettyJson
        };
    }
    match args.output {
        Some(fmt) => PsOutputMode::Tabular(fmt),
        None => {
            if no_sessions {
                PsOutputMode::Empty
            } else if args.short {
                PsOutputMode::Short
            } else {
                PsOutputMode::Table
            }
        },
    }
}

/// What `nono ps` is about to print: the sessions, and the form to use.
#[derive(Debug, Clone)]
pub struct PsPlan<'a> {
    pub sessions: Vec<&'a SessionRecord>,
    pub mode: PsOutputMode,
}

/// Picks the sessions to list and the form to use, `now` being in seconds since the epoch.
pub fn plan_ps<'a>(sessions: &'a Vec<SessionRecord>, args: &PsArgs, now: u64) -> (r: Result<
    PsPlan<'a>,
    NonoError,
>)
    ensures
        match (r, ps_filter::since_limit(args.since, now)) {
            (Ok(plan), Ok(threshold)) => {
                &&& ps_order::is_arranged(
                    ps_filter::listed(sessions@, *args, threshold),
                    ps_filter::records_of(plan.sessions@),
                    args.sort,
                    args.reverse,
                )
                &&& plan.mode == output_mode(*args, plan.sessions@.len() == 0)
            },
            (Err(e), Err(expected)) => e@ == expected,
            _ => false,
        },
{
    match ps_filter::since_threshold(&args.since, now) {
        Ok(threshold) => {
            let selected = ps_order::select_sessions(sessions, args, threshold);
            let mode = ps_output_mode(args, selected.len() == 0);
            Ok(PsPlan { sessions: selected, mode })
        },
        Err(e) => Err(e),
    }
}

/// The header with a line break behind it, where there is a header.
pub open spec fn header_lines(args: PsArgs, titles: Seq<char>, divider_width: nat) -> Seq<char> {
    match ps_table::header_text(args.header_format, titles, divider_width) {
        Some(header) => header + "\n"@,
        None => Seq::empty(),
    }
}

fn render_header_lines(args: &PsArgs, titles: &str, divider_width: usize) -> (out: String)
    ensures
        out@ == header_lines(*args, titles@, divider_width as nat),
{
    match ps_table::render_ps_header(args.header_format, titles, divider_width) {
        Some(header) => {
            let mut out = header;
            out.append("\n");
            out
        },
        None => String::new(),
    }
}

/// The titles of the short table.
pub open spec fn short_titles() -> Seq<char> {
    text::padded("SESSION"@, 16) + " "@ + text::padded("NAME"@, 12) + " "@ + text::padded(
        "STATUS"@,
        12,
    ) + " COMMAND"@
}

/// The divider of the short table is as wide as its titles.
pub proof fn law_short_divider_fits_titles()
    ensures
        short_titles().len() == ps_table::PS_SHORT_TABLE_WIDTH,
{
    reveal_strlit("SESSION");
    reveal_strlit("NAME");
    reveal_strlit("STATUS");
    reveal_strlit(" COMMAND");
    reveal_strlit(" ");
}

/// The rows of the short table.
pub open spec fn short_rows(records: Seq<SessionRecord>, no_truncate: bool) -> Seq<Seq<char>> {
    records.map_values(|s: SessionRecord| ps_table::short_row(s, 60, no_truncate))
}

/// The short table.
pub open spec fn short_table(records: Seq<SessionRecord>, args: PsArgs) -> Seq<char> {
    header_lines(args, short_titles(), ps_table::PS_SHORT_TABLE_WIDTH as nat)
        + event_log::lines_text(short_rows(records, args.no_truncate))
}

/// Writes the short table.
pub fn render_short_table(records: &Vec<&SessionRecord>, args: &PsArgs) -> (out: String)
    ensures
        out@ == short_table(ps_filter::records_of(records@), *args),
{
    let mut titles = text::pad_right("SESSION", 16);
    titles.append(" ");
    titles.append(text::pad_right("NAME", 12).as_str());
    titles.append(" ");
    titles.append(text::pad_right("STATUS", 12).as_str());
    titles.append(" COMMAND");
    let mut rows: Vec<String> = Vec::new();
    let mut i: usize = 0;
    while i < records.len()
        invariant
            i <= records.len(),
            rows.len() == i,
            forall|j: int|
                0 <= j < i ==> #[trigger] rows@[j]@ == ps_table::short_row(
                    *records@[j],
                    60,
                    args.no_truncate,
                ),
        decreases records.len() - i,
    {
        rows.push(ps_table::format_ps_short_row(records[i], 60, args.no_truncate));
        i += 1;
    }
    assert(text::texts(rows@) =~= short_rows(
        ps_filter::records_of(records@),
        args.no_truncate,
    ));
    let mut out = render_header_lines(args, titles.as_str(), ps_table::PS_SHORT_TABLE_WIDTH);
    out.append(event_log::render_lines(&rows).as_str());
    out
}

/// The columns to show: those that were asked for, else all.
pub open spec fn shown_columns(args: PsArgs) -> Seq<PsColumn> {
    if args.columns@.len() == 0 {
        ps_table::DEFAULT_PS_COLUMNS@
    } else {
        args.columns@
    }
}

/// Resolves the columns to show.
pub fn resolve_columns(args: &PsArgs) -> (columns: Vec<PsColumn>)
    ensures
        columns@ == shown_columns(*args),
{
    let all = ps_table::DEFAULT_PS_COLUMNS;
    let chosen: &[PsColumn] = if args.columns.len() == 0 {
        &all
    } else {
        args.columns.as_slice()
    };
    let mut columns: Vec<PsColumn> = Vec::new();
    let mut i: usize = 0;
    while i < chosen.len()
        invariant
            i <= chosen.len(),
            columns@ == chosen@.take(i as int),
        decreases chosen.len() - i,
    {
        columns.push(chosen[i]);
        assert(chosen@.take(i + 1) =~= chosen@.take(i as int).push(chosen@[i as int]));
        i += 1;
    }
    assert(chosen@.take(chosen@.len() as int) =~= chosen@);
    columns
}

/// The rows are those of the sessions, one for each.
pub open spec fn are_rows(
    rows: Seq<Seq<char>>,
    records: Seq<SessionRecord>,
    columns: Seq<PsColumn>,
    no_truncate: bool,
) -> bool {
    &&& rows.len() == records.len()
    &&& forall|i: int|
        0 <= i < records.len() ==> ps_table::is_row(
            #[trigger] rows[i],
            columns,
            records[i],
            no_truncate,
        )
}

/// `out` is the table: the header, with a divider as wide as the titles, and the rows.
pub open spec fn is_table(out: Seq<char>, records: Seq<SessionRecord>, args: PsArgs) -> bool {
    let columns = shown_columns(args);
    let titles = ps_table::header_row(columns);
    exists|rows: Seq<Seq<char>>| #[trigger]
        are_rows(rows, records, columns, args.no_truncate) && out == header_lines(
            args,
            titles,
            titles.len(),
        ) + event_log::lines_text(rows)
}

/// Writes the table.
pub fn render_table(records: &Vec<&SessionRecord>, args: &PsArgs) -> (out: String)
    ensures
        is_table(out@, ps_filter::records_of(records@), *args),
{
    let columns = resolve_columns(args);
    let titles = ps_table::render_default_header_row(&columns);
    let divider_width: usize = titles.as_str().unicode_len();
    let mut rows: Vec<String> = Vec::new();
    let mut i: usize = 0;
    while i < records.len()
        invariant
            i <= records.len(),
            rows.len() == i,
            forall|j: int|
                0 <= j < i ==> ps_table::is_row(
                    (#[trigger] rows@[j])@,
                    columns@,
                    *records@[j],
                    args.no_truncate,
                ),
        decreases records.len() - i,
    {
        rows.push(ps_table::render_default_data_row(records[i], &columns, args.no_truncate));
        i += 1;
    }
    let mut out = render_header_lines(args, titles.as_str(), divider_width);
    out.append(event_log::render_lines(&rows).as_str());
    proof {
        let all = text::texts(rows@);
        let recs = ps_filter::records_of(records@);
        assert forall|j: int| 0 <= j < recs.len() implies ps_table::is_row(
            #[trigger] all[j],
            columns@,
            recs[j],
            args.no_truncate,
        ) by {
            assert(all[j] == rows@[j]@);
        }
        assert(are_rows(all, recs, columns@, args.no_truncate));
    }
    out
}

/// What clears the screen before a watched table is drawn again.
pub const CLEAR_SCREEN: &'static str = "\x1b[2J\x1b[H";

/// How the drawing of a watched table goes on.
#[derive(Debug, Clone, Copy, PartialEq, Eq, Structural)]
pub enum WatchStep {
    /// The last frame has been drawn.
    Stop,
    /// Draw another frame, with this many left.
    Continue(Option<u64>),
}

/// The step before the first frame.
pub open spec fn first_step(limit: Option<u64>) -> WatchStep {
    if limit == Some(0u64) {
        WatchStep::Stop
    } else {
        WatchStep::Continue(limit)
    }
}

/// Decides whether there is a first frame to draw.
pub fn before_frames(limit: Option<u64>) -> (step: WatchStep)
    ensures
        step == first_step(limit),
{
    match limit {
        Some(0) => WatchStep::Stop,
        _ => WatchStep::Continue(limit),
    }
}

/// The step after a frame, `remaining` being the frames that were left before it.
pub open spec fn next_step(remaining: Option<u64>) -> WatchStep {
    match remaining {
        None => WatchStep::Continue(None),
        Some(n) => if n <= 1 {
            WatchStep::Stop
        } else {
            WatchStep::Continue(Some((n - 1) as u64))
        },
    }
}

/// Decides what comes after a frame; another one is drawn after a sleep. Without a limit the
/// watching goes on for ever.
pub fn after_frame(remaining: Option<u64>) -> (step: WatchStep)
    ensures
        step == next_step(remaining),
{
    match remaining {
        None => WatchStep::Continue(None),
        Some(n) => {
            let left: u64 = n.saturating_sub(1);
            if left == 0 {
                WatchStep::Stop
            } else {
                WatchStep::Continue(Some(left))
            }
        },
    }
}

/// How many frames are drawn when one is drawn now, with `remaining` left.
pub open spec fn frames_from(remaining: u64) -> nat
    decreases remaining,
{
    match next_step(Some(remaining)) {
        WatchStep::Continue(Some(n)) if n < remaining => 1 + frames_from(n),
        _ => 1,
    }
}

/// How many frames a limit leads to.
pub open spec fn frames(limit: u64) -> nat {
    match first_step(Some(limit)) {
        WatchStep::Stop => 0,
        WatchStep::Continue(_) => frames_from(limit),
    }
}

proof fn lemma_frames_from(remaining: u64)
    requires
        remaining > 0,
    ensures
        frames_from(remaining) == remaining,
    decreases remaining,
{
    if remaining > 1 {
        lemma_frames_from((remaining - 1) as u64);
    }
}

/// A limit of `n` frames leads to `n` frames.
pub proof fn law_watch_draws_as_many_frames_as_asked(limit: u64)
    ensures
        frames(limit) == limit,
{
    if limit > 0 {
        lemma_frames_from(limit);
    }
}

/// JSON is printed exactly when it is asked for; else the text format that is asked for, with or
/// without sessions; else a message where there are none; else a table, short exactly when that is
/// asked for.
pub proof fn law_output_follows_the_flags(args: PsArgs, no_sessions: bool)
    ensures
        ({
            let mode = output_mode(args, no_sessions);
            &&& mode == PsOutputMode::JsonField <==> args.json && args.field is Some
            &&& mode == PsOutputMode::CompactJson <==> args.json && args.field is None
                && args.compact
            &&& mode == PsOutputMode::PrettyJson <==> args.json && args.field is None
                && !args.compact
            &&& mode is Tabular <==> !args.json && args.output is Some
            &&& mode is Tabular ==> args.output == Some(mode->Tabular_0)
            &&& mode == PsOutputMode::Empty <==> !args.json && args.output is None && no_sessions
            &&& mode == PsOutputMode::Short <==> !args.json && args.output is None && !no_sessions
                && args.short
            &&& mode == PsOutputMode::Table <==> !args.json && args.output is None && !no_sessions
                && !args.short
        }),
{
}

/// The columns are those that were asked for, in that order; without any all eight are shown.
pub proof fn law_columns_are_those_asked_for(args: PsArgs)
    ensures
        args.columns@.len() > 0 ==> shown_columns(args) == args.columns@,
        args.columns@.len() == 0 ==> shown_columns(args) == seq![
            PsColumn::Session,
            PsColumn::Name,
            PsColumn::Status,
            PsColumn::Attach,
            PsColumn::Pid,
            PsColumn::Uptime,
            PsColumn::Profile,
            PsColumn::Command,
        ],
{
    assert(ps_table::DEFAULT_PS_COLUMNS@ =~= seq![
        PsColumn::Session,
        PsColumn::Name,
        PsColumn::Status,
        PsColumn::Attach,
        PsColumn::Pid,
        PsColumn::Uptime,
        PsColumn::Profile,
        PsColumn::Command,
    ]);
}

/// The table is its header and a line for each session, in order.
pub proof fn law_table_has_a_line_per_session(
    out: Seq<char>,
    records: Seq<SessionRecord>,
    args: PsArgs,
)
    requires
        is_table(out, records, args),
    ensures
        exists|rows: Seq<Seq<char>>|
            {
                &&& rows.len() == records.len()
                &&& forall|i: int|
                    0 <= i < records.len() ==> ps_table::is_row(
                        #[trigger] rows[i],
                        shown_columns(args),
                        records[i],
                        args.no_truncate,
                    )
                &&& out == header_lines(
                    args,
                    ps_table::header_row(shown_columns(args)),
                    ps_table::header_row(shown_columns(args)).len(),
                ) + #[trigger] event_log::lines_text(rows)
            },
{
    let rows = choose|rows: Seq<Seq<char>>| #[trigger]
        are_rows(rows, records, shown_columns(args), args.no_truncate) && out == header_lines(
            args,
            ps_table::header_row(shown_columns(args)),
            ps_table::header_row(shown_columns(args)).len(),
        ) + event_log::lines_text(rows);
    assert(are_rows(rows, records, shown_columns(args), args.no_truncate));
}

/// The short table is its header and a line for each session, in order.
pub proof fn law_short_table_has_a_line_per_session(records: Seq<SessionRecord>, args: PsArgs)
    ensures
        short_rows(records, args.no_truncate).len() == records.len(),
        forall|i: int|
            0 <= i < records.len() ==> #[trigger] short_rows(records, args.no_truncate)[i]
                == ps_table::short_row(records[i], 60, args.no_truncate),
        short_table(records, args) == header_lines(args, short_titles(), 50)
            + event_log::lines_text(short_rows(records, args.no_truncate)),
{
}

/// A header is printed with a line break behind it, or not at all.
pub proof fn law_header_can_be_left_out(args: PsArgs, titles: Seq<char>, width: nat)
    ensures
        args.header_format == PsHeaderFormat::NoHeader ==> header_lines(args, titles, width)
            == Seq::<char>::empty(),
        args.header_format == PsHeaderFormat::Ascii ==> header_lines(args, titles, width) == titles
            + "\n"@ + text::repeated('-', width) + "\n"@,
        args.header_format == PsHeaderFormat::Fancy ==> header_lines(args, titles, width) == titles
            + "\n"@ + text::repeated('─', width) + "\n"@,
{
}

/// Without a limit the watching goes on for ever; with one every frame counts.
pub proof fn law_watching_goes_on_without_a_limit(n: u64)
    ensures
        first_step(None) == WatchStep::Continue(None),
        next_step(None) == WatchStep::Continue(None),
        n > 0 ==> first_step(Some(n)) == WatchStep::Continue(Some(n)),
        first_step(Some(0)) == WatchStep::Stop,
        n > 1 ==> next_step(Some(n)) == WatchStep::Continue(Some((n - 1) as u64)),
        n <= 1 ==> next_step(Some(n)) == WatchStep::Stop,
{
}

} // verus!
