//! The session table of `nono ps`.

use vstd::prelude::*;

use crate::cli::{PsArgs, PsColumn, PsHeaderFormat};
use crate::clock;
use crate::command_display;
use crate::numbers;
use crate::paint;
use crate::paint::Tint;
use crate::session::{SessionAttachment, SessionRecord, SessionStatus};
use crate::text;

verus! {

/// The width of the short table: three padded columns, and the title of the last one.
pub const PS_SHORT_TABLE_WIDTH: usize = 50;

/// The columns of the table, where the user does not choose: all of them, in their usual order.
pub const DEFAULT_PS_COLUMNS: [PsColumn; 8] = [
    PsColumn::Session,
    PsColumn::Name,
    PsColumn::Status,
    PsColumn::Attach,
    PsColumn::Pid,
    PsColumn::Uptime,
    PsColumn::Profile,
    PsColumn::Command,
];

/// The titles and the line below them, or nothing at all.
pub open spec fn header_text(fmt: PsHeaderFormat, header_line: Seq<char>, divider_width: nat) -> Option<
    Seq<char>,
> {
    match fmt {
        PsHeaderFormat::Fancy => Some(
            header_line + "\n"@ + text::repeated('─', divider_width),
        ),
        PsHeaderFormat::Ascii => Some(
            header_line + "\n"@ + text::repeated('-', divider_width),
        ),
        PsHeaderFormat::NoHeader => None,
    }
}

/// Draws the header of the table: the titles, and a divider below them.
pub fn render_ps_header(fmt: PsHeaderFormat, header_line: &str, divider_width: usize) -> (out:
    Option<String>)
    ensures
        text::opt_text(out) == header_text(fmt, header_line@, divider_width as nat),
{
    let divider_char = match fmt {
        PsHeaderFormat::Fancy => '─',
        PsHeaderFormat::Ascii => '-',
        PsHeaderFormat::NoHeader => return None,
    };
    let mut out = header_line.to_owned();
    out.append("\n");
    out.append(text::repeat_char(divider_char, divider_width).as_str());
    Some(out)
}

/// The command column: the whole command line, or as much of it as fits.
pub open spec fn command_cell(command: Seq<Seq<char>>, no_truncate: bool, max_len: nat) -> Seq<
    char,
> {
    if no_truncate {
        command_display::command_line(command)
    } else {
        command_display::truncated_line(command, max_len)
    }
}

/// Writes the command column of a row.
pub fn render_ps_command(command: &[String], no_truncate: bool, max_len: usize) -> (out: String)
    ensures
        out@ == command_cell(text::texts(command@), no_truncate, max_len as nat),
{
    if no_truncate {
        command_display::format_command_line(command)
    } else {
        command_display::truncate_command(command, max_len)
    }
}

pub open spec fn column_title(col: PsColumn) -> Seq<char> {
    match col {
        PsColumn::Session => "SESSION"@,
        PsColumn::Name => "NAME"@,
        PsColumn::Status => "STATUS"@,
        PsColumn::Attach => "ATTACH"@,
        PsColumn::Pid => "PID"@,
        PsColumn::Uptime => "UPTIME"@,
        PsColumn::Profile => "PROFILE"@,
        PsColumn::Command => "COMMAND"@,
    }
}

/// The width to which a column is padded; the last column is not padded.
pub open spec fn column_width(col: PsColumn) -> nat {
    match col {
        PsColumn::Session => 16,
        PsColumn::Name => 12,
        PsColumn::Status => 12,
        PsColumn::Attach => 12,
        PsColumn::Pid => 8,
        PsColumn::Uptime => 10,
        PsColumn::Profile => 14,
        PsColumn::Command => 0,
    }
}

/// The title of a column, and the width to which it is padded.
pub fn column_meta(col: PsColumn) -> (meta: (&'static str, usize))
    ensures
        meta.0@ == column_title(col),
        meta.1 == column_width(col),
{
    match col {
        PsColumn::Session => ("SESSION", 16),
        PsColumn::Name => ("NAME", 12),
        PsColumn::Status => ("STATUS", 12),
        PsColumn::Attach => ("ATTACH", 12),
        PsColumn::Pid => ("PID", 8),
        PsColumn::Uptime => ("UPTIME", 10),
        PsColumn::Profile => ("PROFILE", 14),
        PsColumn::Command => ("COMMAND", 0),
    }
}

/// A column title as it stands in the header.
pub open spec fn title_cell(col: PsColumn) -> Seq<char> {
    text::padded(column_title(col), column_width(col))
}

/// The titles of the columns, padded, with a blank between neighbours.
pub open spec fn header_row(columns: Seq<PsColumn>) -> Seq<char> {
    text::joined(columns.map_values(|col: PsColumn| title_cell(col)), " "@)
}

/// Writes the row of column titles.
pub fn render_default_header_row(columns: &[PsColumn]) -> (out: String)
    ensures
        out@ == header_row(columns@),
{
    let mut cells: Vec<String> = Vec::new();
    let mut i: usize = 0;
    while i < columns.len()
        invariant
            i <= columns.len(),
            cells.len() == i,
            forall|j: int| 0 <= j < i ==> #[trigger] cells@[j]@ == title_cell(columns@[j]),
        decreases columns.len() - i,
    {
        let (title, width) = column_meta(columns[i]);
        cells.push(text::pad_right(title, width));
        i += 1;
    }
    assert(text::texts(cells@) =~= columns@.map_values(|col: PsColumn| title_cell(col)));
    text::join(&cells, " ")
}

/// The status of a session in words, with the exit code where it has exited.
pub open spec fn status_label(s: SessionRecord) -> Seq<char> {
    match s.status {
        SessionStatus::Running => "running"@,
        SessionStatus::Paused => "paused"@,
        SessionStatus::Exited => "exited("@ + numbers::signed_decimal(shown_exit_code(s)) + ")"@,
    }
}

/// The exit code to show: -1 where none is known.
pub open spec fn shown_exit_code(s: SessionRecord) -> int {
    match s.exit_code {
        Some(code) => code as int,
        None => -1,
    }
}

fn exit_code_or_unknown(s: &SessionRecord) -> (code: i32)
    ensures
        code == shown_exit_code(*s),
{
    match s.exit_code {
        Some(code) => code,
        None => -1,
    }
}

/// Writes the status of a session in words.
pub fn status_text(s: &SessionRecord) -> (out: String)
    ensures
        out@ == status_label(*s),
{
    match s.status {
        SessionStatus::Running => "running".to_owned(),
        SessionStatus::Paused => "paused".to_owned(),
        SessionStatus::Exited => {
            let mut out = "exited(".to_owned();
            out.append(numbers::signed_text(exit_code_or_unknown(s) as i64).as_str());
            out.append(")");
            out
        },
    }
}

/// The attachment of a session in words; for an exited session there is none.
pub open spec fn attach_label(s: SessionRecord) -> Seq<char> {
    match (s.status, s.attachment) {
        (SessionStatus::Exited, _) => "-"@,
        (_, SessionAttachment::Attached) => "attached"@,
        (_, SessionAttachment::Detached) => "detached"@,
    }
}

/// Writes the attachment of a session in words.
pub fn attach_text(s: &SessionRecord) -> (out: &'static str)
    ensures
        out@ == attach_label(*s),
{
    match (s.status, s.attachment) {
        (SessionStatus::Exited, _) => "-",
        (_, SessionAttachment::Attached) => "attached",
        (_, SessionAttachment::Detached) => "detached",
    }
}

/// The color of the status column: green while running, yellow while paused, red after a failure.
pub open spec fn status_color(s: SessionRecord) -> Option<Tint> {
    match s.status {
        SessionStatus::Running => Some(Tint::Green),
        SessionStatus::Paused => Some(Tint::Yellow),
        SessionStatus::Exited => if shown_exit_code(s) != 0 {
            Some(Tint::Red)
        } else {
            None
        },
    }
}

/// The color of the status column.
pub fn status_tint(s: &SessionRecord) -> (tint: Option<Tint>)
    ensures
        tint == status_color(*s),
{
    match s.status {
        SessionStatus::Running => Some(Tint::Green),
        SessionStatus::Paused => Some(Tint::Yellow),
        SessionStatus::Exited => {
            if exit_code_or_unknown(s) != 0 {
                Some(Tint::Red)
            } else {
                None
            }
        },
    }
}

/// The color of the attachment column: green while attached, yellow while detached.
pub open spec fn attach_color(s: SessionRecord) -> Option<Tint> {
    match (s.status, s.attachment) {
        (SessionStatus::Exited, _) => None,
        (_, SessionAttachment::Attached) => Some(Tint::Green),
        (_, SessionAttachment::Detached) => Some(Tint::Yellow),
    }
}

/// The color of the attachment column.
pub fn attach_tint(s: &SessionRecord) -> (tint: Option<Tint>)
    ensures
        tint == attach_color(*s),
{
    match (s.status, s.attachment) {
        (SessionStatus::Exited, _) => None,
        (_, SessionAttachment::Attached) => Some(Tint::Green),
        (_, SessionAttachment::Detached) => Some(Tint::Yellow),
    }
}

/// `out` is `cell`, in the given color or bare; without a color it is bare.
pub open spec fn is_tinted(out: Seq<char>, cell: Seq<char>, tint: Option<Tint>) -> bool {
    match tint {
        Some(t) => paint::is_painted(out, cell, paint::tint_code(t)),
        None => out == cell,
    }
}

/// Colors a cell.
fn tinted(cell: String, tint: Option<Tint>) -> (out: String)
    requires
        !cell@.contains('\x1b'),
    ensures
        is_tinted(out@, cell@, tint),
{
    match tint {
        Some(t) => paint::paint(cell.as_str(), t),
        None => cell,
    }
}

/// Padding brings in blanks only.
pub proof fn lemma_padded_contains(s: Seq<char>, width: nat, c: char)
    requires
        !s.contains(c),
        c != ' ',
    ensures
        !text::padded(s, width).contains(c),
{
    let p = text::padded(s, width);
    if p.contains(c) {
        let i = p.index_of(c);
        if i < s.len() {
            assert(s[i] == c);
        }
    }
}

/// A number is written with digits and a sign.
proof fn lemma_signed_decimal_contains(n: int, c: char)
    requires
        !numbers::is_digit(c),
        c != '-',
    ensures
        !numbers::signed_decimal(n).contains(c),
{
    let m: nat = if n < 0 { (-n) as nat } else { n as nat };
    numbers::lemma_decimal_digits(m);
    let s = numbers::signed_decimal(n);
    if s.contains(c) {
        let i = s.index_of(c);
        if n < 0 {
            reveal_strlit("-");
            if i > 0 {
                assert(s[i] == numbers::decimal(m)[i - 1]);
            }
        }
    }
}

/// A status in words holds no escape character.
pub proof fn lemma_status_label_is_plain(s: SessionRecord)
    ensures
        !status_label(s).contains('\x1b'),
{
    reveal_strlit("running");
    reveal_strlit("paused");
    reveal_strlit("exited(");
    reveal_strlit(")");
    let code = numbers::signed_decimal(shown_exit_code(s));
    lemma_signed_decimal_contains(shown_exit_code(s), '\x1b');
    let label = status_label(s);
    if label.contains('\x1b') {
        let i = label.index_of('\x1b');
        if s.status == SessionStatus::Exited {
            if 7 <= i < 7 + code.len() {
                assert(code[i - 7] == '\x1b');
                assert(code.contains(code[i - 7]));
            }
        }
    }
}

/// `out` is the status cell of a session.
pub open spec fn is_status_cell(out: Seq<char>, s: SessionRecord, width: nat) -> bool {
    is_tinted(out, text::padded(status_label(s), width), status_color(s))
}

/// Writes the status cell.
pub fn render_status_cell(session: &SessionRecord, width: usize) -> (out: String)
    ensures
        is_status_cell(out@, *session, width as nat),
{
    let label = status_text(session);
    let cell = text::pad_right(label.as_str(), width);
    proof {
        lemma_status_label_is_plain(*session);
        lemma_padded_contains(label@, width as nat, '\x1b');
    }
    tinted(cell, status_tint(session))
}

/// `out` is the attachment cell of a session.
pub open spec fn is_attach_cell(out: Seq<char>, s: SessionRecord, width: nat) -> bool {
    is_tinted(out, text::padded(attach_label(s), width), attach_color(s))
}

/// Writes the attachment cell.
pub fn render_attach_cell(session: &SessionRecord, width: usize) -> (out: String)
    ensures
        is_attach_cell(out@, *session, width as nat),
{
    let label = attach_text(session);
    let cell = text::pad_right(label, width);
    proof {
        reveal_strlit("-");
        reveal_strlit("attached");
        reveal_strlit("detached");
        assert(!label@.contains('\x1b'));
        lemma_padded_contains(label@, width as nat, '\x1b');
    }
    tinted(cell, attach_tint(session))
}

/// The text, or a dash where there is none.
pub open spec fn or_dash(o: Option<String>) -> Seq<char> {
    match o {
        Some(s) => s@,
        None => "-"@,
    }
}

fn text_or_dash(o: &Option<String>) -> (out: String)
    ensures
        out@ == or_dash(*o),
{
    match o {
        Some(s) => s.clone(),
        None => "-".to_owned(),
    }
}

/// `out` is the cell of a session in a column.
pub open spec fn is_cell(
    out: Seq<char>,
    col: PsColumn,
    s: SessionRecord,
    no_truncate: bool,
) -> bool {
    match col {
        PsColumn::Session => out == text::padded(s.session_id@, 16),
        PsColumn::Name => out == text::padded(or_dash(s.name), 12),
        PsColumn::Status => is_status_cell(out, s, 12),
        PsColumn::Attach => is_attach_cell(out, s, 12),
        PsColumn::Pid => out == text::padded(numbers::decimal(s.child_pid as nat), 8),
        PsColumn::Uptime => exists|uptime: Seq<char>| #[trigger]
            clock::is_uptime(uptime, s.started@) && out == text::padded(uptime, 10),
        PsColumn::Profile => out == text::padded(or_dash(s.profile), 14),
        PsColumn::Command => out == command_cell(text::texts(s.command@), no_truncate, 40),
    }
}

/// Writes one cell of the table.
pub fn render_default_cell(col: PsColumn, session: &SessionRecord, no_truncate: bool) -> (out:
    String)
    ensures
        is_cell(out@, col, *session, no_truncate),
{
    match col {
        PsColumn::Session => text::pad_right(session.session_id.as_str(), 16),
        PsColumn::Name => text::pad_right(text_or_dash(&session.name).as_str(), 12),
        PsColumn::Status => render_status_cell(session, 12),
        PsColumn::Attach => render_attach_cell(session, 12),
        PsColumn::Pid => text::pad_right(
            numbers::decimal_text(session.child_pid as u64).as_str(),
            8,
        ),
        PsColumn::Uptime => {
            let uptime = clock::format_uptime(session.started.as_str());
            text::pad_right(uptime.as_str(), 10)
        },
        PsColumn::Profile => text::pad_right(text_or_dash(&session.profile).as_str(), 14),
        PsColumn::Command => render_ps_command(&session.command, no_truncate, 40),
    }
}

/// The cells are those of a session, column by column.
pub open spec fn are_cells(
    cells: Seq<Seq<char>>,
    columns: Seq<PsColumn>,
    s: SessionRecord,
    no_truncate: bool,
) -> bool {
    &&& cells.len() == columns.len()
    &&& forall|i: int|
        0 <= i < columns.len() ==> is_cell(#[trigger] cells[i], columns[i], s, no_truncate)
}

/// `out` is the row of a session: its cells, with a blank between neighbours.
pub open spec fn is_row(
    out: Seq<char>,
    columns: Seq<PsColumn>,
    s: SessionRecord,
    no_truncate: bool,
) -> bool {
    exists|cells: Seq<Seq<char>>| #[trigger]
        are_cells(cells, columns, s, no_truncate) && out == text::joined(cells, " "@)
}

/// Writes one row of the table.
pub fn render_default_data_row(
    session: &SessionRecord,
    columns: &[PsColumn],
    no_truncate: bool,
) -> (out: String)
    ensures
        is_row(out@, columns@, *session, no_truncate),
{
    let mut cells: Vec<String> = Vec::new();
    let mut i: usize = 0;
    while i < columns.len()
        invariant
            i <= columns.len(),
            cells.len() == i,
            forall|j: int|
                0 <= j < i ==> is_cell(
                    (#[trigger] cells@[j])@,
                    columns@[j],
                    *session,
                    no_truncate,
                ),
        decreases columns.len() - i,
    {
        cells.push(render_default_cell(columns[i], session, no_truncate));
        i += 1;
    }
    proof {
        let all = text::texts(cells@);
        assert forall|j: int| 0 <= j < columns@.len() implies is_cell(
            #[trigger] all[j],
            columns@[j],
            *session,
            no_truncate,
        ) by {
            assert(all[j] == cells@[j]@);
        }
        assert(are_cells(all, columns@, *session, no_truncate));
    }
    text::join(&cells, " ")
}

/// The row of a session in the short table, without colors.
pub open spec fn short_row(s: SessionRecord, max_command_len: nat, no_truncate: bool) -> Seq<char> {
    text::padded(s.session_id@, 16) + " "@ + text::padded(or_dash(s.name), 12) + " "@
        + text::padded(status_label(s), 12) + " "@ + command_cell(
        text::texts(s.command@),
        no_truncate,
        max_command_len,
    )
}

/// Writes one row of the short table.
pub fn format_ps_short_row(record: &SessionRecord, max_command_len: usize, no_truncate: bool) -> (
    out: String)
    ensures
        out@ == short_row(*record, max_command_len as nat, no_truncate),
{
    let mut out = text::pad_right(record.session_id.as_str(), 16);
    out.append(" ");
    out.append(text::pad_right(text_or_dash(&record.name).as_str(), 12).as_str());
    out.append(" ");
    out.append(text::pad_right(status_text(record).as_str(), 12).as_str());
    out.append(" ");
    out.append(render_ps_command(&record.command, no_truncate, max_command_len).as_str());
    out
}

/// What is said in place of an empty table.
pub open spec fn empty_text(args: PsArgs) -> Seq<char> {
    if args.name is Some || args.profile is Some || args.status is Some || args.exit_code is Some
        || args.since is Some {
        "No sessions match the requested filters."@
    } else if args.all {
        "No sessions found."@
    } else {
        "No running or detached sessions. Use --all to include exited sessions."@
    }
}

/// Says why the table is empty.
pub fn empty_filter_message(args: &PsArgs) -> (out: &'static str)
    ensures
        out@ == empty_text(*args),
{
    if args.name.is_some() || args.profile.is_some() || args.status.is_some()
        || args.exit_code.is_some() || args.since.is_some() {
        "No sessions match the requested filters."
    } else if args.all {
        "No sessions found."
    } else {
        "No running or detached sessions. Use --all to include exited sessions."
    }
}

} // verus!
