//! What holds of the session tables as a whole.

use vstd::prelude::*;

use crate::cli::{PsArgs, PsColumn, PsHeaderFormat};
use crate::clock;
use crate::command_display;
use crate::numbers;
use crate::paint::Tint;
use crate::ps_report;
use crate::ps_table;
use crate::session::{SessionAttachment, SessionRecord, SessionStatus};
use crate::tabular_laws;
use crate::text;

verus! {

/// Quoting brings in quotes and backslashes only.
proof fn lemma_quote_escaped_contains(arg: Seq<char>, c: char)
    requires
        !arg.contains(c),
        c != '\'',
        c != '\\',
    ensures
        !command_display::quote_escaped(arg).contains(c),
    decreases arg.len(),
{
    reveal_strlit("'\\''");
    if arg.len() > 0 {
        let init = arg.drop_last();
        assert(!init.contains(c)) by {
            if init.contains(c) {
                assert(arg[init.index_of(c)] == c);
            }
        }
        lemma_quote_escaped_contains(init, c);
        let before = command_display::quote_escaped(init);
        let after = command_display::quote_escaped(arg);
        if after.contains(c) {
            let i = after.index_of(c);
            if i < before.len() {
                assert(before[i] == c);
            } else if arg.last() != '\'' {
                assert(arg[arg.len() - 1] == c);
            }
        }
    }
}

proof fn lemma_shell_word_contains(arg: Seq<char>, c: char)
    requires
        !arg.contains(c),
        c != '\'',
        c != '\\',
    ensures
        !command_display::shell_word(arg).contains(c),
{
    reveal_strlit("'");
    lemma_quote_escaped_contains(arg, c);
    let inner = command_display::quote_escaped(arg);
    let word = command_display::shell_word(arg);
    if word.contains(c) && !command_display::is_bare(arg) {
        let i = word.index_of(c);
        if 0 < i <= inner.len() {
            assert(inner[i - 1] == c);
        }
    }
}

proof fn lemma_command_line_contains(command: Seq<Seq<char>>, c: char)
    requires
        forall|i: int| 0 <= i < command.len() ==> !(#[trigger] command[i]).contains(c),
        c != '\'',
        c != '\\',
        c != ' ',
    ensures
        !command_display::command_line(command).contains(c),
{
    reveal_strlit(" ");
    let words = command.map_values(|arg: Seq<char>| command_display::shell_word(arg));
    assert forall|i: int| 0 <= i < words.len() implies !(#[trigger] words[i]).contains(c) by {
        lemma_shell_word_contains(command[i], c);
    }
    tabular_laws::lemma_joined_contains(words, " "@, c);
}

/// The short table is plain text: a row holds no escape character, unless the session id, the
/// name or the command does.
pub proof fn law_short_row_is_plain(s: SessionRecord, max_command_len: nat, no_truncate: bool)
    requires
        !s.session_id@.contains('\x1b'),
        s.name is Some ==> !s.name->0@.contains('\x1b'),
        forall|i: int| 0 <= i < s.command@.len() ==> !(#[trigger] s.command@[i])@.contains('\x1b'),
    ensures
        !ps_table::short_row(s, max_command_len, no_truncate).contains('\x1b'),
{
    let esc = '\x1b';
    reveal_strlit("-");
    reveal_strlit(" ");
    reveal_strlit("...");
    let command = text::texts(s.command@);
    assert forall|i: int| 0 <= i < command.len() implies !(#[trigger] command[i]).contains(esc) by {
        assert(!s.command@[i]@.contains(esc));
    }
    lemma_command_line_contains(command, esc);
    ps_table::lemma_status_label_is_plain(s);
    let a = text::padded(s.session_id@, 16);
    let b = text::padded(ps_table::or_dash(s.name), 12);
    let c = text::padded(ps_table::status_label(s), 12);
    let d = ps_table::command_cell(command, no_truncate, max_command_len);
    ps_table::lemma_padded_contains(s.session_id@, 16, esc);
    ps_table::lemma_padded_contains(ps_table::or_dash(s.name), 12, esc);
    ps_table::lemma_padded_contains(ps_table::status_label(s), 12, esc);
    assert(!d.contains(esc)) by {
        let line = command_display::command_line(command);
        if d.contains(esc) {
            let i = d.index_of(esc);
            if i < line.len() && d[i] == line[i] {
                assert(line.contains(line[i]));
            }
        }
    }
    let row = ps_table::short_row(s, max_command_len, no_truncate);
    if row.contains(esc) {
        let i = row.index_of(esc);
        let (p, q, r) = (a.len() + 1, a.len() + b.len() + 2, a.len() + b.len() + c.len() + 3);
        if i < a.len() {
            assert(a[i] == esc);
        } else if p <= i < p + b.len() {
            assert(b[i - p] == esc);
        } else if q <= i < q + c.len() {
            assert(c[i - q] == esc);
        } else if i >= r {
            assert(d[i - r] == esc);
        }
    }
}

/// Every part is found in the joined text.
proof fn lemma_joined_has_part(parts: Seq<Seq<char>>, sep: Seq<char>, i: int)
    requires
        0 <= i < parts.len(),
    ensures
        text::has_substring(text::joined(parts, sep), parts[i]),
    decreases parts.len(),
{
    let s = text::joined(parts, sep);
    if parts.len() == 1 {
        assert(s.subrange(0, 0 + parts[0].len() as int) =~= parts[0]);
    } else {
        let init = parts.drop_last();
        let a = text::joined(init, sep);
        if i == parts.len() - 1 {
            let at: int = a.len() + sep.len() as int;
            assert(s.subrange(at, at + parts[i].len()) =~= parts[i]);
        } else {
            lemma_joined_has_part(init, sep, i);
            let at = choose|at: int|
                0 <= at <= a.len() - parts[i].len() && #[trigger] a.subrange(
                    at,
                    at + parts[i].len(),
                ) == parts[i];
            assert(s.subrange(at, at + parts[i].len()) =~= a.subrange(at, at + parts[i].len()));
        }
    }
}

/// Without truncation every argument of the command is shown whole, as it is typed in a shell.
pub proof fn law_untruncated_command_shows_every_argument(
    command: Seq<Seq<char>>,
    max_len: nat,
    i: int,
)
    requires
        0 <= i < command.len(),
    ensures
        text::has_substring(
            ps_table::command_cell(command, true, max_len),
            command_display::shell_word(command[i]),
        ),
{
    let words = command.map_values(|arg: Seq<char>| command_display::shell_word(arg));
    lemma_joined_has_part(words, " "@, i);
}

/// Cells line up with their titles: what fits into a padded column is as wide as its title cell.
pub proof fn law_cells_line_up_with_titles(value: Seq<char>, col: PsColumn)
    requires
        col != PsColumn::Command,
        value.len() <= ps_table::column_width(col),
    ensures
        text::padded(value, ps_table::column_width(col)).len() == ps_table::title_cell(col).len(),
{
    reveal_strlit("SESSION");
    reveal_strlit("NAME");
    reveal_strlit("STATUS");
    reveal_strlit("ATTACH");
    reveal_strlit("PID");
    reveal_strlit("UPTIME");
    reveal_strlit("PROFILE");
}

/// A cell as a terminal shows it: in the colored columns without the escape sequences around it.
pub open spec fn shown_cell(cell: Seq<char>, col: PsColumn) -> Seq<char> {
    if (col == PsColumn::Status || col == PsColumn::Attach) && cell.len() > 0 && cell[0]
        == '\x1b' {
        cell.subrange(5, cell.len() - 4)
    } else {
        cell
    }
}

/// The cells of a row as a terminal shows them.
pub open spec fn shown_cells(cells: Seq<Seq<char>>, columns: Seq<PsColumn>) -> Seq<Seq<char>> {
    Seq::new(cells.len(), |i: int| shown_cell(cells[i], columns[i]))
}

/// Where a cell starts in its row.
pub open spec fn cell_start(cells: Seq<Seq<char>>, i: int) -> int {
    text::joined(cells.take(i), " "@).len() + if i > 0 {
        1int
    } else {
        0
    }
}

/// A painted cell is shown as its text.
proof fn lemma_shown_cell(
    cell: Seq<char>,
    value: Seq<char>,
    tint: Option<Tint>,
    col: PsColumn,
)
    requires
        col == PsColumn::Status || col == PsColumn::Attach,
        ps_table::is_tinted(cell, value, tint),
        !value.contains('\x1b'),
    ensures
        shown_cell(cell, col) == value,
{
    reveal_strlit("\x1b[");
    reveal_strlit("31");
    reveal_strlit("32");
    reveal_strlit("33");
    reveal_strlit("m");
    reveal_strlit("\x1b[0m");
    if cell == value {
        assert(cell.len() > 0 ==> value.contains(cell[0]));
    } else {
        assert(cell[0] == '\x1b');
        assert(cell.subrange(5, cell.len() - 4) =~= value);
    }
}

/// A cell that fits into its column is shown as wide as its title.
proof fn lemma_cell_lines_up(
    cell: Seq<char>,
    col: PsColumn,
    s: SessionRecord,
    no_truncate: bool,
)
    requires
        ps_table::is_cell(cell, col, s, no_truncate),
        col != PsColumn::Command,
        shown_cell(cell, col).len() <= ps_table::column_width(col),
    ensures
        shown_cell(cell, col).len() == ps_table::title_cell(col).len(),
{
    law_cells_line_up_with_titles(Seq::empty(), col);
    if col == PsColumn::Status {
        let label = ps_table::status_label(s);
        ps_table::lemma_status_label_is_plain(s);
        ps_table::lemma_padded_contains(label, 12, '\x1b');
        lemma_shown_cell(cell, text::padded(label, 12), ps_table::status_color(s), col);
    } else if col == PsColumn::Attach {
        let label = ps_table::attach_label(s);
        reveal_strlit("-");
        reveal_strlit("attached");
        reveal_strlit("detached");
        ps_table::lemma_padded_contains(label, 12, '\x1b');
        lemma_shown_cell(cell, text::padded(label, 12), ps_table::attach_color(s), col);
    }
}

/// Rows whose cells are as wide as each other's are as long as each other.
proof fn lemma_joined_len(a: Seq<Seq<char>>, b: Seq<Seq<char>>, sep: Seq<char>)
    requires
        a.len() == b.len(),
        forall|i: int| 0 <= i < a.len() ==> (#[trigger] a[i]).len() == b[i].len(),
    ensures
        text::joined(a, sep).len() == text::joined(b, sep).len(),
    decreases a.len(),
{
    if a.len() > 1 {
        assert forall|i: int| 0 <= i < a.len() - 1 implies (#[trigger] a.drop_last()[i]).len()
            == b.drop_last()[i].len() by {
            assert(a[i].len() == b[i].len());
        }
        lemma_joined_len(a.drop_last(), b.drop_last(), sep);
        assert(a[a.len() - 1].len() == b[b.len() - 1].len());
    } else if a.len() == 1 {
        assert(a[0].len() == b[0].len());
    }
}

/// Rows line up with the header: on the screen a cell starts right below its title, where all that
/// comes before it fits into its columns. The last column, that of the command, is not padded.
pub proof fn law_rows_line_up_with_header(
    cells: Seq<Seq<char>>,
    columns: Seq<PsColumn>,
    s: SessionRecord,
    no_truncate: bool,
    i: int,
)
    requires
        ps_table::are_cells(cells, columns, s, no_truncate),
        0 <= i < columns.len(),
        forall|j: int|
            0 <= j < i ==> columns[j] != PsColumn::Command && shown_cell(
                #[trigger] cells[j],
                columns[j],
            ).len() <= ps_table::column_width(columns[j]),
    ensures
        cell_start(shown_cells(cells, columns), i) == cell_start(
            columns.map_values(|col: PsColumn| ps_table::title_cell(col)),
            i,
        ),
{
    let a = shown_cells(cells, columns).take(i);
    let b = columns.map_values(|col: PsColumn| ps_table::title_cell(col)).take(i);
    assert forall|j: int| 0 <= j < a.len() implies (#[trigger] a[j]).len() == b[j].len() by {
        assert(a[j] == shown_cell(cells[j], columns[j]));
        lemma_cell_lines_up(cells[j], columns[j], s, no_truncate);
    }
    lemma_joined_len(a, b, " "@);
}

/// The rows of the short table line up with its header, where the cells fit into their columns.
pub proof fn law_short_rows_line_up_with_header(
    s: SessionRecord,
    max_command_len: nat,
    no_truncate: bool,
)
    requires
        s.session_id@.len() <= 16,
        ps_table::or_dash(s.name).len() <= 12,
        ps_table::status_label(s).len() <= 12,
    ensures
        ({
            let row = ps_table::short_row(s, max_command_len, no_truncate);
            let titles = ps_report::short_titles();
            let command = ps_table::command_cell(
                text::texts(s.command@),
                no_truncate,
                max_command_len,
            );
            &&& titles.take(16) == text::padded("SESSION"@, 16)
            &&& row.take(16) == text::padded(s.session_id@, 16)
            &&& titles.subrange(17, 29) == text::padded("NAME"@, 12)
            &&& row.subrange(17, 29) == text::padded(ps_table::or_dash(s.name), 12)
            &&& titles.subrange(30, 42) == text::padded("STATUS"@, 12)
            &&& row.subrange(30, 42) == text::padded(ps_table::status_label(s), 12)
            &&& titles.skip(43) == "COMMAND"@
            &&& row.skip(43) == command
        }),
{
    reveal_strlit("SESSION");
    reveal_strlit("NAME");
    reveal_strlit("STATUS");
    reveal_strlit("COMMAND");
    reveal_strlit(" COMMAND");
    reveal_strlit(" ");
    let row = ps_table::short_row(s, max_command_len, no_truncate);
    let titles = ps_report::short_titles();
    assert(titles.take(16) =~= text::padded("SESSION"@, 16));
    assert(row.take(16) =~= text::padded(s.session_id@, 16));
    assert(titles.subrange(17, 29) =~= text::padded("NAME"@, 12));
    assert(row.subrange(17, 29) =~= text::padded(ps_table::or_dash(s.name), 12));
    assert(titles.subrange(30, 42) =~= text::padded("STATUS"@, 12));
    assert(row.subrange(30, 42) =~= text::padded(ps_table::status_label(s), 12));
    assert(titles.skip(43) =~= "COMMAND"@);
    assert(row.skip(43) =~= ps_table::command_cell(
        text::texts(s.command@),
        no_truncate,
        max_command_len,
    ));
}

/// A header is two lines, the titles and the divider, or nothing at all.
pub proof fn law_header_is_two_lines_or_nothing(
    fmt: PsHeaderFormat,
    titles: Seq<char>,
    divider_width: nat,
)
    requires
        !titles.contains('\n'),
    ensures
        match (fmt, ps_table::header_text(fmt, titles, divider_width)) {
            (PsHeaderFormat::Fancy, Some(h)) => tabular_laws::split(h, '\n') == seq![
                titles,
                text::repeated('─', divider_width),
            ],
            (PsHeaderFormat::Ascii, Some(h)) => tabular_laws::split(h, '\n') == seq![
                titles,
                text::repeated('-', divider_width),
            ],
            (PsHeaderFormat::NoHeader, None) => true,
            _ => false,
        },
{
    reveal_strlit("\n");
    let c = if fmt == PsHeaderFormat::Fancy {
        '─'
    } else {
        '-'
    };
    let divider = text::repeated(c, divider_width);
    let parts = seq![titles, divider];
    assert(!divider.contains('\n'));
    assert(parts.drop_last() =~= seq![titles]);
    assert(text::joined(seq![titles], seq!['\n']) == titles);
    assert(text::joined(parts, seq!['\n']) =~= titles + "\n"@ + divider);
    tabular_laws::law_split_undoes_join(parts, '\n');
}

/// The status of a session is shown in one word, with the exit code of an exited one, or -1 where
/// none is known; running sessions are green, paused ones yellow, and failed ones red.
pub proof fn law_status_is_shown(s: SessionRecord)
    ensures
        s.status == SessionStatus::Running ==> ps_table::status_label(s) == "running"@
            && ps_table::status_color(s) == Some(Tint::Green),
        s.status == SessionStatus::Paused ==> ps_table::status_label(s) == "paused"@
            && ps_table::status_color(s) == Some(Tint::Yellow),
        s.status == SessionStatus::Exited && s.exit_code is None ==> ps_table::status_label(s)
            == "exited("@ + numbers::signed_decimal(-1) + ")"@ && ps_table::status_color(s)
            == Some(Tint::Red),
        s.status == SessionStatus::Exited && s.exit_code is Some ==> ps_table::status_label(s)
            == "exited("@ + numbers::signed_decimal(s.exit_code->0 as int) + ")"@,
        s.status == SessionStatus::Exited && s.exit_code == Some(0i32) ==> ps_table::status_color(s)
            is None,
        s.status == SessionStatus::Exited && s.exit_code is Some && s.exit_code != Some(0i32)
            ==> ps_table::status_color(s) == Some(Tint::Red),
{
}

/// The attachment of a session is shown in one word, green for attached ones and yellow for
/// detached ones; for exited sessions there is a dash without a color.
pub proof fn law_attachment_is_shown(s: SessionRecord)
    ensures
        s.status == SessionStatus::Exited ==> ps_table::attach_label(s) == "-"@
            && ps_table::attach_color(s) is None,
        s.status != SessionStatus::Exited && s.attachment == SessionAttachment::Attached
            ==> ps_table::attach_label(s) == "attached"@ && ps_table::attach_color(s) == Some(
            Tint::Green,
        ),
        s.status != SessionStatus::Exited && s.attachment == SessionAttachment::Detached
            ==> ps_table::attach_label(s) == "detached"@ && ps_table::attach_color(s) == Some(
            Tint::Yellow,
        ),
{
}

/// Every column has its title, which fits into it, and the command is the only column without a
/// width.
pub proof fn law_columns_are_titled(col: PsColumn)
    ensures
        col == PsColumn::Session ==> ps_table::column_title(col) == "SESSION"@
            && ps_table::column_width(col) == 16,
        col == PsColumn::Name ==> ps_table::column_title(col) == "NAME"@ && ps_table::column_width(
            col,
        ) == 12,
        col == PsColumn::Status ==> ps_table::column_title(col) == "STATUS"@
            && ps_table::column_width(col) == 12,
        col == PsColumn::Attach ==> ps_table::column_title(col) == "ATTACH"@
            && ps_table::column_width(col) == 12,
        col == PsColumn::Pid ==> ps_table::column_title(col) == "PID"@ && ps_table::column_width(
            col,
        ) == 8,
        col == PsColumn::Uptime ==> ps_table::column_title(col) == "UPTIME"@
            && ps_table::column_width(col) == 10,
        col == PsColumn::Profile ==> ps_table::column_title(col) == "PROFILE"@
            && ps_table::column_width(col) == 14,
        col == PsColumn::Command ==> ps_table::column_title(col) == "COMMAND"@
            && ps_table::column_width(col) == 0,
{
}

/// A cell shows the value of its column: the text in front, and blanks behind it.
pub proof fn law_cells_show_their_values(
    cell: Seq<char>,
    col: PsColumn,
    s: SessionRecord,
    no_truncate: bool,
)
    requires
        ps_table::is_cell(cell, col, s, no_truncate),
    ensures
        ({
            let starts = |value: Seq<char>| value.len() <= shown_cell(cell, col).len()
                && shown_cell(cell, col).take(value.len() as int) == value;
            &&& col == PsColumn::Session ==> starts(s.session_id@)
            &&& col == PsColumn::Name && s.name is Some ==> starts(s.name->0@)
            &&& col == PsColumn::Name && s.name is None ==> starts("-"@)
            &&& col == PsColumn::Status ==> starts(ps_table::status_label(s))
            &&& col == PsColumn::Attach ==> starts(ps_table::attach_label(s))
            &&& col == PsColumn::Pid ==> starts(numbers::decimal(s.child_pid as nat))
            &&& col == PsColumn::Uptime ==> exists|uptime: Seq<char>|
                #[trigger] clock::is_uptime(uptime, s.started@) && starts(uptime)
            &&& col == PsColumn::Profile && s.profile is Some ==> starts(s.profile->0@)
            &&& col == PsColumn::Profile && s.profile is None ==> starts("-"@)
            &&& col == PsColumn::Command && no_truncate ==> cell == command_display::command_line(
                text::texts(s.command@),
            )
            &&& col == PsColumn::Command && !no_truncate ==> cell
                == command_display::truncated_line(text::texts(s.command@), 40)
            &&& col != PsColumn::Command ==> shown_cell(cell, col).len() >= ps_table::column_width(
                col,
            )
        }),
{
    text::law_padding_fills_up_with_blanks(s.session_id@, 16);
    text::law_padding_fills_up_with_blanks(ps_table::or_dash(s.name), 12);
    text::law_padding_fills_up_with_blanks(numbers::decimal(s.child_pid as nat), 8);
    text::law_padding_fills_up_with_blanks(ps_table::or_dash(s.profile), 14);
    text::law_padding_fills_up_with_blanks(ps_table::status_label(s), 12);
    text::law_padding_fills_up_with_blanks(ps_table::attach_label(s), 12);
    if col == PsColumn::Status {
        let label = ps_table::status_label(s);
        ps_table::lemma_status_label_is_plain(s);
        ps_table::lemma_padded_contains(label, 12, '\x1b');
        lemma_shown_cell(cell, text::padded(label, 12), ps_table::status_color(s), col);
    } else if col == PsColumn::Attach {
        let label = ps_table::attach_label(s);
        reveal_strlit("-");
        reveal_strlit("attached");
        reveal_strlit("detached");
        ps_table::lemma_padded_contains(label, 12, '\x1b');
        lemma_shown_cell(cell, text::padded(label, 12), ps_table::attach_color(s), col);
    } else if col == PsColumn::Uptime {
        let uptime = choose|uptime: Seq<char>| #[trigger]
            clock::is_uptime(uptime, s.started@) && cell == text::padded(uptime, 10);
        text::law_padding_fills_up_with_blanks(uptime, 10);
        assert(clock::is_uptime(uptime, s.started@));
    }
}

/// The header is made column by column, with a blank between neighbours.
pub proof fn law_header_is_made_column_by_column(columns: Seq<PsColumn>, col: PsColumn)
    ensures
        ps_table::header_row(seq![col]) == ps_table::title_cell(col),
        columns.len() > 0 ==> ps_table::header_row(columns.push(col)) == ps_table::header_row(
            columns,
        ) + " "@ + ps_table::title_cell(col),
        ps_table::title_cell(col) == text::padded(
            ps_table::column_title(col),
            ps_table::column_width(col),
        ),
{
    let f = |col: PsColumn| ps_table::title_cell(col);
    assert(columns.push(col).map_values(f) =~= columns.map_values(f).push(f(col)));
    assert(seq![col].map_values(f) =~= seq![f(col)]);
    text::law_joining_puts_separators_between(columns.map_values(f), f(col), " "@);
}

/// A row has one cell for each column, in the order of the columns, with a blank between
/// neighbours.
pub proof fn law_rows_have_a_cell_per_column(
    row: Seq<char>,
    columns: Seq<PsColumn>,
    s: SessionRecord,
    no_truncate: bool,
)
    requires
        ps_table::is_row(row, columns, s, no_truncate),
    ensures
        exists|cells: Seq<Seq<char>>|
            {
                &&& cells.len() == columns.len()
                &&& forall|i: int|
                    0 <= i < columns.len() ==> ps_table::is_cell(
                        #[trigger] cells[i],
                        columns[i],
                        s,
                        no_truncate,
                    )
                &&& row == #[trigger] text::joined(cells, " "@)
            },
{
    let cells = choose|cells: Seq<Seq<char>>| #[trigger]
        ps_table::are_cells(cells, columns, s, no_truncate) && row == text::joined(cells, " "@);
    assert(ps_table::are_cells(cells, columns, s, no_truncate));
}

/// The short row is made of the id, the name or a dash, the status and the command.
pub proof fn law_short_rows_have_four_columns(
    s: SessionRecord,
    max_command_len: nat,
    no_truncate: bool,
)
    ensures
        ps_table::short_row(s, max_command_len, no_truncate) == text::joined(
            seq![
                text::padded(s.session_id@, 16),
                text::padded(
                    match s.name {
                        Some(name) => name@,
                        None => "-"@,
                    },
                    12,
                ),
                text::padded(ps_table::status_label(s), 12),
                if no_truncate {
                    command_display::command_line(text::texts(s.command@))
                } else {
                    command_display::truncated_line(text::texts(s.command@), max_command_len)
                },
            ],
            " "@,
        ),
{
    let a = text::padded(s.session_id@, 16);
    let b = text::padded(ps_table::or_dash(s.name), 12);
    let c = text::padded(ps_table::status_label(s), 12);
    let d = ps_table::command_cell(text::texts(s.command@), no_truncate, max_command_len);
    assert(seq![a, b, c, d].drop_last() =~= seq![a, b, c]);
    assert(seq![a, b, c].drop_last() =~= seq![a, b]);
    assert(seq![a, b].drop_last() =~= seq![a]);
    reveal_with_fuel(text::joined, 4);
}

/// The message in place of an empty table says whether filters were in the way, or exited sessions
/// were hidden, or there are none at all.
pub proof fn law_empty_table_says_why(args: PsArgs)
    ensures
        ({
            let filtered = args.name is Some || args.profile is Some || args.status is Some
                || args.exit_code is Some || args.since is Some;
            &&& filtered ==> ps_table::empty_text(args)
                == "No sessions match the requested filters."@
            &&& !filtered && args.all ==> ps_table::empty_text(args) == "No sessions found."@
            &&& !filtered && !args.all ==> ps_table::empty_text(args)
                == "No running or detached sessions. Use --all to include exited sessions."@
        }),
{
}

} // verus!
