//! Sessions as CSV, TSV and NDJSON.

use vstd::prelude::*;

use crate::cli::PsOutputFormat;
use crate::clock;
use crate::command_display;
use crate::numbers;
use crate::ps_filter;
use crate::ps_table;
use crate::session::{SessionRecord, SessionStatus};
use crate::text;

verus! {

/// The codes of the characters of `s`, one after the other.
pub open spec fn encoded(s: Seq<char>, code: spec_fn(char) -> Seq<char>) -> Seq<char>
    decreases s.len(),
{
    if s.len() == 0 {
        Seq::empty()
    } else {
        encoded(s.drop_last(), code) + code(s.last())
    }
}

/// A quote is doubled; every other character stands for itself.
pub open spec fn quote_code() -> spec_fn(char) -> Seq<char> {
    |c: char|
        if c == '"' {
            seq!['"', '"']
        } else {
            seq![c]
        }
}

/// Whether a CSV field has to be quoted.
pub open spec fn needs_quotes(s: Seq<char>) -> bool {
    s.contains(',') || s.contains('"') || s.contains('\n') || s.contains('\r')
}

/// A value as a CSV field.
pub open spec fn csv_field(s: Seq<char>) -> Seq<char> {
    if needs_quotes(s) {
        seq!['"'] + encoded(s, quote_code()) + seq!['"']
    } else {
        s
    }
}

/// Escapes a CSV field as RFC 4180 has it: a value with a comma, a quote or a line break is put
/// in quotes, and a quote inside is doubled.
pub fn csv_escape(value: &str) -> (out: String)
    ensures
        out@ == csv_field(value@),
{
    if !(text::contains_char(value, ',') || text::contains_char(value, '"') || text::contains_char(
        value,
        '\n',
    ) || text::contains_char(value, '\r')) {
        return value.to_owned();
    }
    let chars = text::chars_of(value);
    let mut out = String::new();
    out.push('"');
    let mut i: usize = 0;
    assert(out@ =~= seq!['"'] + encoded(value@.take(0), quote_code()));
    while i < chars.len()
        invariant
            chars@ == value@,
            i <= chars.len(),
            out@ == seq!['"'] + encoded(value@.take(i as int), quote_code()),
        decreases chars.len() - i,
    {
        let ghost before = out@;
        assert(value@.take(i + 1).drop_last() =~= value@.take(i as int));
        if chars[i] == '"' {
            out.push('"');
            out.push('"');
        } else {
            out.push(chars[i]);
        }
        assert(out@ =~= before + quote_code()(value@[i as int]));
        assert(out@ =~= seq!['"'] + encoded(value@.take(i + 1), quote_code()));
        i += 1;
    }
    assert(value@.take(value@.len() as int) =~= value@);
    out.push('"');
    assert(out@ =~= csv_field(value@));
    out
}

/// Backslash, tab and line breaks are written with a backslash; every other character stands for
/// itself.
pub open spec fn backslash_code() -> spec_fn(char) -> Seq<char> {
    |c: char|
        if c == '\\' {
            seq!['\\', '\\']
        } else if c == '\t' {
            seq!['\\', 't']
        } else if c == '\n' {
            seq!['\\', 'n']
        } else if c == '\r' {
            seq!['\\', 'r']
        } else {
            seq![c]
        }
}

/// A value as a TSV field.
pub open spec fn tsv_field(s: Seq<char>) -> Seq<char> {
    encoded(s, backslash_code())
}

/// Escapes a TSV field: what would break the shape of the line is written with a backslash.
pub fn tsv_escape(value: &str) -> (out: String)
    ensures
        out@ == tsv_field(value@),
{
    let chars = text::chars_of(value);
    let mut out = String::new();
    let mut i: usize = 0;
    while i < chars.len()
        invariant
            chars@ == value@,
            i <= chars.len(),
            out@ == encoded(value@.take(i as int), backslash_code()),
        decreases chars.len() - i,
    {
        let ghost before = out@;
        assert(value@.take(i + 1).drop_last() =~= value@.take(i as int));
        match chars[i] {
            '\\' => {
                out.push('\\');
                out.push('\\');
            },
            '\t' => {
                out.push('\\');
                out.push('t');
            },
            '\n' => {
                out.push('\\');
                out.push('n');
            },
            '\r' => {
                out.push('\\');
                out.push('r');
            },
            other => {
                out.push(other);
            },
        }
        assert(out@ =~= before + backslash_code()(value@[i as int]));
        i += 1;
    }
    assert(value@.take(value@.len() as int) =~= value@);
    out
}

/// The names of the columns.
pub open spec fn column_names() -> Seq<Seq<char>> {
    seq![
        "session_id"@,
        "name"@,
        "status"@,
        "exit_code"@,
        "attach"@,
        "pid"@,
        "uptime"@,
        "started"@,
        "profile"@,
        "network"@,
        "command"@,
    ]
}

/// The status in one word.
pub open spec fn status_word(status: SessionStatus) -> Seq<char> {
    match status {
        SessionStatus::Running => "running"@,
        SessionStatus::Paused => "paused"@,
        SessionStatus::Exited => "exited"@,
    }
}

/// The text, or nothing.
pub open spec fn or_empty(o: Option<String>) -> Seq<char> {
    match o {
        Some(s) => s@,
        None => Seq::empty(),
    }
}

/// The values of a session, column by column.
pub open spec fn column_values(s: SessionRecord, uptime: Seq<char>) -> Seq<Seq<char>> {
    seq![
        s.session_id@,
        or_empty(s.name),
        status_word(s.status),
        match s.exit_code {
            Some(code) => numbers::signed_decimal(code as int),
            None => Seq::empty(),
        },
        ps_table::attach_label(s),
        numbers::decimal(s.child_pid as nat),
        uptime,
        s.started@,
        or_empty(s.profile),
        s.network@,
        command_display::command_line(text::texts(s.command@)),
    ]
}

/// A value as a field of the format.
pub open spec fn field_in(fmt: PsOutputFormat, value: Seq<char>) -> Seq<char> {
    match fmt {
        PsOutputFormat::Csv => csv_field(value),
        _ => tsv_field(value),
    }
}

/// The separator of the format.
pub open spec fn separator(fmt: PsOutputFormat) -> Seq<char> {
    match fmt {
        PsOutputFormat::Csv => ","@,
        _ => "\t"@,
    }
}

/// A line of fields.
pub open spec fn line_of(values: Seq<Seq<char>>, fmt: PsOutputFormat) -> Seq<char> {
    text::joined(values.map_values(|v: Seq<char>| field_in(fmt, v)), separator(fmt)) + "\n"@
}

/// One line for each session.
pub open spec fn lines_of(
    records: Seq<SessionRecord>,
    uptimes: Seq<Seq<char>>,
    fmt: PsOutputFormat,
) -> Seq<char>
    decreases records.len(),
{
    if records.len() == 0 {
        Seq::empty()
    } else {
        lines_of(records.drop_last(), uptimes.drop_last(), fmt) + line_of(
            column_values(records.last(), uptimes.last()),
            fmt,
        )
    }
}

/// One line for each document there is.
pub open spec fn ndjson_text(documents: Seq<Option<Seq<char>>>) -> Seq<char>
    decreases documents.len(),
{
    if documents.len() == 0 {
        Seq::empty()
    } else {
        match documents.last() {
            Some(line) => ndjson_text(documents.drop_last()) + line + "\n"@,
            None => ndjson_text(documents.drop_last()),
        }
    }
}

/// The views of a list of optional strings.
pub open spec fn opt_texts(list: Seq<Option<String>>) -> Seq<Option<Seq<char>>> {
    Seq::new(list.len(), |i: int| text::opt_text(list[i]))
}

/// The whole output. CSV and TSV have a line of column names first; NDJSON has a line for each
/// session that could be serialized.
pub open spec fn tabular_text(
    records: Seq<SessionRecord>,
    uptimes: Seq<Seq<char>>,
    fmt: PsOutputFormat,
    documents: Seq<Option<Seq<char>>>,
) -> Seq<char> {
    match fmt {
        PsOutputFormat::Ndjson => ndjson_text(documents),
        _ => line_of(column_names(), fmt) + lines_of(records, uptimes, fmt),
    }
}

/// Writes a line of fields.
fn format_line(values: &Vec<String>, fmt: PsOutputFormat) -> (out: String)
    ensures
        out@ == line_of(text::texts(values@), fmt),
{
    let mut fields: Vec<String> = Vec::new();
    let mut i: usize = 0;
    while i < values.len()
        invariant
            i <= values.len(),
            fields.len() == i,
            forall|j: int| 0 <= j < i ==> #[trigger] fields@[j]@ == field_in(fmt, values@[j]@),
        decreases values.len() - i,
    {
        let field = match fmt {
            PsOutputFormat::Csv => csv_escape(values[i].as_str()),
            _ => tsv_escape(values[i].as_str()),
        };
        fields.push(field);
        i += 1;
    }
    assert(text::texts(fields@) =~= text::texts(values@).map_values(
        |v: Seq<char>| field_in(fmt, v),
    ));
    let sep = match fmt {
        PsOutputFormat::Csv => ",",
        _ => "\t",
    };
    let mut out = text::join(&fields, sep);
    out.append("\n");
    out
}

/// The line of column names.
fn format_column_names(fmt: PsOutputFormat) -> (out: String)
    ensures
        out@ == line_of(column_names(), fmt),
{
    let mut names: Vec<String> = Vec::new();
    names.push("session_id".to_owned());
    names.push("name".to_owned());
    names.push("status".to_owned());
    names.push("exit_code".to_owned());
    names.push("attach".to_owned());
    names.push("pid".to_owned());
    names.push("uptime".to_owned());
    names.push("started".to_owned());
    names.push("profile".to_owned());
    names.push("network".to_owned());
    names.push("command".to_owned());
    assert(text::texts(names@) =~= column_names());
    format_line(&names, fmt)
}

fn text_or_empty(o: &Option<String>) -> (out: String)
    ensures
        out@ == or_empty(*o),
{
    match o {
        Some(s) => s.clone(),
        None => String::new(),
    }
}

/// Writes the line of one session.
pub fn format_ps_record(record: &SessionRecord, uptime: &str, fmt: PsOutputFormat) -> (out: String)
    ensures
        out@ == line_of(column_values(*record, uptime@), fmt),
{
    let status = match record.status {
        SessionStatus::Running => "running",
        SessionStatus::Paused => "paused",
        SessionStatus::Exited => "exited",
    };
    let exit_code = match record.exit_code {
        Some(code) => numbers::signed_text(code as i64),
        None => String::new(),
    };
    let mut values: Vec<String> = Vec::new();
    values.push(record.session_id.clone());
    values.push(text_or_empty(&record.name));
    values.push(status.to_owned());
    values.push(exit_code);
    values.push(ps_table::attach_text(record).to_owned());
    values.push(numbers::decimal_text(record.child_pid as u64));
    values.push(uptime.to_owned());
    values.push(record.started.clone());
    values.push(text_or_empty(&record.profile));
    values.push(record.network.clone());
    values.push(command_display::format_command_line(&record.command));
    assert(text::texts(values@) =~= column_values(*record, uptime@));
    format_line(&values, fmt)
}

/// Writes one line for each document there is.
fn format_ndjson(documents: &Vec<Option<String>>) -> (out: String)
    ensures
        out@ == ndjson_text(opt_texts(documents@)),
{
    let ghost all = opt_texts(documents@);
    let mut out = String::new();
    let mut i: usize = 0;
    while i < documents.len()
        invariant
            i <= documents.len(),
            all == opt_texts(documents@),
            out@ == ndjson_text(all.take(i as int)),
        decreases documents.len() - i,
    {
        proof {
            assert(all.take(i + 1).drop_last() =~= all.take(i as int));
            assert(all.take(i + 1).last() == text::opt_text(documents@[i as int]));
        }
        if let Some(line) = &documents[i] {
            out.append(line.as_str());
            out.append("\n");
        }
        i += 1;
    }
    assert(all.take(all.len() as int) =~= all);
    out
}

/// The number of lines of a text, each with a line break behind it.
pub open spec fn line_count(s: Seq<char>) -> nat {
    s.filter(|c: char| c == '\n').len()
}

/// Whether there is a document of one line for each session.
pub open spec fn are_lines(documents: Seq<Option<Seq<char>>>, sessions: nat) -> bool {
    &&& documents.len() == sessions
    &&& forall|i: int|
        0 <= i < documents.len() ==> (#[trigger] documents[i]) is Some && !documents[i]->0.contains(
            '\n',
        )
}

proof fn lemma_no_line_break(s: Seq<char>)
    requires
        !s.contains('\n'),
    ensures
        line_count(s) == 0,
    decreases s.len(),
{
    reveal(Seq::filter);
    if s.len() > 0 {
        assert(s.contains(s.last()));
        assert(!s.drop_last().contains('\n')) by {
            if s.drop_last().contains('\n') {
                assert(s[s.drop_last().index_of('\n')] == '\n');
            }
        }
        lemma_no_line_break(s.drop_last());
    }
}

/// NDJSON has as many lines as there are documents.
pub proof fn lemma_ndjson_lines(documents: Seq<Option<Seq<char>>>)
    requires
        are_lines(documents, documents.len()),
    ensures
        line_count(ndjson_text(documents)) == documents.len(),
    decreases documents.len(),
{
    reveal(Seq::filter);
    reveal_strlit("\n");
    if documents.len() > 0 {
        let init = documents.drop_last();
        let p = |c: char| c == '\n';
        assert forall|i: int| 0 <= i < init.len() implies (#[trigger] init[i]) is Some
            && !init[i]->0.contains('\n') by {
            assert(init[i] == documents[i]);
        }
        lemma_ndjson_lines(init);
        let line = documents[documents.len() - 1]->0;
        lemma_no_line_break(line);
        Seq::filter_distributes_over_add(ndjson_text(init), line, p);
        let whole = (ndjson_text(init) + line).push('\n');
        assert(whole.drop_last() =~= ndjson_text(init) + line);
        assert(ndjson_text(documents) =~= whole);
    }
}

/// Writes the sessions in a text format, given the uptime of each.
///
/// `documents` are the sessions serialized, one for each; they are used for NDJSON only, which has
/// a line for each session where all could be serialized.
pub fn format_ps_tabular_at(
    records: &[&SessionRecord],
    uptimes: &Vec<String>,
    fmt: PsOutputFormat,
    documents: &Vec<Option<String>>,
) -> (out: String)
    requires
        uptimes.len() == records.len(),
        fmt == PsOutputFormat::Ndjson ==> documents.len() == records.len(),
    ensures
        out@ == tabular_text(
            ps_filter::records_of(records@),
            text::texts(uptimes@),
            fmt,
            opt_texts(documents@),
        ),
        fmt == PsOutputFormat::Ndjson && are_lines(opt_texts(documents@), records@.len())
            ==> line_count(out@) == records@.len(),
{
    match fmt {
        PsOutputFormat::Ndjson => {
            proof {
                if are_lines(opt_texts(documents@), records@.len()) {
                    lemma_ndjson_lines(opt_texts(documents@));
                }
            }
            return format_ndjson(documents);
        },
        _ => {},
    }
    let ghost all = ps_filter::records_of(records@);
    let ghost ups = text::texts(uptimes@);
    let mut body = String::new();
    let mut i: usize = 0;
    while i < records.len()
        invariant
            i <= records.len() == uptimes.len(),
            all == ps_filter::records_of(records@),
            ups == text::texts(uptimes@),
            body@ == lines_of(all.take(i as int), ups.take(i as int), fmt),
        decreases records.len() - i,
    {
        proof {
            assert(all.take(i + 1).drop_last() =~= all.take(i as int));
            assert(ups.take(i + 1).drop_last() =~= ups.take(i as int));
            assert(all.take(i + 1).last() == *records@[i as int]);
            assert(ups.take(i + 1).last() == uptimes@[i as int]@);
        }
        body.append(format_ps_record(records[i], uptimes[i].as_str(), fmt).as_str());
        i += 1;
    }
    proof {
        assert(all.take(all.len() as int) =~= all);
        assert(ups.take(ups.len() as int) =~= ups);
    }
    let mut out = format_column_names(fmt);
    out.append(body.as_str());
    out
}

/// The uptimes are those of the sessions, one for each.
pub open spec fn are_uptimes(uptimes: Seq<Seq<char>>, records: Seq<SessionRecord>) -> bool {
    &&& uptimes.len() == records.len()
    &&& forall|i: int|
        0 <= i < records.len() ==> clock::is_uptime(#[trigger] uptimes[i], records[i].started@)
}

/// Writes the sessions in a text format.
///
/// CSV and TSV have a line of column names even where there are no sessions, so that the shape
/// can be detected. NDJSON has no such line; it has one for each session, and skips those that
/// could not be serialized.
pub fn format_ps_tabular(
    records: &[&SessionRecord],
    fmt: PsOutputFormat,
    documents: &Vec<Option<String>>,
) -> (out: String)
    requires
        fmt == PsOutputFormat::Ndjson ==> documents.len() == records.len(),
    ensures
        fmt == PsOutputFormat::Ndjson && are_lines(opt_texts(documents@), records@.len())
            ==> line_count(out@) == records@.len(),
        exists|uptimes: Seq<Seq<char>>| #[trigger]
            are_uptimes(uptimes, ps_filter::records_of(records@)) && out@ == tabular_text(
                ps_filter::records_of(records@),
                uptimes,
                fmt,
                opt_texts(documents@),
            ),
{
    let mut uptimes: Vec<String> = Vec::new();
    let mut i: usize = 0;
    while i < records.len()
        invariant
            i <= records.len(),
            uptimes.len() == i,
            forall|j: int|
                0 <= j < i ==> clock::is_uptime(
                    (#[trigger] uptimes@[j])@,
                    (*records@[j]).started@,
                ),
        decreases records.len() - i,
    {
        uptimes.push(clock::format_uptime(records[i].started.as_str()));
        i += 1;
    }
    proof {
        let ups = text::texts(uptimes@);
        let all = ps_filter::records_of(records@);
        assert forall|j: int| 0 <= j < all.len() implies clock::is_uptime(
            #[trigger] ups[j],
            all[j].started@,
        ) by {
            assert(ups[j] == uptimes@[j]@);
        }
        assert(are_uptimes(ups, all));
    }
    format_ps_tabular_at(records, &uptimes, fmt, documents)
}

/// There is an uptime for each session, counted from the start of that session.
pub proof fn law_uptimes_belong_to_sessions(
    uptimes: Seq<Seq<char>>,
    records: Seq<SessionRecord>,
    i: int,
)
    requires
        are_uptimes(uptimes, records),
        0 <= i < records.len(),
    ensures
        uptimes.len() == records.len(),
        clock::is_uptime(uptimes[i], records[i].started@),
{
}

} // verus!
