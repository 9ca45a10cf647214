//! What a reader gets back from CSV, TSV and NDJSON output.

use vstd::prelude::*;

use crate::cli::PsOutputFormat;
use crate::command_display;
use crate::numbers;
use crate::ps_tabular;
use crate::session::{SessionAttachment, SessionRecord, SessionStatus};
use crate::text;

verus! {

/// Encoding one more character in front puts its code in front.
proof fn lemma_encoded_front(c: char, s: Seq<char>, code: spec_fn(char) -> Seq<char>)
    ensures
        ps_tabular::encoded(seq![c] + s, code) == code(c) + ps_tabular::encoded(s, code),
    decreases s.len(),
{
    let t = seq![c] + s;
    if s.len() == 0 {
        assert(t.drop_last() =~= Seq::empty());
        assert(ps_tabular::encoded(t.drop_last(), code) =~= Seq::empty());
        assert(ps_tabular::encoded(t, code) =~= code(c) + ps_tabular::encoded(s, code));
    } else {
        lemma_encoded_front(c, s.drop_last(), code);
        assert(t.drop_last() =~= seq![c] + s.drop_last());
        assert(ps_tabular::encoded(t, code) =~= code(c) + ps_tabular::encoded(s, code));
    }
}

/// Splits a text at every `sep`.
pub open spec fn split(s: Seq<char>, sep: char) -> Seq<Seq<char>>
    decreases s.len(),
{
    if s.len() == 0 {
        seq![Seq::empty()]
    } else {
        let rest = split(s.skip(1), sep);
        if s[0] == sep {
            seq![Seq::empty()] + rest
        } else {
            rest.update(0, seq![s[0]] + rest[0])
        }
    }
}

/// A part without the separator, the separator, and more text.
proof fn lemma_split_first(part: Seq<char>, rest: Seq<char>, sep: char)
    requires
        !part.contains(sep),
    ensures
        split(part + seq![sep] + rest, sep) == seq![part] + split(rest, sep),
        split(part, sep) == seq![part],
    decreases part.len(),
{
    let s = part + seq![sep] + rest;
    if part.len() == 0 {
        assert(part =~= Seq::empty());
        assert(s.skip(1) =~= rest);
        assert(split(s, sep) =~= seq![part] + split(rest, sep));
        assert(split(part, sep) =~= seq![part]);
    } else {
        let tail = part.skip(1);
        assert(part.contains(part[0]));
        assert(!tail.contains(sep)) by {
            if tail.contains(sep) {
                let i = tail.index_of(sep);
                assert(part[i + 1] == sep);
            }
        }
        lemma_split_first(tail, rest, sep);
        assert(s.skip(1) =~= tail + seq![sep] + rest);
        assert(seq![part[0]] + tail =~= part);
        assert(split(s, sep) =~= seq![part] + split(rest, sep));
        assert(split(part, sep) =~= seq![part]);
    }
}

/// Joined parts, the first one taken off.
proof fn lemma_joined_front(parts: Seq<Seq<char>>, sep: Seq<char>)
    requires
        parts.len() >= 2,
    ensures
        text::joined(parts, sep) == parts[0] + sep + text::joined(parts.skip(1), sep),
    decreases parts.len(),
{
    let rest = parts.skip(1);
    assert(parts.drop_last().skip(1) =~= rest.drop_last());
    assert(rest.last() == parts.last());
    if parts.len() == 2 {
        assert(text::joined(parts.drop_last(), sep) == parts[0]);
        assert(text::joined(rest, sep) == parts[1]);
    } else {
        lemma_joined_front(parts.drop_last(), sep);
        assert(parts.drop_last()[0] == parts[0]);
        assert(text::joined(rest, sep) == text::joined(rest.drop_last(), sep) + sep
            + parts.last());
        assert(text::joined(parts, sep) =~= parts[0] + sep + text::joined(rest, sep));
    }
}

/// Parts that are joined with a separator which none of them holds are split into the same parts.
pub proof fn law_split_undoes_join(parts: Seq<Seq<char>>, sep: char)
    requires
        parts.len() > 0,
        forall|i: int| 0 <= i < parts.len() ==> !(#[trigger] parts[i]).contains(sep),
    ensures
        split(text::joined(parts, seq![sep]), sep) == parts,
    decreases parts.len(),
{
    assert(!parts[0].contains(sep));
    if parts.len() == 1 {
        lemma_split_first(parts[0], Seq::empty(), sep);
        assert(split(parts[0], sep) =~= parts);
    } else {
        let rest = parts.skip(1);
        assert forall|i: int| 0 <= i < rest.len() implies !(#[trigger] rest[i]).contains(sep) by {
            assert(rest[i] == parts[i + 1]);
        }
        law_split_undoes_join(rest, sep);
        lemma_joined_front(parts, seq![sep]);
        lemma_split_first(parts[0], text::joined(rest, seq![sep]), sep);
        assert(seq![parts[0]] + rest =~= parts);
    }
}

/// Reads a TSV field back.
pub open spec fn tsv_value(s: Seq<char>) -> Seq<char>
    decreases s.len(),
{
    if s.len() == 0 {
        Seq::empty()
    } else if s[0] == '\\' && s.len() > 1 {
        let c = if s[1] == 't' {
            '\t'
        } else if s[1] == 'n' {
            '\n'
        } else if s[1] == 'r' {
            '\r'
        } else {
            s[1]
        };
        seq![c] + tsv_value(s.skip(2))
    } else {
        seq![s[0]] + tsv_value(s.skip(1))
    }
}

/// A value written as a TSV field is read back.
pub proof fn law_tsv_field_reads_back(value: Seq<char>)
    ensures
        tsv_value(ps_tabular::tsv_field(value)) == value,
    decreases value.len(),
{
    let code = ps_tabular::backslash_code();
    if value.len() == 0 {
        assert(tsv_value(ps_tabular::tsv_field(value)) =~= value);
    } else {
        let (c, rest) = (value[0], value.skip(1));
        assert(value =~= seq![c] + rest);
        lemma_encoded_front(c, rest, code);
        law_tsv_field_reads_back(rest);
        let f = ps_tabular::tsv_field(value);
        let tail = ps_tabular::tsv_field(rest);
        assert(f == code(c) + tail);
        if code(c).len() == 2 {
            assert(f.skip(2) =~= tail);
        } else {
            assert(f.skip(1) =~= tail);
        }
        assert(tsv_value(f) =~= value);
    }
}

/// A TSV field holds neither a tab nor a line break.
pub proof fn law_tsv_field_keeps_line_shape(value: Seq<char>)
    ensures
        !ps_tabular::tsv_field(value).contains('\t'),
        !ps_tabular::tsv_field(value).contains('\n'),
        !ps_tabular::tsv_field(value).contains('\r'),
    decreases value.len(),
{
    if value.len() > 0 {
        law_tsv_field_keeps_line_shape(value.drop_last());
        let before = ps_tabular::tsv_field(value.drop_last());
        let code = ps_tabular::backslash_code()(value.last());
        let f = ps_tabular::tsv_field(value);
        assert(f == before + code);
        assert forall|i: int| 0 <= i < f.len() implies f[i] != '\t' && f[i] != '\n' && f[i]
            != '\r' by {
            if i < before.len() {
                assert(before.contains(before[i]));
            } else {
                assert(f[i] == code[i - before.len()]);
            }
        }
    }
}

/// A line of TSV without its line break is split at the tabs into the fields, and each is read
/// back as its value.
pub proof fn law_tsv_line_reads_back(values: Seq<Seq<char>>)
    requires
        values.len() > 0,
    ensures
        ({
            let line = ps_tabular::line_of(values, PsOutputFormat::Tsv);
            &&& line.last() == '\n'
            &&& !line.drop_last().contains('\n')
            &&& split(line.drop_last(), '\t').map_values(|f: Seq<char>| tsv_value(f)) == values
        }),
{
    reveal_strlit("\n");
    reveal_strlit("\t");
    let fmt = PsOutputFormat::Tsv;
    let fields = values.map_values(|v: Seq<char>| ps_tabular::field_in(fmt, v));
    let line = ps_tabular::line_of(values, fmt);
    assert("\t"@ =~= seq!['\t']);
    assert(line.drop_last() =~= text::joined(fields, seq!['\t']));
    assert forall|i: int| 0 <= i < fields.len() implies !(#[trigger] fields[i]).contains('\t') by {
        law_tsv_field_keeps_line_shape(values[i]);
    }
    law_split_undoes_join(fields, '\t');
    assert(fields.map_values(|f: Seq<char>| tsv_value(f)) =~= values) by {
        assert forall|i: int| 0 <= i < values.len() implies tsv_value(#[trigger] fields[i])
            == values[i] by {
            law_tsv_field_reads_back(values[i]);
        }
    }
    assert forall|i: int| 0 <= i < fields.len() implies !(#[trigger] fields[i]).contains('\n') by {
        law_tsv_field_keeps_line_shape(values[i]);
    }
    lemma_joined_contains(fields, seq!['\t'], '\n');
}

/// Joining brings in nothing but the parts and the separator.
pub proof fn lemma_joined_contains(parts: Seq<Seq<char>>, sep: Seq<char>, c: char)
    requires
        forall|i: int| 0 <= i < parts.len() ==> !(#[trigger] parts[i]).contains(c),
        !sep.contains(c),
    ensures
        !text::joined(parts, sep).contains(c),
    decreases parts.len(),
{
    if parts.len() >= 2 {
        let init = parts.drop_last();
        assert forall|i: int| 0 <= i < init.len() implies !(#[trigger] init[i]).contains(c) by {
            assert(init[i] == parts[i]);
        }
        lemma_joined_contains(init, sep, c);
        let (a, z) = (text::joined(init, sep), parts.last());
        assert(!parts[parts.len() - 1].contains(c));
        let s = text::joined(parts, sep);
        assert(s == a + sep + z);
        if s.contains(c) {
            let i = s.index_of(c);
            if i < a.len() {
                assert(a[i] == c);
            } else if i < a.len() + sep.len() {
                assert(sep[i - a.len()] == c);
            } else {
                assert(z[i - a.len() - sep.len()] == c);
            }
        }
    } else if parts.len() == 1 {
        assert(!parts[0].contains(c));
    }
}

/// Reads a quoted CSV value from behind the opening quote: the value, and what follows the
/// closing quote.
pub open spec fn csv_quoted(s: Seq<char>) -> (Seq<char>, Seq<char>)
    decreases s.len(),
{
    if s.len() == 0 {
        (Seq::empty(), Seq::empty())
    } else if s[0] == '"' {
        if s.len() > 1 && s[1] == '"' {
            let (v, rest) = csv_quoted(s.skip(2));
            (seq!['"'] + v, rest)
        } else {
            (Seq::empty(), s.skip(1))
        }
    } else {
        let (v, rest) = csv_quoted(s.skip(1));
        (seq![s[0]] + v, rest)
    }
}

/// Reads an unquoted CSV value: up to the next comma or line break, or to the end.
pub open spec fn csv_plain(s: Seq<char>) -> (Seq<char>, Seq<char>)
    decreases s.len(),
{
    if s.len() == 0 || s[0] == ',' || s[0] == '\n' {
        (Seq::empty(), s)
    } else {
        let (v, rest) = csv_plain(s.skip(1));
        (seq![s[0]] + v, rest)
    }
}

/// Reads a CSV value, quoted or not.
pub open spec fn csv_value(s: Seq<char>) -> (Seq<char>, Seq<char>) {
    if s.len() > 0 && s[0] == '"' {
        csv_quoted(s.skip(1))
    } else {
        csv_plain(s)
    }
}

/// Reads a CSV record of `n` values and the line break behind it: the values, and what follows.
pub open spec fn csv_record(s: Seq<char>, n: nat) -> (Seq<Seq<char>>, Seq<char>)
    decreases n,
{
    if n == 0 {
        (Seq::empty(), s)
    } else {
        let (v, rest) = csv_value(s);
        let (more, after) = csv_record(rest.skip(1), (n - 1) as nat);
        (seq![v] + more, after)
    }
}

proof fn lemma_csv_quoted(value: Seq<char>, rest: Seq<char>)
    requires
        rest.len() == 0 || rest[0] != '"',
    ensures
        csv_quoted(ps_tabular::encoded(value, ps_tabular::quote_code()) + seq!['"'] + rest) == (
            value,
            rest,
        ),
    decreases value.len(),
{
    let code = ps_tabular::quote_code();
    let s = ps_tabular::encoded(value, code) + seq!['"'] + rest;
    if value.len() == 0 {
        assert(s =~= seq!['"'] + rest);
        assert(s.skip(1) =~= rest);
        assert(value =~= Seq::empty());
    } else {
        let (c, tail) = (value[0], value.skip(1));
        assert(value =~= seq![c] + tail);
        lemma_encoded_front(c, tail, code);
        lemma_csv_quoted(tail, rest);
        let more = ps_tabular::encoded(tail, code) + seq!['"'] + rest;
        assert(s =~= code(c) + more);
        if c == '"' {
            assert(s.skip(2) =~= more);
        } else {
            assert(s.skip(1) =~= more);
        }
    }
}

proof fn lemma_csv_plain(value: Seq<char>, rest: Seq<char>)
    requires
        !value.contains(','),
        !value.contains('\n'),
        rest.len() == 0 || rest[0] == ',' || rest[0] == '\n',
    ensures
        csv_plain(value + rest) == (value, rest),
    decreases value.len(),
{
    let s = value + rest;
    if value.len() == 0 {
        assert(s =~= rest);
        assert(value =~= Seq::empty());
    } else {
        let tail = value.skip(1);
        assert(value.contains(value[0]));
        assert(!tail.contains(',')) by {
            if tail.contains(',') {
                assert(value[tail.index_of(',') + 1] == ',');
            }
        }
        assert(!tail.contains('\n')) by {
            if tail.contains('\n') {
                assert(value[tail.index_of('\n') + 1] == '\n');
            }
        }
        lemma_csv_plain(tail, rest);
        assert(s.skip(1) =~= tail + rest);
        assert(seq![value[0]] + tail =~= value);
    }
}

/// A value written as a CSV field is read back, with whatever follows it.
pub proof fn law_csv_field_reads_back(value: Seq<char>, rest: Seq<char>)
    requires
        rest.len() == 0 || rest[0] == ',' || rest[0] == '\n',
    ensures
        csv_value(ps_tabular::csv_field(value) + rest) == (value, rest),
{
    let s = ps_tabular::csv_field(value) + rest;
    if ps_tabular::needs_quotes(value) {
        let inner = ps_tabular::encoded(value, ps_tabular::quote_code()) + seq!['"'] + rest;
        assert(s =~= seq!['"'] + inner);
        assert(s.skip(1) =~= inner);
        lemma_csv_quoted(value, rest);
    } else {
        if value.len() > 0 {
            assert(value.contains(value[0]));
            assert(s[0] == value[0]);
        }
        lemma_csv_plain(value, rest);
    }
}

/// A value is put in quotes only where it has to be.
pub proof fn law_csv_quotes_only_when_needed(value: Seq<char>)
    ensures
        ps_tabular::csv_field(value) != value <==> ps_tabular::needs_quotes(value),
{
    if ps_tabular::needs_quotes(value) {
        lemma_encoded_is_no_shorter(value);
        assert(ps_tabular::csv_field(value).len() > value.len());
    }
}

proof fn lemma_encoded_is_no_shorter(value: Seq<char>)
    ensures
        ps_tabular::encoded(value, ps_tabular::quote_code()).len() >= value.len(),
    decreases value.len(),
{
    if value.len() > 0 {
        lemma_encoded_is_no_shorter(value.drop_last());
    }
}

/// A line of CSV is read back as its values, with whatever follows the line.
pub proof fn law_csv_line_reads_back(values: Seq<Seq<char>>, after: Seq<char>)
    requires
        values.len() > 0,
    ensures
        csv_record(ps_tabular::line_of(values, PsOutputFormat::Csv) + after, values.len()) == (
            values,
            after,
        ),
    decreases values.len(),
{
    reveal_strlit("\n");
    reveal_strlit(",");
    let fmt = PsOutputFormat::Csv;
    let fields = values.map_values(|v: Seq<char>| ps_tabular::field_in(fmt, v));
    let s = ps_tabular::line_of(values, fmt) + after;
    let first = ps_tabular::csv_field(values[0]);
    if values.len() == 1 {
        let rest = seq!['\n'] + after;
        assert(s =~= first + rest);
        law_csv_field_reads_back(values[0], rest);
        assert(rest.skip(1) =~= after);
        let (more, end) = csv_record(after, 0);
        assert(seq![values[0]] + more =~= values);
    } else {
        let tail = values.skip(1);
        let tail_fields = tail.map_values(|v: Seq<char>| ps_tabular::field_in(fmt, v));
        assert(fields.skip(1) =~= tail_fields);
        lemma_joined_front(fields, ","@);
        let line = ps_tabular::line_of(tail, fmt) + after;
        let rest = seq![','] + line;
        assert(s =~= first + rest);
        law_csv_field_reads_back(values[0], rest);
        assert(rest.skip(1) =~= line);
        law_csv_line_reads_back(tail, after);
        assert(seq![values[0]] + tail =~= values);
    }
}

/// Reads CSV records of eleven values each, to the end of the text.
pub open spec fn csv_table(s: Seq<char>, rows: nat) -> Seq<Seq<Seq<char>>>
    decreases rows,
{
    if rows == 0 {
        Seq::empty()
    } else {
        let (record, after) = csv_record(s, 11);
        seq![record] + csv_table(after, (rows - 1) as nat)
    }
}

/// The values of sessions, row by row.
pub open spec fn value_rows(
    records: Seq<SessionRecord>,
    uptimes: Seq<Seq<char>>,
) -> Seq<Seq<Seq<char>>> {
    Seq::new(records.len(), |i: int| ps_tabular::column_values(records[i], uptimes[i]))
}

/// Lines of sessions, the first one taken off.
proof fn lemma_lines_front(
    records: Seq<SessionRecord>,
    uptimes: Seq<Seq<char>>,
    fmt: PsOutputFormat,
)
    requires
        records.len() > 0,
        uptimes.len() == records.len(),
    ensures
        ps_tabular::lines_of(records, uptimes, fmt) == ps_tabular::line_of(
            ps_tabular::column_values(records[0], uptimes[0]),
            fmt,
        ) + ps_tabular::lines_of(records.skip(1), uptimes.skip(1), fmt),
    decreases records.len(),
{
    let first = ps_tabular::line_of(ps_tabular::column_values(records[0], uptimes[0]), fmt);
    let last = ps_tabular::line_of(
        ps_tabular::column_values(records.last(), uptimes.last()),
        fmt,
    );
    if records.len() == 1 {
        assert(ps_tabular::lines_of(records.drop_last(), uptimes.drop_last(), fmt)
            =~= Seq::empty());
        assert(ps_tabular::lines_of(records.skip(1), uptimes.skip(1), fmt) =~= Seq::empty());
        assert(ps_tabular::lines_of(records, uptimes, fmt) =~= first + Seq::empty());
    } else {
        lemma_lines_front(records.drop_last(), uptimes.drop_last(), fmt);
        assert(records.drop_last().skip(1) =~= records.skip(1).drop_last());
        assert(uptimes.drop_last().skip(1) =~= uptimes.skip(1).drop_last());
        let middle = ps_tabular::lines_of(
            records.skip(1).drop_last(),
            uptimes.skip(1).drop_last(),
            fmt,
        );
        assert(ps_tabular::lines_of(records.skip(1), uptimes.skip(1), fmt) == middle + last);
        assert(ps_tabular::lines_of(records, uptimes, fmt) == (first + middle) + last);
        assert((first + middle) + last =~= first + (middle + last));
    }
}

proof fn lemma_csv_rows(records: Seq<SessionRecord>, uptimes: Seq<Seq<char>>)
    requires
        uptimes.len() == records.len(),
    ensures
        csv_table(
            ps_tabular::lines_of(records, uptimes, PsOutputFormat::Csv),
            records.len(),
        ) == value_rows(records, uptimes),
    decreases records.len(),
{
    let fmt = PsOutputFormat::Csv;
    if records.len() == 0 {
        assert(csv_table(ps_tabular::lines_of(records, uptimes, fmt), 0) =~= value_rows(
            records,
            uptimes,
        ));
    } else {
        lemma_lines_front(records, uptimes, fmt);
        let values = ps_tabular::column_values(records[0], uptimes[0]);
        let rest = ps_tabular::lines_of(records.skip(1), uptimes.skip(1), fmt);
        law_csv_line_reads_back(values, rest);
        lemma_csv_rows(records.skip(1), uptimes.skip(1));
        assert(value_rows(records, uptimes) =~= seq![values] + value_rows(
            records.skip(1),
            uptimes.skip(1),
        ));
    }
}

/// CSV output is read back as the column names and the values of every session, row by row.
pub proof fn law_csv_table_reads_back(
    records: Seq<SessionRecord>,
    uptimes: Seq<Seq<char>>,
    documents: Seq<Option<Seq<char>>>,
)
    requires
        uptimes.len() == records.len(),
    ensures
        csv_table(
            ps_tabular::tabular_text(records, uptimes, PsOutputFormat::Csv, documents),
            records.len() + 1,
        ) == seq![ps_tabular::column_names()] + value_rows(records, uptimes),
{
    let rest = ps_tabular::lines_of(records, uptimes, PsOutputFormat::Csv);
    law_csv_line_reads_back(ps_tabular::column_names(), rest);
    lemma_csv_rows(records, uptimes);
}

/// Without sessions CSV and TSV are the line of column names, and NDJSON without documents is
/// empty.
pub proof fn law_empty_output(fmt: PsOutputFormat)
    ensures
        ps_tabular::tabular_text(Seq::empty(), Seq::empty(), fmt, Seq::empty()) == match fmt {
            PsOutputFormat::Ndjson => Seq::<char>::empty(),
            _ => ps_tabular::line_of(ps_tabular::column_names(), fmt),
        },
{
    assert(ps_tabular::lines_of(Seq::empty(), Seq::empty(), fmt) =~= Seq::empty());
    assert(ps_tabular::line_of(ps_tabular::column_names(), fmt) + Seq::<char>::empty()
        =~= ps_tabular::line_of(ps_tabular::column_names(), fmt));
}

/// The documents of which every one is there.
pub open spec fn all_present(lines: Seq<Seq<char>>) -> Seq<Option<Seq<char>>> {
    Seq::new(lines.len(), |i: int| Some(lines[i]))
}

proof fn lemma_ndjson_is_joined(lines: Seq<Seq<char>>)
    requires
        lines.len() > 0,
    ensures
        ps_tabular::ndjson_text(all_present(lines)) == text::joined(lines, seq!['\n']).push('\n'),
    decreases lines.len(),
{
    reveal_strlit("\n");
    let docs = all_present(lines);
    assert(docs.drop_last() =~= all_present(lines.drop_last()));
    if lines.len() == 1 {
        assert(ps_tabular::ndjson_text(docs.drop_last()) =~= Seq::empty());
        assert(ps_tabular::ndjson_text(docs) =~= lines[0].push('\n'));
    } else {
        lemma_ndjson_is_joined(lines.drop_last());
        assert(ps_tabular::ndjson_text(docs) =~= text::joined(lines, seq!['\n']).push('\n'));
    }
}

/// NDJSON output is one line for each document, provided that documents hold no line breaks: it
/// is split at the line breaks into the documents, with nothing behind the last break.
pub proof fn law_ndjson_has_one_line_per_document(lines: Seq<Seq<char>>)
    requires
        lines.len() > 0,
        forall|i: int| 0 <= i < lines.len() ==> !(#[trigger] lines[i]).contains('\n'),
    ensures
        split(ps_tabular::ndjson_text(all_present(lines)), '\n') == lines.push(Seq::empty()),
{
    lemma_ndjson_is_joined(lines);
    let parts = lines.push(Seq::empty());
    assert forall|i: int| 0 <= i < parts.len() implies !(#[trigger] parts[i]).contains('\n') by {
        if i < lines.len() {
            assert(parts[i] == lines[i]);
        }
    }
    law_split_undoes_join(parts, '\n');
    assert(parts.drop_last() =~= lines);
    assert(text::joined(parts, seq!['\n']) =~= text::joined(lines, seq!['\n']).push('\n'));
}

/// NDJSON output has one line for each session, in their order, where all could be serialized to a
/// line.
pub proof fn law_ndjson_has_one_line_per_session(
    records: Seq<SessionRecord>,
    uptimes: Seq<Seq<char>>,
    lines: Seq<Seq<char>>,
)
    requires
        lines.len() == records.len(),
        forall|i: int| 0 <= i < lines.len() ==> !(#[trigger] lines[i]).contains('\n'),
    ensures
        ({
            let out = ps_tabular::tabular_text(
                records,
                uptimes,
                PsOutputFormat::Ndjson,
                all_present(lines),
            );
            &&& ps_tabular::line_count(out) == records.len()
            &&& records.len() > 0 ==> split(out, '\n') == lines.push(Seq::empty())
        }),
{
    let documents = all_present(lines);
    assert forall|i: int| 0 <= i < documents.len() implies (#[trigger] documents[i]) is Some
        && !documents[i]->0.contains('\n') by {
        assert(documents[i] == Some(lines[i]));
    }
    ps_tabular::lemma_ndjson_lines(documents);
    if records.len() > 0 {
        law_ndjson_has_one_line_per_document(lines);
    }
}

/// Every column holds what its name says.
pub proof fn law_columns_hold_what_they_name(s: SessionRecord, uptime: Seq<char>)
    ensures
        ({
            let names = ps_tabular::column_names();
            let values = ps_tabular::column_values(s, uptime);
            &&& names.len() == 11 && values.len() == 11
            &&& names[0] == "session_id"@ && values[0] == s.session_id@
            &&& names[1] == "name"@ && (s.name is Some ==> values[1] == s.name->0@) && (s.name
                is None ==> values[1].len() == 0)
            &&& names[2] == "status"@ && (s.status == SessionStatus::Running ==> values[2]
                == "running"@) && (s.status == SessionStatus::Paused ==> values[2] == "paused"@)
                && (s.status == SessionStatus::Exited ==> values[2] == "exited"@)
            &&& names[3] == "exit_code"@ && (s.exit_code is Some ==> values[3]
                == numbers::signed_decimal(s.exit_code->0 as int)) && (s.exit_code is None
                ==> values[3].len() == 0)
            &&& names[4] == "attach"@ && (s.status == SessionStatus::Exited ==> values[4] == "-"@)
                && (s.status != SessionStatus::Exited ==> values[4] == (if s.attachment
                == SessionAttachment::Attached {
                "attached"@
            } else {
                "detached"@
            }))
            &&& names[5] == "pid"@ && values[5] == numbers::decimal(s.child_pid as nat)
            &&& names[6] == "uptime"@ && values[6] == uptime
            &&& names[7] == "started"@ && values[7] == s.started@
            &&& names[8] == "profile"@ && (s.profile is Some ==> values[8] == s.profile->0@) && (
            s.profile is None ==> values[8].len() == 0)
            &&& names[9] == "network"@ && values[9] == s.network@
            &&& names[10] == "command"@ && values[10] == command_display::command_line(
                text::texts(s.command@),
            )
        }),
{
}

/// CSV and TSV are the line of column names and a line for each session, in order.
pub proof fn law_tables_are_written_line_by_line(
    records: Seq<SessionRecord>,
    uptimes: Seq<Seq<char>>,
    s: SessionRecord,
    uptime: Seq<char>,
    fmt: PsOutputFormat,
    documents: Seq<Option<Seq<char>>>,
)
    requires
        fmt != PsOutputFormat::Ndjson,
    ensures
        ps_tabular::tabular_text(Seq::empty(), Seq::empty(), fmt, documents)
            == ps_tabular::line_of(ps_tabular::column_names(), fmt),
        ps_tabular::tabular_text(records.push(s), uptimes.push(uptime), fmt, documents)
            == ps_tabular::tabular_text(records, uptimes, fmt, documents) + ps_tabular::line_of(
            ps_tabular::column_values(s, uptime),
            fmt,
        ),
{
    assert(records.push(s).drop_last() =~= records);
    assert(uptimes.push(uptime).drop_last() =~= uptimes);
    let head = ps_tabular::line_of(ps_tabular::column_names(), fmt);
    assert(head + Seq::<char>::empty() =~= head);
    let body = ps_tabular::lines_of(records, uptimes, fmt);
    let line = ps_tabular::line_of(ps_tabular::column_values(s, uptime), fmt);
    assert(head + (body + line) =~= head + body + line);
}

/// The documents of NDJSON are written one after the other, each with a line break, and what could
/// not be serialized is skipped.
pub proof fn law_ndjson_skips_what_is_missing(
    documents: Seq<Option<Seq<char>>>,
    line: Seq<char>,
    records: Seq<SessionRecord>,
    uptimes: Seq<Seq<char>>,
)
    ensures
        ps_tabular::tabular_text(records, uptimes, PsOutputFormat::Ndjson, documents)
            == ps_tabular::ndjson_text(documents),
        ps_tabular::ndjson_text(Seq::empty()) == Seq::<char>::empty(),
        ps_tabular::ndjson_text(documents.push(None)) == ps_tabular::ndjson_text(documents),
        ps_tabular::ndjson_text(documents.push(Some(line))) == ps_tabular::ndjson_text(documents)
            + line + seq!['\n'],
{
    reveal_strlit("\n");
    assert("\n"@ =~= seq!['\n']);
    assert(documents.push(None).drop_last() =~= documents);
    assert(documents.push(Some(line)).drop_last() =~= documents);
}

/// A CSV value has to be quoted exactly when it holds a comma, a quote or a line break.
pub proof fn law_csv_quotes_what_would_be_misread(value: Seq<char>)
    ensures
        ps_tabular::csv_field(value) == value <==> forall|i: int|
            0 <= i < value.len() ==> #[trigger] value[i] != ',' && value[i] != '"' && value[i]
                != '\n' && value[i] != '\r',
{
    law_csv_quotes_only_when_needed(value);
    if !ps_tabular::needs_quotes(value) {
        assert forall|i: int| 0 <= i < value.len() implies #[trigger] value[i] != ',' && value[i]
            != '"' && value[i] != '\n' && value[i] != '\r' by {
            assert(value.contains(value[i]));
        }
    }
}

} // verus!
