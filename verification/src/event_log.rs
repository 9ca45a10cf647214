//! Event logs: one JSON document per line.

use std::collections::VecDeque;

use vstd::prelude::*;

use crate::error;
use crate::error::{ErrorView, NonoError};
use crate::field_extract;
use crate::json;
use crate::text;

verus! {

/// The lines that are kept after one more has been read: the oldest one leaves when there are as
/// many as the limit allows.
pub open spec fn with_line(kept: Seq<Seq<char>>, line: Seq<char>, limit: Option<usize>) -> Seq<
    Seq<char>,
> {
    match limit {
        Some(n) if kept.len() == n && n > 0 => kept.skip(1).push(line),
        _ => kept.push(line),
    }
}

/// The end of a log, collected line by line.
#[derive(Debug, Clone, PartialEq, Eq)]
pub struct EventTail {
    /// How many lines are kept; without a limit, or with a limit of zero, all are.
    pub limit: Option<usize>,
    pub lines: VecDeque<String>,
}

impl EventTail {
    /// The lines that are kept.
    pub open spec fn kept(self) -> Seq<Seq<char>> {
        text::texts(self.lines@)
    }

    /// No line yet.
    pub fn new(limit: Option<usize>) -> (tail: EventTail)
        ensures
            tail.limit == limit,
            tail.kept() == Seq::<Seq<char>>::empty(),
    {
        let tail = EventTail { limit, lines: VecDeque::new() };
        assert(tail.kept() =~= Seq::empty());
        tail
    }

    /// Takes one more line.
    pub fn push(&mut self, line: String)
        ensures
            final(self).limit == old(self).limit,
            final(self).kept() == with_line(old(self).kept(), line@, old(self).limit),
    {
        let ghost before = self.lines@;
        match self.limit {
            Some(n) => {
                if self.lines.len() == n {
                    let _ = self.lines.pop_front();
                }
            },
            None => {},
        }
        self.lines.push_back(line);
        assert(self.kept() =~= with_line(text::texts(before), line@, self.limit));
    }

    /// The lines that are kept, oldest first.
    pub fn into_lines(self) -> (out: Vec<String>)
        ensures
            text::texts(out@) == self.kept(),
    {
        let ghost all = self.lines@;
        let mut rest = self.lines;
        let mut out: Vec<String> = Vec::new();
        assert(all.skip(0) =~= all);
        while rest.len() > 0
            invariant
                out.len() <= all.len(),
                rest@ == all.skip(out@.len() as int),
                out@ == all.take(out@.len() as int),
            decreases rest.len(),
        {
            let ghost k = out@.len() as int;
            if let Some(line) = rest.pop_front() {
                out.push(line);
                assert(all.take(k + 1) =~= all.take(k).push(all[k]));
                assert(rest@ =~= all.skip(k + 1));
            }
        }
        assert(all.take(all.len() as int) =~= all);
        out
    }
}

/// What is kept of a log after all of its lines have been read.
pub open spec fn kept_of(lines: Seq<Seq<char>>, limit: Option<usize>) -> Seq<Seq<char>>
    decreases lines.len(),
{
    if lines.len() == 0 {
        Seq::empty()
    } else {
        with_line(kept_of(lines.drop_last(), limit), lines.last(), limit)
    }
}

/// Of a log the last lines are kept, as many as the limit says; all of them where there is no
/// limit or a limit of zero.
pub proof fn law_tail_is_the_end_of_the_log(lines: Seq<Seq<char>>, limit: Option<usize>)
    ensures
        kept_of(lines, limit) == match limit {
            Some(n) if 0 < n < lines.len() => lines.skip(lines.len() - n),
            _ => lines,
        },
    decreases lines.len(),
{
    if lines.len() == 0 {
        assert(kept_of(lines, limit) =~= lines);
    } else {
        let init = lines.drop_last();
        law_tail_is_the_end_of_the_log(init, limit);
        assert(init.push(lines.last()) =~= lines);
        match limit {
            Some(n) if 0 < n < lines.len() => {
                if init.len() == n {
                    assert(kept_of(lines, limit) =~= lines.skip(lines.len() - n));
                } else {
                    assert(init.skip(init.len() - n).skip(1).push(lines.last()) =~= lines.skip(
                        lines.len() - n,
                    ));
                }
            },
            _ => {},
        }
    }
}

/// An event as JSON: the document on its line, or the line as a string where it is no document.
pub open spec fn event_json(line: Seq<char>) -> Seq<char> {
    match json::parsed_json(line) {
        Ok(document) => document,
        Err(_) => json::quoted_json(line),
    }
}

/// Reads one event.
pub fn event_value(line: &String) -> (value: serde_json::Value)
    ensures
        json::json_text(value) == event_json(line@),
{
    match json::parse_json(line.as_str()) {
        Ok(v) => v,
        Err(_) => json::json_string(line.clone()),
    }
}

/// The events of a log as a JSON array.
pub open spec fn events_json(lines: Seq<Seq<char>>) -> Seq<char> {
    "["@ + text::joined(lines.map_values(|line: Seq<char>| event_json(line)), ","@) + "]"@
}

/// Whether the items of a document, found below the pointer `at`, are the events of a log.
pub open spec fn has_events(document: Seq<char>, at: Seq<char>, lines: Seq<Seq<char>>) -> bool {
    forall|i: int|
        0 <= i < lines.len() ==> json::pointed_json(document, at + json::pointer_at(i as nat))
            == Some(event_json(#[trigger] lines[i]))
}

/// Reads the events of a log into a JSON array, each of which a JSON Pointer finds by its number.
pub fn events_value(lines: &Vec<String>) -> (value: serde_json::Value)
    ensures
        json::json_text(value) == events_json(text::texts(lines@)),
        has_events(json::json_text(value), Seq::empty(), text::texts(lines@)),
{
    let mut values: Vec<serde_json::Value> = Vec::new();
    let mut i: usize = 0;
    while i < lines.len()
        invariant
            i <= lines.len(),
            values.len() == i,
            forall|j: int|
                0 <= j < i ==> json::json_text(#[trigger] values@[j]) == event_json(lines@[j]@),
        decreases lines.len() - i,
    {
        values.push(event_value(&lines[i]));
        i += 1;
    }
    assert(json::json_texts(values@) =~= text::texts(lines@).map_values(
        |line: Seq<char>| event_json(line),
    ));
    let ghost all = values@;
    let value = json::json_array(values);
    proof {
        let texts = text::texts(lines@);
        assert forall|i: int| 0 <= i < texts.len() implies json::pointed_json(
            json::json_text(value),
            Seq::empty() + json::pointer_at(i as nat),
        ) == Some(event_json(#[trigger] texts[i])) by {
            assert(Seq::empty() + json::pointer_at(i as nat) =~= json::pointer_at(i as nat));
            assert(json::json_text(all[i]) == event_json(lines@[i]@));
        }
    }
    value
}

/// The lines, each with a line break behind it.
pub open spec fn lines_text(lines: Seq<Seq<char>>) -> Seq<char>
    decreases lines.len(),
{
    if lines.len() == 0 {
        Seq::empty()
    } else {
        lines_text(lines.drop_last()) + lines.last() + "\n"@
    }
}

/// Writes the lines, each with a line break behind it.
pub fn render_lines(lines: &Vec<String>) -> (out: String)
    ensures
        out@ == lines_text(text::texts(lines@)),
{
    let ghost all = text::texts(lines@);
    let mut out = String::new();
    let mut i: usize = 0;
    while i < lines.len()
        invariant
            i <= lines.len(),
            all == text::texts(lines@),
            out@ == lines_text(all.take(i as int)),
        decreases lines.len() - i,
    {
        proof {
            assert(all.take(i + 1).drop_last() =~= all.take(i as int));
            assert(all.take(i + 1).last() == lines@[i as int]@);
        }
        out.append(lines[i].as_str());
        out.append("\n");
        i += 1;
    }
    assert(all.take(all.len() as int) =~= all);
    out
}

/// What is printed of a log.
pub open spec fn event_log_text(lines: Seq<Seq<char>>, as_json: bool) -> Seq<char> {
    if as_json {
        json::pretty_text(events_json(lines)) + "\n"@
    } else {
        lines_text(lines)
    }
}

/// Writes a log: as a JSON array of its events, or line by line.
pub fn render_event_log(lines: &Vec<String>, as_json: bool) -> (r: Result<String, NonoError>)
    ensures
        error::outcome(r) == Ok::<Seq<char>, ErrorView>(
            event_log_text(text::texts(lines@), as_json),
        ),
{
    if as_json {
        let value = events_value(lines);
        match field_extract::render_document(&value, false) {
            Ok(s) => {
                let mut out = s;
                out.append("\n");
                Ok(out)
            },
            Err(e) => Err(e),
        }
    } else {
        Ok(render_lines(lines))
    }
}

/// What is said of a session without a log.
pub fn no_log_message(session_id: &str) -> (out: String)
    ensures
        out@ == "No event log recorded for session "@ + session_id@ + "."@,
{
    let mut out = "No event log recorded for session ".to_owned();
    out.append(session_id);
    out.append(".");
    out
}

/// An event is the document that its line holds, or the line itself as a string.
pub proof fn law_events_are_documents_or_strings(line: Seq<char>, document: Seq<char>)
    ensures
        json::parsed_json(line) == Ok::<Seq<char>, Seq<char>>(document) ==> event_json(line)
            == document,
        json::parsed_json(line) is Err ==> json::string_content(event_json(line)) == Some(line),
{
    json::law_quoting_loses_nothing(line);
}

/// Lines are written one after the other, each with its line break.
pub proof fn law_lines_are_written_in_order(lines: Seq<Seq<char>>, line: Seq<char>)
    ensures
        lines_text(Seq::empty()) == Seq::<char>::empty(),
        lines_text(lines.push(line)) == lines_text(lines) + line + seq!['\n'],
{
    reveal_strlit("\n");
    assert("\n"@ =~= seq!['\n']);
    assert(lines.push(line).drop_last() =~= lines);
}

/// The last line read is always kept, and lines are dropped from the front only.
pub proof fn law_tail_keeps_the_newest_line(
    kept: Seq<Seq<char>>,
    line: Seq<char>,
    limit: Option<usize>,
)
    ensures
        with_line(kept, line, limit).last() == line,
        limit is None ==> with_line(kept, line, limit) == kept.push(line),
        limit matches Some(n) && 0 < n && kept.len() == n ==> with_line(kept, line, limit)
            == kept.push(line).skip(1),
        limit matches Some(n) && kept.len() < n ==> with_line(kept, line, limit) == kept.push(line),
{
    if kept.len() > 0 {
        assert(kept.push(line).skip(1) =~= kept.skip(1).push(line));
    }
}

/// A log is printed line by line, or as a JSON array that is laid out on lines.
pub proof fn law_logs_are_printed_as_asked(lines: Seq<Seq<char>>)
    ensures
        event_log_text(lines, false) == lines_text(lines),
        event_log_text(lines, true) == json::pretty_text(events_json(lines)) + "\n"@,
{
}

/// The events of a log in JSON are an array with an item for each line, in order.
pub proof fn law_events_are_an_array(lines: Seq<Seq<char>>, line: Seq<char>)
    ensures
        events_json(Seq::empty()) == seq!['[', ']'],
        events_json(seq![line]) == seq!['['] + event_json(line) + seq![']'],
        lines.len() > 0 ==> events_json(lines.push(line)) == events_json(lines).drop_last()
            + seq![','] + event_json(line) + seq![']'],
{
    reveal_strlit("[");
    reveal_strlit("]");
    reveal_strlit(",");
    let f = |line: Seq<char>| event_json(line);
    assert(lines.push(line).map_values(f) =~= lines.map_values(f).push(f(line)));
    assert(seq![line].map_values(f) =~= seq![f(line)]);
    assert(Seq::<Seq<char>>::empty().map_values(f) =~= Seq::empty());
    text::law_joining_puts_separators_between(lines.map_values(f), f(line), ","@);
    assert(events_json(Seq::empty()) =~= seq!['[', ']']);
    assert(events_json(seq![line]) =~= seq!['['] + event_json(line) + seq![']']);
    if lines.len() > 0 {
        assert(events_json(lines.push(line)) =~= events_json(lines).drop_last() + seq![',']
            + event_json(line) + seq![']']);
    }
}

} // verus!
