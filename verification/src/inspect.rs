//! `nono inspect`: everything about one session.

use vstd::prelude::*;

use crate::cli::InspectArgs;
use crate::command_display;
use crate::error;
use crate::error::{ErrorView, NonoError};
use crate::event_log;
use crate::field_extract;
use crate::json;
use crate::numbers;
use crate::order;
use crate::paths;
use crate::session;
use crate::session::SessionRecord;
use crate::text;

verus! {

/// A labelled line.
pub open spec fn line(label: Seq<char>, value: Seq<char>) -> Seq<char> {
    label + value + "\n"@
}

/// A labelled line, where there is something to show.
pub open spec fn opt_line(label: Seq<char>, value: Option<Seq<char>>) -> Seq<char> {
    match value {
        Some(v) => line(label, v),
        None => Seq::empty(),
    }
}

fn make_line(label: &str, value: &str) -> (out: String)
    ensures
        out@ == line(label@, value@),
{
    let mut out = label.to_owned();
    out.append(value);
    out.append("\n");
    out
}

fn make_opt_line(label: &str, value: &Option<String>) -> (out: String)
    ensures
        out@ == opt_line(label@, text::opt_text(*value)),
{
    match value {
        Some(v) => make_line(label, v.as_str()),
        None => String::new(),
    }
}

/// The lines about a session.
pub open spec fn session_lines(s: SessionRecord, session_file: Seq<u8>) -> Seq<char> {
    line("Session:    "@, s.session_id@) + opt_line("Name:       "@, text::opt_text(s.name))
        + line("Status:     "@, session::status_name(s.status)) + line(
        "Attached:   "@,
        session::attachment_name(s.attachment),
    ) + line(
        "PID:        "@,
        numbers::decimal(s.child_pid as nat) + " (supervisor: "@ + numbers::decimal(
            s.supervisor_pid as nat,
        ) + ")"@,
    ) + line("Started:    "@, s.started@) + opt_line(
        "Exit code:  "@,
        match s.exit_code {
            Some(code) => Some(numbers::signed_decimal(code as int)),
            None => None,
        },
    ) + line("Command:    "@, command_display::command_line(text::texts(s.command@))) + opt_line(
        "Profile:    "@,
        text::opt_text(s.profile),
    ) + line("Workdir:    "@, paths::shown(s.workdir@)) + line("Network:    "@, s.network@)
        + opt_line("Rollback:   "@, text::opt_text(s.rollback_session)) + line(
        "File:       "@,
        paths::shown(session_file),
    )
}

/// The lines about the events of a session.
pub open spec fn event_lines(lines: Seq<Seq<char>>, tail: Option<usize>) -> Seq<char> {
    (match tail {
        Some(n) => "\nEVENTS (last "@ + numbers::decimal(n as nat) + "):\n"@,
        None => "\nEVENTS:\n"@,
    }) + if lines.len() == 0 {
        "  (no events recorded)\n"@
    } else {
        event_log::lines_text(lines)
    }
}

/// What is shown to people: the session, and its events where they were asked for.
pub open spec fn inspect_text(
    s: SessionRecord,
    session_file: Seq<u8>,
    events: Option<Seq<Seq<char>>>,
    tail: Option<usize>,
) -> Seq<char> {
    match events {
        Some(lines) => session_lines(s, session_file) + event_lines(lines, tail),
        None => session_lines(s, session_file),
    }
}

/// The views of the lines, where there are any.
pub open spec fn opt_texts(events: Option<Vec<String>>) -> Option<Seq<Seq<char>>> {
    match events {
        Some(lines) => Some(text::texts(lines@)),
        None => None,
    }
}

/// Writes the lines about a session.
fn render_session(record: &SessionRecord, session_file: &[u8]) -> (out: String)
    ensures
        out@ == session_lines(*record, session_file@),
{
    let mut pids = numbers::decimal_text(record.child_pid as u64);
    pids.append(" (supervisor: ");
    pids.append(numbers::decimal_text(record.supervisor_pid as u64).as_str());
    pids.append(")");
    let exit_code = match record.exit_code {
        Some(code) => Some(numbers::signed_text(code as i64)),
        None => None,
    };
    let mut out = make_line("Session:    ", record.session_id.as_str());
    out.append(make_opt_line("Name:       ", &record.name).as_str());
    out.append(make_line("Status:     ", record.status.name()).as_str());
    out.append(make_line("Attached:   ", record.attachment.name()).as_str());
    out.append(make_line("PID:        ", pids.as_str()).as_str());
    out.append(make_line("Started:    ", record.started.as_str()).as_str());
    out.append(make_opt_line("Exit code:  ", &exit_code).as_str());
    out.append(
        make_line(
            "Command:    ",
            command_display::format_command_line(&record.command).as_str(),
        ).as_str(),
    );
    out.append(make_opt_line("Profile:    ", &record.profile).as_str());
    out.append(make_line("Workdir:    ", paths::display(&record.workdir).as_str()).as_str());
    out.append(make_line("Network:    ", record.network.as_str()).as_str());
    out.append(make_opt_line("Rollback:   ", &record.rollback_session).as_str());
    out.append(make_line("File:       ", paths::display(session_file).as_str()).as_str());
    out
}

/// Writes a session for people.
pub fn render_inspect(
    record: &SessionRecord,
    session_file: &[u8],
    events: &Option<Vec<String>>,
    tail: Option<usize>,
) -> (out: String)
    ensures
        out@ == inspect_text(*record, session_file@, opt_texts(*events), tail),
{
    let mut out = render_session(record, session_file);
    if let Some(lines) = events {
        let mut section = match tail {
            Some(n) => {
                let mut header = "\nEVENTS (last ".to_owned();
                header.append(numbers::decimal_text(n as u64).as_str());
                header.append("):\n");
                header
            },
            None => "\nEVENTS:\n".to_owned(),
        };
        if lines.len() == 0 {
            section.append("  (no events recorded)\n");
        } else {
            section.append(event_log::render_lines(lines).as_str());
        }
        out.append(section.as_str());
    }
    out
}

/// The document about a session: the record with the path of its file added, or, with events, an
/// object of the record, the path and the events.
pub open spec fn inspect_json(
    record: Seq<char>,
    session_file: Seq<u8>,
    events: Option<Seq<Seq<char>>>,
) -> Seq<char> {
    let file = json::quoted_json(paths::shown(session_file));
    match events {
        None => json::with_member(record, "session_file"@, file),
        Some(lines) => "{"@ + text::joined(
            seq![
                json::quoted_json("events"@) + ":"@ + event_log::events_json(lines),
                json::quoted_json("session"@) + ":"@ + record,
                json::quoted_json("session_file"@) + ":"@ + file,
            ],
            ","@,
        ) + "}"@,
    }
}

/// The keys of the document are in order.
proof fn lemma_keys()
    ensures
        order::text_before("events"@, "session"@),
        order::text_before("session"@, "session_file"@),
        order::text_before("events"@, "session_file"@),
{
    reveal_strlit("events");
    reveal_strlit("session");
    reveal_strlit("session_file");
    assert("events"@.take(0) =~= "session"@.take(0));
    order::lemma_ascii_before("events"@, "session"@, 0);
    assert("session"@.take(7) =~= "session_file"@.take(7));
    order::lemma_ascii_before("session"@, "session_file"@, 7);
    assert("events"@.take(0) =~= "session_file"@.take(0));
    order::lemma_ascii_before("events"@, "session_file"@, 0);
}

/// Whether a document has everything that is found in a record: in its place, or, beside events,
/// under the key `session`. The events are then found by their numbers under the key `events`.
pub open spec fn keeps_record(
    document: Seq<char>,
    record: Seq<char>,
    events: Option<Seq<Seq<char>>>,
) -> bool {
    match events {
        None => json::same_but_for(record, document, "session_file"@),
        Some(lines) => {
            &&& event_log::has_events(document, json::pointer_to("events"@), lines)
            &&& json::pointed_json(document, json::pointer_to("session"@)) == Some(record)
            &&& forall|rest: Seq<char>|
                rest.len() > 0 && rest[0] == '/' ==> #[trigger] json::pointed_json(
                    document,
                    json::pointer_to("session"@) + rest,
                ) == json::pointed_json(record, rest)
        },
    }
}

/// Builds the document about a session out of its serialized record.
///
/// The document has all that is in the record. Wherever the record is an object, the field
/// `session_file` of the document is the path of the file.
pub fn inspect_value(
    record: serde_json::Value,
    session_file: &[u8],
    events: &Option<Vec<String>>,
) -> (value: serde_json::Value)
    ensures
        json::json_text(value) == inspect_json(
            json::json_text(record),
            session_file@,
            opt_texts(*events),
        ),
        keeps_record(json::json_text(value), json::json_text(record), opt_texts(*events)),
        json::json_text(record).len() > 0 && json::json_text(record)[0] == '{'
            ==> forall|compact: bool| #[trigger]
            field_extract::field_output(json::json_text(value), "session_file"@, compact) == Ok::<
                Seq<char>,
                ErrorView,
            >(paths::shown(session_file@)),
{
    let file = json::json_string(paths::display(session_file));
    proof {
        lemma_keys();
        reveal_strlit("session_file");
        json::law_quoting_loses_nothing(paths::shown(session_file@));
    }
    match events {
        None => {
            let mut value = record;
            json::insert_member(&mut value, "session_file", file);
            value
        },
        Some(lines) => {
            let mut members: Vec<(String, serde_json::Value)> = Vec::new();
            let listed = event_log::events_value(lines);
            let ghost listed_text = json::json_text(listed);
            members.push(("events".to_owned(), listed));
            members.push(("session".to_owned(), record));
            members.push(("session_file".to_owned(), file));
            proof {
                let m = members@;
                assert(m[0].0@ == "events"@);
                assert(m[1].0@ == "session"@);
                assert(m[2].0@ == "session_file"@);
                assert(json::member_texts(m) =~= seq![
                    json::quoted_json("events"@) + ":"@ + event_log::events_json(
                        text::texts(lines@),
                    ),
                    json::quoted_json("session"@) + ":"@ + json::json_text(record),
                    json::quoted_json("session_file"@) + ":"@ + json::quoted_json(
                        paths::shown(session_file@),
                    ),
                ]);
            }
            let value = json::json_object(members);
            proof {
                let texts = text::texts(lines@);
                assert forall|i: int| 0 <= i < texts.len() implies json::pointed_json(
                    json::json_text(value),
                    json::pointer_to("events"@) + json::pointer_at(i as nat),
                ) == Some(event_log::event_json(#[trigger] texts[i])) by {
                    let rest = json::pointer_at(i as nat);
                    assert(Seq::empty() + rest =~= rest);
                    assert(json::pointed_json(listed_text, rest) == Some(
                        event_log::event_json(texts[i]),
                    ));
                    assert(rest[0] == '/');
                }
            }
            value
        },
    }
}

/// Everything that `nono inspect` prints: the document or one field of it on its own lines, or the
/// text for people.
pub open spec fn inspect_output(
    s: SessionRecord,
    record: Seq<char>,
    session_file: Seq<u8>,
    events: Option<Seq<Seq<char>>>,
    args: InspectArgs,
) -> Result<Seq<char>, ErrorView> {
    if args.json {
        match field_extract::json_output(
            inspect_json(record, session_file, events),
            text::opt_text(args.field),
            args.compact,
        ) {
            Ok(out) => Ok(out + "\n"@),
            Err(e) => Err(e),
        }
    } else {
        Ok(inspect_text(s, session_file, events, args.logs_tail))
    }
}

/// What is printed for one field of the record alone.
pub open spec fn record_field_output(record: Seq<char>, field: Seq<char>, compact: bool) -> Result<
    Seq<char>,
    ErrorView,
> {
    match field_extract::field_output(record, field, compact) {
        Ok(out) => Ok(out + "\n"@),
        Err(e) => Err(e),
    }
}

/// Writes everything that `nono inspect` prints. `serialized` is the record as a JSON document.
///
/// A top-level field of the record other than `session_file` is printed as it stands there, where
/// no events are asked for.
pub fn report_inspect(
    record: &SessionRecord,
    serialized: serde_json::Value,
    session_file: &[u8],
    events: &Option<Vec<String>>,
    args: &InspectArgs,
) -> (r: Result<String, NonoError>)
    ensures
        error::outcome(r) == inspect_output(
            *record,
            json::json_text(serialized),
            session_file@,
            opt_texts(*events),
            *args,
        ),
        match args.field {
            Some(f) => args.json && events is None && f@ != "session_file"@ && (f@.len() == 0
                || f@[0] != '/') ==> error::outcome(r) == record_field_output(
                json::json_text(serialized),
                f@,
                args.compact,
            ),
            None => true,
        },
{
    if !args.json {
        return Ok(render_inspect(record, session_file, events, args.logs_tail));
    }
    let document = inspect_value(serialized, session_file, events);
    match field_extract::render_json(&document, &args.field, args.compact) {
        Ok(s) => {
            let mut out = s;
            out.append("\n");
            Ok(out)
        },
        Err(e) => Err(e),
    }
}

/// The lines about a session are one for each thing that is known of it, in a fixed order and each
/// behind its label; what is not known has no line.
pub proof fn law_inspect_shows_all_that_is_known(s: SessionRecord, session_file: Seq<u8>)
    ensures
        ({
            let known = |label: Seq<char>, value: Option<Seq<char>>| match value {
                Some(v) => seq![label + v],
                None => Seq::<Seq<char>>::empty(),
            };
            session_lines(s, session_file) == event_log::lines_text(
                seq!["Session:    "@ + s.session_id@] + known(
                    "Name:       "@,
                    text::opt_text(s.name),
                ) + seq![
                    "Status:     "@ + session::status_name(s.status),
                    "Attached:   "@ + session::attachment_name(s.attachment),
                    "PID:        "@ + (numbers::decimal(s.child_pid as nat) + " (supervisor: "@
                        + numbers::decimal(s.supervisor_pid as nat) + ")"@),
                    "Started:    "@ + s.started@,
                ] + known(
                    "Exit code:  "@,
                    match s.exit_code {
                        Some(code) => Some(numbers::signed_decimal(code as int)),
                        None => None,
                    },
                ) + seq!["Command:    "@ + command_display::command_line(text::texts(s.command@))]
                    + known("Profile:    "@, text::opt_text(s.profile)) + seq![
                    "Workdir:    "@ + paths::shown(s.workdir@),
                    "Network:    "@ + s.network@,
                ] + known("Rollback:   "@, text::opt_text(s.rollback_session)) + seq![
                    "File:       "@ + paths::shown(session_file),
                ],
            )
        }),
{
    let known = |label: Seq<char>, value: Option<Seq<char>>| match value {
        Some(v) => seq![label + v],
        None => Seq::<Seq<char>>::empty(),
    };
    let exit_code = match s.exit_code {
        Some(code) => Some(numbers::signed_decimal(code as int)),
        None => None,
    };
    let l1 = seq!["Session:    "@ + s.session_id@];
    let l2 = l1 + known("Name:       "@, text::opt_text(s.name));
    let four = seq![
        "Status:     "@ + session::status_name(s.status),
        "Attached:   "@ + session::attachment_name(s.attachment),
        "PID:        "@ + (numbers::decimal(s.child_pid as nat) + " (supervisor: "@
            + numbers::decimal(s.supervisor_pid as nat) + ")"@),
        "Started:    "@ + s.started@,
    ];
    let l6 = l2 + four;
    let l7 = l6 + known("Exit code:  "@, exit_code);
    let command = seq!["Command:    "@ + command_display::command_line(text::texts(s.command@))];
    let l8 = l7 + command;
    let l9 = l8 + known("Profile:    "@, text::opt_text(s.profile));
    let two = seq!["Workdir:    "@ + paths::shown(s.workdir@), "Network:    "@ + s.network@];
    let l11 = l9 + two;
    let l12 = l11 + known("Rollback:   "@, text::opt_text(s.rollback_session));
    let file = seq!["File:       "@ + paths::shown(session_file)];
    assert(event_log::lines_text(l1) =~= line("Session:    "@, s.session_id@)) by {
        lemma_one_line("Session:    "@, s.session_id@);
    }
    lemma_known_lines(l1, "Name:       "@, text::opt_text(s.name));
    assert(l2 + four =~= l2.push(four[0]).push(four[1]).push(four[2]).push(four[3]));
    lemma_more_lines(l2, "Status:     "@, session::status_name(s.status));
    lemma_more_lines(
        l2.push(four[0]),
        "Attached:   "@,
        session::attachment_name(s.attachment),
    );
    lemma_more_lines(
        l2.push(four[0]).push(four[1]),
        "PID:        "@,
        numbers::decimal(s.child_pid as nat) + " (supervisor: "@ + numbers::decimal(
            s.supervisor_pid as nat,
        ) + ")"@,
    );
    lemma_more_lines(
        l2.push(four[0]).push(four[1]).push(four[2]),
        "Started:    "@,
        s.started@,
    );
    lemma_known_lines(l6, "Exit code:  "@, exit_code);
    assert(l8 =~= l7.push(command[0]));
    lemma_more_lines(
        l7,
        "Command:    "@,
        command_display::command_line(text::texts(s.command@)),
    );
    lemma_known_lines(l8, "Profile:    "@, text::opt_text(s.profile));
    assert(l11 =~= l9.push(two[0]).push(two[1]));
    lemma_more_lines(l9, "Workdir:    "@, paths::shown(s.workdir@));
    lemma_more_lines(l9.push(two[0]), "Network:    "@, s.network@);
    lemma_known_lines(l11, "Rollback:   "@, text::opt_text(s.rollback_session));
    assert(l12 + file =~= l12.push(file[0]));
    lemma_more_lines(l12, "File:       "@, paths::shown(session_file));
}

proof fn lemma_one_line(label: Seq<char>, value: Seq<char>)
    ensures
        event_log::lines_text(seq![label + value]) == line(label, value),
{
    let l = seq![label + value];
    assert(l.drop_last() =~= Seq::empty());
    reveal_with_fuel(event_log::lines_text, 2);
    assert(event_log::lines_text(l) =~= line(label, value));
}

proof fn lemma_more_lines(lines: Seq<Seq<char>>, label: Seq<char>, value: Seq<char>)
    ensures
        event_log::lines_text(lines.push(label + value)) == event_log::lines_text(lines) + line(
            label,
            value,
        ),
{
    assert(lines.push(label + value).drop_last() =~= lines);
    assert(event_log::lines_text(lines.push(label + value)) =~= event_log::lines_text(lines)
        + line(label, value));
}

proof fn lemma_known_lines(lines: Seq<Seq<char>>, label: Seq<char>, value: Option<Seq<char>>)
    ensures
        event_log::lines_text(
            lines + (match value {
                Some(v) => seq![label + v],
                None => Seq::<Seq<char>>::empty(),
            }),
        ) == event_log::lines_text(lines) + opt_line(label, value),
{
    match value {
        Some(v) => {
            assert(lines + seq![label + v] =~= lines.push(label + v));
            lemma_more_lines(lines, label, v);
        },
        None => {
            assert(lines + Seq::<Seq<char>>::empty() =~= lines);
            assert(event_log::lines_text(lines) + Seq::<char>::empty() =~= event_log::lines_text(
                lines,
            ));
        },
    }
}

/// The events stand below the session under a heading, which says how many of the last ones were
/// asked for, if that was said; where there are none that is said. Without events asked for there
/// is no such section.
pub proof fn law_events_stand_below_the_session(
    s: SessionRecord,
    session_file: Seq<u8>,
    lines: Seq<Seq<char>>,
    tail: Option<usize>,
)
    ensures
        inspect_text(s, session_file, None, tail) == session_lines(s, session_file),
        inspect_text(s, session_file, Some(lines), tail) == session_lines(s, session_file)
            + event_lines(lines, tail),
        tail is None && lines.len() > 0 ==> event_lines(lines, tail) == "\nEVENTS:\n"@
            + event_log::lines_text(lines),
        tail is None && lines.len() == 0 ==> event_lines(lines, tail) == "\nEVENTS:\n"@
            + "  (no events recorded)\n"@,
        tail is Some && lines.len() > 0 ==> event_lines(lines, tail) == "\nEVENTS (last "@
            + numbers::decimal(tail->0 as nat) + "):\n"@ + event_log::lines_text(lines),
        tail is Some && lines.len() == 0 ==> event_lines(lines, tail) == "\nEVENTS (last "@
            + numbers::decimal(tail->0 as nat) + "):\n"@ + "  (no events recorded)\n"@,
{
}

/// JSON is printed exactly when it is asked for: the document or one field of it, with a line break
/// behind it. Else the text for people is printed.
pub proof fn law_inspect_prints_what_is_asked_for(
    s: SessionRecord,
    record: Seq<char>,
    session_file: Seq<u8>,
    events: Option<Seq<Seq<char>>>,
    args: InspectArgs,
)
    ensures
        !args.json ==> inspect_output(s, record, session_file, events, args) == Ok::<
            Seq<char>,
            ErrorView,
        >(inspect_text(s, session_file, events, args.logs_tail)),
        args.json && args.field is None && args.compact ==> inspect_output(
            s,
            record,
            session_file,
            events,
            args,
        ) == Ok::<Seq<char>, ErrorView>(inspect_json(record, session_file, events) + "\n"@),
        args.json && args.field is Some ==> (match field_extract::field_output(
            inspect_json(record, session_file, events),
            args.field->0@,
            args.compact,
        ) {
            Ok(out) => inspect_output(s, record, session_file, events, args) == Ok::<
                Seq<char>,
                ErrorView,
            >(out + "\n"@),
            Err(e) => inspect_output(s, record, session_file, events, args) == Err::<
                Seq<char>,
                ErrorView,
            >(e),
        }),
{
}

/// A field of the record alone is printed on a line of its own.
pub proof fn law_fields_are_printed_on_lines(record: Seq<char>, field: Seq<char>, compact: bool)
    ensures
        record_field_output(record, field, compact) is Ok <==> field_extract::field_output(
            record,
            field,
            compact,
        ) is Ok,
        record_field_output(record, field, compact) matches Ok(out) ==> out
            == field_extract::field_output(record, field, compact)->Ok_0 + "\n"@,
        record_field_output(record, field, compact) matches Err(e) ==> Err::<Seq<char>, ErrorView>(e)
            == field_extract::field_output(record, field, compact),
{
}

/// The document of a session with its events holds the record and every event, each under its
/// number.
pub proof fn law_inspected_documents_keep_the_record(
    document: Seq<char>,
    record: Seq<char>,
    lines: Seq<Seq<char>>,
    i: int,
)
    requires
        keeps_record(document, record, Some(lines)),
    ensures
        json::pointed_json(document, json::pointer_to("session"@)) == Some(record),
        0 <= i < lines.len() ==> json::pointed_json(
            document,
            json::pointer_to("events"@) + (seq!['/'] + numbers::decimal(i as nat)),
        ) == Some(event_log::event_json(lines[i])),
{
}

/// Without events the document of a session is the record, where every other key than the one of
/// the file finds what it finds in the record.
pub proof fn law_inspected_records_keep_their_keys(
    document: Seq<char>,
    record: Seq<char>,
    key: Seq<char>,
)
    requires
        keeps_record(document, record, None),
        key != "session_file"@,
    ensures
        json::pointed_json(document, json::pointer_to(key)) == json::pointed_json(
            record,
            json::pointer_to(key),
        ),
{
}

/// The document of a session is the record with the file put into it, or, with events, an object of
/// the events, the record and the file.
pub proof fn law_inspected_documents(
    record: Seq<char>,
    session_file: Seq<u8>,
    lines: Seq<Seq<char>>,
)
    ensures
        inspect_json(record, session_file, None) == json::with_member(
            record,
            "session_file"@,
            json::quoted_json(paths::shown(session_file)),
        ),
        inspect_json(record, session_file, Some(lines)) == "{"@ + (json::quoted_json("events"@)
            + ":"@ + event_log::events_json(lines) + ","@ + (json::quoted_json("session"@) + ":"@
            + record) + ","@ + (json::quoted_json("session_file"@) + ":"@ + json::quoted_json(
            paths::shown(session_file),
        ))) + "}"@,
{
    let a = json::quoted_json("events"@) + ":"@ + event_log::events_json(lines);
    let b = json::quoted_json("session"@) + ":"@ + record;
    let c = json::quoted_json("session_file"@) + ":"@ + json::quoted_json(
        paths::shown(session_file),
    );
    reveal_with_fuel(text::joined, 3);
    assert(seq![a, b, c].drop_last() =~= seq![a, b]);
    assert(seq![a, b].drop_last() =~= seq![a]);
}

} // verus!
