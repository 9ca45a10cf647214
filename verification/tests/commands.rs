use nono_cli::cli::{DryRunSchemaArgs, InspectArgs, PruneArgs};
use nono_cli::clock::{
    format_uptime_at, format_watch_banner, seconds_between, uptime_label, Instant, TimeOfDay,
};
use nono_cli::duration::parse_duration_to_secs;
use nono_cli::error::NonoError;
use nono_cli::event_log::{
    events_value, no_log_message, render_event_log, render_lines, EventTail,
};
use nono_cli::field_extract::extract_field_output;
use nono_cli::inspect::{inspect_value, render_inspect, report_inspect};
use nono_cli::lifecycle::{
    attach_outcome, attach_step, check_stop, detach_step, first_signal, reject_if_sandboxed,
    signal_failed, stop_step, AttachStep, DetachStep, StopSignal, StopStep,
};
use nono_cli::prune::{
    after_reply, age_floor, age_suffices, may_remove, plan_prune, prompt, prompt_failed,
    prune_gate, prune_report, removal_line, removal_step, removal_steps, reply_failed,
    report_value, select_removals, session_file_names, Output, PruneGate, RemovalStep, ABORTED,
};
use nono_cli::ps_filter::clock_before_epoch;
use nono_cli::schema_cmd::{
    extract_schema_field, plan_dry_run_schema, schema_print_failed, schema_write_failed,
    SchemaAction, DRY_RUN_JSON_SCHEMA,
};
use nono_cli::session::{SessionAttachment, SessionRecord, SessionStatus};

fn record(id: &str, started: &str, status: SessionStatus) -> SessionRecord {
    SessionRecord {
        session_id: id.to_string(),
        name: None,
        supervisor_pid: 77,
        child_pid: 78,
        started: started.to_string(),
        started_epoch: 0,
        status,
        attachment: SessionAttachment::Attached,
        exit_code: None,
        command: vec!["sh".to_string()],
        profile: None,
        workdir: b"/w".to_vec(),
        network: "open".to_string(),
        rollback_session: None,
    }
}

fn prune_args() -> PruneArgs {
    PruneArgs {
        dry_run: false,
        age: None,
        older_than: None,
        keep: None,
        json: false,
        compact: true,
        interactive: false,
    }
}

/// 2026-05-01T00:00:00Z.
const MAY: i64 = 1_777_593_600;

fn at(secs: i64) -> Instant {
    Instant { secs, nanos: 0 }
}

#[test]
fn durations_name_what_is_wrong() {
    let message = |input: &str| parse_duration_to_secs(input).expect_err("error").message();
    assert_eq!(message(" "), "duration must not be empty");
    assert_eq!(
        message(" 30 "),
        "duration `30` is missing a unit suffix (s/m/h/d/w)"
    );
    assert_eq!(
        message("5y"),
        "duration `5y` has unknown unit `y` (expected s/m/h/d/w)"
    );
    assert_eq!(message("h"), "duration `h` is missing a numeric prefix");
    assert_eq!(message("abch"), "duration `abch` has non-numeric prefix");
    assert_eq!(message("1h30m"), "duration `1h30m` has non-numeric prefix");
    assert_eq!(message("0s"), "duration must be greater than zero");
    assert_eq!(
        message("18446744073709551615w"),
        "duration `18446744073709551615w` overflows u64 seconds"
    );
    assert_eq!(
        message("18446744073709551616s"),
        "duration `18446744073709551616s` has non-numeric prefix"
    );
    assert_eq!(message("5é"), "duration `5é` is missing a unit suffix (s/m/h/d/w)");
    assert_eq!(
        parse_duration_to_secs("18446744073709551615s").expect("max"),
        u64::MAX
    );
    assert_eq!(parse_duration_to_secs("\t+2W ").expect("2W"), 1_209_600);
}

#[test]
fn uptime_uses_the_largest_unit() {
    assert_eq!(uptime_label(-5), "0s");
    assert_eq!(uptime_label(0), "0s");
    assert_eq!(uptime_label(59), "59s");
    assert_eq!(uptime_label(60), "1m");
    assert_eq!(uptime_label(3599), "59m");
    assert_eq!(uptime_label(3600), "1h");
    assert_eq!(uptime_label(86_399), "23h");
    assert_eq!(uptime_label(86_400), "1d");
    assert_eq!(uptime_label(864_000), "10d");
}

#[test]
fn uptime_is_counted_between_instants() {
    let started = "2026-04-30T22:00:00+00:00";
    assert_eq!(format_uptime_at(started, at(MAY)), "2h");
    assert_eq!(format_uptime_at(started, at(MAY - 7200)), "0s");
    assert_eq!(format_uptime_at(started, at(MAY - 10_000)), "0s");
    assert_eq!(
        format_uptime_at("2026-05-01T01:59:59.5+02:00", at(MAY + 30)),
        "30s",
        "whole seconds only"
    );
    assert_eq!(
        format_uptime_at("2026-04-30T23:59:60Z", at(MAY + 60)),
        "1m",
        "a leap second"
    );
    assert_eq!(format_uptime_at("30 April", at(MAY)), "-");
}

#[test]
fn banner_shows_leap_seconds() {
    assert_eq!(
        format_watch_banner(
            TimeOfDay {
                secs: 86_399,
                nanos: 1_500_000_000
            },
            90
        ),
        "nono ps  -  refreshed 23:59:60  (every 90s)"
    );
    assert_eq!(
        format_watch_banner(TimeOfDay { secs: 3661, nanos: 7 }, 1),
        "nono ps  -  refreshed 01:01:01  (every 1s)"
    );
}

#[test]
fn commands_are_refused_inside_a_sandbox() {
    assert!(reject_if_sandboxed("stop", false).is_ok());
    assert_eq!(
        reject_if_sandboxed("stop", true).expect_err("refused").message(),
        "`nono stop` cannot be used inside a sandbox."
    );
}

#[test]
fn stopping_checks_the_session_first() {
    let exited = record("s1", "x", SessionStatus::Exited);
    assert_eq!(
        check_stop(&exited, true).expect_err("exited").message(),
        "Session s1 is already exited"
    );
    let running = record("s1", "x", SessionStatus::Running);
    assert_eq!(
        check_stop(&running, false).expect_err("gone").message(),
        "Session s1 supervisor (PID 77) is no longer running"
    );
    assert!(check_stop(&running, true).is_ok());
    assert!(check_stop(&record("s1", "x", SessionStatus::Paused), true).is_ok());
}

#[test]
fn stopping_waits_until_the_deadline() {
    let s = record("s1", "x", SessionStatus::Running);
    assert_eq!(first_signal(true), StopSignal::Kill);
    assert_eq!(first_signal(false), StopSignal::Term);
    assert_eq!(
        stop_step(&s, true, true, false),
        StopStep::Done("Stopped session s1.".to_string())
    );
    assert_eq!(stop_step(&s, false, true, false), StopStep::Wait);
    assert_eq!(
        stop_step(&s, false, false, true),
        StopStep::Done("Stopped session s1.".to_string())
    );
    assert_eq!(
        stop_step(&s, false, true, true),
        StopStep::KillAndDone("Stopped session s1 (forced).".to_string())
    );
    assert_eq!(
        signal_failed(StopSignal::Term, "EPERM").message(),
        "Failed to send SIGTERM: EPERM"
    );
    assert_eq!(
        signal_failed(StopSignal::Kill, "EPERM").message(),
        "Failed to send SIGKILL: EPERM"
    );
}

#[test]
fn detaching_needs_a_running_session() {
    let attached = record("s1", "x", SessionStatus::Running);
    assert_eq!(
        detach_step(&attached, true).expect("request"),
        DetachStep::Request("Detached session s1.".to_string())
    );
    assert_eq!(
        detach_step(&attached, false).expect_err("gone").message(),
        "Session s1 supervisor (PID 77) is no longer running"
    );
    let paused = record("s1", "x", SessionStatus::Paused);
    assert_eq!(
        detach_step(&paused, true).expect_err("paused").message(),
        "Session s1 is not running (status: Paused)"
    );
    let detached = SessionRecord {
        attachment: SessionAttachment::Detached,
        ..paused
    };
    assert_eq!(
        detach_step(&detached, false).expect("already"),
        DetachStep::Already("Session s1 is already detached.".to_string())
    );
}

#[test]
fn attaching_reports_what_is_in_the_way() {
    let exited = record("s1", "x", SessionStatus::Exited);
    assert_eq!(
        attach_step(&exited, false).expect("exited"),
        AttachStep::Exited("[nono] Session s1 has already exited.".to_string())
    );
    let failed = SessionRecord {
        exit_code: Some(-1),
        ..exited
    };
    assert_eq!(
        attach_step(&failed, true).expect("exited"),
        AttachStep::Exited("[nono] Session s1 has already exited (exit code -1).".to_string())
    );
    let running = record("s1", "x", SessionStatus::Running);
    assert!(attach_step(&running, false).is_err());
    assert_eq!(
        attach_step(&running, true).expect("attach"),
        AttachStep::Attach("[nono] Attaching to session s1...".to_string())
    );
    match attach_step(&record("s1", "x", SessionStatus::Paused), true).expect("paused") {
        AttachStep::Refuse(said, error) => {
            assert_eq!(said, "[nono] Attaching to session s1...");
            assert_eq!(
                error.message(),
                "Session s1 is paused/stopped and cannot accept attach"
            );
        }
        other => panic!("expected a refusal, got {other:?}"),
    }
}

#[test]
fn busy_and_vanished_sessions_are_no_errors() {
    let s = record("s1", "x", SessionStatus::Running);
    assert_eq!(attach_outcome(&s, Ok(())).expect("fine"), None);
    assert_eq!(
        attach_outcome(&s, Err(NonoError::AttachBusy)).expect("busy"),
        Some("[nono] Session s1 already has an active attached client.".to_string())
    );
    assert_eq!(
        attach_outcome(&s, Err(NonoError::SessionGone)).expect("gone"),
        Some("[nono] Session s1 exited before attach could complete.".to_string())
    );
    let other = NonoError::ConfigParse("x".to_string());
    assert_eq!(
        attach_outcome(&s, Err(other.duplicate())).expect_err("other"),
        other
    );
}

#[test]
fn event_tail_keeps_the_last_lines() {
    let feed = |limit: Option<usize>| {
        let mut tail = EventTail::new(limit);
        for line in ["a", "b", "c"] {
            tail.push(line.to_string());
        }
        tail.into_lines()
    };
    assert_eq!(feed(None), vec!["a", "b", "c"]);
    assert_eq!(feed(Some(2)), vec!["b", "c"]);
    assert_eq!(feed(Some(1)), vec!["c"]);
    assert_eq!(feed(Some(5)), vec!["a", "b", "c"]);
    assert_eq!(feed(Some(0)), vec!["a", "b", "c"]);
}

#[test]
fn events_are_documents_or_strings() {
    let lines = vec!["{\"k\": 1}".to_string(), "not json".to_string()];
    assert_eq!(
        serde_json::to_string(&events_value(&lines)).expect("array"),
        "[{\"k\":1},\"not json\"]"
    );
    assert_eq!(
        render_event_log(&lines, true).expect("json"),
        "[\n  {\n    \"k\": 1\n  },\n  \"not json\"\n]\n"
    );
    assert_eq!(
        render_event_log(&lines, false).expect("lines"),
        "{\"k\": 1}\nnot json\n"
    );
    assert_eq!(render_lines(&Vec::new()), "");
    assert_eq!(
        serde_json::to_string(&events_value(&Vec::new())).expect("array"),
        "[]"
    );
}

#[test]
fn inspect_shows_what_there_is() {
    let bare = record("s1", "then", SessionStatus::Running);
    assert_eq!(
        render_inspect(&bare, b"/s/s1.json", &None, None),
        "Session:    s1\nStatus:     Running\nAttached:   Attached\nPID:        78 (supervisor: 77)\nStarted:    then\nCommand:    sh\nWorkdir:    /w\nNetwork:    open\nFile:       /s/s1.json\n"
    );
    let full = SessionRecord {
        name: Some("n".to_string()),
        attachment: SessionAttachment::Detached,
        exit_code: Some(2),
        profile: Some("p".to_string()),
        rollback_session: Some("r".to_string()),
        ..record("s1", "then", SessionStatus::Exited)
    };
    assert_eq!(
        render_inspect(
            &full,
            b"/s/s1.json",
            &Some(vec!["{}".to_string()]),
            Some(3)
        ),
        "Session:    s1\nName:       n\nStatus:     Exited\nAttached:   Detached\nPID:        78 (supervisor: 77)\nStarted:    then\nExit code:  2\nCommand:    sh\nProfile:    p\nWorkdir:    /w\nNetwork:    open\nRollback:   r\nFile:       /s/s1.json\n\nEVENTS (last 3):\n{}\n"
    );
    let out = render_inspect(&bare, b"/s/s1.json", &Some(Vec::new()), None);
    assert!(out.ends_with("File:       /s/s1.json\n\nEVENTS:\n  (no events recorded)\n"));
}

#[test]
fn inspect_documents_name_the_session_file() {
    let value: serde_json::Value =
        serde_json::from_str("{\"session_id\": \"s1\"}").expect("object");
    let plain = inspect_value(value.clone(), b"/s/s1.json", &None);
    assert_eq!(
        serde_json::to_string(&plain).expect("json"),
        "{\"session_file\":\"/s/s1.json\",\"session_id\":\"s1\"}"
    );
    let events = Some(vec!["1".to_string(), "x".to_string()]);
    let full = inspect_value(value, b"/s/s1.json", &events);
    assert_eq!(
        serde_json::to_string(&full).expect("json"),
        "{\"events\":[1,\"x\"],\"session\":{\"session_id\":\"s1\"},\"session_file\":\"/s/s1.json\"}"
    );
    for document in [&plain, &full] {
        assert_eq!(
            extract_field_output(document, "session_file", false).expect("field"),
            "/s/s1.json"
        );
    }
    let array: serde_json::Value = serde_json::from_str("[1]").expect("array");
    let unchanged = inspect_value(array, b"/s/s1.json", &None);
    assert_eq!(serde_json::to_string(&unchanged).expect("json"), "[1]");
}

#[test]
fn inspect_documents_keep_the_record() {
    let record = || -> serde_json::Value {
        serde_json::from_str("{\"a\": {\"b\": [1, 2]}, \"k/l\": null, \"zz\": \"s\"}")
            .expect("object")
    };
    let plain = inspect_value(record(), b"/f", &None);
    for field in ["a", "/a/b/1", "k/l", "zz"] {
        assert_eq!(
            extract_field_output(&plain, field, true).expect("kept"),
            extract_field_output(&record(), field, true).expect("there")
        );
    }
    let events = Some(vec!["{\"k\": [7]}".to_string(), "text".to_string()]);
    let full = inspect_value(record(), b"/f", &events);
    assert_eq!(
        extract_field_output(&full, "/events/0/k/0", true).expect("event"),
        "7"
    );
    assert_eq!(
        extract_field_output(&full, "/events/1", true).expect("event"),
        "text"
    );
    assert!(extract_field_output(&full, "/events/2", true).is_err());
    assert_eq!(
        extract_field_output(&full, "/session/a/b/1", true).expect("below"),
        "2"
    );
    assert_eq!(
        extract_field_output(&full, "session", true).expect("record"),
        serde_json::to_string(&record()).expect("json")
    );
}

#[test]
fn prune_resolves_the_minimum_age() {
    assert_eq!(age_floor(&prune_args()).expect("none"), None);
    let by_age = PruneArgs {
        age: Some("2d".to_string()),
        ..prune_args()
    };
    assert_eq!(age_floor(&by_age).expect("age"), Some(172_800));
    let by_days = PruneArgs {
        older_than: Some(3),
        ..prune_args()
    };
    assert_eq!(age_floor(&by_days).expect("days"), Some(259_200));
    let huge = PruneArgs {
        older_than: Some(u64::MAX),
        ..prune_args()
    };
    assert_eq!(age_floor(&huge).expect("days"), Some(u64::MAX));
    let bad = PruneArgs {
        age: Some("2".to_string()),
        ..prune_args()
    };
    assert!(age_floor(&bad).is_err());
}

#[test]
fn prune_compares_ages_as_numbers() {
    assert!(age_suffices(None, None));
    assert!(age_suffices(Some(10), Some(10)));
    assert!(!age_suffices(Some(9), Some(10)));
    assert!(!age_suffices(None, Some(0)));
    assert!(age_suffices(Some(0), Some(0)));
    assert!(!age_suffices(Some(-1), Some(0)), "started after now");
    assert!(age_suffices(Some(i64::MAX), Some(i64::MAX as u64)));
    assert!(!age_suffices(Some(i64::MAX - 1), Some(i64::MAX as u64)));
    assert!(!age_suffices(Some(i64::MAX), Some(i64::MAX as u64 + 1)));
    assert!(!age_suffices(Some(3600), Some(u64::MAX)));
}

#[test]
fn prune_with_the_largest_age_removes_nothing() {
    let sessions = vec![record("a", "2026-04-30T23:00:00Z", SessionStatus::Exited)];
    let args = PruneArgs {
        older_than: Some(u64::MAX),
        ..prune_args()
    };
    let plan = plan_prune(&sessions, &args, at(MAY), false).expect("plan");
    assert!(plan.removals.is_empty());
    assert!(matches!(plan.gate, PruneGate::Nothing(_)));
}

#[test]
fn prune_spares_running_and_young_sessions() {
    let old = "2026-04-29T00:00:00Z";
    let young = "2026-04-30T23:59:00Z";
    let now = at(MAY);
    assert!(may_remove(&record("a", old, SessionStatus::Exited), Some(3600), now));
    assert!(may_remove(&record("a", old, SessionStatus::Paused), Some(3600), now));
    assert!(!may_remove(&record("a", old, SessionStatus::Running), None, now));
    assert!(!may_remove(&record("a", young, SessionStatus::Exited), Some(3600), now));
    assert!(may_remove(&record("a", young, SessionStatus::Exited), Some(60), now));
    assert!(may_remove(&record("a", "?", SessionStatus::Exited), None, now));
    assert!(!may_remove(&record("a", "?", SessionStatus::Exited), Some(1), now));
}

#[test]
fn prune_keeps_the_newest() {
    let started = "2026-04-29T00:00:00Z";
    let sessions = vec![
        record("new", started, SessionStatus::Exited),
        record("live", started, SessionStatus::Running),
        record("mid", started, SessionStatus::Exited),
        record("old", started, SessionStatus::Exited),
    ];
    let ids = |keep: Option<usize>| -> Vec<String> {
        select_removals(&sessions, None, keep, at(MAY))
            .iter()
            .map(|s| s.session_id.clone())
            .collect()
    };
    assert_eq!(ids(None), vec!["new", "mid", "old"]);
    assert_eq!(ids(Some(0)), vec!["new", "mid", "old"]);
    assert_eq!(ids(Some(1)), vec!["mid", "old"]);
    assert_eq!(ids(Some(3)), Vec::<String>::new());
    assert_eq!(ids(Some(9)), Vec::<String>::new());
}

#[test]
fn prune_reports_have_one_shape() {
    let a = record("a", "t1", SessionStatus::Exited);
    let b = record("b", "t\"2", SessionStatus::Exited);
    assert_eq!(
        serde_json::to_string(&report_value(&vec![&a, &b], false)).expect("json"),
        "{\"action\":\"removed\",\"count\":2,\"sessions\":[{\"session_id\":\"a\",\"started\":\"t1\"},{\"session_id\":\"b\",\"started\":\"t\\\"2\"}]}"
    );
    assert_eq!(
        serde_json::to_string(&report_value(&vec![], true)).expect("json"),
        "{\"action\":\"would-remove\",\"count\":0,\"sessions\":[]}"
    );
}

#[test]
fn prune_asks_before_it_removes() {
    let a = record("a", "t1", SessionStatus::Exited);
    let args = prune_args();
    assert_eq!(
        prune_gate(&vec![], &args, true).expect("nothing"),
        PruneGate::Nothing(Output::Stderr("Nothing to prune.\n".to_string()))
    );
    assert_eq!(
        prune_gate(&vec![&a], &args, false).expect("go"),
        PruneGate::Proceed
    );
    let json = PruneArgs {
        json: true,
        ..prune_args()
    };
    assert_eq!(
        prune_gate(&vec![], &json, false).expect("nothing"),
        PruneGate::Nothing(Output::Stdout(
            "{\"action\":\"removed\",\"count\":0,\"sessions\":[]}\n".to_string()
        ))
    );
    let interactive = PruneArgs {
        interactive: true,
        ..prune_args()
    };
    assert_eq!(
        prune_gate(&vec![&a], &interactive, true).expect("ask"),
        PruneGate::Ask(
            "The following 1 session(s) will be removed:\n  a (started t1)\n\nProceed? [y/N] "
                .to_string()
        )
    );
    assert_eq!(
        prompt(&vec![&a]),
        "The following 1 session(s) will be removed:\n  a (started t1)\n\nProceed? [y/N] "
    );
    assert_eq!(
        prune_gate(&vec![&a], &interactive, false)
            .expect_err("no terminal")
            .message(),
        "--interactive requires a TTY on stdin (no one to answer the prompt). Use --dry-run to preview without confirmation."
    );
}

#[test]
fn prune_says_what_it_did() {
    let a = record("a", "t1", SessionStatus::Exited);
    assert_eq!(
        removal_line(&a, &prune_args()).as_deref(),
        Some("Removed: a (started t1)\n")
    );
    let dry = PruneArgs {
        dry_run: true,
        ..prune_args()
    };
    assert_eq!(
        removal_line(&a, &dry).as_deref(),
        Some("Would remove: a (started t1)\n")
    );
    assert_eq!(
        prune_report(&vec![&a], &prune_args()).expect("report"),
        Output::Stderr("\nPruned 1 session(s).\n".to_string())
    );
    assert_eq!(
        prune_report(&vec![&a], &dry).expect("report"),
        Output::Stderr("\nWould prune 1 session(s).\n".to_string())
    );
    let json = PruneArgs { json: true, ..dry };
    assert_eq!(removal_line(&a, &json), None);
    assert_eq!(
        prune_report(&vec![&a], &json).expect("report"),
        Output::Stdout(
            "{\"action\":\"would-remove\",\"count\":1,\"sessions\":[{\"session_id\":\"a\",\"started\":\"t1\"}]}\n"
                .to_string()
        )
    );
    assert_eq!(
        session_file_names("a"),
        ("a.json".to_string(), "a.events.ndjson".to_string())
    );
}

#[test]
fn prune_removes_nothing_without_leave() {
    let a = record("a", "t1", SessionStatus::Exited);
    let b = record("b", "t2", SessionStatus::Exited);
    let records = vec![&a, &b];
    let dry = PruneArgs {
        dry_run: true,
        ..prune_args()
    };
    assert_eq!(
        removal_step(&a, &prune_args()),
        RemovalStep {
            files: Some(("a.json".to_string(), "a.events.ndjson".to_string())),
            line: Some("Removed: a (started t1)\n".to_string()),
        }
    );
    let steps = removal_steps(&records, &PruneGate::Proceed, &prune_args());
    assert_eq!(steps.len(), 2);
    assert!(steps.iter().all(|s| s.files.is_some()));
    let steps = removal_steps(&records, &PruneGate::Proceed, &dry);
    assert_eq!(steps.len(), 2);
    assert!(steps.iter().all(|s| s.files.is_none()));
    assert_eq!(
        steps[1].line.as_deref(),
        Some("Would remove: b (started t2)\n")
    );
    assert_eq!(after_reply(" Yes\n"), PruneGate::Proceed);
    for refusal in ["", "n", "yep"] {
        let gate = after_reply(refusal);
        assert_eq!(
            gate,
            PruneGate::Nothing(Output::Stderr(ABORTED.to_string()))
        );
        assert!(removal_steps(&records, &gate, &prune_args()).is_empty());
    }
    let asked = PruneGate::Ask(String::new());
    assert!(removal_steps(&records, &asked, &prune_args()).is_empty());
}

#[test]
fn schema_goes_where_it_is_asked_to() {
    let args = DryRunSchemaArgs {
        output: Some(b"/tmp/s.json".to_vec()),
        field: None,
        compact: false,
    };
    assert_eq!(
        plan_dry_run_schema(&args).expect("write"),
        SchemaAction::WriteFile {
            path: b"/tmp/s.json".to_vec(),
            text: DRY_RUN_JSON_SCHEMA.to_string(),
            confirmation: "Schema written to /tmp/s.json".to_string()
        }
    );
    let args = DryRunSchemaArgs {
        field: Some("title".to_string()),
        ..args
    };
    assert_eq!(
        plan_dry_run_schema(&args).expect("field"),
        SchemaAction::PrintLine("nono --dry-run-json output".to_string())
    );
    let args = DryRunSchemaArgs {
        output: None,
        field: None,
        compact: false,
    };
    assert_eq!(
        plan_dry_run_schema(&args).expect("print"),
        SchemaAction::PrintText(DRY_RUN_JSON_SCHEMA.to_string())
    );
    let args = DryRunSchemaArgs {
        field: Some("nothing".to_string()),
        ..args
    };
    assert!(plan_dry_run_schema(&args).is_err());
}

#[test]
fn schema_fields_are_extracted() {
    assert_eq!(
        extract_schema_field("/properties/schema_version/const", false).expect("const"),
        "1"
    );
    assert_eq!(
        extract_schema_field("/properties/ipc_mode", true).expect("object"),
        "{\"description\":\"IPC isolation mode.\"}"
    );
    assert_eq!(
        schema_write_failed(b"/x", "full").message(),
        "Failed to write schema to /x: full"
    );
    assert_eq!(
        schema_print_failed("closed").message(),
        "Failed to write schema to stdout: closed"
    );
}

#[test]
fn errors_have_messages() {
    assert_eq!(
        NonoError::ConfigRead {
            path: b"/x".to_vec(),
            source: "gone".to_string()
        }
        .message(),
        "Failed to read /x: gone"
    );
    assert_eq!(
        NonoError::AttachBusy.message(),
        "session already has an attached client"
    );
    assert_eq!(NonoError::SessionGone.message(), "session is gone");
}

#[test]
fn instants_are_on_the_calendar() {
    assert_eq!(Instant::new(0, 0), Some(at(0)));
    assert!(Instant::new(59, 1_000_000_000).is_some(), "a leap second");
    assert!(Instant::new(58, 1_000_000_000).is_none());
    assert!(Instant::new(-1, 1_999_999_999).is_some());
    assert!(Instant::new(59, 2_000_000_000).is_none());
    assert!(Instant::new(i64::MAX, 0).is_none());
    assert!(Instant::new(8_210_266_876_799, 0).is_some());
    assert!(Instant::new(8_210_266_876_800, 0).is_none());
    assert!(TimeOfDay::new(86_399, 999_999_999).is_some());
    assert!(TimeOfDay::new(86_400, 0).is_none());
    assert!(TimeOfDay::new(60, 1_000_000_000).is_none());
}

#[test]
fn leap_seconds_count_at_either_end() {
    let instant = |secs: i64, nanos: u32| Instant::new(secs, nanos).expect("instant");
    let leap = instant(59, 1_500_000_000);
    assert_eq!(seconds_between(leap, instant(59, 0)), 1);
    assert_eq!(seconds_between(leap, instant(0, 0)), 60);
    assert_eq!(seconds_between(instant(60, 0), leap), 0);
    assert_eq!(seconds_between(instant(61, 0), leap), 1);
    assert_eq!(seconds_between(instant(0, 0), leap), -60);
    let same_time = instant(59 + 86_400, 1_500_000_000);
    assert_eq!(seconds_between(same_time, leap), 86_400);
    let earlier_time = instant(86_400 + 10, 0);
    assert_eq!(seconds_between(earlier_time, leap), 86_349);
}

#[test]
fn elapsed_seconds_are_rounded_toward_zero() {
    let early = Instant {
        secs: 10,
        nanos: 900_000_000,
    };
    let late = Instant {
        secs: 12,
        nanos: 100_000_000,
    };
    assert_eq!(seconds_between(late, early), 1);
    assert_eq!(seconds_between(early, late), -1);
    assert_eq!(seconds_between(early, early), 0);
    let last = Instant {
        secs: 8_210_266_876_799,
        nanos: 999_999_999,
    };
    let first = Instant {
        secs: -62_167_305_540,
        nanos: 0,
    };
    assert_eq!(
        seconds_between(last, first),
        8_210_266_876_799 + 62_167_305_540
    );
}

#[test]
fn other_messages_are_spelled_out() {
    assert_eq!(
        no_log_message("s1"),
        "No event log recorded for session s1."
    );
    assert_eq!(ABORTED, "Aborted; nothing removed.\n");
    assert_eq!(
        prompt_failed("x").message(),
        "Failed to flush prompt: x"
    );
    assert_eq!(
        reply_failed("x").message(),
        "Failed to read confirmation: x"
    );
    assert_eq!(
        clock_before_epoch("x").message(),
        "system time before UNIX epoch: x"
    );
}

#[test]
fn inspect_prints_a_document_a_field_or_text() {
    let r = record("s1", "then", SessionStatus::Running);
    let document = || -> serde_json::Value {
        serde_json::from_str("{\"session_id\": \"s1\"}").expect("object")
    };
    let args = InspectArgs {
        session: "s1".to_string(),
        json: true,
        compact: true,
        field: None,
        events: false,
        logs_tail: None,
    };
    assert_eq!(
        report_inspect(&r, document(), b"/f", &None, &args).expect("json"),
        "{\"session_file\":\"/f\",\"session_id\":\"s1\"}\n"
    );
    let field = InspectArgs {
        field: Some("session_id".to_string()),
        ..args.clone()
    };
    assert_eq!(
        report_inspect(&r, document(), b"/f", &None, &field).expect("field"),
        "s1\n"
    );
    let missing = InspectArgs {
        field: Some("x".to_string()),
        ..args.clone()
    };
    assert!(report_inspect(&r, document(), b"/f", &None, &missing).is_err());
    let text = InspectArgs {
        json: false,
        ..missing
    };
    assert_eq!(
        report_inspect(&r, document(), b"/f", &None, &text).expect("text"),
        render_inspect(&r, b"/f", &None, None)
    );
}

#[test]
fn prune_plans_are_made_in_one_step() {
    let sessions = vec![
        record("a", "2026-04-30T00:00:00Z", SessionStatus::Exited),
        record("b", "2026-04-01T00:00:00Z", SessionStatus::Exited),
    ];
    let args = PruneArgs {
        older_than: Some(7),
        ..prune_args()
    };
    let plan = plan_prune(&sessions, &args, at(MAY), true).expect("plan");
    assert_eq!(plan.removals.len(), 1);
    assert_eq!(plan.removals[0].session_id, "b");
    assert_eq!(plan.gate, PruneGate::Proceed);
    let args = PruneArgs {
        keep: Some(1),
        ..args
    };
    let plan = plan_prune(&sessions, &args, at(MAY), true).expect("plan");
    assert!(plan.removals.is_empty());
    assert!(matches!(plan.gate, PruneGate::Nothing(_)));
    let bad = PruneArgs {
        age: Some("soon".to_string()),
        ..prune_args()
    };
    assert!(plan_prune(&sessions, &bad, at(MAY), true).is_err());
}
