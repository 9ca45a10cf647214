use nono_cli::cli::{PsArgs, PsColumn, PsHeaderFormat, PsOutputFormat, PsSortBy};
use nono_cli::command_display::{format_command_line, shell_quote, truncate_command};
use nono_cli::ps_filter::{lowered_name_passes, ps_matches, since_threshold};
use nono_cli::ps_order::{select_sessions, sort_sessions, status_rank};
use nono_cli::ps_report::{
    after_frame, before_frames, plan_ps, ps_output_mode, render_short_table, render_table,
    resolve_columns, PsOutputMode, WatchStep, CLEAR_SCREEN,
};
use nono_cli::ps_table::{
    column_meta, format_ps_short_row, render_attach_cell, render_default_cell, render_status_cell,
    PS_SHORT_TABLE_WIDTH,
};
use nono_cli::ps_tabular::{
    csv_escape, format_ps_record, format_ps_tabular, format_ps_tabular_at, tsv_escape,
};
use nono_cli::session::{SessionAttachment, SessionRecord, SessionStatus};

fn record(id: &str, epoch: u64, status: SessionStatus) -> SessionRecord {
    SessionRecord {
        session_id: id.to_string(),
        name: None,
        supervisor_pid: 1,
        child_pid: 4242,
        started: "2026-04-30T22:00:00+00:00".to_string(),
        started_epoch: epoch,
        status,
        attachment: SessionAttachment::Detached,
        exit_code: None,
        command: vec!["echo".to_string(), "a b".to_string()],
        profile: None,
        workdir: b"/tmp".to_vec(),
        network: "blocked".to_string(),
        rollback_session: None,
    }
}

fn ps_args() -> PsArgs {
    PsArgs {
        json: false,
        all: true,
        name: None,
        profile: None,
        status: None,
        exit_code: None,
        since: None,
        sort: None,
        reverse: false,
        short: false,
        output: None,
        watch: None,
        compact: false,
        header_format: PsHeaderFormat::Ascii,
        no_truncate: false,
        columns: Vec::new(),
        field: None,
        max_iterations: None,
    }
}

fn ids(list: &[&SessionRecord]) -> Vec<String> {
    list.iter().map(|r| r.session_id.clone()).collect()
}

#[test]
fn arguments_are_quoted_for_a_shell() {
    assert_eq!(shell_quote("plain-1.txt"), "plain-1.txt");
    assert_eq!(shell_quote(""), "''");
    assert_eq!(shell_quote("a b"), "'a b'");
    assert_eq!(shell_quote("it's"), "'it'\\''s'");
    assert_eq!(
        format_command_line(&["bash".to_string(), "-c".to_string(), "echo $X".to_string()]),
        "bash -c 'echo $X'"
    );
    assert_eq!(format_command_line(&[]), "");
}

#[test]
fn commands_are_cut_at_characters() {
    let command = vec!["é".repeat(10)];
    assert_eq!(truncate_command(&command, 12), "'éééééééééé'");
    assert_eq!(truncate_command(&command, 8), "'éééé...");
    assert_eq!(truncate_command(&command, 2), "...");
}

#[test]
fn columns_have_titles_and_widths() {
    assert_eq!(column_meta(PsColumn::Session), ("SESSION", 16));
    assert_eq!(column_meta(PsColumn::Uptime), ("UPTIME", 10));
    assert_eq!(column_meta(PsColumn::Command), ("COMMAND", 0));
}

#[test]
fn status_cells_are_colored() {
    colored::control::set_override(true);
    let running = record("a", 0, SessionStatus::Running);
    assert_eq!(render_status_cell(&running, 9), "\x1b[32mrunning  \x1b[0m");
    let paused = record("a", 0, SessionStatus::Paused);
    assert_eq!(render_status_cell(&paused, 0), "\x1b[33mpaused\x1b[0m");
    let unknown = record("a", 0, SessionStatus::Exited);
    assert_eq!(
        render_status_cell(&unknown, 12),
        "\x1b[31mexited(-1)  \x1b[0m"
    );
    let success = SessionRecord {
        exit_code: Some(0),
        ..record("a", 0, SessionStatus::Exited)
    };
    assert_eq!(render_status_cell(&success, 10), "exited(0) ");
}

#[test]
fn attach_cells_are_colored() {
    colored::control::set_override(true);
    let detached = record("a", 0, SessionStatus::Running);
    assert_eq!(
        render_attach_cell(&detached, 12),
        "\x1b[33mdetached    \x1b[0m"
    );
    let attached = SessionRecord {
        attachment: SessionAttachment::Attached,
        ..record("a", 0, SessionStatus::Paused)
    };
    assert_eq!(render_attach_cell(&attached, 8), "\x1b[32mattached\x1b[0m");
    let exited = record("a", 0, SessionStatus::Exited);
    assert_eq!(render_attach_cell(&exited, 3), "-  ");
}

#[test]
fn cells_are_bare_without_colors() {
    colored::control::set_override(false);
    let r = record("abc", 0, SessionStatus::Running);
    assert_eq!(
        render_default_cell(PsColumn::Session, &r, false),
        "abc             "
    );
    assert_eq!(render_default_cell(PsColumn::Name, &r, false), "-           ");
    assert_eq!(
        render_default_cell(PsColumn::Status, &r, false),
        "running     "
    );
    assert_eq!(
        render_default_cell(PsColumn::Attach, &r, false),
        "detached    "
    );
    assert_eq!(render_default_cell(PsColumn::Pid, &r, false), "4242    ");
    assert_eq!(
        render_default_cell(PsColumn::Profile, &r, false),
        "-             "
    );
    assert_eq!(
        render_default_cell(PsColumn::Command, &r, false),
        "echo 'a b'"
    );
    let bad = SessionRecord {
        started: "yesterday".to_string(),
        ..r
    };
    assert_eq!(
        render_default_cell(PsColumn::Uptime, &bad, false),
        "-         "
    );
}

#[test]
fn short_rows_are_laid_out_in_columns() {
    let r = SessionRecord {
        name: Some("n".to_string()),
        exit_code: Some(-9),
        ..record("id", 0, SessionStatus::Exited)
    };
    assert_eq!(
        format_ps_short_row(&r, 8, false),
        "id               n            exited(-9)   echo ..."
    );
}

#[test]
fn short_table_has_a_header_as_wide_as_its_divider() {
    let r = record("id", 0, SessionStatus::Running);
    let out = render_short_table(&vec![&r], &ps_args());
    let lines: Vec<&str> = out.lines().collect();
    assert_eq!(
        lines,
        vec![
            "SESSION          NAME         STATUS       COMMAND",
            "--------------------------------------------------",
            "id               -            running      echo 'a b'",
        ]
    );
    assert_eq!(lines[0].chars().count(), PS_SHORT_TABLE_WIDTH);
    let bare = PsArgs {
        header_format: PsHeaderFormat::NoHeader,
        ..ps_args()
    };
    assert_eq!(render_short_table(&vec![&r], &bare).lines().count(), 1);
}

#[test]
fn table_follows_the_chosen_columns() {
    colored::control::set_override(false);
    let a = record("a", 0, SessionStatus::Running);
    let b = record("b", 0, SessionStatus::Paused);
    let args = PsArgs {
        columns: vec![PsColumn::Pid, PsColumn::Status],
        ..ps_args()
    };
    assert_eq!(
        render_table(&vec![&a, &b], &args),
        "PID      STATUS      \n---------------------\n4242     running     \n4242     paused      \n"
    );
    assert_eq!(resolve_columns(&args), vec![PsColumn::Pid, PsColumn::Status]);
    assert_eq!(resolve_columns(&ps_args()).len(), 8);
}

#[test]
fn rows_line_up_with_the_header() {
    colored::control::set_override(false);
    let r = SessionRecord {
        name: Some("worker".to_string()),
        profile: Some("dev".to_string()),
        ..record("a1b2", 0, SessionStatus::Paused)
    };
    let out = render_table(&vec![&r], &ps_args());
    let lines: Vec<&str> = out.lines().collect();
    for (title, cell) in [
        ("SESSION", "a1b2"),
        ("NAME", "worker"),
        ("STATUS", "paused"),
        ("PID", "4242"),
        ("PROFILE", "dev"),
        ("COMMAND", "echo"),
    ] {
        assert_eq!(lines[0].find(title), lines[2].find(cell), "{title}");
    }
    let short = render_short_table(&vec![&r], &ps_args());
    let lines: Vec<&str> = short.lines().collect();
    for (title, cell) in [("NAME", "worker"), ("STATUS", "paused"), ("COMMAND", "echo")] {
        assert_eq!(lines[0].find(title), lines[2].find(cell), "{title}");
    }
}

#[test]
fn output_modes_have_an_order_of_precedence() {
    let args = PsArgs {
        json: true,
        output: Some(PsOutputFormat::Csv),
        short: true,
        ..ps_args()
    };
    assert_eq!(ps_output_mode(&args, true), PsOutputMode::PrettyJson);
    let args = PsArgs {
        compact: true,
        ..args
    };
    assert_eq!(ps_output_mode(&args, true), PsOutputMode::CompactJson);
    let args = PsArgs {
        field: Some("/0".to_string()),
        ..args
    };
    assert_eq!(ps_output_mode(&args, false), PsOutputMode::JsonField);
    let args = PsArgs {
        json: false,
        ..args
    };
    assert_eq!(
        ps_output_mode(&args, true),
        PsOutputMode::Tabular(PsOutputFormat::Csv)
    );
    let args = PsArgs {
        output: None,
        ..args
    };
    assert_eq!(ps_output_mode(&args, true), PsOutputMode::Empty);
    assert_eq!(ps_output_mode(&args, false), PsOutputMode::Short);
    let args = PsArgs {
        short: false,
        ..args
    };
    assert_eq!(ps_output_mode(&args, false), PsOutputMode::Table);
}

#[test]
fn watching_draws_as_many_frames_as_asked() {
    assert_eq!(before_frames(None), WatchStep::Continue(None));
    assert_eq!(after_frame(None), WatchStep::Continue(None));
    assert_eq!(after_frame(Some(1)), WatchStep::Stop);
    for limit in [0, 1, 3] {
        let mut frames = 0;
        let mut step = before_frames(Some(limit));
        while let WatchStep::Continue(left) = step {
            frames += 1;
            step = after_frame(left);
        }
        assert_eq!(frames, limit);
    }
    assert_eq!(CLEAR_SCREEN, "\x1b[2J\x1b[H");
}

#[test]
fn since_is_a_threshold_before_now() {
    assert_eq!(since_threshold(&None, 100).expect("none"), None);
    assert_eq!(
        since_threshold(&Some("1m".to_string()), 100).expect("1m"),
        Some(40)
    );
    assert_eq!(
        since_threshold(&Some("1h".to_string()), 100).expect("1h"),
        Some(0),
        "not before the epoch"
    );
    assert_eq!(
        since_threshold(&Some("x".to_string()), 100)
            .expect_err("x")
            .message(),
        "duration `x` has unknown unit `x` (expected s/m/h/d/w)"
    );
}

#[test]
fn name_filter_lowers_all_letters() {
    let r = SessionRecord {
        name: Some("ÉCOLE-1".to_string()),
        ..record("a", 0, SessionStatus::Running)
    };
    let args = PsArgs {
        name: Some("École".to_string()),
        ..ps_args()
    };
    assert!(ps_matches(&r, &args, None));
    let args = PsArgs {
        name: Some("ecole".to_string()),
        ..ps_args()
    };
    assert!(!ps_matches(&r, &args, None));
    assert!(lowered_name_passes(
        &Some("abc".to_string()),
        &Some("bc".to_string())
    ));
    assert!(lowered_name_passes(&None, &None));
    assert!(!lowered_name_passes(&None, &Some(String::new())));
}

#[test]
fn sessions_are_filtered_sorted_and_reversed() {
    let sessions = vec![
        record("a", 1, SessionStatus::Exited),
        record("b", 3, SessionStatus::Running),
        record("c", 2, SessionStatus::Running),
    ];
    let args = PsArgs {
        all: false,
        sort: Some(PsSortBy::Started),
        ..ps_args()
    };
    assert_eq!(ids(&select_sessions(&sessions, &args, None)), vec!["b", "c"]);
    let args = PsArgs {
        reverse: true,
        ..args
    };
    assert_eq!(ids(&select_sessions(&sessions, &args, None)), vec!["c", "b"]);
    let args = PsArgs {
        sort: None,
        all: true,
        ..args
    };
    assert_eq!(
        ids(&select_sessions(&sessions, &args, Some(2))),
        vec!["c", "b"]
    );
    let args = PsArgs {
        sort: Some(PsSortBy::Status),
        reverse: false,
        ..args
    };
    assert_eq!(
        ids(&select_sessions(&sessions, &args, None)),
        vec!["b", "c", "a"]
    );
    assert!(status_rank(&SessionStatus::Running) < status_rank(&SessionStatus::Paused));
    assert!(status_rank(&SessionStatus::Paused) < status_rank(&SessionStatus::Exited));
}

#[test]
fn sessions_that_tie_keep_their_order() {
    let first = SessionRecord {
        child_pid: 1,
        ..record("same", 5, SessionStatus::Running)
    };
    let second = SessionRecord {
        child_pid: 2,
        ..record("same", 5, SessionStatus::Running)
    };
    let sorted = sort_sessions(vec![&first, &second], PsSortBy::Started);
    assert_eq!(sorted[0].child_pid, 1);
    let sorted = sort_sessions(vec![&second, &first], PsSortBy::Started);
    assert_eq!(sorted[0].child_pid, 2);
}

#[test]
fn names_sort_by_their_bytes() {
    let named = |id: &str, name: &str| SessionRecord {
        name: Some(name.to_string()),
        ..record(id, 0, SessionStatus::Running)
    };
    let (a, b, c) = (named("a", "é"), named("b", "z"), named("c", "Z"));
    assert_eq!(
        ids(&sort_sessions(vec![&a, &b, &c], PsSortBy::Name)),
        vec!["c", "b", "a"]
    );
    let (d, e) = (named("d", "ab"), named("e", "abc"));
    assert_eq!(
        ids(&sort_sessions(vec![&e, &d], PsSortBy::Name)),
        vec!["d", "e"]
    );
}

#[test]
fn carriage_returns_are_escaped_too() {
    assert_eq!(csv_escape("a\rb"), "\"a\rb\"");
    assert_eq!(tsv_escape("a\rb"), "a\\rb");
    assert_eq!(csv_escape(""), "");
    assert_eq!(csv_escape("\""), "\"\"\"\"");
}

#[test]
fn records_are_written_column_by_column() {
    let r = SessionRecord {
        name: Some("x,y".to_string()),
        exit_code: Some(3),
        profile: Some("p\tq".to_string()),
        ..record("id", 0, SessionStatus::Exited)
    };
    assert_eq!(
        format_ps_record(&r, "2h", PsOutputFormat::Csv),
        "id,\"x,y\",exited,3,-,4242,2h,2026-04-30T22:00:00+00:00,p\tq,blocked,echo 'a b'\n"
    );
    assert_eq!(
        format_ps_record(&r, "2h", PsOutputFormat::Tsv),
        "id\tx,y\texited\t3\t-\t4242\t2h\t2026-04-30T22:00:00+00:00\tp\\tq\tblocked\techo 'a b'\n"
    );
}

#[test]
fn tabular_output_starts_with_the_column_names() {
    let r = record("id", 0, SessionStatus::Running);
    let out = format_ps_tabular_at(
        &[&r],
        &vec!["5s".to_string()],
        PsOutputFormat::Csv,
        &Vec::new(),
    );
    assert_eq!(
        out,
        "session_id,name,status,exit_code,attach,pid,uptime,started,profile,network,command\nid,,running,,detached,4242,5s,2026-04-30T22:00:00+00:00,,blocked,echo 'a b'\n"
    );
    let empty = format_ps_tabular(&[], PsOutputFormat::Tsv, &Vec::new());
    assert_eq!(
        empty,
        "session_id\tname\tstatus\texit_code\tattach\tpid\tuptime\tstarted\tprofile\tnetwork\tcommand\n"
    );
}

#[test]
fn ndjson_skips_what_could_not_be_serialized() {
    let a = record("a", 0, SessionStatus::Running);
    let b = record("b", 0, SessionStatus::Running);
    let documents = vec![Some("{\"x\":1}".to_string()), None];
    assert_eq!(
        format_ps_tabular(&[&a, &b], PsOutputFormat::Ndjson, &documents),
        "{\"x\":1}\n"
    );
}

#[test]
fn plans_pick_sessions_and_a_form() {
    let sessions = vec![
        record("a", 100, SessionStatus::Running),
        record("b", 10, SessionStatus::Running),
    ];
    let args = PsArgs {
        since: Some("1m".to_string()),
        ..ps_args()
    };
    let plan = plan_ps(&sessions, &args, 120).expect("plan");
    assert_eq!(ids(&plan.sessions), vec!["a"]);
    assert_eq!(plan.mode, PsOutputMode::Table);
    let plan = plan_ps(&sessions, &args, 1000).expect("plan");
    assert!(plan.sessions.is_empty());
    assert_eq!(plan.mode, PsOutputMode::Empty);
    let args = PsArgs {
        since: Some("1".to_string()),
        ..ps_args()
    };
    assert!(plan_ps(&sessions, &args, 120).is_err());
}
