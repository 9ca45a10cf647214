use chrono::{TimeZone, Timelike};
use nono_cli::cli::{
    PsArgs, PsColumn, PsHeaderFormat, PsOutputFormat, PsSortBy, PsStatusFilter,
};
use nono_cli::clock::{format_uptime, format_watch_banner, TimeOfDay};
use nono_cli::duration::parse_duration_to_secs;
use nono_cli::prune::is_yes_response;
use nono_cli::ps_filter::ps_matches;
use nono_cli::ps_order::cmp_ps;
use nono_cli::ps_table::{
    empty_filter_message, format_ps_short_row, render_default_data_row, render_default_header_row,
    render_ps_command, render_ps_header, DEFAULT_PS_COLUMNS,
};
use nono_cli::ps_tabular::{csv_escape, format_ps_tabular, tsv_escape};
use nono_cli::session::{SessionAttachment, SessionRecord, SessionStatus};

fn time_of_day(when: chrono::DateTime<chrono::Local>) -> TimeOfDay {
    TimeOfDay {
        secs: when.num_seconds_from_midnight(),
        nanos: when.nanosecond(),
    }
}

fn record_json(record: &SessionRecord) -> String {
    let mut map = serde_json::Map::new();
    map.insert(
        "session_id".to_string(),
        serde_json::Value::String(record.session_id.clone()),
    );
    map.insert(
        "name".to_string(),
        match &record.name {
            Some(name) => serde_json::Value::String(name.clone()),
            None => serde_json::Value::Null,
        },
    );
    serde_json::to_string(&serde_json::Value::Object(map)).expect("record serializes")
}


#[test]
fn test_format_uptime_seconds() {
    let now = chrono::Local::now();
    let started = (now - chrono::Duration::seconds(30)).to_rfc3339();
    let result = format_uptime(&started);
    assert!(result.ends_with('s'));
}

#[test]
fn test_format_uptime_minutes() {
    let now = chrono::Local::now();
    let started = (now - chrono::Duration::minutes(5)).to_rfc3339();
    let result = format_uptime(&started);
    assert!(result.ends_with('m'));
}

fn make_record(
    id: &str,
    name: Option<&str>,
    profile: Option<&str>,
    status: SessionStatus,
) -> SessionRecord {
    SessionRecord {
        session_id: id.to_string(),
        name: name.map(str::to_string),
        supervisor_pid: 1,
        child_pid: 2,
        started: "2026-04-30T22:00:00+00:00".to_string(),
        started_epoch: 0,
        status,
        attachment: SessionAttachment::Detached,
        exit_code: None,
        command: vec!["echo".to_string()],
        profile: profile.map(str::to_string),
        workdir: b"/tmp".to_vec(),
        network: "blocked".to_string(),
        rollback_session: None,
    }
}

fn ps_args() -> PsArgs {
    PsArgs {
        json: false,
        all: false,
        name: None,
        profile: None,
        status: None,
        exit_code: None,
        since: None,
        sort: None,
        reverse: false,
        short: false,
        output: None,
        watch: None,
        compact: false,
        header_format: PsHeaderFormat::Fancy,
        no_truncate: false,
        columns: Vec::new(),
        field: None,
        max_iterations: None,
    }
}

#[test]
fn ps_filter_default_hides_exited_but_keeps_running() {
    let running = make_record("a", None, None, SessionStatus::Running);
    let exited = make_record("b", None, None, SessionStatus::Exited);
    let args = ps_args();
    assert!(ps_matches(&running, &args, None));
    assert!(!ps_matches(&exited, &args, None));
}

#[test]
fn ps_filter_all_includes_exited() {
    let exited = make_record("b", None, None, SessionStatus::Exited);
    let args = PsArgs {
        all: true,
        ..ps_args()
    };
    assert!(ps_matches(&exited, &args, None));
}

#[test]
fn ps_filter_status_overrides_default_and_pins_a_single_status() {
    let running = make_record("a", None, None, SessionStatus::Running);
    let exited = make_record("b", None, None, SessionStatus::Exited);
    let paused = make_record("c", None, None, SessionStatus::Paused);

    let args = PsArgs {
        status: Some(PsStatusFilter::Exited),
        ..ps_args()
    };
    assert!(ps_matches(&exited, &args, None));
    assert!(!ps_matches(&running, &args, None));
    assert!(!ps_matches(&paused, &args, None));
}

#[test]
fn ps_filter_name_uses_case_insensitive_substring_and_skips_unnamed() {
    let clover = make_record("a", Some("Clover-1"), None, SessionStatus::Running);
    let codex = make_record("b", Some("codex"), None, SessionStatus::Running);
    let unnamed = make_record("c", None, None, SessionStatus::Running);
    let args = PsArgs {
        name: Some("CLOVER".to_string()),
        ..ps_args()
    };
    assert!(
        ps_matches(&clover, &args, None),
        "case-insensitive substring"
    );
    assert!(!ps_matches(&codex, &args, None));
    assert!(
        !ps_matches(&unnamed, &args, None),
        "sessions without a name are filtered out, not matched"
    );
}

#[test]
fn ps_filter_profile_requires_exact_match_and_skips_unprofiled() {
    let clover = make_record("a", None, Some("clover-code"), SessionStatus::Running);
    let clover_stretch = make_record(
        "b",
        None,
        Some("clover-code-stretch"),
        SessionStatus::Running,
    );
    let no_profile = make_record("c", None, None, SessionStatus::Running);
    let args = PsArgs {
        profile: Some("clover-code".to_string()),
        ..ps_args()
    };
    assert!(ps_matches(&clover, &args, None));
    assert!(
        !ps_matches(&clover_stretch, &args, None),
        "exact match — substring of another profile must NOT pass"
    );
    assert!(!ps_matches(&no_profile, &args, None));
}

fn exited_with_code(id: &str, code: i32) -> SessionRecord {
    SessionRecord {
        exit_code: Some(code),
        ..make_record(id, None, None, SessionStatus::Exited)
    }
}

#[test]
fn ps_filter_exit_code_zero_finds_only_successful_exits() {
    let success = exited_with_code("a", 0);
    let failed = exited_with_code("b", 137);
    let still_running = make_record("c", None, None, SessionStatus::Running);
    let args = PsArgs {
        exit_code: Some(0),
        ..ps_args()
    };
    assert!(ps_matches(&success, &args, None));
    assert!(!ps_matches(&failed, &args, None));
    assert!(
        !ps_matches(&still_running, &args, None),
        "running sessions have no exit code yet — must be excluded"
    );
}

#[test]
fn ps_filter_exit_code_specific_value() {
    let oom = exited_with_code("a", 137);
    let other = exited_with_code("b", 1);
    let args = PsArgs {
        exit_code: Some(137),
        ..ps_args()
    };
    assert!(ps_matches(&oom, &args, None));
    assert!(!ps_matches(&other, &args, None));
}

#[test]
fn ps_filter_exit_code_implicitly_includes_exited_without_all() {
    let success = exited_with_code("a", 0);
    let args = PsArgs {
        exit_code: Some(0),
        all: false,
        ..ps_args()
    };
    assert!(
        ps_matches(&success, &args, None),
        "--exit-code must auto-include exited sessions even without --all"
    );
}

#[test]
fn ps_filter_exit_code_composes_with_other_filters() {
    let target = SessionRecord {
        exit_code: Some(0),
        ..make_record(
            "a",
            Some("review-bot"),
            Some("default"),
            SessionStatus::Exited,
        )
    };
    let wrong_name = SessionRecord {
        exit_code: Some(0),
        ..make_record("b", Some("other"), Some("default"), SessionStatus::Exited)
    };
    let args = PsArgs {
        exit_code: Some(0),
        name: Some("review".to_string()),
        ..ps_args()
    };
    assert!(ps_matches(&target, &args, None));
    assert!(!ps_matches(&wrong_name, &args, None));
}

#[test]
fn format_watch_banner_uses_hhmmss_and_interval() {
    let when = chrono::Local
        .with_ymd_and_hms(2026, 5, 1, 14, 23, 5)
        .single()
        .expect("valid local time");
    let banner = format_watch_banner(time_of_day(when), 5);
    assert_eq!(
        banner, "nono ps  -  refreshed 14:23:05  (every 5s)",
        "watch banner format must be stable: HH:MM:SS local time + interval"
    );
}

#[test]
fn format_watch_banner_handles_minute_or_longer_intervals() {
    let when = chrono::Local
        .with_ymd_and_hms(2026, 5, 1, 0, 0, 0)
        .single()
        .expect("valid local time");
    assert!(format_watch_banner(time_of_day(when), 60).contains("(every 60s)"));
    assert!(format_watch_banner(time_of_day(when), 3600).contains("(every 3600s)"));
}

#[test]
fn render_ps_header_fancy_emits_unicode_divider() {
    let header = "SESSION   NAME   STATUS";
    let rendered = render_ps_header(PsHeaderFormat::Fancy, header, 24)
        .expect("fancy must render a header");
    let mut lines = rendered.lines();
    assert_eq!(lines.next(), Some("SESSION   NAME   STATUS"));
    let divider = lines.next().expect("divider line follows header");
    assert_eq!(divider.chars().count(), 24, "divider width matches request");
    assert!(
        divider.chars().all(|c| c == '─'),
        "fancy divider must use the unicode box-drawing horizontal: {divider:?}"
    );
    assert_eq!(lines.next(), None, "exactly two lines: header + divider");
}

#[test]
fn render_ps_header_ascii_emits_dash_divider() {
    let header = "SESSION   NAME   STATUS";
    let rendered = render_ps_header(PsHeaderFormat::Ascii, header, 24)
        .expect("ascii must render a header");
    let mut lines = rendered.lines();
    assert_eq!(lines.next(), Some("SESSION   NAME   STATUS"));
    let divider = lines.next().expect("divider line follows header");
    assert_eq!(divider, "-".repeat(24), "ASCII divider is plain dashes");
    assert_eq!(lines.next(), None);
}

#[test]
fn render_ps_header_none_returns_none() {
    assert!(render_ps_header(PsHeaderFormat::NoHeader, "SESSION", 16).is_none());
}

#[test]
fn render_ps_header_default_is_fancy() {
    let default_fmt = PsHeaderFormat::default();
    assert_eq!(default_fmt, PsHeaderFormat::Fancy);
}

#[test]
fn parse_duration_accepts_each_unit_suffix() {
    assert_eq!(parse_duration_to_secs("30s").expect("30s"), 30);
    assert_eq!(parse_duration_to_secs("5m").expect("5m"), 5 * 60);
    assert_eq!(parse_duration_to_secs("2h").expect("2h"), 2 * 60 * 60);
    assert_eq!(parse_duration_to_secs("7d").expect("7d"), 7 * 60 * 60 * 24);
    assert_eq!(parse_duration_to_secs("1w").expect("1w"), 60 * 60 * 24 * 7);
    assert_eq!(parse_duration_to_secs("2H").expect("2H"), 2 * 60 * 60);
}

#[test]
fn parse_duration_rejects_malformed_input() {
    assert!(parse_duration_to_secs("").is_err());
    assert!(parse_duration_to_secs("  ").is_err());
    assert!(parse_duration_to_secs("30").is_err());
    assert!(parse_duration_to_secs("5y").is_err());
    assert!(parse_duration_to_secs("h").is_err());
    assert!(parse_duration_to_secs("abch").is_err());
    assert!(parse_duration_to_secs("0s").is_err());
    assert!(parse_duration_to_secs("0d").is_err());
}

#[test]
fn ps_filter_since_threshold_excludes_older_sessions() {
    let recent = SessionRecord {
        started_epoch: 200,
        ..make_record("a", None, None, SessionStatus::Running)
    };
    let stale = SessionRecord {
        started_epoch: 50,
        ..make_record("b", None, None, SessionStatus::Running)
    };
    let args = ps_args();
    assert!(ps_matches(&recent, &args, Some(100)));
    assert!(
        !ps_matches(&stale, &args, Some(100)),
        "started_epoch < threshold must be excluded"
    );
}

#[test]
fn ps_filter_since_with_no_threshold_is_a_passthrough() {
    let stale = SessionRecord {
        started_epoch: 0,
        ..make_record("a", None, None, SessionStatus::Running)
    };
    assert!(ps_matches(&stale, &ps_args(), None));
}

#[test]
fn ps_filter_combines_filters_with_and() {
    let target = make_record(
        "a",
        Some("review-bot"),
        Some("default"),
        SessionStatus::Running,
    );
    let wrong_profile = make_record(
        "b",
        Some("review-bot"),
        Some("opencode"),
        SessionStatus::Running,
    );
    let wrong_name = make_record("c", Some("other"), Some("default"), SessionStatus::Running);
    let args = PsArgs {
        name: Some("review".to_string()),
        profile: Some("default".to_string()),
        ..ps_args()
    };
    assert!(ps_matches(&target, &args, None));
    assert!(!ps_matches(&wrong_profile, &args, None));
    assert!(!ps_matches(&wrong_name, &args, None));
}

fn sort_session_ids(records: &[SessionRecord], key: PsSortBy) -> Vec<&str> {
    let mut refs: Vec<&SessionRecord> = records.iter().collect();
    refs.sort_by(|a, b| cmp_ps(a, b, key));
    refs.iter().map(|r| r.session_id.as_str()).collect()
}

fn dated_record(id: &str, epoch: u64, status: SessionStatus) -> SessionRecord {
    SessionRecord {
        started_epoch: epoch,
        ..make_record(id, None, None, status)
    }
}

#[test]
fn ps_sort_started_puts_newest_first() {
    let records = vec![
        dated_record("old", 100, SessionStatus::Running),
        dated_record("new", 300, SessionStatus::Running),
        dated_record("mid", 200, SessionStatus::Running),
    ];
    assert_eq!(
        sort_session_ids(&records, PsSortBy::Started),
        vec!["new", "mid", "old"],
        "newer started_epoch must come first under --sort started"
    );
}

#[test]
fn ps_sort_status_orders_running_before_paused_before_exited() {
    let records = vec![
        dated_record("e", 100, SessionStatus::Exited),
        dated_record("r", 100, SessionStatus::Running),
        dated_record("p", 100, SessionStatus::Paused),
    ];
    assert_eq!(
        sort_session_ids(&records, PsSortBy::Status),
        vec!["r", "p", "e"],
        "active sessions surface before exited ones",
    );
}

#[test]
fn ps_sort_name_is_alpha_with_unnamed_last() {
    let records = vec![
        make_record("a", None, None, SessionStatus::Running),
        make_record("b", Some("zeta"), None, SessionStatus::Running),
        make_record("c", Some("alpha"), None, SessionStatus::Running),
    ];
    assert_eq!(
        sort_session_ids(&records, PsSortBy::Name),
        vec!["c", "b", "a"],
        "named sessions sort alphabetically; unnamed go last",
    );
}

#[test]
fn ps_sort_profile_is_alpha_with_unprofiled_last() {
    let records = vec![
        make_record("a", None, Some("rust-dev"), SessionStatus::Running),
        make_record("b", None, None, SessionStatus::Running),
        make_record("c", None, Some("default"), SessionStatus::Running),
    ];
    assert_eq!(
        sort_session_ids(&records, PsSortBy::Profile),
        vec!["c", "a", "b"],
        "profiled sessions sort alphabetically; unprofiled go last",
    );
}

#[test]
fn ps_sort_started_is_stable_via_session_id_tiebreak() {
    let records = vec![
        dated_record("zzz", 100, SessionStatus::Running),
        dated_record("aaa", 100, SessionStatus::Running),
        dated_record("mmm", 100, SessionStatus::Running),
    ];
    assert_eq!(
        sort_session_ids(&records, PsSortBy::Started),
        vec!["aaa", "mmm", "zzz"],
    );
}

fn full_record_for_short_row(
    id: &str,
    name: Option<&str>,
    status: SessionStatus,
    exit_code: Option<i32>,
    command: Vec<String>,
) -> SessionRecord {
    SessionRecord {
        exit_code,
        command,
        ..make_record(id, name, None, status)
    }
}

#[test]
fn ps_short_row_omits_ansi_and_uses_named_status_for_running() {
    let rec = full_record_for_short_row(
        "abc12345",
        Some("clover-1"),
        SessionStatus::Running,
        None,
        vec!["echo".to_string(), "hi".to_string()],
    );
    let row = format_ps_short_row(&rec, 60, false);

    assert!(
        !row.contains('\x1b'),
        "short row must be plain text (no ANSI escapes): {row:?}"
    );
    assert!(row.contains("abc12345"));
    assert!(row.contains("clover-1"));
    assert!(row.contains("running"));
    assert!(row.contains("echo hi"));
}

#[test]
fn ps_short_row_renders_exit_code_for_exited_status() {
    let rec = full_record_for_short_row(
        "deadbeef",
        None,
        SessionStatus::Exited,
        Some(127),
        vec!["bash".to_string(), "-c".to_string(), "false".to_string()],
    );
    let row = format_ps_short_row(&rec, 60, false);

    assert!(
        row.contains("exited(127)"),
        "exit code must be visible after the status word: {row:?}"
    );
    assert!(row.contains(" - "));
}

#[test]
fn csv_escape_quotes_only_when_needed() {
    assert_eq!(
        csv_escape("simple"),
        "simple",
        "no special chars ⇒ unchanged"
    );
    assert_eq!(csv_escape("a,b"), "\"a,b\"", "comma forces quoting");
    assert_eq!(
        csv_escape("a\"b"),
        "\"a\"\"b\"",
        "embedded quotes are doubled, then wrapped"
    );
    assert_eq!(
        csv_escape("line1\nline2"),
        "\"line1\nline2\"",
        "embedded newlines force quoting"
    );
}

#[test]
fn tsv_escape_preserves_field_shape() {
    assert_eq!(tsv_escape("plain"), "plain");
    assert_eq!(tsv_escape("a\tb"), "a\\tb", "tabs become \\t");
    assert_eq!(tsv_escape("a\nb"), "a\\nb", "newlines become \\n");
    assert_eq!(
        tsv_escape("a\\b"),
        "a\\\\b",
        "literal backslash is escaped first to keep round-trip semantics"
    );
}

#[test]
fn format_ps_tabular_csv_header_present_for_empty_input() {
    let out = format_ps_tabular(&[], PsOutputFormat::Csv, &Vec::new());
    assert!(
        out.starts_with("session_id,name,status,exit_code,"),
        "header must be present even for empty session list: {out}"
    );
    assert_eq!(
        out.lines().count(),
        1,
        "empty input ⇒ header only, no record rows"
    );
}

#[test]
fn format_ps_tabular_csv_quotes_command_with_comma() {
    let rec = make_record("abc", Some("test"), None, SessionStatus::Running);
    let rec = SessionRecord {
        command: vec![
            "bash".to_string(),
            "-c".to_string(),
            "echo a, b".to_string(),
        ],
        ..rec
    };
    let out = format_ps_tabular(&[&rec], PsOutputFormat::Csv, &Vec::new());
    let row = out.lines().nth(1).expect("data row");
    assert!(
        row.contains("\"bash -c 'echo a, b'\"")
            || row.contains("\"bash -c \"\"echo a, b\"\"\""),
        "command with comma must be CSV-quoted: {row}"
    );
}

#[test]
fn format_ps_tabular_ndjson_one_record_per_line_no_header() {
    let rec_a = make_record("a", Some("first"), None, SessionStatus::Running);
    let rec_b = make_record("b", None, Some("default"), SessionStatus::Exited);
    let documents = vec![Some(record_json(&rec_a)), Some(record_json(&rec_b))];
    let out = format_ps_tabular(&[&rec_a, &rec_b], PsOutputFormat::Ndjson, &documents);
    let lines: Vec<&str> = out.lines().collect();
    assert_eq!(lines.len(), 2, "exactly one line per record, no header");
    for line in &lines {
        let value: serde_json::Value =
            serde_json::from_str(line).expect("each line must be valid JSON");
        assert!(value.is_object(), "line must be a JSON object: {line}");
    }
}

#[test]
fn format_ps_tabular_ndjson_empty_input_produces_no_lines() {
    let out = format_ps_tabular(&[], PsOutputFormat::Ndjson, &Vec::new());
    assert!(
        out.is_empty(),
        "empty NDJSON must be the empty string, got {out:?}"
    );
}

#[test]
fn format_ps_tabular_tsv_uses_tabs_and_escapes_newlines() {
    let rec = make_record("xyz", None, Some("default"), SessionStatus::Exited);
    let out = format_ps_tabular(&[&rec], PsOutputFormat::Tsv, &Vec::new());
    let row = out.lines().nth(1).expect("data row");
    assert!(
        row.contains("\txyz\t") || row.starts_with("xyz\t"),
        "tab-separated: {row}"
    );
    assert!(!row.contains('\n'));
}

#[test]
fn ps_short_row_truncates_command_to_max_len() {
    let long: String = "x".repeat(200);
    let rec = full_record_for_short_row("abc", None, SessionStatus::Running, None, vec![long]);
    let row = format_ps_short_row(&rec, 32, false);
    let cmd_section = row.split_whitespace().last().unwrap_or("");
    assert!(
        cmd_section.chars().count() <= 35,
        "command got past max_command_len: {cmd_section:?}"
    );
}

#[test]
fn is_yes_response_only_accepts_y_or_yes_case_insensitive() {
    for ok in ["y", "Y", "yes", "Yes", "YES", "  y  ", "yes\n"] {
        assert!(
            is_yes_response(ok),
            "{ok:?} must count as confirmation (case-insensitive, trimmed)"
        );
    }
    for nope in ["", "\n", "n", "no", "  ", "yep", "yeah", "1", "true"] {
        assert!(
            !is_yes_response(nope),
            "{nope:?} must NOT count as confirmation — only literal y/yes"
        );
    }
}

#[test]
fn empty_filter_message_reflects_active_flags() {
    let plain = ps_args();
    assert!(empty_filter_message(&plain).contains("Use --all"));

    let with_all = PsArgs {
        all: true,
        ..ps_args()
    };
    assert_eq!(empty_filter_message(&with_all), "No sessions found.");

    let with_filter = PsArgs {
        profile: Some("default".to_string()),
        ..ps_args()
    };
    assert!(empty_filter_message(&with_filter).contains("filters"));
}

#[test]
fn render_ps_command_truncates_when_flag_off() {
    let cmd: Vec<String> = vec!["a".repeat(80)];
    let rendered = render_ps_command(&cmd, false, 40);
    assert!(rendered.ends_with("..."));
    assert!(rendered.chars().count() <= 40);
}

#[test]
fn render_ps_command_skips_truncate_with_flag() {
    let long_arg = "a".repeat(200);
    let cmd: Vec<String> = vec!["sh".to_string(), "-c".to_string(), long_arg.clone()];
    let rendered = render_ps_command(&cmd, true, 40);
    assert!(
        !rendered.ends_with("..."),
        "no_truncate must not end with the truncation ellipsis"
    );
    assert!(
        rendered.contains(&long_arg),
        "no_truncate must include the full long argument verbatim"
    );
}

#[test]
fn default_ps_columns_match_pscolumn_variant_order() {
    assert_eq!(
        DEFAULT_PS_COLUMNS,
        [
            PsColumn::Session,
            PsColumn::Name,
            PsColumn::Status,
            PsColumn::Attach,
            PsColumn::Pid,
            PsColumn::Uptime,
            PsColumn::Profile,
            PsColumn::Command,
        ]
    );
}

#[test]
fn render_default_header_row_lays_out_all_columns_with_widths() {
    let header = render_default_header_row(&DEFAULT_PS_COLUMNS);
    for needle in [
        "SESSION", "NAME", "STATUS", "ATTACH", "PID", "UPTIME", "PROFILE", "COMMAND",
    ] {
        assert!(
            header.contains(needle),
            "default header missing {needle}: {header:?}"
        );
    }
    let expected_len =
        16 + 1 + 12 + 1 + 12 + 1 + 12 + 1 + 8 + 1 + 10 + 1 + 14 + 1 + "COMMAND".len();
    assert_eq!(header.chars().count(), expected_len);
}

#[test]
fn render_default_header_row_subset_drops_unselected_columns() {
    let header = render_default_header_row(&[PsColumn::Session, PsColumn::Command]);
    assert!(header.contains("SESSION"));
    assert!(header.contains("COMMAND"));
    assert!(
        !header.contains("STATUS"),
        "subset must not leak columns: {header:?}"
    );
    assert!(!header.contains("ATTACH"));
}

#[test]
fn render_default_data_row_drops_unselected_cells() {
    let rec = full_record_for_short_row(
        "abc12345",
        Some("triage-1"),
        SessionStatus::Exited,
        Some(127),
        vec!["bash".to_string(), "-lc".to_string(), "boom".to_string()],
    );
    let row = render_default_data_row(
        &rec,
        &[PsColumn::Session, PsColumn::Status, PsColumn::Command],
        false,
    );
    assert!(row.contains("abc12345"));
    assert!(row.contains("exited(127)"));
    assert!(row.contains("bash"));
    assert!(
        !row.contains("triage-1"),
        "name column must be omitted when not selected: {row:?}"
    );
}

#[test]
fn ps_short_row_with_no_truncate_emits_full_command() {
    let long: String = "x".repeat(200);
    let rec = full_record_for_short_row("abc", None, SessionStatus::Running, None, vec![long]);
    let row = format_ps_short_row(&rec, 32, true);
    let xs = row.chars().filter(|c| *c == 'x').count();
    assert_eq!(xs, 200, "full 200-char command should reach the row");
    assert!(!row.contains("..."), "no truncation ellipsis: {row:?}");
}
