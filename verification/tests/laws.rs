use nono_cli::capability::{lists_port, AccessMode, CapabilitySet, CapabilitySource, FsCapability};
use nono_cli::cli::{PsArgs, PsHeaderFormat, PsOutputFormat, PsStatusFilter};
use nono_cli::numbers::{decimal_text, parse_unsigned, signed_text};
use nono_cli::paths::{display, file_name, join_path, parent, path_eq, starts_with};
use nono_cli::ps_filter::{filter_sessions, ps_matches};
use nono_cli::ps_tabular::{csv_escape, format_ps_record, format_ps_tabular_at, tsv_escape};
use nono_cli::query_ext::{
    basename, check_blocked_command, explain_path, parse_host_port, query_command, query_path,
    query_tcp_bind_port, query_tcp_port, suggested_flag_for_path, suggested_flag_parts,
    PathContext, PathProbe, QueryResult, Resolution, TargetFacts,
};
use nono_cli::session::{SessionAttachment, SessionRecord, SessionStatus};
use nono_cli::text::{contains_text, join, lower, pad_right, repeat_char, trim};

fn session(id: &str, name: Option<&str>, status: SessionStatus) -> SessionRecord {
    SessionRecord {
        session_id: id.to_string(),
        name: name.map(str::to_string),
        supervisor_pid: 1,
        child_pid: 2,
        started: "2026-04-30T22:00:00+00:00".to_string(),
        started_epoch: 50,
        status,
        attachment: SessionAttachment::Attached,
        exit_code: None,
        command: vec!["sh".to_string(), "-c".to_string(), "a,\"b\"\tc\nd".to_string()],
        profile: Some("p\\q".to_string()),
        workdir: b"/tmp".to_vec(),
        network: "open".to_string(),
        rollback_session: None,
    }
}

fn ps_args() -> PsArgs {
    PsArgs {
        json: false,
        all: false,
        name: None,
        profile: None,
        status: None,
        exit_code: None,
        since: None,
        sort: None,
        reverse: false,
        short: false,
        output: None,
        watch: None,
        compact: false,
        header_format: PsHeaderFormat::Fancy,
        no_truncate: false,
        columns: Vec::new(),
        field: None,
        max_iterations: None,
    }
}

/// Reads CSV records as RFC 4180 has them.
fn read_csv(text: &str) -> Vec<Vec<String>> {
    let mut rows = Vec::new();
    let mut row = Vec::new();
    let mut field = String::new();
    let mut quoted = false;
    let mut chars = text.chars().peekable();
    while let Some(c) = chars.next() {
        if quoted {
            if c == '"' {
                if chars.peek() == Some(&'"') {
                    chars.next();
                    field.push('"');
                } else {
                    quoted = false;
                }
            } else {
                field.push(c);
            }
        } else if c == '"' {
            quoted = true;
        } else if c == ',' {
            row.push(std::mem::take(&mut field));
        } else if c == '\n' {
            row.push(std::mem::take(&mut field));
            rows.push(std::mem::take(&mut row));
        } else {
            field.push(c);
        }
    }
    rows
}

#[test]
fn csv_is_read_back() {
    let a = session("a", Some("x,\"y\""), SessionStatus::Running);
    let b = session("b\n", None, SessionStatus::Exited);
    let uptimes = vec!["1h".to_string(), "2d".to_string()];
    let out = format_ps_tabular_at(&[&a, &b], &uptimes, PsOutputFormat::Csv, &Vec::new());
    let rows = read_csv(&out);
    assert_eq!(rows.len(), 3);
    assert_eq!(rows[0][0], "session_id");
    assert_eq!(rows[0].len(), 11);
    assert_eq!(rows[1][1], "x,\"y\"");
    assert_eq!(rows[1][6], "1h");
    assert_eq!(rows[1][10], "sh -c 'a,\"b\"\tc\nd'");
    assert_eq!(rows[2][0], "b\n");
    assert_eq!(rows[2][1], "");
    assert_eq!(rows[2][4], "-");
    for value in ["", "plain", ",", "\"", "\"\"", "a\r\nb"] {
        assert_eq!(
            read_csv(&format!("{}\n", csv_escape(value))),
            vec![vec![value.to_string()]]
        );
    }
}

#[test]
fn tsv_is_read_back() {
    let value = "tab\tnewline\nreturn\rback\\slash\\t";
    let field = tsv_escape(value);
    assert!(!field.contains('\t') && !field.contains('\n') && !field.contains('\r'));
    let mut read = String::new();
    let mut chars = field.chars();
    while let Some(c) = chars.next() {
        if c == '\\' {
            match chars.next() {
                Some('t') => read.push('\t'),
                Some('n') => read.push('\n'),
                Some('r') => read.push('\r'),
                Some(other) => read.push(other),
                None => read.push('\\'),
            }
        } else {
            read.push(c);
        }
    }
    assert_eq!(read, value);
    let line = format_ps_record(
        &session("a\tb", None, SessionStatus::Running),
        "1s",
        PsOutputFormat::Tsv,
    );
    assert_eq!(line.matches('\t').count(), 10);
    assert_eq!(line.matches('\n').count(), 1);
    assert!(line.starts_with("a\\tb\t"));
}

#[test]
fn paths_are_compared_component_by_component() {
    assert!(starts_with(b"/a/b", b"/a"));
    assert!(starts_with(b"/a/b", b"/a/"));
    assert!(starts_with(b"/a//b/./c", b"/a/b"));
    assert!(starts_with(b"/a", b"/"));
    assert!(starts_with(b"/a", b""));
    assert!(!starts_with(b"/ab", b"/a"));
    assert!(!starts_with(b"a/b", b"/a"));
    assert!(!starts_with(b"/a", b"/a/b"));
    assert!(path_eq(b"/a/b/", b"/a//b/."));
    assert!(!path_eq(b"./a", b"a"));
    assert!(path_eq(b"./a", b"././a"));
}

#[test]
fn paths_have_parents_and_names() {
    assert_eq!(parent(b"/a/b"), Some(b"/a".to_vec()));
    assert_eq!(parent(b"/a//b/"), Some(b"/a".to_vec()));
    assert_eq!(parent(b"/a"), Some(b"/".to_vec()));
    assert_eq!(parent(b"a"), Some(b"".to_vec()));
    assert_eq!(parent(b"/"), None);
    assert_eq!(parent(b""), None);
    assert_eq!(file_name(b"/a/b/"), Some(b"b".to_vec()));
    assert_eq!(file_name(b"/a/."), Some(b"a".to_vec()));
    assert_eq!(file_name(b"/a/.."), None);
    assert_eq!(file_name(b"."), None);
    assert_eq!(file_name(b"/"), None);
    assert_eq!(join_path(b"/a", b"b"), b"/a/b".to_vec());
    assert_eq!(join_path(b"/a/", b"b"), b"/a/b".to_vec());
    assert_eq!(join_path(b"/a", b"/b"), b"/b".to_vec());
    assert_eq!(join_path(b"/a", b""), b"/a/".to_vec());
    assert_eq!(join_path(b"", b"b"), b"b".to_vec());
    assert_eq!(display("/é".as_bytes()), "/é");
    for path in [&b"/a/b"[..], b"a", b"./x", b"/a/../b"] {
        let up = parent(path).expect("parent");
        assert!(starts_with(path, &up));
    }
}

#[test]
fn numbers_are_read_back() {
    for n in [0, 9, 10, 443, u64::MAX] {
        let text = decimal_text(n);
        assert_eq!(text, n.to_string());
        let chars: Vec<char> = text.chars().collect();
        assert_eq!(parse_unsigned(&chars, u64::MAX), Some(n));
    }
    for n in [i64::MIN, -1, 0, i64::MAX] {
        assert_eq!(signed_text(n), n.to_string());
    }
    let read = |s: &str| parse_unsigned(&s.chars().collect::<Vec<char>>(), 65535);
    assert_eq!(read("+7"), Some(7));
    assert_eq!(read("007"), Some(7));
    assert_eq!(read("65535"), Some(65535));
    assert_eq!(read("65536"), None);
    assert_eq!(read(""), None);
    assert_eq!(read("+"), None);
    assert_eq!(read("-1"), None);
    assert_eq!(read("1 "), None);
    assert_eq!(read("٣"), None);
}

#[test]
fn texts_are_trimmed_padded_and_joined() {
    assert_eq!(trim("\u{3000} a b\t\n"), "a b");
    assert_eq!(trim(" \u{200b} "), "\u{200b}", "no white space");
    assert_eq!(pad_right("é", 3), "é  ");
    assert_eq!(pad_right("abcd", 3), "abcd");
    assert_eq!(repeat_char('─', 3), "───");
    assert_eq!(join(&vec!["a".to_string(), "b".to_string()], ", "), "a, b");
    assert_eq!(join(&vec![], ", "), "");
    assert_eq!(lower("ÀB"), "àb");
    assert!(contains_text("abc", ""));
    assert!(contains_text("abc", "bc"));
    assert!(!contains_text("abc", "abcd"));
}

#[test]
fn host_and_port_are_read_back() {
    for (host, port) in [("example.com", 1), ("10.0.0.1", 65535), ("fe80::1", 22)] {
        assert_eq!(
            parse_host_port(&format!("{host}:{port}"), 443).expect("parse"),
            (host.to_string(), port)
        );
    }
    assert_eq!(
        parse_host_port("[fe80::1%eth0]:22", 443).expect("parse"),
        ("fe80::1%eth0".to_string(), 22)
    );
    assert_eq!(
        parse_host_port("host", 0).expect("parse"),
        ("host".to_string(), 0)
    );
}

fn grant(path: &str, access: AccessMode) -> FsCapability {
    FsCapability {
        resolved: path.as_bytes().to_vec(),
        access,
        is_file: false,
        source: CapabilitySource::User,
    }
}

fn resolved(path: &str) -> PathContext {
    PathContext {
        probe: PathProbe {
            itself: Resolution::Resolved(path.as_bytes().to_vec()),
            parent: Resolution::Missing,
        },
        target: TargetFacts {
            exists: true,
            is_file: false,
            is_dir: true,
        },
        sensitive: Ok(None),
    }
}

#[test]
fn more_grants_never_deny() {
    let mut caps = CapabilitySet::new();
    caps.add_fs(grant("/a", AccessMode::ReadWrite));
    let ask = |caps: &CapabilitySet| {
        query_path(
            b"/a/b/c",
            AccessMode::Write,
            caps,
            &vec![],
            &resolved("/a/b/c"),
        )
        .expect("query")
    };
    assert!(matches!(ask(&caps), QueryResult::Allowed { .. }));
    caps.add_fs(grant("/a/b", AccessMode::Read));
    match ask(&caps) {
        QueryResult::Allowed { granted_path, .. } => {
            assert_eq!(granted_path.as_deref(), Some("/a"))
        }
        other => panic!("expected allowed, got {other:?}"),
    }
    let mut reordered = CapabilitySet::new();
    reordered.add_fs(grant("/z", AccessMode::Read));
    reordered.add_fs(grant("/a/b", AccessMode::Read));
    reordered.add_fs(grant("/a", AccessMode::ReadWrite));
    assert!(matches!(ask(&reordered), QueryResult::Allowed { .. }));
    let rows = explain_path(b"/a/b/c", AccessMode::Write, &caps);
    let shown: Vec<(&str, bool)> = rows
        .iter()
        .map(|r| (r.path.as_str(), r.sufficient))
        .collect();
    assert_eq!(shown, vec![("/a/b", false), ("/a", true)]);
}

#[test]
fn write_grants_do_not_allow_reading() {
    let mut caps = CapabilitySet::new();
    caps.add_fs(grant("/a", AccessMode::Write));
    let result = query_path(b"/a", AccessMode::Read, &caps, &vec![], &resolved("/a"));
    assert!(matches!(
        result.expect("query"),
        QueryResult::Denied { reason, .. } if reason == "insufficient_access"
    ));
    let result = query_path(b"/a", AccessMode::ReadWrite, &caps, &vec![], &resolved("/a"));
    assert!(matches!(
        result.expect("query"),
        QueryResult::Denied { reason, .. } if reason == "insufficient_access"
    ));
}

#[test]
fn suggestions_cover_the_path() {
    let missing = TargetFacts {
        exists: false,
        is_file: false,
        is_dir: false,
    };
    let (flag, target) = suggested_flag_parts(b"/a/b/c", AccessMode::Write, missing);
    assert_eq!((flag, target.as_slice()), ("--write", &b"/a/b"[..]));
    assert!(starts_with(b"/a/b/c", &target));
    let directory = TargetFacts {
        exists: true,
        is_file: false,
        is_dir: true,
    };
    assert_eq!(
        suggested_flag_for_path(b"/a/b", AccessMode::ReadWrite, directory),
        "--allow /a/b"
    );
    let file = TargetFacts {
        exists: true,
        is_file: true,
        is_dir: false,
    };
    assert_eq!(
        suggested_flag_for_path(b"/a/b", AccessMode::Read, file),
        "--read-file /a/b"
    );
    assert_eq!(
        suggested_flag_for_path(b"/a/b", AccessMode::ReadWrite, file),
        "--allow-file /a/b"
    );
    assert_eq!(
        suggested_flag_for_path(b"/", AccessMode::Read, missing),
        "--read /"
    );
}

#[test]
fn suggested_grants_unblock_paths() {
    let missing = TargetFacts {
        exists: false,
        is_file: false,
        is_dir: false,
    };
    let directory = TargetFacts {
        exists: true,
        is_file: false,
        is_dir: true,
    };
    let file = TargetFacts {
        exists: true,
        is_file: true,
        is_dir: false,
    };
    for facts in [missing, directory, file] {
        for access in [AccessMode::Read, AccessMode::Write, AccessMode::ReadWrite] {
            let context = PathContext {
                target: facts,
                ..resolved("/a/b/c")
            };
            let mut caps = CapabilitySet::new();
            let denied = query_path(b"/a/b/c", access, &caps, &vec![], &context);
            let suggestion = match denied.expect("query") {
                QueryResult::Denied { suggested_flag, .. } => suggested_flag.expect("flag"),
                other => panic!("expected denied, got {other:?}"),
            };
            let (flag, path) = suggestion.split_once(' ').expect("flag and path");
            caps.add_fs(FsCapability {
                is_file: flag.ends_with("-file"),
                ..grant(path, access)
            });
            let allowed = query_path(b"/a/b/c", access, &caps, &vec![], &context);
            assert!(matches!(
                allowed.expect("query"),
                QueryResult::Allowed { .. }
            ));
        }
    }
}

#[test]
fn ports_are_denied_only_where_unlisted_and_blocked() {
    let mut caps = CapabilitySet::new().block_network();
    caps.add_tcp_connect_port(1);
    caps.add_tcp_bind_port(2);
    let caps = caps.allow_localhost_port(3);
    let denied = |r: QueryResult| matches!(r, QueryResult::Denied { .. });
    let general: Vec<bool> = (1..=4).map(|p| denied(query_tcp_port(p, &caps))).collect();
    let bind: Vec<bool> = (1..=4)
        .map(|p| denied(query_tcp_bind_port(p, &caps)))
        .collect();
    assert_eq!(general, vec![false, false, false, true]);
    assert_eq!(bind, vec![true, false, false, true]);
    assert!(lists_port(&caps.connect, 1));
    assert!(!lists_port(&caps.connect, 2));
}

#[test]
fn suggested_command_flag_unblocks() {
    let caps = CapabilitySet::new().block_command("rm");
    assert_eq!(basename("/usr/bin/rm"), "rm");
    assert_eq!(basename("/"), "/");
    assert_eq!(
        check_blocked_command("/usr/bin/rm", &caps.allowed, &caps.blocked).as_deref(),
        Some("rm")
    );
    match query_command("/usr/bin/rm", &caps).expect("query") {
        QueryResult::Denied { suggested_flag, details, .. } => {
            assert_eq!(suggested_flag.as_deref(), Some("--allow-command rm"));
            assert_eq!(
                details.as_deref(),
                Some("Command 'rm' is blocked by the resolved policy. Override with `--allow-command rm` if you understand the risk.")
            );
        }
        other => panic!("expected denied, got {other:?}"),
    }
    let caps = caps.allow_command("rm");
    assert!(matches!(
        query_command("/usr/bin/rm", &caps).expect("query"),
        QueryResult::Allowed { .. }
    ));
}

#[test]
fn exit_code_and_status_filters_compose() {
    let exited = SessionRecord {
        exit_code: Some(0),
        ..session("a", None, SessionStatus::Exited)
    };
    let code = PsArgs {
        exit_code: Some(0),
        ..ps_args()
    };
    assert!(ps_matches(&exited, &code, None), "exited sessions without --all");
    let all = PsArgs {
        all: true,
        ..code.clone()
    };
    assert!(ps_matches(&exited, &all, None));
    for (status, listed) in [
        (PsStatusFilter::Running, false),
        (PsStatusFilter::Paused, false),
        (PsStatusFilter::Exited, true),
    ] {
        let args = PsArgs {
            status: Some(status),
            ..code.clone()
        };
        assert_eq!(ps_matches(&exited, &args, None), listed);
        let running = session("a", None, SessionStatus::Running);
        assert!(!ps_matches(&running, &args, None));
    }
    let other = SessionRecord {
        exit_code: Some(2),
        ..exited
    };
    assert!(!ps_matches(&other, &code, None));
}

#[test]
fn filters_compose() {
    let s = session("a", Some("Bot"), SessionStatus::Running);
    let args = PsArgs {
        name: Some("bot".to_string()),
        profile: Some("p\\q".to_string()),
        ..ps_args()
    };
    assert!(ps_matches(&s, &args, Some(50)));
    assert!(!ps_matches(&s, &args, Some(51)));
    let other = PsArgs {
        profile: Some("x".to_string()),
        ..args.clone()
    };
    assert!(!ps_matches(&s, &other, Some(50)));
    let sessions = vec![s, session("b", None, SessionStatus::Running)];
    let kept = filter_sessions(&sessions, &args, None);
    assert_eq!(kept.len(), 1);
    assert_eq!(kept[0].session_id, "a");
}
