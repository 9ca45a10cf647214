use nono_cli::capability::{AccessMode, CapabilitySet, CapabilitySource, FsCapability};
use nono_cli::cli::{access_of, WhyArgs, WhyOp};
use nono_cli::query_ext::{
    render_result, render_result_lines, CapabilityMatch, ExplainedMatch, PathContext, PathProbe,
    QueryResult, Resolution, TargetFacts,
};
use nono_cli::why::{
    answer_value, answer_why, not_sandboxed, override_path, render_answer,
    render_explained_matches, resolve_workdir, sandbox_args, shorten_path, why_question,
    why_source, WhyAnswer, WhyQuestion, WhySource,
};

fn why_args() -> WhyArgs {
    WhyArgs {
        path: None,
        op: None,
        host: None,
        port: 443,
        net: None,
        tcp: None,
        command_name: None,
        json: false,
        compact: false,
        explain: false,
        print_policy: false,
        self_query: false,
        profile: None,
        allow: vec![],
        read: vec![],
        write: vec![],
        allow_file: vec![],
        read_file: vec![],
        write_file: vec![],
        block_net: false,
        workdir: None,
        allow_command: vec![],
        block_command: vec![],
    }
}

fn context(path: &str) -> PathContext {
    PathContext {
        probe: PathProbe {
            itself: Resolution::Resolved(path.as_bytes().to_vec()),
            parent: Resolution::Missing,
        },
        target: TargetFacts {
            exists: true,
            is_file: true,
            is_dir: false,
        },
        sensitive: Ok(None),
    }
}

#[test]
fn questions_have_an_order_of_precedence() {
    let all = WhyArgs {
        path: Some(b"/p".to_vec()),
        op: Some(WhyOp::Write),
        net: Some("h:1".to_string()),
        host: Some("g".to_string()),
        tcp: Some(2),
        command_name: Some("rm".to_string()),
        explain: true,
        ..why_args()
    };
    assert_eq!(
        why_question(&all).expect("path"),
        WhyQuestion::Path {
            path: b"/p".to_vec(),
            requested: AccessMode::Write,
            explain: true
        }
    );
    let all = WhyArgs { path: None, ..all };
    assert_eq!(
        why_question(&all).expect("net"),
        WhyQuestion::Network {
            host: "h".to_string(),
            port: 1
        }
    );
    let all = WhyArgs { net: None, ..all };
    assert_eq!(
        why_question(&all).expect("host"),
        WhyQuestion::Network {
            host: "g".to_string(),
            port: 443
        }
    );
    let all = WhyArgs { host: None, ..all };
    assert_eq!(
        why_question(&all).expect("tcp"),
        WhyQuestion::Tcp { port: 2 }
    );
    let all = WhyArgs { tcp: None, ..all };
    assert_eq!(
        why_question(&all).expect("command"),
        WhyQuestion::Command {
            name: "rm".to_string()
        }
    );
    assert_eq!(
        why_question(&why_args()).expect_err("nothing").message(),
        "--path, --host, --net, --tcp or --command is required"
    );
    let bad = WhyArgs {
        net: Some(":1".to_string()),
        ..why_args()
    };
    assert_eq!(
        why_question(&bad).expect_err("net").message(),
        "--net host portion is empty"
    );
}

#[test]
fn reading_is_asked_about_by_default() {
    assert_eq!(access_of(None), AccessMode::Read);
    assert_eq!(access_of(Some(WhyOp::Read)), AccessMode::Read);
    assert_eq!(access_of(Some(WhyOp::Write)), AccessMode::Write);
    assert_eq!(access_of(Some(WhyOp::ReadWrite)), AccessMode::ReadWrite);
}

#[test]
fn capabilities_come_from_one_source() {
    assert_eq!(why_source(&why_args()), WhySource::Flags);
    let profile = WhyArgs {
        profile: Some("p".to_string()),
        ..why_args()
    };
    assert_eq!(why_source(&profile), WhySource::Profile("p".to_string()));
    let itself = WhyArgs {
        self_query: true,
        ..profile
    };
    assert_eq!(why_source(&itself), WhySource::Itself);
    assert_eq!(
        not_sandboxed(),
        QueryResult::NotSandboxed {
            message: "Not running inside a nono sandbox".to_string()
        }
    );
}

#[test]
fn sandbox_flags_are_taken_over() {
    let args = WhyArgs {
        allow: vec![b"/a".to_vec()],
        read: vec![b"/r".to_vec(), b"/s".to_vec()],
        write_file: vec![b"/f".to_vec()],
        block_net: true,
        workdir: Some(b"/w".to_vec()),
        allow_command: vec!["rm".to_string()],
        ..why_args()
    };
    let out = sandbox_args(&args);
    assert_eq!(out.allow, args.allow);
    assert_eq!(out.read, args.read);
    assert_eq!(out.write, args.write);
    assert_eq!(out.write_file, args.write_file);
    assert!(out.block_net);
    assert_eq!(out.workdir, args.workdir);
    assert_eq!(out.allow_command, args.allow_command);
    assert!(out.block_command.is_empty());
}

#[test]
fn working_directory_falls_back() {
    let given = Some(b"/g".to_vec());
    let current = Some(b"/c".to_vec());
    assert_eq!(resolve_workdir(&given, &current), b"/g".to_vec());
    assert_eq!(resolve_workdir(&None, &current), b"/c".to_vec());
    assert_eq!(resolve_workdir(&None, &None), b".".to_vec());
}

#[test]
fn exemptions_are_canonical_where_they_exist() {
    assert_eq!(
        override_path(b"/l", &Resolution::Resolved(b"/r".to_vec())),
        Some(b"/r".to_vec())
    );
    assert_eq!(
        override_path(b"/l", &Resolution::Missing),
        Some(b"/l".to_vec())
    );
    assert_eq!(
        override_path(b"/l", &Resolution::Failed("x".to_string())),
        None
    );
}

#[test]
fn answers_carry_an_explanation_only_where_asked() {
    let mut caps = CapabilitySet::new().block_command("rm");
    caps.add_fs(FsCapability {
        resolved: b"/a".to_vec(),
        access: AccessMode::Read,
        is_file: false,
        source: CapabilitySource::System,
    });
    let ask = |question: WhyQuestion| {
        answer_why(&question, &caps, &vec![], &context("/a/b")).expect("answer")
    };
    let path = |explain: bool| WhyQuestion::Path {
        path: b"/a/b".to_vec(),
        requested: AccessMode::Read,
        explain,
    };
    let plain = ask(path(false));
    let explained = ask(path(true));
    assert_eq!(plain.verdict, explained.verdict);
    assert_eq!(plain.matches, None);
    assert_eq!(
        explained.matches,
        Some(vec![ExplainedMatch {
            path: "/a".to_string(),
            access: "read".to_string(),
            source: "system".to_string(),
            sufficient: true,
        }])
    );
    assert!(matches!(
        ask(WhyQuestion::Tcp { port: 1 }).verdict,
        QueryResult::Allowed { .. }
    ));
    assert!(matches!(
        ask(WhyQuestion::Command {
            name: "rm".to_string()
        })
        .verdict,
        QueryResult::Denied { .. }
    ));
    assert!(matches!(
        ask(WhyQuestion::Network {
            host: "h".to_string(),
            port: 1
        })
        .verdict,
        QueryResult::Allowed { .. }
    ));
}

#[test]
fn answers_are_documents() {
    let verdict: serde_json::Value =
        serde_json::from_str("{\"status\": \"allowed\"}").expect("verdict");
    let rows: serde_json::Value = serde_json::from_str("[]").expect("rows");
    assert_eq!(
        serde_json::to_string(&answer_value(verdict.clone(), None)).expect("json"),
        "{\"status\":\"allowed\"}"
    );
    assert_eq!(
        serde_json::to_string(&answer_value(verdict, Some(rows))).expect("json"),
        "{\"matches\":[],\"result\":{\"status\":\"allowed\"}}"
    );
}

#[test]
fn long_paths_are_shortened_from_the_left() {
    let short = "x".repeat(48);
    assert_eq!(shorten_path(&short), short);
    let long = format!("/start/{}", "y".repeat(47));
    assert_eq!(shorten_path(&long), format!("…{}", "y".repeat(47)));
}

#[test]
fn explanations_are_tables() {
    assert_eq!(
        render_explained_matches(&vec![]),
        "All matching capabilities:\n  (no fs capability covers this path)\n"
    );
    let rows = vec![
        ExplainedMatch {
            path: "/a/b".to_string(),
            access: "read+write".to_string(),
            source: "group:dev".to_string(),
            sufficient: true,
        },
        ExplainedMatch {
            path: "/a".to_string(),
            access: "read".to_string(),
            source: "user".to_string(),
            sufficient: false,
        },
    ];
    let out = render_explained_matches(&rows);
    let lines: Vec<&str> = out.lines().collect();
    assert_eq!(lines.len(), 4);
    assert_eq!(lines[0], "All matching capabilities:");
    assert_eq!(
        lines[1],
        format!(
            "  {:<48}  {:<10}  {:<24}  SUFFICIENT?",
            "PATH", "ACCESS", "SOURCE"
        )
    );
    assert_eq!(
        lines[2],
        format!(
            "  {:<48}  {:<10}  {:<24}  yes",
            "/a/b", "read+write", "group:dev"
        )
    );
    assert_eq!(
        lines[3],
        format!("  {:<48}  {:<10}  {:<24}  no", "/a", "read", "user")
    );
}

#[test]
fn results_are_shown_line_by_line() {
    let allowed = QueryResult::Allowed {
        reason: "r".to_string(),
        granted_path: Some("/p".to_string()),
        access: Some("read".to_string()),
        source: None,
    };
    assert_eq!(
        render_result_lines(&allowed),
        "  Reason: r\n  Granted by: /p\n  Access: read\n"
    );
    let denied = QueryResult::Denied {
        reason: "r".to_string(),
        details: Some("d".to_string()),
        policy_source: Some("group:g".to_string()),
        matching_capability: Some(CapabilityMatch {
            path: "/p".to_string(),
            access: "read".to_string(),
            source: "user".to_string(),
        }),
        suggested_flag: Some("--read /p".to_string()),
    };
    assert_eq!(
        render_result_lines(&denied),
        "  Reason: r\n  Details: d\n  Policy: group:g\n  Closest match: /p (read, user)\n  Suggested fix: --read /p\n"
    );
    assert_eq!(
        render_result_lines(&not_sandboxed()),
        "  Not running inside a nono sandbox\n"
    );
}

#[test]
fn results_have_a_bold_heading() {
    colored::control::set_override(true);
    let denied = QueryResult::Denied {
        reason: "r".to_string(),
        details: None,
        policy_source: None,
        matching_capability: None,
        suggested_flag: None,
    };
    assert_eq!(
        render_result(&denied),
        "\x1b[1;31mDENIED\x1b[0m\n  Reason: r\n"
    );
    assert!(render_result(&not_sandboxed()).starts_with("\x1b[1;33mNOT SANDBOXED\x1b[0m\n"));
    colored::control::set_override(false);
    let allowed = QueryResult::Allowed {
        reason: "r".to_string(),
        granted_path: None,
        access: None,
        source: Some("s".to_string()),
    };
    assert_eq!(
        render_result(&allowed),
        "ALLOWED\n  Reason: r\n  Source: s\n"
    );
}

#[test]
fn answers_are_shown_with_their_explanation() {
    colored::control::set_override(false);
    let plain = WhyAnswer {
        verdict: not_sandboxed(),
        matches: None,
    };
    assert_eq!(
        render_answer(&plain),
        "NOT SANDBOXED\n  Not running inside a nono sandbox\n"
    );
    let explained = WhyAnswer {
        verdict: not_sandboxed(),
        matches: Some(vec![]),
    };
    assert_eq!(
        render_answer(&explained),
        "NOT SANDBOXED\n  Not running inside a nono sandbox\n\nAll matching capabilities:\n  (no fs capability covers this path)\n"
    );
}
