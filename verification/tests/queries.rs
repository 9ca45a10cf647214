use nono_cli::capability::{AccessMode, CapabilitySet, CapabilitySource, FsCapability};
use nono_cli::error::NonoError;
use nono_cli::query_ext::{
    parse_host_port, query_command, query_network, query_path, query_path_explained,
    query_tcp_bind_port, query_tcp_port, PathContext, PathProbe, QueryResult, Resolution,
    SensitiveMatch, TargetFacts,
};

/// An existing file that is canonical already.
fn existing_file(path: &str) -> PathContext {
    PathContext {
        probe: PathProbe {
            itself: Resolution::Resolved(path.as_bytes().to_vec()),
            parent: Resolution::Missing,
        },
        target: TargetFacts {
            exists: true,
            is_file: true,
            is_dir: false,
        },
        sensitive: Ok(None),
    }
}

/// A path of which neither itself nor its parent exists.
fn missing() -> PathContext {
    PathContext {
        probe: PathProbe {
            itself: Resolution::Missing,
            parent: Resolution::Missing,
        },
        target: TargetFacts {
            exists: false,
            is_file: false,
            is_dir: false,
        },
        sensitive: Ok(None),
    }
}

fn directory_grant(path: &str, access: AccessMode, source: CapabilitySource) -> FsCapability {
    FsCapability {
        resolved: path.as_bytes().to_vec(),
        access,
        is_file: false,
        source,
    }
}

#[test]
fn test_query_path_granted() {
    let mut caps = CapabilitySet::new();
    caps.add_fs(directory_grant(
        "/tmp/work",
        AccessMode::ReadWrite,
        CapabilitySource::User,
    ));
    let result = query_path(
        b"/tmp/work/test.txt",
        AccessMode::Read,
        &caps,
        &vec![],
        &existing_file("/tmp/work/test.txt"),
    )
    .expect("Query failed");
    match result {
        QueryResult::Allowed {
            source,
            granted_path,
            access,
            ..
        } => {
            assert_eq!(source.as_deref(), Some("user"));
            assert_eq!(granted_path.as_deref(), Some("/tmp/work"));
            assert_eq!(access.as_deref(), Some("read+write"));
        }
        _ => panic!("expected allowed result"),
    }
}

#[test]
fn test_query_path_denied() {
    let caps = CapabilitySet::new();
    let result = query_path(
        b"/some/random/path",
        AccessMode::Read,
        &caps,
        &vec![],
        &missing(),
    )
    .expect("Query failed");
    match result {
        QueryResult::Denied {
            reason,
            suggested_flag,
            matching_capability,
            ..
        } => {
            assert_eq!(reason, "path_not_granted");
            assert_eq!(suggested_flag.as_deref(), Some("--read /some/random"));
            assert!(matching_capability.is_none());
        }
        _ => panic!("expected denied result"),
    }
}

#[test]
fn test_query_path_prefers_more_specific_sufficient_capability() {
    let mut caps = CapabilitySet::new();
    caps.add_fs(directory_grant(
        "/tmp",
        AccessMode::Read,
        CapabilitySource::System,
    ));
    caps.add_fs(directory_grant(
        "/tmp/work",
        AccessMode::ReadWrite,
        CapabilitySource::User,
    ));
    let result = query_path(
        b"/tmp/work/test.txt",
        AccessMode::Write,
        &caps,
        &vec![],
        &existing_file("/tmp/work/test.txt"),
    )
    .expect("Query failed");
    assert!(matches!(result, QueryResult::Allowed { .. }));
}

#[test]
fn test_query_path_reports_near_miss_with_source_and_fix() {
    let mut caps = CapabilitySet::new();
    caps.add_fs(directory_grant(
        "/tmp/work",
        AccessMode::Read,
        CapabilitySource::Group("dev".to_string()),
    ));
    let result = query_path(
        b"/tmp/work/test.txt",
        AccessMode::Write,
        &caps,
        &vec![],
        &existing_file("/tmp/work/test.txt"),
    )
    .expect("Query failed");
    match result {
        QueryResult::Denied {
            reason,
            matching_capability,
            suggested_flag,
            details,
            ..
        } => {
            assert_eq!(reason, "insufficient_access");
            assert_eq!(
                suggested_flag.as_deref(),
                Some("--write-file /tmp/work/test.txt")
            );
            let capability = matching_capability.expect("expected matching capability");
            assert_eq!(capability.access, "read");
            assert_eq!(capability.source, "group:dev");
            assert_eq!(
                details.as_deref(),
                Some("Path is covered by '/tmp/work', which grants read access from group:dev but write was requested")
            );
            assert!(details
                .as_deref()
                .is_some_and(|d| d.contains("group:dev") && d.contains("write was requested")));
        }
        _ => panic!("expected denied result"),
    }
}

#[test]
fn test_query_path_sensitive_policy_includes_policy_source() {
    let caps = CapabilitySet::new();
    let mut context = existing_file("/home/user/.ssh");
    context.sensitive = Ok(Some(SensitiveMatch {
        group_name: "deny_credentials".to_string(),
        description: "Credentials.".to_string(),
    }));
    let result = query_path(
        b"/home/user/.ssh",
        AccessMode::Read,
        &caps,
        &vec![],
        &context,
    )
    .expect("Query failed");
    match result {
        QueryResult::Denied {
            reason,
            policy_source,
            suggested_flag,
            details,
            ..
        } => {
            assert_eq!(reason, "sensitive_path");
            assert_eq!(policy_source.as_deref(), Some("group:deny_credentials"));
            assert!(policy_source
                .as_deref()
                .is_some_and(|policy| policy.starts_with("group:")));
            assert!(details
                .as_deref()
                .is_some_and(|detail| detail.contains("policy.override_deny")));
            assert_eq!(
                details.as_deref(),
                Some("Blocked by policy group 'deny_credentials': Credentials. Use policy.override_deny to exempt specific paths when appropriate.")
            );
            assert!(suggested_flag.is_none());
        }
        _ => panic!("expected denied result"),
    }
}

#[test]
fn query_path_explained_lists_all_covers_with_sufficiency_flags() {
    let mut caps = CapabilitySet::new();
    caps.add_fs(directory_grant(
        "/tmp/outer",
        AccessMode::Read,
        CapabilitySource::User,
    ));
    caps.add_fs(directory_grant(
        "/tmp/outer/inner",
        AccessMode::ReadWrite,
        CapabilitySource::User,
    ));
    let (verdict, matches) = query_path_explained(
        b"/tmp/outer/inner/file.txt",
        AccessMode::Write,
        &caps,
        &vec![],
        &existing_file("/tmp/outer/inner/file.txt"),
    )
    .expect("query");
    assert!(matches!(verdict, QueryResult::Allowed { .. }));
    assert_eq!(matches.len(), 2, "both covers must be listed: {matches:?}");
    assert_eq!(matches[0].path, "/tmp/outer/inner");
    assert!(matches[0].sufficient, "sub is ReadWrite ⇒ sufficient");
    assert_eq!(matches[1].path, "/tmp/outer");
    assert!(
        !matches[1].sufficient,
        "outer is Read-only, not sufficient for Write"
    );
}

#[test]
fn query_path_explained_returns_empty_matches_when_nothing_covers() {
    let caps = CapabilitySet::new();
    let (_verdict, matches) = query_path_explained(
        b"/usr/bin",
        AccessMode::Read,
        &caps,
        &vec![],
        &existing_file("/usr/bin"),
    )
    .expect("query");
    assert!(
        matches.is_empty(),
        "empty caps ⇒ nothing covers ⇒ empty list"
    );
}

#[test]
fn query_path_passes_errors_on() {
    let caps = CapabilitySet::new();
    let mut context = missing();
    context.probe.itself = Resolution::Failed("loop".to_string());
    let err = query_path(b"/a/b", AccessMode::Read, &caps, &vec![], &context).expect_err("loop");
    assert_eq!(
        err,
        NonoError::PathCanonicalization {
            path: b"/a/b".to_vec(),
            source: "loop".to_string()
        }
    );
    assert_eq!(err.message(), "Failed to canonicalize path /a/b: loop");

    context.probe.itself = Resolution::Missing;
    context.probe.parent = Resolution::Failed("denied".to_string());
    let err = query_path(b"/a/b", AccessMode::Read, &caps, &vec![], &context).expect_err("denied");
    assert_eq!(
        err,
        NonoError::PathCanonicalization {
            path: b"/a".to_vec(),
            source: "denied".to_string()
        }
    );

    let mut context = missing();
    context.sensitive = Err(NonoError::ConfigParse("no policy".to_string()));
    let err = query_path(b"/a/b", AccessMode::Read, &caps, &vec![], &context).expect_err("policy");
    assert_eq!(err.message(), "no policy");
    // An exempt path does not need the policy.
    assert!(query_path(
        b"/a/b",
        AccessMode::Read,
        &caps,
        &vec![b"/a".to_vec()],
        &context
    )
    .is_ok());
}

#[test]
fn exempt_paths_skip_the_policy_with_their_children() {
    let mut caps = CapabilitySet::new();
    caps.add_fs(directory_grant(
        "/home/user/.ssh",
        AccessMode::Read,
        CapabilitySource::Profile,
    ));
    let mut context = existing_file("/home/user/.ssh/config");
    context.sensitive = Ok(Some(SensitiveMatch {
        group_name: "g".to_string(),
        description: "d".to_string(),
    }));
    let exempt = vec![b"/home/user/.ssh/".to_vec()];
    let result = query_path(
        b"/home/user/.ssh/config",
        AccessMode::Read,
        &caps,
        &exempt,
        &context,
    )
    .expect("query");
    match result {
        QueryResult::Allowed { source, .. } => assert_eq!(source.as_deref(), Some("profile")),
        other => panic!("expected allowed, got {other:?}"),
    }
    // `.sshx` is a sibling, not a child.
    let result = query_path(
        b"/home/user/.sshx",
        AccessMode::Read,
        &caps,
        &exempt,
        &PathContext {
            probe: PathProbe {
                itself: Resolution::Resolved(b"/home/user/.sshx".to_vec()),
                parent: Resolution::Missing,
            },
            ..context
        },
    )
    .expect("query");
    assert!(matches!(result, QueryResult::Denied { reason, .. } if reason == "sensitive_path"));
}

#[test]
fn missing_file_is_resolved_against_its_real_directory() {
    let mut caps = CapabilitySet::new();
    caps.add_fs(directory_grant(
        "/private/tmp",
        AccessMode::Write,
        CapabilitySource::System,
    ));
    let mut context = missing();
    context.probe.parent = Resolution::Resolved(b"/private/tmp".to_vec());
    let result = query_path(b"/tmp/new.txt", AccessMode::Write, &caps, &vec![], &context)
        .expect("query");
    assert!(matches!(result, QueryResult::Allowed { .. }));
}

#[test]
fn file_grants_cover_the_file_alone() {
    let mut caps = CapabilitySet::new();
    caps.add_fs(FsCapability {
        resolved: b"/etc/hosts".to_vec(),
        access: AccessMode::Read,
        is_file: true,
        source: CapabilitySource::User,
    });
    let hit = query_path(
        b"/etc/hosts",
        AccessMode::Read,
        &caps,
        &vec![],
        &existing_file("/etc/hosts"),
    )
    .expect("query");
    assert!(matches!(hit, QueryResult::Allowed { .. }));
    let miss = query_path(
        b"/etc/hosts/x",
        AccessMode::Read,
        &caps,
        &vec![],
        &existing_file("/etc/hosts/x"),
    )
    .expect("query");
    assert!(matches!(miss, QueryResult::Denied { reason, .. } if reason == "path_not_granted"));
}

#[test]
fn later_grant_wins_between_equally_long_paths() {
    let mut caps = CapabilitySet::new();
    caps.add_fs(directory_grant(
        "/srv",
        AccessMode::Read,
        CapabilitySource::System,
    ));
    caps.add_fs(directory_grant(
        "/srv",
        AccessMode::Read,
        CapabilitySource::User,
    ));
    let (verdict, rows) = query_path_explained(
        b"/srv/x",
        AccessMode::Read,
        &caps,
        &vec![],
        &existing_file("/srv/x"),
    )
    .expect("query");
    match verdict {
        QueryResult::Allowed { source, .. } => assert_eq!(source.as_deref(), Some("user")),
        other => panic!("expected allowed, got {other:?}"),
    }
    let sources: Vec<&str> = rows.iter().map(|r| r.source.as_str()).collect();
    assert_eq!(sources, vec!["system", "user"], "ties keep their order");
}

#[test]
fn suggestions_never_name_the_root() {
    let caps = CapabilitySet::new();
    let result = query_path(b"/newfile", AccessMode::ReadWrite, &caps, &vec![], &missing())
        .expect("query");
    match result {
        QueryResult::Denied { suggested_flag, .. } => {
            assert_eq!(suggested_flag.as_deref(), Some("--allow /newfile"))
        }
        other => panic!("expected denied, got {other:?}"),
    }
}

#[test]
fn paths_that_are_not_utf8_are_shown_with_replacements() {
    let caps = CapabilitySet::new();
    let result = query_path(b"/a/\xff", AccessMode::Write, &caps, &vec![], &missing())
        .expect("query");
    match result {
        QueryResult::Denied { details, .. } => assert_eq!(
            details.as_deref(),
            Some("Path is not covered by any capability: /a/\u{fffd}")
        ),
        other => panic!("expected denied, got {other:?}"),
    }
}

#[test]
fn parse_host_port_names_what_is_wrong() {
    let message = |input: &str| parse_host_port(input, 443).expect_err("error").message();
    assert_eq!(message(" "), "--net requires a non-empty host[:port]");
    assert_eq!(message("[]:1"), "--net IPv6 host inside brackets is empty");
    assert_eq!(
        message("[::1]"),
        "--net bracketed IPv6 form requires a port: `[::1]:<port>`"
    );
    assert_eq!(message("[::1]:x"), "--net invalid port `x`");
    assert_eq!(message("[::1]:0"), "--net port must be in 1..=65535");
    assert_eq!(message("[::1"), "--net unmatched `[` in IPv6 address");
    assert_eq!(message(":443"), "--net host portion is empty");
    assert_eq!(message("h:65536"), "--net invalid port `65536`");
    assert_eq!(message("h:"), "--net invalid port ``");
    assert_eq!(message("h:0"), "--net port must be in 1..=65535");
}

#[test]
fn parse_host_port_splits_at_the_last_colon_and_trims() {
    assert_eq!(
        parse_host_port("  ::1:80\n", 443).expect("parse"),
        ("::1".to_string(), 80)
    );
    assert_eq!(
        parse_host_port("h:+080", 443).expect("parse"),
        ("h".to_string(), 80)
    );
    assert_eq!(
        parse_host_port("[a]b]:1", 443).expect_err("junk").message(),
        "--net bracketed IPv6 form requires a port: `[a]:<port>`"
    );
}

#[test]
fn query_network_names_host_and_port() {
    let open = query_network("example.com", 8443, &CapabilitySet::new());
    assert_eq!(
        open,
        QueryResult::Allowed {
            reason: "network_allowed".to_string(),
            granted_path: None,
            access: Some("Connection to example.com:8443 would be allowed".to_string()),
            source: None,
        }
    );
    let blocked = query_network("example.com", 8443, &CapabilitySet::new().block_network());
    assert_eq!(
        blocked,
        QueryResult::Denied {
            reason: "network_blocked".to_string(),
            details: Some(
                "Network access is blocked. Connection to example.com:8443 would be denied."
                    .to_string()
            ),
            policy_source: None,
            matching_capability: None,
            suggested_flag: None,
        }
    );
}

#[test]
fn query_command_takes_the_last_component() {
    let caps = CapabilitySet::new().block_command("rm").block_command("..");
    for name in ["rm", "/bin/rm", "./rm", "bin//rm/", "a/./rm/."] {
        assert!(
            matches!(
                query_command(name, &caps).expect("query"),
                QueryResult::Denied { .. }
            ),
            "{name} is rm"
        );
    }
    assert!(matches!(
        query_command("..", &caps).expect("query"),
        QueryResult::Denied { .. }
    ));
    assert!(matches!(
        query_command("rmdir", &caps).expect("query"),
        QueryResult::Allowed { .. }
    ));
}

#[test]
fn tcp_denials_are_spelled_out() {
    let caps = CapabilitySet::new().block_network();
    match query_tcp_port(5432, &caps) {
        QueryResult::Denied { details, .. } => assert_eq!(
            details.as_deref(),
            Some("Port 5432 is not in tcp_connect_ports, tcp_bind_ports, or localhost_ports, and the resolved network mode blocks unfiltered outbound. Add `--allow-port 5432` (bind), `--allow-connect-port 5432` (connect), or relax with `--allow-net` to permit the port.")
        ),
        other => panic!("expected denied, got {other:?}"),
    }
    match query_tcp_bind_port(5432, &caps) {
        QueryResult::Denied { details, .. } => assert_eq!(
            details.as_deref(),
            Some("Port 5432 is not in tcp_bind_ports or localhost_ports, and the resolved network mode blocks unfiltered bind. Add `--allow-port 5432` (bind) or `--allow-localhost-port 5432` (bidirectional localhost) to permit binding. (`tcp_connect_ports` grants are intentionally ignored here — they authorize outbound only.)")
        ),
        other => panic!("expected denied, got {other:?}"),
    }
}

#[test]
fn bind_grant_satisfies_the_general_query() {
    let mut caps = CapabilitySet::new().block_network();
    caps.add_tcp_bind_port(9000);
    match query_tcp_port(9000, &caps) {
        QueryResult::Allowed { reason, access, .. } => {
            assert_eq!(reason, "tcp_bind_allowed");
            assert_eq!(access.as_deref(), Some("local TCP bind on port 9000"));
        }
        other => panic!("expected allowed, got {other:?}"),
    }
}

#[test]
fn test_query_network_allowed() {
    let caps = CapabilitySet::new(); // Network allowed by default
    let result = query_network("example.com", 443, &caps);
    assert!(matches!(result, QueryResult::Allowed { .. }));
}

#[test]
fn test_query_network_blocked() {
    let caps = CapabilitySet::new().block_network();
    let result = query_network("example.com", 443, &caps);
    assert!(matches!(result, QueryResult::Denied { .. }));
}

#[test]
fn test_query_command_blocked_returns_denied_with_suggested_flag() {
    let caps = CapabilitySet::new().block_command("rm");
    let result = query_command("rm", &caps).expect("query_command failed");
    match result {
        QueryResult::Denied {
            reason,
            suggested_flag,
            policy_source,
            ..
        } => {
            assert_eq!(reason, "blocked_command");
            assert_eq!(
                suggested_flag.as_deref(),
                Some("--allow-command rm"),
                "should hint at the override flag",
            );
            assert_eq!(policy_source.as_deref(), Some("policy:blocked_commands"));
        }
        other => panic!("expected denied, got {:?}", other),
    }
}

#[test]
fn test_query_command_strips_path_prefix_to_basename() {
    let caps = CapabilitySet::new().block_command("rm");
    let result = query_command("/bin/rm", &caps).expect("query_command failed");
    assert!(
        matches!(result, QueryResult::Denied { .. }),
        "absolute path to rm must still resolve as blocked"
    );
}

#[test]
fn test_query_command_allow_overrides_block() {
    let caps = CapabilitySet::new().block_command("rm").allow_command("rm");
    let result = query_command("rm", &caps).expect("query_command failed");
    match result {
        QueryResult::Allowed { reason, source, .. } => {
            assert_eq!(reason, "command_explicitly_allowed");
            assert_eq!(source.as_deref(), Some("policy:allowed_commands"));
        }
        other => panic!("expected allowed, got {:?}", other),
    }
}

#[test]
fn parse_host_port_accepts_plain_host_port() {
    let (host, port) = parse_host_port("api.openai.com:443", 8080).expect("parse");
    assert_eq!(host, "api.openai.com");
    assert_eq!(port, 443);
}

#[test]
fn parse_host_port_falls_back_to_default_when_port_omitted() {
    let (host, port) = parse_host_port("example.com", 1234).expect("parse");
    assert_eq!(host, "example.com");
    assert_eq!(port, 1234, "no `:` in input ⇒ default port");
}

#[test]
fn parse_host_port_handles_bracketed_ipv6() {
    let (host, port) = parse_host_port("[::1]:8080", 0).expect("parse");
    assert_eq!(host, "::1");
    assert_eq!(port, 8080);
}

#[test]
fn parse_host_port_rejects_empty_input() {
    assert!(parse_host_port("", 443).is_err());
    assert!(parse_host_port("   ", 443).is_err());
}

#[test]
fn parse_host_port_rejects_non_numeric_port() {
    assert!(parse_host_port("example.com:abc", 443).is_err());
}

#[test]
fn parse_host_port_rejects_zero_port() {
    assert!(parse_host_port("example.com:0", 443).is_err());
}

#[test]
fn parse_host_port_rejects_empty_host_in_split() {
    assert!(parse_host_port(":443", 443).is_err());
}

#[test]
fn query_tcp_port_localhost_pin_takes_precedence() {
    let caps = CapabilitySet::new()
        .block_network()
        .allow_localhost_port(8080);
    match query_tcp_port(8080, &caps) {
        QueryResult::Allowed { reason, source, .. } => {
            assert_eq!(reason, "tcp_localhost_pinned");
            assert_eq!(source.as_deref(), Some("policy:localhost_ports"));
        }
        other => panic!("expected allowed, got {other:?}"),
    }
}

#[test]
fn query_tcp_port_connect_list_attributed_correctly() {
    let mut caps = CapabilitySet::new().block_network();
    caps.add_tcp_connect_port(443);
    match query_tcp_port(443, &caps) {
        QueryResult::Allowed { reason, source, .. } => {
            assert_eq!(reason, "tcp_connect_allowed");
            assert_eq!(source.as_deref(), Some("policy:tcp_connect_ports"));
        }
        other => panic!("expected allowed, got {other:?}"),
    }
}

#[test]
fn query_tcp_port_blocked_network_with_no_allowlist_denies_with_hint() {
    let caps = CapabilitySet::new().block_network();
    match query_tcp_port(443, &caps) {
        QueryResult::Denied {
            reason,
            suggested_flag,
            ..
        } => {
            assert_eq!(reason, "tcp_port_not_allowlisted");
            assert_eq!(
                suggested_flag.as_deref(),
                Some("--allow-connect-port 443"),
                "should hint at connect-port override"
            );
        }
        other => panic!("expected denied, got {other:?}"),
    }
}

#[test]
fn query_tcp_port_unfiltered_network_lets_any_port_through() {
    let caps = CapabilitySet::new();
    match query_tcp_port(12345, &caps) {
        QueryResult::Allowed { reason, source, .. } => {
            assert_eq!(reason, "network_unrestricted");
            assert!(
                source.is_none(),
                "no source attribution when network is unfiltered"
            );
        }
        other => panic!("expected allowed, got {other:?}"),
    }
}

#[test]
fn parse_host_port_rejects_bracketed_form_without_port() {
    assert!(parse_host_port("[::1]", 443).is_err());
    assert!(parse_host_port("[::1]:", 443).is_err());
}

#[test]
fn test_query_command_unrelated_name_is_allowed() {
    let caps = CapabilitySet::new().block_command("rm");
    let result = query_command("echo", &caps).expect("query_command failed");
    match result {
        QueryResult::Allowed { reason, source, .. } => {
            assert_eq!(reason, "command_not_blocked");
            assert!(
                source.is_none(),
                "no source attribution when command isn't on any list"
            );
        }
        other => panic!("expected allowed, got {:?}", other),
    }
}

#[test]
fn query_tcp_bind_port_localhost_pin_takes_precedence() {
    let caps = CapabilitySet::new()
        .block_network()
        .allow_localhost_port(8080);
    match query_tcp_bind_port(8080, &caps) {
        QueryResult::Allowed {
            reason,
            source,
            access,
            ..
        } => {
            assert_eq!(reason, "tcp_localhost_pinned");
            assert_eq!(source.as_deref(), Some("policy:localhost_ports"));
            assert!(access.unwrap_or_default().contains("bind + connect"));
        }
        other => panic!("expected allowed, got {other:?}"),
    }
}

#[test]
fn query_tcp_bind_port_bind_list_attributed() {
    let mut caps = CapabilitySet::new().block_network();
    caps.add_tcp_bind_port(8080);
    match query_tcp_bind_port(8080, &caps) {
        QueryResult::Allowed { reason, source, .. } => {
            assert_eq!(reason, "tcp_bind_allowed");
            assert_eq!(source.as_deref(), Some("policy:tcp_bind_ports"));
        }
        other => panic!("expected allowed, got {other:?}"),
    }
}

#[test]
fn query_tcp_bind_port_ignores_connect_list() {
    let mut caps = CapabilitySet::new().block_network();
    caps.add_tcp_connect_port(8080);
    match query_tcp_bind_port(8080, &caps) {
        QueryResult::Denied {
            reason,
            suggested_flag,
            ..
        } => {
            assert_eq!(reason, "tcp_bind_not_allowlisted");
            assert_eq!(
                suggested_flag.as_deref(),
                Some("--allow-port 8080"),
                "bind hint should suggest --allow-port (not --allow-connect-port)"
            );
        }
        other => panic!(
            "expected denied — connect grant must not satisfy a bind query — got {other:?}"
        ),
    }
}

#[test]
fn query_tcp_bind_port_unfiltered_network_lets_any_port_through() {
    let caps = CapabilitySet::new();
    match query_tcp_bind_port(12345, &caps) {
        QueryResult::Allowed { reason, source, .. } => {
            assert_eq!(reason, "network_unrestricted");
            assert!(source.is_none());
        }
        other => panic!("expected allowed, got {other:?}"),
    }
}
