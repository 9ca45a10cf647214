use nono_cli::schema_cmd::DRY_RUN_JSON_SCHEMA;


#[test]
fn schema_parses_as_valid_json() {
    let value: serde_json::Value =
        serde_json::from_str(DRY_RUN_JSON_SCHEMA).expect("schema must parse as JSON");
    assert!(
        value.is_object(),
        "schema root must be a JSON object, got {value:?}"
    );
}

#[test]
fn schema_declares_jsonschema_draft_and_id() {
    let value: serde_json::Value = serde_json::from_str(DRY_RUN_JSON_SCHEMA).expect("parse");
    let obj = value.as_object().expect("object");
    assert!(
        obj.get("$schema")
            .and_then(|v| v.as_str())
            .unwrap_or_default()
            .contains("json-schema.org"),
        "schema must declare its $schema dialect URL"
    );
    assert!(obj.contains_key("$id"), "schema must declare a stable $id");
}

#[test]
fn schema_required_list_matches_runtime_output_keys() {
    let value: serde_json::Value = serde_json::from_str(DRY_RUN_JSON_SCHEMA).expect("parse");
    let required: Vec<&str> = value["required"]
        .as_array()
        .expect("required is array")
        .iter()
        .map(|v| v.as_str().expect("required entry is string"))
        .collect();

    let runtime_keys = [
        "schema_version",
        "command",
        "filesystem",
        "unix_sockets",
        "network",
        "tcp_connect_ports",
        "tcp_bind_ports",
        "localhost_ports",
        "signal_mode",
        "process_info_mode",
        "ipc_mode",
        "extensions_enabled",
        "platform_rules_count",
        "allowed_commands",
        "blocked_commands",
        "secrets_count",
        "env_filter",
        "override_deny_paths",
        "network_profile",
        "allow_domain",
        "listen_ports",
        "capability_elevation",
        "allow_launch_services_active",
        "allow_gpu_active",
    ];

    for k in runtime_keys {
        assert!(
            required.contains(&k),
            "schema's `required` list missing runtime key {k:?}"
        );
    }
    assert_eq!(
        required.len(),
        runtime_keys.len(),
        "schema's required list and runtime keys must be 1:1"
    );
}

#[test]
fn schema_pins_schema_version_to_one() {
    let value: serde_json::Value = serde_json::from_str(DRY_RUN_JSON_SCHEMA).expect("parse");
    let const_val = &value["properties"]["schema_version"]["const"];
    assert_eq!(*const_val, serde_json::Value::from(1));
}
