//! `nono dry-run-schema`: the JSON Schema of `--dry-run-json` output.

use vstd::prelude::*;

use crate::cli::DryRunSchemaArgs;
use crate::error;
use crate::error::{ErrorView, NonoError};
use crate::field_extract;
use crate::json;
use crate::paths;

verus! {

/// JSON Schema (draft 2020-12) of the `--dry-run-json` output. Adding a key keeps the schema
/// version; removing or renaming one needs a new version.
pub const DRY_RUN_JSON_SCHEMA: &'static str = r#"{
  "$schema": "https://json-schema.org/draft/2020-12/schema",
  "$id": "https://nono.dev/schemas/dry-run-json/v1.json",
  "title": "nono --dry-run-json output",
  "description": "JSON document emitted by `nono run --dry-run-json` (and `shell` / `wrap` variants) describing the resolved capability set without applying the sandbox. Stable within schema_version 1; new keys are additive, removals or renames bump the version.",
  "type": "object",
  "required": [
    "schema_version",
    "command",
    "filesystem",
    "unix_sockets",
    "network",
    "tcp_connect_ports",
    "tcp_bind_ports",
    "localhost_ports",
    "signal_mode",
    "process_info_mode",
    "ipc_mode",
    "extensions_enabled",
    "platform_rules_count",
    "allowed_commands",
    "blocked_commands",
    "secrets_count",
    "env_filter",
    "override_deny_paths",
    "network_profile",
    "allow_domain",
    "listen_ports",
    "capability_elevation",
    "allow_launch_services_active",
    "allow_gpu_active"
  ],
  "properties": {
    "schema_version": {
      "type": "integer",
      "const": 1,
      "description": "Schema version. Bumped on incompatible changes; additive key growth keeps the same number."
    },
    "command": {
      "type": "array",
      "items": { "type": "string" },
      "description": "Resolved program path followed by argv. Equivalent to what would be exec'd if this were not a dry-run."
    },
    "filesystem": {
      "type": "array",
      "description": "Filesystem capability grants. Each entry covers a path with an access mode (read / write / read+write) and an attribution source (user / profile / group / system)."
    },
    "unix_sockets": {
      "type": "array",
      "description": "AF_UNIX socket grants."
    },
    "network": {
      "type": "object",
      "description": "Resolved network mode. One of: Blocked, AllowAll, or ProxyOnly { port, bind_ports }."
    },
    "tcp_connect_ports": {
      "type": "array",
      "items": { "type": "integer", "minimum": 0, "maximum": 65535 },
      "description": "Outbound TCP connect allowlist (Linux Landlock V4+ enforces; macOS Seatbelt parity)."
    },
    "tcp_bind_ports": {
      "type": "array",
      "items": { "type": "integer", "minimum": 0, "maximum": 65535 },
      "description": "Inbound TCP bind allowlist."
    },
    "localhost_ports": {
      "type": "array",
      "items": { "type": "integer", "minimum": 0, "maximum": 65535 },
      "description": "Bidirectional localhost-pinned ports (covers both bind and connect)."
    },
    "signal_mode": { "description": "Signal isolation mode." },
    "process_info_mode": { "description": "Process info visibility mode." },
    "ipc_mode": { "description": "IPC isolation mode." },
    "extensions_enabled": {
      "type": "object",
      "description": "Per-extension opt-in flags."
    },
    "platform_rules_count": {
      "type": "integer",
      "minimum": 0,
      "description": "Number of resolved platform-specific rules."
    },
    "allowed_commands": {
      "type": "array",
      "items": { "type": "string" },
      "description": "Explicit command allowlist (overrides the policy blocklist for matching basenames)."
    },
    "blocked_commands": {
      "type": "array",
      "items": { "type": "string" },
      "description": "Resolved command blocklist."
    },
    "secrets_count": {
      "type": "integer",
      "minimum": 0,
      "description": "Number of secrets the proxy was wired to inject. The actual values are NEVER serialized — only the count."
    },
    "env_filter": {
      "description": "Environment variable filter. Tagged: { type: 'inherit_all' } or { type: 'restricted', allowed_keys: [...] }."
    },
    "override_deny_paths": {
      "type": "array",
      "items": { "type": "string" },
      "description": "Canonicalized paths that have been exempted from sensitive-path deny groups."
    },
    "network_profile": {
      "type": ["string", "null"],
      "description": "Active network profile name, or null if none was selected."
    },
    "allow_domain": {
      "type": "array",
      "items": { "type": "string" },
      "description": "Domain allowlist enforced at the proxy layer."
    },
    "listen_ports": {
      "type": "array",
      "items": { "type": "integer", "minimum": 0, "maximum": 65535 }
    },
    "capability_elevation": {
      "type": "boolean",
      "description": "Whether `--capability-elevation` is active for this run."
    },
    "allow_launch_services_active": {
      "type": "boolean",
      "description": "Whether the macOS launch-services shim is active."
    },
    "allow_gpu_active": {
      "type": "boolean",
      "description": "Whether GPU access is granted."
    }
  }
}
"#;

/// What is printed for one field of the schema.
pub open spec fn schema_field_output(field: Seq<char>, compact: bool) -> Result<
    Seq<char>,
    ErrorView,
> {
    match json::parsed_json(DRY_RUN_JSON_SCHEMA@) {
        Ok(document) => field_extract::field_output(document, field, compact),
        Err(e) => Err(ErrorView::ConfigParse("Failed to parse schema document: "@ + e)),
    }
}

/// Takes one field out of the schema.
pub fn extract_schema_field(field: &str, compact: bool) -> (r: Result<String, NonoError>)
    ensures
        error::outcome(r) == schema_field_output(field@, compact),
{
    match json::parse_json(DRY_RUN_JSON_SCHEMA) {
        Ok(value) => field_extract::extract_field_output(&value, field, compact),
        Err(e) => {
            let mut m = "Failed to parse schema document: ".to_owned();
            m.append(e.as_str());
            Err(NonoError::ConfigParse(m))
        },
    }
}

/// What to do with the schema.
#[derive(Debug, Clone, PartialEq, Eq)]
pub enum SchemaAction {
    /// Print a line.
    PrintLine(String),
    /// Write the text to a file, and then print the confirmation on the error stream.
    WriteFile { path: Vec<u8>, text: String, confirmation: String },
    /// Print the text as it is.
    PrintText(String),
}

/// What a run puts on the output stream.
pub open spec fn printed_text(action: SchemaAction) -> Seq<char> {
    match action {
        SchemaAction::PrintLine(line) => line@ + "\n"@,
        SchemaAction::WriteFile { .. } => Seq::empty(),
        SchemaAction::PrintText(text) => text@,
    }
}

/// What a run puts into which file.
pub open spec fn written_file(action: SchemaAction) -> Option<(Seq<u8>, Seq<char>)> {
    match action {
        SchemaAction::WriteFile { path, text, .. } => Some((path@, text@)),
        _ => None,
    }
}

/// Whether `r` is what to do with the schema: a field is taken out where one is asked for, else
/// the whole schema goes to a file where one is named, else it is printed.
pub open spec fn is_plan(r: Result<SchemaAction, NonoError>, args: DryRunSchemaArgs) -> bool {
    match (args.field, args.output) {
        (Some(field), _) => match r {
            Ok(SchemaAction::PrintLine(line)) => schema_field_output(field@, args.compact) == Ok::<
                Seq<char>,
                ErrorView,
            >(line@),
            Ok(_) => false,
            Err(e) => schema_field_output(field@, args.compact) == Err::<Seq<char>, ErrorView>(e@),
        },
        (None, Some(path)) => r matches Ok(SchemaAction::WriteFile { path: p, text, confirmation })
            && p@ == path@ && text@ == DRY_RUN_JSON_SCHEMA@ && confirmation@
            == "Schema written to "@ + paths::shown(path@),
        (None, None) => r matches Ok(SchemaAction::PrintText(text)) && text@
            == DRY_RUN_JSON_SCHEMA@,
    }
}

/// Decides what to do with the schema.
pub fn plan_dry_run_schema(args: &DryRunSchemaArgs) -> (r: Result<SchemaAction, NonoError>)
    ensures
        is_plan(r, *args),
{
    match (&args.field, &args.output) {
        (Some(field), _) => match extract_schema_field(field.as_str(), args.compact) {
            Ok(line) => Ok(SchemaAction::PrintLine(line)),
            Err(e) => Err(e),
        },
        (None, Some(path)) => {
            let mut confirmation = "Schema written to ".to_owned();
            confirmation.append(paths::display(path).as_str());
            Ok(
                SchemaAction::WriteFile {
                    path: paths::bytes_copy(path),
                    text: DRY_RUN_JSON_SCHEMA.to_owned(),
                    confirmation,
                },
            )
        },
        (None, None) => Ok(SchemaAction::PrintText(DRY_RUN_JSON_SCHEMA.to_owned())),
    }
}

/// A run that is told a file puts there exactly what a run without a file prints, and prints
/// nothing itself.
pub proof fn law_file_gets_what_would_be_printed(
    to_file: DryRunSchemaArgs,
    to_stdout: DryRunSchemaArgs,
    written: Result<SchemaAction, NonoError>,
    printed: Result<SchemaAction, NonoError>,
)
    requires
        to_file.field is None,
        to_file.output is Some,
        to_stdout.field is None,
        to_stdout.output is None,
        is_plan(written, to_file),
        is_plan(printed, to_stdout),
    ensures
        written matches Ok(w) && printed matches Ok(p) && written_file(w) == Some(
            (to_file.output->0@, printed_text(p)),
        ) && printed_text(w) == Seq::<char>::empty() && written_file(p) is None,
{
}

/// The error for a schema that could not be written to a file.
pub fn schema_write_failed(path: &[u8], reason: &str) -> (e: NonoError)
    ensures
        e@ == ErrorView::ConfigParse(
            "Failed to write schema to "@ + paths::shown(path@) + ": "@ + reason@,
        ),
{
    let mut m = "Failed to write schema to ".to_owned();
    m.append(paths::display(path).as_str());
    m.append(": ");
    m.append(reason);
    NonoError::ConfigParse(m)
}

/// The error for a schema that could not be printed.
pub fn schema_print_failed(reason: &str) -> (e: NonoError)
    ensures
        e@ == ErrorView::ConfigParse("Failed to write schema to stdout: "@ + reason@),
{
    let mut m = "Failed to write schema to stdout: ".to_owned();
    m.append(reason);
    NonoError::ConfigParse(m)
}

/// A field that is asked for is printed on a line or is an error, whatever file is named; the whole
/// schema is written or printed as it stands, and never fails to be found.
pub proof fn law_schema_goes_where_it_is_asked_for(
    r: Result<SchemaAction, NonoError>,
    args: DryRunSchemaArgs,
)
    requires
        is_plan(r, args),
    ensures
        args.field is None ==> r is Ok,
        r matches Ok(action) ==> {
            &&& action is PrintLine <==> args.field is Some
            &&& action is WriteFile <==> args.field is None && args.output is Some
            &&& action is PrintText <==> args.field is None && args.output is None
        },
        r matches Ok(SchemaAction::PrintText(text)) ==> text@ == DRY_RUN_JSON_SCHEMA@,
        r matches Ok(SchemaAction::WriteFile { path, text, confirmation }) ==> path@
            == args.output->0@ && text@ == DRY_RUN_JSON_SCHEMA@ && confirmation@
            == "Schema written to "@ + paths::shown(args.output->0@),
        r matches Ok(SchemaAction::PrintLine(line)) ==> (json::parsed_json(
            DRY_RUN_JSON_SCHEMA@,
        ) matches Ok(document) && field_extract::field_output(
            document,
            args.field->0@,
            args.compact,
        ) == Ok::<Seq<char>, ErrorView>(line@)),
        args.field is Some && json::parsed_json(DRY_RUN_JSON_SCHEMA@) is Ok ==> (r is Ok
            <==> json::pointed_json(
            json::parsed_json(DRY_RUN_JSON_SCHEMA@)->Ok_0,
            field_extract::field_pointer(args.field->0@),
        ) is Some),
{
}

/// A schema that cannot be parsed has no fields, and the error says why.
pub proof fn law_unreadable_schemas_have_no_fields(field: Seq<char>, compact: bool)
    ensures
        json::parsed_json(DRY_RUN_JSON_SCHEMA@) matches Err(reason) ==> schema_field_output(
            field,
            compact,
        ) == Err::<Seq<char>, ErrorView>(
            ErrorView::ConfigParse("Failed to parse schema document: "@ + reason),
        ),
{
}

} // verus!
