# nono_cli

The decision logic of the `nono` command line, written and proved in Verus: what a sandbox permits
and why (`nono why`), which sessions are listed and how (`nono ps`), what may be done to a session
(`stop`, `detach`, `attach`, `inspect`, `logs`, `prune`), and the schema of `--dry-run-json`.

- `src/` is the library. Every function states in its contract what it returns.
  - `query_ext`, `why`: answers about paths, ports, hosts and commands. `capability`, `paths`:
    grants and Unix paths. `query_laws`: what holds of the answers as a whole.
  - `ps_filter`, `ps_order`, `ps_table`, `ps_tabular`, `ps_report`: the list of sessions.
    `table_laws`, `tabular_laws`: layout, and reading CSV, TSV and NDJSON back.
  - `lifecycle`, `event_log`, `inspect`, `prune`: single sessions.
  - `field_extract`, `json`, `schema_cmd`: JSON documents, through `serde_json`.
  - `clock`, `duration`, `numbers`, `text`, `order`, `paint`, `command_display`: building blocks.
    `clock` reads time through `chrono`, `paint` colors through `colored`.
- `app/` reads files, the clock and the terminal, sends signals and prints.
- `tests/` runs the library on concrete values.

Calls into other crates and into parts of `std` stand behind items that are marked
`external_body` or `assume_specification`. Their doc comments say what is taken for granted.
