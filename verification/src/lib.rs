//! Verified decision logic of the `nono` command line.

pub mod capability;
pub mod cli;
pub mod clock;
pub mod command_display;
pub mod duration;
pub mod error;
pub mod event_log;
pub mod field_extract;
pub mod inspect;
pub mod json;
pub mod lifecycle;
pub mod numbers;
pub mod order;
pub mod paint;
pub mod paths;
pub mod prune;
pub mod ps_filter;
pub mod ps_order;
pub mod ps_report;
pub mod ps_table;
pub mod ps_tabular;
pub mod query_ext;
pub mod query_laws;
pub mod schema_cmd;
pub mod session;
pub mod table_laws;
pub mod tabular_laws;
pub mod text;
pub mod why;
