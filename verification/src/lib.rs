//! A compatibility matrix: facts about software components, and the answers that
//! follow from them.
//!
//! A construct stores facts with their revisions (`construct`, `history`, `service`).
//! Producers turn the reports of other tools into facts (`ingest`, `junit`, `sbom`,
//! `stages`, `batches`). Clients fetch facts into a local cache (`cache`, `calls`,
//! `request`), query them with SQL (`sql`, `readonly`, `views`, `queries`, `facts`) and
//! search the graph that they make (`graph`, `paths`, `answers`, `graphql`, `selection`,
//! `graph_query`, `explain`, `inventory`). The command line and its shell are settings,
//! sessions and renderings (`config`, `settings`, `context`, `repl`, `repl_args`,
//! `session`, `shell`, `render`, `human`, `output`, `console`, `reports`, `update`,
//! `oracle`). `text`, `order`, `json` and `codec` are what all of them share.
//!
//! The modules whose names end in `_laws` hold what can be relied on across functions: what
//! the members of an answer say of the facts and edges it was made of, how two questions
//! relate, and what every input that is given ends up as.
use vstd::prelude::*;

pub mod answer_laws;
pub mod answers;
pub mod batches;
pub mod cache;
pub mod calls;
pub mod client_laws;
pub mod codec;
pub mod config;
pub mod console;
pub mod construct;
pub mod context;
pub mod explain;
pub mod fact_laws;
pub mod facts;
pub mod graph;
pub mod graph_laws;
pub mod graph_query;
pub mod graphql;
pub mod history;
pub mod history_laws;
pub mod human;
pub mod ingest;
pub mod ingest_laws;
pub mod inventory;
pub mod json;
pub mod junit;
pub mod normal;
pub mod oracle;
pub mod order;
pub mod output;
pub mod paths;
pub mod queries;
pub mod query_laws;
pub mod readonly;
pub mod render;
pub mod repl;
pub mod repl_args;
pub mod report_laws;
pub mod reports;
pub mod request;
pub mod sbom;
pub mod selection;
pub mod service;
pub mod service_laws;
pub mod session;
pub mod session_laws;
pub mod settings;
pub mod shell;
pub mod shell_laws;
pub mod show_laws;
pub mod sql;
pub mod stages;
pub mod text;
pub mod text_laws;
pub mod update;
pub mod version_laws;
pub mod views;

verus! {

} // verus!
