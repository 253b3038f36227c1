//! What the program reports of itself: its configuration, its reach, its cache and its
//! session.
use vstd::prelude::*;
use crate::config::{profile_name, Matrix};
use crate::json::{items_view, Json, JsonV};
use crate::repl_args::{extension_of, file_extension};
use crate::session::{mode_name, ReplState};
use crate::text::{
    cat2, cat3, decimal, digits_of, digits_of_usize, opt_view, same,
};

verus! {

// ---------------------------------------------------------------------------
// Diagnosis
// ---------------------------------------------------------------------------
/// What came of asking a construct for its overview.
#[derive(Debug)]
pub enum Reach {
    /// No construct is configured.
    Unset,
    Reached,
    Failed(String),
}

pub open spec fn reach_json(reach: Reach) -> JsonV {
    match reach {
        Reach::Reached => JsonV::empty_object().with("reachable"@, JsonV::Bool(true)),
        Reach::Failed(m) => JsonV::empty_object().with("reachable"@, JsonV::Bool(false)).with(
            "error"@,
            JsonV::Text(m@),
        ),
        Reach::Unset => JsonV::empty_object().with("reachable"@, JsonV::Bool(false)).with(
            "error"@,
            JsonV::Text("no construct configured"@),
        ),
    }
}

pub fn reach_value(reach: &Reach) -> (r: Json)
    ensures
        r@ == reach_json(*reach),
{
    match reach {
        Reach::Reached => Json::object().with("reachable", Json::Bool(true)),
        Reach::Failed(m) => Json::object().with("reachable", Json::Bool(false)).with(
            "error",
            Json::text(m.as_str()),
        ),
        Reach::Unset => Json::object().with("reachable", Json::Bool(false)).with(
            "error",
            Json::text("no construct configured"),
        ),
    }
}

/// What is configured, how requests are authorized, and whether the construct answers.
pub open spec fn doctor_json(matrix: Matrix, auth: JsonV, reach: Reach) -> JsonV {
    JsonV::empty_object().with("configPath"@, JsonV::Text(matrix.config_path@)).with(
        "profile"@,
        JsonV::opt_text(profile_name(matrix.profile)),
    ).with("construct"@, JsonV::opt_text(opt_view(matrix.construct))).with(
        "apiPrefix"@,
        JsonV::Text(matrix.api_prefix@),
    ).with("auth"@, auth).with("reachable"@, JsonV::Bool(reach is Reached)).with(
        "reachability"@,
        reach_json(reach),
    )
}

pub fn doctor(matrix: &Matrix, auth: Json, reach: &Reach) -> (r: Json)
    ensures
        r@ == doctor_json(*matrix, auth@, *reach),
{
    let profile = match matrix.profile {
        Some(p) => Json::text(p.as_str()),
        None => Json::Null,
    };
    let reached = matches!(reach, Reach::Reached);
    Json::object().with("configPath", Json::text(matrix.config_path.as_str())).with(
        "profile",
        profile,
    ).with("construct", Json::opt_text(&matrix.construct)).with(
        "apiPrefix",
        Json::text(matrix.api_prefix.as_str()),
    ).with("auth", auth).with("reachable", Json::Bool(reached)).with(
        "reachability",
        reach_value(reach),
    )
}

pub fn red_pill(doctor: Json, overview: Option<Json>) -> (r: Json)
    ensures
        r@ == JsonV::empty_object().with("mode"@, JsonV::Text("red-pill"@)).with(
            "message"@,
            JsonV::Text("Follow the trace."@),
        ).with("doctor"@, doctor@).with(
            "overview"@,
            match overview {
                Some(v) => v@,
                None => JsonV::Null,
            },
        ),
{
    let shown = match overview {
        Some(v) => v,
        None => Json::Null,
    };
    Json::object().with("mode", Json::text("red-pill")).with(
        "message",
        Json::text("Follow the trace."),
    ).with("doctor", doctor).with("overview", shown)
}

pub fn blue_pill(doctor: Json) -> (r: Json)
    ensures
        r@ == JsonV::empty_object().with("mode"@, JsonV::Text("blue-pill"@)).with(
            "message"@,
            JsonV::Text("The story ends here."@),
        ).with("doctor"@, doctor@),
{
    Json::object().with("mode", Json::text("blue-pill")).with(
        "message",
        Json::text("The story ends here."),
    ).with("doctor", doctor)
}

// ---------------------------------------------------------------------------
// The cache
// ---------------------------------------------------------------------------
pub fn cache_status_value(cache: Json) -> (r: Json)
    ensures
        r@ == JsonV::empty_object().with("kind"@, JsonV::Text("fact-cache-status"@)).with(
            "cache"@,
            cache@,
        ),
{
    Json::object().with("kind", Json::text("fact-cache-status")).with("cache", cache)
}

pub fn cache_sync_value(cache: Json) -> (r: Json)
    ensures
        r@ == JsonV::empty_object().with("kind"@, JsonV::Text("fact-cache-sync"@)).with(
            "cache"@,
            cache@,
        ),
{
    Json::object().with("kind", Json::text("fact-cache-sync")).with("cache", cache)
}

/// Whether a file of the cache's directory is one of the cache.
pub fn is_cache_file(name: &str) -> (r: bool)
    ensures
        r == (extension_of(name@) == Some("sqlite"@) || extension_of(name@) == Some("json"@)),
{
    match file_extension(name) {
        Some(e) => same(e.as_str(), "sqlite") || same(e.as_str(), "json"),
        None => false,
    }
}

// ---------------------------------------------------------------------------
// The session
// ---------------------------------------------------------------------------
/// The active context, from what its view showed.
pub open spec fn first_row(result: JsonV) -> JsonV {
    let rows = result.items_at("rows"@);
    if rows.len() > 0 {
        rows[0]
    } else {
        JsonV::empty_object()
    }
}

/// The statement that shows the active context.
pub const CONTEXT_SQL: &'static str =
    "select zone, repo, component, version, tag, sha, ref from context";

pub fn context_json(result: &Json) -> (r: Json)
    ensures
        r@ == first_row(result@),
{
    let rows = result.items_at("rows");
    if rows.len() > 0 {
        assert(items_view(rows@)[0] == rows@[0]@);
        rows[0].copy()
    } else {
        Json::object()
    }
}

/// How long ago facts were loaded.
pub open spec fn refreshed_text(seconds: Option<u64>) -> Seq<char> {
    match seconds {
        Some(n) => decimal(n as nat) + "s ago"@,
        None => "unknown"@,
    }
}

/// What is known of a session beside its state.
#[derive(Debug)]
pub struct SessionFacts {
    pub context: Json,
    pub fact_count: usize,
    pub refreshed_seconds: Option<u64>,
    pub cache: Json,
}

pub open spec fn status_json(matrix: Matrix, state: ReplState, facts: SessionFacts) -> JsonV {
    JsonV::empty_object().with("construct"@, JsonV::opt_text(opt_view(matrix.construct))).with(
        "apiPrefix"@,
        JsonV::Text(matrix.api_prefix@),
    ).with("context"@, facts.context@).with("facts"@, JsonV::number(facts.fact_count as nat)).with(
        "maxFacts"@,
        JsonV::number(state.max_facts as nat),
    ).with("mode"@, JsonV::Text(mode_name(state.output_mode))).with(
        "expanded"@,
        JsonV::Bool(state.expanded),
    ).with("timing"@, JsonV::Bool(state.timing)).with(
        "refreshed"@,
        JsonV::Text(refreshed_text(facts.refreshed_seconds)),
    ).with("cache"@, facts.cache@)
}

pub fn session_status(matrix: &Matrix, state: &ReplState, facts: &SessionFacts) -> (r: Json)
    ensures
        r@ == status_json(*matrix, *state, *facts),
{
    let refreshed = match facts.refreshed_seconds {
        Some(n) => cat2(digits_of(n).as_str(), "s ago"),
        None => "unknown".to_owned(),
    };
    Json::object().with("construct", Json::opt_text(&matrix.construct)).with(
        "apiPrefix",
        Json::text(matrix.api_prefix.as_str()),
    ).with("context", facts.context.copy()).with("facts", Json::count(facts.fact_count)).with(
        "maxFacts",
        Json::count(state.max_facts),
    ).with("mode", Json::text(state.output_mode.name())).with(
        "expanded",
        Json::Bool(state.expanded),
    ).with("timing", Json::Bool(state.timing)).with(
        "refreshed",
        Json::text(refreshed.as_str()),
    ).with("cache", facts.cache.copy())
}

/// What is said when a session starts.
pub fn session_greeting(fact_count: usize) -> (r: String)
    ensures
        r@ == "Loaded "@ + decimal(fact_count as nat) + " facts into the local session."@,
{
    cat3("Loaded ", digits_of_usize(fact_count).as_str(), " facts into the local session.")
}

} // verus!
