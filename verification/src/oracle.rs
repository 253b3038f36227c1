//! A small client of one oracle: its configuration, its requests, its table of facts
//! and its line-by-line shell.
use vstd::prelude::*;
use crate::cache::{next_cursor, FetchState};
use crate::calls::{candidate_pairs, CandidateArgs, TraceArgs, trace_pairs};
use crate::config::{json_result, without_slashes};
use crate::context::Surroundings;
use crate::json::{
    items_view, json_print, json_print_pretty, print_json, print_json_pretty, Json, JsonV,
};
use crate::render::{
    error_detail, error_text, html_page, looks_like_html, parse_response_text, response_value,
};
use crate::readonly::{is_selection, selects};
use crate::request::{enc, query_text, url_encoded};
use crate::text::{
    cat2, cat3, cat4, cat6, copy_opt, debug_of, debug_text, opt_view, or, or_text, same, trim,
    trimmed, trimmed_end, CharClass,
};

verus! {

// ---------------------------------------------------------------------------
// Configuration
// ---------------------------------------------------------------------------
/// What is kept on disk.
#[derive(Debug)]
pub struct OracleConfig {
    pub oracle: Option<String>,
    pub api_prefix: Option<String>,
    pub token: Option<String>,
}

pub struct OracleConfigV {
    pub oracle: Option<Seq<char>>,
    pub api_prefix: Option<Seq<char>>,
    pub token: Option<Seq<char>>,
}

impl View for OracleConfig {
    type V = OracleConfigV;

    open spec fn view(&self) -> OracleConfigV {
        OracleConfigV {
            oracle: opt_view(self.oracle),
            api_prefix: opt_view(self.api_prefix),
            token: opt_view(self.token),
        }
    }
}

/// The client as it is configured.
#[derive(Debug)]
pub struct OracleClient {
    pub config_path: String,
    pub config: OracleConfig,
    pub oracle: Option<String>,
    pub api_prefix: String,
    pub json: bool,
}

pub open spec fn chosen(over: Option<Seq<char>>, env: Option<Seq<char>>, file: Option<Seq<char>>) -> Option<
    Seq<char>,
> {
    or(over, or(env, file))
}

impl OracleClient {
    /// The client: what the command line says comes before the environment, and that
    /// before what is kept on disk.
    pub fn load(
        oracle_override: Option<String>,
        prefix_override: Option<String>,
        oracle_env: Option<String>,
        prefix_env: Option<String>,
        config_path: String,
        config: OracleConfig,
        json: bool,
    ) -> (r: OracleClient)
        ensures
            r.config_path == config_path,
            r.config == config,
            r.json == json,
            opt_view(r.oracle) == (match chosen(
                opt_view(oracle_override),
                opt_view(oracle_env),
                config@.oracle,
            ) {
                Some(s) => Some(without_slashes(s)),
                None => None,
            }),
            r.api_prefix@ == without_slashes(
                match chosen(opt_view(prefix_override), opt_view(prefix_env), config@.api_prefix) {
                    Some(s) => s,
                    None => "/v1/compatibility"@,
                },
            ),
    {
        let oracle = match or_text(oracle_override, or_text(oracle_env, copy_opt(&config.oracle))) {
            Some(s) => Some(trimmed_end(s.as_str(), CharClass::Is('/'))),
            None => None,
        };
        let api_prefix = match or_text(
            prefix_override,
            or_text(prefix_env, copy_opt(&config.api_prefix)),
        ) {
            Some(s) => trimmed_end(s.as_str(), CharClass::Is('/')),
            None => trimmed_end("/v1/compatibility", CharClass::Is('/')),
        };
        OracleClient { config_path, config, oracle, api_prefix, json }
    }

    /// The address of a path at the oracle.
    pub fn request_url(&self, path: &str) -> (r: Result<String, String>)
        ensures
            match opt_view(self.oracle) {
                Some(o) => r matches Ok(u) && u@ == o + self.api_prefix@ + path@,
                None => r matches Err(m) && m@
                    == "no oracle configured; run `matrix config set oracle <url>` or set MATRIX_ORACLE_URL"@,
            },
    {
        match &self.oracle {
            Some(o) => Ok(cat3(o.as_str(), self.api_prefix.as_str(), path)),
            None => Err(
                "no oracle configured; run `matrix config set oracle <url>` or set MATRIX_ORACLE_URL".to_owned(),
            ),
        }
    }

    /// The token of requests: of the environment, else of the configuration.
    pub fn token(&self, token_env: &Option<String>) -> (r: Option<String>)
        ensures
            opt_view(r) == or(opt_view(*token_env), self.config@.token),
    {
        or_text(copy_opt(token_env), copy_opt(&self.config.token))
    }
}

/// A command on the configuration.
#[derive(Debug)]
pub enum OracleSetting {
    List,
    Get { key: String },
    Put { key: String, value: String },
}

pub open spec fn unknown_key(key: Seq<char>) -> Seq<char> {
    "unknown config key "@ + debug_text(key) + "; expected oracle, api-prefix, or token"@
}

/// The configuration with a key set.
pub open spec fn with_key(config: OracleConfigV, key: Seq<char>, value: Seq<char>) -> Result<
    OracleConfigV,
    Seq<char>,
> {
    if key == "oracle"@ {
        Ok(OracleConfigV { oracle: Some(value), ..config })
    } else if key == "api-prefix"@ || key == "apiPrefix"@ {
        Ok(OracleConfigV { api_prefix: Some(value), ..config })
    } else if key == "token"@ {
        Ok(OracleConfigV { token: Some(value), ..config })
    } else {
        Err(unknown_key(key))
    }
}

/// What is shown of a key: of the token only whether there is one.
pub open spec fn shown_key(config: OracleConfigV, key: Seq<char>) -> Result<JsonV, Seq<char>> {
    if key == "oracle"@ {
        Ok(JsonV::empty_object().with("oracle"@, JsonV::opt_text(config.oracle)))
    } else if key == "api-prefix"@ || key == "apiPrefix"@ {
        Ok(JsonV::empty_object().with("apiPrefix"@, JsonV::opt_text(config.api_prefix)))
    } else if key == "token"@ {
        Ok(JsonV::empty_object().with("hasToken"@, JsonV::Bool(config.token is Some)))
    } else {
        Err(unknown_key(key))
    }
}

pub open spec fn shown_config(path: Seq<char>, config: OracleConfigV) -> JsonV {
    JsonV::empty_object().with("configPath"@, JsonV::Text(path)).with(
        "oracle"@,
        JsonV::opt_text(config.oracle),
    ).with("apiPrefix"@, JsonV::opt_text(config.api_prefix)).with(
        "hasToken"@,
        JsonV::Bool(config.token is Some),
    )
}

/// Shows or changes the configuration. The client is to be saved where a key was set.
pub fn config_command(client: &mut OracleClient, command: OracleSetting) -> (r: Result<
    Json,
    String,
>)
    ensures
        final(client).config_path == old(client).config_path,
        final(client).oracle == old(client).oracle,
        final(client).api_prefix == old(client).api_prefix,
        final(client).json == old(client).json,
        match command {
            OracleSetting::List => (r matches Ok(v) && v@ == shown_config(
                old(client).config_path@,
                old(client).config@,
            )) && final(client).config@ == old(client).config@,
            OracleSetting::Get { key } => json_result(r) == shown_key(old(client).config@, key@)
                && final(client).config@ == old(client).config@,
            OracleSetting::Put { key, value } => match with_key(
                old(client).config@,
                key@,
                value@,
            ) {
                Ok(c) => (r matches Ok(v) && v@ == JsonV::empty_object().with(
                    "saved"@,
                    JsonV::Text(old(client).config_path@),
                )) && final(client).config@ == c,
                Err(m) => (r matches Err(e) && e@ == m) && final(client).config@
                    == old(client).config@,
            },
        },
{
    match command {
        OracleSetting::List => {
            let has_token = client.config.token.is_some();
            Ok(
                Json::object().with("configPath", Json::text(client.config_path.as_str())).with(
                    "oracle",
                    Json::opt_text(&client.config.oracle),
                ).with("apiPrefix", Json::opt_text(&client.config.api_prefix)).with(
                    "hasToken",
                    Json::Bool(has_token),
                ),
            )
        },
        OracleSetting::Get { key } => {
            let k = key.as_str();
            if same(k, "oracle") {
                Ok(Json::object().with("oracle", Json::opt_text(&client.config.oracle)))
            } else if same(k, "api-prefix") || same(k, "apiPrefix") {
                Ok(Json::object().with("apiPrefix", Json::opt_text(&client.config.api_prefix)))
            } else if same(k, "token") {
                let has_token = client.config.token.is_some();
                Ok(Json::object().with("hasToken", Json::Bool(has_token)))
            } else {
                Err(
                    cat3(
                        "unknown config key ",
                        debug_of(k).as_str(),
                        "; expected oracle, api-prefix, or token",
                    ),
                )
            }
        },
        OracleSetting::Put { key, value } => {
            let k = key.as_str();
            if same(k, "oracle") {
                client.config.oracle = Some(value);
            } else if same(k, "api-prefix") || same(k, "apiPrefix") {
                client.config.api_prefix = Some(value);
            } else if same(k, "token") {
                client.config.token = Some(value);
            } else {
                return Err(
                    cat3(
                        "unknown config key ",
                        debug_of(k).as_str(),
                        "; expected oracle, api-prefix, or token",
                    ),
                );
            }
            Ok(Json::object().with("saved", Json::text(client.config_path.as_str())))
        },
    }
}

/// Two configurations that differ in their token alone are shown alike, as long as both
/// have one.
pub proof fn law_token_is_not_shown(
    path: Seq<char>,
    config: OracleConfigV,
    token: Seq<char>,
    other: Seq<char>,
    key: Seq<char>,
)
    ensures
        ({
            let a = OracleConfigV { token: Some(token), ..config };
            let b = OracleConfigV { token: Some(other), ..config };
            shown_config(path, a) == shown_config(path, b) && shown_key(a, key) == shown_key(
                b,
                key,
            )
        }),
{
}

// ---------------------------------------------------------------------------
// Requests
// ---------------------------------------------------------------------------
pub open spec fn oracle_reply(
    success: bool,
    status: Seq<char>,
    content_type: Seq<char>,
    text: Seq<char>,
) -> Result<JsonV, Seq<char>> {
    if success && html_page(content_type, text) {
        Err("received HTML from the oracle; authenticate or use a machine/API oracle URL"@)
    } else if !success {
        Err("oracle "@ + status + ": "@ + error_text(response_value(text), text))
    } else {
        Ok(response_value(text))
    }
}

pub fn read_oracle_reply(success: bool, status: &str, content_type: &str, text: &str) -> (r: Result<
    Json,
    String,
>)
    ensures
        json_result(r) == oracle_reply(success, status@, content_type@, text@),
{
    if success && looks_like_html(content_type, text) {
        return Err(
            "received HTML from the oracle; authenticate or use a machine/API oracle URL".to_owned(),
        );
    }
    let value = parse_response_text(text);
    if !success {
        let detail = error_detail(&value, text);
        return Err(cat4("oracle ", status, ": ", detail.as_str()));
    }
    Ok(value)
}

pub fn zone_path(zone: &str) -> (r: String)
    ensures
        r@ == "/tracks/"@ + url_encoded(zone@),
{
    cat2("/tracks/", enc(zone).as_str())
}

pub fn gate_path(zone: &str, level: &str) -> (r: String)
    ensures
        r@ == "/tracks/"@ + url_encoded(zone@) + "/promotion-gates/"@ + url_encoded(level@),
{
    cat4("/tracks/", enc(zone).as_str(), "/promotion-gates/", enc(level).as_str())
}

pub fn candidate_path(args: &CandidateArgs, around: &Surroundings) -> (r: Result<String, String>)
    ensures
        match or(opt_view(args.repo), around@.repo) {
            None => r matches Err(m) && m@
                == "--repo is required when git remote origin cannot be detected"@,
            Some(repo) => r matches Ok(p) && p@ == "/tracks/"@ + url_encoded(args.zone@)
                + "/promotion-candidates/"@ + url_encoded(args.level@) + "?"@ + query_text(
                candidate_pairs(*args, *around, repo),
            ),
        },
{
    match crate::calls::candidate_query_string(args, around) {
        Ok(query) => Ok(
            cat6(
                "/tracks/",
                enc(args.zone.as_str()).as_str(),
                "/promotion-candidates/",
                enc(args.level.as_str()).as_str(),
                "?",
                query.as_str(),
            ),
        ),
        Err(m) => Err(m),
    }
}

pub fn trace_path(args: &TraceArgs) -> (r: String)
    ensures
        r@ == "/facts?"@ + query_text(trace_pairs(*args, "track"@)),
{
    crate::calls::trace_query(args, "track")
}

/// What a report is uploaded as.
pub fn ingest_payload(adapter: &str, payload: Json) -> (r: Json)
    ensures
        r@ == JsonV::empty_object().with("adapter"@, JsonV::Text(adapter@)).with(
            "format"@,
            JsonV::Text("matrix.ingest.v1"@),
        ).with("payload"@, payload@),
{
    Json::object().with("adapter", Json::text(adapter)).with(
        "format",
        Json::text("matrix.ingest.v1"),
    ).with("payload", payload)
}

// ---------------------------------------------------------------------------
// Queries
// ---------------------------------------------------------------------------
/// The table that facts are loaded into.
pub const ORACLE_TABLE_SQL: &'static str = "create table facts (
          id text, zone text, kind text, status text,
          source_repository text, source_sha text,
          subject_type text, subject_name text, channel text,
          observed_at text, json text not null
        );";

/// Stores a fact.
pub const ORACLE_INSERT_SQL: &'static str =
    "insert into facts values (?1, ?2, ?3, ?4, ?5, ?6, ?7, ?8, ?9, ?10, ?11)";

/// Refuses a statement that does more than select.
pub fn check_query(sql: &str) -> (r: Result<(), String>)
    ensures
        selects(sql@) ==> r is Ok,
        !selects(sql@) ==> (r matches Err(m) && m@
            == "matrix query only allows read-only SELECT/WITH statements"@),
{
    if is_selection(sql) {
        Ok(())
    } else {
        Err("matrix query only allows read-only SELECT/WITH statements".to_owned())
    }
}

/// A fact as a row of the table.
#[derive(Debug)]
pub struct OracleRow {
    pub id: Option<String>,
    pub zone: Option<String>,
    pub kind: Option<String>,
    pub status: Option<String>,
    pub source_repository: Option<String>,
    pub source_sha: Option<String>,
    pub subject_type: Option<String>,
    pub subject_name: Option<String>,
    pub channel: Option<String>,
    pub observed_at: Option<String>,
    pub json: String,
}

/// The zone of a fact: its track where it has one.
pub open spec fn zone_of(fact: JsonV) -> Option<Seq<char>> {
    if fact.get("track"@) is Some {
        fact.text_at("track"@)
    } else {
        fact.text_at("zone"@)
    }
}

pub fn oracle_row(fact: &Json) -> (r: OracleRow)
    ensures
        opt_view(r.id) == fact@.text_at("id"@),
        opt_view(r.zone) == zone_of(fact@),
        opt_view(r.kind) == fact@.text_at("kind"@),
        opt_view(r.status) == fact@.text_at("status"@),
        opt_view(r.source_repository) == fact@.text_at("sourceRepository"@),
        opt_view(r.source_sha) == fact@.text_at("sourceSha"@),
        opt_view(r.subject_type) == fact@.text_at("subjectType"@),
        opt_view(r.subject_name) == fact@.text_at("subjectName"@),
        opt_view(r.channel) == fact@.text_at("channel"@),
        opt_view(r.observed_at) == fact@.text_at("observedAt"@),
        r.json@ == json_print(fact@),
{
    let zone = if fact.get("track").is_some() {
        fact.text_at("track")
    } else {
        fact.text_at("zone")
    };
    OracleRow {
        id: fact.text_at("id"),
        zone,
        kind: fact.text_at("kind"),
        status: fact.text_at("status"),
        source_repository: fact.text_at("sourceRepository"),
        source_sha: fact.text_at("sourceSha"),
        subject_type: fact.text_at("subjectType"),
        subject_name: fact.text_at("subjectName"),
        channel: fact.text_at("channel"),
        observed_at: fact.text_at("observedAt"),
        json: print_json(fact),
    }
}

/// Takes in a page of facts: they come behind those before it, and it is the last where
/// it names no next one.
pub fn accept_facts(state: &mut FetchState, body: &Json)
    ensures
        items_view(final(state).facts@) == items_view(old(state).facts@) + body@.items_at("facts"@),
        opt_view(final(state).cursor) == next_cursor(body@),
        final(state).done == (next_cursor(body@) is None),
{
    let mut page = body.items_at("facts");
    let ghost before = items_view(state.facts@);
    let ghost more = items_view(page@);
    state.facts.append(&mut page);
    assert(items_view(state.facts@) =~= before + more);
    state.cursor = match body.get("page") {
        Some(p) => p.text_at("nextCursor"),
        None => None,
    };
    state.done = state.cursor.is_none();
}

// ---------------------------------------------------------------------------
// The shell
// ---------------------------------------------------------------------------
/// What a line of the shell asks for.
#[derive(Debug)]
pub enum OracleLine {
    Nothing,
    Quit,
    Clear,
    Help,
    Query(String),
}

/// Reads a line of the shell: a few words are commands, all else is a query.
pub fn read_line(raw: &str) -> (r: OracleLine)
    ensures
        ({
            let line = trim(raw@);
            if line.len() == 0 {
                r is Nothing
            } else if line == "red"@ || line == "red-pill"@ || line == "exit"@ || line == "quit"@ {
                r is Quit
            } else if line == "blue"@ || line == "blue-pill"@ || line == "clear"@ {
                r is Clear
            } else if line == "help"@ {
                r is Help
            } else {
                r matches OracleLine::Query(q) && q@ == line
            }
        }),
{
    let line = trimmed(raw);
    let l = line.as_str();
    if crate::text::char_count(l) == 0 {
        OracleLine::Nothing
    } else if same(l, "red") || same(l, "red-pill") || same(l, "exit") || same(l, "quit") {
        OracleLine::Quit
    } else if same(l, "blue") || same(l, "blue-pill") || same(l, "clear") {
        OracleLine::Clear
    } else if same(l, "help") {
        OracleLine::Help
    } else {
        OracleLine::Query(line)
    }
}

// ---------------------------------------------------------------------------
// Reports
// ---------------------------------------------------------------------------
pub fn doctor(client: &OracleClient, reachable: bool) -> (r: Json)
    ensures
        r@ == JsonV::empty_object().with("configPath"@, JsonV::Text(client.config_path@)).with(
            "oracle"@,
            JsonV::opt_text(opt_view(client.oracle)),
        ).with("apiPrefix"@, JsonV::Text(client.api_prefix@)).with(
            "reachable"@,
            JsonV::Bool(reachable && client.oracle is Some),
        ),
{
    let reached = reachable && client.oracle.is_some();
    Json::object().with("configPath", Json::text(client.config_path.as_str())).with(
        "oracle",
        Json::opt_text(&client.oracle),
    ).with("apiPrefix", Json::text(client.api_prefix.as_str())).with(
        "reachable",
        Json::Bool(reached),
    )
}

/// What is printed of a value: a text as it is, unless JSON is asked for.
pub fn print_value(value: &Json, json: bool) -> (r: String)
    ensures
        r@ == (match value@ {
            JsonV::Text(s) => if json {
                json_print_pretty(value@)
            } else {
                s
            },
            _ => json_print_pretty(value@),
        }) + "\n"@,
{
    match value {
        Json::Text(s) => {
            if !json {
                return cat2(s.as_str(), "\n");
            }
        },
        _ => {},
    }
    cat2(print_json_pretty(value).as_str(), "\n")
}

} // verus!
