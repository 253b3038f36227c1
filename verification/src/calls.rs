//! The requests that commands send to a construct.
use vstd::prelude::*;
use crate::context::{ContextArgs, ContextV, Surroundings};
use crate::config::OutputFormat;
use crate::json::{Json, JsonV};
use crate::request::{
    current_branch, current_exact_tag, current_repo, current_sha, enc, pair, pair_views,
    push_page_query, push_query, query_string, query_suffix, query_text, suffix_text,
    url_encoded, with_page, with_pair, PageArgs, PairV, QueryPair,
};
use crate::text::{
    cat2, cat3, cat4, cat5, cat6, copy_opt, decimal, decimal_int, digits_of_i64, digits_of_usize,
    opt_view, or, or_text, views,
};

verus! {

/// Parameters with one more, where it has a value.
pub open spec fn with_given(pairs: Seq<PairV>, key: Seq<char>, value: Option<Seq<char>>) -> Seq<
    PairV,
> {
    match value {
        Some(v) => pairs.push(pair(key, v)),
        None => pairs,
    }
}

fn push_given(pairs: &mut Vec<QueryPair>, key: &str, value: Option<String>)
    ensures
        pair_views(final(pairs)@) == with_given(pair_views(old(pairs)@), key@, opt_view(value)),
{
    match value {
        Some(v) => {
            let ghost before = pair_views(pairs@);
            let ghost next = pair(key@, v@);
            pairs.push(QueryPair { key: key.to_owned(), value: v });
            assert(pair_views(pairs@) =~= before.push(next));
        },
        None => {},
    }
}

fn no_pairs() -> (r: Vec<QueryPair>)
    ensures
        pair_views(r@) == Seq::<PairV>::empty(),
{
    let pairs: Vec<QueryPair> = Vec::new();
    assert(pair_views(pairs@) =~= Seq::<PairV>::empty());
    pairs
}

// ---------------------------------------------------------------------------
// Revisions
// ---------------------------------------------------------------------------
/// Which revision of a fact the command line selects.
#[derive(Debug)]
pub struct RevisionSelectorArgs {
    pub revision: Option<i64>,
    pub event: Option<String>,
    pub relative: Option<i64>,
    pub as_of: Option<String>,
}

pub open spec fn opt_decimal(o: Option<i64>) -> Option<Seq<char>> {
    match o {
        Some(n) => Some(decimal_int(n as int)),
        None => None,
    }
}

fn opt_digits(o: Option<i64>) -> (r: Option<String>)
    ensures
        opt_view(r) == opt_decimal(o),
{
    match o {
        Some(n) => Some(digits_of_i64(n)),
        None => None,
    }
}

/// The parameters of a selection, or why it contradicts itself.
pub open spec fn selector_pairs(s: RevisionSelectorArgs) -> Result<Seq<PairV>, Seq<char>> {
    if s.as_of is Some && (s.revision is Some || s.event is Some || s.relative is Some) {
        Err("--as-of cannot be combined with --revision, --event, or --relative"@)
    } else if s.revision is Some && s.event is Some {
        Err("use only one of --revision or --event"@)
    } else {
        Ok(
            with_given(
                with_given(
                    with_given(
                        with_given(Seq::empty(), "revision"@, opt_decimal(s.revision)),
                        "eventId"@,
                        opt_view(s.event),
                    ),
                    "relative"@,
                    opt_decimal(s.relative),
                ),
                "asOf"@,
                opt_view(s.as_of),
            ),
        )
    }
}

pub fn revision_selector_query(selector: &RevisionSelectorArgs) -> (r: Result<
    Vec<QueryPair>,
    String,
>)
    ensures
        match selector_pairs(*selector) {
            Ok(pairs) => r matches Ok(v) && pair_views(v@) == pairs,
            Err(m) => r matches Err(e) && e@ == m,
        },
{
    if selector.as_of.is_some() && (selector.revision.is_some() || selector.event.is_some()
        || selector.relative.is_some()) {
        return Err(
            "--as-of cannot be combined with --revision, --event, or --relative".to_owned(),
        );
    }
    if selector.revision.is_some() && selector.event.is_some() {
        return Err("use only one of --revision or --event".to_owned());
    }
    let mut pairs = no_pairs();
    push_given(&mut pairs, "revision", opt_digits(selector.revision));
    push_given(&mut pairs, "eventId", copy_opt(&selector.event));
    push_given(&mut pairs, "relative", opt_digits(selector.relative));
    push_given(&mut pairs, "asOf", copy_opt(&selector.as_of));
    Ok(pairs)
}

// ---------------------------------------------------------------------------
// Commands
// ---------------------------------------------------------------------------
/// Which candidate is asked for.
#[derive(Debug)]
pub struct CandidateArgs {
    pub zone: String,
    pub level: String,
    pub repo: Option<String>,
    pub sha: Option<String>,
    pub reference: Option<String>,
    pub tag: Option<String>,
    pub capability: Option<String>,
}

/// Which facts are traced.
#[derive(Debug)]
pub struct TraceArgs {
    pub zone: Option<String>,
    pub subject: Option<String>,
    pub id: Option<String>,
    pub limit: usize,
}

/// Which fact is asked for.
#[derive(Debug)]
pub struct FactGetArgs {
    pub fact_id: String,
    pub history: bool,
    pub limit: usize,
    pub selector: RevisionSelectorArgs,
}

/// Whose history is asked for.
#[derive(Debug)]
pub struct HistoryArgs {
    pub fact_id: String,
    pub limit: usize,
    pub selector: RevisionSelectorArgs,
}

/// Which artifacts are listed.
#[derive(Debug)]
pub struct ArtifactListArgs {
    pub track: Option<String>,
    pub subject_type: Option<String>,
    pub subject_name: Option<String>,
    pub subject_repo: Option<String>,
    pub status: Option<String>,
    pub page: PageArgs,
}

/// Which validations are listed.
#[derive(Debug)]
pub struct ValidationListArgs {
    pub track: Option<String>,
    pub status: Option<String>,
    pub scope: Option<String>,
    pub page: PageArgs,
}

/// A command that a construct answers.
#[derive(Debug)]
pub enum RemoteCommand {
    List,
    View { zone: String },
    Current(CandidateArgs),
    Gate { zone: String, level: String },
    Trace(TraceArgs),
    Get(FactGetArgs),
    History(HistoryArgs),
    Artifacts(ArtifactListArgs),
    Validations(ValidationListArgs),
    Capabilities,
    Scopes,
    Scope { scope_id: String },
    Providers { capability: String },
    Requirements { artifact_id: String },
    Consumers { artifact_id: String },
    Blockers { track: String, within: Option<String> },
    Eligibility { track: String, environment: String },
}

/// What is requested: a path, and another to try where it fails.
#[derive(Debug)]
pub struct RemoteCall {
    pub path: String,
    pub fallback: Option<String>,
}

pub struct CallV {
    pub path: Seq<char>,
    pub fallback: Option<Seq<char>>,
}

impl View for RemoteCall {
    type V = CallV;

    open spec fn view(&self) -> CallV {
        CallV { path: self.path@, fallback: opt_view(self.fallback) }
    }
}

pub open spec fn plain(path: Seq<char>) -> CallV {
    CallV { path, fallback: None }
}

pub open spec fn either_path(path: Seq<char>, fallback: Seq<char>) -> CallV {
    CallV { path, fallback: Some(fallback) }
}

pub open spec fn at_least_one(n: usize) -> nat {
    if n < 1 {
        1
    } else {
        n as nat
    }
}

/// What a candidate is asked for by: its repository, and what is known of its commit,
/// its reference and its capability.
pub open spec fn candidate_pairs(args: CandidateArgs, around: Surroundings, repo: Seq<char>) -> Seq<
    PairV,
> {
    let reference = or(
        opt_view(args.reference),
        or(
            opt_view(args.tag),
            or(around@.tag, around@.branch),
        ),
    );
    with_given(
        with_given(
            with_given(
                seq![pair("repo"@, repo)],
                "sha"@,
                or(opt_view(args.sha), around@.sha),
            ),
            "ref"@,
            reference,
        ),
        "capability"@,
        opt_view(args.capability),
    )
}

pub open spec fn candidate_call(args: CandidateArgs, around: Surroundings) -> Result<
    CallV,
    Seq<char>,
> {
    match or(opt_view(args.repo), around@.repo) {
        None => Err("--repo is required when git remote origin cannot be detected"@),
        Some(repo) => {
            let query = query_text(candidate_pairs(args, around, repo));
            Ok(
                either_path(
                    "/zones/"@ + url_encoded(args.zone@) + "/candidates/"@ + url_encoded(
                        args.level@,
                    ) + "?"@ + query,
                    "/tracks/"@ + url_encoded(args.zone@) + "/promotion-candidates/"@ + url_encoded(
                        args.level@,
                    ) + "?"@ + query,
                ),
            )
        },
    }
}

/// What a candidate is asked for by, as a query string.
pub fn candidate_query_string(args: &CandidateArgs, around: &Surroundings) -> (r: Result<
    String,
    String,
>)
    ensures
        match or(opt_view(args.repo), around@.repo) {
            None => r matches Err(m) && m@
                == "--repo is required when git remote origin cannot be detected"@,
            Some(repo) => r matches Ok(q) && q@ == query_text(
                candidate_pairs(*args, *around, repo),
            ),
        },
{
    let repo = match or_text(copy_opt(&args.repo), current_repo(&around.remote)) {
        Some(repo) => repo,
        None => {
            return Err(
                "--repo is required when git remote origin cannot be detected".to_owned(),
            );
        },
    };
    let sha = or_text(copy_opt(&args.sha), current_sha(&around.sha));
    let reference = or_text(
        copy_opt(&args.reference),
        or_text(
            copy_opt(&args.tag),
            or_text(current_exact_tag(&around.tag), current_branch(&around.branch)),
        ),
    );
    let mut query = no_pairs();
    let ghost first = pair("repo"@, repo@);
    push_given(&mut query, "repo", Some(repo));
    assert(pair_views(query@) =~= seq![first]);
    push_given(&mut query, "sha", sha);
    push_given(&mut query, "ref", reference);
    push_given(&mut query, "capability", copy_opt(&args.capability));
    Ok(query_string(&query))
}

pub fn current(args: &CandidateArgs, around: &Surroundings) -> (r: Result<RemoteCall, String>)
    ensures
        match candidate_call(*args, *around) {
            Ok(c) => r matches Ok(x) && x@ == c,
            Err(m) => r matches Err(e) && e@ == m,
        },
{
    let text = match candidate_query_string(args, around) {
        Ok(text) => text,
        Err(m) => {
            return Err(m);
        },
    };
    let zone = enc(args.zone.as_str());
    let level = enc(args.level.as_str());
    Ok(
        RemoteCall {
            path: cat6(
                "/zones/",
                zone.as_str(),
                "/candidates/",
                level.as_str(),
                "?",
                text.as_str(),
            ),
            fallback: Some(
                cat6(
                    "/tracks/",
                    zone.as_str(),
                    "/promotion-candidates/",
                    level.as_str(),
                    "?",
                    text.as_str(),
                ),
            ),
        },
    )
}

pub open spec fn trace_pairs(args: TraceArgs, zone_key: Seq<char>) -> Seq<PairV> {
    with_given(
        with_given(
            with_given(Seq::empty(), zone_key, opt_view(args.zone)),
            "subjectName"@,
            opt_view(args.subject),
        ),
        "id"@,
        opt_view(args.id),
    ).push(pair("limit"@, decimal(args.limit as nat)))
}

pub open spec fn trace_call(args: TraceArgs) -> CallV {
    either_path(
        "/facts?"@ + query_text(trace_pairs(args, "zone"@)),
        "/facts?"@ + query_text(trace_pairs(args, "track"@)),
    )
}

pub fn trace_query(args: &TraceArgs, zone_key: &str) -> (r: String)
    ensures
        r@ == "/facts?"@ + query_text(trace_pairs(*args, zone_key@)),
{
    let mut query = no_pairs();
    push_given(&mut query, zone_key, copy_opt(&args.zone));
    push_given(&mut query, "subjectName", copy_opt(&args.subject));
    push_given(&mut query, "id", copy_opt(&args.id));
    push_given(&mut query, "limit", Some(digits_of_usize(args.limit)));
    cat2("/facts?", query_string(&query).as_str())
}

pub fn trace(args: &TraceArgs) -> (r: RemoteCall)
    ensures
        r@ == trace_call(*args),
{
    RemoteCall { path: trace_query(args, "zone"), fallback: Some(trace_query(args, "track")) }
}

/// What a trace shows.
pub fn trace_reply(facts: Json) -> (r: Json)
    ensures
        r@ == JsonV::empty_object().with("trace"@, facts@).with(
            "hint"@,
            JsonV::Text("Use matrix red-pill for a deeper diagnostic bundle."@),
        ),
{
    Json::object().with("trace", facts).with(
        "hint",
        Json::text("Use matrix red-pill for a deeper diagnostic bundle."),
    )
}

pub open spec fn get_call(args: FactGetArgs) -> Result<CallV, Seq<char>> {
    match selector_pairs(args.selector) {
        Err(m) => Err(m),
        Ok(pairs) => {
            let limited = pairs.push(pair("limit"@, decimal(at_least_one(args.limit))));
            let all = if args.history {
                limited.push(pair("history"@, "true"@))
            } else {
                limited
            };
            Ok(plain("/facts/"@ + url_encoded(args.fact_id@) + "?"@ + query_text(all)))
        },
    }
}

/// A limit that leaves something to be found.
pub fn wanted_limit(limit: usize) -> (r: usize)
    ensures
        r == at_least_one(limit),
{
    if limit < 1 {
        1
    } else {
        limit
    }
}

pub(crate) fn limit_digits(limit: usize) -> (r: String)
    ensures
        r@ == decimal(at_least_one(limit)),
{
    digits_of_usize(wanted_limit(limit))
}

pub fn get_fact(args: &FactGetArgs) -> (r: Result<RemoteCall, String>)
    ensures
        match get_call(*args) {
            Ok(c) => r matches Ok(x) && x@ == c,
            Err(m) => r matches Err(e) && e@ == m,
        },
{
    let mut query = match revision_selector_query(&args.selector) {
        Ok(pairs) => pairs,
        Err(m) => {
            return Err(m);
        },
    };
    push_given(&mut query, "limit", Some(limit_digits(args.limit)));
    if args.history {
        push_given(&mut query, "history", Some("true".to_owned()));
    }
    Ok(
        RemoteCall {
            path: cat4(
                "/facts/",
                enc(args.fact_id.as_str()).as_str(),
                "?",
                query_string(&query).as_str(),
            ),
            fallback: None,
        },
    )
}

pub open spec fn history_call(args: HistoryArgs) -> Result<CallV, Seq<char>> {
    match selector_pairs(args.selector) {
        Err(m) => Err(m),
        Ok(pairs) => Ok(
            plain(
                "/facts/"@ + url_encoded(args.fact_id@) + "/history?"@ + query_text(
                    pairs.push(pair("limit"@, decimal(at_least_one(args.limit)))),
                ),
            ),
        ),
    }
}

pub fn history(args: &HistoryArgs) -> (r: Result<RemoteCall, String>)
    ensures
        match history_call(*args) {
            Ok(c) => r matches Ok(x) && x@ == c,
            Err(m) => r matches Err(e) && e@ == m,
        },
{
    let mut query = match revision_selector_query(&args.selector) {
        Ok(pairs) => pairs,
        Err(m) => {
            return Err(m);
        },
    };
    push_given(&mut query, "limit", Some(limit_digits(args.limit)));
    Ok(
        RemoteCall {
            path: cat4(
                "/facts/",
                enc(args.fact_id.as_str()).as_str(),
                "/history?",
                query_string(&query).as_str(),
            ),
            fallback: None,
        },
    )
}

pub open spec fn artifacts_path(args: ArtifactListArgs) -> Seq<char> {
    "/artifacts"@ + suffix_text(
        with_page(
            with_pair(
                with_pair(
                    with_pair(
                        with_pair(
                            with_pair(Seq::empty(), "track"@, opt_view(args.track)),
                            "subjectType"@,
                            opt_view(args.subject_type),
                        ),
                        "subjectName"@,
                        opt_view(args.subject_name),
                    ),
                    "subjectRepo"@,
                    opt_view(args.subject_repo),
                ),
                "status"@,
                opt_view(args.status),
            ),
            args.page.limit,
            opt_view(args.page.cursor),
        ),
    )
}

fn copy_page(page: &PageArgs) -> (r: PageArgs)
    ensures
        r.limit == page.limit,
        opt_view(r.cursor) == opt_view(page.cursor),
{
    PageArgs { limit: page.limit, cursor: copy_opt(&page.cursor) }
}

pub fn list_artifacts(args: &ArtifactListArgs) -> (r: String)
    ensures
        r@ == artifacts_path(*args),
{
    let mut query = no_pairs();
    push_query(&mut query, "track", copy_opt(&args.track));
    push_query(&mut query, "subjectType", copy_opt(&args.subject_type));
    push_query(&mut query, "subjectName", copy_opt(&args.subject_name));
    push_query(&mut query, "subjectRepo", copy_opt(&args.subject_repo));
    push_query(&mut query, "status", copy_opt(&args.status));
    push_page_query(&mut query, copy_page(&args.page));
    cat2("/artifacts", query_suffix(&query).as_str())
}

pub open spec fn validations_path(args: ValidationListArgs) -> Seq<char> {
    "/validations"@ + suffix_text(
        with_page(
            with_pair(
                with_pair(
                    with_pair(Seq::empty(), "track"@, opt_view(args.track)),
                    "status"@,
                    opt_view(args.status),
                ),
                "scope"@,
                opt_view(args.scope),
            ),
            args.page.limit,
            opt_view(args.page.cursor),
        ),
    )
}

pub fn list_validations(args: &ValidationListArgs) -> (r: String)
    ensures
        r@ == validations_path(*args),
{
    let mut query = no_pairs();
    push_query(&mut query, "track", copy_opt(&args.track));
    push_query(&mut query, "status", copy_opt(&args.status));
    push_query(&mut query, "scope", copy_opt(&args.scope));
    push_page_query(&mut query, copy_page(&args.page));
    cat2("/validations", query_suffix(&query).as_str())
}

pub open spec fn blockers_path(track: Seq<char>, environment: Option<Seq<char>>) -> Seq<char> {
    "/tracks/"@ + url_encoded(track) + "/blockers"@ + suffix_text(
        with_pair(Seq::empty(), "environment"@, environment),
    )
}

pub fn blockers(track: &str, environment: &Option<String>) -> (r: String)
    ensures
        r@ == blockers_path(track@, opt_view(*environment)),
{
    let mut query = no_pairs();
    push_query(&mut query, "environment", copy_opt(environment));
    cat4("/tracks/", enc(track).as_str(), "/blockers", query_suffix(&query).as_str())
}

pub open spec fn zone_call(zone: Seq<char>) -> CallV {
    either_path("/zones/"@ + url_encoded(zone), "/tracks/"@ + url_encoded(zone))
}

/// The request for a zone.
pub fn view_zone(zone: &str) -> (r: RemoteCall)
    ensures
        r@ == zone_call(zone@),
{
    let name = enc(zone);
    RemoteCall {
        path: cat2("/zones/", name.as_str()),
        fallback: Some(cat2("/tracks/", name.as_str())),
    }
}

/// What a command requests.
pub open spec fn call_of(command: RemoteCommand, around: Surroundings) -> Result<CallV, Seq<char>> {
    match command {
        RemoteCommand::List => Ok(plain(""@)),
        RemoteCommand::View { zone } => Ok(zone_call(zone@)),
        RemoteCommand::Current(args) => candidate_call(args, around),
        RemoteCommand::Gate { zone, level } => Ok(
            either_path(
                "/zones/"@ + url_encoded(zone@) + "/gates/"@ + url_encoded(level@),
                "/tracks/"@ + url_encoded(zone@) + "/promotion-gates/"@ + url_encoded(level@),
            ),
        ),
        RemoteCommand::Trace(args) => Ok(trace_call(args)),
        RemoteCommand::Get(args) => get_call(args),
        RemoteCommand::History(args) => history_call(args),
        RemoteCommand::Artifacts(args) => Ok(plain(artifacts_path(args))),
        RemoteCommand::Validations(args) => Ok(plain(validations_path(args))),
        RemoteCommand::Capabilities => Ok(plain("/capabilities"@)),
        RemoteCommand::Scopes => Ok(plain("/scopes"@)),
        RemoteCommand::Scope { scope_id } => Ok(plain("/scopes/"@ + url_encoded(scope_id@))),
        RemoteCommand::Providers { capability } => Ok(
            plain("/capabilities/"@ + url_encoded(capability@) + "/providers"@),
        ),
        RemoteCommand::Requirements { artifact_id } => Ok(
            plain("/artifacts/"@ + url_encoded(artifact_id@) + "/requirements"@),
        ),
        RemoteCommand::Consumers { artifact_id } => Ok(
            plain("/artifacts/"@ + url_encoded(artifact_id@) + "/consumers"@),
        ),
        RemoteCommand::Blockers { track, within } => Ok(
            plain(blockers_path(track@, opt_view(within))),
        ),
        RemoteCommand::Eligibility { track, environment } => Ok(
            plain(
                "/tracks/"@ + url_encoded(track@) + "/environments/"@ + url_encoded(environment@)
                    + "/eligibility"@,
            ),
        ),
    }
}

fn only(path: String) -> (r: RemoteCall)
    ensures
        r@ == plain(path@),
{
    RemoteCall { path, fallback: None }
}

pub fn remote_call(command: &RemoteCommand, around: &Surroundings) -> (r: Result<
    RemoteCall,
    String,
>)
    ensures
        match call_of(*command, *around) {
            Ok(c) => r matches Ok(x) && x@ == c,
            Err(m) => r matches Err(e) && e@ == m,
        },
{
    match command {
        RemoteCommand::List => Ok(only("".to_owned())),
        RemoteCommand::View { zone } => Ok(view_zone(zone.as_str())),
        RemoteCommand::Current(args) => current(args, around),
        RemoteCommand::Gate { zone, level } => {
            let z = enc(zone.as_str());
            let l = enc(level.as_str());
            Ok(
                RemoteCall {
                    path: cat4("/zones/", z.as_str(), "/gates/", l.as_str()),
                    fallback: Some(
                        cat4("/tracks/", z.as_str(), "/promotion-gates/", l.as_str()),
                    ),
                },
            )
        },
        RemoteCommand::Trace(args) => Ok(trace(args)),
        RemoteCommand::Get(args) => get_fact(args),
        RemoteCommand::History(args) => history(args),
        RemoteCommand::Artifacts(args) => Ok(only(list_artifacts(args))),
        RemoteCommand::Validations(args) => Ok(only(list_validations(args))),
        RemoteCommand::Capabilities => Ok(only("/capabilities".to_owned())),
        RemoteCommand::Scopes => Ok(only("/scopes".to_owned())),
        RemoteCommand::Scope { scope_id } => Ok(
            only(cat2("/scopes/", enc(scope_id.as_str()).as_str())),
        ),
        RemoteCommand::Providers { capability } => Ok(
            only(cat3("/capabilities/", enc(capability.as_str()).as_str(), "/providers")),
        ),
        RemoteCommand::Requirements { artifact_id } => Ok(
            only(cat3("/artifacts/", enc(artifact_id.as_str()).as_str(), "/requirements")),
        ),
        RemoteCommand::Consumers { artifact_id } => Ok(
            only(cat3("/artifacts/", enc(artifact_id.as_str()).as_str(), "/consumers")),
        ),
        RemoteCommand::Blockers { track, within } => Ok(
            only(blockers(track.as_str(), within)),
        ),
        RemoteCommand::Eligibility { track, environment } => Ok(
            only(
                cat5(
                    "/tracks/",
                    enc(track.as_str()).as_str(),
                    "/environments/",
                    enc(environment.as_str()).as_str(),
                    "/eligibility",
                ),
            ),
        ),
    }
}

// ---------------------------------------------------------------------------
// The shell
// ---------------------------------------------------------------------------
pub open spec fn with_option(args: Seq<Seq<char>>, name: Seq<char>, value: Option<Seq<char>>) -> Seq<
    Seq<char>,
> {
    match value {
        Some(v) => args.push(name).push(v),
        None => args,
    }
}

fn push_option(args: &mut Vec<String>, name: &str, value: &Option<String>)
    ensures
        views(final(args)@) == with_option(views(old(args)@), name@, opt_view(*value)),
{
    match value {
        Some(v) => {
            let ghost before = views(args@);
            args.push(name.to_owned());
            assert(views(args@) =~= before.push(name@));
            args.push(v.clone());
            assert(views(args@) =~= before.push(name@).push(v@));
        },
        None => {},
    }
}

/// Arguments with those of a context behind them.
pub open spec fn context_options(args: Seq<Seq<char>>, context: ContextV) -> Seq<Seq<char>> {
    with_option(
        with_option(
            with_option(
                with_option(
                    with_option(
                        with_option(
                            with_option(args, "--zone"@, context.zone),
                            "--repo"@,
                            context.repo,
                        ),
                        "--component"@,
                        context.component,
                    ),
                    "--tag"@,
                    context.tag,
                ),
                "--target-version"@,
                context.version,
            ),
            "--sha"@,
            context.sha,
        ),
        "--ref"@,
        context.reference,
    )
}

pub fn append_context_args(args: &mut Vec<String>, context: &ContextArgs)
    ensures
        views(final(args)@) == context_options(views(old(args)@), context@),
{
    push_option(args, "--zone", &context.zone);
    push_option(args, "--repo", &context.repo);
    push_option(args, "--component", &context.component);
    push_option(args, "--tag", &context.tag);
    push_option(args, "--target-version", &context.version);
    push_option(args, "--sha", &context.sha);
    push_option(args, "--ref", &context.reference);
}

pub open spec fn format_name(output: OutputFormat) -> Option<Seq<char>> {
    match output {
        OutputFormat::Json => Some("json"@),
        OutputFormat::Yaml => Some("yaml"@),
        OutputFormat::Table => Some("table"@),
        OutputFormat::Csv => Some("csv"@),
        OutputFormat::Human => None,
    }
}

/// The arguments that the shell is started with.
pub open spec fn shell_options(
    construct: Option<Seq<char>>,
    api_prefix: Seq<char>,
    output: OutputFormat,
    context: ContextV,
) -> Seq<Seq<char>> {
    context_options(
        with_option(
            with_option(
                with_option(Seq::empty(), "--construct"@, construct),
                "--api-prefix"@,
                Some(api_prefix),
            ),
            "-o"@,
            format_name(output),
        ),
        context,
    )
}

pub fn shell_args(
    construct: &Option<String>,
    api_prefix: &str,
    output: OutputFormat,
    context: &ContextArgs,
) -> (r: Vec<String>)
    ensures
        views(r@) == shell_options(opt_view(*construct), api_prefix@, output, context@),
{
    let mut args: Vec<String> = Vec::new();
    assert(views(args@) =~= Seq::<Seq<char>>::empty());
    push_option(&mut args, "--construct", construct);
    push_option(&mut args, "--api-prefix", &Some(api_prefix.to_owned()));
    let format = match output {
        OutputFormat::Json => Some("json".to_owned()),
        OutputFormat::Yaml => Some("yaml".to_owned()),
        OutputFormat::Table => Some("table".to_owned()),
        OutputFormat::Csv => Some("csv".to_owned()),
        OutputFormat::Human => None,
    };
    push_option(&mut args, "-o", &format);
    append_context_args(&mut args, context);
    args
}

/// What is said once the shell was left.
pub fn shell_left(executable: &str) -> (r: Json)
    ensures
        r@ == JsonV::empty_object().with("status"@, JsonV::Text("left"@)).with(
            "binary"@,
            JsonV::Text(executable@),
        ),
{
    Json::object().with("status", Json::text("left")).with("binary", Json::text(executable))
}

} // verus!
