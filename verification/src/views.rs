//! The tables and views that facts are loaded into, and the views that users add.
use vstd::prelude::*;
use crate::context::{active_context_where, active_test, ContextV, MatrixContext};
use crate::sql::{
    identifier_sql, is_sql_identifier, literal_opt_sql, literal_sql, quote_identifier,
    sql_identifier, sql_literal, sql_literal_opt,
};
use crate::text::{
    cat2, cat3, cat5, char_count, copy_opt, has_prefix, join, joined, lines, lines_of, lower,
    opt_view, or, or_text, pieces, same, skip_chars, split, starts_with, to_lower, trim, trim_start,
    trimmed, trimmed_start, views, CharClass,
};

verus! {

/// The condition of the active zone: no fact meets it where no zone is active.
pub open spec fn zone_where(zone: Option<Seq<char>>) -> Seq<char> {
    match zone {
        Some(z) => "zone = "@ + literal_sql(z),
        None => "0"@,
    }
}

fn zone_condition(zone: &Option<String>) -> (r: String)
    ensures
        r@ == zone_where(opt_view(*zone)),
{
    match zone {
        Some(z) => cat2("zone = ", sql_literal(z.as_str()).as_str()),
        None => "0".to_owned(),
    }
}

/// The table that facts are loaded into, and its indexes.
pub const FACTS_TABLE_SQL: &'static str = "create table facts (
          id text, zone text, kind text, status text,
          type text, component text, canonical_component text, identity text,
          subject_class text, version text, repo text,
          source_repository text, source_repo text, source_sha text, source_ref text,
          subject_type text, subject_name text, channel text,
          tag text, observed_at text, accepted_at text,
          requires text, provides text, aliases text, json text not null
        );
        create index if not exists idx_matrix_facts_zone on facts(zone, observed_at);
        create index if not exists idx_matrix_facts_component on facts(component, repo, version);
        create index if not exists idx_matrix_facts_identity on facts(identity);
        create index if not exists idx_matrix_facts_status on facts(status);";

/// Stores a fact.
pub const INSERT_FACT_SQL: &'static str = "insert into facts values (?1, ?2, ?3, ?4, ?5, ?6, ?7, ?8, ?9, ?10, ?11, ?12, ?13, ?14, ?15, ?16, ?17, ?18, ?19, ?20, ?21, ?22, ?23, ?24, ?25)";

/// The zones that have facts.
pub const FACT_ZONES_SQL: &'static str = "select distinct zone from facts where zone is not null";

/// The names of the views.
pub const VIEW_NAMES_SQL: &'static str = "select name from sqlite_temp_master where type = 'view'";

/// The views on all facts.
pub const MATRIX_VIEWS_SQL: &'static str = "create temp view zones as
          select zone, count(*) as facts,
                 sum(case when status in ('compatible', 'passed', 'observed', 'candidate') then 1 else 0 end) as valid,
                 sum(case when status in ('incompatible', 'failed') then 1 else 0 end) as invalid
          from facts
          where zone is not null
          group by zone;
        create temp view subjects as
          select type, component, canonical_component, identity, subject_class, repo, count(*) as facts,
                 max(observed_at) as last_observed_at
          from facts
          where component is not null
          group by type, component, canonical_component, identity, subject_class, repo;
        create temp view components as
          select zone, type, subject_class, component, canonical_component, identity,
                 subject_name, repo, version, status,
                 case
                   when status in ('compatible', 'passed', 'observed', 'candidate', 'valid', 'ready') then 'valid'
                   when status in ('incompatible', 'failed', 'invalid', 'blocked') then 'invalid'
                   else coalesce(status, 'unknown')
                 end as status_class,
                 observed_at, accepted_at, id
          from facts
          where component is not null;
        create temp view identities as
          select identity, canonical_component, subject_class,
                 min(type) as type,
                 min(subject_name) as subject_name,
                 min(repo) as repo,
                 count(*) as facts,
                 max(observed_at) as last_observed_at
          from facts
          where identity is not null
          group by identity, canonical_component, subject_class;
        create temp view identity_aliases as
          select distinct identity, canonical_component, subject_class, type,
                 subject_name, repo, subject_name as alias, 'subject_name' as alias_kind
          from facts
          where identity is not null and subject_name is not null and subject_name != ''
          union
          select distinct identity, canonical_component, subject_class, type,
                 subject_name, repo, component as alias, 'component' as alias_kind
          from facts
          where identity is not null and component is not null and component != ''
          union
          select distinct identity, canonical_component, subject_class, type,
                 subject_name, repo, repo as alias, 'repo' as alias_kind
          from facts
          where identity is not null and repo is not null and repo != ''
          union
          select distinct f.identity, f.canonical_component, f.subject_class, f.type,
                 f.subject_name, f.repo, item.value as alias,
                 'alias' as alias_kind
          from facts f, json_each(coalesce(f.aliases, '[]')) item
          where f.identity is not null and item.value is not null
            and item.value != '';
        create temp view valid_facts as
          select * from facts
          where status in ('compatible', 'passed', 'observed', 'candidate', 'valid', 'ready');
        create temp view invalid_facts as
          select * from facts
          where status in ('incompatible', 'failed', 'invalid', 'blocked');
        create temp view requirements as
          select f.id as fact_id, f.zone, f.type, f.subject_class, f.component,
                 f.canonical_component, f.identity, f.subject_name, f.repo, f.version, f.status,
                 json_extract(item.value, '$.capability') as capability,
                 json_extract(item.value, '$.version') as capability_version,
                 item.value as requirement
          from facts f, json_each(coalesce(f.requires, '[]')) item;
        create temp view capabilities as
          select f.id as fact_id, f.zone, f.type, f.subject_class, f.component,
                 f.canonical_component, f.identity, f.subject_name, f.repo, f.version, f.status,
                 json_extract(item.value, '$.capability') as capability,
                 json_extract(item.value, '$.version') as capability_version,
                 item.value as provides
          from facts f, json_each(coalesce(f.provides, '[]')) item;
        create temp view members as
          select f.id as fact_id, f.zone, f.type as fact_type, f.component as fact_component,
                 f.repo as fact_repo, f.version as fact_version, f.status as fact_status,
                 json_extract(item.value, '$.component') as component,
                 json_extract(item.value, '$.version') as version,
                 json_extract(item.value, '$.logicalChaincode') as logical_chaincode,
                 json_extract(item.value, '$.physicalChaincode') as physical_chaincode,
                 json_extract(item.value, '$.chaincode') as chaincode,
                 json_extract(item.value, '$.channel') as channel,
                 json_extract(item.value, '$.network') as network,
                 json_extract(item.value, '$.runtime') as runtime,
                 json_extract(item.value, '$.platform') as platform,
                 json_extract(item.value, '$.digest') as digest,
                 json_extract(item.value, '$.services') as services,
                 json_extract(item.value, '$.aliases') as aliases,
                 item.value as member
          from facts f, json_each(coalesce(json_extract(f.json, '$.fact.members'), json_extract(f.json, '$.members'), '[]')) item;
        create temp view deref as
          select 'member' as edge, fact_id, zone, fact_type, fact_component, fact_repo,
                 fact_version, fact_status, 'component' as target_type,
                 component as target, version as target_version, null as capability,
                 logical_chaincode, physical_chaincode, channel, network, runtime, platform,
                 digest, services, member as json
          from members
          union all
          select 'requires' as edge, fact_id, zone, type as fact_type, component as fact_component,
                 repo as fact_repo, version as fact_version, status as fact_status,
                 'capability' as target_type, capability as target,
                 capability_version as target_version, capability,
                 null as logical_chaincode, null as physical_chaincode, null as channel,
                 null as network, null as runtime, null as platform,
                 json_extract(requirement, '$.digest') as digest,
                 null as services, requirement as json
          from requirements
          union all
          select 'provides' as edge, fact_id, zone, type as fact_type, component as fact_component,
                 repo as fact_repo, version as fact_version, status as fact_status,
                 'capability' as target_type, capability as target,
                 capability_version as target_version, capability,
                 null as logical_chaincode, null as physical_chaincode, null as channel,
                 null as network, null as runtime, null as platform,
                 json_extract(provides, '$.digest') as digest,
                 null as services, provides as json
          from capabilities;";

/// The components of the graph.
pub const GRAPH_NODES_SQL: &'static str = "select component, canonical_component, identity, subject_name, repo,
                    version, status, max(observed_at) as last_observed_at
             from components
             where component is not null and component != ''
             group by component, canonical_component, identity, subject_name, repo, version, status
             order by last_observed_at desc";

/// The other names of components.
pub const GRAPH_ALIASES_SQL: &'static str = "select identity, canonical_component, subject_name, repo, alias
             from identity_aliases
             where alias is not null and alias != ''";

/// The edges of the graph.
pub const GRAPH_EDGES_SQL: &'static str = "
            select r.component as source_component, p.component as target_component,
                   'requires' as relationship, r.capability, r.capability_version,
                   r.version as source_version, p.version as target_version,
                   r.fact_id as source_fact_id, p.fact_id as target_fact_id,
                   coalesce(p.status, r.status) as status,
                   null as observed_at
            from requirements r
            join capabilities p
              on p.capability = r.capability
             and (r.capability_version is null or p.capability_version = r.capability_version)
            where r.component is not null and p.component is not null
            union all
            select fact_component as source_component, component as target_component,
                   'contains' as relationship, null as capability, null as capability_version,
                   fact_version as source_version, version as target_version,
                   fact_id as source_fact_id, fact_id as target_fact_id,
                   fact_status as status, null as observed_at
            from members
            where fact_component is not null and component is not null";

pub const CONTEXT_VIEW_SQL: &'static str = "create temp view context as select
           ";

pub const AS_ZONE_SQL: &'static str = " as zone,
           ";

pub const AS_REPO_SQL: &'static str = " as repo,
           ";

pub const AS_COMPONENT_SQL: &'static str = " as component,
           ";

pub const AS_VERSION_SQL: &'static str = " as version,
           ";

pub const AS_TAG_SQL: &'static str = " as tag,
           ";

pub const AS_SHA_SQL: &'static str = " as sha,
           ";

pub const ACTIVE_VIEW_SQL: &'static str = " as ref;
         create temp view active as select * from facts where ";

pub const ZONE_VIEW_SQL: &'static str = ";
         create temp view current as select * from active;
         create temp view zone as select * from facts where ";

pub const LINKED_VIEWS_SQL: &'static str = ";
         create temp view upstream as
           select min(r.fact_id) as current_fact_id,
                  r.zone as current_zone,
                  r.component as current_component,
                  r.repo as current_repo,
                  r.version as current_version,
                  r.capability,
                  r.capability_version,
                  min(p.fact_id) as provider_fact_id,
                  p.zone,
                  p.type,
                  p.subject_class,
                  p.component,
                  p.canonical_component,
                  p.identity,
                  p.subject_name,
                  p.repo,
                  p.version,
                  p.status,
                  min(p.provides) as provides
           from requirements r
           join active a on a.id = r.fact_id
           left join capabilities p
             on p.capability = r.capability
            and (r.capability_version is null or p.capability_version = r.capability_version)
           group by r.zone, r.component, r.repo, r.version, r.capability, r.capability_version,
                    p.zone, p.type, p.subject_class, p.component, p.canonical_component,
                    p.identity, p.subject_name, p.repo, p.version, p.status;
         create temp view downstream as
           select min(p.fact_id) as current_fact_id,
                  p.zone as current_zone,
                  p.component as current_component,
                  p.repo as current_repo,
                  p.version as current_version,
                  p.capability,
                  p.capability_version,
                  min(r.fact_id) as dependent_fact_id,
                  r.zone,
                  r.type,
                  r.subject_class,
                  r.component,
                  r.canonical_component,
                  r.identity,
                  r.subject_name,
                  r.repo,
                  r.version,
                  r.status,
                  min(r.requirement) as requirement
           from capabilities p
           join active a on a.id = p.fact_id
           left join requirements r
             on r.capability = p.capability
            and (p.capability_version is null or r.capability_version = p.capability_version)
           group by p.zone, p.component, p.repo, p.version, p.capability, p.capability_version,
                    r.zone, r.type, r.subject_class, r.component, r.canonical_component,
                    r.identity, r.subject_name, r.repo, r.version, r.status;
         create temp view compatible_with_current as
           select distinct * from downstream
           where status in ('compatible', 'passed', 'observed', 'candidate', 'valid', 'ready');";

/// The views on the facts of a context, given the zone that is active.
pub open spec fn context_views(context: ContextV, zone: Option<Seq<char>>) -> Seq<char> {
    CONTEXT_VIEW_SQL@ + literal_opt_sql(zone) + AS_ZONE_SQL@ + literal_opt_sql(context.repo)
        + AS_REPO_SQL@ + literal_opt_sql(context.component) + AS_COMPONENT_SQL@
        + literal_opt_sql(context.version) + AS_VERSION_SQL@ + literal_opt_sql(context.tag)
        + AS_TAG_SQL@ + literal_opt_sql(context.sha) + AS_SHA_SQL@
        + literal_opt_sql(context.reference) + ACTIVE_VIEW_SQL@ + active_test(context)
        + ZONE_VIEW_SQL@ + zone_where(zone) + LINKED_VIEWS_SQL@
}

pub fn context_views_sql(context: &MatrixContext, active_zone: &Option<String>) -> (r: String)
    ensures
        r@ == context_views(context@, opt_view(*active_zone)),
{
    let mut out = CONTEXT_VIEW_SQL.to_owned();
    out.push_str(sql_literal_opt(active_zone).as_str());
    out.push_str(AS_ZONE_SQL);
    out.push_str(sql_literal_opt(&context.repo).as_str());
    out.push_str(AS_REPO_SQL);
    out.push_str(sql_literal_opt(&context.component).as_str());
    out.push_str(AS_COMPONENT_SQL);
    out.push_str(sql_literal_opt(&context.version).as_str());
    out.push_str(AS_VERSION_SQL);
    out.push_str(sql_literal_opt(&context.tag).as_str());
    out.push_str(AS_TAG_SQL);
    out.push_str(sql_literal_opt(&context.sha).as_str());
    out.push_str(AS_SHA_SQL);
    out.push_str(sql_literal_opt(&context.reference).as_str());
    out.push_str(ACTIVE_VIEW_SQL);
    out.push_str(active_context_where(context).as_str());
    out.push_str(ZONE_VIEW_SQL);
    out.push_str(zone_condition(active_zone).as_str());
    out.push_str(LINKED_VIEWS_SQL);
    out
}

/// Whether a name is that of a table or view of its own.
pub open spec fn reserved(name: Seq<char>) -> bool {
    name == "zone"@
        || name == "active"@
        || name == "current"@
        || name == "upstream"@
        || name == "downstream"@
        || name == "compatible_with_current"@
        || name == "facts"@
        || name == "context"@
        || name == "subjects"@
        || name == "components"@
        || name == "identities"@
        || name == "identity_aliases"@
        || name == "valid_facts"@
        || name == "invalid_facts"@
        || name == "requirements"@
        || name == "capabilities"@
        || name == "members"@
        || name == "deref"@
        || name == "zones"@
}

pub fn is_reserved(name: &str) -> (r: bool)
    ensures
        r == reserved(name@),
{
    same(name, "zone")
        || same(name, "active")
        || same(name, "current")
        || same(name, "upstream")
        || same(name, "downstream")
        || same(name, "compatible_with_current")
        || same(name, "facts")
        || same(name, "context")
        || same(name, "subjects")
        || same(name, "components")
        || same(name, "identities")
        || same(name, "identity_aliases")
        || same(name, "valid_facts")
        || same(name, "invalid_facts")
        || same(name, "requirements")
        || same(name, "capabilities")
        || same(name, "members")
        || same(name, "deref")
        || same(name, "zones")
}

/// The view of the facts of a zone, where the zone's name can name one.
pub open spec fn zone_view(zone: Seq<char>) -> Option<Seq<char>> {
    if sql_identifier(zone) && !reserved(zone) {
        Some(
            "create temp view "@ + identifier_sql(zone) + " as select * from facts where zone = "@
                + literal_sql(zone) + ";"@,
        )
    } else {
        None
    }
}

pub fn zone_view_sql(zone: &str) -> (r: Option<String>)
    ensures
        opt_view(r) == zone_view(zone@),
{
    if is_sql_identifier(zone) && !is_reserved(zone) {
        Some(
            cat5(
                "create temp view ",
                quote_identifier(zone).as_str(),
                " as select * from facts where zone = ",
                sql_literal(zone).as_str(),
                ";",
            ),
        )
    } else {
        None
    }
}

/// Statements with those of the views of the first `n` zones behind them.
pub open spec fn with_zone_views(first: Seq<Seq<char>>, zones: Seq<Seq<char>>, n: int) -> Seq<
    Seq<char>,
>
    decreases n,
{
    if n <= 0 {
        first
    } else {
        match zone_view(zones[n - 1]) {
            Some(s) => with_zone_views(first, zones, n - 1).push(s),
            None => with_zone_views(first, zones, n - 1),
        }
    }
}

/// The statements that make the views of a context, once those on all facts are there:
/// the active zone is the context's own, else the one that is inferred from its facts.
pub fn create_matrix_views(
    context: &MatrixContext,
    inferred_zone: &Option<String>,
    zones: &Vec<String>,
) -> (r: Vec<String>)
    ensures
        views(r@) == with_zone_views(
            seq![context_views(context@, or(context@.zone, opt_view(*inferred_zone)))],
            views(zones@),
            zones@.len() as int,
        ),
{
    let active_zone = or_text(copy_opt(&context.zone), copy_opt(inferred_zone));
    let mut out: Vec<String> = Vec::new();
    out.push(context_views_sql(context, &active_zone));
    let ghost first = seq![
        context_views(context@, or(context@.zone, opt_view(*inferred_zone))),
    ];
    let ghost names = views(zones@);
    assert(views(out@) =~= first);
    let mut i: usize = 0;
    while i < zones.len()
        invariant
            i <= zones@.len(),
            names == views(zones@),
            views(out@) == with_zone_views(first, names, i as int),
        decreases zones@.len() - i,
    {
        assert(names[i as int] == zones@[i as int]@);
        match zone_view_sql(zones[i].as_str()) {
            Some(s) => {
                let ghost before = views(out@);
                let ghost next = s@;
                out.push(s);
                assert(views(out@) =~= before.push(next));
            },
            None => {},
        }
        i += 1;
    }
    out
}

/// The statement that drops a view, where its name is a plain identifier.
pub open spec fn drop_view(name: Seq<char>) -> Option<Seq<char>> {
    if sql_identifier(name) {
        Some("drop view if exists temp."@ + identifier_sql(name) + ";"@)
    } else {
        None
    }
}

pub fn drop_view_sql(name: &str) -> (r: Option<String>)
    ensures
        opt_view(r) == drop_view(name@),
{
    if is_sql_identifier(name) {
        Some(cat3("drop view if exists temp.", quote_identifier(name).as_str(), ";"))
    } else {
        None
    }
}

// ---------------------------------------------------------------------------
// Views of users
// ---------------------------------------------------------------------------
/// Whether a line is a comment.
pub open spec fn comment_line(line: Seq<char>) -> bool {
    starts_with(trim_start(line, CharClass::White), "--"@)
}

/// The first `n` lines but those that are comments.
pub open spec fn code_lines(all: Seq<Seq<char>>, n: int) -> Seq<Seq<char>>
    decreases n,
{
    if n <= 0 {
        Seq::empty()
    } else if comment_line(all[n - 1]) {
        code_lines(all, n - 1)
    } else {
        code_lines(all, n - 1).push(all[n - 1])
    }
}

pub open spec fn without_comments(sql: Seq<char>) -> Seq<char> {
    join(code_lines(lines(sql), lines(sql).len() as int), "\n"@)
}

pub fn strip_sql_line_comments(sql: &str) -> (r: String)
    ensures
        r@ == without_comments(sql@),
{
    let all = lines_of(sql);
    let ghost lv = views(all@);
    let mut kept: Vec<String> = Vec::new();
    let mut i: usize = 0;
    assert(views(kept@) =~= Seq::empty());
    while i < all.len()
        invariant
            i <= all@.len(),
            lv == views(all@),
            views(kept@) == code_lines(lv, i as int),
        decreases all@.len() - i,
    {
        assert(lv[i as int] == all@[i as int]@);
        let start = trimmed_start(all[i].as_str(), CharClass::White);
        if !has_prefix(start.as_str(), "--") {
            let ghost before = views(kept@);
            kept.push(all[i].clone());
            assert(views(kept@) =~= before.push(lv[i as int]));
        }
        i += 1;
    }
    joined(kept.as_slice(), "\n")
}

/// What becomes of a statement of a user.
pub enum InitV {
    /// It is blank.
    Nothing,
    Run(Seq<char>),
    Refused,
}

/// A statement that makes a view makes a temporary one; no other is run.
pub open spec fn init_statement(raw: Seq<char>) -> InitV {
    let s = trim(without_comments(raw));
    let l = lower(s);
    if s.len() == 0 {
        InitV::Nothing
    } else if starts_with(l, "create temp view "@) || starts_with(l, "create temporary view "@) {
        InitV::Run(s + ";"@)
    } else if starts_with(l, "create view "@) {
        InitV::Run("create temp view "@ + s.skip(12) + ";"@)
    } else {
        InitV::Refused
    }
}

/// The statements of users to run, up to the first that is refused, if one is.
#[derive(Debug)]
pub struct InitPlan {
    pub statements: Vec<String>,
    pub refused: bool,
}

pub struct InitPlanV {
    pub statements: Seq<Seq<char>>,
    pub refused: bool,
}

impl View for InitPlan {
    type V = InitPlanV;

    open spec fn view(&self) -> InitPlanV {
        InitPlanV { statements: views(self.statements@), refused: self.refused }
    }
}

/// What is run of the first `n` statements.
pub open spec fn init_plan(parts: Seq<Seq<char>>, n: int) -> InitPlanV
    decreases n,
{
    if n <= 0 {
        InitPlanV { statements: Seq::empty(), refused: false }
    } else {
        let before = init_plan(parts, n - 1);
        if before.refused {
            before
        } else {
            match init_statement(parts[n - 1]) {
                InitV::Nothing => before,
                InitV::Run(s) => InitPlanV {
                    statements: before.statements.push(s),
                    refused: false,
                },
                InitV::Refused => InitPlanV { statements: before.statements, refused: true },
            }
        }
    }
}

pub open spec fn init_parts(sql: Seq<char>) -> Seq<Seq<char>> {
    split(sql, CharClass::Is(';'))
}

/// What is said where a statement is refused.
pub fn init_refused_message() -> (r: String)
    ensures
        r@ == "Matrix SQL init only allows CREATE VIEW statements"@,
{
    "Matrix SQL init only allows CREATE VIEW statements".to_owned()
}

proof fn lemma_lower_prefix(s: Seq<char>, p: Seq<char>)
    requires
        starts_with(lower(s), p),
    ensures
        s.len() >= p.len(),
{
    assert(lower(s).len() == s.len());
}

proof fn lemma_init_refused(parts: Seq<Seq<char>>, n: int, m: int)
    requires
        0 <= n <= m,
        init_plan(parts, n).refused,
    ensures
        init_plan(parts, m) == init_plan(parts, n),
    decreases m - n,
{
    if n < m {
        lemma_init_refused(parts, n, m - 1);
    }
}

pub fn apply_sql_init(sql: &str) -> (r: InitPlan)
    ensures
        r@ == init_plan(init_parts(sql@), init_parts(sql@).len() as int),
{
    let parts = pieces(sql, CharClass::Is(';'));
    let ghost all = views(parts@);
    let mut out: Vec<String> = Vec::new();
    let mut i: usize = 0;
    assert(views(out@) =~= Seq::empty());
    while i < parts.len()
        invariant
            i <= parts@.len(),
            all == views(parts@),
            all == init_parts(sql@),
            init_plan(all, i as int) == (InitPlanV { statements: views(out@), refused: false }),
        decreases parts@.len() - i,
    {
        assert(all[i as int] == parts@[i as int]@);
        let s = trimmed(strip_sql_line_comments(parts[i].as_str()).as_str());
        let l = to_lower(s.as_str());
        if char_count(s.as_str()) > 0 {
            let ghost before = views(out@);
            if has_prefix(l.as_str(), "create temp view ") || has_prefix(
                l.as_str(),
                "create temporary view ",
            ) {
                out.push(cat2(s.as_str(), ";"));
                assert(views(out@) =~= before.push(s@ + ";"@));
            } else if has_prefix(l.as_str(), "create view ") {
                proof {
                    lemma_lower_prefix(s@, "create view "@);
                    reveal_strlit("create view ");
                    assert("create view "@.len() == 12);
                }
                let rest = skip_chars(s.as_str(), 12);
                out.push(cat3("create temp view ", rest.as_str(), ";"));
                assert(views(out@) =~= before.push("create temp view "@ + s@.skip(12) + ";"@));
            } else {
                proof {
                    lemma_init_refused(all, i as int + 1, parts@.len() as int);
                }
                return InitPlan { statements: out, refused: true };
            }
        }
        i += 1;
    }
    InitPlan { statements: out, refused: false }
}

/// Every statement that is run for a user makes a temporary view.
pub proof fn law_users_only_make_views(parts: Seq<Seq<char>>, n: int, i: int)
    requires
        0 <= n,
        0 <= i < init_plan(parts, n).statements.len(),
    ensures
        starts_with(lower(init_plan(parts, n).statements[i]), "create temp view "@) || starts_with(
            lower(init_plan(parts, n).statements[i]),
            "create temporary view "@,
        ),
    decreases n,
{
    let before = init_plan(parts, n - 1);
    let now = init_plan(parts, n).statements;
    if i < before.statements.len() {
        law_users_only_make_views(parts, n - 1, i);
    } else {
        let raw = parts[n - 1];
        let s = trim(without_comments(raw));
        let temp = "create temp view "@;
        assert(init_statement(raw) == InitV::Run(now[i]));
        if starts_with(lower(s), temp) {
            assert(lower(s + ";"@).take(temp.len() as int) =~= lower(s).take(temp.len() as int));
        } else if starts_with(lower(s), "create temporary view "@) {
            let long = "create temporary view "@;
            assert(lower(s + ";"@).take(long.len() as int) =~= lower(s).take(long.len() as int));
        } else {
            reveal_strlit("create temp view ");
            assert(lower(now[i]).take(temp.len() as int) =~= temp);
        }
    }
}

} // verus!
