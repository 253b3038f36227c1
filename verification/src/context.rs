//! The context of a query: which zone, repository, component and commit it is about,
//! and the SQL conditions that it makes.
use vstd::prelude::*;
use crate::facts::{component_key, short_name};
use crate::request::{current_branch, current_exact_tag, current_repo, current_sha, repo_of_url, trimmed_opt};
use crate::sql::{literal_sql, sql_literal};
use crate::text::{cat2, cat3, copy_opt, join, joined, opt_view, or, or_text, trim, trimmed, views};

verus! {

// ---------------------------------------------------------------------------
// Contexts
// ---------------------------------------------------------------------------
/// The context that the command line asks for.
#[derive(Debug)]
pub struct ContextArgs {
    pub zone: Option<String>,
    pub repo: Option<String>,
    pub component: Option<String>,
    pub tag: Option<String>,
    pub version: Option<String>,
    pub sha: Option<String>,
    pub reference: Option<String>,
}

/// What the environment and git say of the working directory: the zone variable, and
/// what git printed of the remote, the tag, the commit and the branch.
#[derive(Debug)]
pub struct Surroundings {
    pub zone: Option<String>,
    pub remote: Option<String>,
    pub tag: Option<String>,
    pub sha: Option<String>,
    pub branch: Option<String>,
}

#[derive(Debug)]
pub struct MatrixContext {
    pub zone: Option<String>,
    pub repo: Option<String>,
    pub component: Option<String>,
    pub version: Option<String>,
    pub tag: Option<String>,
    pub sha: Option<String>,
    pub reference: Option<String>,
}

pub struct ContextV {
    pub zone: Option<Seq<char>>,
    pub repo: Option<Seq<char>>,
    pub component: Option<Seq<char>>,
    pub version: Option<Seq<char>>,
    pub tag: Option<Seq<char>>,
    pub sha: Option<Seq<char>>,
    pub reference: Option<Seq<char>>,
}

impl View for MatrixContext {
    type V = ContextV;

    open spec fn view(&self) -> ContextV {
        ContextV {
            zone: opt_view(self.zone),
            repo: opt_view(self.repo),
            component: opt_view(self.component),
            version: opt_view(self.version),
            tag: opt_view(self.tag),
            sha: opt_view(self.sha),
            reference: opt_view(self.reference),
        }
    }
}

impl View for ContextArgs {
    type V = ContextV;

    open spec fn view(&self) -> ContextV {
        ContextV {
            zone: opt_view(self.zone),
            repo: opt_view(self.repo),
            component: opt_view(self.component),
            version: opt_view(self.version),
            tag: opt_view(self.tag),
            sha: opt_view(self.sha),
            reference: opt_view(self.reference),
        }
    }
}

impl ContextV {
    pub open spec fn empty() -> ContextV {
        ContextV {
            zone: None,
            repo: None,
            component: None,
            version: None,
            tag: None,
            sha: None,
            reference: None,
        }
    }
}

/// What the surroundings say, read.
pub struct SurroundingsV {
    pub zone: Option<Seq<char>>,
    pub repo: Option<Seq<char>>,
    pub tag: Option<Seq<char>>,
    pub sha: Option<Seq<char>>,
    pub branch: Option<Seq<char>>,
}

impl View for Surroundings {
    type V = SurroundingsV;

    open spec fn view(&self) -> SurroundingsV {
        SurroundingsV {
            zone: opt_view(self.zone),
            repo: match opt_view(self.remote) {
                Some(s) => repo_of_url(trim(s)),
                None => None,
            },
            tag: trimmed_opt(opt_view(self.tag)),
            sha: trimmed_opt(opt_view(self.sha)),
            branch: trimmed_opt(opt_view(self.branch)),
        }
    }
}

/// The context in force: what is asked for, else what the surroundings say. With
/// another repository than that of the working directory, the tag, commit and branch
/// of the working directory say nothing.
pub open spec fn detected(args: ContextV, s: SurroundingsV) -> ContextV {
    let own = args.repo is None;
    ContextV {
        zone: or(args.zone, s.zone),
        repo: or(args.repo, s.repo),
        component: args.component,
        version: args.version,
        tag: if own {
            or(args.tag, s.tag)
        } else {
            args.tag
        },
        sha: if own {
            or(args.sha, s.sha)
        } else {
            args.sha
        },
        reference: if own {
            or(args.reference, s.branch)
        } else {
            args.reference
        },
    }
}

/// The context of browsing: where a zone alone is asked for, nothing of the working
/// directory narrows it.
pub open spec fn browsing(args: ContextV, s: SurroundingsV) -> ContextV {
    let c = detected(args, s);
    if args.zone is Some && args.repo is None && args.component is None {
        ContextV { repo: None, tag: None, sha: None, reference: None, ..c }
    } else {
        c
    }
}

impl MatrixContext {
    /// A context that says nothing.
    pub fn empty() -> (r: MatrixContext)
        ensures
            r@ == ContextV::empty(),
    {
        MatrixContext {
            zone: None,
            repo: None,
            component: None,
            version: None,
            tag: None,
            sha: None,
            reference: None,
        }
    }

    pub fn copy(&self) -> (r: MatrixContext)
        ensures
            r@ == self@,
    {
        MatrixContext {
            zone: copy_opt(&self.zone),
            repo: copy_opt(&self.repo),
            component: copy_opt(&self.component),
            version: copy_opt(&self.version),
            tag: copy_opt(&self.tag),
            sha: copy_opt(&self.sha),
            reference: copy_opt(&self.reference),
        }
    }

    pub fn detect(args: ContextArgs, surroundings: &Surroundings) -> (r: MatrixContext)
        ensures
            r@ == detected(args@, surroundings@),
    {
        let own = args.repo.is_none();
        let tag = if own {
            or_text(args.tag, current_exact_tag(&surroundings.tag))
        } else {
            args.tag
        };
        let sha = if own {
            or_text(args.sha, current_sha(&surroundings.sha))
        } else {
            args.sha
        };
        let reference = if own {
            or_text(args.reference, current_branch(&surroundings.branch))
        } else {
            args.reference
        };
        MatrixContext {
            zone: or_text(args.zone, copy_opt(&surroundings.zone)),
            repo: or_text(args.repo, current_repo(&surroundings.remote)),
            component: args.component,
            version: args.version,
            tag,
            sha,
            reference,
        }
    }

    pub fn detect_browsing(args: ContextArgs, surroundings: &Surroundings) -> (r: MatrixContext)
        ensures
            r@ == browsing(args@, surroundings@),
    {
        let zone_alone = args.zone.is_some() && args.repo.is_none() && args.component.is_none();
        let mut context = MatrixContext::detect(args, surroundings);
        if zone_alone {
            context.repo = None;
            context.tag = None;
            context.sha = None;
            context.reference = None;
        }
        context
    }
}

/// With a repository asked for, nothing of the working directory's commit, tag or
/// branch comes into the context; with a zone alone, its repository does not either.
pub proof fn law_context_does_not_leak(args: ContextV, a: SurroundingsV, b: SurroundingsV)
    requires
        a.zone == b.zone,
    ensures
        args.repo is Some ==> detected(args, a) == detected(args, b),
        args.zone is Some && args.repo is None && args.component is None ==> browsing(args, a)
            == browsing(args, b),
{
}

// ---------------------------------------------------------------------------
// Conditions
// ---------------------------------------------------------------------------
/// The condition with an `and` before it, or nothing where there is none.
pub open spec fn all_of(filters: Seq<Seq<char>>) -> Seq<char> {
    if filters.len() == 0 {
        ""@
    } else {
        " and "@ + join(filters, " and "@)
    }
}

pub fn all_filters(filters: &Vec<String>) -> (r: String)
    ensures
        r@ == all_of(views(filters@)),
{
    assert(views(filters@).len() == filters@.len());
    if filters.len() == 0 {
        "".to_owned()
    } else {
        cat2(" and ", joined(filters.as_slice(), " and ").as_str())
    }
}

pub open spec fn with_filter(filters: Seq<Seq<char>>, f: Option<Seq<char>>) -> Seq<Seq<char>> {
    match f {
        Some(s) => filters.push(s),
        None => filters,
    }
}

pub fn push_filter(filters: &mut Vec<String>, f: Option<String>)
    ensures
        views(final(filters)@) == with_filter(views(old(filters)@), opt_view(f)),
{
    match f {
        Some(s) => {
            let ghost before = views(filters@);
            let ghost t = s@;
            filters.push(s);
            assert(views(filters@) =~= before.push(t));
        },
        None => {},
    }
}

/// The condition that a column is a text.
pub open spec fn column_is(column: Seq<char>, value: Option<Seq<char>>) -> Option<Seq<char>> {
    match value {
        Some(v) => Some(column + " = "@ + literal_sql(v)),
        None => None,
    }
}

pub fn column_test(column: &str, value: &Option<String>) -> (r: Option<String>)
    ensures
        opt_view(r) == column_is(column@, opt_view(*value)),
{
    match value {
        Some(v) => Some(cat3(column, " = ", sql_literal(v.as_str()).as_str())),
        None => None,
    }
}

pub const OR_ELSE_SQL: &'static str = "
          or ";

pub const ALIAS_TEST_SQL: &'static str = "
          or exists (
            select 1 from identity_aliases matrix_alias
            where matrix_alias.identity = ";

pub const ALIAS_NAMES_SQL: &'static str = "
              and (matrix_alias.alias = ";

pub const OR_ALIAS_SQL: &'static str = " or matrix_alias.alias = ";

pub const ALIAS_TEST_END_SQL: &'static str = ")
          ))";

/// The condition that a row is about a component, by its name, subject, repository,
/// identity or one of its aliases.
pub open spec fn identity_test(table: Seq<char>, target: Seq<char>) -> Seq<char> {
    let exact = literal_sql(trim(target));
    let key = literal_sql(short_name(trim(target)));
    "("@ + (table + ".component"@) + " = "@ + key + OR_ELSE_SQL@ + (table + ".component"@) + " = "@
        + exact + OR_ELSE_SQL@ + (table + ".subject_name"@) + " = "@ + exact + OR_ELSE_SQL@
        + (table + ".repo"@) + " = "@ + exact + OR_ELSE_SQL@ + (table + ".identity"@) + " = "@
        + exact + ALIAS_TEST_SQL@ + (table + ".identity"@) + ALIAS_NAMES_SQL@ + exact
        + OR_ALIAS_SQL@ + key + ALIAS_TEST_END_SQL@
}

pub open spec fn table_or_facts(table: Option<Seq<char>>) -> Seq<char> {
    match table {
        Some(t) => t,
        None => "facts"@,
    }
}

pub fn identity_match_sql(table: Option<&str>, target: &str) -> (r: String)
    ensures
        r@ == identity_test(
            table_or_facts(
                match table {
                    Some(t) => Some(t@),
                    None => None,
                },
            ),
            target@,
        ),
{
    let t = trimmed(target);
    let exact = sql_literal(t.as_str());
    let key = sql_literal(component_key(t.as_str()).as_str());
    let table = match table {
        Some(t) => t,
        None => "facts",
    };
    let identity = cat2(table, ".identity");
    let component = cat2(table, ".component");
    let subject_name = cat2(table, ".subject_name");
    let repo = cat2(table, ".repo");
    let mut out = "(".to_owned();
    out.push_str(component.as_str());
    out.push_str(" = ");
    out.push_str(key.as_str());
    out.push_str(OR_ELSE_SQL);
    out.push_str(component.as_str());
    out.push_str(" = ");
    out.push_str(exact.as_str());
    out.push_str(OR_ELSE_SQL);
    out.push_str(subject_name.as_str());
    out.push_str(" = ");
    out.push_str(exact.as_str());
    out.push_str(OR_ELSE_SQL);
    out.push_str(repo.as_str());
    out.push_str(" = ");
    out.push_str(exact.as_str());
    out.push_str(OR_ELSE_SQL);
    out.push_str(identity.as_str());
    out.push_str(" = ");
    out.push_str(exact.as_str());
    out.push_str(ALIAS_TEST_SQL);
    out.push_str(identity.as_str());
    out.push_str(ALIAS_NAMES_SQL);
    out.push_str(exact.as_str());
    out.push_str(OR_ALIAS_SQL);
    out.push_str(key.as_str());
    out.push_str(ALIAS_TEST_END_SQL);
    out
}

pub open spec fn opt_identity(table: Seq<char>, target: Option<Seq<char>>) -> Option<Seq<char>> {
    match target {
        Some(t) => Some(identity_test(table, t)),
        None => None,
    }
}

pub fn identity_filter(table: &str, target: &Option<String>) -> (r: Option<String>)
    ensures
        opt_view(r) == opt_identity(table@, opt_view(*target)),
{
    match target {
        Some(t) => Some(identity_match_sql(Some(table), t.as_str())),
        None => None,
    }
}

/// The condition on the target of a comparison.
pub open spec fn target_test(alias: Seq<char>, target: Seq<char>, version: Option<Seq<char>>) -> Seq<
    char,
> {
    join(
        with_filter(
            seq![identity_test(alias, target)],
            column_is(alias + ".version"@, version),
        ),
        " and "@,
    )
}

pub fn target_match_sql(alias: &str, target: &str, target_version: &Option<String>) -> (r: String)
    ensures
        r@ == target_test(alias@, target@, opt_view(*target_version)),
{
    let mut clauses: Vec<String> = Vec::new();
    clauses.push(identity_match_sql(Some(alias), target));
    assert(views(clauses@) =~= seq![identity_test(alias@, target@)]);
    push_filter(&mut clauses, column_test(cat2(alias, ".version").as_str(), target_version));
    joined(clauses.as_slice(), " and ")
}

/// The conditions of a context on the rows of a table: the zone of the prepared
/// views before that of the context, the repository, and the component where it is
/// asked for.
pub open spec fn context_filter(
    context: ContextV,
    view_zone: Option<Seq<char>>,
    table: Seq<char>,
    with_component: bool,
) -> Seq<char> {
    let zone = with_filter(
        Seq::empty(),
        column_is(table + ".zone"@, or(view_zone, context.zone)),
    );
    let repo = with_filter(zone, column_is(table + ".repo"@, context.repo));
    all_of(
        if with_component {
            with_filter(repo, opt_identity(table, context.component))
        } else {
            repo
        },
    )
}

pub fn context_filter_sql(
    context: &MatrixContext,
    view_zone: &Option<String>,
    table: &str,
    with_component: bool,
) -> (r: String)
    ensures
        r@ == context_filter(context@, opt_view(*view_zone), table@, with_component),
{
    let mut filters: Vec<String> = Vec::new();
    assert(views(filters@) =~= Seq::empty());
    let zone = or_text(copy_opt(view_zone), copy_opt(&context.zone));
    push_filter(&mut filters, column_test(cat2(table, ".zone").as_str(), &zone));
    push_filter(&mut filters, column_test(cat2(table, ".repo").as_str(), &context.repo));
    if with_component {
        push_filter(&mut filters, identity_filter(table, &context.component));
    }
    all_filters(&filters)
}

/// The conditions of a context on an inventory of producers.
pub open spec fn producer_filter(context: ContextV) -> Seq<char> {
    all_of(
        with_filter(
            with_filter(
                with_filter(Seq::empty(), column_is("facts.zone"@, context.zone)),
                column_is("facts.repo"@, context.repo),
            ),
            opt_identity("facts"@, context.component),
        ),
    )
}

/// What producers are selected by on the command line: the zone, the repository and the
/// component that are asked for.
pub fn producer_filter_context(args: &ContextArgs) -> (r: MatrixContext)
    ensures
        r@ == (ContextV {
            zone: opt_view(args.zone),
            repo: opt_view(args.repo),
            component: opt_view(args.component),
            ..ContextV::empty()
        }),
{
    let mut context = MatrixContext::empty();
    context.zone = copy_opt(&args.zone);
    context.repo = copy_opt(&args.repo);
    context.component = copy_opt(&args.component);
    context
}

pub fn producer_context_filter_sql(context: &MatrixContext) -> (r: String)
    ensures
        r@ == producer_filter(context@),
{
    let mut filters: Vec<String> = Vec::new();
    assert(views(filters@) =~= Seq::empty());
    push_filter(&mut filters, column_test("facts.zone", &context.zone));
    push_filter(&mut filters, column_test("facts.repo", &context.repo));
    push_filter(&mut filters, identity_filter("facts", &context.component));
    all_filters(&filters)
}

/// The condition that one of three columns is a text.
pub open spec fn any_column_is(
    a: Seq<char>,
    b: Seq<char>,
    c: Seq<char>,
    value: Option<Seq<char>>,
) -> Option<Seq<char>> {
    match value {
        Some(v) => Some(
            "("@ + a + " = "@ + literal_sql(v) + " or "@ + b + " = "@ + literal_sql(v) + " or "@ + c
                + " = "@ + literal_sql(v) + ")"@,
        ),
        None => None,
    }
}

fn any_column_test(a: &str, b: &str, c: &str, value: &Option<String>) -> (r: Option<String>)
    ensures
        opt_view(r) == any_column_is(a@, b@, c@, opt_view(*value)),
{
    match value {
        Some(v) => {
            let l = sql_literal(v.as_str());
            let mut out = "(".to_owned();
            out.push_str(a);
            out.push_str(" = ");
            out.push_str(l.as_str());
            out.push_str(" or ");
            out.push_str(b);
            out.push_str(" = ");
            out.push_str(l.as_str());
            out.push_str(" or ");
            out.push_str(c);
            out.push_str(" = ");
            out.push_str(l.as_str());
            out.push_str(")");
            Some(out)
        },
        None => None,
    }
}

/// The condition that a fact belongs to the active context; every fact does where
/// the context says nothing.
pub open spec fn active_test(context: ContextV) -> Seq<char> {
    let repo = with_filter(
        Seq::empty(),
        any_column_is("repo"@, "source_repo"@, "source_repository"@, context.repo),
    );
    let component = with_filter(repo, opt_identity("facts"@, context.component));
    let version = with_filter(component, column_is("version"@, context.version));
    let sha = with_filter(version, column_is("source_sha"@, context.sha));
    let reference = with_filter(sha, column_is("source_ref"@, context.reference));
    let filters = with_filter(
        reference,
        any_column_is("tag"@, "version"@, "source_ref"@, context.tag),
    );
    if filters.len() == 0 {
        "1"@
    } else {
        join(filters, " and "@)
    }
}

pub fn active_context_where(context: &MatrixContext) -> (r: String)
    ensures
        r@ == active_test(context@),
{
    let mut filters: Vec<String> = Vec::new();
    assert(views(filters@) =~= Seq::empty());
    push_filter(
        &mut filters,
        any_column_test("repo", "source_repo", "source_repository", &context.repo),
    );
    push_filter(&mut filters, identity_filter("facts", &context.component));
    push_filter(&mut filters, column_test("version", &context.version));
    push_filter(&mut filters, column_test("source_sha", &context.sha));
    push_filter(&mut filters, column_test("source_ref", &context.reference));
    push_filter(&mut filters, any_column_test("tag", "version", "source_ref", &context.tag));
    assert(views(filters@).len() == filters@.len());
    if filters.len() == 0 {
        "1".to_owned()
    } else {
        joined(filters.as_slice(), " and ")
    }
}

/// The query for the zone that the active facts were last observed in.
pub open spec fn zone_query(active: Seq<char>) -> Seq<char> {
    "select zone from facts where "@ + active
        + " and zone is not null order by observed_at desc, id asc limit 1"@
}

pub fn infer_context_zone_sql(active_where: &str) -> (r: String)
    ensures
        r@ == zone_query(active_where@),
{
    cat3(
        "select zone from facts where ",
        active_where,
        " and zone is not null order by observed_at desc, id asc limit 1",
    )
}

} // verus!
