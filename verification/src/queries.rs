//! The SQL of the queries that commands run on loaded facts.
use vstd::prelude::*;
use crate::context::{
    all_filters, all_of, context_filter, context_filter_sql, identity_match_sql, identity_test,
    push_filter, target_match_sql, target_test, with_filter, ContextArgs, ContextV, MatrixContext,
};
use crate::calls::{at_least_one, limit_digits};
use crate::json::{items_view, Json, JsonV};
use crate::readonly::{is_read_only, reads_only};
use crate::sql::{literal_sql, normal_sql, normalize_matrix_sql, sql_literal};
use crate::text::{
    cat2, cat3, cat4, char_count, copy_opt, decimal, decimal_int, digits_of_i64, digits_of_usize,
    opt_view, trim, trimmed, views,
};

verus! {

// ---------------------------------------------------------------------------
// Which components
// ---------------------------------------------------------------------------
/// Which kinds of components a query shows.
#[derive(Debug)]
pub struct ComponentQueryOptions {
    pub all: bool,
    pub type_filter: Option<String>,
    pub include_applications: bool,
    pub include_dependencies: bool,
}

pub struct OptionsV {
    pub all: bool,
    pub type_filter: Option<Seq<char>>,
    pub include_applications: bool,
    pub include_dependencies: bool,
}

impl View for ComponentQueryOptions {
    type V = OptionsV;

    open spec fn view(&self) -> OptionsV {
        OptionsV {
            all: self.all,
            type_filter: opt_view(self.type_filter),
            include_applications: self.include_applications,
            include_dependencies: self.include_dependencies,
        }
    }
}

pub open spec fn default_options() -> OptionsV {
    OptionsV {
        all: false,
        type_filter: None,
        include_applications: false,
        include_dependencies: false,
    }
}

impl Default for ComponentQueryOptions {
    fn default() -> (r: ComponentQueryOptions)
        ensures
            r@ == default_options(),
    {
        ComponentQueryOptions {
            all: false,
            type_filter: None,
            include_applications: false,
            include_dependencies: false,
        }
    }
}

pub open spec fn no_applications() -> Seq<char> {
    "(subject_class is null or subject_class != 'application')"@
}

pub open spec fn no_dependencies() -> Seq<char> {
    "(subject_class is null or subject_class != 'dependency')"@
}

/// The condition on the kind of a component: the type that is asked for, else all, else
/// neither applications nor dependencies but where they are asked for; `focused` says
/// whether the context names a component, which may be an application.
pub open spec fn subject_filter(options: OptionsV, focused: bool) -> Seq<char> {
    match options.type_filter {
        Some(t) => " and type = "@ + literal_sql(t),
        None => if options.all {
            ""@
        } else {
            let first = with_filter(
                Seq::empty(),
                if !options.include_applications && !focused {
                    Some(no_applications())
                } else {
                    None
                },
            );
            all_of(
                with_filter(
                    first,
                    if !options.include_dependencies {
                        Some(no_dependencies())
                    } else {
                        None
                    },
                ),
            )
        },
    }
}

pub fn component_subject_filter_sql(options: &ComponentQueryOptions, include_focused: bool) -> (r:
    String)
    ensures
        r@ == subject_filter(options@, include_focused),
{
    match &options.type_filter {
        Some(t) => {
            return cat2(" and type = ", sql_literal(t.as_str()).as_str());
        },
        None => {},
    }
    if options.all {
        return "".to_owned();
    }
    let mut filters: Vec<String> = Vec::new();
    assert(views(filters@) =~= Seq::empty());
    if !options.include_applications && !include_focused {
        push_filter(
            &mut filters,
            Some("(subject_class is null or subject_class != 'application')".to_owned()),
        );
    }
    if !options.include_dependencies {
        push_filter(
            &mut filters,
            Some("(subject_class is null or subject_class != 'dependency')".to_owned()),
        );
    }
    all_filters(&filters)
}

/// How the command line wants facts loaded.
#[derive(Clone, Copy, Debug, PartialEq, Eq, Structural)]
pub struct FactCacheArgs {
    pub refresh_cache: bool,
    pub offline: bool,
}

/// What a list of components is asked for.
#[derive(Debug)]
pub struct ListQueryArgs {
    pub max_facts: Option<usize>,
    pub limit: usize,
    pub all: bool,
    pub type_filter: Option<String>,
    pub include_applications: bool,
    pub include_dependencies: bool,
    pub cache: FactCacheArgs,
    pub context: ContextArgs,
}

impl ListQueryArgs {
    pub fn component_options(&self) -> (r: ComponentQueryOptions)
        ensures
            r@ == (OptionsV {
                all: self.all,
                type_filter: opt_view(self.type_filter),
                include_applications: self.include_applications,
                include_dependencies: self.include_dependencies,
            }),
    {
        ComponentQueryOptions {
            all: self.all,
            type_filter: copy_opt(&self.type_filter),
            include_applications: self.include_applications,
            include_dependencies: self.include_dependencies,
        }
    }
}

/// What a list of versions is asked for.
#[derive(Debug)]
pub struct VersionQueryArgs {
    pub component_filter: Option<String>,
    pub for_component: Option<String>,
    pub max_facts: Option<usize>,
    pub limit: usize,
    pub all: bool,
    pub type_filter: Option<String>,
    pub include_applications: bool,
    pub include_dependencies: bool,
    pub cache: FactCacheArgs,
    pub context: ContextArgs,
}

impl VersionQueryArgs {
    pub fn component_options(&self) -> (r: ComponentQueryOptions)
        ensures
            r@ == (OptionsV {
                all: self.all,
                type_filter: opt_view(self.type_filter),
                include_applications: self.include_applications,
                include_dependencies: self.include_dependencies,
            }),
    {
        ComponentQueryOptions {
            all: self.all,
            type_filter: copy_opt(&self.type_filter),
            include_applications: self.include_applications,
            include_dependencies: self.include_dependencies,
        }
    }
}

/// What compatibility is asked for: that of two components, or of the current one.
#[derive(Debug)]
pub struct CompatibleArgs {
    pub left: Option<String>,
    pub right: Option<String>,
    pub max_facts: Option<usize>,
    pub limit: usize,
    pub all: bool,
    pub type_filter: Option<String>,
    pub include_applications: bool,
    pub include_dependencies: bool,
    pub cache: FactCacheArgs,
    pub context: ContextArgs,
}

fn copy_context(context: &ContextArgs) -> (r: ContextArgs)
    ensures
        r@ == context@,
{
    ContextArgs {
        zone: copy_opt(&context.zone),
        repo: copy_opt(&context.repo),
        component: copy_opt(&context.component),
        tag: copy_opt(&context.tag),
        version: copy_opt(&context.version),
        sha: copy_opt(&context.sha),
        reference: copy_opt(&context.reference),
    }
}

impl CompatibleArgs {
    pub fn list_options(&self) -> (r: ListQueryArgs)
        ensures
            r.max_facts == self.max_facts,
            r.limit == self.limit,
            r.all == self.all,
            opt_view(r.type_filter) == opt_view(self.type_filter),
            r.include_applications == self.include_applications,
            r.include_dependencies == self.include_dependencies,
            r.cache == self.cache,
            r.context@ == self.context@,
    {
        ListQueryArgs {
            max_facts: self.max_facts,
            limit: self.limit,
            all: self.all,
            type_filter: copy_opt(&self.type_filter),
            include_applications: self.include_applications,
            include_dependencies: self.include_dependencies,
            cache: self.cache,
            context: copy_context(&self.context),
        }
    }
}

/// What answers a question of compatibility.
#[derive(Debug)]
pub enum CompatiblePlan {
    /// Whether two components work together, by at most so many paths.
    Pair { left: String, right: String, limit: usize },
    /// What is compatible with the current component.
    View,
}

/// Whether two components work together where both are given, what is compatible with
/// the current one where neither is; one alone is refused.
pub fn compatible_plan(args: &CompatibleArgs) -> (r: Result<CompatiblePlan, String>)
    ensures
        match (opt_view(args.left), opt_view(args.right)) {
            (Some(left), Some(right)) => r matches Ok(CompatiblePlan::Pair {
                left: l,
                right: g,
                limit,
            }) && l@ == left && g@ == right && limit == (if args.limit < 1 {
                1
            } else if args.limit > 25 {
                25
            } else {
                args.limit
            }),
            (None, None) => r matches Ok(CompatiblePlan::View),
            _ => r matches Err(m) && m@ == "matrix compatible expects both components or neither"@,
        },
{
    match (&args.left, &args.right) {
        (Some(left), Some(right)) => {
            let limit: usize = if args.limit < 1 {
                1
            } else if args.limit > 25 {
                25
            } else {
                args.limit
            };
            Ok(CompatiblePlan::Pair { left: left.clone(), right: right.clone(), limit })
        },
        (None, None) => Ok(CompatiblePlan::View),
        _ => Err("matrix compatible expects both components or neither".to_owned()),
    }
}

/// What answers a question of versions.
#[derive(Debug)]
pub enum VersionsPlan {
    /// The versions of a component that work with another.
    For { component: String, other: String },
    /// A list of versions.
    List,
}

/// The versions for another component where one is given, which takes a component too,
/// else a list of versions.
pub fn versions_plan(args: &VersionQueryArgs) -> (r: Result<VersionsPlan, String>)
    ensures
        match (opt_view(args.for_component), opt_view(args.component_filter)) {
            (Some(o), Some(c)) => r matches Ok(VersionsPlan::For { component, other })
                && component@ == c && other@ == o,
            (Some(_), None) => r matches Err(m) && m@
                == "matrix versions --for requires a component argument"@,
            (None, _) => r matches Ok(VersionsPlan::List),
        },
{
    match (&args.for_component, &args.component_filter) {
        (Some(o), Some(c)) => Ok(VersionsPlan::For { component: c.clone(), other: o.clone() }),
        (Some(_), None) => Err("matrix versions --for requires a component argument".to_owned()),
        (None, _) => Ok(VersionsPlan::List),
    }
}

// ---------------------------------------------------------------------------
// Queries
// ---------------------------------------------------------------------------
pub const COMPONENTS_HEAD_SQL: &'static str = "select row_number() over (order by max(observed_at) desc, canonical_component asc, subject_name asc) as pick,
                component, canonical_component, subject_name, identity, subject_class,
                type, repo, zone, count(*) as facts, max(observed_at) as last_observed_at
         from components
         where component is not null and component != '' ";

pub const COMPONENTS_TAIL_SQL: &'static str = "
         group by component, canonical_component, subject_name, identity, subject_class, type, repo, zone
         order by last_observed_at desc, canonical_component asc, subject_name asc
         limit ";

/// The query of the components of a context.
pub open spec fn components_sql(
    context: ContextV,
    view_zone: Option<Seq<char>>,
    options: OptionsV,
    limit: usize,
) -> Seq<char> {
    COMPONENTS_HEAD_SQL@ + context_filter(context, view_zone, "components"@, false) + " "@
        + subject_filter(options, context.component is Some) + COMPONENTS_TAIL_SQL@
        + decimal(at_least_one(limit))
}

pub fn components_query_sql(
    context: &MatrixContext,
    view_zone: &Option<String>,
    options: &ComponentQueryOptions,
    limit: usize,
) -> (r: String)
    ensures
        r@ == components_sql(context@, opt_view(*view_zone), options@, limit),
{
    let mut out = COMPONENTS_HEAD_SQL.to_owned();
    out.push_str(context_filter_sql(context, view_zone, "components", false).as_str());
    out.push_str(" ");
    out.push_str(component_subject_filter_sql(options, context.component.is_some()).as_str());
    out.push_str(COMPONENTS_TAIL_SQL);
    out.push_str(limit_digits(limit).as_str());
    out
}

pub const VERSIONS_HEAD_SQL: &'static str = "select row_number() over (order by max(observed_at) desc, version desc) as pick,
                version, component, canonical_component, subject_name, identity, subject_class,
                type, repo, zone, status, count(*) as facts, max(observed_at) as last_observed_at
         from components
         where version is not null and component is not null and component != '' ";

pub const VERSIONS_TAIL_SQL: &'static str = "
         group by version, component, canonical_component, subject_name, identity, subject_class, type, repo, zone, status
         order by last_observed_at desc, version desc
         limit ";

/// The condition on a component that is given by name, none where the name is blank.
pub open spec fn component_filter(component: Option<Seq<char>>) -> Seq<char> {
    match component {
        Some(c) => if trim(c).len() > 0 {
            " and "@ + identity_test("components"@, trim(c))
        } else {
            ""@
        },
        None => ""@,
    }
}

fn named_component_sql(component: &Option<String>) -> (r: String)
    ensures
        r@ == component_filter(opt_view(*component)),
{
    match component {
        Some(c) => {
            let name = trimmed(c.as_str());
            if char_count(name.as_str()) > 0 {
                return cat2(
                    " and ",
                    identity_match_sql(Some("components"), name.as_str()).as_str(),
                );
            }
        },
        None => {},
    }
    "".to_owned()
}

/// The query of the versions of components of a context.
pub open spec fn versions_sql(
    context: ContextV,
    view_zone: Option<Seq<char>>,
    component: Option<Seq<char>>,
    options: OptionsV,
    limit: usize,
) -> Seq<char> {
    VERSIONS_HEAD_SQL@ + context_filter(context, view_zone, "components"@, true) + " "@
        + component_filter(component) + " "@ + subject_filter(options, context.component is Some)
        + VERSIONS_TAIL_SQL@ + decimal(at_least_one(limit))
}

pub fn versions_query_sql(
    context: &MatrixContext,
    view_zone: &Option<String>,
    component_override: &Option<String>,
    options: &ComponentQueryOptions,
    limit: usize,
) -> (r: String)
    ensures
        r@ == versions_sql(
            context@,
            opt_view(*view_zone),
            opt_view(*component_override),
            options@,
            limit,
        ),
{
    let named_component = named_component_sql(component_override);
    let mut out = VERSIONS_HEAD_SQL.to_owned();
    out.push_str(context_filter_sql(context, view_zone, "components", true).as_str());
    out.push_str(" ");
    out.push_str(named_component.as_str());
    out.push_str(" ");
    out.push_str(component_subject_filter_sql(options, context.component.is_some()).as_str());
    out.push_str(VERSIONS_TAIL_SQL);
    out.push_str(limit_digits(limit).as_str());
    out
}

pub const TAGS_HEAD_SQL: &'static str = "select row_number() over (order by max(observed_at) desc, tag desc) as pick,
                tag, component, repo, zone, status, count(*) as facts, max(observed_at) as last_observed_at
         from facts
         where tag is not null ";

pub const TAGS_TAIL_SQL: &'static str = "
         group by tag, component, repo, zone, status
         order by last_observed_at desc, tag desc
         limit ";

/// The query of the tags of a context.
pub open spec fn tags_sql(context: ContextV, view_zone: Option<Seq<char>>, limit: usize) -> Seq<
    char,
> {
    TAGS_HEAD_SQL@ + context_filter(context, view_zone, "facts"@, true) + TAGS_TAIL_SQL@
        + decimal(at_least_one(limit))
}

pub fn tags_query_sql(context: &MatrixContext, view_zone: &Option<String>, limit: usize) -> (r:
    String)
    ensures
        r@ == tags_sql(context@, opt_view(*view_zone), limit),
{
    let mut out = TAGS_HEAD_SQL.to_owned();
    out.push_str(context_filter_sql(context, view_zone, "facts", true).as_str());
    out.push_str(TAGS_TAIL_SQL);
    out.push_str(limit_digits(limit).as_str());
    out
}

/// The query of the view upstream up to its limit.
pub const UPSTREAM_VIEW_SQL: &'static str = "select current_component, current_version, capability, capability_version,
                    component, version, repo, zone, status
             from upstream
             order by capability, status, component, version
             limit ";

/// The query of the view downstream up to its limit.
pub const DOWNSTREAM_VIEW_SQL: &'static str = "select current_component, current_version, capability, capability_version,
                    component, version, repo, zone, status
             from downstream
             order by capability, status, component, version
             limit ";

/// The query of the view compatible_with_current up to its limit.
pub const COMPATIBLE_VIEW_SQL: &'static str = "select current_component, current_version, capability, capability_version,
                    component, version, repo, zone, status
             from compatible_with_current
             order by component, version, capability
             limit ";

/// A view of what surrounds the current component.
#[derive(Clone, Copy, Debug, PartialEq, Eq, Structural)]
pub enum ContextView {
    Upstream,
    Downstream,
    Compatible,
}

pub open spec fn view_sql(view: ContextView, limit: usize) -> Seq<char> {
    match view {
        ContextView::Upstream => UPSTREAM_VIEW_SQL@ + decimal(at_least_one(limit)),
        ContextView::Downstream => DOWNSTREAM_VIEW_SQL@ + decimal(at_least_one(limit)),
        ContextView::Compatible => COMPATIBLE_VIEW_SQL@ + decimal(at_least_one(limit)),
    }
}

pub fn context_view_sql(view: ContextView, limit: usize) -> (r: String)
    ensures
        r@ == view_sql(view, limit),
{
    match view {
        ContextView::Upstream => cat2(UPSTREAM_VIEW_SQL, limit_digits(limit).as_str()),
        ContextView::Downstream => cat2(DOWNSTREAM_VIEW_SQL, limit_digits(limit).as_str()),
        ContextView::Compatible => cat2(COMPATIBLE_VIEW_SQL, limit_digits(limit).as_str()),
    }
}

pub const COMPARE_UPSTREAM_SQL: &'static str = "select 'current_requires_target' as relationship,
                current_component, current_version,
                component as target_component, version as target_version,
                canonical_component as target_canonical_component,
                identity as target_identity, subject_name as target_subject,
                repo as target_repo, zone as target_zone, status,
                capability, capability_version
         from upstream u
         where ";

pub const COMPARE_DOWNSTREAM_SQL: &'static str = "
         union all
         select 'target_requires_current' as relationship,
                current_component, current_version,
                component as target_component, version as target_version,
                canonical_component as target_canonical_component,
                identity as target_identity, subject_name as target_subject,
                repo as target_repo, zone as target_zone, status,
                capability, capability_version
         from downstream d
         where ";

pub const COMPARE_TAIL_SQL: &'static str = "
         order by relationship, capability, target_component, target_version
         limit ";

/// The query that compares the current component with another, both ways.
pub open spec fn compare_sql(target: Seq<char>, version: Option<Seq<char>>, limit: usize) -> Seq<
    char,
> {
    COMPARE_UPSTREAM_SQL@ + target_test("u"@, target, version) + COMPARE_DOWNSTREAM_SQL@
        + target_test("d"@, target, version) + COMPARE_TAIL_SQL@ + decimal(at_least_one(limit))
}

pub fn compare_query_sql(target: &str, target_version: &Option<String>, limit: usize) -> (r: String)
    ensures
        r@ == compare_sql(target@, opt_view(*target_version), limit),
{
    let mut out = COMPARE_UPSTREAM_SQL.to_owned();
    out.push_str(target_match_sql("u", target, target_version).as_str());
    out.push_str(COMPARE_DOWNSTREAM_SQL);
    out.push_str(target_match_sql("d", target, target_version).as_str());
    out.push_str(COMPARE_TAIL_SQL);
    out.push_str(limit_digits(limit).as_str());
    out
}

pub const DEREF_HEAD_SQL: &'static str = "select edge, target, target_version, physical_chaincode, channel, network
             from deref
             where fact_id = ";

pub const DEREF_TAIL_SQL: &'static str = "
             order by case edge when 'member' then 0 when 'requires' then 1 when 'provides' then 2 else 3 end,
                      target";

pub const MEMBERS_HEAD_SQL: &'static str = "select component, version, physical_chaincode, channel, network, services
             from members
             where fact_id = ";

pub const MEMBERS_TAIL_SQL: &'static str = "
             order by component";

/// A view of what a fact refers to.
#[derive(Clone, Copy, Debug, PartialEq, Eq, Structural)]
pub enum FactView {
    Deref,
    Members,
}

/// The query of what a fact refers to.
pub open spec fn fact_sql(fact_id: Seq<char>, view: FactView) -> Seq<char> {
    match view {
        FactView::Deref => DEREF_HEAD_SQL@ + literal_sql(fact_id) + DEREF_TAIL_SQL@,
        FactView::Members => MEMBERS_HEAD_SQL@ + literal_sql(fact_id) + MEMBERS_TAIL_SQL@,
    }
}

pub fn fact_view_sql(fact_id: &str, view: FactView) -> (r: String)
    ensures
        r@ == fact_sql(fact_id@, view),
{
    let id = sql_literal(fact_id);
    match view {
        FactView::Deref => cat3(DEREF_HEAD_SQL, id.as_str(), DEREF_TAIL_SQL),
        FactView::Members => cat3(MEMBERS_HEAD_SQL, id.as_str(), MEMBERS_TAIL_SQL),
    }
}

// ---------------------------------------------------------------------------
// Running a query
// ---------------------------------------------------------------------------
pub open spec fn read_only_message() -> Seq<char> {
    "matrix query only allows read-only SELECT/WITH/EXPLAIN statements"@
}

/// What is said of a statement that would change rows.
pub fn write_refused_message() -> (r: String)
    ensures
        r@ == read_only_message(),
{
    "matrix query only allows read-only SELECT/WITH/EXPLAIN statements".to_owned()
}

/// The statement that is run for a query: written out in full, and refused unless it
/// only reads.
pub fn readonly_sql(sql: &str) -> (r: Result<String, String>)
    ensures
        reads_only(normal_sql(sql@)) ==> (r matches Ok(s) && s@ == normal_sql(sql@)),
        !reads_only(normal_sql(sql@)) ==> (r matches Err(m) && m@ == read_only_message()),
{
    let full = normalize_matrix_sql(sql);
    if is_read_only(full.as_str()) {
        Ok(full)
    } else {
        Err(write_refused_message())
    }
}

/// A value of a row: a fraction by its JSON text.
#[derive(Debug)]
pub enum SqlCell {
    Null,
    Integer(i64),
    Real(String),
    Text(String),
    Blob(Vec<u8>),
}

/// The bytes in brackets, from the first `n` on the left.
pub open spec fn byte_list(bytes: Seq<u8>, n: int) -> Seq<char>
    decreases n,
{
    if n <= 0 {
        "["@
    } else if n == 1 {
        "["@ + decimal(bytes[0] as nat)
    } else {
        byte_list(bytes, n - 1) + ", "@ + decimal(bytes[n - 1] as nat)
    }
}

pub open spec fn cell_json(cell: SqlCell) -> JsonV {
    match cell {
        SqlCell::Null => JsonV::Null,
        SqlCell::Integer(n) => JsonV::Number(decimal_int(n as int)),
        SqlCell::Real(s) => JsonV::Number(s@),
        SqlCell::Text(s) => JsonV::Text(s@),
        SqlCell::Blob(b) => JsonV::Text(byte_list(b@, b@.len() as int) + "]"@),
    }
}

pub fn sqlite_value_to_json(cell: &SqlCell) -> (r: Json)
    ensures
        r@ == cell_json(*cell),
{
    match cell {
        SqlCell::Null => Json::Null,
        SqlCell::Integer(n) => Json::Number(digits_of_i64(*n)),
        SqlCell::Real(s) => Json::Number(s.clone()),
        SqlCell::Text(s) => Json::Text(s.clone()),
        SqlCell::Blob(b) => {
            let mut out = "[".to_owned();
            let mut i: usize = 0;
            while i < b.len()
                invariant
                    i <= b@.len(),
                    out@ == byte_list(b@, i as int),
                decreases b@.len() - i,
            {
                if i > 0 {
                    out.push_str(", ");
                }
                out.push_str(digits_of_usize(b[i] as usize).as_str());
                i += 1;
            }
            out.push_str("]");
            Json::Text(out)
        },
    }
}

/// The object of the first `n` columns of a row.
pub open spec fn row_object(columns: Seq<Seq<char>>, cells: Seq<SqlCell>, n: int) -> JsonV
    decreases n,
{
    if n <= 0 {
        JsonV::empty_object()
    } else {
        row_object(columns, cells, n - 1).with(columns[n - 1], cell_json(cells[n - 1]))
    }
}

/// The object of a row.
pub fn row_value(columns: &Vec<String>, cells: &Vec<SqlCell>) -> (r: Json)
    requires
        cells@.len() == columns@.len(),
    ensures
        r@ == row_object(views(columns@), cells@, columns@.len() as int),
{
    let ghost names = views(columns@);
    let mut object = Json::object();
    let mut i: usize = 0;
    while i < columns.len()
        invariant
            i <= columns@.len(),
            cells@.len() == columns@.len(),
            names == views(columns@),
            object@ == row_object(names, cells@, i as int),
        decreases columns@.len() - i,
    {
        assert(names[i as int] == columns@[i as int]@);
        object = object.with(columns[i].as_str(), sqlite_value_to_json(&cells[i]));
        i += 1;
    }
    object
}

/// The result of a query.
pub fn query_result_value(columns: &Vec<String>, rows: Vec<Json>) -> (r: Json)
    ensures
        r@ == JsonV::empty_object().with("columns"@, JsonV::texts(views(columns@))).with(
            "rows"@,
            JsonV::Array(items_view(rows@)),
        ),
{
    Json::object().with("columns", Json::texts(columns)).with("rows", Json::array(rows))
}

/// The text of a query: what stands on the command line, or what a file holds; exactly
/// one of the two, and not blank. `file_text` holds what was read of the file.
pub open spec fn source_text(
    inline: Option<Seq<char>>,
    file: Option<Seq<char>>,
    file_text: Option<Seq<char>>,
    label: Seq<char>,
) -> Result<Seq<char>, Seq<char>> {
    match (inline, file) {
        (Some(_), Some(_)) => Err("provide "@ + label + " inline or with --file, not both"@),
        (None, Some(path)) => match file_text {
            None => Err("failed to read "@ + label + " file "@ + path),
            Some(t) => if trim(t).len() > 0 {
                Ok(trim(t))
            } else {
                Err(label + " file was empty"@)
            },
        },
        (Some(q), None) => if trim(q).len() > 0 {
            Ok(q)
        } else {
            Err("provide "@ + label + " inline or with --file"@)
        },
        (None, None) => Err("provide "@ + label + " inline or with --file"@),
    }
}

pub fn query_text(
    inline: &Option<String>,
    file: &Option<String>,
    file_text: &Option<String>,
    label: &str,
) -> (r: Result<String, String>)
    ensures
        match source_text(opt_view(*inline), opt_view(*file), opt_view(*file_text), label@) {
            Ok(t) => r matches Ok(s) && s@ == t,
            Err(m) => r matches Err(e) && e@ == m,
        },
{
    match (inline, file) {
        (Some(_), Some(_)) => Err(cat3("provide ", label, " inline or with --file, not both")),
        (None, Some(path)) => match file_text {
            None => Err(cat4("failed to read ", label, " file ", path.as_str())),
            Some(t) => {
                let inner = trimmed(t.as_str());
                if char_count(inner.as_str()) > 0 {
                    Ok(inner)
                } else {
                    Err(cat2(label, " file was empty"))
                }
            },
        },
        (Some(q), None) => {
            let inner = trimmed(q.as_str());
            if char_count(inner.as_str()) > 0 {
                Ok(q.clone())
            } else {
                Err(cat3("provide ", label, " inline or with --file"))
            }
        },
        (None, None) => Err(cat3("provide ", label, " inline or with --file")),
    }
}

/// What was piped in, without the white space around it; nothing is refused.
pub fn stdin_text(text: &str) -> (r: Result<String, String>)
    ensures
        match r {
            Ok(t) => trim(text@).len() > 0 && t@ == trim(text@),
            Err(m) => trim(text@).len() == 0 && m@ == "stdin was empty"@,
        },
{
    let t = trimmed(text);
    if char_count(t.as_str()) > 0 {
        Ok(t)
    } else {
        Err("stdin was empty".to_owned())
    }
}

/// An answer on two components, as one to the question why.
pub fn why_kind(answer: Json) -> (r: Json)
    ensures
        r@ == answer@.with("kind"@, JsonV::Text("graph-why"@)),
{
    answer.with("kind", Json::text("graph-why"))
}

/// What `why` answers: how two components work together, and what the lack of a path
/// means.
pub fn why_answer(answer: Json) -> (r: Json)
    ensures
        r@ == answer@.with("kind"@, JsonV::Text("graph-why"@)).with(
            "hint"@,
            JsonV::Text(
                "Evidence is carried on each path edge; missing paths mean Matrix lacks a connecting fact chain, not necessarily real-world incompatibility."@,
            ),
        ),
{
    why_kind(answer).with(
        "hint",
        Json::text(
            "Evidence is carried on each path edge; missing paths mean Matrix lacks a connecting fact chain, not necessarily real-world incompatibility.",
        ),
    )
}

} // verus!
