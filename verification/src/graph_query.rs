//! Questions to the compatibility graph: the short query language, and GraphQL
//! documents with variables and selections.
use vstd::prelude::*;
use crate::answers::{
    path_answer_json, resolve_json, status_json, versions_json, works_with_json,
};
use crate::graph::{GraphIndex, IndexV};
use crate::graphql::{
    arg_views, field_views, lemma_field_view, parsed_query, ArgV, FieldV, GraphQlArg, GraphQlField,
    GraphQlInput, GraphQlParser, InputV,
};
use crate::inventory::{countable, inventory_json, producer_inventory_value};
use crate::json::{
    items_view, json_print, json_read, lemma_array_view, lemma_object_view, members_view,
    print_json, put, put_member, read_json, Json, JsonV, Member, MemberV,
};
use crate::render::{human_inline_value, inline_text};
use crate::sql::{is_sql_identifier, sql_identifier};
use crate::selection::{check_selection, selection_fault, GraphType};
use crate::text::{
    alnum, cat2, cat3, char_count, chars_of, contains, cut_once, debug_of, debug_text, decimal_int,
    digits_of_i64, find, find_class, find_text, has_prefix, has_text, index_of, is_alnum, lower,
    opt_view, or, or_text, parse_i64, replace, replaced, result_view, same, skip_chars, split_once,
    starts_with, string_of, to_i64, to_lower, trim, trim_class, trim_start, trimmed, trimmed_class,
    trimmed_start, views, CharClass,
};

verus! {

// ---------------------------------------------------------------------------
// Short queries
// ---------------------------------------------------------------------------
/// A question to the graph.
#[derive(Debug)]
pub enum GraphRequest {
    Path { source: String, target: String },
    WorksWith { left: String, right: String },
    Status { component: String },
    VersionsFor { component: String, for_component: String },
}

pub enum RequestV {
    Path { source: Seq<char>, target: Seq<char> },
    WorksWith { left: Seq<char>, right: Seq<char> },
    Status { component: Seq<char> },
    VersionsFor { component: Seq<char>, for_component: Seq<char> },
}

impl View for GraphRequest {
    type V = RequestV;

    open spec fn view(&self) -> RequestV {
        match self {
            GraphRequest::Path { source, target } => RequestV::Path {
                source: source@,
                target: target@,
            },
            GraphRequest::WorksWith { left, right } => RequestV::WorksWith {
                left: left@,
                right: right@,
            },
            GraphRequest::Status { component } => RequestV::Status { component: component@ },
            GraphRequest::VersionsFor { component, for_component } => RequestV::VersionsFor {
                component: component@,
                for_component: for_component@,
            },
        }
    }
}

pub open spec fn request_result(r: Result<GraphRequest, String>) -> Result<RequestV, Seq<char>> {
    match r {
        Ok(x) => Ok(x@),
        Err(e) => Err(e@),
    }
}

pub open spec fn word_char(c: char) -> bool {
    is_alnum(c) || c == '_'
}

/// Where a field stands first in the text as a word of its own.
pub open spec fn field_start(low: Seq<char>, field: Seq<char>) -> Option<int> {
    match find(low, field) {
        Some(i) => if (i == 0 || !word_char(low[i - 1])) && (i + field.len() == low.len()
            || !word_char(low[i + field.len()])) {
            Some(i)
        } else {
            None
        },
        None => None,
    }
}

/// The first field, in the order in which they are looked for, that stands in the
/// text as a word of its own.
pub open spec fn query_start(low: Seq<char>) -> Option<int> {
    if field_start(low, "path"@) is Some {
        field_start(low, "path"@)
    } else if field_start(low, "workswith"@) is Some {
        field_start(low, "workswith"@)
    } else if field_start(low, "works_with"@) is Some {
        field_start(low, "works_with"@)
    } else if field_start(low, "status"@) is Some {
        field_start(low, "status"@)
    } else {
        field_start(low, "versions"@)
    }
}

/// A query without what stands before its field.
pub open spec fn normal_query(s: Seq<char>) -> Seq<char> {
    let t = trim(s);
    if contains(t, "->"@) {
        t
    } else {
        match query_start(lower(t)) {
            Some(i) => trim_start(t.skip(i), CharClass::White),
            None => t,
        }
    }
}

fn find_field(low: &str, field: &str) -> (r: Option<usize>)
    ensures
        match r {
            Some(i) => field_start(low@, field@) == Some(i as int) && i <= low@.len(),
            None => field_start(low@, field@) is None,
        },
{
    match find_text(low, field) {
        Some(i) => {
            let v = chars_of(low);
            let n = char_count(field);
            let total = v.len();
            let starts = i == 0 || !(alnum(v[i - 1]) || v[i - 1] == '_');
            let ends = i + n == total || !(alnum(v[i + n]) || v[i + n] == '_');
            if starts && ends {
                Some(i)
            } else {
                None
            }
        },
        None => None,
    }
}

fn find_query(low: &str) -> (r: Option<usize>)
    ensures
        match r {
            Some(i) => query_start(low@) == Some(i as int) && i <= low@.len(),
            None => query_start(low@) is None,
        },
{
    match find_field(low, "path") {
        Some(i) => {
            return Some(i);
        },
        None => {},
    }
    match find_field(low, "workswith") {
        Some(i) => {
            return Some(i);
        },
        None => {},
    }
    match find_field(low, "works_with") {
        Some(i) => {
            return Some(i);
        },
        None => {},
    }
    match find_field(low, "status") {
        Some(i) => {
            return Some(i);
        },
        None => {},
    }
    find_field(low, "versions")
}

pub fn normalize_graph_query(query: &str) -> (r: String)
    ensures
        r@ == normal_query(query@),
{
    let t = trimmed(query);
    if has_text(t.as_str(), "->") {
        return t;
    }
    let low = to_lower(t.as_str());
    match find_query(low.as_str()) {
        Some(i) => {
            assert(low@.len() == t@.len());
            trimmed_start(skip_chars(t.as_str(), i).as_str(), CharClass::White)
        },
        None => t,
    }
}

/// What stands between a quote at the start of the text and the next one.
pub open spec fn quoted_text(rest: Seq<char>, q: char) -> Option<Seq<char>> {
    let body = rest.skip(1);
    let end = index_of(body, CharClass::Is(q), 0);
    if end < body.len() {
        Some(body.take(end))
    } else {
        None
    }
}

/// The value of a named argument: what stands behind its name and a colon, in quotes
/// or up to the next comma or closing bracket.
pub open spec fn argument(query: Seq<char>, name: Seq<char>) -> Option<Seq<char>> {
    let needle = lower(name) + ":"@;
    match find(lower(query), needle) {
        None => None,
        Some(i) => {
            let rest = trim_start(query.skip(i + needle.len()), CharClass::White);
            if starts_with(rest, "\""@) {
                quoted_text(rest, '"')
            } else if starts_with(rest, "'"@) {
                quoted_text(rest, '\'')
            } else {
                let value = trim(rest.take(index_of(rest, CharClass::ArgumentEnd, 0)));
                if value.len() > 0 {
                    Some(value)
                } else {
                    None
                }
            }
        },
    }
}

fn text_in_quotes(rest: &str, q: char) -> (r: Option<String>)
    requires
        rest@.len() > 0,
    ensures
        opt_view(r) == quoted_text(rest@, q),
{
    let body = skip_chars(rest, 1);
    let v = chars_of(body.as_str());
    let end = find_class(v.as_slice(), CharClass::Is(q), 0);
    if end < v.len() {
        let r = string_of(v.as_slice(), 0, end);
        assert(v@.subrange(0, end as int) =~= v@.take(end as int));
        Some(r)
    } else {
        None
    }
}

pub fn graph_query_arg(query: &str, name: &str) -> (r: Option<String>)
    ensures
        opt_view(r) == argument(query@, name@),
{
    let low = to_lower(query);
    let needle = cat2(to_lower(name).as_str(), ":");
    match find_text(low.as_str(), needle.as_str()) {
        None => None,
        Some(i) => {
            let n = char_count(needle.as_str());
            assert(low@.len() == query@.len());
            let m = char_count(query);
            assert(i + n <= m);
            let after = skip_chars(query, i + n);
            let rest = trimmed_start(after.as_str(), CharClass::White);
            proof {
                reveal_strlit("\"");
                reveal_strlit("'");
            }
            if has_prefix(rest.as_str(), "\"") {
                return text_in_quotes(rest.as_str(), '"');
            }
            if has_prefix(rest.as_str(), "'") {
                return text_in_quotes(rest.as_str(), '\'');
            }
            let v = chars_of(rest.as_str());
            let end = find_class(v.as_slice(), CharClass::ArgumentEnd, 0);
            let bare = string_of(v.as_slice(), 0, end);
            assert(v@.subrange(0, end as int) =~= v@.take(end as int));
            let value = trimmed(bare.as_str());
            if value.as_str().is_empty() {
                None
            } else {
                Some(value)
            }
        },
    }
}

/// An end of a path written with an arrow.
pub open spec fn arrow_end(s: Seq<char>) -> Seq<char> {
    trim_class(trim(s), CharClass::Is('"'))
}

/// The request that a short query makes, or the message of what it lacks.
pub open spec fn short_request(query: Seq<char>) -> Result<RequestV, Seq<char>> {
    let t = normal_query(query);
    let low = lower(t);
    match split_once(t, "->"@) {
        Some((a, b)) => Ok(RequestV::Path { source: arrow_end(a), target: arrow_end(b) }),
        None => if starts_with(low, "path"@) {
            match (
                or(argument(t, "from"@), argument(t, "source"@)),
                or(argument(t, "to"@), argument(t, "target"@)),
            ) {
                (None, _) => Err("path query requires from/source"@),
                (_, None) => Err("path query requires to/target"@),
                (Some(source), Some(target)) => Ok(RequestV::Path { source, target }),
            }
        } else if starts_with(low, "workswith"@) || starts_with(low, "works_with"@) {
            match (argument(t, "left"@), argument(t, "right"@)) {
                (None, _) => Err("worksWith query requires left"@),
                (_, None) => Err("worksWith query requires right"@),
                (Some(left), Some(right)) => Ok(RequestV::WorksWith { left, right }),
            }
        } else if starts_with(low, "status"@) {
            match or(argument(t, "component"@), argument(t, "name"@)) {
                None => Err("status query requires component/name"@),
                Some(component) => Ok(RequestV::Status { component }),
            }
        } else if starts_with(low, "versions"@) {
            match (
                argument(t, "component"@),
                or(argument(t, "for"@), argument(t, "forComponent"@)),
            ) {
                (None, _) => Err("versions query requires component"@),
                (_, None) => Err("versions query requires for/forComponent"@),
                (Some(component), Some(for_component)) => Ok(
                    RequestV::VersionsFor { component, for_component },
                ),
            }
        } else {
            Err(
                "unsupported graph query; use `a -> b`, `path(from:\"a\", to:\"b\")`, `worksWith(left:\"a\", right:\"b\")`, `status(component:\"a\")`, or `versions(component:\"a\", for:\"b\")`"@,
            )
        },
    }
}

pub fn parse_graph_query(query: &str) -> (r: Result<GraphRequest, String>)
    ensures
        request_result(r) == short_request(query@),
{
    let t = normalize_graph_query(query);
    let q = t.as_str();
    match cut_once(q, "->") {
        Some((a, b)) => {
            return Ok(
                GraphRequest::Path {
                    source: trimmed_class(trimmed(a.as_str()).as_str(), CharClass::Is('"')),
                    target: trimmed_class(trimmed(b.as_str()).as_str(), CharClass::Is('"')),
                },
            );
        },
        None => {},
    }
    let low = to_lower(q);
    let l = low.as_str();
    if has_prefix(l, "path") {
        let source = or_text(graph_query_arg(q, "from"), graph_query_arg(q, "source"));
        let target = or_text(graph_query_arg(q, "to"), graph_query_arg(q, "target"));
        return match (source, target) {
            (None, _) => Err("path query requires from/source".to_owned()),
            (_, None) => Err("path query requires to/target".to_owned()),
            (Some(source), Some(target)) => Ok(GraphRequest::Path { source, target }),
        };
    }
    if has_prefix(l, "workswith") || has_prefix(l, "works_with") {
        return match (graph_query_arg(q, "left"), graph_query_arg(q, "right")) {
            (None, _) => Err("worksWith query requires left".to_owned()),
            (_, None) => Err("worksWith query requires right".to_owned()),
            (Some(left), Some(right)) => Ok(GraphRequest::WorksWith { left, right }),
        };
    }
    if has_prefix(l, "status") {
        return match or_text(graph_query_arg(q, "component"), graph_query_arg(q, "name")) {
            None => Err("status query requires component/name".to_owned()),
            Some(component) => Ok(GraphRequest::Status { component }),
        };
    }
    if has_prefix(l, "versions") {
        let other = or_text(graph_query_arg(q, "for"), graph_query_arg(q, "forComponent"));
        return match (graph_query_arg(q, "component"), other) {
            (None, _) => Err("versions query requires component".to_owned()),
            (_, None) => Err("versions query requires for/forComponent".to_owned()),
            (Some(component), Some(for_component)) => Ok(
                GraphRequest::VersionsFor { component, for_component },
            ),
        };
    }
    Err(
        "unsupported graph query; use `a -> b`, `path(from:\"a\", to:\"b\")`, `worksWith(left:\"a\", right:\"b\")`, `status(component:\"a\")`, or `versions(component:\"a\", for:\"b\")`".to_owned(),
    )
}

/// The answer to a request.
pub open spec fn answer_json(g: IndexV, request: RequestV, limit: nat) -> JsonV {
    match request {
        RequestV::Path { source, target } => path_answer_json(g, source, target, limit),
        RequestV::WorksWith { left, right } => works_with_json(g, left, right, limit),
        RequestV::Status { component } => status_json(g, component, limit),
        RequestV::VersionsFor { component, for_component } => versions_json(
            g,
            component,
            for_component,
            limit,
        ),
    }
}

impl GraphIndex {
    pub fn execute_request(&self, request: &GraphRequest, limit: usize) -> (r: Json)
        ensures
            r@ == answer_json(self@, request@, limit as nat),
    {
        match request {
            GraphRequest::Path { source, target } => self.path_answer(
                source.as_str(),
                target.as_str(),
                limit,
            ),
            GraphRequest::WorksWith { left, right } => self.works_with_answer(
                left.as_str(),
                right.as_str(),
                limit,
            ),
            GraphRequest::Status { component } => self.status_answer(component.as_str(), limit),
            GraphRequest::VersionsFor { component, for_component } => self.versions_for_answer(
                component.as_str(),
                for_component.as_str(),
                limit,
            ),
        }
    }
}

// ---------------------------------------------------------------------------
// Variables
// ---------------------------------------------------------------------------
/// A variable that was given, or the message of what is wrong with it: a name, an
/// equals sign and a value. The language is named in the message.
pub open spec fn variable(given: Seq<char>, unparted: Seq<char>, unnamed: Seq<char>) -> Result<
    (Seq<char>, Seq<char>),
    Seq<char>,
> {
    match split_once(given, "="@) {
        None => Err(unparted + debug_text(given)),
        Some((name, value)) => if sql_identifier(trim(name)) {
            Ok((trim(name), trim(value)))
        } else {
            Err(unnamed + debug_text(trim(name)))
        },
    }
}

fn read_variable(given: &str, unparted: &str, unnamed: &str) -> (r: Result<
    (String, String),
    String,
>)
    ensures
        match r {
            Ok((n, v)) => variable(given@, unparted@, unnamed@) == Ok::<
                (Seq<char>, Seq<char>),
                Seq<char>,
            >((n@, v@)),
            Err(e) => variable(given@, unparted@, unnamed@) == Err::<
                (Seq<char>, Seq<char>),
                Seq<char>,
            >(e@),
        },
{
    match cut_once(given, "=") {
        None => Err(cat2(unparted, debug_of(given).as_str())),
        Some((name, value)) => {
            let n = trimmed(name.as_str());
            if is_sql_identifier(n.as_str()) {
                Ok((n, trimmed(value.as_str())))
            } else {
                Err(cat2(unnamed, debug_of(n.as_str()).as_str()))
            }
        },
    }
}

/// A query with a variable's places, plain and in braces, taken by a text.
pub open spec fn with_variable(query: Seq<char>, name: Seq<char>, by: Seq<char>) -> Seq<char> {
    replace(replace(query, "$"@ + name, by), "${"@ + name + "}"@, by)
}

/// A query with the first `n` variables put in as JSON texts, or the message of the
/// first that is wrong.
pub open spec fn with_variables(query: Seq<char>, vars: Seq<Seq<char>>, n: int) -> Result<
    Seq<char>,
    Seq<char>,
>
    decreases n,
{
    if n <= 0 {
        Ok(query)
    } else {
        match with_variables(query, vars, n - 1) {
            Err(m) => Err(m),
            Ok(q) => match variable(
                vars[n - 1],
                "graph --var expects NAME=VALUE, got "@,
                "invalid graph variable name "@,
            ) {
                Err(m) => Err(m),
                Ok((name, value)) => Ok(with_variable(q, name, json_print(JsonV::Text(value)))),
            },
        }
    }
}

/// Puts a text in a variable's places.
pub fn put_variable(query: &str, name: &str, by: &str) -> (r: String)
    ensures
        r@ == with_variable(query@, name@, by@),
{
    proof {
        reveal_strlit("$");
        reveal_strlit("${");
    }
    let plain = replaced(query, cat2("$", name).as_str(), by);
    replaced(plain.as_str(), cat3("${", name, "}").as_str(), by)
}

proof fn lemma_variables_fail(query: Seq<char>, vars: Seq<Seq<char>>, n: int, m: int)
    requires
        0 <= n <= m,
        with_variables(query, vars, n) is Err,
    ensures
        with_variables(query, vars, m) == with_variables(query, vars, n),
    decreases m - n,
{
    if n < m {
        lemma_variables_fail(query, vars, n, m - 1);
    }
}

pub fn apply_graph_query_vars(query: &str, vars: &Vec<String>) -> (r: Result<String, String>)
    ensures
        result_view(r) == with_variables(query@, views(vars@), vars@.len() as int),
{
    let ghost given = views(vars@);
    let mut rendered = query.to_owned();
    let mut i: usize = 0;
    while i < vars.len()
        invariant
            given == views(vars@),
            i <= vars@.len(),
            with_variables(query@, given, i as int) == Ok::<Seq<char>, Seq<char>>(rendered@),
        decreases vars@.len() - i,
    {
        assert(given[i as int] == vars@[i as int]@);
        match read_variable(
            vars[i].as_str(),
            "graph --var expects NAME=VALUE, got ",
            "invalid graph variable name ",
        ) {
            Ok((name, value)) => {
                let encoded = print_json(&Json::text(value.as_str()));
                rendered = put_variable(rendered.as_str(), name.as_str(), encoded.as_str());
            },
            Err(e) => {
                proof {
                    lemma_variables_fail(
                        query@,
                        given,
                        i as int + 1,
                        vars@.len() as int,
                    );
                }
                return Err(e);
            },
        }
        i += 1;
    }
    Ok(rendered)
}

/// The value of a variable: a number or a truth value as it is written, what stands in
/// quotes, or else the text.
pub open spec fn variable_value(text: Seq<char>, read: Option<JsonV>) -> JsonV {
    match read {
        Some(JsonV::Text(s)) => JsonV::Text(s),
        Some(JsonV::Number(_)) => JsonV::Number(text),
        Some(JsonV::Bool(b)) => JsonV::Bool(b),
        _ => JsonV::Text(text),
    }
}

pub open spec fn read_or_none(text: Seq<char>) -> Option<JsonV> {
    match json_read(text) {
        Ok(v) => Some(v),
        Err(_) => None,
    }
}

/// The values of the first `n` variables, or the message of the first that is wrong.
pub open spec fn variables_json(vars: Seq<Seq<char>>, n: int) -> Result<JsonV, Seq<char>>
    decreases n,
{
    if n <= 0 {
        Ok(JsonV::empty_object())
    } else {
        match variables_json(vars, n - 1) {
            Err(m) => Err(m),
            Ok(o) => match variable(
                vars[n - 1],
                "graphql --var expects NAME=VALUE, got "@,
                "invalid GraphQL variable name "@,
            ) {
                Err(m) => Err(m),
                Ok((name, value)) => Ok(
                    o.with(name, variable_value(value, read_or_none(value))),
                ),
            },
        }
    }
}

proof fn lemma_variables_json_fail(vars: Seq<Seq<char>>, n: int, m: int)
    requires
        0 <= n <= m,
        variables_json(vars, n) is Err,
    ensures
        variables_json(vars, m) == variables_json(vars, n),
    decreases m - n,
{
    if n < m {
        lemma_variables_json_fail(vars, n, m - 1);
    }
}

/// Binds a variable to its value, given the JSON that was read from its text.
pub fn bind_variable(vars: Json, name: &str, text: &str, read: Option<Json>) -> (r: Json)
    ensures
        r@ == vars@.with(
            name@,
            variable_value(
                text@,
                match read {
                    Some(j) => Some(j@),
                    None => None,
                },
            ),
        ),
{
    match read {
        Some(Json::Text(s)) => vars.with(name, Json::Text(s)),
        Some(Json::Number(_)) => vars.with(name, Json::Number(text.to_owned())),
        Some(Json::Bool(b)) => vars.with(name, Json::Bool(b)),
        _ => vars.with(name, Json::text(text)),
    }
}

pub fn parse_graphql_variables(vars: &Vec<String>) -> (r: Result<Json, String>)
    ensures
        crate::config::json_result(r) == variables_json(views(vars@), vars@.len() as int),
{
    let ghost given = views(vars@);
    let mut values = Json::object();
    let mut i: usize = 0;
    while i < vars.len()
        invariant
            given == views(vars@),
            i <= vars@.len(),
            variables_json(given, i as int) == Ok::<JsonV, Seq<char>>(values@),
        decreases vars@.len() - i,
    {
        assert(given[i as int] == vars@[i as int]@);
        match read_variable(
            vars[i].as_str(),
            "graphql --var expects NAME=VALUE, got ",
            "invalid GraphQL variable name ",
        ) {
            Ok((name, value)) => {
                let read = match read_json(value.as_str()) {
                    Ok(j) => Some(j),
                    Err(_) => None,
                };
                values = bind_variable(values, name.as_str(), value.as_str(), read);
            },
            Err(e) => {
                proof {
                    lemma_variables_json_fail(given, i as int + 1, vars@.len() as int);
                }
                return Err(e);
            },
        }
        i += 1;
    }
    Ok(values)
}

// ---------------------------------------------------------------------------
// Arguments
// ---------------------------------------------------------------------------
/// The argument with the name.
pub open spec fn arg_named(args: Seq<ArgV>, name: Seq<char>) -> Option<InputV>
    decreases args.len(),
{
    if args.len() == 0 {
        None
    } else if args.last().name == name {
        Some(args.last().value)
    } else {
        arg_named(args.drop_last(), name)
    }
}

fn find_arg<'a>(args: &'a Vec<GraphQlArg>, name: &str) -> (r: Option<&'a GraphQlInput>)
    ensures
        match r {
            Some(x) => arg_named(arg_views(args@), name@) == Some(x@),
            None => arg_named(arg_views(args@), name@) is None,
        },
{
    let ghost a = arg_views(args@);
    let mut i: usize = args.len();
    assert(a.take(i as int) =~= a);
    while i > 0
        invariant
            a == arg_views(args@),
            i <= args@.len(),
            arg_named(a, name@) == arg_named(a.take(i as int), name@),
        decreases i,
    {
        assert(a.take(i as int).drop_last() =~= a.take(i as int - 1));
        assert(a.take(i as int).last() == args@[i - 1]@);
        if same(args[i - 1].name.as_str(), name) {
            return Some(&args[i - 1].value);
        }
        i -= 1;
    }
    None
}

/// The value that an argument stands for.
pub open spec fn input_value(input: InputV, vars: JsonV) -> Result<JsonV, Seq<char>> {
    match input {
        InputV::Text(s) => Ok(JsonV::Text(s)),
        InputV::Int(n) => Ok(JsonV::Number(decimal_int(n))),
        InputV::Bool(b) => Ok(JsonV::Bool(b)),
        InputV::Null => Ok(JsonV::Null),
        InputV::Variable(name) => match vars.get(name) {
            Some(v) => Ok(v),
            None => Err("missing GraphQL variable $"@ + name),
        },
    }
}

pub fn resolve_graphql_input(input: &GraphQlInput, vars: &Json) -> (r: Result<Json, String>)
    ensures
        crate::config::json_result(r) == input_value(input@, vars@),
{
    match input {
        GraphQlInput::Text(s) => Ok(Json::text(s.as_str())),
        GraphQlInput::Int(n) => Ok(Json::Number(digits_of_i64(*n))),
        GraphQlInput::Bool(b) => Ok(Json::Bool(*b)),
        GraphQlInput::Null => Ok(Json::Null),
        GraphQlInput::Variable(name) => match vars.get(name.as_str()) {
            Some(v) => Ok(v.copy()),
            None => Err(cat2("missing GraphQL variable $", name.as_str())),
        },
    }
}

/// The text of a variable's value: where a text is expected, a number or a truth value
/// is the text that writes it.
pub open spec fn value_text(v: JsonV) -> Option<Seq<char>> {
    match v {
        JsonV::Text(s) => Some(s),
        JsonV::Number(t) => Some(t),
        JsonV::Bool(b) => Some(
            if b {
                "true"@
            } else {
                "false"@
            },
        ),
        _ => None,
    }
}

/// The text that an argument stands for: what it writes in quotes, or the text of its
/// variable.
pub open spec fn input_text(input: InputV, vars: JsonV) -> Result<Seq<char>, Seq<char>> {
    match input_value(input, vars) {
        Err(m) => Err(m),
        Ok(v) => if v is Text || (input is Variable && value_text(v) is Some) {
            Ok(value_text(v)->Some_0)
        } else {
            Err("GraphQL argument expected String, got "@ + inline_text(v))
        },
    }
}

pub fn graphql_input_string(input: &GraphQlInput, vars: &Json) -> (r: Result<String, String>)
    ensures
        result_view(r) == input_text(input@, vars@),
{
    let variable = matches!(input, GraphQlInput::Variable(_));
    match resolve_graphql_input(input, vars) {
        Err(e) => Err(e),
        Ok(v) => {
            match &v {
                Json::Text(s) => {
                    return Ok(s.clone());
                },
                Json::Number(t) => {
                    if variable {
                        return Ok(t.clone());
                    }
                },
                Json::Bool(b) => {
                    if variable {
                        return Ok(
                            if *b {
                                "true".to_owned()
                            } else {
                                "false".to_owned()
                            },
                        );
                    }
                },
                _ => {},
            }
            Err(cat2("GraphQL argument expected String, got ", human_inline_value(&v).as_str()))
        },
    }
}

/// The integer that the text of a number writes; minus zero is a fraction.
pub open spec fn number_int(text: Seq<char>) -> Option<int> {
    if text == "-0"@ {
        None
    } else {
        parse_i64(text)
    }
}

/// The integer that an argument stands for, as a number or a text that writes one.
pub open spec fn input_int(input: InputV, vars: JsonV) -> Result<int, Seq<char>> {
    match input_value(input, vars) {
        Err(m) => Err(m),
        Ok(JsonV::Number(n)) => match number_int(n) {
            Some(k) => Ok(k),
            None => Err("GraphQL argument expected integer"@),
        },
        Ok(JsonV::Text(s)) => match parse_i64(s) {
            Some(k) => Ok(k),
            None => Err("GraphQL argument expected integer, got "@ + debug_text(s)),
        },
        Ok(other) => Err("GraphQL argument expected Int, got "@ + inline_text(other)),
    }
}

pub open spec fn int_result(r: Result<i64, String>) -> Result<int, Seq<char>> {
    match r {
        Ok(n) => Ok(n as int),
        Err(e) => Err(e@),
    }
}

pub fn graphql_input_i64(input: &GraphQlInput, vars: &Json) -> (r: Result<i64, String>)
    ensures
        int_result(r) == input_int(input@, vars@),
{
    match resolve_graphql_input(input, vars) {
        Err(e) => Err(e),
        Ok(Json::Number(n)) => {
            if same(n.as_str(), "-0") {
                return Err("GraphQL argument expected integer".to_owned());
            }
            match to_i64(n.as_str()) {
                Some(k) => Ok(k),
                None => Err("GraphQL argument expected integer".to_owned()),
            }
        },
        Ok(Json::Text(s)) => match to_i64(s.as_str()) {
            Some(k) => Ok(k),
            None => Err(
                cat2("GraphQL argument expected integer, got ", debug_of(s.as_str()).as_str()),
            ),
        },
        Ok(other) => Err(
            cat2("GraphQL argument expected Int, got ", human_inline_value(&other).as_str()),
        ),
    }
}

/// The argument under the first of two names that is there.
pub open spec fn arg_under(args: Seq<ArgV>, a: Seq<char>, b: Seq<char>) -> Option<InputV> {
    match arg_named(args, a) {
        Some(x) => Some(x),
        None => arg_named(args, b),
    }
}

/// A text argument that must be there, under one of two names.
pub open spec fn text_arg(
    field: FieldV,
    vars: JsonV,
    a: Seq<char>,
    b: Seq<char>,
    missing: Seq<char>,
) -> Result<Seq<char>, Seq<char>> {
    match arg_under(field.args, a, b) {
        Some(x) => input_text(x, vars),
        None => Err(missing),
    }
}

fn required_text(field: &GraphQlField, vars: &Json, a: &str, b: &str, missing: &str) -> (r: Result<
    String,
    String,
>)
    ensures
        result_view(r) == text_arg(field@, vars@, a@, b@, missing@),
{
    proof {
        lemma_field_view(*field);
    }
    match graphql_string_arg(field, vars, a, b) {
        Ok(Some(s)) => Ok(s),
        Ok(None) => Err(missing.to_owned()),
        Err(e) => Err(e),
    }
}

pub fn graphql_string_arg(field: &GraphQlField, vars: &Json, a: &str, b: &str) -> (r: Result<
    Option<String>,
    String,
>)
    ensures
        crate::config::opt_result(r) == (match arg_under(field@.args, a@, b@) {
            Some(x) => match input_text(x, vars@) {
                Ok(s) => Ok(Some(s)),
                Err(m) => Err(m),
            },
            None => Ok(None),
        }),
{
    proof {
        lemma_field_view(*field);
    }
    let found = match find_arg(&field.args, a) {
        Some(x) => Some(x),
        None => find_arg(&field.args, b),
    };
    match found {
        Some(x) => match graphql_input_string(x, vars) {
            Ok(s) => Ok(Some(s)),
            Err(e) => Err(e),
        },
        None => Ok(None),
    }
}

/// An integer argument under one of two names, or a default, at least one.
pub open spec fn int_arg(field: FieldV, vars: JsonV, a: Seq<char>, b: Seq<char>, default: int) -> Result<
    int,
    Seq<char>,
> {
    match arg_under(field.args, a, b) {
        Some(x) => match input_int(x, vars) {
            Ok(n) => Ok(
                if n < 1 {
                    1
                } else {
                    n
                },
            ),
            Err(m) => Err(m),
        },
        None => Ok(
            if default < 1 {
                1
            } else {
                default
            },
        ),
    }
}

pub open spec fn opt_int_result(r: Result<Option<i64>, String>) -> Result<Option<int>, Seq<char>> {
    match r {
        Ok(Some(n)) => Ok(Some(n as int)),
        Ok(None) => Ok(None),
        Err(e) => Err(e@),
    }
}

pub fn graphql_i64_arg(field: &GraphQlField, vars: &Json, a: &str, b: &str) -> (r: Result<
    Option<i64>,
    String,
>)
    ensures
        opt_int_result(r) == (match arg_under(field@.args, a@, b@) {
            Some(x) => match input_int(x, vars@) {
                Ok(n) => Ok(Some(n)),
                Err(m) => Err(m),
            },
            None => Ok(None),
        }),
{
    proof {
        lemma_field_view(*field);
    }
    let found = match find_arg(&field.args, a) {
        Some(x) => Some(x),
        None => find_arg(&field.args, b),
    };
    match found {
        Some(x) => match graphql_input_i64(x, vars) {
            Ok(n) => Ok(Some(n)),
            Err(e) => Err(e),
        },
        None => Ok(None),
    }
}

// ---------------------------------------------------------------------------
// Fields
// ---------------------------------------------------------------------------
/// What a root field asks for.
#[derive(Debug)]
pub enum GraphQlCall {
    Path { source: String, target: String, limit: usize },
    WorksWith { left: String, right: String, limit: usize },
    Status { component: String, limit: usize },
    Versions { component: String, for_component: String, limit: usize },
    Resolve { name: String },
    Producers { limit: usize, stale_days: i64 },
}

pub enum CallV {
    Path { source: Seq<char>, target: Seq<char>, limit: int },
    WorksWith { left: Seq<char>, right: Seq<char>, limit: int },
    Status { component: Seq<char>, limit: int },
    Versions { component: Seq<char>, for_component: Seq<char>, limit: int },
    Resolve { name: Seq<char> },
    Producers { limit: int, stale_days: int },
}

impl View for GraphQlCall {
    type V = CallV;

    open spec fn view(&self) -> CallV {
        match self {
            GraphQlCall::Path { source, target, limit } => CallV::Path {
                source: source@,
                target: target@,
                limit: *limit as int,
            },
            GraphQlCall::WorksWith { left, right, limit } => CallV::WorksWith {
                left: left@,
                right: right@,
                limit: *limit as int,
            },
            GraphQlCall::Status { component, limit } => CallV::Status {
                component: component@,
                limit: *limit as int,
            },
            GraphQlCall::Versions { component, for_component, limit } => CallV::Versions {
                component: component@,
                for_component: for_component@,
                limit: *limit as int,
            },
            GraphQlCall::Resolve { name } => CallV::Resolve { name: name@ },
            GraphQlCall::Producers { limit, stale_days } => CallV::Producers {
                limit: *limit as int,
                stale_days: *stale_days as int,
            },
        }
    }
}

pub open spec fn call_result(r: Result<GraphQlCall, String>) -> Result<CallV, Seq<char>> {
    match r {
        Ok(c) => Ok(c@),
        Err(e) => Err(e@),
    }
}

/// The limit that a field asks for, as a `usize` holds it; none is below one.
pub open spec fn limit_arg(field: FieldV, vars: JsonV, default_limit: int) -> Result<
    int,
    Seq<char>,
> {
    match arg_under(field.args, "limit"@, "limit"@) {
        Some(x) => match input_int(x, vars) {
            Ok(n) => Ok(one_or_more(one_or_more(n) as usize as int)),
            Err(m) => Err(m),
        },
        None => Ok(one_or_more(default_limit)),
    }
}

pub open spec fn one_or_more(n: int) -> int {
    if n < 1 {
        1
    } else {
        n
    }
}

/// What a root field asks for, or the message of what is wrong with it.
pub open spec fn field_call(field: FieldV, vars: JsonV, default_limit: int) -> Result<
    CallV,
    Seq<char>,
> {
    let limit = limit_arg(field, vars, default_limit);
    if field.name == "path"@ {
        match text_arg(field, vars, "from"@, "source"@, "GraphQL path requires from/source"@) {
            Err(m) => Err(m),
            Ok(source) => match text_arg(
                field,
                vars,
                "to"@,
                "target"@,
                "GraphQL path requires to/target"@,
            ) {
                Err(m) => Err(m),
                Ok(target) => match limit {
                    Err(m) => Err(m),
                    Ok(limit) => Ok(CallV::Path { source, target, limit }),
                },
            },
        }
    } else if field.name == "worksWith"@ || field.name == "works_with"@ {
        match text_arg(field, vars, "left"@, "left"@, "GraphQL worksWith requires left"@) {
            Err(m) => Err(m),
            Ok(left) => match text_arg(
                field,
                vars,
                "right"@,
                "right"@,
                "GraphQL worksWith requires right"@,
            ) {
                Err(m) => Err(m),
                Ok(right) => match limit {
                    Err(m) => Err(m),
                    Ok(limit) => Ok(CallV::WorksWith { left, right, limit }),
                },
            },
        }
    } else if field.name == "status"@ {
        match text_arg(
            field,
            vars,
            "component"@,
            "name"@,
            "GraphQL status requires component/name"@,
        ) {
            Err(m) => Err(m),
            Ok(component) => match limit {
                Err(m) => Err(m),
                Ok(limit) => Ok(CallV::Status { component, limit }),
            },
        }
    } else if field.name == "versions"@ {
        match text_arg(
            field,
            vars,
            "component"@,
            "component"@,
            "GraphQL versions requires component"@,
        ) {
            Err(m) => Err(m),
            Ok(component) => match text_arg(
                field,
                vars,
                "for"@,
                "forComponent"@,
                "GraphQL versions requires for/forComponent"@,
            ) {
                Err(m) => Err(m),
                Ok(for_component) => match limit {
                    Err(m) => Err(m),
                    Ok(limit) => Ok(CallV::Versions { component, for_component, limit }),
                },
            },
        }
    } else if field.name == "resolve"@ {
        match text_arg(
            field,
            vars,
            "name"@,
            "component"@,
            "GraphQL resolve requires name/component"@,
        ) {
            Err(m) => Err(m),
            Ok(name) => Ok(CallV::Resolve { name }),
        }
    } else if field.name == "producers"@ {
        match limit {
            Err(m) => Err(m),
            Ok(limit) => match int_arg(field, vars, "staleDays"@, "stale_days"@, 14) {
                Err(m) => Err(m),
                Ok(stale_days) => Ok(CallV::Producers { limit, stale_days }),
            },
        }
    } else {
        Err(
            "unsupported GraphQL root field "@ + debug_text(field.name)
                + "; expected path, worksWith, status, versions, resolve, or producers"@,
        )
    }
}

/// The limit that a field asks for.
pub fn graphql_usize_arg(field: &GraphQlField, vars: &Json, name: &str) -> (r: Result<
    Option<usize>,
    String,
>)
    ensures
        match arg_under(field@.args, name@, name@) {
            Some(x) => match input_int(x, vars@) {
                Ok(n) => r == Ok::<Option<usize>, String>(Some(one_or_more(n) as usize)),
                Err(m) => r matches Err(e) && e@ == m,
            },
            None => r == Ok::<Option<usize>, String>(None),
        },
{
    match graphql_i64_arg(field, vars, name, name) {
        Err(e) => Err(e),
        Ok(Some(n)) => {
            let least: u64 = if n < 1 {
                1
            } else {
                n as u64
            };
            Ok(Some(#[verifier::truncate] (least as usize)))
        },
        Ok(None) => Ok(None),
    }
}

fn field_limit(field: &GraphQlField, vars: &Json, default_limit: usize) -> (r: Result<
    usize,
    String,
>)
    ensures
        (match r {
            Ok(n) => Ok(n as int),
            Err(e) => Err(e@),
        }) == limit_arg(field@, vars@, default_limit as int),
{
    let limit: usize = match graphql_usize_arg(field, vars, "limit") {
        Err(e) => {
            return Err(e);
        },
        Ok(Some(n)) => n,
        Ok(None) => default_limit,
    };
    if limit < 1 {
        Ok(1)
    } else {
        Ok(limit)
    }
}

fn stale_days_arg(field: &GraphQlField, vars: &Json) -> (r: Result<i64, String>)
    ensures
        (match r {
            Ok(n) => Ok(n as int),
            Err(e) => Err(e@),
        }) == int_arg(field@, vars@, "staleDays"@, "stale_days"@, 14),
{
    match graphql_i64_arg(field, vars, "staleDays", "stale_days") {
        Err(e) => Err(e),
        Ok(Some(n)) => Ok(
            if n < 1 {
                1
            } else {
                n
            },
        ),
        Ok(None) => Ok(14),
    }
}

pub fn graphql_call(field: &GraphQlField, vars: &Json, default_limit: usize) -> (r: Result<
    GraphQlCall,
    String,
>)
    ensures
        call_result(r) == field_call(field@, vars@, default_limit as int),
{
    proof {
        lemma_field_view(*field);
    }
    let name = field.name.as_str();
    if same(name, "path") {
        match required_text(field, vars, "from", "source", "GraphQL path requires from/source") {
            Err(e) => Err(e),
            Ok(source) => match required_text(
                field,
                vars,
                "to",
                "target",
                "GraphQL path requires to/target",
            ) {
                Err(e) => Err(e),
                Ok(target) => match field_limit(field, vars, default_limit) {
                    Err(e) => Err(e),
                    Ok(limit) => Ok(GraphQlCall::Path { source, target, limit }),
                },
            },
        }
    } else if same(name, "worksWith") || same(name, "works_with") {
        match required_text(field, vars, "left", "left", "GraphQL worksWith requires left") {
            Err(e) => Err(e),
            Ok(left) => match required_text(
                field,
                vars,
                "right",
                "right",
                "GraphQL worksWith requires right",
            ) {
                Err(e) => Err(e),
                Ok(right) => match field_limit(field, vars, default_limit) {
                    Err(e) => Err(e),
                    Ok(limit) => Ok(GraphQlCall::WorksWith { left, right, limit }),
                },
            },
        }
    } else if same(name, "status") {
        match required_text(
            field,
            vars,
            "component",
            "name",
            "GraphQL status requires component/name",
        ) {
            Err(e) => Err(e),
            Ok(component) => match field_limit(field, vars, default_limit) {
                Err(e) => Err(e),
                Ok(limit) => Ok(GraphQlCall::Status { component, limit }),
            },
        }
    } else if same(name, "versions") {
        match required_text(
            field,
            vars,
            "component",
            "component",
            "GraphQL versions requires component",
        ) {
            Err(e) => Err(e),
            Ok(component) => match required_text(
                field,
                vars,
                "for",
                "forComponent",
                "GraphQL versions requires for/forComponent",
            ) {
                Err(e) => Err(e),
                Ok(for_component) => match field_limit(field, vars, default_limit) {
                    Err(e) => Err(e),
                    Ok(limit) => Ok(GraphQlCall::Versions { component, for_component, limit }),
                },
            },
        }
    } else if same(name, "resolve") {
        match required_text(
            field,
            vars,
            "name",
            "component",
            "GraphQL resolve requires name/component",
        ) {
            Err(e) => Err(e),
            Ok(name) => Ok(GraphQlCall::Resolve { name }),
        }
    } else if same(name, "producers") {
        match field_limit(field, vars, default_limit) {
            Err(e) => Err(e),
            Ok(limit) => match stale_days_arg(field, vars) {
                Err(e) => Err(e),
                Ok(stale_days) => Ok(GraphQlCall::Producers { limit, stale_days }),
            },
        }
    } else {
        Err(
            cat3(
                "unsupported GraphQL root field ",
                debug_of(name).as_str(),
                "; expected path, worksWith, status, versions, resolve, or producers",
            ),
        )
    }
}

/// The answer to a call; `inventory` is what the query of the producers gave.
pub open spec fn call_json(g: IndexV, c: CallV, inventory: JsonV) -> JsonV {
    match c {
        CallV::Path { source, target, limit } => path_answer_json(g, source, target, limit as nat),
        CallV::WorksWith { left, right, limit } => works_with_json(g, left, right, limit as nat),
        CallV::Status { component, limit } => status_json(g, component, limit as nat),
        CallV::Versions { component, for_component, limit } => versions_json(
            g,
            component,
            for_component,
            limit as nat,
        ),
        CallV::Resolve { name } => resolve_json(g, name),
        CallV::Producers { stale_days, .. } => inventory_json(inventory, stale_days),
    }
}

pub fn execute_graphql_call(graph: &GraphIndex, call: &GraphQlCall, inventory: &Json) -> (r: Json)
    requires
        countable(inventory@),
    ensures
        r@ == call_json(graph@, call@, inventory@),
{
    match call {
        GraphQlCall::Path { source, target, limit } => graph.path_answer(
            source.as_str(),
            target.as_str(),
            *limit,
        ),
        GraphQlCall::WorksWith { left, right, limit } => graph.works_with_answer(
            left.as_str(),
            right.as_str(),
            *limit,
        ),
        GraphQlCall::Status { component, limit } => graph.status_answer(
            component.as_str(),
            *limit,
        ),
        GraphQlCall::Versions { component, for_component, limit } => graph.versions_for_answer(
            component.as_str(),
            for_component.as_str(),
            *limit,
        ),
        GraphQlCall::Resolve { name } => graph.resolve_answer(name.as_str()),
        GraphQlCall::Producers { stale_days, .. } => producer_inventory_value(
            inventory,
            *stale_days,
        ),
    }
}

// ---------------------------------------------------------------------------
// Selections
// ---------------------------------------------------------------------------
/// The value of a selected field of an object: the member, selected from in turn
/// where the field has a selection.
pub open spec fn selected(m: Seq<MemberV>, f: FieldV) -> JsonV
    decreases f.selection, 3int, JsonV::Null, 0int,
{
    let child = JsonV::or_null(crate::json::member(m, f.name));
    if f.selection.len() == 0 {
        child
    } else {
        projected(child, f.selection)
    }
}

/// The members that the first `n` fields of a selection take from an object.
pub open spec fn selected_members(m: Seq<MemberV>, selection: Seq<FieldV>, n: int) -> Seq<MemberV>
    decreases selection, 1int, JsonV::Null, n,
{
    if n <= 0 || n > selection.len() {
        Seq::empty()
    } else {
        let f = selection[n - 1];
        put(selected_members(m, selection, n - 1), f.response_key, selected(m, f))
    }
}

/// A value with only what a selection names: of an object its selected members under
/// their keys, of an array each item so, of anything else itself.
pub open spec fn projected(v: JsonV, selection: Seq<FieldV>) -> JsonV
    decreases selection, 2int, v, 0int,
{
    match v {
        JsonV::Object(m) => JsonV::Object(
            selected_members(m, selection, selection.len() as int),
        ),
        JsonV::Array(a) => JsonV::Array(
            Seq::new(
                a.len(),
                |i: int|
                    if 0 <= i < a.len() {
                        projected(a[i], selection)
                    } else {
                        JsonV::Null
                    },
            ),
        ),
        _ => v,
    }
}

pub fn project_graphql_value(value: &Json, selection: &Vec<GraphQlField>) -> (r: Json)
    ensures
        r@ == projected(value@, field_views(selection@)),
    decreases selection, 2int, value,
{
    let ghost sel = field_views(selection@);
    match value {
        Json::Object(m) => {
            proof {
                lemma_object_view(*m);
            }
            assert(value@ == Json::Object(*m)@);
            let ghost all = members_view(m@);
            let mut out: Vec<Member> = Vec::new();
            let mut i: usize = 0;
            assert(members_view(out@) =~= Seq::empty());
            while i < selection.len()
                invariant
                    sel == field_views(selection@),
                    sel.len() == selection@.len(),
                    all == members_view(m@),
                    value@ == JsonV::Object(all),
                    i <= selection@.len(),
                    members_view(out@) == selected_members(all, sel, i as int),
                decreases selection@.len() - i,
            {
                let f = &selection[i];
                assert(sel[i as int] == f@);
                proof {
                    lemma_field_view(*f);
                }
                let child = value.at_or_null(f.name.as_str());
                assert(field_views(f.selection@).len() == f.selection@.len());
                let child = if f.selection.len() == 0 {
                    child
                } else {
                    project_graphql_value(&child, &f.selection)
                };
                assert(child@ == selected(all, sel[i as int]));
                put_member(&mut out, f.response_key.as_str(), child);
                i += 1;
            }
            proof {
                lemma_object_view(out);
            }
            assert(sel.len() == selection@.len());
            Json::Object(out)
        },
        Json::Array(values) => {
            proof {
                lemma_array_view(*values);
            }
            assert(value@ == Json::Array(*values)@);
            let ghost all = projected(value@, sel)->Array_0;
            let mut out: Vec<Json> = Vec::new();
            let mut i: usize = 0;
            while i < values.len()
                invariant
                    sel == field_views(selection@),
                    value matches Json::Array(w) && w == values,
                    value@ == JsonV::Array(items_view(values@)),
                    projected(value@, sel) == JsonV::Array(all),
                    all.len() == values@.len(),
                    i <= values@.len(),
                    items_view(out@) == all.take(i as int),
                decreases values@.len() - i,
            {
                let ghost before = items_view(out@);
                let item = project_graphql_value(&values[i], selection);
                let ghost next = item@;
                out.push(item);
                assert(items_view(out@) =~= before.push(next));
                assert(items_view(values@)[i as int] == values@[i as int]@);
                assert(all[i as int] == next);
                assert(all.take(i as int + 1) =~= before.push(next));
                i += 1;
            }
            assert(all.take(i as int) =~= all);
            proof {
                lemma_array_view(out);
            }
            Json::Array(out)
        },
        _ => value.copy(),
    }
}

// ---------------------------------------------------------------------------
// Documents
// ---------------------------------------------------------------------------
/// What a document does: its fields with what they ask for.
pub struct GraphQlPlan {
    pub fields: Vec<GraphQlField>,
    pub calls: Vec<GraphQlCall>,
}

pub open spec fn call_views(v: Seq<GraphQlCall>) -> Seq<CallV> {
    v.map_values(|c: GraphQlCall| c@)
}

/// The type of what a call answers.
pub open spec fn answer_type(c: CallV) -> GraphType {
    match c {
        CallV::Path { .. } => GraphType::GraphPathAnswer,
        CallV::WorksWith { .. } => GraphType::GraphWorksWithAnswer,
        CallV::Status { .. } => GraphType::GraphStatusAnswer,
        CallV::Versions { .. } => GraphType::GraphVersionsForAnswer,
        CallV::Resolve { .. } => GraphType::GraphResolveAnswer,
        CallV::Producers { .. } => GraphType::ProducerInventory,
    }
}

fn type_of_answer(c: &GraphQlCall) -> (r: GraphType)
    ensures
        r == answer_type(c@),
{
    match c {
        GraphQlCall::Path { .. } => GraphType::GraphPathAnswer,
        GraphQlCall::WorksWith { .. } => GraphType::GraphWorksWithAnswer,
        GraphQlCall::Status { .. } => GraphType::GraphStatusAnswer,
        GraphQlCall::Versions { .. } => GraphType::GraphVersionsForAnswer,
        GraphQlCall::Resolve { .. } => GraphType::GraphResolveAnswer,
        GraphQlCall::Producers { .. } => GraphType::ProducerInventory,
    }
}

/// The call of a field whose selection its answer supports.
pub open spec fn checked_call(field: FieldV, vars: JsonV, default_limit: int) -> Result<
    CallV,
    Seq<char>,
> {
    match field_call(field, vars, default_limit) {
        Err(m) => Err(m),
        Ok(c) => match selection_fault(
            answer_type(c),
            field.selection,
            field.selection.len() as int,
        ) {
            Some(m) => Err(m),
            None => Ok(c),
        },
    }
}

fn supported_call(field: &GraphQlField, vars: &Json, default_limit: usize) -> (r: Result<
    GraphQlCall,
    String,
>)
    ensures
        call_result(r) == checked_call(field@, vars@, default_limit as int),
{
    proof {
        lemma_field_view(*field);
    }
    match graphql_call(field, vars, default_limit) {
        Err(m) => Err(m),
        Ok(c) => match check_selection(type_of_answer(&c), &field.selection) {
            Some(m) => Err(m),
            None => Ok(c),
        },
    }
}

/// The calls of the first `n` fields, or the message of the first that is wrong.
pub open spec fn field_calls(fields: Seq<FieldV>, vars: JsonV, default_limit: int, n: int) -> Result<
    Seq<CallV>,
    Seq<char>,
>
    decreases n,
{
    if n <= 0 {
        Ok(Seq::empty())
    } else {
        match field_calls(fields, vars, default_limit, n - 1) {
            Err(m) => Err(m),
            Ok(calls) => match checked_call(fields[n - 1], vars, default_limit) {
                Err(m) => Err(m),
                Ok(c) => Ok(calls.push(c)),
            },
        }
    }
}

proof fn lemma_calls_fail(fields: Seq<FieldV>, vars: JsonV, default_limit: int, n: int, m: int)
    requires
        0 <= n <= m,
        field_calls(fields, vars, default_limit, n) is Err,
    ensures
        field_calls(fields, vars, default_limit, m) == field_calls(
            fields,
            vars,
            default_limit,
            n,
        ),
    decreases m - n,
{
    if n < m {
        lemma_calls_fail(fields, vars, default_limit, n, m - 1);
    }
}

/// What a query asks for: its fields and their calls.
pub open spec fn document_plan(query: Seq<char>, vars: JsonV, default_limit: int) -> Result<
    (Seq<FieldV>, Seq<CallV>),
    Seq<char>,
> {
    match parsed_query(query) {
        Err(m) => Err(m),
        Ok(fields) => if fields.len() == 0 {
            Err("GraphQL query must select at least one root field"@)
        } else {
            match field_calls(fields, vars, default_limit, fields.len() as int) {
                Err(m) => Err(m),
                Ok(calls) => Ok((fields, calls)),
            }
        },
    }
}

pub fn plan_graphql_document(query: &str, vars: &Json, default_limit: usize) -> (r: Result<
    GraphQlPlan,
    String,
>)
    ensures
        match r {
            Ok(plan) => document_plan(query@, vars@, default_limit as int) == Ok::<
                (Seq<FieldV>, Seq<CallV>),
                Seq<char>,
            >((field_views(plan.fields@), call_views(plan.calls@))) && plan.fields@.len()
                == plan.calls@.len(),
            Err(e) => document_plan(query@, vars@, default_limit as int) == Err::<
                (Seq<FieldV>, Seq<CallV>),
                Seq<char>,
            >(e@),
        },
{
    let fields = match GraphQlParser::parse(query) {
        Ok(f) => f,
        Err(e) => {
            return Err(e);
        },
    };
    let ghost fv = field_views(fields@);
    assert(fv.len() == fields@.len());
    if fields.len() == 0 {
        return Err("GraphQL query must select at least one root field".to_owned());
    }
    let mut calls: Vec<GraphQlCall> = Vec::new();
    let mut i: usize = 0;
    assert(call_views(calls@) =~= Seq::empty());
    while i < fields.len()
        invariant
            fv == field_views(fields@),
            fv.len() == fields@.len(),
            i <= fields@.len(),
            calls@.len() == i,
            parsed_query(query@) == Ok::<Seq<FieldV>, Seq<char>>(fv),
            fv.len() > 0,
            field_calls(fv, vars@, default_limit as int, i as int) == Ok::<Seq<CallV>, Seq<char>>(
                call_views(calls@),
            ),
        decreases fields@.len() - i,
    {
        assert(fv[i as int] == fields@[i as int]@);
        match supported_call(&fields[i], vars, default_limit) {
            Ok(c) => {
                let ghost before = call_views(calls@);
                let ghost next = c@;
                calls.push(c);
                assert(call_views(calls@) =~= before.push(next));
            },
            Err(e) => {
                proof {
                    lemma_calls_fail(
                        fv,
                        vars@,
                        default_limit as int,
                        i as int + 1,
                        fv.len() as int,
                    );
                }
                return Err(e);
            },
        }
        i += 1;
    }
    Ok(GraphQlPlan { fields, calls })
}

/// What the query of the producers gave for root field `i`, or null.
pub open spec fn inventory_at(inventories: Seq<JsonV>, i: int) -> JsonV {
    if 0 <= i < inventories.len() {
        inventories[i]
    } else {
        JsonV::Null
    }
}

/// The value of a root field: the answer to its call, with what its selection names.
pub open spec fn root_value(g: IndexV, f: FieldV, c: CallV, inventory: JsonV) -> JsonV {
    let value = call_json(g, c, inventory);
    if f.selection.len() == 0 {
        value
    } else {
        projected(value, f.selection)
    }
}

/// The members that the first `n` root fields answer.
pub open spec fn root_members(
    g: IndexV,
    fields: Seq<FieldV>,
    calls: Seq<CallV>,
    inventories: Seq<JsonV>,
    n: int,
) -> Seq<MemberV>
    decreases n,
{
    if n <= 0 {
        Seq::empty()
    } else {
        put(
            root_members(g, fields, calls, inventories, n - 1),
            fields[n - 1].response_key,
            root_value(g, fields[n - 1], calls[n - 1], inventory_at(inventories, n - 1)),
        )
    }
}

/// The result of a document.
pub open spec fn document_json(
    g: IndexV,
    fields: Seq<FieldV>,
    calls: Seq<CallV>,
    inventories: Seq<JsonV>,
) -> JsonV {
    JsonV::empty_object().with("kind"@, JsonV::Text("graphql-result"@)).with(
        "schemaVersion"@,
        JsonV::number(1),
    ).with(
        "data"@,
        JsonV::Object(root_members(g, fields, calls, inventories, fields.len() as int)),
    )
}

pub open spec fn all_countable(inventories: Seq<JsonV>) -> bool {
    forall|i: int| 0 <= i < inventories.len() ==> countable(#[trigger] inventories[i])
}

fn answer_field(graph: &GraphIndex, field: &GraphQlField, call: &GraphQlCall, inventory: &Json) -> (r:
    Json)
    requires
        countable(inventory@),
    ensures
        r@ == root_value(graph@, field@, call@, inventory@),
{
    proof {
        lemma_field_view(*field);
    }
    let value = execute_graphql_call(graph, call, inventory);
    assert(field_views(field.selection@).len() == field.selection@.len());
    if field.selection.len() == 0 {
        value
    } else {
        project_graphql_value(&value, &field.selection)
    }
}

pub fn execute_graphql_plan(graph: &GraphIndex, plan: &GraphQlPlan, inventories: &Vec<Json>) -> (r:
    Json)
    requires
        plan.fields@.len() == plan.calls@.len(),
        all_countable(items_view(inventories@)),
    ensures
        r@ == document_json(
            graph@,
            field_views(plan.fields@),
            call_views(plan.calls@),
            items_view(inventories@),
        ),
{
    let ghost fv = field_views(plan.fields@);
    let ghost cv = call_views(plan.calls@);
    let ghost iv = items_view(inventories@);
    let mut data: Vec<Member> = Vec::new();
    let mut i: usize = 0;
    assert(members_view(data@) =~= Seq::empty());
    while i < plan.fields.len()
        invariant
            fv == field_views(plan.fields@),
            cv == call_views(plan.calls@),
            iv == items_view(inventories@),
            plan.fields@.len() == plan.calls@.len(),
            all_countable(iv),
            i <= plan.fields@.len(),
            members_view(data@) == root_members(graph@, fv, cv, iv, i as int),
        decreases plan.fields@.len() - i,
    {
        let f = &plan.fields[i];
        assert(fv[i as int] == f@);
        assert(cv[i as int] == plan.calls@[i as int]@);
        let value = if i < inventories.len() {
            assert(iv[i as int] == inventories@[i as int]@);
            answer_field(graph, f, &plan.calls[i], &inventories[i])
        } else {
            let none = Json::Null;
            assert(crate::render::rows_of(none@).len() == 0);
            answer_field(graph, f, &plan.calls[i], &none)
        };
        assert(value@ == root_value(graph@, fv[i as int], cv[i as int], inventory_at(iv, i as int)));
        assert(fv[i as int].response_key == f.response_key@) by {
            lemma_field_view(*f);
        }
        put_member(&mut data, f.response_key.as_str(), value);
        i += 1;
    }
    assert(fv.len() == plan.fields@.len());
    proof {
        lemma_object_view(data);
    }
    Json::object().with("kind", Json::text("graphql-result")).with(
        "schemaVersion",
        Json::number(1),
    ).with("data", Json::Object(data))
}

/// Answers a document; `inventories` holds, at the place of each root field that asks
/// for producers, what their query gave.
pub fn execute_graphql_document(
    graph: &GraphIndex,
    query: &str,
    vars: &Json,
    default_limit: usize,
    inventories: &Vec<Json>,
) -> (r: Result<Json, String>)
    requires
        all_countable(items_view(inventories@)),
    ensures
        match document_plan(query@, vars@, default_limit as int) {
            Err(m) => r matches Err(e) && e@ == m,
            Ok((fields, calls)) => r matches Ok(j) && j@ == document_json(
                graph@,
                fields,
                calls,
                items_view(inventories@),
            ),
        },
{
    match plan_graphql_document(query, vars, default_limit) {
        Ok(plan) => Ok(execute_graphql_plan(graph, &plan, inventories)),
        Err(e) => Err(e),
    }
}

proof fn lemma_selected_keys(m: Seq<MemberV>, selection: Seq<FieldV>, n: int, k: Seq<char>)
    requires
        0 <= n <= selection.len(),
    ensures
        crate::json::member(selected_members(m, selection, n), k) is Some ==> exists|i: int|
            0 <= i < n && (#[trigger] selection[i]).response_key == k,
    decreases n,
{
    if n > 0 {
        let f = selection[n - 1];
        lemma_selected_keys(m, selection, n - 1, k);
        crate::json::lemma_put_member(
            selected_members(m, selection, n - 1),
            f.response_key,
            selected(m, f),
            k,
        );
        if k == f.response_key {
            assert(selection[n - 1].response_key == k);
        }
    }
}

/// A selection omits what it does not name: a member of a projected object stands
/// under the key of a selected field.
pub proof fn law_projection_omits(m: Seq<MemberV>, selection: Seq<FieldV>, k: Seq<char>)
    ensures
        projected(JsonV::Object(m), selection).get(k) is Some ==> exists|i: int|
            0 <= i < selection.len() && (#[trigger] selection[i]).response_key == k,
{
    lemma_selected_keys(m, selection, selection.len() as int, k);
}

/// A selected field whose key no later field takes is answered under its key, an
/// alias where it has one, with the member of its name.
pub proof fn law_projection_keeps(m: Seq<MemberV>, selection: Seq<FieldV>, i: int)
    requires
        0 <= i < selection.len(),
        forall|j: int|
            i < j < selection.len() ==> (#[trigger] selection[j]).response_key
                != selection[i].response_key,
    ensures
        projected(JsonV::Object(m), selection).get(selection[i].response_key) == Some(
            selected(m, selection[i]),
        ),
{
    lemma_selected_last(m, selection, i, selection.len() as int);
}

proof fn lemma_selected_last(m: Seq<MemberV>, selection: Seq<FieldV>, i: int, n: int)
    requires
        0 <= i < n <= selection.len(),
        forall|j: int|
            i < j < n ==> (#[trigger] selection[j]).response_key != selection[i].response_key,
    ensures
        crate::json::member(selected_members(m, selection, n), selection[i].response_key) == Some(
            selected(m, selection[i]),
        ),
    decreases n,
{
    let f = selection[n - 1];
    crate::json::lemma_put_member(
        selected_members(m, selection, n - 1),
        f.response_key,
        selected(m, f),
        selection[i].response_key,
    );
    if n - 1 > i {
        lemma_selected_last(m, selection, i, n - 1);
        assert(selection[n - 1].response_key != selection[i].response_key);
    }
}

/// A field that names a variable that is not given fails with the variable's name.
pub proof fn law_missing_variable_fails(name: Seq<char>, vars: JsonV)
    requires
        vars.get(name) is None,
    ensures
        input_text(InputV::Variable(name), vars) == Err::<Seq<char>, Seq<char>>(
            "missing GraphQL variable $"@ + name,
        ),
        input_int(InputV::Variable(name), vars) == Err::<int, Seq<char>>(
            "missing GraphQL variable $"@ + name,
        ),
{
}

} // verus!
