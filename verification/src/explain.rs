//! Graph queries: the schema, and how a query is answered and explained.
use vstd::prelude::*;
use crate::graph::{GraphIndex, IndexV};
use crate::graph_query::{
    all_countable, answer_json, apply_graph_query_vars, document_json, document_plan,
    execute_graphql_document, parse_graph_query, parse_graphql_variables, short_request,
    variables_json, with_variables, GraphRequest, RequestV,
};
use crate::graphql::{
    arg_views, field_views, is_native_graphql_query, lemma_field_view, native_query, parsed_query,
    ArgV, FieldV, GraphQlField, GraphQlInput, GraphQlParser, InputV,
};
use crate::json::{
    items_view, lemma_object_view, members_view, Json, JsonV, MemberV,
};
use crate::text::{decimal_int, digits_of_i64, views};

verus! {

/// The schema of graph queries.
pub const MATRIX_GRAPHQL_SCHEMA: &'static str = "schema {
  query: Query
}

type Query {
  path(from: String, source: String, to: String, target: String, limit: Int): GraphPathAnswer!
  worksWith(left: String!, right: String!, limit: Int): GraphWorksWithAnswer!
  status(component: String, name: String, limit: Int): GraphStatusAnswer!
  versions(component: String!, for: String, forComponent: String, limit: Int): GraphVersionsForAnswer!
  resolve(name: String, component: String): GraphResolveAnswer!
  producers(limit: Int, staleDays: Int): ProducerInventory!
}

type GraphPathAnswer {
  kind: String!
  status: String!
  found: Boolean!
  confidence: String!
  source: Component
  target: Component
  recommended: GraphPath
  pathCount: Int!
  paths: [GraphPath!]!
  missing: [String!]!
}

type GraphWorksWithAnswer {
  kind: String!
  status: String!
  compatible: Boolean!
  confidence: String!
  direction: String!
  left: Component
  right: Component
  recommended: GraphPath
  pathCount: Int!
  paths: [GraphPath!]!
  reasons: [String!]!
  missing: [String!]!
}

type GraphVersionsForAnswer {
  kind: String!
  component: Component
  for: Component
  versions: [String!]!
  versionCandidates: [VersionCandidate!]!
}

type GraphStatusAnswer {
  kind: String!
  component: Component
  outgoing: [GraphEdge!]!
  incoming: [GraphEdge!]!
  outgoingCount: Int!
  incomingCount: Int!
}

type GraphResolveAnswer {
  kind: String!
  requested: String!
  name: String!
  version: String
  resolved: Component
  ambiguous: Boolean!
  matchCount: Int!
  matches: [ResolveMatch!]!
  warnings: [String!]!
}

type ProducerInventory {
  kind: String!
  summary: ProducerSummary!
  rows: [Producer!]!
}

type Component {
  requested: String
  key: String!
  component: String!
  version: String
  identity: String
  subjectName: String
  repo: String
  status: String
  lastObservedAt: String
}

type GraphPath {
  length: Int!
  score: Int!
  confidence: String!
  reasons: [String!]!
  nodes: [Component!]!
  edges: [GraphEdge!]!
}

type GraphEdge {
  from: Component
  to: Component
  relationship: String!
  capability: String
  capabilityVersion: String
  sourceVersion: String
  targetVersion: String
  sourceFactId: String
  targetFactId: String
  status: String
  observedAt: String
}

type VersionCandidate {
  version: String!
  score: Int!
  confidence: String!
  pathCount: Int!
}

type ProducerSummary {
  producers: Int!
  staleProducers: Int!
  facts: Int!
  invalidFacts: Int!
  sourceRepoFacts: Int!
  inferredSubjectRepoFacts: Int!
  unknownProducerFacts: Int!
  missingProducerMetadataFacts: Int!
  staleAfterDays: Int!
}

type Producer {
  pick: Int!
  producer: String!
  facts: Int!
  components: Int!
  zones: Int!
  invalid_facts: Int!
  source_repo_facts: Int!
  inferred_subject_repo_facts: Int!
  unknown_producer_facts: Int!
  producer_metadata: String!
  last_observed_at: String
  freshness: String!
}

type ResolveMatch {
  node: Component
  aliasKinds: [String!]!
  outgoingCount: Int!
  incomingCount: Int!
}
";

pub fn schema_value() -> (r: Json)
    ensures
        r@ == JsonV::empty_object().with("kind"@, JsonV::Text("graphql-schema"@)).with(
            "schema"@,
            JsonV::Text(MATRIX_GRAPHQL_SCHEMA@),
        ),
{
    Json::object().with("kind", Json::text("graphql-schema")).with(
        "schema",
        Json::text(MATRIX_GRAPHQL_SCHEMA),
    )
}

// ---------------------------------------------------------------------------
// Descriptions
// ---------------------------------------------------------------------------
pub open spec fn input_json(input: InputV) -> JsonV {
    match input {
        InputV::Text(s) => JsonV::empty_object().with("kind"@, JsonV::Text("string"@)).with(
            "value"@,
            JsonV::Text(s),
        ),
        InputV::Int(n) => JsonV::empty_object().with("kind"@, JsonV::Text("int"@)).with(
            "value"@,
            JsonV::Number(decimal_int(n)),
        ),
        InputV::Bool(b) => JsonV::empty_object().with("kind"@, JsonV::Text("bool"@)).with(
            "value"@,
            JsonV::Bool(b),
        ),
        InputV::Variable(s) => JsonV::empty_object().with("kind"@, JsonV::Text("variable"@)).with(
            "name"@,
            JsonV::Text(s),
        ),
        InputV::Null => JsonV::empty_object().with("kind"@, JsonV::Text("null"@)),
    }
}

pub fn graph_input_description(input: &GraphQlInput) -> (r: Json)
    ensures
        r@ == input_json(input@),
{
    match input {
        GraphQlInput::Text(s) => Json::object().with("kind", Json::text("string")).with(
            "value",
            Json::text(s.as_str()),
        ),
        GraphQlInput::Int(n) => Json::object().with("kind", Json::text("int")).with(
            "value",
            Json::Number(digits_of_i64(*n)),
        ),
        GraphQlInput::Bool(b) => Json::object().with("kind", Json::text("bool")).with(
            "value",
            Json::Bool(*b),
        ),
        GraphQlInput::Variable(s) => Json::object().with("kind", Json::text("variable")).with(
            "name",
            Json::text(s.as_str()),
        ),
        GraphQlInput::Null => Json::object().with("kind", Json::text("null")),
    }
}

pub open spec fn arg_json(arg: ArgV) -> JsonV {
    JsonV::empty_object().with("name"@, JsonV::Text(arg.name)).with(
        "value"@,
        input_json(arg.value),
    )
}

/// A field: its keys, its arguments, and what is selected of it.
pub open spec fn field_json(field: FieldV) -> JsonV
    decreases field, 0int,
{
    JsonV::empty_object().with("responseKey"@, JsonV::Text(field.response_key)).with(
        "field"@,
        JsonV::Text(field.name),
    ).with("arguments"@, JsonV::Array(field.args.map_values(|a: ArgV| arg_json(a)))).with(
        "selection"@,
        JsonV::Array(first_fields(field.selection, field.selection.len() as int)),
    )
}

/// The first `n` fields.
pub open spec fn first_fields(fields: Seq<FieldV>, n: int) -> Seq<JsonV>
    decreases fields, n,
{
    if n <= 0 || n > fields.len() {
        Seq::empty()
    } else {
        first_fields(fields, n - 1).push(field_json(fields[n - 1]))
    }
}

pub open spec fn fields_json(fields: Seq<FieldV>) -> Seq<JsonV> {
    first_fields(fields, fields.len() as int)
}

fn field_descriptions(fields: &Vec<GraphQlField>) -> (r: Vec<Json>)
    ensures
        items_view(r@) == fields_json(field_views(fields@)),
    decreases fields,
{
    let ghost all = field_views(fields@);
    let mut out: Vec<Json> = Vec::new();
    let mut i: usize = 0;
    assert(items_view(out@) =~= Seq::empty());
    while i < fields.len()
        invariant
            i <= fields@.len(),
            all == field_views(fields@),
            items_view(out@) == first_fields(all, i as int),
        decreases fields@.len() - i,
    {
        let ghost before = items_view(out@);
        let description = graph_field_description(&fields[i]);
        let ghost next = description@;
        out.push(description);
        assert(items_view(out@) =~= before.push(next));
        assert(all[i as int] == fields@[i as int]@);
        i += 1;
    }
    out
}

pub fn graph_field_description(field: &GraphQlField) -> (r: Json)
    ensures
        r@ == field_json(field@),
    decreases field,
{
    proof {
        lemma_field_view(*field);
    }
    let ghost all = field@.args.map_values(|a: ArgV| arg_json(a));
    let mut args: Vec<Json> = Vec::new();
    let mut i: usize = 0;
    assert(items_view(args@) =~= all.take(0));
    while i < field.args.len()
        invariant
            i <= field.args@.len(),
            field@.args == arg_views(field.args@),
            all == field@.args.map_values(|a: ArgV| arg_json(a)),
            items_view(args@) == all.take(i as int),
        decreases field.args@.len() - i,
    {
        let ghost before = items_view(args@);
        let arg = Json::object().with("name", Json::text(field.args[i].name.as_str())).with(
            "value",
            graph_input_description(&field.args[i].value),
        );
        let ghost next = arg@;
        args.push(arg);
        assert(items_view(args@) =~= before.push(next));
        assert(all[i as int] == next);
        assert(all.take(i as int + 1) =~= before.push(next));
        i += 1;
    }
    assert(all.take(i as int) =~= all);
    let selection = field_descriptions(&field.selection);
    let out = Json::object().with("responseKey", Json::text(field.response_key.as_str())).with(
        "field",
        Json::text(field.name.as_str()),
    ).with("arguments", Json::array(args)).with("selection", Json::array(selection));
    out
}

pub open spec fn request_json(request: RequestV) -> JsonV {
    match request {
        RequestV::Path { source, target } => JsonV::empty_object().with(
            "type"@,
            JsonV::Text("path"@),
        ).with("source"@, JsonV::Text(source)).with("target"@, JsonV::Text(target)),
        RequestV::WorksWith { left, right } => JsonV::empty_object().with(
            "type"@,
            JsonV::Text("worksWith"@),
        ).with("left"@, JsonV::Text(left)).with("right"@, JsonV::Text(right)),
        RequestV::Status { component } => JsonV::empty_object().with(
            "type"@,
            JsonV::Text("status"@),
        ).with("component"@, JsonV::Text(component)),
        RequestV::VersionsFor { component, for_component } => JsonV::empty_object().with(
            "type"@,
            JsonV::Text("versions"@),
        ).with("component"@, JsonV::Text(component)).with("for"@, JsonV::Text(for_component)),
    }
}

pub fn graph_request_description(request: &GraphRequest) -> (r: Json)
    ensures
        r@ == request_json(request@),
{
    match request {
        GraphRequest::Path { source, target } => Json::object().with(
            "type",
            Json::text("path"),
        ).with("source", Json::text(source.as_str())).with("target", Json::text(target.as_str())),
        GraphRequest::WorksWith { left, right } => Json::object().with(
            "type",
            Json::text("worksWith"),
        ).with("left", Json::text(left.as_str())).with("right", Json::text(right.as_str())),
        GraphRequest::Status { component } => Json::object().with(
            "type",
            Json::text("status"),
        ).with("component", Json::text(component.as_str())),
        GraphRequest::VersionsFor { component, for_component } => Json::object().with(
            "type",
            Json::text("versions"),
        ).with("component", Json::text(component.as_str())).with(
            "for",
            Json::text(for_component.as_str()),
        ),
    }
}

// ---------------------------------------------------------------------------
// Explanations
// ---------------------------------------------------------------------------
/// The keys of a result's data.
pub open spec fn data_keys(result: JsonV) -> Seq<Seq<char>> {
    match result.get("data"@) {
        Some(JsonV::Object(m)) => m.map_values(|e: MemberV| e.key),
        _ => Seq::empty(),
    }
}

fn result_keys(result: &Json) -> (r: Vec<String>)
    ensures
        views(r@) == data_keys(result@),
{
    let ghost all = data_keys(result@);
    let mut out: Vec<String> = Vec::new();
    match result.get("data") {
        Some(Json::Object(m)) => {
            proof {
                lemma_object_view(*m);
            }
            assert(result@.get("data"@) == Some(Json::Object(*m)@));
            let mut i: usize = 0;
            assert(views(out@) =~= all.take(0));
            while i < m.len()
                invariant
                    i <= m@.len(),
                    all == members_view(m@).map_values(|e: MemberV| e.key),
                    views(out@) == all.take(i as int),
                decreases m@.len() - i,
            {
                let ghost before = views(out@);
                out.push(m[i].key.clone());
                assert(views(out@) =~= before.push(m@[i as int].key@));
                assert(all[i as int] == m@[i as int].key@);
                assert(all.take(i as int + 1) =~= before.push(all[i as int]));
                i += 1;
            }
            assert(all.take(i as int) =~= all);
        },
        _ => {
            assert(views(out@) =~= all);
        },
    }
    out
}

/// How a GraphQL document was read and answered.
pub open spec fn document_explanation(fields: Seq<FieldV>, variables: JsonV, result: JsonV) -> JsonV {
    JsonV::empty_object().with("kind"@, JsonV::Text("graph-query-explain"@)).with(
        "dialect"@,
        JsonV::Text("graphql"@),
    ).with("variables"@, variables).with("rootFields"@, JsonV::Array(fields_json(fields))).with(
        "resultKeys"@,
        JsonV::texts(data_keys(result)),
    )
}

pub fn explain_document(fields: &Vec<GraphQlField>, variables: &Json, result: &Json) -> (r: Json)
    ensures
        r@ == document_explanation(field_views(fields@), variables@, result@),
{
    Json::object().with("kind", Json::text("graph-query-explain")).with(
        "dialect",
        Json::text("graphql"),
    ).with("variables", variables.copy()).with(
        "rootFields",
        Json::array(field_descriptions(fields)),
    ).with("resultKeys", Json::texts(&result_keys(result)))
}

/// How a query in short form was read and answered.
pub open spec fn request_explanation(request: RequestV, result: JsonV) -> JsonV {
    JsonV::empty_object().with("kind"@, JsonV::Text("graph-query-explain"@)).with(
        "dialect"@,
        JsonV::Text("matrix-graph-shorthand"@),
    ).with("request"@, request_json(request)).with(
        "resultKind"@,
        JsonV::or_null(result.get("kind"@)),
    ).with("status"@, JsonV::or_null(result.get("status"@))).with(
        "recommended"@,
        JsonV::or_null(result.get("recommended"@)),
    )
}

pub fn explain_request(request: &GraphRequest, result: &Json) -> (r: Json)
    ensures
        r@ == request_explanation(request@, result@),
{
    Json::object().with("kind", Json::text("graph-query-explain")).with(
        "dialect",
        Json::text("matrix-graph-shorthand"),
    ).with("request", graph_request_description(request)).with(
        "resultKind",
        result.at_or_null("kind"),
    ).with("status", result.at_or_null("status")).with(
        "recommended",
        result.at_or_null("recommended"),
    )
}

// ---------------------------------------------------------------------------
// Answers
// ---------------------------------------------------------------------------
/// What is answered to a GraphQL document.
pub open spec fn document_answer(
    g: IndexV,
    query: Seq<char>,
    vars: JsonV,
    limit: int,
    inventories: Seq<JsonV>,
) -> Result<JsonV, Seq<char>> {
    match document_plan(query, vars, limit) {
        Err(m) => Err(m),
        Ok((fields, calls)) => Ok(document_json(g, fields, calls, inventories)),
    }
}

/// What a query in short form asks for, and what is answered to it.
pub open spec fn short_answer(g: IndexV, query: Seq<char>, vars: Seq<Seq<char>>, limit: nat) -> Result<
    (RequestV, JsonV),
    Seq<char>,
> {
    match with_variables(query, vars, vars.len() as int) {
        Err(m) => Err(m),
        Ok(text) => match short_request(text) {
            Err(m) => Err(m),
            Ok(request) => Ok((request, answer_json(g, request, limit))),
        },
    }
}

/// What is answered to a graph query in either form.
pub open spec fn query_answer(
    g: IndexV,
    query: Seq<char>,
    vars: Seq<Seq<char>>,
    limit: nat,
    inventories: Seq<JsonV>,
) -> Result<JsonV, Seq<char>> {
    if native_query(query) {
        match variables_json(vars, vars.len() as int) {
            Err(m) => Err(m),
            Ok(values) => document_answer(g, query, values, limit as int, inventories),
        }
    } else {
        match short_answer(g, query, vars, limit) {
            Err(m) => Err(m),
            Ok((_, v)) => Ok(v),
        }
    }
}

pub open spec fn answer_result(r: Result<Json, String>) -> Result<JsonV, Seq<char>> {
    match r {
        Ok(v) => Ok(v@),
        Err(m) => Err(m@),
    }
}

/// Answers a graph query; the inventories of producers that it asks for are given, each
/// under the field that asks for it.
pub fn answer_query(
    graph: &GraphIndex,
    query: &str,
    vars: &Vec<String>,
    limit: usize,
    inventories: &Vec<Json>,
) -> (r: Result<Json, String>)
    requires
        all_countable(items_view(inventories@)),
    ensures
        answer_result(r) == query_answer(
            graph@,
            query@,
            views(vars@),
            limit as nat,
            items_view(inventories@),
        ),
{
    assert(views(vars@).len() == vars@.len());
    if is_native_graphql_query(query) {
        return match parse_graphql_variables(vars) {
            Err(m) => Err(m),
            Ok(values) => execute_graphql_document(graph, query, &values, limit, inventories),
        };
    }
    let text = match apply_graph_query_vars(query, vars) {
        Ok(t) => t,
        Err(m) => {
            return Err(m);
        },
    };
    match parse_graph_query(text.as_str()) {
        Err(m) => Err(m),
        Ok(request) => Ok(graph.execute_request(&request, limit)),
    }
}

/// How a graph query in either form is explained.
pub open spec fn query_explanation(
    g: IndexV,
    query: Seq<char>,
    vars: Seq<Seq<char>>,
    limit: nat,
    inventories: Seq<JsonV>,
) -> Result<JsonV, Seq<char>> {
    match variables_json(vars, vars.len() as int) {
        Err(m) => Err(m),
        Ok(values) => if native_query(query) {
            match parsed_query(query) {
                Err(m) => Err(m),
                Ok(fields) => match document_answer(g, query, values, limit as int, inventories) {
                    Err(m) => Err(m),
                    Ok(v) => Ok(document_explanation(fields, values, v)),
                },
            }
        } else {
            match short_answer(g, query, vars, limit) {
                Err(m) => Err(m),
                Ok((request, v)) => Ok(request_explanation(request, v)),
            }
        },
    }
}

pub fn explain_query(
    graph: &GraphIndex,
    query: &str,
    vars: &Vec<String>,
    limit: usize,
    inventories: &Vec<Json>,
) -> (r: Result<Json, String>)
    requires
        all_countable(items_view(inventories@)),
    ensures
        answer_result(r) == query_explanation(
            graph@,
            query@,
            views(vars@),
            limit as nat,
            items_view(inventories@),
        ),
{
    assert(views(vars@).len() == vars@.len());
    let values = match parse_graphql_variables(vars) {
        Ok(v) => v,
        Err(m) => {
            return Err(m);
        },
    };
    if is_native_graphql_query(query) {
        let fields = match GraphQlParser::parse(query) {
            Ok(f) => f,
            Err(m) => {
                return Err(m);
            },
        };
        return match execute_graphql_document(graph, query, &values, limit, inventories) {
            Err(m) => Err(m),
            Ok(v) => Ok(explain_document(&fields, &values, &v)),
        };
    }
    let text = match apply_graph_query_vars(query, vars) {
        Ok(t) => t,
        Err(m) => {
            return Err(m);
        },
    };
    match parse_graph_query(text.as_str()) {
        Err(m) => Err(m),
        Ok(request) => {
            let v = graph.execute_request(&request, limit);
            Ok(explain_request(&request, &v))
        },
    }
}

} // verus!
