//! What is asked of the graph, of the facts and of the construct, and how it is answered.
use vstd::prelude::*;
use crate::answers::{path_answer_json, resolve_json, status_json, versions_json, works_with_json};
use crate::calls::{
    call_of, candidate_pairs, selector_pairs, trace_pairs, CandidateArgs, RemoteCommand,
    RevisionSelectorArgs, TraceArgs,
};
use crate::context::Surroundings;
use crate::explain::{field_json, first_fields, query_answer, query_explanation, request_json};
use crate::graph::IndexV;
use crate::graph_query::{
    answer_json, arg_named, call_json, checked_call, document_json, field_call, field_calls,
    input_int, input_text, input_value, inventory_at, root_members, root_value, short_request,
    CallV, RequestV,
};
use crate::graphql::{native_query, ArgV, FieldV, InputV};
use crate::inventory::inventory_json;
use crate::json::{lemma_get_with, lemma_put_member, lemma_with_is_object, member, JsonV};
use crate::queries::{row_object, source_text, subject_filter, OptionsV, SqlCell};
use crate::request::{pair, url_encoded, PairV};
use crate::sql::{
    bare_comparison, bare_value, blank, class_test, expand_classes, field_name, literal_sql,
    quote_values, solid_from, status_class,
};
use crate::text::{
    contains, decimal, decimal_int, opt_view, split_once, trim, trim_class, CharClass,
};
use crate::text_laws::mark;

verus! {

// ---------------------------------------------------------------------------
// Graph queries
// ---------------------------------------------------------------------------
/// An argument that is given more than once counts as it was given last.
pub proof fn law_last_argument_counts(args: Seq<ArgV>, name: Seq<char>, k: int)
    requires
        0 <= k < args.len(),
        args[k].name == name,
        forall|j: int| k < j < args.len() ==> (#[trigger] args[j]).name != name,
    ensures
        arg_named(args, name) == Some(args[k].value),
    decreases args.len(),
{
    if k < args.len() - 1 {
        law_last_argument_counts(args.drop_last(), name, k);
    }
}

/// An argument that is not given is not there.
pub proof fn law_argument_not_given(args: Seq<ArgV>, name: Seq<char>)
    requires
        forall|j: int| 0 <= j < args.len() ==> (#[trigger] args[j]).name != name,
    ensures
        arg_named(args, name) is None,
    decreases args.len(),
{
    if args.len() > 0 {
        assert(args[args.len() - 1].name != name);
        law_argument_not_given(args.drop_last(), name);
    }
}

/// A value stands for itself, and a variable for what it was set to; a variable that was not
/// set is an error.
pub proof fn law_input_is_read(s: Seq<char>, n: int, b: bool, name: Seq<char>, vars: JsonV)
    ensures
        input_value(InputV::Text(s), vars) == Ok::<JsonV, Seq<char>>(JsonV::Text(s)),
        input_value(InputV::Int(n), vars) == Ok::<JsonV, Seq<char>>(JsonV::Number(decimal_int(n))),
        input_value(InputV::Bool(b), vars) == Ok::<JsonV, Seq<char>>(JsonV::Bool(b)),
        input_value(InputV::Null, vars) == Ok::<JsonV, Seq<char>>(JsonV::Null),
        vars.get(name) is None <==> input_value(InputV::Variable(name), vars) is Err,
        vars.get(name) is Some ==> input_value(InputV::Variable(name), vars) == Ok::<
            JsonV,
            Seq<char>,
        >(vars.get(name)->Some_0),
        input_text(InputV::Text(s), vars) == Ok::<Seq<char>, Seq<char>>(s),
        input_text(InputV::Int(n), vars) is Err,
        input_text(InputV::Bool(b), vars) is Err,
        input_text(InputV::Null, vars) is Err,
        vars.get(name) == Some(JsonV::Text(s)) ==> input_text(InputV::Variable(name), vars) == Ok::<
            Seq<char>,
            Seq<char>,
        >(s),
        vars.get(name) == Some(JsonV::Number(s)) ==> input_text(InputV::Variable(name), vars)
            == Ok::<Seq<char>, Seq<char>>(s),
        vars.get(name) == Some(JsonV::Bool(true)) ==> input_text(InputV::Variable(name), vars)
            == Ok::<Seq<char>, Seq<char>>("true"@),
        vars.get(name) == Some(JsonV::Bool(false)) ==> input_text(InputV::Variable(name), vars)
            == Ok::<Seq<char>, Seq<char>>("false"@),
        vars.get(name) == Some(JsonV::Null) ==> input_text(InputV::Variable(name), vars) is Err,
{
}

/// The text that is given as an argument, by its first name or else by its second.
pub open spec fn given(field: FieldV, vars: JsonV, a: Seq<char>, b: Seq<char>) -> Option<Seq<char>> {
    let input = if arg_named(field.args, a) is Some {
        arg_named(field.args, a)
    } else {
        arg_named(field.args, b)
    };
    if input is Some && input_text(input->Some_0, vars) is Ok {
        Some(input_text(input->Some_0, vars)->Ok_0)
    } else {
        None
    }
}

/// Whether the limit is the one that is given, and at least one; without one it is the
/// default.
pub open spec fn limited(field: FieldV, vars: JsonV, default: int, limit: int) -> bool {
    let input = arg_named(field.args, "limit"@);
    &&& limit >= 1
    &&& input is None ==> limit == if default < 1 {
        1
    } else {
        default
    }
    &&& input is Some ==> input_int(input->Some_0, vars) is Ok
    &&& input is Some && 1 <= input_int(input->Some_0, vars)->Ok_0 <= u32::MAX ==> limit
        == input_int(input->Some_0, vars)->Ok_0
    &&& input is Some && input_int(input->Some_0, vars)->Ok_0 < 1 ==> limit == 1
}

/// A field asks for what its name says, of what its arguments name: each of them is handed on
/// as what it was given for.
pub proof fn law_field_asks(field: FieldV, vars: JsonV, default: int)
    requires
        field_call(field, vars, default) is Ok,
    ensures
        match field_call(field, vars, default)->Ok_0 {
            CallV::Path { source, target, limit } => {
                &&& field.name == "path"@
                &&& given(field, vars, "from"@, "source"@) == Some(source)
                &&& given(field, vars, "to"@, "target"@) == Some(target)
                &&& limited(field, vars, default, limit)
            },
            CallV::WorksWith { left, right, limit } => {
                &&& field.name == "worksWith"@ || field.name == "works_with"@
                &&& given(field, vars, "left"@, "left"@) == Some(left)
                &&& given(field, vars, "right"@, "right"@) == Some(right)
                &&& limited(field, vars, default, limit)
            },
            CallV::Status { component, limit } => {
                &&& field.name == "status"@
                &&& given(field, vars, "component"@, "name"@) == Some(component)
                &&& limited(field, vars, default, limit)
            },
            CallV::Versions { component, for_component, limit } => {
                &&& field.name == "versions"@
                &&& given(field, vars, "component"@, "component"@) == Some(component)
                &&& given(field, vars, "for"@, "forComponent"@) == Some(for_component)
                &&& limited(field, vars, default, limit)
            },
            CallV::Resolve { name } => {
                &&& field.name == "resolve"@
                &&& given(field, vars, "name"@, "component"@) == Some(name)
            },
            CallV::Producers { limit, stale_days } => {
                let days = if arg_named(field.args, "staleDays"@) is Some {
                    arg_named(field.args, "staleDays"@)
                } else {
                    arg_named(field.args, "stale_days"@)
                };
                &&& field.name == "producers"@
                &&& limited(field, vars, default, limit)
                &&& days is None ==> stale_days == 14
                &&& days is Some ==> input_int(days->Some_0, vars) is Ok
                &&& days is Some && input_int(days->Some_0, vars)->Ok_0 >= 1 ==> stale_days
                    == input_int(days->Some_0, vars)->Ok_0
                &&& days is Some && input_int(days->Some_0, vars)->Ok_0 < 1 ==> stale_days == 1
            },
        },
{
}

/// What a field needs has to be given: without it, or with a limit that is no number, the
/// field is refused; with it the field is asked for.
pub proof fn law_field_needs(field: FieldV, vars: JsonV, default: int)
    ensures
        ({
            let ok = field_call(field, vars, default) is Ok;
            let number = arg_named(field.args, "limit"@) is Some ==> input_int(
                arg_named(field.args, "limit"@)->Some_0,
                vars,
            ) is Ok;
            &&& field.name == "path"@ ==> (ok <==> number && given(field, vars, "from"@, "source"@)
                is Some && given(field, vars, "to"@, "target"@) is Some)
            &&& field.name == "worksWith"@ || field.name == "works_with"@ ==> (ok <==> number
                && given(field, vars, "left"@, "left"@) is Some && given(
                field,
                vars,
                "right"@,
                "right"@,
            ) is Some)
            &&& field.name == "status"@ ==> (ok <==> number && given(
                field,
                vars,
                "component"@,
                "name"@,
            ) is Some)
            &&& field.name == "versions"@ ==> (ok <==> number && given(
                field,
                vars,
                "component"@,
                "component"@,
            ) is Some && given(field, vars, "for"@, "forComponent"@) is Some)
            &&& field.name == "resolve"@ ==> (ok <==> given(field, vars, "name"@, "component"@)
                is Some)
        }),
{
    lemma_field_names();
}

/// A question is answered by its own answer: about the components it names, in the order in
/// which it names them, and with its limit.
pub proof fn law_question_has_its_answer(
    g: IndexV,
    a: Seq<char>,
    b: Seq<char>,
    limit: nat,
    days: int,
    inventory: JsonV,
)
    ensures
        ({
            let n = limit as int;
            &&& answer_json(g, RequestV::Path { source: a, target: b }, limit) == path_answer_json(
                g,
                a,
                b,
                limit,
            )
            &&& answer_json(g, RequestV::WorksWith { left: a, right: b }, limit) == works_with_json(
                g,
                a,
                b,
                limit,
            )
            &&& answer_json(g, RequestV::Status { component: a }, limit) == status_json(g, a, limit)
            &&& answer_json(g, RequestV::VersionsFor { component: a, for_component: b }, limit)
                == versions_json(g, a, b, limit)
            &&& call_json(g, CallV::Path { source: a, target: b, limit: n }, inventory)
                == path_answer_json(g, a, b, limit)
            &&& call_json(g, CallV::WorksWith { left: a, right: b, limit: n }, inventory)
                == works_with_json(g, a, b, limit)
            &&& call_json(g, CallV::Status { component: a, limit: n }, inventory) == status_json(
                g,
                a,
                limit,
            )
            &&& call_json(g, CallV::Versions { component: a, for_component: b, limit: n }, inventory)
                == versions_json(g, a, b, limit)
            &&& call_json(g, CallV::Resolve { name: a }, inventory) == resolve_json(g, a)
            &&& call_json(g, CallV::Producers { limit: n, stale_days: days }, inventory)
                == inventory_json(inventory, days)
        }),
{
}

/// An arrow asks for the path from what stands before it to what stands behind it.
pub proof fn law_arrow_asks_for_path(query: Seq<char>, a: Seq<char>, b: Seq<char>)
    requires
        contains(trim(query), "->"@),
        split_once(trim(query), "->"@) == Some((a, b)),
    ensures
        short_request(query) == Ok::<RequestV, Seq<char>>(
            RequestV::Path {
                source: trim_class(trim(a), CharClass::Is('"')),
                target: trim_class(trim(b), CharClass::Is('"')),
            },
        ),
{
}

/// Every field of a document has its own call, in the order of the fields, and no field is
/// passed over: one that is refused has the whole document refused.
pub proof fn law_fields_have_calls(fields: Seq<FieldV>, vars: JsonV, default: int, n: int)
    requires
        0 <= n <= fields.len(),
    ensures
        field_calls(fields, vars, default, n) is Ok <==> forall|i: int|
            0 <= i < n ==> checked_call(#[trigger] fields[i], vars, default) is Ok,
        field_calls(fields, vars, default, n) is Ok ==> ({
            let calls = field_calls(fields, vars, default, n)->Ok_0;
            &&& calls.len() == n
            &&& forall|i: int|
                0 <= i < n ==> checked_call(#[trigger] fields[i], vars, default) == Ok::<
                    CallV,
                    Seq<char>,
                >(calls[i])
        }),
    decreases n,
{
    if n > 0 {
        law_fields_have_calls(fields, vars, default, n - 1);
        let before = field_calls(fields, vars, default, n - 1);
        if field_calls(fields, vars, default, n) is Ok {
            assert forall|i: int| 0 <= i < n implies checked_call(#[trigger] fields[i], vars, default)
                == Ok::<CallV, Seq<char>>(field_calls(fields, vars, default, n)->Ok_0[i]) by {
                if i < n - 1 {
                    assert(before->Ok_0[i] == field_calls(fields, vars, default, n)->Ok_0[i]);
                }
            }
        } else if before is Ok {
            assert(!(checked_call(fields[n - 1], vars, default) is Ok));
        }
    }
}

proof fn lemma_root_member(
    g: IndexV,
    fields: Seq<FieldV>,
    calls: Seq<CallV>,
    inventories: Seq<JsonV>,
    n: int,
    k: int,
)
    requires
        0 <= k < n <= fields.len(),
        forall|j: int|
            k < j < n ==> (#[trigger] fields[j]).response_key != fields[k].response_key,
    ensures
        member(root_members(g, fields, calls, inventories, n), fields[k].response_key) == Some(
            root_value(g, fields[k], calls[k], inventory_at(inventories, k)),
        ),
    decreases n,
{
    let last = fields[n - 1];
    lemma_put_member(
        root_members(g, fields, calls, inventories, n - 1),
        last.response_key,
        root_value(g, last, calls[n - 1], inventory_at(inventories, n - 1)),
        fields[k].response_key,
    );
    if k < n - 1 {
        lemma_root_member(g, fields, calls, inventories, n - 1, k);
        assert(last.response_key != fields[k].response_key);
    }
}

/// The result of a document holds, under the key of each field, the answer to its own call.
pub proof fn law_document_holds_answers(
    g: IndexV,
    fields: Seq<FieldV>,
    calls: Seq<CallV>,
    inventories: Seq<JsonV>,
    k: int,
)
    requires
        0 <= k < fields.len(),
        forall|j: int|
            k < j < fields.len() ==> (#[trigger] fields[j]).response_key != fields[k].response_key,
    ensures
        ({
            let v = document_json(g, fields, calls, inventories);
            let inventory = if k < inventories.len() {
                inventories[k]
            } else {
                JsonV::Null
            };
            &&& v.text_at("kind"@) == Some("graphql-result"@)
            &&& v.get("schemaVersion"@) == Some(JsonV::number(1))
            &&& v.get("data"@) is Some
            &&& fields[k].selection.len() == 0 ==> v.get("data"@)->Some_0.get(fields[k].response_key)
                == Some(call_json(g, calls[k], inventory))
            &&& fields[k].selection.len() > 0 ==> v.get("data"@)->Some_0.get(fields[k].response_key)
                == Some(
                crate::graph_query::projected(
                    call_json(g, calls[k], inventory),
                    fields[k].selection,
                ),
            )
        }),
{
    broadcast use {lemma_get_with, lemma_with_is_object};

    lemma_document_keys();
    lemma_root_member(g, fields, calls, inventories, fields.len() as int, k);
}

// ---------------------------------------------------------------------------
// Explanations
// ---------------------------------------------------------------------------
/// What is explained is what would be answered: a query that cannot be answered has no
/// explanation, and the explanation of one that can tells the kind of the answer, its status
/// and what it recommends.
pub proof fn law_explanation_is_of_answer(
    g: IndexV,
    query: Seq<char>,
    vars: Seq<Seq<char>>,
    limit: nat,
    inventories: Seq<JsonV>,
)
    requires
        query_explanation(g, query, vars, limit, inventories) is Ok,
    ensures
        ({
            let e = query_explanation(g, query, vars, limit, inventories)->Ok_0;
            let a = query_answer(g, query, vars, limit, inventories);
            let shorthand = !native_query(query);
            &&& a is Ok
            &&& e.text_at("kind"@) == Some("graph-query-explain"@)
            &&& shorthand ==> e.text_at("dialect"@) == Some("matrix-graph-shorthand"@)
            &&& !shorthand ==> e.text_at("dialect"@) == Some("graphql"@)
            &&& shorthand && a->Ok_0.get("kind"@) is Some ==> e.get("resultKind"@) == a->Ok_0.get(
                "kind"@,
            )
            &&& shorthand && a->Ok_0.get("status"@) is Some ==> e.get("status"@) == a->Ok_0.get(
                "status"@,
            )
            &&& shorthand && a->Ok_0.get("recommended"@) is Some ==> e.get("recommended"@)
                == a->Ok_0.get("recommended"@)
        }),
{
    broadcast use {lemma_get_with, lemma_with_is_object};

    lemma_explain_keys();
}

/// The explanation of a request names what it asks for, each part as what it is.
pub proof fn law_request_is_explained(a: Seq<char>, b: Seq<char>)
    ensures
        ({
            let path = request_json(RequestV::Path { source: a, target: b });
            let works = request_json(RequestV::WorksWith { left: a, right: b });
            let status = request_json(RequestV::Status { component: a });
            let versions = request_json(RequestV::VersionsFor { component: a, for_component: b });
            &&& path.text_at("type"@) == Some("path"@)
            &&& path.text_at("source"@) == Some(a) && path.text_at("target"@) == Some(b)
            &&& works.text_at("type"@) == Some("worksWith"@)
            &&& works.text_at("left"@) == Some(a) && works.text_at("right"@) == Some(b)
            &&& status.text_at("type"@) == Some("status"@)
            &&& status.text_at("component"@) == Some(a)
            &&& versions.text_at("type"@) == Some("versions"@)
            &&& versions.text_at("component"@) == Some(a) && versions.text_at("for"@) == Some(b)
        }),
{
    broadcast use {lemma_get_with, lemma_with_is_object};

    lemma_request_keys();
}

/// The explanation of a field names it, the key of its answer, and each of its arguments and
/// of the fields that it selects, in their order.
pub proof fn law_field_is_explained(field: FieldV)
    ensures
        ({
            let v = field_json(field);
            &&& v.text_at("responseKey"@) == Some(field.response_key)
            &&& v.text_at("field"@) == Some(field.name)
            &&& v.items_at("arguments"@).len() == field.args.len()
            &&& forall|i: int|
                0 <= i < field.args.len() ==> (#[trigger] v.items_at("arguments"@)[i]).text_at(
                    "name"@,
                ) == Some(field.args[i].name)
            &&& v.items_at("selection"@).len() == field.selection.len()
            &&& forall|i: int|
                0 <= i < field.selection.len() ==> (#[trigger] v.items_at("selection"@)[i])
                    == field_json(field.selection[i])
        }),
{
    broadcast use {lemma_get_with, lemma_with_is_object};

    lemma_explained_keys();
    lemma_fields_explained(field.selection, field.selection.len() as int);
}

proof fn lemma_fields_explained(fields: Seq<FieldV>, n: int)
    requires
        0 <= n <= fields.len(),
    ensures
        first_fields(fields, n).len() == n,
        forall|i: int| 0 <= i < n ==> (#[trigger] first_fields(fields, n)[i]) == field_json(fields[i]),
    decreases n,
{
    if n > 0 {
        lemma_fields_explained(fields, n - 1);
    }
}

// ---------------------------------------------------------------------------
// SQL
// ---------------------------------------------------------------------------
/// Unless every subject is asked for, or those of one type, dependencies are left out where
/// they are not asked for; applications are too, unless a component is in focus.
pub proof fn law_subjects_are_filtered(o: OptionsV, focused: bool)
    ensures
        ({
            let f = subject_filter(o, focused);
            let no_apps = "(subject_class is null or subject_class != 'application')"@;
            let no_deps = "(subject_class is null or subject_class != 'dependency')"@;
            let apps = o.include_applications || focused;
            &&& o.type_filter is Some ==> f == " and type = "@ + literal_sql(o.type_filter->Some_0)
            &&& o.type_filter is None && o.all ==> f.len() == 0
            &&& o.type_filter is None && !o.all && apps && o.include_dependencies ==> f.len() == 0
            &&& o.type_filter is None && !o.all && apps && !o.include_dependencies ==> f == " and "@
                + no_deps
            &&& o.type_filter is None && !o.all && !apps && o.include_dependencies ==> f == " and "@
                + no_apps
            &&& o.type_filter is None && !o.all && !apps && !o.include_dependencies ==> f == " and "@
                + (no_apps + " and "@ + no_deps)
        }),
{
    reveal_strlit("");
    let no_apps = "(subject_class is null or subject_class != 'application')"@;
    let no_deps = "(subject_class is null or subject_class != 'dependency')"@;
    let none = Seq::<Seq<char>>::empty();
    reveal_with_fuel(crate::text::join, 4);
    assert(none.push(no_apps).push(no_deps).drop_last() =~= none.push(no_apps));
    assert(none.push(no_apps).drop_last() =~= none);
    assert(none.push(no_deps).drop_last() =~= none);
}

/// A row holds each column's value under the column's name.
pub proof fn law_row_holds_cells(columns: Seq<Seq<char>>, cells: Seq<SqlCell>, n: int, k: int)
    requires
        0 <= k < n <= columns.len(),
        columns.len() == cells.len(),
        forall|j: int| k < j < n ==> #[trigger] columns[j] != columns[k],
    ensures
        row_object(columns, cells, n) is Object,
        match cells[k] {
            SqlCell::Null => row_object(columns, cells, n).get(columns[k]) == Some(JsonV::Null),
            SqlCell::Integer(x) => row_object(columns, cells, n).get(columns[k]) == Some(
                JsonV::Number(decimal_int(x as int)),
            ),
            SqlCell::Real(s) => row_object(columns, cells, n).get(columns[k]) == Some(
                JsonV::Number(s@),
            ),
            SqlCell::Text(s) => row_object(columns, cells, n).get(columns[k]) == Some(
                JsonV::Text(s@),
            ),
            SqlCell::Blob(_) => row_object(columns, cells, n).get(columns[k]) is Some,
        },
    decreases n,
{
    broadcast use {lemma_get_with, lemma_with_is_object};

    lemma_row_is_object(columns, cells, n);
    lemma_row_is_object(columns, cells, n - 1);
    if k < n - 1 {
        law_row_holds_cells(columns, cells, n - 1, k);
        assert(columns[n - 1] != columns[k]);
    }
}

proof fn lemma_row_is_object(columns: Seq<Seq<char>>, cells: Seq<SqlCell>, n: int)
    ensures
        row_object(columns, cells, n) is Object,
    decreases n,
{
    broadcast use lemma_with_is_object;

    if n > 0 {
        lemma_row_is_object(columns, cells, n - 1);
    }
}

/// A query is given inline or in a file, not both and not neither, and is not blank.
pub proof fn law_query_is_given_once(
    inline: Option<Seq<char>>,
    file: Option<Seq<char>>,
    text: Option<Seq<char>>,
    label: Seq<char>,
)
    ensures
        ({
            let r = source_text(inline, file, text, label);
            let written = inline is Some && trim(inline->Some_0).len() > 0;
            let read = text is Some && trim(text->Some_0).len() > 0;
            &&& r is Ok <==> (inline is Some && file is None && written) || (inline is None && file
                is Some && read)
            &&& r is Ok && inline is Some ==> r->Ok_0 == inline->Some_0
            &&& r is Ok && inline is None ==> r->Ok_0 == trim(text->Some_0)
        }),
{
}

/// A status that is called valid is any good one, and one that is called invalid any bad
/// one; a negated comparison is the negated test.
pub proof fn law_status_classes(column: Seq<char>)
    ensures
        class_test(column, "="@, "valid"@) == column + " "@ + "in"@ + " "@
            + "('compatible','passed','observed','candidate','valid','ready')"@,
        class_test(column, "="@, "invalid"@) == column + " "@ + "in"@ + " "@
            + "('incompatible','failed','invalid','blocked')"@,
        class_test(column, "!="@, "valid"@) == column + " "@ + "not in"@ + " "@
            + "('compatible','passed','observed','candidate','valid','ready')"@,
        class_test(column, "<>"@, "valid"@) == class_test(column, "!="@, "valid"@),
        class_test(column, "!="@, "invalid"@) == column + " "@ + "not in"@ + " "@
            + "('incompatible','failed','invalid','blocked')"@,
        class_test(column, "<>"@, "invalid"@) == class_test(column, "!="@, "invalid"@),
{
    reveal_strlit("valid");
    reveal_strlit("invalid");
    reveal_strlit("=");
    reveal_strlit("!=");
    reveal_strlit("<>");
    assert("="@.len() == 1 && "!="@.len() == 2 && "<>"@.len() == 2);
    assert("valid"@.len() != "invalid"@.len());
}

proof fn lemma_solid_sign(sign: Seq<char>)
    requires
        sign == "="@ || sign == "!="@ || sign == "<>"@,
    ensures
        !blank(sign),
{
    reveal_strlit("=");
    reveal_strlit("!=");
    reveal_strlit("<>");
    let white = CharClass::White;
    let n = sign.len() as int;
    assert(!white.holds(sign[0]));
    assert(!white.holds(sign[n - 1]));
    crate::text::lemma_index_past(sign, white, 0);
    crate::text::lemma_end_before(sign, white);
    assert(crate::text::index_past(sign, white, 0) == 0);
    assert(sign.skip(0) =~= sign);
    assert(sign.take(n) =~= sign);
}

/// Whether a column can be compared with a text that is not quoted.
pub open spec fn may_be_bare(column: Seq<char>) -> bool {
    column == "zone"@ || column == "kind"@ || column == "status"@ || column == "type"@ || column
        == "component"@ || column == "capability"@ || column == "repo"@ || column == "version"@
        || column == "fact_id"@ || column == "source_repo"@ || column == "source_repository"@
        || column == "subject_name"@ || column == "subject_type"@ || column == "target"@
}

/// A bare value that a column is compared with is quoted, and nothing else of the comparison
/// changes; a column that is not compared with texts is left alone.
pub proof fn law_bare_value_is_quoted(column: Seq<char>, sign: Seq<char>, value: Seq<char>)
    requires
        sign == "="@ || sign == "!="@ || sign == "<>"@,
        !blank(value),
        !may_be_bare(field_name(sign)),
        !may_be_bare(field_name(value)),
    ensures
        may_be_bare(field_name(column)) && bare_value(value) ==> quote_values(
            seq![column, sign, value],
            0,
        ) == seq![column, sign, literal_sql(value)],
        !may_be_bare(field_name(column)) || !bare_value(value) ==> quote_values(
            seq![column, sign, value],
            0,
        ) == seq![column, sign, value],
{
    lemma_solid_sign(sign);
    let t = seq![column, sign, value];
    assert(t[0] == column && t[1] == sign && t[2] == value && t.len() == 3);
    reveal_with_fuel(solid_from, 3);
    reveal_with_fuel(quote_values, 5);
    assert(solid_from(t, 1) == 1);
    assert(solid_from(t, 2) == 2);
    if may_be_bare(field_name(column)) && bare_value(value) {
        assert(bare_comparison(t, 0) == Some(2int));
        assert(quote_values(t, 3) =~= Seq::empty());
        assert(quote_values(t, 0) =~= seq![column, sign, literal_sql(value)]);
    } else {
        assert(bare_comparison(t, 0) is None);
        assert(bare_comparison(t, 1) is None);
        assert(bare_comparison(t, 2) is None);
        assert(quote_values(t, 0) =~= t);
    }
}

/// A status that is compared with a class of them is tested for that class; the tokens of the
/// comparison are used up.
pub proof fn law_status_is_tested_by_class(
    column: Seq<char>,
    sign: Seq<char>,
    value: Seq<char>,
    class: Seq<char>,
)
    requires
        field_name(column) == "status"@,
        sign == "="@ || sign == "!="@ || sign == "<>"@,
        !blank(value),
        status_class(value) == Some(class),
    ensures
        expand_classes(seq![column, sign, value], 0) == seq![
            class_test(column, sign, class),
            Seq::empty(),
            Seq::empty(),
        ],
{
    lemma_solid_sign(sign);
    let t = seq![column, sign, value];
    assert(t[0] == column && t[1] == sign && t[2] == value && t.len() == 3);
    reveal_with_fuel(solid_from, 3);
    reveal_with_fuel(expand_classes, 3);
    assert(solid_from(t, 1) == 1);
    assert(solid_from(t, 2) == 2);
    assert(expand_classes(t, 3) =~= Seq::empty());
    assert(expand_classes(t, 0) =~= seq![
        class_test(column, sign, class),
        Seq::empty(),
        Seq::empty(),
    ]);
}

// ---------------------------------------------------------------------------
// Requests
// ---------------------------------------------------------------------------
/// Whether a parameter is sent with a value, and not otherwise.
pub open spec fn sends(pairs: Seq<PairV>, key: Seq<char>, value: Option<Seq<char>>) -> bool {
    &&& value is Some ==> pairs.contains(pair(key, value->Some_0))
    &&& forall|i: int|
        0 <= i < pairs.len() && (#[trigger] pairs[i]).key == key ==> value == Some(pairs[i].value)
}

/// The first of the texts that is there.
pub open spec fn either(a: Option<Seq<char>>, b: Option<Seq<char>>) -> Option<Seq<char>> {
    if a is Some {
        a
    } else {
        b
    }
}

proof fn lemma_given_sent(
    pairs: Seq<PairV>,
    key: Seq<char>,
    value: Option<Seq<char>>,
    other: Seq<char>,
    v: Option<Seq<char>>,
)
    ensures
        other != key && sends(pairs, other, v) ==> sends(
            crate::calls::with_given(pairs, key, value),
            other,
            v,
        ),
        sends(pairs, key, None) ==> sends(
            crate::calls::with_given(pairs, key, value),
            key,
            value,
        ),
{
    let r = crate::calls::with_given(pairs, key, value);
    if value is Some {
        let last = pair(key, value->Some_0);
        assert(r[r.len() - 1] == last);
        assert(r.contains(last));
        if other != key && sends(pairs, other, v) {
            if v is Some {
                let x = pair(other, v->Some_0);
                let i = choose|i: int| 0 <= i < pairs.len() && pairs[i] == x;
                assert(r[i] == x);
            }
            assert forall|i: int| 0 <= i < r.len() && (#[trigger] r[i]).key == other implies v
                == Some(r[i].value) by {
                if i < pairs.len() {
                    assert(r[i] == pairs[i]);
                }
            }
        }
        if sends(pairs, key, None) {
            assert forall|i: int| 0 <= i < r.len() && (#[trigger] r[i]).key == key implies value
                == Some(r[i].value) by {
                if i < pairs.len() {
                    assert(r[i] == pairs[i]);
                }
            }
        }
    }
}

/// A candidate is asked for by its repository, by the commit that is given or else checked
/// out, by the reference, the tag, the tag that is checked out or the branch, whichever is
/// there first, and by its capability.
pub proof fn law_candidate_is_asked_for(args: CandidateArgs, around: Surroundings, repo: Seq<char>)
    ensures
        ({
            let p = candidate_pairs(args, around, repo);
            &&& sends(p, "repo"@, Some(repo))
            &&& sends(p, "sha"@, either(opt_view(args.sha), around@.sha))
            &&& sends(
                p,
                "ref"@,
                either(
                    opt_view(args.reference),
                    either(opt_view(args.tag), either(around@.tag, around@.branch)),
                ),
            )
            &&& sends(p, "capability"@, opt_view(args.capability))
        }),
{
    lemma_candidate_keys();
    let a = seq![pair("repo"@, repo)];
    let sha = either(opt_view(args.sha), around@.sha);
    let reference = either(
        opt_view(args.reference),
        either(opt_view(args.tag), either(around@.tag, around@.branch)),
    );
    let b = crate::calls::with_given(a, "sha"@, sha);
    let c = crate::calls::with_given(b, "ref"@, reference);
    assert(a[0] == pair("repo"@, repo));
    assert(sends(a, "repo"@, Some(repo)));
    lemma_given_sent(a, "sha"@, sha, "repo"@, Some(repo));
    lemma_given_sent(a, "sha"@, sha, "ref"@, None);
    lemma_given_sent(a, "sha"@, sha, "capability"@, None);
    lemma_given_sent(b, "ref"@, reference, "repo"@, Some(repo));
    lemma_given_sent(b, "ref"@, reference, "sha"@, sha);
    lemma_given_sent(b, "ref"@, reference, "capability"@, None);
    let cap = opt_view(args.capability);
    lemma_given_sent(c, "capability"@, cap, "repo"@, Some(repo));
    lemma_given_sent(c, "capability"@, cap, "sha"@, sha);
    lemma_given_sent(c, "capability"@, cap, "ref"@, reference);
}

/// A selection of revisions sends what it selects by. A time cannot stand beside another
/// choice, nor a revision beside an event.
pub proof fn law_selection_is_sent(s: RevisionSelectorArgs)
    ensures
        ({
            let number = |o: Option<i64>|
                if o is Some {
                    Some(decimal_int(o->Some_0 as int))
                } else {
                    None
                };
            let r = selector_pairs(s);
            &&& r is Err <==> (s.as_of is Some && (s.revision is Some || s.event is Some
                || s.relative is Some)) || (s.revision is Some && s.event is Some)
            &&& r is Ok ==> sends(r->Ok_0, "revision"@, number(s.revision))
            &&& r is Ok ==> sends(r->Ok_0, "eventId"@, opt_view(s.event))
            &&& r is Ok ==> sends(r->Ok_0, "relative"@, number(s.relative))
            &&& r is Ok ==> sends(r->Ok_0, "asOf"@, opt_view(s.as_of))
        }),
{
    lemma_selector_keys();
    let a = Seq::<PairV>::empty();
    let rev = crate::calls::opt_decimal(s.revision);
    let ev = opt_view(s.event);
    let rel = crate::calls::opt_decimal(s.relative);
    let at = opt_view(s.as_of);
    let b = crate::calls::with_given(a, "revision"@, rev);
    let c = crate::calls::with_given(b, "eventId"@, ev);
    let d = crate::calls::with_given(c, "relative"@, rel);
    lemma_given_sent(a, "revision"@, rev, "eventId"@, None);
    lemma_given_sent(a, "revision"@, rev, "relative"@, None);
    lemma_given_sent(a, "revision"@, rev, "asOf"@, None);
    lemma_given_sent(b, "eventId"@, ev, "revision"@, rev);
    lemma_given_sent(b, "eventId"@, ev, "relative"@, None);
    lemma_given_sent(b, "eventId"@, ev, "asOf"@, None);
    lemma_given_sent(c, "relative"@, rel, "revision"@, rev);
    lemma_given_sent(c, "relative"@, rel, "eventId"@, ev);
    lemma_given_sent(c, "relative"@, rel, "asOf"@, None);
    lemma_given_sent(d, "asOf"@, at, "revision"@, rev);
    lemma_given_sent(d, "asOf"@, at, "eventId"@, ev);
    lemma_given_sent(d, "asOf"@, at, "relative"@, rel);
}

/// A trace sends the zone, the subject, the fact and the limit that it is asked for.
pub proof fn law_trace_is_sent(args: TraceArgs, key: Seq<char>)
    requires
        key == "zone"@ || key == "track"@,
    ensures
        ({
            let p = trace_pairs(args, key);
            &&& sends(p, key, opt_view(args.zone))
            &&& sends(p, "subjectName"@, opt_view(args.subject))
            &&& sends(p, "id"@, opt_view(args.id))
            &&& sends(p, "limit"@, Some(decimal(args.limit as nat)))
        }),
{
    lemma_trace_keys();
    let a = Seq::<PairV>::empty();
    let z = opt_view(args.zone);
    let s = opt_view(args.subject);
    let i = opt_view(args.id);
    let l = Some(decimal(args.limit as nat));
    let b = crate::calls::with_given(a, key, z);
    let c = crate::calls::with_given(b, "subjectName"@, s);
    let d = crate::calls::with_given(c, "id"@, i);
    lemma_given_sent(a, key, z, "subjectName"@, None);
    lemma_given_sent(a, key, z, "id"@, None);
    lemma_given_sent(a, key, z, "limit"@, None);
    lemma_given_sent(b, "subjectName"@, s, key, z);
    lemma_given_sent(b, "subjectName"@, s, "id"@, None);
    lemma_given_sent(b, "subjectName"@, s, "limit"@, None);
    lemma_given_sent(c, "id"@, i, key, z);
    lemma_given_sent(c, "id"@, i, "subjectName"@, s);
    lemma_given_sent(c, "id"@, i, "limit"@, None);
    lemma_given_sent(d, "limit"@, l, key, z);
    lemma_given_sent(d, "limit"@, l, "subjectName"@, s);
    lemma_given_sent(d, "limit"@, l, "id"@, i);
}

/// Zones and gates are asked for under `zones`, and where that fails under `tracks`; the parts
/// of a path are encoded, each in its own place.
pub proof fn law_paths_of_requests(command: RemoteCommand, around: Surroundings)
    ensures
        ({
            let r = call_of(command, around);
            match command {
                RemoteCommand::View { zone } => r->Ok_0.path == "/zones/"@ + url_encoded(zone@)
                    && r->Ok_0.fallback == Some("/tracks/"@ + url_encoded(zone@)),
                RemoteCommand::Gate { zone, level } => r->Ok_0.path == "/zones/"@ + url_encoded(zone@)
                    + "/gates/"@ + url_encoded(level@) && r->Ok_0.fallback == Some(
                    "/tracks/"@ + url_encoded(zone@) + "/promotion-gates/"@ + url_encoded(level@),
                ),
                RemoteCommand::Capabilities => r->Ok_0.path == "/capabilities"@
                    && r->Ok_0.fallback is None,
                RemoteCommand::Scopes => r->Ok_0.path == "/scopes"@ && r->Ok_0.fallback is None,
                RemoteCommand::Scope { scope_id } => r->Ok_0.path == "/scopes/"@ + url_encoded(
                    scope_id@,
                ) && r->Ok_0.fallback is None,
                RemoteCommand::Providers { capability } => r->Ok_0.path == "/capabilities/"@
                    + url_encoded(capability@) + "/providers"@ && r->Ok_0.fallback is None,
                RemoteCommand::Requirements { artifact_id } => r->Ok_0.path == "/artifacts/"@
                    + url_encoded(artifact_id@) + "/requirements"@ && r->Ok_0.fallback is None,
                RemoteCommand::Consumers { artifact_id } => r->Ok_0.path == "/artifacts/"@
                    + url_encoded(artifact_id@) + "/consumers"@ && r->Ok_0.fallback is None,
                RemoteCommand::Eligibility { track, environment } => r->Ok_0.path == "/tracks/"@
                    + url_encoded(track@) + "/environments/"@ + url_encoded(environment@)
                    + "/eligibility"@ && r->Ok_0.fallback is None,
                RemoteCommand::Current(args) => r is Err <==> args.repo is None && around@.repo
                    is None,
                _ => true,
            }
        }),
{
}

// ---------------------------------------------------------------------------
// Keys
// ---------------------------------------------------------------------------
proof fn lemma_field_names()
    ensures
        mark("path"@) == 11610411204,
        mark("producers"@) == 11711511209,
        mark("resolve"@) == 11110111407,
        mark("status"@) == 11611511506,
        mark("versions"@) == 10511511808,
        mark("worksWith"@) == 11510411909,
        mark("works_with"@) == 9510411910,
{
    reveal_strlit("path");
    reveal_strlit("producers");
    reveal_strlit("resolve");
    reveal_strlit("status");
    reveal_strlit("versions");
    reveal_strlit("worksWith");
    reveal_strlit("works_with");
}


proof fn lemma_document_keys()
    ensures
        "data"@ != "kind"@,
        "data"@ != "schemaVersion"@,
        "kind"@ != "schemaVersion"@,
{
    reveal_strlit("data");
    reveal_strlit("kind");
    reveal_strlit("schemaVersion");
    assert("data"@[0] != "kind"@[0]);
    assert("data"@.len() != "schemaVersion"@.len());
    assert("kind"@.len() != "schemaVersion"@.len());
}


proof fn lemma_candidate_keys()
    ensures
        "capability"@ != "ref"@,
        "capability"@ != "repo"@,
        "capability"@ != "sha"@,
        "ref"@ != "repo"@,
        "ref"@ != "sha"@,
        "repo"@ != "sha"@,
{
    reveal_strlit("capability");
    reveal_strlit("ref");
    reveal_strlit("repo");
    reveal_strlit("sha");
    assert("capability"@.len() != "ref"@.len());
    assert("capability"@.len() != "repo"@.len());
    assert("capability"@.len() != "sha"@.len());
    assert("ref"@.len() != "repo"@.len());
    assert("ref"@[0] != "sha"@[0]);
    assert("repo"@.len() != "sha"@.len());
}


proof fn lemma_selector_keys()
    ensures
        "asOf"@ != "eventId"@,
        "asOf"@ != "relative"@,
        "asOf"@ != "revision"@,
        "eventId"@ != "relative"@,
        "eventId"@ != "revision"@,
        "relative"@ != "revision"@,
{
    reveal_strlit("asOf");
    reveal_strlit("eventId");
    reveal_strlit("relative");
    reveal_strlit("revision");
    assert("asOf"@.len() != "eventId"@.len());
    assert("asOf"@.len() != "relative"@.len());
    assert("asOf"@.len() != "revision"@.len());
    assert("eventId"@.len() != "relative"@.len());
    assert("eventId"@.len() != "revision"@.len());
    assert("relative"@[2] != "revision"@[2]);
}


proof fn lemma_trace_keys()
    ensures
        mark("id"@) == 10010010502,
        mark("limit"@) == 10911610805,
        mark("subjectName"@) == 9910111511,
        mark("track"@) == 9710711605,
        mark("zone"@) == 11010112204,
{
    reveal_strlit("id");
    reveal_strlit("limit");
    reveal_strlit("subjectName");
    reveal_strlit("track");
    reveal_strlit("zone");
}


proof fn lemma_explain_keys()
    ensures
        mark("dialect"@) == 10811610007,
        mark("kind"@) == 11010010704,
        mark("recommended"@) == 10910011411,
        mark("request"@) == 11711611407,
        mark("resultKeys"@) == 11611511410,
        mark("resultKind"@) == 11610011410,
        mark("rootFields"@) == 10511511410,
        mark("status"@) == 11611511506,
        mark("variables"@) == 9711511809,
{
    reveal_strlit("dialect");
    reveal_strlit("kind");
    reveal_strlit("recommended");
    reveal_strlit("request");
    reveal_strlit("resultKeys");
    reveal_strlit("resultKind");
    reveal_strlit("rootFields");
    reveal_strlit("status");
    reveal_strlit("variables");
}


proof fn lemma_request_keys()
    ensures
        mark("component"@) == 11111609909,
        mark("for"@) == 11111410203,
        mark("left"@) == 10211610804,
        mark("right"@) == 10311611405,
        mark("source"@) == 11410111506,
        mark("target"@) == 10311611606,
        mark("type"@) == 11210111604,
{
    reveal_strlit("component");
    reveal_strlit("for");
    reveal_strlit("left");
    reveal_strlit("right");
    reveal_strlit("source");
    reveal_strlit("target");
    reveal_strlit("type");
}


proof fn lemma_explained_keys()
    ensures
        mark("arguments"@) == 10911509709,
        mark("field"@) == 10110010205,
        mark("name"@) == 10910111004,
        mark("responseKey"@) == 11012111411,
        mark("selection"@) == 9911011509,
        mark("value"@) == 10810111805,
{
    reveal_strlit("arguments");
    reveal_strlit("field");
    reveal_strlit("name");
    reveal_strlit("responseKey");
    reveal_strlit("selection");
    reveal_strlit("value");
}


} // verus!
