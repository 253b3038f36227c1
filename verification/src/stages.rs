//! The adapters of test stages, k6 and Microcks, and the choice among all adapters.
use vstd::prelude::*;
use crate::ingest::{
    base, base_fact, facts_result, field_text, just, normalize_adapter, normalize_nox,
    normalize_tox, nox_result, passed_or_failed, passed_word, put_array, put_object, slug, slug_text,
    string_field, supported, tox_result, unsupported_message, with_list, with_value, Source,
    SourceV,
};
use crate::json::{
    items_view, json_read, lemma_object_view, members_view, read_json, Json, JsonV, MemberV,
};
use crate::junit::{self, junit_facts};
use crate::sbom::{self, sbom_facts};
use crate::text::{cat2, copy_opt, lower, or, or_text, same, to_lower, trim};

verus! {

// ---------------------------------------------------------------------------
// k6
// ---------------------------------------------------------------------------
/// The members of an object, none of what is no object.
pub open spec fn members_at(v: JsonV, key: Seq<char>) -> Seq<MemberV> {
    match v.get(key) {
        Some(JsonV::Object(m)) => m,
        _ => Seq::empty(),
    }
}

/// Whether a metric crossed one of its thresholds.
pub open spec fn crossed(metric: JsonV) -> bool {
    let thresholds = members_at(metric, "thresholds"@);
    exists|i: int|
        0 <= i < thresholds.len() && (#[trigger] thresholds[i]).value.bool_at("ok"@) == Some(false)
}

pub fn metric_threshold_failed(metric: &Json) -> (r: bool)
    ensures
        r == crossed(metric@),
{
    match metric.get("thresholds") {
        Some(Json::Object(m)) => {
            proof {
                lemma_object_view(*m);
            }
            let ghost thresholds = members_at(metric@, "thresholds"@);
            assert(metric@.get("thresholds"@) == Some(Json::Object(*m)@));
            assert(thresholds == members_view(m@));
            let mut i: usize = 0;
            while i < m.len()
                invariant
                    i <= m@.len(),
                    thresholds == members_view(m@),
                    thresholds == members_at(metric@, "thresholds"@),
                    forall|j: int|
                        0 <= j < i ==> (#[trigger] thresholds[j]).value.bool_at("ok"@) != Some(
                            false,
                        ),
                decreases m@.len() - i,
            {
                assert(thresholds[i as int].value == m@[i as int].value@);
                match m[i].value.bool_at("ok") {
                    Some(ok) => {
                        if !ok {
                            return true;
                        }
                    },
                    None => {},
                }
                i += 1;
            }
            false
        },
        _ => {
            assert(members_at(metric@, "thresholds"@).len() == 0) by {
                match metric@.get("thresholds"@) {
                    Some(JsonV::Object(m)) => {},
                    _ => {},
                }
            }
            false
        },
    }
}

pub open spec fn metric_json(metric: MemberV) -> JsonV {
    JsonV::empty_object().with("component"@, JsonV::Text(metric.key)).with(
        "status"@,
        JsonV::Text(passed_or_failed(!crossed(metric.value))),
    ).with("value"@, JsonV::or_null(metric.value.get("value"@))).with(
        "rate"@,
        JsonV::or_null(metric.value.get("rate"@)),
    ).with("thresholds"@, JsonV::or_null(metric.value.get("thresholds"@)))
}

pub open spec fn any_crossed(metrics: Seq<MemberV>) -> bool {
    exists|i: int| 0 <= i < metrics.len() && crossed((#[trigger] metrics[i]).value)
}

/// The fact of a k6 summary: it failed where a metric crossed a threshold.
pub open spec fn k6_fact(v: JsonV, source: SourceV) -> JsonV {
    let metrics = members_at(v, "metrics"@);
    let fact = base(
        source,
        "k6."@ + slug_text(source.component),
        "load-test"@,
        source.component,
        source.version,
        passed_or_failed(!any_crossed(metrics)),
    );
    with_list(
        with_list(
            fact,
            "provides"@,
            seq![
                JsonV::empty_object().with("capability"@, JsonV::Text("test:k6"@)).with(
                    "version"@,
                    JsonV::opt_text(source.version),
                ),
            ],
        ),
        "members"@,
        metrics.map_values(|m: MemberV| metric_json(m)),
    )
}

/// The fact of a k6 summary that was read.
pub fn k6_report(value: &Json, source: &Source) -> (r: Json)
    ensures
        r@ == k6_fact(value@, source@),
{
    let ghost metrics = members_at(value@, "metrics"@);
    let ghost all = metrics.map_values(|m: MemberV| metric_json(m));
    let mut failed = false;
    let mut members: Vec<Json> = Vec::new();
    assert(items_view(members@) =~= all.take(0));
    match value.get("metrics") {
        Some(Json::Object(m)) => {
            proof {
                lemma_object_view(*m);
            }
            assert(value@.get("metrics"@) == Some(Json::Object(*m)@));
            let mut i: usize = 0;
            while i < m.len()
                invariant
                    i <= m@.len(),
                    metrics == members_view(m@),
                    all == metrics.map_values(|m: MemberV| metric_json(m)),
                    items_view(members@) == all.take(i as int),
                    !failed ==> forall|j: int|
                        0 <= j < i ==> !crossed((#[trigger] metrics[j]).value),
                    failed ==> any_crossed(metrics),
                decreases m@.len() - i,
            {
                let ghost before = items_view(members@);
                assert(metrics[i as int] == (MemberV {
                    key: m@[i as int].key@,
                    value: m@[i as int].value@,
                }));
                let metric = &m[i].value;
                let bad = metric_threshold_failed(metric);
                if bad {
                    failed = true;
                }
                let member = Json::object().with("component", Json::text(m[i].key.as_str())).with(
                    "status",
                    Json::text(passed_word(!bad)),
                ).with("value", metric.at_or_null("value")).with(
                    "rate",
                    metric.at_or_null("rate"),
                ).with("thresholds", metric.at_or_null("thresholds"));
                let ghost next = member@;
                members.push(member);
                assert(items_view(members@) =~= before.push(next));
                assert(all[i as int] == next);
                assert(all.take(i as int + 1) =~= before.push(next));
                i += 1;
            }
            assert(all.take(i as int) =~= all);
        },
        _ => {
            assert(metrics.len() == 0) by {
                match value@.get("metrics"@) {
                    Some(JsonV::Object(m)) => {},
                    _ => {},
                }
            }
            assert(all.take(0) =~= all);
        },
    }
    assert(failed == any_crossed(metrics));
    let id = cat2("k6.", slug(source.component.as_str()).as_str());
    let fact = base_fact(
        source,
        id.as_str(),
        "load-test",
        source.component.as_str(),
        &source.version,
        passed_word(!failed),
    );
    let provided = Json::object().with("capability", Json::text("test:k6")).with(
        "version",
        Json::opt_text(&source.version),
    );
    put_array(put_array(fact, "provides", just(provided)), "members", members)
}

pub open spec fn k6_result(input: Seq<char>, source: SourceV) -> Result<Seq<JsonV>, Seq<char>> {
    match json_read(input) {
        Ok(v) => Ok(seq![k6_fact(v, source)]),
        Err(_) => Err("k6 input was not valid JSON"@),
    }
}

pub fn normalize_k6(input: &str, source: &Source) -> (r: Result<Vec<Json>, String>)
    ensures
        facts_result(r) == k6_result(input@, source@),
{
    match read_json(input) {
        Ok(v) => Ok(just(k6_report(&v, source))),
        Err(_) => Err("k6 input was not valid JSON".to_owned()),
    }
}

// ---------------------------------------------------------------------------
// Microcks
// ---------------------------------------------------------------------------
pub open spec fn test_result(v: JsonV, key: Seq<char>) -> Option<JsonV> {
    match v.get("testResult"@) {
        Some(t) => t.get(key),
        None => None,
    }
}

pub open spec fn result_text(v: JsonV, key: Seq<char>) -> Option<Seq<char>> {
    match test_result(v, key) {
        Some(x) => x.as_text(),
        None => None,
    }
}

pub open spec fn result_bool(v: JsonV, key: Seq<char>) -> Option<bool> {
    match test_result(v, key) {
        Some(x) => x.as_bool(),
        None => None,
    }
}

pub open spec fn service_name(v: JsonV, source: SourceV) -> Seq<char> {
    match or(
        field_text(v, "name"@),
        or(field_text(v, "serviceName"@), result_text(v, "serviceName"@)),
    ) {
        Some(s) => s,
        None => source.component,
    }
}

/// Whether a contract test succeeded: as it says, else unless its status is one of
/// failure.
pub open spec fn contract_kept(v: JsonV) -> bool {
    match v.bool_at("success"@) {
        Some(b) => b,
        None => match result_bool(v, "success"@) {
            Some(b) => b,
            None => match field_text(v, "status"@) {
                Some(s) => !(lower(s) == "failed"@ || lower(s) == "failure"@ || lower(s)
                    == "error"@),
                None => true,
            },
        },
    }
}

/// The fact of a Microcks result.
pub open spec fn microcks_fact(v: JsonV, source: SourceV) -> JsonV {
    let name = service_name(v, source);
    let fact = base(
        source,
        "microcks."@ + slug_text(name),
        "api-contract-test"@,
        name,
        source.version,
        passed_or_failed(contract_kept(v)),
    );
    with_value(
        with_list(
            fact,
            "provides"@,
            seq![
                JsonV::empty_object().with("capability"@, JsonV::Text("test:microcks"@)).with(
                    "version"@,
                    JsonV::opt_text(source.version),
                ).with("service"@, JsonV::Text(name)),
            ],
        ),
        "result"@,
        v,
    )
}

/// The fact of a Microcks result that was read.
pub fn microcks_report(value: &Json, source: &Source) -> (r: Json)
    ensures
        r@ == microcks_fact(value@, source@),
{
    let inner = match value.get("testResult") {
        Some(t) => t.get("serviceName"),
        None => None,
    };
    let inner_name = match inner {
        Some(x) => x.as_text(),
        None => None,
    };
    let name = match or_text(
        string_field(value, "name"),
        or_text(string_field(value, "serviceName"), inner_name),
    ) {
        Some(s) => s,
        None => source.component.clone(),
    };
    let inner_success = match value.get("testResult") {
        Some(t) => match t.get("success") {
            Some(x) => x.as_bool(),
            None => None,
        },
        None => None,
    };
    let success = match value.bool_at("success") {
        Some(b) => b,
        None => match inner_success {
            Some(b) => b,
            None => match string_field(value, "status") {
                Some(s) => {
                    let lowered = to_lower(s.as_str());
                    !(same(lowered.as_str(), "failed") || same(lowered.as_str(), "failure")
                        || same(lowered.as_str(), "error"))
                },
                None => true,
            },
        },
    };
    let id = cat2("microcks.", slug(name.as_str()).as_str());
    let fact = base_fact(
        source,
        id.as_str(),
        "api-contract-test",
        name.as_str(),
        &source.version,
        passed_word(success),
    );
    let provided = Json::object().with("capability", Json::text("test:microcks")).with(
        "version",
        Json::opt_text(&source.version),
    ).with("service", Json::text(name.as_str()));
    put_object(put_array(fact, "provides", just(provided)), "result", value.copy())
}

pub open spec fn microcks_result(input: Seq<char>, source: SourceV) -> Result<
    Seq<JsonV>,
    Seq<char>,
> {
    match json_read(input) {
        Ok(v) => Ok(seq![microcks_fact(v, source)]),
        Err(_) => Err("Microcks input was not valid JSON"@),
    }
}

pub fn normalize_microcks(input: &str, source: &Source) -> (r: Result<Vec<Json>, String>)
    ensures
        facts_result(r) == microcks_result(input@, source@),
{
    match read_json(input) {
        Ok(v) => Ok(just(microcks_report(&v, source))),
        Err(_) => Err("Microcks input was not valid JSON".to_owned()),
    }
}

// ---------------------------------------------------------------------------
// All adapters
// ---------------------------------------------------------------------------
/// What an adapter makes of a report.
pub open spec fn adapter_facts(adapter: Seq<char>, input: Seq<char>, source: SourceV) -> Result<
    Seq<JsonV>,
    Seq<char>,
> {
    let name = lower(trim(adapter));
    if name == "junit"@ {
        junit_facts(input, source)
    } else if name == "sbom"@ {
        sbom_facts(input, source)
    } else if name == "tox"@ {
        tox_result(input, source)
    } else if name == "nox"@ {
        nox_result(input, source)
    } else if name == "k6"@ {
        k6_result(input, source)
    } else if name == "microcks"@ {
        microcks_result(input, source)
    } else {
        Err(unsupported_message(adapter))
    }
}

pub fn normalize_adapter_input(adapter: &str, input: &str, source: &Source) -> (r: Result<
    Vec<Json>,
    String,
>)
    ensures
        facts_result(r) == adapter_facts(adapter@, input@, source@),
{
    let name = match normalize_adapter(adapter) {
        Ok(name) => name,
        Err(m) => {
            return Err(m);
        },
    };
    let n = name.as_str();
    if same(n, "junit") {
        junit::normalize(input, source)
    } else if same(n, "sbom") {
        sbom::normalize(input, source)
    } else if same(n, "tox") {
        normalize_tox(input, source)
    } else if same(n, "nox") {
        normalize_nox(input, source)
    } else if same(n, "k6") {
        normalize_k6(input, source)
    } else {
        normalize_microcks(input, source)
    }
}

/// A JUnit file that goes with a report: its path, and its text where it could be read.
#[derive(Debug)]
pub struct JunitFile {
    pub path: String,
    pub text: Option<String>,
}

/// A report to turn into facts, with the JUnit files that go with it, or why those
/// cannot be listed.
#[derive(Debug)]
pub struct Request {
    pub adapter: String,
    pub input: String,
    pub source: Source,
    pub junit: Result<Vec<JunitFile>, String>,
}

/// Facts with those of the first `n` JUnit files behind them, or the first error.
pub open spec fn with_junit(facts: Seq<JsonV>, files: Seq<JunitFile>, source: SourceV, n: int) -> Result<
    Seq<JsonV>,
    Seq<char>,
>
    decreases n,
{
    if n <= 0 {
        Ok(facts)
    } else {
        match with_junit(facts, files, source, n - 1) {
            Err(m) => Err(m),
            Ok(before) => match files[n - 1].text {
                None => Err("failed to read JUnit file "@ + files[n - 1].path@),
                Some(text) => match junit_facts(text@, source) {
                    Ok(more) => Ok(before + more),
                    Err(_) => Err("failed to normalize JUnit file "@ + files[n - 1].path@),
                },
            },
        }
    }
}

proof fn lemma_with_junit_fail(facts: Seq<JsonV>, files: Seq<JunitFile>, source: SourceV, n: int, m: int)
    requires
        0 <= n <= m,
        with_junit(facts, files, source, n) is Err,
    ensures
        with_junit(facts, files, source, m) == with_junit(facts, files, source, n),
    decreases m - n,
{
    if n < m {
        lemma_with_junit_fail(facts, files, source, n, m - 1);
    }
}

/// What a request becomes: the facts of its report, then those of its JUnit files,
/// which only tox and nox reports can have.
pub open spec fn request_facts(request: Request) -> Result<Seq<JsonV>, Seq<char>> {
    match adapter_facts(request.adapter@, request.input@, request.source@) {
        Err(m) => Err(m),
        Ok(facts) => match request.junit {
            Err(m) => Err(m@),
            Ok(files) => if files@.len() == 0 {
                Ok(facts)
            } else if request.source@.adapter != "tox"@ && request.source@.adapter != "nox"@ {
                Err("--junit-file and --junit-glob are only supported with tox or nox ingest"@)
            } else {
                with_junit(
                    facts,
                    files@,
                    SourceV { adapter: "junit"@, ..request.source@ },
                    files@.len() as int,
                )
            },
        },
    }
}

fn append_junit_facts(first: Vec<Json>, files: &Vec<JunitFile>, source: &Source) -> (r: Result<
    Vec<Json>,
    String,
>)
    ensures
        facts_result(r) == with_junit(
            items_view(first@),
            files@,
            source@,
            files@.len() as int,
        ),
{
    let ghost start = items_view(first@);
    let mut facts = first;
    let mut i: usize = 0;
    while i < files.len()
        invariant
            i <= files@.len(),
            start == items_view(first@),
            with_junit(start, files@, source@, i as int) == Ok::<Seq<JsonV>, Seq<char>>(
                items_view(facts@),
            ),
        decreases files@.len() - i,
    {
        match &files[i].text {
            None => {
                proof {
                    lemma_with_junit_fail(
                        start,
                        files@,
                        source@,
                        i as int + 1,
                        files@.len() as int,
                    );
                }
                return Err(cat2("failed to read JUnit file ", files[i].path.as_str()));
            },
            Some(text) => match junit::normalize(text.as_str(), source) {
                Ok(more) => {
                    let ghost before = items_view(facts@);
                    let ghost added = items_view(more@);
                    let mut more = more;
                    facts.append(&mut more);
                    assert(items_view(facts@) =~= before + added);
                },
                Err(_) => {
                    proof {
                        lemma_with_junit_fail(
                            start,
                            files@,
                            source@,
                            i as int + 1,
                            files@.len() as int,
                        );
                    }
                    return Err(cat2("failed to normalize JUnit file ", files[i].path.as_str()));
                },
            },
        }
        i += 1;
    }
    Ok(facts)
}

pub fn normalize(request: &Request) -> (r: Result<Vec<Json>, String>)
    ensures
        facts_result(r) == request_facts(*request),
{
    let facts = match normalize_adapter_input(
        request.adapter.as_str(),
        request.input.as_str(),
        &request.source,
    ) {
        Ok(facts) => facts,
        Err(m) => {
            return Err(m);
        },
    };
    let files = match &request.junit {
        Ok(files) => files,
        Err(m) => {
            return Err(m.clone());
        },
    };
    if files.len() == 0 {
        return Ok(facts);
    }
    if !same(request.source.adapter.as_str(), "tox") && !same(
        request.source.adapter.as_str(),
        "nox",
    ) {
        return Err(
            "--junit-file and --junit-glob are only supported with tox or nox ingest".to_owned(),
        );
    }
    let source = Source {
        adapter: "junit".to_owned(),
        zone: request.source.zone.clone(),
        repo: copy_opt(&request.source.repo),
        component: request.source.component.clone(),
        version: copy_opt(&request.source.version),
        sha: copy_opt(&request.source.sha),
        reference: copy_opt(&request.source.reference),
    };
    append_junit_facts(facts, files, &source)
}

/// What facts are uploaded as.
pub open spec fn batch(facts: Seq<JsonV>) -> JsonV {
    JsonV::empty_object().with("facts"@, JsonV::Array(facts))
}

pub fn upload_body(facts: Vec<Json>) -> (r: Json)
    ensures
        r@ == batch(items_view(facts@)),
{
    Json::object().with("facts", Json::array(facts))
}

} // verus!
