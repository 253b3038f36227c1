//! What the facts of every adapter have in common, and what a construct makes of them.
use vstd::prelude::*;
use crate::construct::{uploaded, upsert};
use crate::ingest::{
    base, field_text, nox_facts, passed_or_failed, run_fact, run_status, slug_text, strip_nulls,
    stripped_members, tox_facts, version_suffix, with_list, with_optional, with_value, SourceV,
};
use crate::json::{json_read, lemma_with, member, JsonV, MemberV};
use crate::junit::{case_json, junit_facts, suite_fact, CaseV, SuiteV};
use crate::sbom::{
    bill_facts, cyclonedx_facts, digest_of, members_of, name_of, package_of, requirements_of,
    root_field, version_of, with_packages,
};
use crate::stages::{
    adapter_facts, any_crossed, batch, contract_kept, k6_fact, members_at, metric_json,
    microcks_fact, request_facts, service_name, with_junit, JunitFile, Request,
};
use crate::text::{or};

verus! {

/// The verdicts that adapters come to.
pub open spec fn known_status(status: Seq<char>) -> bool {
    status == "passed"@ || status == "failed"@ || status == "observed"@
}

/// A fact with the fields that every producer gives: an id, the zone of its source, a
/// kind, a verdict and a subject with a type and a name.
pub open spec fn complete(fact: JsonV, zone: Seq<char>) -> bool {
    &&& fact is Object
    &&& fact.text_at("id"@) is Some
    &&& fact.text_at("zone"@) == Some(zone)
    &&& fact.text_at("kind"@) == Some("evidence"@)
    &&& fact.text_at("status"@) is Some
    &&& known_status(fact.text_at("status"@)->Some_0)
    &&& fact.get("subject"@) is Some
    &&& fact.get("subject"@)->Some_0.text_at("type"@) is Some
    &&& fact.get("subject"@)->Some_0.text_at("name"@) is Some
}

pub open spec fn all_complete(facts: Seq<JsonV>, zone: Seq<char>) -> bool {
    forall|i: int| 0 <= i < facts.len() ==> complete(#[trigger] facts[i], zone)
}

/// A key that a complete fact must have.
spec fn is_needed(key: Seq<char>) -> bool {
    key == "id"@ || key == "zone"@ || key == "kind"@ || key == "status"@ || key == "subject"@
}

proof fn lemma_needed_keys()
    ensures
        "id"@ != "zone"@,
        "id"@ != "kind"@,
        "id"@ != "status"@,
        "id"@ != "subject"@,
        "zone"@ != "kind"@,
        "zone"@ != "status"@,
        "zone"@ != "subject"@,
        "kind"@ != "status"@,
        "kind"@ != "subject"@,
        "status"@ != "subject"@,
{
    reveal_strlit("id");
    reveal_strlit("zone");
    reveal_strlit("kind");
    reveal_strlit("status");
    reveal_strlit("subject");
    assert("id"@.len() == 2);
    assert("zone"@.len() == 4);
    assert("kind"@.len() == 4);
    assert("status"@.len() == 6);
    assert("subject"@.len() == 7);
    assert("zone"@[0] != "kind"@[0]);
}

proof fn lemma_further_keys()
    ensures
        !is_needed("subjectType"@),
        !is_needed("subjectName"@),
        !is_needed("canonicalComponent"@),
        !is_needed("source"@),
        !is_needed("subjectVersion"@),
        !is_needed("sourceRepository"@),
        !is_needed("sourceSha"@),
        !is_needed("sourceRef"@),
        !is_needed("provides"@),
        !is_needed("members"@),
        !is_needed("requires"@),
        !is_needed("result"@),
        !is_needed("package"@),
        !is_needed("metrics"@),
{
    reveal_strlit("id");
    reveal_strlit("zone");
    reveal_strlit("kind");
    reveal_strlit("status");
    reveal_strlit("subject");
    reveal_strlit("subjectType");
    reveal_strlit("subjectName");
    reveal_strlit("canonicalComponent");
    reveal_strlit("source");
    reveal_strlit("subjectVersion");
    reveal_strlit("sourceRepository");
    reveal_strlit("sourceSha");
    reveal_strlit("sourceRef");
    reveal_strlit("provides");
    reveal_strlit("members");
    reveal_strlit("requires");
    reveal_strlit("result");
    reveal_strlit("package");
    reveal_strlit("metrics");
    assert("id"@.len() == 2);
    assert("zone"@.len() == 4);
    assert("kind"@.len() == 4);
    assert("status"@.len() == 6);
    assert("subject"@.len() == 7);
    assert("subjectType"@.len() == 11);
    assert("subjectName"@.len() == 11);
    assert("canonicalComponent"@.len() == 18);
    assert("source"@.len() == 6);
    assert("subjectVersion"@.len() == 14);
    assert("sourceRepository"@.len() == 16);
    assert("sourceSha"@.len() == 9);
    assert("sourceRef"@.len() == 9);
    assert("provides"@.len() == 8);
    assert("members"@.len() == 7);
    assert("requires"@.len() == 8);
    assert("result"@.len() == 6);
    assert("package"@.len() == 7);
    assert("metrics"@.len() == 7);
    assert("source"@[1] != "status"@[1]);
    assert("members"@[0] != "subject"@[0]);
    assert("result"@[0] != "status"@[0]);
    assert("package"@[0] != "subject"@[0]);
    assert("metrics"@[0] != "subject"@[0]);
}

proof fn lemma_with_keeps(v: JsonV, key: Seq<char>, value: JsonV, zone: Seq<char>)
    requires
        complete(v, zone),
        !is_needed(key),
    ensures
        complete(v.with(key, value), zone),
{
    lemma_with(v, key, value);
}

proof fn lemma_list_keeps(v: JsonV, key: Seq<char>, items: Seq<JsonV>, zone: Seq<char>)
    requires
        complete(v, zone),
        !is_needed(key),
    ensures
        complete(with_list(v, key, items), zone),
{
    lemma_with_keeps(v, key, JsonV::Array(items), zone);
}

proof fn lemma_value_keeps(v: JsonV, key: Seq<char>, value: JsonV, zone: Seq<char>)
    requires
        complete(v, zone),
        !is_needed(key),
    ensures
        complete(with_value(v, key, value), zone),
{
    lemma_with_keeps(v, key, value, zone);
}

proof fn lemma_optional_keeps(v: JsonV, key: Seq<char>, text: Option<Seq<char>>, zone: Seq<char>)
    requires
        complete(v, zone),
        !is_needed(key),
    ensures
        complete(with_optional(v, key, text), zone),
{
    if text is Some {
        lemma_with_keeps(v, key, JsonV::Text(text->Some_0), zone);
    }
}

proof fn lemma_member_of_push(m: Seq<MemberV>, last: MemberV, key: Seq<char>)
    ensures
        member(m.push(last), key) == match member(m, key) {
            Some(v) => Some(v),
            None => if last.key == key {
                Some(last.value)
            } else {
                None
            },
        },
    decreases m.len(),
{
    if m.len() == 0 {
        assert(m.push(last)[0] == last);
        assert(m.push(last).skip(1) =~= m);
    } else {
        lemma_member_of_push(m.skip(1), last, key);
        assert(m.push(last)[0] == m[0]);
        assert(m.push(last).skip(1) =~= m.skip(1).push(last));
    }
}

/// A text is still there when nulls are gone.
proof fn lemma_stripped_text(m: Seq<MemberV>, n: int, key: Seq<char>, text: Seq<char>)
    requires
        0 <= n <= m.len(),
        member(m.take(n), key) == Some(JsonV::Text(text)),
    ensures
        member(stripped_members(m, n), key) == Some(JsonV::Text(text)),
    decreases n,
{
    if n > 0 {
        let last = m[n - 1];
        assert(m.take(n) =~= m.take(n - 1).push(last));
        lemma_member_of_push(m.take(n - 1), last, key);
        let value = strip_nulls(last.value);
        lemma_member_of_push(
            stripped_members(m, n - 1),
            MemberV { key: last.key, value },
            key,
        );
        if member(m.take(n - 1), key) is Some {
            lemma_stripped_text(m, n - 1, key, text);
        } else {
            lemma_stripped_nothing(m, n - 1, key);
        }
    }
}

proof fn lemma_stripped_nothing(m: Seq<MemberV>, n: int, key: Seq<char>)
    requires
        0 <= n <= m.len(),
        member(m.take(n), key) is None,
    ensures
        member(stripped_members(m, n), key) is None,
    decreases n,
{
    if n > 0 {
        let last = m[n - 1];
        assert(m.take(n) =~= m.take(n - 1).push(last));
        lemma_member_of_push(m.take(n - 1), last, key);
        lemma_member_of_push(
            stripped_members(m, n - 1),
            MemberV { key: last.key, value: strip_nulls(last.value) },
            key,
        );
        lemma_stripped_nothing(m, n - 1, key);
    }
}

pub proof fn lemma_strip_keeps_text(v: JsonV, key: Seq<char>, text: Seq<char>)
    requires
        v is Object,
        v.get(key) == Some(JsonV::Text(text)),
    ensures
        strip_nulls(v).get(key) == Some(JsonV::Text(text)),
{
    let m = v->Object_0;
    assert(m.take(m.len() as int) =~= m);
    lemma_stripped_text(m, m.len() as int, key, text);
}

/// What adapters start from is complete.
proof fn lemma_base_complete(
    source: SourceV,
    id: Seq<char>,
    subject_type: Seq<char>,
    subject_name: Seq<char>,
    subject_version: Option<Seq<char>>,
    status: Seq<char>,
)
    requires
        known_status(status),
    ensures
        complete(base(source, id, subject_type, subject_name, subject_version, status), source.zone),
{
    lemma_needed_keys();
    lemma_further_keys();
    let kind = JsonV::Text(subject_type);
    let name = JsonV::Text(subject_name);
    let s1 = JsonV::empty_object().with("type"@, kind);
    let s2 = s1.with("name"@, name);
    let s3 = s2.with("version"@, JsonV::opt_text(subject_version));
    let s4 = s3.with("canonicalComponent"@, JsonV::Text(source.component));
    let s5 = s4.with("repo"@, JsonV::opt_text(source.repo));
    lemma_with(JsonV::empty_object(), "type"@, kind);
    lemma_with(s1, "name"@, name);
    lemma_with(s2, "version"@, JsonV::opt_text(subject_version));
    lemma_with(s3, "canonicalComponent"@, JsonV::Text(source.component));
    lemma_with(s4, "repo"@, JsonV::opt_text(source.repo));
    reveal_strlit("type");
    reveal_strlit("name");
    reveal_strlit("version");
    reveal_strlit("canonicalComponent");
    reveal_strlit("repo");
    assert("type"@.len() == 4);
    assert("name"@.len() == 4);
    assert("version"@.len() == 7);
    assert("canonicalComponent"@.len() == 18);
    assert("repo"@.len() == 4);
    assert("type"@[0] != "name"@[0] && "type"@[0] != "repo"@[0] && "name"@[0] != "repo"@[0]);
    lemma_strip_keeps_text(s5, "type"@, subject_type);
    lemma_strip_keeps_text(s5, "name"@, subject_name);
    let subject = strip_nulls(s5);
    let origin = strip_nulls(
        JsonV::empty_object().with("adapter"@, JsonV::Text(source.adapter)).with(
            "repo"@,
            JsonV::opt_text(source.repo),
        ).with("sha"@, JsonV::opt_text(source.sha)).with(
            "ref"@,
            JsonV::opt_text(source.reference),
        ),
    );
    let m1 = JsonV::empty_object().with("id"@, JsonV::Text(id));
    let m2 = m1.with("zone"@, JsonV::Text(source.zone));
    let m3 = m2.with("kind"@, JsonV::Text("evidence"@));
    let m4 = m3.with("status"@, JsonV::Text(status));
    let m5 = m4.with("subjectType"@, kind);
    let m6 = m5.with("subjectName"@, name);
    let m7 = m6.with("canonicalComponent"@, JsonV::Text(source.component));
    let m8 = m7.with("subject"@, subject);
    let m9 = m8.with("source"@, origin);
    lemma_with(JsonV::empty_object(), "id"@, JsonV::Text(id));
    lemma_with(m1, "zone"@, JsonV::Text(source.zone));
    lemma_with(m2, "kind"@, JsonV::Text("evidence"@));
    lemma_with(m3, "status"@, JsonV::Text(status));
    lemma_with(m4, "subjectType"@, kind);
    lemma_with(m5, "subjectName"@, name);
    lemma_with(m6, "canonicalComponent"@, JsonV::Text(source.component));
    lemma_with(m7, "subject"@, subject);
    lemma_with(m8, "source"@, origin);
    assert(complete(m9, source.zone));
    let o1 = with_optional(m9, "subjectVersion"@, subject_version);
    let o2 = with_optional(o1, "sourceRepository"@, source.repo);
    let o3 = with_optional(o2, "sourceSha"@, source.sha);
    lemma_optional_keeps(m9, "subjectVersion"@, subject_version, source.zone);
    lemma_optional_keeps(o1, "sourceRepository"@, source.repo, source.zone);
    lemma_optional_keeps(o2, "sourceSha"@, source.sha, source.zone);
    lemma_optional_keeps(o3, "sourceRef"@, source.reference, source.zone);
}

/// Adapters come to a known verdict.
proof fn lemma_verdicts(v: JsonV, passed: bool)
    ensures
        known_status(run_status(v)),
        known_status(passed_or_failed(passed)),
{
}

proof fn lemma_run_complete(
    source: SourceV,
    adapter: Seq<char>,
    subject_type: Seq<char>,
    name: Seq<char>,
    evidence: JsonV,
)
    ensures
        complete(run_fact(source, adapter, subject_type, name, evidence), source.zone),
{
    lemma_further_keys();
    lemma_verdicts(evidence, true);
    let fact = base(
        source,
        adapter + "."@ + slug_text(source.component) + "."@ + slug_text(name),
        subject_type,
        name,
        source.version,
        run_status(evidence),
    );
    let provided = seq![
        JsonV::empty_object().with("capability"@, JsonV::Text("test:"@ + adapter)).with(
            "version"@,
            JsonV::opt_text(source.version),
        ),
    ];
    lemma_base_complete(
        source,
        adapter + "."@ + slug_text(source.component) + "."@ + slug_text(name),
        subject_type,
        name,
        source.version,
        run_status(evidence),
    );
    lemma_list_keeps(fact, "provides"@, provided, source.zone);
    lemma_value_keeps(with_list(fact, "provides"@, provided), "result"@, evidence, source.zone);
}

proof fn lemma_runner_complete(v: JsonV, source: SourceV)
    ensures
        tox_facts(v, source).len() > 0,
        nox_facts(v, source).len() > 0,
        all_complete(tox_facts(v, source), source.zone),
        all_complete(nox_facts(v, source), source.zone),
{
    assert forall|adapter: Seq<char>, kind: Seq<char>, name: Seq<char>, evidence: JsonV|
        complete(#[trigger] run_fact(source, adapter, kind, name, evidence), source.zone) by {
        lemma_run_complete(source, adapter, kind, name, evidence);
    }
}

proof fn lemma_suite_complete(suite: SuiteV, source: SourceV)
    ensures
        complete(suite_fact(suite, source), source.zone),
{
    lemma_further_keys();
    let name = if suite.name.len() == 0 {
        source.component
    } else {
        suite.name
    };
    let id = "junit."@ + slug_text(source.component) + "."@ + slug_text(name) + version_suffix(
        source.version,
    );
    let status = if suite.failures + suite.errors > 0 {
        "failed"@
    } else {
        "passed"@
    };
    let fact = base(source, id, "junit-suite"@, name, source.version, status);
    lemma_base_complete(source, id, "junit-suite"@, name, source.version, status);
    let provided = seq![
        JsonV::empty_object().with("capability"@, JsonV::Text("test:junit"@)).with(
            "version"@,
            JsonV::opt_text(source.version),
        ).with("suite"@, JsonV::Text(suite.name)),
    ];
    let cases = suite.cases.map_values(|c: CaseV| case_json(c));
    let metrics = JsonV::empty_object().with("tests"@, JsonV::number(suite.tests)).with(
        "failures"@,
        JsonV::number(suite.failures),
    ).with("errors"@, JsonV::number(suite.errors)).with(
        "skipped"@,
        JsonV::number(suite.skipped),
    ).with("time"@, JsonV::opt_text(suite.time));
    let with_provided = with_list(fact, "provides"@, provided);
    let with_cases = with_list(with_provided, "members"@, cases);
    lemma_list_keeps(fact, "provides"@, provided, source.zone);
    lemma_list_keeps(with_provided, "members"@, cases, source.zone);
    lemma_value_keeps(with_cases, "metrics"@, metrics, source.zone);
}

proof fn lemma_junit_complete(input: Seq<char>, source: SourceV)
    ensures
        junit_facts(input, source) is Ok ==> junit_facts(input, source)->Ok_0.len() > 0
            && all_complete(junit_facts(input, source)->Ok_0, source.zone),
{
    assert forall|suite: SuiteV| complete(#[trigger] suite_fact(suite, source), source.zone) by {
        lemma_suite_complete(suite, source);
    }
}

proof fn lemma_package_complete(component: JsonV, source: SourceV)
    ensures
        package_of(component, source) is Some ==> complete(
            package_of(component, source)->Some_0,
            source.zone,
        ),
{
    lemma_further_keys();
    if name_of(component) is Some {
        let name = name_of(component)->Some_0;
        let version = version_of(component);
        let id = "package."@ + slug_text(name) + version_suffix(version);
        let fact = base(source, id, "dependency"@, name, version, "observed"@);
        lemma_base_complete(source, id, "dependency"@, name, version, "observed"@);
        let provided = seq![
            strip_nulls(
                JsonV::empty_object().with("capability"@, JsonV::Text("package:"@ + name)).with(
                    "version"@,
                    JsonV::opt_text(version),
                ).with("purl"@, JsonV::opt_text(field_text(component, "purl"@))).with(
                    "digest"@,
                    JsonV::opt_text(digest_of(component)),
                ),
            ),
        ];
        lemma_list_keeps(fact, "provides"@, provided, source.zone);
        lemma_value_keeps(with_list(fact, "provides"@, provided), "package"@, component, source.zone);
    }
}

proof fn lemma_packages_complete(facts: Seq<JsonV>, components: Seq<JsonV>, source: SourceV, n: int)
    requires
        facts.len() > 0,
        all_complete(facts, source.zone),
    ensures
        with_packages(facts, components, source, n).len() > 0,
        all_complete(with_packages(facts, components, source, n), source.zone),
    decreases n,
{
    if n > 0 {
        lemma_packages_complete(facts, components, source, n - 1);
        lemma_package_complete(components[n - 1], source);
    }
}

proof fn lemma_cyclonedx_complete(v: JsonV, source: SourceV)
    ensures
        cyclonedx_facts(v, source).len() > 0,
        all_complete(cyclonedx_facts(v, source), source.zone),
{
    lemma_further_keys();
    let name = match root_field(v, "name"@) {
        Some(n) => n,
        None => source.component,
    };
    let version = or(root_field(v, "version"@), source.version);
    let components = v.items_at("components"@);
    let members = members_of(components);
    let id = "sbom."@ + slug_text(name) + version_suffix(version);
    let fact = base(source, id, "sbom"@, name, version, "observed"@);
    lemma_base_complete(source, id, "sbom"@, name, version, "observed"@);
    let provided = seq![
        JsonV::empty_object().with("capability"@, JsonV::Text("sbom:"@ + source.component)).with(
            "version"@,
            JsonV::opt_text(version),
        ),
    ];
    let with_members = with_list(fact, "members"@, members);
    let needs = requirements_of(members, members.len() as int);
    let with_needs = with_list(with_members, "requires"@, needs);
    lemma_list_keeps(fact, "members"@, members, source.zone);
    lemma_list_keeps(with_members, "requires"@, needs, source.zone);
    lemma_list_keeps(with_needs, "provides"@, provided, source.zone);
    let bill = with_list(with_needs, "provides"@, provided);
    lemma_packages_complete(seq![bill], components, source, components.len() as int);
}

proof fn lemma_bill_complete(v: JsonV, source: SourceV)
    ensures
        bill_facts(v, source) is Ok ==> bill_facts(v, source)->Ok_0.len() > 0 && all_complete(
            bill_facts(v, source)->Ok_0,
            source.zone,
        ),
{
    lemma_further_keys();
    lemma_cyclonedx_complete(v, source);
    let packages = v.items_at("packages"@);
    let name = match v.text_at("name"@) {
        Some(n) => n,
        None => source.component,
    };
    let id = "sbom."@ + slug_text(name);
    let fact = base(source, id, "sbom"@, name, source.version, "observed"@);
    lemma_base_complete(source, id, "sbom"@, name, source.version, "observed"@);
    lemma_list_keeps(fact, "members"@, members_of(packages), source.zone);
    let bill = with_list(fact, "members"@, members_of(packages));
    lemma_packages_complete(seq![bill], packages, source, packages.len() as int);
}

proof fn lemma_stage_complete(v: JsonV, source: SourceV)
    ensures
        complete(k6_fact(v, source), source.zone),
        complete(microcks_fact(v, source), source.zone),
{
    lemma_further_keys();
    let metrics = members_at(v, "metrics"@);
    let version = JsonV::opt_text(source.version);
    let load_status = passed_or_failed(!any_crossed(metrics));
    lemma_verdicts(v, !any_crossed(metrics));
    lemma_verdicts(v, contract_kept(v));
    let load_id = "k6."@ + slug_text(source.component);
    let load = base(source, load_id, "load-test"@, source.component, source.version, load_status);
    lemma_base_complete(
        source,
        load_id,
        "load-test"@,
        source.component,
        source.version,
        load_status,
    );
    let load_provided = seq![
        JsonV::empty_object().with("capability"@, JsonV::Text("test:k6"@)).with("version"@, version),
    ];
    lemma_list_keeps(load, "provides"@, load_provided, source.zone);
    lemma_list_keeps(
        with_list(load, "provides"@, load_provided),
        "members"@,
        metrics.map_values(|m: MemberV| metric_json(m)),
        source.zone,
    );
    let name = service_name(v, source);
    let id = "microcks."@ + slug_text(name);
    let status = passed_or_failed(contract_kept(v));
    let fact = base(source, id, "api-contract-test"@, name, source.version, status);
    lemma_base_complete(source, id, "api-contract-test"@, name, source.version, status);
    let provided = seq![
        JsonV::empty_object().with("capability"@, JsonV::Text("test:microcks"@)).with(
            "version"@,
            version,
        ).with("service"@, JsonV::Text(name)),
    ];
    lemma_list_keeps(fact, "provides"@, provided, source.zone);
    lemma_value_keeps(with_list(fact, "provides"@, provided), "result"@, v, source.zone);
}

proof fn lemma_adapter_complete(adapter: Seq<char>, input: Seq<char>, source: SourceV)
    ensures
        adapter_facts(adapter, input, source) is Ok ==> adapter_facts(
            adapter,
            input,
            source,
        )->Ok_0.len() > 0 && all_complete(
            adapter_facts(adapter, input, source)->Ok_0,
            source.zone,
        ),
{
    lemma_junit_complete(input, source);
    if json_read(input) is Ok {
        let v = json_read(input)->Ok_0;
        lemma_runner_complete(v, source);
        lemma_bill_complete(v, source);
        lemma_stage_complete(v, source);
    }
}

proof fn lemma_junit_files_complete(
    facts: Seq<JsonV>,
    files: Seq<JunitFile>,
    source: SourceV,
    n: int,
)
    requires
        0 <= n <= files.len(),
        facts.len() > 0,
        all_complete(facts, source.zone),
        with_junit(facts, files, source, n) is Ok,
    ensures
        with_junit(facts, files, source, n)->Ok_0.len() > 0,
        all_complete(with_junit(facts, files, source, n)->Ok_0, source.zone),
    decreases n,
{
    if n > 0 {
        lemma_junit_files_complete(facts, files, source, n - 1);
        lemma_junit_complete(files[n - 1].text->Some_0@, source);
    }
}

/// Whatever the adapter, a report that is read gives at least one fact, and each of them
/// has an id, the zone of its source, a kind, a verdict and a subject with a type and a
/// name.
pub proof fn law_ingested_facts_are_complete(request: Request)
    requires
        request_facts(request) is Ok,
    ensures
        request_facts(request)->Ok_0.len() > 0,
        all_complete(request_facts(request)->Ok_0, request.source@.zone),
{
    lemma_adapter_complete(request.adapter@, request.input@, request.source@);
    let facts = adapter_facts(request.adapter@, request.input@, request.source@)->Ok_0;
    let files = request.junit->Ok_0;
    if files@.len() > 0 {
        lemma_junit_files_complete(
            facts,
            files@,
            SourceV { adapter: "junit"@, ..request.source@ },
            files@.len() as int,
        );
    }
}

/// A construct takes the facts of a batch as they were ingested, and refuses none of
/// them.
pub proof fn law_ingested_batch_is_accepted(
    request: Request,
    now: Seq<char>,
    stored_hash: Option<Seq<char>>,
    last_revision: int,
)
    requires
        request_facts(request) is Ok,
    ensures
        uploaded(batch(request_facts(request)->Ok_0)) == Some(request_facts(request)->Ok_0),
        forall|i: int|
            0 <= i < request_facts(request)->Ok_0.len() ==> (#[trigger] upsert(
                request_facts(request)->Ok_0[i],
                now,
                stored_hash,
                last_revision,
            )) is Ok,
{
    law_ingested_facts_are_complete(request);
    let facts = request_facts(request)->Ok_0;
    lemma_with(JsonV::empty_object(), "facts"@, JsonV::Array(facts));
    assert forall|i: int| 0 <= i < facts.len() implies (#[trigger] upsert(
        facts[i],
        now,
        stored_hash,
        last_revision,
    )) is Ok by {
        assert(complete(facts[i], request.source@.zone));
    }
}

} // verus!
