//! What the reports of other tools say as facts: how each went, what it is about and what
//! it was made of.
use vstd::prelude::*;
use crate::batches::lemma_strip_keeps_text;
use crate::context::Surroundings;
use crate::facts::short_name;
use crate::ingest::{
    base, field_text, nox_facts, run_fact, run_status, sessions, slug_text, source_of, strip_nulls,
    tox_facts, version_suffix, with_list, with_optional, with_value, IngestArgs, SourceV,
};
use crate::json::{json_read, lemma_get_with, lemma_with_is_object, JsonV, MemberV};
use crate::junit::{
    attribute, case_json, junit_step, suite_fact, suite_facts, suite_of, AttributeV, CaseV, JunitV,
    SuiteV, TagV, XmlEventV,
};
use crate::sbom::{
    bill_facts, cyclonedx_facts, digest_of, member_of, members_of, name_of, package_of,
    requirement_of, requirements_of, root_field, spdx_facts, version_of, with_packages,
};
use crate::stages::{
    adapter_facts, any_crossed, contract_kept, crossed, k6_fact, members_at, metric_json,
    microcks_fact, request_facts, service_name, with_junit, JunitFile, Request,
};
use crate::text::{
    decimal, end_before, index_past, is_alnum, lemma_end_before, lemma_index_past, lower, opt_view,
    or, parse_unsigned, trim, CharClass,
};
use crate::text_laws::mark;

verus! {

proof fn lemma_fact_members()
    ensures
        "canonicalComponent"@ != "id"@,
        "canonicalComponent"@ != "kind"@,
        "canonicalComponent"@ != "source"@,
        "canonicalComponent"@ != "sourceRef"@,
        "canonicalComponent"@ != "sourceRepository"@,
        "canonicalComponent"@ != "sourceSha"@,
        "canonicalComponent"@ != "status"@,
        "canonicalComponent"@ != "subject"@,
        "canonicalComponent"@ != "subjectName"@,
        "canonicalComponent"@ != "subjectType"@,
        "canonicalComponent"@ != "subjectVersion"@,
        "canonicalComponent"@ != "zone"@,
        "id"@ != "kind"@,
        "id"@ != "source"@,
        "id"@ != "sourceRef"@,
        "id"@ != "sourceRepository"@,
        "id"@ != "sourceSha"@,
        "id"@ != "status"@,
        "id"@ != "subject"@,
        "id"@ != "subjectName"@,
        "id"@ != "subjectType"@,
        "id"@ != "subjectVersion"@,
        "id"@ != "zone"@,
        "kind"@ != "source"@,
        "kind"@ != "sourceRef"@,
        "kind"@ != "sourceRepository"@,
        "kind"@ != "sourceSha"@,
        "kind"@ != "status"@,
        "kind"@ != "subject"@,
        "kind"@ != "subjectName"@,
        "kind"@ != "subjectType"@,
        "kind"@ != "subjectVersion"@,
        "kind"@ != "zone"@,
        "source"@ != "sourceRef"@,
        "source"@ != "sourceRepository"@,
        "source"@ != "sourceSha"@,
        "source"@ != "status"@,
        "source"@ != "subject"@,
        "source"@ != "subjectName"@,
        "source"@ != "subjectType"@,
        "source"@ != "subjectVersion"@,
        "source"@ != "zone"@,
        "sourceRef"@ != "sourceRepository"@,
        "sourceRef"@ != "sourceSha"@,
        "sourceRef"@ != "status"@,
        "sourceRef"@ != "subject"@,
        "sourceRef"@ != "subjectName"@,
        "sourceRef"@ != "subjectType"@,
        "sourceRef"@ != "subjectVersion"@,
        "sourceRef"@ != "zone"@,
        "sourceRepository"@ != "sourceSha"@,
        "sourceRepository"@ != "status"@,
        "sourceRepository"@ != "subject"@,
        "sourceRepository"@ != "subjectName"@,
        "sourceRepository"@ != "subjectType"@,
        "sourceRepository"@ != "subjectVersion"@,
        "sourceRepository"@ != "zone"@,
        "sourceSha"@ != "status"@,
        "sourceSha"@ != "subject"@,
        "sourceSha"@ != "subjectName"@,
        "sourceSha"@ != "subjectType"@,
        "sourceSha"@ != "subjectVersion"@,
        "sourceSha"@ != "zone"@,
        "status"@ != "subject"@,
        "status"@ != "subjectName"@,
        "status"@ != "subjectType"@,
        "status"@ != "subjectVersion"@,
        "status"@ != "zone"@,
        "subject"@ != "subjectName"@,
        "subject"@ != "subjectType"@,
        "subject"@ != "subjectVersion"@,
        "subject"@ != "zone"@,
        "subjectName"@ != "subjectType"@,
        "subjectName"@ != "subjectVersion"@,
        "subjectName"@ != "zone"@,
        "subjectType"@ != "subjectVersion"@,
        "subjectType"@ != "zone"@,
        "subjectVersion"@ != "zone"@,
{
    reveal_strlit("canonicalComponent");
    reveal_strlit("id");
    reveal_strlit("kind");
    reveal_strlit("source");
    reveal_strlit("sourceRef");
    reveal_strlit("sourceRepository");
    reveal_strlit("sourceSha");
    reveal_strlit("status");
    reveal_strlit("subject");
    reveal_strlit("subjectName");
    reveal_strlit("subjectType");
    reveal_strlit("subjectVersion");
    reveal_strlit("zone");
    assert("canonicalComponent"@.len() != "id"@.len());
    assert("canonicalComponent"@.len() != "kind"@.len());
    assert("canonicalComponent"@.len() != "source"@.len());
    assert("canonicalComponent"@.len() != "sourceRef"@.len());
    assert("canonicalComponent"@.len() != "sourceRepository"@.len());
    assert("canonicalComponent"@.len() != "sourceSha"@.len());
    assert("canonicalComponent"@.len() != "status"@.len());
    assert("canonicalComponent"@.len() != "subject"@.len());
    assert("canonicalComponent"@.len() != "subjectName"@.len());
    assert("canonicalComponent"@.len() != "subjectType"@.len());
    assert("canonicalComponent"@.len() != "subjectVersion"@.len());
    assert("canonicalComponent"@.len() != "zone"@.len());
    assert("id"@.len() != "kind"@.len());
    assert("id"@.len() != "source"@.len());
    assert("id"@.len() != "sourceRef"@.len());
    assert("id"@.len() != "sourceRepository"@.len());
    assert("id"@.len() != "sourceSha"@.len());
    assert("id"@.len() != "status"@.len());
    assert("id"@.len() != "subject"@.len());
    assert("id"@.len() != "subjectName"@.len());
    assert("id"@.len() != "subjectType"@.len());
    assert("id"@.len() != "subjectVersion"@.len());
    assert("id"@.len() != "zone"@.len());
    assert("kind"@.len() != "source"@.len());
    assert("kind"@.len() != "sourceRef"@.len());
    assert("kind"@.len() != "sourceRepository"@.len());
    assert("kind"@.len() != "sourceSha"@.len());
    assert("kind"@.len() != "status"@.len());
    assert("kind"@.len() != "subject"@.len());
    assert("kind"@.len() != "subjectName"@.len());
    assert("kind"@.len() != "subjectType"@.len());
    assert("kind"@.len() != "subjectVersion"@.len());
    assert("kind"@[0] != "zone"@[0]);
    assert("source"@.len() != "sourceRef"@.len());
    assert("source"@.len() != "sourceRepository"@.len());
    assert("source"@.len() != "sourceSha"@.len());
    assert("source"@[1] != "status"@[1]);
    assert("source"@.len() != "subject"@.len());
    assert("source"@.len() != "subjectName"@.len());
    assert("source"@.len() != "subjectType"@.len());
    assert("source"@.len() != "subjectVersion"@.len());
    assert("source"@.len() != "zone"@.len());
    assert("sourceRef"@.len() != "sourceRepository"@.len());
    assert("sourceRef"@[6] != "sourceSha"@[6]);
    assert("sourceRef"@.len() != "status"@.len());
    assert("sourceRef"@.len() != "subject"@.len());
    assert("sourceRef"@.len() != "subjectName"@.len());
    assert("sourceRef"@.len() != "subjectType"@.len());
    assert("sourceRef"@.len() != "subjectVersion"@.len());
    assert("sourceRef"@.len() != "zone"@.len());
    assert("sourceRepository"@.len() != "sourceSha"@.len());
    assert("sourceRepository"@.len() != "status"@.len());
    assert("sourceRepository"@.len() != "subject"@.len());
    assert("sourceRepository"@.len() != "subjectName"@.len());
    assert("sourceRepository"@.len() != "subjectType"@.len());
    assert("sourceRepository"@.len() != "subjectVersion"@.len());
    assert("sourceRepository"@.len() != "zone"@.len());
    assert("sourceSha"@.len() != "status"@.len());
    assert("sourceSha"@.len() != "subject"@.len());
    assert("sourceSha"@.len() != "subjectName"@.len());
    assert("sourceSha"@.len() != "subjectType"@.len());
    assert("sourceSha"@.len() != "subjectVersion"@.len());
    assert("sourceSha"@.len() != "zone"@.len());
    assert("status"@.len() != "subject"@.len());
    assert("status"@.len() != "subjectName"@.len());
    assert("status"@.len() != "subjectType"@.len());
    assert("status"@.len() != "subjectVersion"@.len());
    assert("status"@.len() != "zone"@.len());
    assert("subject"@.len() != "subjectName"@.len());
    assert("subject"@.len() != "subjectType"@.len());
    assert("subject"@.len() != "subjectVersion"@.len());
    assert("subject"@.len() != "zone"@.len());
    assert("subjectName"@[7] != "subjectType"@[7]);
    assert("subjectName"@.len() != "subjectVersion"@.len());
    assert("subjectName"@.len() != "zone"@.len());
    assert("subjectType"@.len() != "subjectVersion"@.len());
    assert("subjectType"@.len() != "zone"@.len());
    assert("subjectVersion"@.len() != "zone"@.len());
}

proof fn lemma_added_members_one()
    ensures
        "canonicalComponent"@ != "members"@,
        "canonicalComponent"@ != "provides"@,
        "canonicalComponent"@ != "requires"@,
        "id"@ != "members"@,
        "id"@ != "provides"@,
        "id"@ != "requires"@,
        "kind"@ != "members"@,
        "kind"@ != "provides"@,
        "kind"@ != "requires"@,
        "members"@ != "source"@,
        "members"@ != "sourceRef"@,
        "members"@ != "sourceRepository"@,
        "members"@ != "sourceSha"@,
        "members"@ != "status"@,
        "members"@ != "subject"@,
        "members"@ != "subjectName"@,
        "members"@ != "subjectType"@,
        "members"@ != "subjectVersion"@,
        "members"@ != "zone"@,
        "provides"@ != "source"@,
        "provides"@ != "sourceRef"@,
        "provides"@ != "sourceRepository"@,
        "provides"@ != "sourceSha"@,
        "provides"@ != "status"@,
        "provides"@ != "subject"@,
        "provides"@ != "subjectName"@,
        "provides"@ != "subjectType"@,
        "provides"@ != "subjectVersion"@,
        "provides"@ != "zone"@,
        "requires"@ != "source"@,
        "requires"@ != "sourceRef"@,
        "requires"@ != "sourceRepository"@,
        "requires"@ != "sourceSha"@,
        "requires"@ != "status"@,
        "requires"@ != "subject"@,
        "requires"@ != "subjectName"@,
        "requires"@ != "subjectType"@,
        "requires"@ != "subjectVersion"@,
        "requires"@ != "zone"@,
{
    reveal_strlit("canonicalComponent");
    reveal_strlit("id");
    reveal_strlit("kind");
    reveal_strlit("members");
    reveal_strlit("provides");
    reveal_strlit("requires");
    reveal_strlit("source");
    reveal_strlit("sourceRef");
    reveal_strlit("sourceRepository");
    reveal_strlit("sourceSha");
    reveal_strlit("status");
    reveal_strlit("subject");
    reveal_strlit("subjectName");
    reveal_strlit("subjectType");
    reveal_strlit("subjectVersion");
    reveal_strlit("zone");
    assert("canonicalComponent"@.len() != "members"@.len());
    assert("canonicalComponent"@.len() != "provides"@.len());
    assert("canonicalComponent"@.len() != "requires"@.len());
    assert("id"@.len() != "members"@.len());
    assert("id"@.len() != "provides"@.len());
    assert("id"@.len() != "requires"@.len());
    assert("kind"@.len() != "members"@.len());
    assert("kind"@.len() != "provides"@.len());
    assert("kind"@.len() != "requires"@.len());
    assert("members"@.len() != "source"@.len());
    assert("members"@.len() != "sourceRef"@.len());
    assert("members"@.len() != "sourceRepository"@.len());
    assert("members"@.len() != "sourceSha"@.len());
    assert("members"@.len() != "status"@.len());
    assert("members"@[0] != "subject"@[0]);
    assert("members"@.len() != "subjectName"@.len());
    assert("members"@.len() != "subjectType"@.len());
    assert("members"@.len() != "subjectVersion"@.len());
    assert("members"@.len() != "zone"@.len());
    assert("provides"@.len() != "source"@.len());
    assert("provides"@.len() != "sourceRef"@.len());
    assert("provides"@.len() != "sourceRepository"@.len());
    assert("provides"@.len() != "sourceSha"@.len());
    assert("provides"@.len() != "status"@.len());
    assert("provides"@.len() != "subject"@.len());
    assert("provides"@.len() != "subjectName"@.len());
    assert("provides"@.len() != "subjectType"@.len());
    assert("provides"@.len() != "subjectVersion"@.len());
    assert("provides"@.len() != "zone"@.len());
    assert("requires"@.len() != "source"@.len());
    assert("requires"@.len() != "sourceRef"@.len());
    assert("requires"@.len() != "sourceRepository"@.len());
    assert("requires"@.len() != "sourceSha"@.len());
    assert("requires"@.len() != "status"@.len());
    assert("requires"@.len() != "subject"@.len());
    assert("requires"@.len() != "subjectName"@.len());
    assert("requires"@.len() != "subjectType"@.len());
    assert("requires"@.len() != "subjectVersion"@.len());
    assert("requires"@.len() != "zone"@.len());
}

proof fn lemma_added_members_two()
    ensures
        "canonicalComponent"@ != "metrics"@,
        "canonicalComponent"@ != "package"@,
        "canonicalComponent"@ != "result"@,
        "id"@ != "metrics"@,
        "id"@ != "package"@,
        "id"@ != "result"@,
        "kind"@ != "metrics"@,
        "kind"@ != "package"@,
        "kind"@ != "result"@,
        "metrics"@ != "source"@,
        "metrics"@ != "sourceRef"@,
        "metrics"@ != "sourceRepository"@,
        "metrics"@ != "sourceSha"@,
        "metrics"@ != "status"@,
        "metrics"@ != "subject"@,
        "metrics"@ != "subjectName"@,
        "metrics"@ != "subjectType"@,
        "metrics"@ != "subjectVersion"@,
        "metrics"@ != "zone"@,
        "package"@ != "source"@,
        "package"@ != "sourceRef"@,
        "package"@ != "sourceRepository"@,
        "package"@ != "sourceSha"@,
        "package"@ != "status"@,
        "package"@ != "subject"@,
        "package"@ != "subjectName"@,
        "package"@ != "subjectType"@,
        "package"@ != "subjectVersion"@,
        "package"@ != "zone"@,
        "result"@ != "source"@,
        "result"@ != "sourceRef"@,
        "result"@ != "sourceRepository"@,
        "result"@ != "sourceSha"@,
        "result"@ != "status"@,
        "result"@ != "subject"@,
        "result"@ != "subjectName"@,
        "result"@ != "subjectType"@,
        "result"@ != "subjectVersion"@,
        "result"@ != "zone"@,
{
    reveal_strlit("canonicalComponent");
    reveal_strlit("id");
    reveal_strlit("kind");
    reveal_strlit("metrics");
    reveal_strlit("package");
    reveal_strlit("result");
    reveal_strlit("source");
    reveal_strlit("sourceRef");
    reveal_strlit("sourceRepository");
    reveal_strlit("sourceSha");
    reveal_strlit("status");
    reveal_strlit("subject");
    reveal_strlit("subjectName");
    reveal_strlit("subjectType");
    reveal_strlit("subjectVersion");
    reveal_strlit("zone");
    assert("canonicalComponent"@.len() != "metrics"@.len());
    assert("canonicalComponent"@.len() != "package"@.len());
    assert("canonicalComponent"@.len() != "result"@.len());
    assert("id"@.len() != "metrics"@.len());
    assert("id"@.len() != "package"@.len());
    assert("id"@.len() != "result"@.len());
    assert("kind"@.len() != "metrics"@.len());
    assert("kind"@.len() != "package"@.len());
    assert("kind"@.len() != "result"@.len());
    assert("metrics"@.len() != "source"@.len());
    assert("metrics"@.len() != "sourceRef"@.len());
    assert("metrics"@.len() != "sourceRepository"@.len());
    assert("metrics"@.len() != "sourceSha"@.len());
    assert("metrics"@.len() != "status"@.len());
    assert("metrics"@[0] != "subject"@[0]);
    assert("metrics"@.len() != "subjectName"@.len());
    assert("metrics"@.len() != "subjectType"@.len());
    assert("metrics"@.len() != "subjectVersion"@.len());
    assert("metrics"@.len() != "zone"@.len());
    assert("package"@.len() != "source"@.len());
    assert("package"@.len() != "sourceRef"@.len());
    assert("package"@.len() != "sourceRepository"@.len());
    assert("package"@.len() != "sourceSha"@.len());
    assert("package"@.len() != "status"@.len());
    assert("package"@[0] != "subject"@[0]);
    assert("package"@.len() != "subjectName"@.len());
    assert("package"@.len() != "subjectType"@.len());
    assert("package"@.len() != "subjectVersion"@.len());
    assert("package"@.len() != "zone"@.len());
    assert("result"@[0] != "source"@[0]);
    assert("result"@.len() != "sourceRef"@.len());
    assert("result"@.len() != "sourceRepository"@.len());
    assert("result"@.len() != "sourceSha"@.len());
    assert("result"@[0] != "status"@[0]);
    assert("result"@.len() != "subject"@.len());
    assert("result"@.len() != "subjectName"@.len());
    assert("result"@.len() != "subjectType"@.len());
    assert("result"@.len() != "subjectVersion"@.len());
    assert("result"@.len() != "zone"@.len());
}

proof fn lemma_among_added()
    ensures
        mark("members"@) == 9811510907,
        mark("metrics"@) == 11411510907,
        mark("package"@) == 10710111207,
        mark("provides"@) == 10511511208,
        mark("requires"@) == 10511511408,
        mark("result"@) == 11711611406,
{
    reveal_strlit("members");
    reveal_strlit("metrics");
    reveal_strlit("package");
    reveal_strlit("provides");
    reveal_strlit("requires");
    reveal_strlit("result");
}

proof fn lemma_subject_members()
    ensures
        mark("canonicalComponent"@) == 6711609918,
        mark("name"@) == 10910111004,
        mark("repo"@) == 11211111404,
        mark("type"@) == 11210111604,
        mark("version"@) == 11511011807,
{
    reveal_strlit("canonicalComponent");
    reveal_strlit("name");
    reveal_strlit("repo");
    reveal_strlit("type");
    reveal_strlit("version");
}

proof fn lemma_origin_members()
    ensures
        "adapter"@ != "ref"@,
        "adapter"@ != "repo"@,
        "adapter"@ != "sha"@,
        "ref"@ != "repo"@,
        "ref"@ != "sha"@,
        "repo"@ != "sha"@,
{
    reveal_strlit("adapter");
    reveal_strlit("ref");
    reveal_strlit("repo");
    reveal_strlit("sha");
    assert("adapter"@.len() != "ref"@.len());
    assert("adapter"@.len() != "repo"@.len());
    assert("adapter"@.len() != "sha"@.len());
    assert("ref"@.len() != "repo"@.len());
    assert("ref"@[0] != "sha"@[0]);
    assert("repo"@.len() != "sha"@.len());
}

proof fn lemma_case_members()
    ensures
        "className"@ != "component"@,
        "className"@ != "status"@,
        "className"@ != "time"@,
        "component"@ != "status"@,
        "component"@ != "time"@,
        "status"@ != "time"@,
{
    reveal_strlit("className");
    reveal_strlit("component");
    reveal_strlit("status");
    reveal_strlit("time");
    assert("className"@[1] != "component"@[1]);
    assert("className"@.len() != "status"@.len());
    assert("className"@.len() != "time"@.len());
    assert("component"@.len() != "status"@.len());
    assert("component"@.len() != "time"@.len());
    assert("status"@.len() != "time"@.len());
}

proof fn lemma_metric_members()
    ensures
        mark("errors"@) == 11111510106,
        mark("failures"@) == 11711510208,
        mark("skipped"@) == 11210011507,
        mark("tests"@) == 11511511605,
        mark("time"@) == 10910111604,
{
    reveal_strlit("errors");
    reveal_strlit("failures");
    reveal_strlit("skipped");
    reveal_strlit("tests");
    reveal_strlit("time");
}

proof fn lemma_provided_members()
    ensures
        mark("capability"@) == 10512109910,
        mark("digest"@) == 10111610006,
        mark("purl"@) == 11410811204,
        mark("service"@) == 11810111507,
        mark("suite"@) == 10510111505,
        mark("version"@) == 11511011807,
{
    reveal_strlit("capability");
    reveal_strlit("digest");
    reveal_strlit("purl");
    reveal_strlit("service");
    reveal_strlit("suite");
    reveal_strlit("version");
}

proof fn lemma_k6_members()
    ensures
        mark("component"@) == 11111609909,
        mark("rate"@) == 11610111404,
        mark("status"@) == 11611511506,
        mark("thresholds"@) == 10411511610,
        mark("value"@) == 10810111805,
{
    reveal_strlit("component");
    reveal_strlit("rate");
    reveal_strlit("status");
    reveal_strlit("thresholds");
    reveal_strlit("value");
}

proof fn lemma_component_members()
    ensures
        mark("bomRef"@) == 8210209806,
        mark("component"@) == 11111609909,
        mark("digest"@) == 10111610006,
        mark("purl"@) == 11410811204,
        mark("type"@) == 11210111604,
        mark("version"@) == 11511011807,
{
    reveal_strlit("bomRef");
    reveal_strlit("component");
    reveal_strlit("digest");
    reveal_strlit("purl");
    reveal_strlit("type");
    reveal_strlit("version");
}

// ---------------------------------------------------------------------------
// What every fact says
// ---------------------------------------------------------------------------
/// A text that is told: one that is not blank.
pub open spec fn told(text: Option<Seq<char>>) -> Option<Seq<char>> {
    match text {
        Some(s) => if trim(s).len() > 0 {
            Some(s)
        } else {
            None
        },
        None => None,
    }
}

/// Whether a fact tells its id, how its subject did, what the subject is, and where the
/// evidence comes from.
pub open spec fn tells(
    fact: JsonV,
    source: SourceV,
    id: Seq<char>,
    subject_type: Seq<char>,
    name: Seq<char>,
    version: Option<Seq<char>>,
    status: Seq<char>,
) -> bool {
    let subject = fact.get("subject"@)->Some_0;
    let origin = fact.get("source"@)->Some_0;
    &&& fact is Object
    &&& fact.text_at("id"@) == Some(id)
    &&& fact.text_at("zone"@) == Some(source.zone)
    &&& fact.text_at("kind"@) == Some("evidence"@)
    &&& fact.text_at("status"@) == Some(status)
    &&& fact.text_at("subjectType"@) == Some(subject_type)
    &&& fact.text_at("subjectName"@) == Some(name)
    &&& fact.text_at("canonicalComponent"@) == Some(source.component)
    &&& fact.get("subject"@) is Some
    &&& subject.text_at("type"@) == Some(subject_type)
    &&& subject.text_at("name"@) == Some(name)
    &&& subject.text_at("canonicalComponent"@) == Some(source.component)
    &&& version is Some ==> subject.text_at("version"@) == version
    &&& source.repo is Some ==> subject.text_at("repo"@) == source.repo
    &&& fact.get("source"@) is Some
    &&& origin.text_at("adapter"@) == Some(source.adapter)
    &&& source.repo is Some ==> origin.text_at("repo"@) == source.repo
    &&& source.sha is Some ==> origin.text_at("sha"@) == source.sha
    &&& source.reference is Some ==> origin.text_at("ref"@) == source.reference
    &&& fact.text_at("subjectVersion"@) == told(version)
    &&& fact.text_at("sourceRepository"@) == told(source.repo)
    &&& fact.text_at("sourceSha"@) == told(source.sha)
    &&& fact.text_at("sourceRef"@) == told(source.reference)
}

proof fn lemma_subject(source: SourceV, kind: Seq<char>, name: Seq<char>, version: Option<Seq<char>>)
    ensures
        ({
            let subject = strip_nulls(
                JsonV::empty_object().with("type"@, JsonV::Text(kind)).with(
                    "name"@,
                    JsonV::Text(name),
                ).with("version"@, JsonV::opt_text(version)).with(
                    "canonicalComponent"@,
                    JsonV::Text(source.component),
                ).with("repo"@, JsonV::opt_text(source.repo)),
            );
            &&& subject.text_at("type"@) == Some(kind)
            &&& subject.text_at("name"@) == Some(name)
            &&& subject.text_at("canonicalComponent"@) == Some(source.component)
            &&& version is Some ==> subject.text_at("version"@) == version
            &&& source.repo is Some ==> subject.text_at("repo"@) == source.repo
        }),
{
    broadcast use {lemma_get_with, lemma_with_is_object};

    lemma_subject_members();
    let v = JsonV::empty_object().with("type"@, JsonV::Text(kind)).with(
        "name"@,
        JsonV::Text(name),
    ).with("version"@, JsonV::opt_text(version)).with(
        "canonicalComponent"@,
        JsonV::Text(source.component),
    ).with("repo"@, JsonV::opt_text(source.repo));
    lemma_strip_keeps_text(v, "type"@, kind);
    lemma_strip_keeps_text(v, "name"@, name);
    lemma_strip_keeps_text(v, "canonicalComponent"@, source.component);
    if version is Some {
        lemma_strip_keeps_text(v, "version"@, version->Some_0);
    }
    if source.repo is Some {
        lemma_strip_keeps_text(v, "repo"@, source.repo->Some_0);
    }
}

proof fn lemma_origin(source: SourceV)
    ensures
        ({
            let origin = strip_nulls(
                JsonV::empty_object().with("adapter"@, JsonV::Text(source.adapter)).with(
                    "repo"@,
                    JsonV::opt_text(source.repo),
                ).with("sha"@, JsonV::opt_text(source.sha)).with(
                    "ref"@,
                    JsonV::opt_text(source.reference),
                ),
            );
            &&& origin.text_at("adapter"@) == Some(source.adapter)
            &&& source.repo is Some ==> origin.text_at("repo"@) == source.repo
            &&& source.sha is Some ==> origin.text_at("sha"@) == source.sha
            &&& source.reference is Some ==> origin.text_at("ref"@) == source.reference
        }),
{
    broadcast use {lemma_get_with, lemma_with_is_object};

    lemma_origin_members();
    let v = JsonV::empty_object().with("adapter"@, JsonV::Text(source.adapter)).with(
        "repo"@,
        JsonV::opt_text(source.repo),
    ).with("sha"@, JsonV::opt_text(source.sha)).with("ref"@, JsonV::opt_text(source.reference));
    lemma_strip_keeps_text(v, "adapter"@, source.adapter);
    if source.repo is Some {
        lemma_strip_keeps_text(v, "repo"@, source.repo->Some_0);
    }
    if source.sha is Some {
        lemma_strip_keeps_text(v, "sha"@, source.sha->Some_0);
    }
    if source.reference is Some {
        lemma_strip_keeps_text(v, "ref"@, source.reference->Some_0);
    }
}

/// A fact starts with what it is about, whatever its adapter adds.
pub proof fn law_fact_tells_its_subject(
    source: SourceV,
    id: Seq<char>,
    subject_type: Seq<char>,
    name: Seq<char>,
    version: Option<Seq<char>>,
    status: Seq<char>,
)
    ensures
        tells(
            base(source, id, subject_type, name, version, status),
            source,
            id,
            subject_type,
            name,
            version,
            status,
        ),
        base(source, id, subject_type, name, version, status).get("provides"@) is None,
        base(source, id, subject_type, name, version, status).get("members"@) is None,
        base(source, id, subject_type, name, version, status).get("requires"@) is None,
        base(source, id, subject_type, name, version, status).get("result"@) is None,
        base(source, id, subject_type, name, version, status).get("package"@) is None,
        base(source, id, subject_type, name, version, status).get("metrics"@) is None,
{
    broadcast use {lemma_get_with, lemma_with_is_object};

    lemma_fact_members();
    lemma_added_members_one();
    lemma_added_members_two();
    lemma_subject(source, subject_type, name, version);
    lemma_origin(source);
}

/// Whether a key is none that every fact has.
pub open spec fn is_added(key: Seq<char>) -> bool {
    ||| key == "provides"@
    ||| key == "members"@
    ||| key == "requires"@
    ||| key == "result"@
    ||| key == "package"@
    ||| key == "metrics"@
}

proof fn lemma_with_tells(
    v: JsonV,
    key: Seq<char>,
    value: JsonV,
    source: SourceV,
    id: Seq<char>,
    subject_type: Seq<char>,
    name: Seq<char>,
    version: Option<Seq<char>>,
    status: Seq<char>,
)
    requires
        is_added(key),
        tells(v, source, id, subject_type, name, version, status),
    ensures
        tells(v.with(key, value), source, id, subject_type, name, version, status),
{
    broadcast use {lemma_get_with, lemma_with_is_object};

    lemma_added_members_one();
    lemma_added_members_two();
}

// ---------------------------------------------------------------------------
// JUnit
// ---------------------------------------------------------------------------
/// Whether a value shows a test case.
pub open spec fn shows_case(v: JsonV, case: CaseV) -> bool {
    &&& v.text_at("component"@) == Some(case.name)
    &&& v.text_at("status"@) == Some(case.status)
    &&& v.text_at("className"@) == case.classname
    &&& v.text_at("time"@) == case.time
}

proof fn lemma_case_shown(case: CaseV)
    ensures
        shows_case(case_json(case), case),
{
    broadcast use {lemma_get_with, lemma_with_is_object};

    lemma_case_members();
}

/// The fact of a JUnit suite says that it passed exactly where the suite counts no failure
/// and no error, and failed otherwise. It counts what the suite counts, and has the suite's
/// cases as its members, each with its own verdict.
pub proof fn law_junit_suite_passes_without_failures(suite: SuiteV, source: SourceV)
    ensures
        ({
            let fact = suite_fact(suite, source);
            let name = if suite.name.len() == 0 {
                source.component
            } else {
                suite.name
            };
            let metrics = fact.get("metrics"@)->Some_0;
            let members = fact.items_at("members"@);
            let provided = fact.items_at("provides"@);
            &&& suite.failures == 0 && suite.errors == 0 ==> fact.text_at("status"@) == Some(
                "passed"@,
            )
            &&& suite.failures > 0 || suite.errors > 0 ==> fact.text_at("status"@) == Some(
                "failed"@,
            )
            &&& tells(
                fact,
                source,
                "junit."@ + slug_text(source.component) + "."@ + slug_text(name) + version_suffix(
                    source.version,
                ),
                "junit-suite"@,
                name,
                source.version,
                fact.text_at("status"@)->Some_0,
            )
            &&& fact.get("metrics"@) is Some
            &&& metrics.get("tests"@) == Some(JsonV::Number(decimal(suite.tests)))
            &&& metrics.get("failures"@) == Some(JsonV::Number(decimal(suite.failures)))
            &&& metrics.get("errors"@) == Some(JsonV::Number(decimal(suite.errors)))
            &&& metrics.get("skipped"@) == Some(JsonV::Number(decimal(suite.skipped)))
            &&& metrics.text_at("time"@) == suite.time
            &&& members.len() == suite.cases.len()
            &&& forall|i: int|
                0 <= i < members.len() ==> shows_case(#[trigger] members[i], suite.cases[i])
            &&& provided.len() == 1
            &&& provided[0].text_at("capability"@) == Some("test:junit"@)
            &&& provided[0].text_at("version"@) == source.version
            &&& provided[0].text_at("suite"@) == Some(suite.name)
        }),
{
    broadcast use {lemma_get_with, lemma_with_is_object};

    lemma_among_added();
    lemma_metric_members();
    lemma_provided_members();
    let name = if suite.name.len() == 0 {
        source.component
    } else {
        suite.name
    };
    let id = "junit."@ + slug_text(source.component) + "."@ + slug_text(name) + version_suffix(
        source.version,
    );
    let status = if suite.failures + suite.errors > 0 {
        "failed"@
    } else {
        "passed"@
    };
    let kind = "junit-suite"@;
    let version = source.version;
    let fact = base(source, id, kind, name, version, status);
    law_fact_tells_its_subject(source, id, kind, name, version, status);
    let provided = seq![
        JsonV::empty_object().with("capability"@, JsonV::Text("test:junit"@)).with(
            "version"@,
            JsonV::opt_text(version),
        ).with("suite"@, JsonV::Text(suite.name)),
    ];
    let cases = suite.cases.map_values(|c: CaseV| case_json(c));
    let metrics = JsonV::empty_object().with("tests"@, JsonV::number(suite.tests)).with(
        "failures"@,
        JsonV::number(suite.failures),
    ).with("errors"@, JsonV::number(suite.errors)).with(
        "skipped"@,
        JsonV::number(suite.skipped),
    ).with("time"@, JsonV::opt_text(suite.time));
    let one = fact.with("provides"@, JsonV::Array(provided));
    lemma_with_tells(fact, "provides"@, JsonV::Array(provided), source, id, kind, name, version, status);
    let two = with_list(one, "members"@, cases);
    lemma_with_tells(one, "members"@, JsonV::Array(cases), source, id, kind, name, version, status);
    lemma_with_tells(two, "metrics"@, metrics, source, id, kind, name, version, status);
    assert(suite_fact(suite, source) == two.with("metrics"@, metrics));
    let members = suite_fact(suite, source).items_at("members"@);
    assert(members =~= cases);
    assert forall|i: int| 0 <= i < members.len() implies shows_case(
        #[trigger] members[i],
        suite.cases[i],
    ) by {
        lemma_case_shown(suite.cases[i]);
    }
}

/// Every suite of a report becomes a fact, in the order of the report; a report without one
/// is refused.
pub proof fn law_junit_suites_become_facts(suites: Seq<SuiteV>, source: SourceV)
    ensures
        suites.len() == 0 ==> suite_facts(suites, source) is Err,
        suites.len() > 0 ==> suite_facts(suites, source) is Ok && suite_facts(
            suites,
            source,
        )->Ok_0.len() == suites.len() && forall|i: int|
            0 <= i < suites.len() ==> #[trigger] suite_facts(suites, source)->Ok_0[i] == suite_fact(
                suites[i],
                source,
            ),
{
}

proof fn lemma_attribute(a: Seq<AttributeV>, key: Seq<char>, i: int, n: int)
    requires
        0 <= i < n <= a.len(),
        a[i].key == key,
        forall|j: int| i < j < n ==> (#[trigger] a[j]).key != key,
    ensures
        attribute(a, key, n) == Some(a[i].value),
    decreases n,
{
    if i < n - 1 {
        lemma_attribute(a, key, i, n - 1);
    }
}

proof fn lemma_no_attribute(a: Seq<AttributeV>, key: Seq<char>, n: int)
    requires
        0 <= n <= a.len(),
        forall|j: int| 0 <= j < n ==> (#[trigger] a[j]).key != key,
    ensures
        attribute(a, key, n) is None,
    decreases n,
{
    if n > 0 {
        lemma_no_attribute(a, key, n - 1);
    }
}

/// Whether the attribute at an index is the last with a key.
pub open spec fn last_with(a: Seq<AttributeV>, key: Seq<char>, i: int) -> bool {
    0 <= i < a.len() && a[i].key == key && forall|j: int|
        i < j < a.len() ==> (#[trigger] a[j]).key != key
}

/// A suite counts what its attributes say, each read as a number, and zero where one is not
/// there or no number; it starts without cases.
pub proof fn law_junit_suite_counts_attributes(a: Seq<AttributeV>, key: Seq<char>, i: int)
    ensures
        ({
            let suite = suite_of(a);
            let number = match parse_unsigned(a[i].value, u64::MAX as int) {
                Some(n) => n,
                None => 0,
            };
            let none = forall|j: int| 0 <= j < a.len() ==> (#[trigger] a[j]).key != key;
            &&& last_with(a, key, i) && key == "tests"@ ==> suite.tests == number
            &&& last_with(a, key, i) && key == "failures"@ ==> suite.failures == number
            &&& last_with(a, key, i) && key == "errors"@ ==> suite.errors == number
            &&& last_with(a, key, i) && key == "skipped"@ ==> suite.skipped == number
            &&& last_with(a, key, i) && key == "name"@ ==> suite.name == a[i].value
            &&& none && key == "tests"@ ==> suite.tests == 0
            &&& none && key == "failures"@ ==> suite.failures == 0
            &&& none && key == "errors"@ ==> suite.errors == 0
            &&& none && key == "skipped"@ ==> suite.skipped == 0
            &&& none && key == "name"@ ==> suite.name.len() == 0
            &&& suite.cases.len() == 0
        }),
{
    if last_with(a, key, i) {
        lemma_attribute(a, key, i, a.len() as int);
    }
    if forall|j: int| 0 <= j < a.len() ==> (#[trigger] a[j]).key != key {
        lemma_no_attribute(a, key, a.len() as int);
    }
}

/// A case passed unless a verdict stands in it: a failure or an error makes it failed, and
/// a skip skipped. It belongs to the suite that is open when it ends, and a suite to the
/// report when it ends.
pub proof fn law_junit_verdicts(state: JunitV, tag: TagV, a: Seq<AttributeV>)
    requires
        tag.attributes == Ok::<Seq<AttributeV>, Seq<char>>(a),
    ensures
        tag.name == "testcase"@ ==> ({
            let r = junit_step(state, XmlEventV::Start(tag));
            r is Ok && r->Ok_0.case is Some && r->Ok_0.case->Some_0.status == "passed"@
                && r->Ok_0.suite == state.suite && r->Ok_0.suites == state.suites
        }),
        (tag.name == "failure"@ || tag.name == "error"@) && state.case is Some ==> junit_step(
            state,
            XmlEventV::Start(tag),
        ) == junit_step(state, XmlEventV::Empty(tag)) && junit_step(
            state,
            XmlEventV::Start(tag),
        ) is Ok && junit_step(state, XmlEventV::Start(tag))->Ok_0.case == Some(
            CaseV { status: "failed"@, ..state.case->Some_0 },
        ),
        tag.name == "skipped"@ && state.case is Some ==> junit_step(state, XmlEventV::Start(tag))
            == junit_step(state, XmlEventV::Empty(tag)) && junit_step(
            state,
            XmlEventV::Start(tag),
        ) is Ok && junit_step(state, XmlEventV::Start(tag))->Ok_0.case == Some(
            CaseV { status: "skipped"@, ..state.case->Some_0 },
        ),
        state.suite is Some && state.case is Some ==> junit_step(
            state,
            XmlEventV::End("testcase"@),
        ) == Ok::<JunitV, Seq<char>>(
            JunitV {
                suites: state.suites,
                suite: Some(
                    SuiteV {
                        cases: state.suite->Some_0.cases.push(state.case->Some_0),
                        ..state.suite->Some_0
                    },
                ),
                case: None,
            },
        ),
        state.suite is Some ==> junit_step(state, XmlEventV::End("testsuite"@)) == Ok::<
            JunitV,
            Seq<char>,
        >(
            JunitV {
                suites: state.suites.push(state.suite->Some_0),
                suite: None,
                case: state.case,
            },
        ),
{
    reveal_strlit("testsuite");
    reveal_strlit("testcase");
    reveal_strlit("failure");
    reveal_strlit("error");
    reveal_strlit("skipped");
    assert("testsuite"@.len() == 9 && "testcase"@.len() == 8 && "failure"@.len() == 7
        && "error"@.len() == 5 && "skipped"@.len() == 7);
    assert("failure"@[0] != "skipped"@[0]);
}

// ---------------------------------------------------------------------------
// Test runs
// ---------------------------------------------------------------------------
/// The text of a member without space around it, if any is left.
pub open spec fn word_at(v: JsonV, key: Seq<char>) -> Option<Seq<char>> {
    match v.text_at(key) {
        Some(s) => if trim(s).len() > 0 {
            Some(trim(s))
        } else {
            None
        },
        None => None,
    }
}

/// The word that a run ends with: its status, else its result, else its outcome.
pub open spec fn last_word(v: JsonV) -> Option<Seq<char>> {
    if word_at(v, "status"@) is Some {
        word_at(v, "status"@)
    } else if word_at(v, "result"@) is Some {
        word_at(v, "result"@)
    } else {
        word_at(v, "outcome"@)
    }
}

pub open spec fn good_word(w: Option<Seq<char>>) -> bool {
    w is Some && {
        let s = lower(w->Some_0);
        s == "pass"@ || s == "passed"@ || s == "success"@ || s == "ok"@
    }
}

pub open spec fn bad_word(w: Option<Seq<char>>) -> bool {
    w is Some && {
        let s = lower(w->Some_0);
        s == "fail"@ || s == "failed"@ || s == "failure"@ || s == "error"@ || s == "errored"@
    }
}

/// The code that a run ended with.
pub open spec fn exit_code(v: JsonV) -> Option<int> {
    let x = if v.get("retcode"@) is Some {
        v.get("retcode"@)
    } else if v.get("returncode"@) is Some {
        v.get("returncode"@)
    } else {
        v.get("exit_code"@)
    };
    if x is Some {
        x->Some_0.as_i64()
    } else {
        None
    }
}

/// A run passed or failed by the word that it ends with; where that says neither, by
/// whether it says that it succeeded; else by its exit code, of which zero alone is
/// success; and what says nothing was observed.
pub proof fn law_run_is_judged(v: JsonV)
    ensures
        good_word(last_word(v)) ==> run_status(v) == "passed"@,
        bad_word(last_word(v)) ==> run_status(v) == "failed"@,
        !good_word(last_word(v)) && !bad_word(last_word(v)) ==> {
            &&& v.bool_at("success"@) == Some(true) ==> run_status(v) == "passed"@
            &&& v.bool_at("success"@) == Some(false) ==> run_status(v) == "failed"@
            &&& v.bool_at("success"@) is None ==> {
                &&& exit_code(v) == Some(0int) ==> run_status(v) == "passed"@
                &&& exit_code(v) is Some && exit_code(v) != Some(0int) ==> run_status(v)
                    == "failed"@
                &&& exit_code(v) is None ==> run_status(v) == "observed"@
            }
        },
{
    reveal_strlit("pass");
    reveal_strlit("passed");
    reveal_strlit("success");
    reveal_strlit("ok");
    reveal_strlit("fail");
    reveal_strlit("failed");
    reveal_strlit("failure");
    reveal_strlit("error");
    reveal_strlit("errored");
    assert("pass"@[0] != "fail"@[0]);
    assert("passed"@[0] != "failed"@[0]);
    assert("success"@[0] != "failure"@[0] && "success"@[0] != "errored"@[0]);
    assert("ok"@.len() == 2 && "pass"@.len() == 4 && "passed"@.len() == 6 && "success"@.len() == 7);
    assert("fail"@.len() == 4 && "failed"@.len() == 6 && "failure"@.len() == 7 && "error"@.len()
        == 5 && "errored"@.len() == 7);
}

/// The fact of a run tells how it went and what ran, and keeps the evidence.
pub proof fn law_run_fact_tells_run(
    source: SourceV,
    adapter: Seq<char>,
    kind: Seq<char>,
    name: Seq<char>,
    evidence: JsonV,
)
    ensures
        ({
            let fact = run_fact(source, adapter, kind, name, evidence);
            let provided = fact.items_at("provides"@);
            &&& tells(
                fact,
                source,
                adapter + "."@ + slug_text(source.component) + "."@ + slug_text(name),
                kind,
                name,
                source.version,
                run_status(evidence),
            )
            &&& !(evidence is Null) ==> fact.get("result"@) == Some(evidence)
            &&& provided.len() == 1
            &&& provided[0].text_at("capability"@) == Some("test:"@ + adapter)
            &&& provided[0].text_at("version"@) == source.version
        }),
{
    broadcast use {lemma_get_with, lemma_with_is_object};

    lemma_among_added();
    lemma_provided_members();
    let id = adapter + "."@ + slug_text(source.component) + "."@ + slug_text(name);
    let status = run_status(evidence);
    let version = source.version;
    let fact = base(source, id, kind, name, version, status);
    law_fact_tells_its_subject(source, id, kind, name, version, status);
    let provided = seq![
        JsonV::empty_object().with("capability"@, JsonV::Text("test:"@ + adapter)).with(
            "version"@,
            JsonV::opt_text(version),
        ),
    ];
    let one = fact.with("provides"@, JsonV::Array(provided));
    lemma_with_tells(fact, "provides"@, JsonV::Array(provided), source, id, kind, name, version, status);
    lemma_with_tells(one, "result"@, evidence, source, id, kind, name, version, status);
    assert(run_fact(source, adapter, kind, name, evidence) == with_value(one, "result"@, evidence));
}

/// A tox report gives a fact for each of its environments, and one of the whole run where
/// it lists none.
pub proof fn law_tox_environments_become_facts(v: JsonV, source: SourceV)
    ensures
        ({
            let listed = if v.get("testenvs"@) is Some {
                v.get("testenvs"@)
            } else {
                v.get("envs"@)
            };
            let facts = tox_facts(v, source);
            &&& listed is Some && listed->Some_0 is Object && listed->Some_0->Object_0.len() > 0 ==> {
                let envs = listed->Some_0->Object_0;
                &&& facts.len() == envs.len()
                &&& forall|i: int|
                    0 <= i < envs.len() ==> #[trigger] facts[i] == run_fact(
                        source,
                        "tox"@,
                        "tox-env"@,
                        envs[i].key,
                        envs[i].value,
                    )
            }
            &&& !(listed is Some && listed->Some_0 is Object && listed->Some_0->Object_0.len() > 0)
                ==> facts.len() == 1 && facts[0] == run_fact(
                source,
                "tox"@,
                "tox-run"@,
                source.component,
                v,
            )
        }),
{
}

/// A nox report gives a fact for each of its sessions, under its name or its number, and one
/// of the whole run where it lists none.
pub proof fn law_nox_sessions_become_facts(v: JsonV, source: SourceV)
    ensures
        ({
            let listed = if v.get("sessions"@) is Some {
                v.items_at("sessions"@)
            } else {
                v.items_at("results"@)
            };
            let facts = nox_facts(v, source);
            &&& listed.len() > 0 ==> facts.len() == listed.len() && forall|i: int|
                0 <= i < listed.len() ==> #[trigger] facts[i] == run_fact(
                    source,
                    "nox"@,
                    "nox-session"@,
                    if word_at(listed[i], "name"@) is Some {
                        word_at(listed[i], "name"@)->Some_0
                    } else if word_at(listed[i], "session"@) is Some {
                        word_at(listed[i], "session"@)->Some_0
                    } else {
                        "session-"@ + decimal(i as nat)
                    },
                    listed[i],
                )
            &&& listed.len() == 0 ==> facts.len() == 1 && facts[0] == run_fact(
                source,
                "nox"@,
                "nox-run"@,
                source.component,
                v,
            )
        }),
{
}

// ---------------------------------------------------------------------------
// k6 and Microcks
// ---------------------------------------------------------------------------
/// Whether a metric has a threshold that it did not keep.
pub open spec fn threshold_missed(metric: JsonV) -> bool {
    metric.get("thresholds"@) is Some && metric.get("thresholds"@)->Some_0 is Object && exists|i: int|
        0 <= i < metric.get("thresholds"@)->Some_0->Object_0.len() && (
        #[trigger] metric.get("thresholds"@)->Some_0->Object_0[i]).value.bool_at("ok"@) == Some(
            false,
        )
}

/// The metrics of a summary.
pub open spec fn metrics_of(v: JsonV) -> Seq<MemberV> {
    if v.get("metrics"@) is Some && v.get("metrics"@)->Some_0 is Object {
        v.get("metrics"@)->Some_0->Object_0
    } else {
        Seq::empty()
    }
}

/// A load test failed exactly where one of its metrics missed a threshold; each metric is a
/// member with its own verdict.
pub proof fn law_k6_fails_by_thresholds(v: JsonV, source: SourceV)
    ensures
        ({
            let fact = k6_fact(v, source);
            let metrics = metrics_of(v);
            let members = fact.items_at("members"@);
            let missed = exists|i: int|
                0 <= i < metrics.len() && threshold_missed((#[trigger] metrics[i]).value);
            &&& missed ==> fact.text_at("status"@) == Some("failed"@)
            &&& !missed ==> fact.text_at("status"@) == Some("passed"@)
            &&& tells(
                fact,
                source,
                "k6."@ + slug_text(source.component),
                "load-test"@,
                source.component,
                source.version,
                fact.text_at("status"@)->Some_0,
            )
            &&& members.len() == metrics.len()
            &&& forall|i: int|
                0 <= i < members.len() ==> {
                    &&& (#[trigger] members[i]).text_at("component"@) == Some(metrics[i].key)
                    &&& members[i].text_at("status"@) == Some(
                        if threshold_missed(metrics[i].value) {
                            "failed"@
                        } else {
                            "passed"@
                        },
                    )
                }
            &&& fact.items_at("provides"@).len() == 1
            &&& fact.items_at("provides"@)[0].text_at("capability"@) == Some("test:k6"@)
        }),
{
    broadcast use {lemma_get_with, lemma_with_is_object};

    lemma_among_added();
    lemma_provided_members();
    lemma_k6_members();
    let metrics = metrics_of(v);
    assert(metrics == members_at(v, "metrics"@));
    assert forall|m: JsonV| crossed(m) == #[trigger] threshold_missed(m) by {
        let t = members_at(m, "thresholds"@);
        if crossed(m) {
            let i = choose|i: int|
                0 <= i < t.len() && (#[trigger] t[i]).value.bool_at("ok"@) == Some(false);
            assert(m.get("thresholds"@)->Some_0->Object_0[i] == t[i]);
        }
        if threshold_missed(m) {
            let i = choose|i: int|
                0 <= i < m.get("thresholds"@)->Some_0->Object_0.len() && (
                #[trigger] m.get("thresholds"@)->Some_0->Object_0[i]).value.bool_at("ok"@) == Some(
                    false,
                );
            assert(t[i].value.bool_at("ok"@) == Some(false));
        }
    }
    if any_crossed(metrics) {
        let i = choose|i: int| 0 <= i < metrics.len() && crossed((#[trigger] metrics[i]).value);
        assert(threshold_missed(metrics[i].value));
    }
    if exists|i: int| 0 <= i < metrics.len() && threshold_missed((#[trigger] metrics[i]).value) {
        let i = choose|i: int|
            0 <= i < metrics.len() && threshold_missed((#[trigger] metrics[i]).value);
        assert(crossed(metrics[i].value));
    }
    let id = "k6."@ + slug_text(source.component);
    let kind = "load-test"@;
    let name = source.component;
    let version = source.version;
    let status = if any_crossed(metrics) {
        "failed"@
    } else {
        "passed"@
    };
    let fact = base(source, id, kind, name, version, status);
    law_fact_tells_its_subject(source, id, kind, name, version, status);
    let provided = seq![
        JsonV::empty_object().with("capability"@, JsonV::Text("test:k6"@)).with(
            "version"@,
            JsonV::opt_text(version),
        ),
    ];
    let one = fact.with("provides"@, JsonV::Array(provided));
    lemma_with_tells(fact, "provides"@, JsonV::Array(provided), source, id, kind, name, version, status);
    let shown = metrics.map_values(|m: MemberV| metric_json(m));
    lemma_with_tells(one, "members"@, JsonV::Array(shown), source, id, kind, name, version, status);
    assert(k6_fact(v, source) == with_list(one, "members"@, shown));
    let members = k6_fact(v, source).items_at("members"@);
    assert(members =~= shown);
    assert forall|i: int| 0 <= i < members.len() implies #[trigger] members[i] == metric_json(
        metrics[i],
    ) by {}
}

/// A member of the result that a report wraps, as a word or as a truth value.
pub open spec fn inner_member(v: JsonV, key: Seq<char>) -> Option<JsonV> {
    if v.get("testResult"@) is Some {
        v.get("testResult"@)->Some_0.get(key)
    } else {
        None
    }
}

/// A contract test passed as it says, itself or in the result that it wraps; where neither
/// says so, unless its status is one of failure.
pub proof fn law_contract_test_is_judged(v: JsonV, source: SourceV)
    ensures
        ({
            let fact = microcks_fact(v, source);
            let own = v.bool_at("success"@);
            let inner = if inner_member(v, "success"@) is Some {
                inner_member(v, "success"@)->Some_0.as_bool()
            } else {
                None
            };
            let word = word_at(v, "status"@);
            let bad = word is Some && (lower(word->Some_0) == "failed"@ || lower(word->Some_0)
                == "failure"@ || lower(word->Some_0) == "error"@);
            let passed = if own is Some {
                own->Some_0
            } else if inner is Some {
                inner->Some_0
            } else {
                !bad
            };
            &&& passed ==> fact.text_at("status"@) == Some("passed"@)
            &&& !passed ==> fact.text_at("status"@) == Some("failed"@)
            &&& tells(
                fact,
                source,
                "microcks."@ + slug_text(service_name(v, source)),
                "api-contract-test"@,
                service_name(v, source),
                source.version,
                fact.text_at("status"@)->Some_0,
            )
            &&& !(v is Null) ==> fact.get("result"@) == Some(v)
            &&& fact.items_at("provides"@).len() == 1
            &&& fact.items_at("provides"@)[0].text_at("capability"@) == Some("test:microcks"@)
            &&& fact.items_at("provides"@)[0].text_at("service"@) == Some(service_name(v, source))
        }),
{
    broadcast use {lemma_get_with, lemma_with_is_object};

    lemma_among_added();
    lemma_provided_members();
    let name = service_name(v, source);
    let id = "microcks."@ + slug_text(name);
    let kind = "api-contract-test"@;
    let version = source.version;
    let status = if contract_kept(v) {
        "passed"@
    } else {
        "failed"@
    };
    let fact = base(source, id, kind, name, version, status);
    law_fact_tells_its_subject(source, id, kind, name, version, status);
    let provided = seq![
        JsonV::empty_object().with("capability"@, JsonV::Text("test:microcks"@)).with(
            "version"@,
            JsonV::opt_text(version),
        ).with("service"@, JsonV::Text(name)),
    ];
    let one = fact.with("provides"@, JsonV::Array(provided));
    lemma_with_tells(fact, "provides"@, JsonV::Array(provided), source, id, kind, name, version, status);
    lemma_with_tells(one, "result"@, v, source, id, kind, name, version, status);
    assert(microcks_fact(v, source) == with_value(one, "result"@, v));
}

// ---------------------------------------------------------------------------
// Bills of materials
// ---------------------------------------------------------------------------
/// The word under the first of two keys that has one.
pub open spec fn word_of(v: JsonV, key: Seq<char>, other: Seq<char>) -> Option<Seq<char>> {
    if word_at(v, key) is Some {
        word_at(v, key)
    } else {
        word_at(v, other)
    }
}

/// A component is a member of its bill under its name, with its version, type and package
/// address.
pub proof fn law_component_is_member(component: JsonV)
    ensures
        ({
            let m = member_of(component);
            let name = word_of(component, "name"@, "SPDXID"@);
            let version = word_of(component, "version"@, "versionInfo"@);
            let kind = word_at(component, "type"@);
            let purl = word_at(component, "purl"@);
            let reference = word_of(component, "bom-ref"@, "SPDXID"@);
            &&& m.text_at("component"@) == Some(
                if name is Some {
                    name->Some_0
                } else {
                    "unknown"@
                },
            )
            &&& version is Some ==> m.text_at("version"@) == version
            &&& kind is Some ==> m.text_at("type"@) == kind
            &&& purl is Some ==> m.text_at("purl"@) == purl
            &&& reference is Some ==> m.text_at("bomRef"@) == reference
            &&& digest_of(component) is Some ==> m.text_at("digest"@) == digest_of(component)
        }),
{
    broadcast use {lemma_get_with, lemma_with_is_object};

    lemma_component_members();
    let name = match name_of(component) {
        Some(n) => n,
        None => "unknown"@,
    };
    let version = version_of(component);
    let kind = field_text(component, "type"@);
    let purl = field_text(component, "purl"@);
    let reference = crate::sbom::either(component, "bom-ref"@, "SPDXID"@);
    let sum = digest_of(component);
    let v = JsonV::empty_object().with("component"@, JsonV::Text(name)).with(
        "version"@,
        JsonV::opt_text(version),
    ).with("type"@, JsonV::opt_text(kind)).with("purl"@, JsonV::opt_text(purl)).with(
        "bomRef"@,
        JsonV::opt_text(reference),
    ).with("digest"@, JsonV::opt_text(sum));
    lemma_strip_keeps_text(v, "component"@, name);
    if version is Some {
        lemma_strip_keeps_text(v, "version"@, version->Some_0);
    }
    if kind is Some {
        lemma_strip_keeps_text(v, "type"@, kind->Some_0);
    }
    if purl is Some {
        lemma_strip_keeps_text(v, "purl"@, purl->Some_0);
    }
    if reference is Some {
        lemma_strip_keeps_text(v, "bomRef"@, reference->Some_0);
    }
    if sum is Some {
        lemma_strip_keeps_text(v, "digest"@, sum->Some_0);
    }
}

/// The digest of a component names the algorithm of its first hash, in lower case, and what
/// it computed.
pub proof fn law_component_digest(component: JsonV)
    ensures
        ({
            let hashes = component.items_at("hashes"@);
            let sums = component.items_at("checksums"@);
            let algorithm = word_of(hashes[0], "alg"@, "algorithm"@);
            let content = word_of(hashes[0], "content"@, "checksumValue"@);
            let hashed = hashes.len() > 0 && algorithm is Some && content is Some;
            &&& hashed ==> digest_of(component) == Some(
                lower(algorithm->Some_0) + ":"@ + content->Some_0,
            )
            &&& !hashed && sums.len() > 0 && word_at(sums[0], "algorithm"@) is Some && word_at(
                sums[0],
                "checksumValue"@,
            ) is Some ==> digest_of(component) == Some(
                lower(word_at(sums[0], "algorithm"@)->Some_0) + ":"@ + word_at(
                    sums[0],
                    "checksumValue"@,
                )->Some_0,
            )
            &&& hashes.len() == 0 && sums.len() == 0 ==> digest_of(component) is None
        }),
{
}

proof fn lemma_requirements(members: Seq<JsonV>, n: int)
    requires
        0 <= n <= members.len(),
        forall|i: int| 0 <= i < members.len() ==> (#[trigger] members[i]).text_at("component"@) is Some,
    ensures
        requirements_of(members, n).len() == n,
        forall|i: int|
            0 <= i < n ==> #[trigger] requirements_of(members, n)[i] == requirement_of(
                members[i],
                members[i].text_at("component"@)->Some_0,
            ),
    decreases n,
{
    if n > 0 {
        lemma_requirements(members, n - 1);
    }
}

/// Whether the first facts are kept and the others are those of the named components, in
/// order.
pub open spec fn packages_behind(
    facts: Seq<JsonV>,
    first: Seq<JsonV>,
    components: Seq<JsonV>,
    source: SourceV,
    n: int,
) -> bool {
    &&& first.is_prefix_of(facts)
    &&& forall|i: int|
        0 <= i < n && word_of(#[trigger] components[i], "name"@, "SPDXID"@) is Some
            ==> facts.contains(package_of(components[i], source)->Some_0)
    &&& forall|k: int|
        first.len() <= k < facts.len() ==> exists|i: int|
            0 <= i < n && word_of(#[trigger] components[i], "name"@, "SPDXID"@) is Some
                && #[trigger] facts[k] == package_of(components[i], source)->Some_0
}

proof fn lemma_packages_behind(
    first: Seq<JsonV>,
    components: Seq<JsonV>,
    source: SourceV,
    n: int,
)
    requires
        0 <= n <= components.len(),
    ensures
        packages_behind(with_packages(first, components, source, n), first, components, source, n),
    decreases n,
{
    let facts = with_packages(first, components, source, n);
    if n > 0 {
        lemma_packages_behind(first, components, source, n - 1);
        let before = with_packages(first, components, source, n - 1);
        let c = components[n - 1];
        assert((package_of(c, source) is Some) == (word_of(c, "name"@, "SPDXID"@) is Some));
        assert(before.is_prefix_of(facts));
        assert(first =~= facts.subrange(0, first.len() as int));
        assert forall|i: int|
            0 <= i < n && word_of(#[trigger] components[i], "name"@, "SPDXID"@) is Some implies facts.contains(
            package_of(components[i], source)->Some_0,
        ) by {
            let p = package_of(components[i], source)->Some_0;
            if i < n - 1 {
                assert(before.contains(p));
                let q = choose|q: int| 0 <= q < before.len() && before[q] == p;
                assert(facts[q] == p);
            } else {
                assert(facts[facts.len() - 1] == p);
            }
        }
        assert forall|k: int| first.len() <= k < facts.len() implies exists|i: int|
            0 <= i < n && word_of(#[trigger] components[i], "name"@, "SPDXID"@) is Some
                && #[trigger] facts[k] == package_of(components[i], source)->Some_0 by {
            if k < before.len() {
                assert(facts[k] == before[k]);
                let i = choose|i: int|
                    0 <= i < n - 1 && word_of(#[trigger] components[i], "name"@, "SPDXID"@) is Some
                        && before[k] == package_of(components[i], source)->Some_0;
                assert(word_of(components[i], "name"@, "SPDXID"@) is Some);
            } else {
                assert(facts[k] == package_of(components[n - 1], source)->Some_0);
                assert(word_of(components[n - 1], "name"@, "SPDXID"@) is Some);
            }
        }
    }
}

/// A component with a name is a fact of its own: a dependency that was observed, under its
/// name and version, which provides its package.
pub proof fn law_component_becomes_package(component: JsonV, source: SourceV)
    requires
        word_of(component, "name"@, "SPDXID"@) is Some,
    ensures
        ({
            let name = word_of(component, "name"@, "SPDXID"@)->Some_0;
            let version = word_of(component, "version"@, "versionInfo"@);
            let fact = package_of(component, source)->Some_0;
            let provided = fact.items_at("provides"@);
            &&& package_of(component, source) is Some
            &&& tells(
                fact,
                source,
                "package."@ + slug_text(name) + version_suffix(version),
                "dependency"@,
                name,
                version,
                "observed"@,
            )
            &&& !(component is Null) ==> fact.get("package"@) == Some(component)
            &&& provided.len() == 1
            &&& provided[0].text_at("capability"@) == Some("package:"@ + name)
            &&& version is Some ==> provided[0].text_at("version"@) == version
        }),
{
    broadcast use {lemma_get_with, lemma_with_is_object};

    lemma_among_added();
    lemma_provided_members();
    let name = name_of(component)->Some_0;
    let version = version_of(component);
    let id = "package."@ + slug_text(name) + version_suffix(version);
    let kind = "dependency"@;
    let status = "observed"@;
    let fact = base(source, id, kind, name, version, status);
    law_fact_tells_its_subject(source, id, kind, name, version, status);
    let raw = JsonV::empty_object().with("capability"@, JsonV::Text("package:"@ + name)).with(
        "version"@,
        JsonV::opt_text(version),
    ).with("purl"@, JsonV::opt_text(field_text(component, "purl"@))).with(
        "digest"@,
        JsonV::opt_text(digest_of(component)),
    );
    lemma_strip_keeps_text(raw, "capability"@, "package:"@ + name);
    if version is Some {
        lemma_strip_keeps_text(raw, "version"@, version->Some_0);
    }
    let provided = seq![strip_nulls(raw)];
    let one = fact.with("provides"@, JsonV::Array(provided));
    lemma_with_tells(fact, "provides"@, JsonV::Array(provided), source, id, kind, name, version, status);
    lemma_with_tells(one, "package"@, component, source, id, kind, name, version, status);
    assert(package_of(component, source)->Some_0 == with_value(one, "package"@, component));
}

/// Whether a bill tells of its components: each is a member of it.
pub open spec fn lists_components(bill: JsonV, components: Seq<JsonV>) -> bool {
    let members = bill.items_at("members"@);
    &&& members.len() == components.len()
    &&& forall|i: int| 0 <= i < members.len() ==> #[trigger] members[i] == member_of(components[i])
}

/// A CycloneDX bill is a fact that was observed, about what the bill is of, or else the
/// component of the source. Its components are its members and what it requires, and those
/// with a name are facts behind it.
pub proof fn law_cyclonedx_bill(v: JsonV, source: SourceV)
    ensures
        ({
            let facts = cyclonedx_facts(v, source);
            let bill = facts[0];
            let components = v.items_at("components"@);
            let name = if root_field(v, "name"@) is Some {
                root_field(v, "name"@)->Some_0
            } else {
                source.component
            };
            let version = if root_field(v, "version"@) is Some {
                root_field(v, "version"@)
            } else {
                source.version
            };
            let needs = bill.items_at("requires"@);
            &&& facts.len() > 0
            &&& tells(
                bill,
                source,
                "sbom."@ + slug_text(name) + version_suffix(version),
                "sbom"@,
                name,
                version,
                "observed"@,
            )
            &&& lists_components(bill, components)
            &&& needs.len() == components.len()
            &&& forall|i: int|
                0 <= i < needs.len() ==> {
                    let m = member_of(components[i]);
                    &&& (#[trigger] needs[i]).text_at("capability"@) == Some(
                        "package:"@ + m.text_at("component"@)->Some_0,
                    )
                    &&& needs[i].text_at("version"@) == m.text_at("version"@)
                }
            &&& packages_behind(facts, seq![bill], components, source, components.len() as int)
        }),
{
    broadcast use {lemma_get_with, lemma_with_is_object};

    lemma_among_added();
    lemma_provided_members();
    let name = match root_field(v, "name"@) {
        Some(n) => n,
        None => source.component,
    };
    let version = or(root_field(v, "version"@), source.version);
    let components = v.items_at("components"@);
    let members = members_of(components);
    let id = "sbom."@ + slug_text(name) + version_suffix(version);
    let kind = "sbom"@;
    let status = "observed"@;
    let fact = base(source, id, kind, name, version, status);
    law_fact_tells_its_subject(source, id, kind, name, version, status);
    assert(members.len() == components.len());
    assert forall|i: int| 0 <= i < members.len() implies #[trigger] members[i] == member_of(
        components[i],
    ) && members[i].text_at("component"@) is Some by {
        law_component_is_member(components[i]);
    }
    let needs = requirements_of(members, members.len() as int);
    lemma_requirements(members, members.len() as int);
    let provided = seq![
        JsonV::empty_object().with("capability"@, JsonV::Text("sbom:"@ + source.component)).with(
            "version"@,
            JsonV::opt_text(version),
        ),
    ];
    let one = with_list(fact, "members"@, members);
    lemma_with_tells(fact, "members"@, JsonV::Array(members), source, id, kind, name, version, status);
    let two = with_list(one, "requires"@, needs);
    lemma_with_tells(one, "requires"@, JsonV::Array(needs), source, id, kind, name, version, status);
    let bill = with_list(two, "provides"@, provided);
    lemma_with_tells(two, "provides"@, JsonV::Array(provided), source, id, kind, name, version, status);
    let facts = cyclonedx_facts(v, source);
    assert(facts == with_packages(seq![bill], components, source, components.len() as int));
    lemma_packages_behind(seq![bill], components, source, components.len() as int);
    assert(seq![bill].is_prefix_of(facts));
    assert(seq![bill][0] == facts[0]);
    assert(bill.items_at("members"@) =~= members);
    assert(bill.items_at("requires"@) =~= needs);
}

/// An SPDX bill is a fact that was observed, and its packages are its members and, those
/// with a name, facts behind it; a bill without packages is refused.
pub proof fn law_spdx_bill(v: JsonV, source: SourceV)
    ensures
        ({
            let packages = v.items_at("packages"@);
            let r = spdx_facts(v, source);
            let bill = r->Ok_0[0];
            let name = if v.text_at("name"@) is Some {
                v.text_at("name"@)->Some_0
            } else {
                source.component
            };
            &&& r is Err <==> packages.len() == 0
            &&& r is Ok ==> {
                &&& r->Ok_0.len() > 0
                &&& tells(
                    bill,
                    source,
                    "sbom."@ + slug_text(name),
                    "sbom"@,
                    name,
                    source.version,
                    "observed"@,
                )
                &&& lists_components(bill, packages)
                &&& packages_behind(r->Ok_0, seq![bill], packages, source, packages.len() as int)
            }
        }),
{
    broadcast use {lemma_get_with, lemma_with_is_object};

    lemma_among_added();
    let packages = v.items_at("packages"@);
    if packages.len() > 0 {
        let name = match v.text_at("name"@) {
            Some(n) => n,
            None => source.component,
        };
        let members = members_of(packages);
        let id = "sbom."@ + slug_text(name);
        let kind = "sbom"@;
        let version = source.version;
        let status = "observed"@;
        let fact = base(source, id, kind, name, version, status);
        law_fact_tells_its_subject(source, id, kind, name, version, status);
        let bill = with_list(fact, "members"@, members);
        lemma_with_tells(fact, "members"@, JsonV::Array(members), source, id, kind, name, version, status);
        let facts = spdx_facts(v, source)->Ok_0;
        lemma_packages_behind(seq![bill], packages, source, packages.len() as int);
        assert(seq![bill].is_prefix_of(facts));
        assert(seq![bill][0] == facts[0]);
        assert(bill.items_at("members"@) =~= members);
    }
}

/// A bill is read by its format; one of another format is refused.
pub proof fn law_bill_by_format(v: JsonV, source: SourceV)
    ensures
        v.text_at("bomFormat"@) == Some("CycloneDX"@) ==> bill_facts(v, source) == Ok::<
            Seq<JsonV>,
            Seq<char>,
        >(cyclonedx_facts(v, source)),
        v.text_at("bomFormat"@) != Some("CycloneDX"@) && v.get("spdxVersion"@) is Some
            ==> bill_facts(v, source) == spdx_facts(v, source),
        v.text_at("bomFormat"@) != Some("CycloneDX"@) && v.get("spdxVersion"@) is None
            ==> bill_facts(v, source) is Err,
{
}

// ---------------------------------------------------------------------------
// Sources and requests
// ---------------------------------------------------------------------------
/// The source of a report is what the command line says, else what git says. Without
/// another wish, bills of materials belong to the supply chain and test reports to the
/// tests. The component is named by the repository where nothing else names it.
pub proof fn law_source_is_given_or_detected(
    adapter: Seq<char>,
    args: IngestArgs,
    around: Surroundings,
)
    ensures
        ({
            let s = source_of(adapter, args, around);
            &&& s.adapter == adapter
            &&& args.zone is Some ==> s.zone == args.zone->Some_0@
            &&& args.zone is None && adapter == "sbom"@ ==> s.zone == "supply-chain"@
            &&& args.zone is None && (adapter == "junit"@ || adapter == "tox"@ || adapter == "nox"@
                || adapter == "k6"@ || adapter == "microcks"@) ==> s.zone == "test"@
            &&& args.repo is Some ==> s.repo == Some(args.repo->Some_0@)
            &&& args.repo is None ==> s.repo == around@.repo
            &&& args.component is Some ==> s.component == args.component->Some_0@
            &&& args.component is None && s.repo is Some ==> s.component == short_name(
                s.repo->Some_0,
            )
            &&& args.component is None && s.repo is None ==> s.component == adapter
            &&& s.version == opt_view(args.version)
            &&& args.sha is Some ==> s.sha == Some(args.sha->Some_0@)
            &&& args.sha is None ==> s.sha == around@.sha
            &&& args.reference is Some ==> s.reference == Some(args.reference->Some_0@)
            &&& args.reference is None && around@.tag is Some ==> s.reference == around@.tag
            &&& args.reference is None && around@.tag is None ==> s.reference == around@.branch
        }),
{
    reveal_strlit("sbom");
    reveal_strlit("junit");
    reveal_strlit("tox");
    reveal_strlit("nox");
    reveal_strlit("k6");
    reveal_strlit("microcks");
    assert("sbom"@.len() == 4 && "junit"@.len() == 5 && "tox"@.len() == 3 && "nox"@.len() == 3
        && "k6"@.len() == 2 && "microcks"@.len() == 8);
}

/// JUnit files can be attached to tox and nox reports alone; their facts come behind those
/// of the report, and are facts of JUnit.
pub proof fn law_attached_reports(request: Request)
    ensures
        ({
            let own = adapter_facts(request.adapter@, request.input@, request.source@);
            let files = request.junit->Ok_0@;
            let r = request_facts(request);
            &&& own is Err ==> r is Err
            &&& own is Ok && request.junit is Err ==> r is Err
            &&& own is Ok && request.junit is Ok && files.len() == 0 ==> r == own
            &&& own is Ok && request.junit is Ok && files.len() > 0 && request.source@.adapter
                != "tox"@ && request.source@.adapter != "nox"@ ==> r is Err
            &&& own is Ok && request.junit is Ok && r is Ok ==> own->Ok_0.is_prefix_of(r->Ok_0)
        }),
{
    let own = adapter_facts(request.adapter@, request.input@, request.source@);
    if own is Ok && request.junit is Ok && request.junit->Ok_0@.len() > 0 {
        let files = request.junit->Ok_0@;
        lemma_attached_behind(
            own->Ok_0,
            files,
            SourceV { adapter: "junit"@, ..request.source@ },
            files.len() as int,
        );
    }
}

proof fn lemma_attached_behind(facts: Seq<JsonV>, files: Seq<JunitFile>, source: SourceV, n: int)
    ensures
        with_junit(facts, files, source, n) is Ok ==> facts.is_prefix_of(
            with_junit(facts, files, source, n)->Ok_0,
        ),
    decreases n,
{
    if n > 0 {
        lemma_attached_behind(facts, files, source, n - 1);
        if with_junit(facts, files, source, n) is Ok {
            let before = with_junit(facts, files, source, n - 1)->Ok_0;
            let r = with_junit(facts, files, source, n)->Ok_0;
            assert(facts =~= r.subrange(0, facts.len() as int));
        }
    }
}

/// A slug holds small letters, digits, dots, underscores and dashes alone, is never empty and
/// neither starts nor ends with a dash; what is such a text already is its own slug.
pub proof fn law_slug_is_plain(s: Seq<char>)
    ensures
        ({
            let plain = |c: char|
                (is_alnum(c) && !('A' <= c <= 'Z')) || c == '.' || c == '-' || c == '_';
            let t = slug_text(s);
            &&& t.len() > 0
            &&& t[0] != '-' && t.last() != '-'
            &&& forall|i: int| 0 <= i < t.len() ==> plain(#[trigger] t[i])
            &&& s.len() > 0 && s[0] != '-' && s.last() != '-' && (forall|i: int|
                0 <= i < s.len() ==> plain(#[trigger] s[i])) ==> t == s
        }),
{
    let dash = CharClass::Is('-');
    let plain = |c: char| (is_alnum(c) && !('A' <= c <= 'Z')) || c == '.' || c == '-' || c == '_';
    let all = crate::ingest::slug_chars(s);
    assert forall|i: int| 0 <= i < all.len() implies plain(#[trigger] all[i]) by {
        let c = s[i];
        assert(all[i] == crate::ingest::slug_char(c));
    }
    let a = index_past(all, dash, 0);
    lemma_index_past(all, dash, 0);
    let rest = all.skip(a);
    let n = end_before(rest, dash);
    lemma_end_before(rest, dash);
    let cut = rest.take(n);
    assert(cut == crate::text::trim_class(all, dash));
    reveal_strlit("unknown");
    if cut.len() == 0 {
        assert("unknown"@.len() == 7);
    } else {
        assert(cut[0] == all[a]);
        assert(cut.last() == rest[n - 1]);
        assert forall|i: int| 0 <= i < cut.len() implies plain(#[trigger] cut[i]) by {
            assert(cut[i] == all[a + i]);
        }
    }
    if s.len() > 0 && s[0] != '-' && s.last() != '-' && (forall|i: int|
        0 <= i < s.len() ==> plain(#[trigger] s[i])) {
        assert(all =~= s) by {
            assert forall|i: int| 0 <= i < s.len() implies all[i] == s[i] by {
                assert(plain(s[i]));
            }
        }
        assert(a == 0);
        assert(rest =~= s);
        assert(cut =~= s);
    }
}

/// A report is read by the adapter that is named, in any case; another name is refused.
pub proof fn law_adapter_reads_report(adapter: Seq<char>, input: Seq<char>, source: SourceV)
    ensures
        ({
            let name = lower(trim(adapter));
            let r = adapter_facts(adapter, input, source);
            let read = json_read(input);
            &&& name == "junit"@ ==> r == crate::junit::junit_facts(input, source)
            &&& name == "sbom"@ ==> r == crate::sbom::sbom_facts(input, source)
            &&& name == "tox"@ ==> (r is Ok <==> read is Ok) && (read is Ok ==> r->Ok_0 == tox_facts(
                read->Ok_0,
                source,
            ))
            &&& name == "nox"@ ==> (r is Ok <==> read is Ok) && (read is Ok ==> r->Ok_0 == nox_facts(
                read->Ok_0,
                source,
            ))
            &&& name == "k6"@ ==> (r is Ok <==> read is Ok) && (read is Ok ==> r->Ok_0 == seq![
                k6_fact(read->Ok_0, source),
            ])
            &&& name == "microcks"@ ==> (r is Ok <==> read is Ok) && (read is Ok ==> r->Ok_0 == seq![
                microcks_fact(read->Ok_0, source),
            ])
            &&& name != "junit"@ && name != "sbom"@ && name != "tox"@ && name != "nox"@ && name
                != "k6"@ && name != "microcks"@ ==> r is Err
        }),
{
    lemma_adapter_names();
}

proof fn lemma_adapter_names()
    ensures
        mark("junit"@) == 11011610605,
        mark("k6"@) == 5405410702,
        mark("microcks"@) == 11111510908,
        mark("nox"@) == 11112011003,
        mark("sbom"@) == 11110911504,
        mark("tox"@) == 11112011603,
{
    reveal_strlit("junit");
    reveal_strlit("k6");
    reveal_strlit("microcks");
    reveal_strlit("nox");
    reveal_strlit("sbom");
    reveal_strlit("tox");
}


} // verus!
