//! The adapter of software bills of materials, in CycloneDX and SPDX.
use vstd::prelude::*;
use crate::ingest::{
    base, base_fact, facts_result, field_text, json_strip_nulls, just, put_array, put_object, slug,
    slug_suffix, slug_text, string_field, strip_nulls, version_suffix, with_list, with_value,
    Source, SourceV,
};
use crate::json::{items_view, json_read, read_json, Json, JsonV};
use crate::text::{cat2, cat3, copy_opt, lower, opt_view, or, or_text, same, to_lower};

verus! {

pub open spec fn either(v: JsonV, key: Seq<char>, other: Seq<char>) -> Option<Seq<char>> {
    or(field_text(v, key), field_text(v, other))
}

fn either_field(value: &Json, key: &str, other: &str) -> (r: Option<String>)
    ensures
        opt_view(r) == either(value@, key@, other@),
{
    or_text(string_field(value, key), string_field(value, other))
}

// ---------------------------------------------------------------------------
// Components
// ---------------------------------------------------------------------------
/// An algorithm and what it computed.
pub open spec fn sum_text(algorithm: Option<Seq<char>>, content: Option<Seq<char>>) -> Option<
    Seq<char>,
> {
    match (algorithm, content) {
        (Some(a), Some(c)) => Some(lower(a) + ":"@ + c),
        _ => None,
    }
}

fn sum_of(algorithm: Option<String>, content: Option<String>) -> (r: Option<String>)
    ensures
        opt_view(r) == sum_text(opt_view(algorithm), opt_view(content)),
{
    match (algorithm, content) {
        (Some(a), Some(c)) => Some(cat3(to_lower(a.as_str()).as_str(), ":", c.as_str())),
        _ => None,
    }
}

/// The digest of a component: of its first hash, else of its first checksum.
pub open spec fn digest_of(component: JsonV) -> Option<Seq<char>> {
    let hashes = component.items_at("hashes"@);
    let checksums = component.items_at("checksums"@);
    or(
        if hashes.len() > 0 {
            sum_text(
                either(hashes[0], "alg"@, "algorithm"@),
                either(hashes[0], "content"@, "checksumValue"@),
            )
        } else {
            None
        },
        if checksums.len() > 0 {
            sum_text(
                field_text(checksums[0], "algorithm"@),
                field_text(checksums[0], "checksumValue"@),
            )
        } else {
            None
        },
    )
}

pub fn digest(component: &Json) -> (r: Option<String>)
    ensures
        opt_view(r) == digest_of(component@),
{
    let hashes = component.items_at("hashes");
    let checksums = component.items_at("checksums");
    let first = if hashes.len() > 0 {
        assert(items_view(hashes@)[0] == hashes@[0]@);
        sum_of(
            either_field(&hashes[0], "alg", "algorithm"),
            either_field(&hashes[0], "content", "checksumValue"),
        )
    } else {
        None
    };
    let second = if checksums.len() > 0 {
        assert(items_view(checksums@)[0] == checksums@[0]@);
        sum_of(
            string_field(&checksums[0], "algorithm"),
            string_field(&checksums[0], "checksumValue"),
        )
    } else {
        None
    };
    or_text(first, second)
}

pub open spec fn name_of(component: JsonV) -> Option<Seq<char>> {
    either(component, "name"@, "SPDXID"@)
}

pub open spec fn version_of(component: JsonV) -> Option<Seq<char>> {
    either(component, "version"@, "versionInfo"@)
}

/// A component as a member of its bill.
pub open spec fn member_of(component: JsonV) -> JsonV {
    strip_nulls(
        JsonV::empty_object().with(
            "component"@,
            JsonV::Text(
                match name_of(component) {
                    Some(n) => n,
                    None => "unknown"@,
                },
            ),
        ).with("version"@, JsonV::opt_text(version_of(component))).with(
            "type"@,
            JsonV::opt_text(field_text(component, "type"@)),
        ).with("purl"@, JsonV::opt_text(field_text(component, "purl"@))).with(
            "bomRef"@,
            JsonV::opt_text(either(component, "bom-ref"@, "SPDXID"@)),
        ).with("digest"@, JsonV::opt_text(digest_of(component))),
    )
}

pub fn component_member(component: &Json) -> (r: Json)
    ensures
        r@ == member_of(component@),
{
    let name = match either_field(component, "name", "SPDXID") {
        Some(n) => n,
        None => "unknown".to_owned(),
    };
    let version = either_field(component, "version", "versionInfo");
    let kind = string_field(component, "type");
    let purl = string_field(component, "purl");
    let reference = either_field(component, "bom-ref", "SPDXID");
    let sum = digest(component);
    json_strip_nulls(
        &Json::object().with("component", Json::text(name.as_str())).with(
            "version",
            Json::opt_text(&version),
        ).with("type", Json::opt_text(&kind)).with("purl", Json::opt_text(&purl)).with(
            "bomRef",
            Json::opt_text(&reference),
        ).with("digest", Json::opt_text(&sum)),
    )
}

pub open spec fn members_of(components: Seq<JsonV>) -> Seq<JsonV> {
    components.map_values(|c: JsonV| member_of(c))
}

fn component_members(components: &Vec<Json>) -> (r: Vec<Json>)
    ensures
        items_view(r@) == members_of(items_view(components@)),
{
    let ghost all = members_of(items_view(components@));
    let mut out: Vec<Json> = Vec::new();
    let mut i: usize = 0;
    assert(items_view(out@) =~= all.take(0));
    while i < components.len()
        invariant
            i <= components@.len(),
            all == members_of(items_view(components@)),
            items_view(out@) == all.take(i as int),
        decreases components@.len() - i,
    {
        let ghost before = items_view(out@);
        let member = component_member(&components[i]);
        let ghost next = member@;
        out.push(member);
        assert(items_view(out@) =~= before.push(next));
        assert(all[i as int] == next);
        assert(all.take(i as int + 1) =~= before.push(next));
        i += 1;
    }
    assert(all.take(i as int) =~= all);
    out
}

/// What a bill requires by a member.
pub open spec fn requirement_of(member: JsonV, name: Seq<char>) -> JsonV {
    JsonV::empty_object().with("capability"@, JsonV::Text("package:"@ + name)).with(
        "version"@,
        JsonV::opt_text(member.text_at("version"@)),
    ).with("purl"@, JsonV::opt_text(member.text_at("purl"@)))
}

/// What a bill requires by its first `n` members.
pub open spec fn requirements_of(members: Seq<JsonV>, n: int) -> Seq<JsonV>
    decreases n,
{
    if n <= 0 {
        Seq::empty()
    } else {
        match members[n - 1].text_at("component"@) {
            Some(name) => requirements_of(members, n - 1).push(
                requirement_of(members[n - 1], name),
            ),
            None => requirements_of(members, n - 1),
        }
    }
}

fn member_requirements(members: &Vec<Json>) -> (r: Vec<Json>)
    ensures
        items_view(r@) == requirements_of(items_view(members@), members@.len() as int),
{
    let ghost all = items_view(members@);
    let mut out: Vec<Json> = Vec::new();
    let mut i: usize = 0;
    assert(items_view(out@) =~= Seq::empty());
    while i < members.len()
        invariant
            i <= members@.len(),
            all == items_view(members@),
            items_view(out@) == requirements_of(all, i as int),
        decreases members@.len() - i,
    {
        assert(all[i as int] == members@[i as int]@);
        match members[i].text_at("component") {
            Some(name) => {
                let ghost before = items_view(out@);
                let version = members[i].text_at("version");
                let purl = members[i].text_at("purl");
                let requirement = Json::object().with(
                    "capability",
                    Json::text(cat2("package:", name.as_str()).as_str()),
                ).with("version", Json::opt_text(&version)).with("purl", Json::opt_text(&purl));
                let ghost next = requirement@;
                out.push(requirement);
                assert(items_view(out@) =~= before.push(next));
            },
            None => {},
        }
        i += 1;
    }
    out
}

/// The fact of a component that has a name.
pub open spec fn package_of(component: JsonV, source: SourceV) -> Option<JsonV> {
    match name_of(component) {
        None => None,
        Some(name) => {
            let version = version_of(component);
            let fact = base(
                source,
                "package."@ + slug_text(name) + version_suffix(version),
                "dependency"@,
                name,
                version,
                "observed"@,
            );
            let provided = strip_nulls(
                JsonV::empty_object().with("capability"@, JsonV::Text("package:"@ + name)).with(
                    "version"@,
                    JsonV::opt_text(version),
                ).with("purl"@, JsonV::opt_text(field_text(component, "purl"@))).with(
                    "digest"@,
                    JsonV::opt_text(digest_of(component)),
                ),
            );
            Some(
                with_value(
                    with_list(fact, "provides"@, seq![provided]),
                    "package"@,
                    component,
                ),
            )
        },
    }
}

pub fn package_fact(component: &Json, source: &Source) -> (r: Option<Json>)
    ensures
        match package_of(component@, source@) {
            Some(fact) => r matches Some(v) && v@ == fact,
            None => r is None,
        },
{
    let name = match either_field(component, "name", "SPDXID") {
        Some(n) => n,
        None => {
            return None;
        },
    };
    let version = either_field(component, "version", "versionInfo");
    let id = cat3("package.", slug(name.as_str()).as_str(), slug_suffix(&version).as_str());
    let fact = base_fact(source, id.as_str(), "dependency", name.as_str(), &version, "observed");
    let purl = string_field(component, "purl");
    let sum = digest(component);
    let provided = json_strip_nulls(
        &Json::object().with(
            "capability",
            Json::text(cat2("package:", name.as_str()).as_str()),
        ).with("version", Json::opt_text(&version)).with("purl", Json::opt_text(&purl)).with(
            "digest",
            Json::opt_text(&sum),
        ),
    );
    Some(put_object(put_array(fact, "provides", just(provided)), "package", component.copy()))
}

/// Facts with those of the first `n` components behind them.
pub open spec fn with_packages(facts: Seq<JsonV>, components: Seq<JsonV>, source: SourceV, n: int) -> Seq<
    JsonV,
>
    decreases n,
{
    if n <= 0 {
        facts
    } else {
        match package_of(components[n - 1], source) {
            Some(fact) => with_packages(facts, components, source, n - 1).push(fact),
            None => with_packages(facts, components, source, n - 1),
        }
    }
}

fn add_packages(facts: Vec<Json>, components: &Vec<Json>, source: &Source) -> (r: Vec<Json>)
    ensures
        items_view(r@) == with_packages(
            items_view(facts@),
            items_view(components@),
            source@,
            components@.len() as int,
        ),
{
    let ghost start = items_view(facts@);
    let ghost all = items_view(components@);
    let mut facts = facts;
    let mut i: usize = 0;
    while i < components.len()
        invariant
            i <= components@.len(),
            all == items_view(components@),
            items_view(facts@) == with_packages(start, all, source@, i as int),
        decreases components@.len() - i,
    {
        assert(all[i as int] == components@[i as int]@);
        match package_fact(&components[i], source) {
            Some(fact) => {
                let ghost before = items_view(facts@);
                let ghost next = fact@;
                facts.push(fact);
                assert(items_view(facts@) =~= before.push(next));
            },
            None => {},
        }
        i += 1;
    }
    facts
}

// ---------------------------------------------------------------------------
// CycloneDX
// ---------------------------------------------------------------------------
pub open spec fn root_component(v: JsonV) -> Option<JsonV> {
    match v.get("metadata"@) {
        Some(m) => m.object_at("component"@),
        None => None,
    }
}

pub open spec fn root_field(v: JsonV, key: Seq<char>) -> Option<Seq<char>> {
    match root_component(v) {
        Some(c) => field_text(c, key),
        None => None,
    }
}

fn root_text(value: &Json, key: &str) -> (r: Option<String>)
    ensures
        opt_view(r) == root_field(value@, key@),
{
    match value.get("metadata") {
        Some(m) => match m.object_at("component") {
            Some(c) => string_field(c, key),
            None => None,
        },
        None => None,
    }
}

/// The facts of a CycloneDX bill: the bill, then its components.
pub open spec fn cyclonedx_facts(v: JsonV, source: SourceV) -> Seq<JsonV> {
    let name = match root_field(v, "name"@) {
        Some(n) => n,
        None => source.component,
    };
    let version = or(root_field(v, "version"@), source.version);
    let components = v.items_at("components"@);
    let members = members_of(components);
    let fact = base(
        source,
        "sbom."@ + slug_text(name) + version_suffix(version),
        "sbom"@,
        name,
        version,
        "observed"@,
    );
    let provided = JsonV::empty_object().with(
        "capability"@,
        JsonV::Text("sbom:"@ + source.component),
    ).with("version"@, JsonV::opt_text(version));
    let bill = with_list(
        with_list(
            with_list(fact, "members"@, members),
            "requires"@,
            requirements_of(members, members.len() as int),
        ),
        "provides"@,
        seq![provided],
    );
    with_packages(seq![bill], components, source, components.len() as int)
}

pub fn normalize_cyclonedx(value: &Json, source: &Source) -> (r: Vec<Json>)
    ensures
        items_view(r@) == cyclonedx_facts(value@, source@),
{
    let name = match root_text(value, "name") {
        Some(n) => n,
        None => source.component.clone(),
    };
    let version = or_text(root_text(value, "version"), copy_opt(&source.version));
    let components = value.items_at("components");
    let members = component_members(&components);
    let requirements = member_requirements(&members);
    let id = cat3("sbom.", slug(name.as_str()).as_str(), slug_suffix(&version).as_str());
    let fact = base_fact(source, id.as_str(), "sbom", name.as_str(), &version, "observed");
    let provided = Json::object().with(
        "capability",
        Json::text(cat2("sbom:", source.component.as_str()).as_str()),
    ).with("version", Json::opt_text(&version));
    let bill = put_array(
        put_array(put_array(fact, "members", members), "requires", requirements),
        "provides",
        just(provided),
    );
    add_packages(just(bill), &components, source)
}

// ---------------------------------------------------------------------------
// SPDX
// ---------------------------------------------------------------------------
/// The facts of an SPDX bill: the bill, then its packages; one without packages is
/// refused.
pub open spec fn spdx_facts(v: JsonV, source: SourceV) -> Result<Seq<JsonV>, Seq<char>> {
    let packages = v.items_at("packages"@);
    if packages.len() == 0 {
        Err("SPDX SBOM did not include packages"@)
    } else {
        let name = match v.text_at("name"@) {
            Some(n) => n,
            None => source.component,
        };
        let bill = with_list(
            base(source, "sbom."@ + slug_text(name), "sbom"@, name, source.version, "observed"@),
            "members"@,
            members_of(packages),
        );
        Ok(with_packages(seq![bill], packages, source, packages.len() as int))
    }
}

pub fn normalize_spdx(value: &Json, source: &Source) -> (r: Result<Vec<Json>, String>)
    ensures
        facts_result(r) == spdx_facts(value@, source@),
{
    let packages = value.items_at("packages");
    if packages.len() == 0 {
        return Err("SPDX SBOM did not include packages".to_owned());
    }
    let name = match value.text_at("name") {
        Some(n) => n,
        None => source.component.clone(),
    };
    let members = component_members(&packages);
    let id = cat2("sbom.", slug(name.as_str()).as_str());
    let fact = base_fact(
        source,
        id.as_str(),
        "sbom",
        name.as_str(),
        &source.version,
        "observed",
    );
    let bill = put_array(fact, "members", members);
    Ok(add_packages(just(bill), &packages, source))
}

/// The facts of a bill, by its format.
pub open spec fn bill_facts(v: JsonV, source: SourceV) -> Result<Seq<JsonV>, Seq<char>> {
    if v.text_at("bomFormat"@) == Some("CycloneDX"@) {
        Ok(cyclonedx_facts(v, source))
    } else if v.get("spdxVersion"@) is Some {
        spdx_facts(v, source)
    } else {
        Err("unsupported SBOM JSON; expected CycloneDX or SPDX"@)
    }
}

/// The facts of a bill that was read.
pub fn bill_report(value: &Json, source: &Source) -> (r: Result<Vec<Json>, String>)
    ensures
        facts_result(r) == bill_facts(value@, source@),
{
    match value.text_at("bomFormat") {
        Some(format) => {
            if same(format.as_str(), "CycloneDX") {
                return Ok(normalize_cyclonedx(value, source));
            }
        },
        None => {},
    }
    if value.get("spdxVersion").is_some() {
        return normalize_spdx(value, source);
    }
    Err("unsupported SBOM JSON; expected CycloneDX or SPDX".to_owned())
}

/// What a bill's text becomes.
pub open spec fn sbom_facts(input: Seq<char>, source: SourceV) -> Result<Seq<JsonV>, Seq<char>> {
    match json_read(input) {
        Ok(v) => bill_facts(v, source),
        Err(_) => Err("SBOM input was not valid JSON"@),
    }
}

pub fn normalize(input: &str, source: &Source) -> (r: Result<Vec<Json>, String>)
    ensures
        facts_result(r) == sbom_facts(input@, source@),
{
    match read_json(input) {
        Ok(v) => bill_report(&v, source),
        Err(_) => Err("SBOM input was not valid JSON".to_owned()),
    }
}

} // verus!
