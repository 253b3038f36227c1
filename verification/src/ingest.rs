//! Turning the reports of other tools into facts: what all adapters share, and the
//! adapters of test runners.
use vstd::prelude::*;
use crate::context::Surroundings;
use crate::facts::{component_key, short_name};
use crate::json::{
    items_view, json_read, lemma_array_view, lemma_object_view, members_view, read_json, Json,
    JsonV, Member, MemberV,
};
use crate::request::{
    current_branch, current_exact_tag, current_repo, current_sha, 
};
use crate::text::{
    alnum, cat2, cat3, cat5, copy_opt, debug_of, debug_text, decimal, digits_of_usize, is_alnum,
    lower, lower_char, opt_view, or, or_text, same, to_lower, to_lower_char, trim, trim_class,
    trimmed, trimmed_class, CharClass,
};

verus! {

// ---------------------------------------------------------------------------
// Sources
// ---------------------------------------------------------------------------
/// Where a report comes from.
#[derive(Debug)]
pub struct Source {
    pub adapter: String,
    pub zone: String,
    pub repo: Option<String>,
    pub component: String,
    pub version: Option<String>,
    pub sha: Option<String>,
    pub reference: Option<String>,
}

pub struct SourceV {
    pub adapter: Seq<char>,
    pub zone: Seq<char>,
    pub repo: Option<Seq<char>>,
    pub component: Seq<char>,
    pub version: Option<Seq<char>>,
    pub sha: Option<Seq<char>>,
    pub reference: Option<Seq<char>>,
}

impl View for Source {
    type V = SourceV;

    open spec fn view(&self) -> SourceV {
        SourceV {
            adapter: self.adapter@,
            zone: self.zone@,
            repo: opt_view(self.repo),
            component: self.component@,
            version: opt_view(self.version),
            sha: opt_view(self.sha),
            reference: opt_view(self.reference),
        }
    }
}

/// Whether a name is that of an adapter.
pub open spec fn supported(name: Seq<char>) -> bool {
    name == "junit"@ || name == "sbom"@ || name == "tox"@ || name == "nox"@ || name == "k6"@
        || name == "microcks"@
}

pub open spec fn unsupported_message(adapter: Seq<char>) -> Seq<char> {
    "unsupported ingest adapter "@ + debug_text(adapter)
        + "; supported adapters: junit, sbom, tox, nox, k6, microcks"@
}

/// The name of an adapter, whatever its case and the space around it.
pub fn normalize_adapter(adapter: &str) -> (r: Result<String, String>)
    ensures
        supported(lower(trim(adapter@))) ==> (r matches Ok(name) && name@ == lower(
            trim(adapter@),
        )),
        !supported(lower(trim(adapter@))) ==> (r matches Err(m) && m@ == unsupported_message(
            adapter@,
        )),
{
    let name = to_lower(trimmed(adapter).as_str());
    let n = name.as_str();
    if same(n, "junit") || same(n, "sbom") || same(n, "tox") || same(n, "nox") || same(n, "k6")
        || same(n, "microcks") {
        Ok(name)
    } else {
        Err(
            cat3(
                "unsupported ingest adapter ",
                debug_of(adapter).as_str(),
                "; supported adapters: junit, sbom, tox, nox, k6, microcks",
            ),
        )
    }
}

/// The zone of an adapter's facts unless another is given.
pub open spec fn adapter_zone(adapter: Seq<char>) -> Seq<char> {
    if adapter == "sbom"@ {
        "supply-chain"@
    } else if supported(adapter) {
        "test"@
    } else {
        "evidence"@
    }
}

pub fn default_zone(adapter: &str) -> (r: &'static str)
    ensures
        r@ == adapter_zone(adapter@),
{
    if same(adapter, "sbom") {
        "supply-chain"
    } else if same(adapter, "junit") || same(adapter, "tox") || same(adapter, "nox") || same(
        adapter,
        "k6",
    ) || same(adapter, "microcks") {
        "test"
    } else {
        "evidence"
    }
}

/// What the command line says of a report.
#[derive(Debug)]
pub struct IngestArgs {
    pub zone: Option<String>,
    pub repo: Option<String>,
    pub component: Option<String>,
    pub version: Option<String>,
    pub sha: Option<String>,
    pub reference: Option<String>,
}

/// The source of a report: what the command line says, else what git says; the
/// component is else named by the repository, else by the adapter.
pub open spec fn source_of(adapter: Seq<char>, args: IngestArgs, around: Surroundings) -> SourceV {
    let repo = or(opt_view(args.repo), around@.repo);
    SourceV {
        adapter,
        zone: match opt_view(args.zone) {
            Some(z) => z,
            None => adapter_zone(adapter),
        },
        repo,
        component: match opt_view(args.component) {
            Some(c) => c,
            None => match repo {
                Some(name) => short_name(name),
                None => adapter,
            },
        },
        version: opt_view(args.version),
        sha: or(opt_view(args.sha), around@.sha),
        reference: or(
            opt_view(args.reference),
            or(around@.tag, around@.branch),
        ),
    }
}

pub fn ingest_source(adapter: String, args: &IngestArgs, around: &Surroundings) -> (r: Source)
    ensures
        r@ == source_of(adapter@, *args, *around),
{
    let repo = or_text(copy_opt(&args.repo), current_repo(&around.remote));
    let component = match &args.component {
        Some(c) => c.clone(),
        None => match &repo {
            Some(name) => component_key(name.as_str()),
            None => adapter.clone(),
        },
    };
    let zone = match &args.zone {
        Some(z) => z.clone(),
        None => default_zone(adapter.as_str()).to_owned(),
    };
    Source {
        adapter,
        zone,
        repo,
        component,
        version: copy_opt(&args.version),
        sha: or_text(copy_opt(&args.sha), current_sha(&around.sha)),
        reference: or_text(
            copy_opt(&args.reference),
            or_text(current_exact_tag(&around.tag), current_branch(&around.branch)),
        ),
    }
}

// ---------------------------------------------------------------------------
// Names and fields
// ---------------------------------------------------------------------------
/// The character as it stands in an id.
pub open spec fn slug_char(c: char) -> char {
    if is_alnum(c) || c == '.' || c == '-' || c == '_' {
        lower_char(c)
    } else {
        '-'
    }
}

pub open spec fn slug_chars(s: Seq<char>) -> Seq<char> {
    s.map_values(|c: char| slug_char(c))
}

/// A text as it stands in an id.
pub open spec fn slug_text(s: Seq<char>) -> Seq<char> {
    let t = trim_class(slug_chars(s), CharClass::Is('-'));
    if t.len() == 0 {
        "unknown"@
    } else {
        t
    }
}

pub fn slug(value: &str) -> (r: String)
    ensures
        r@ == slug_text(value@),
{
    let chars = crate::text::chars_of(value);
    let mut out = String::new();
    let ghost all = slug_chars(value@);
    let mut i: usize = 0;
    while i < chars.len()
        invariant
            i <= chars@.len(),
            chars@ == value@,
            all == slug_chars(value@),
            out@ == all.take(i as int),
        decreases chars@.len() - i,
    {
        let c = chars[i];
        let d = if alnum(c) || c == '.' || c == '-' || c == '_' {
            to_lower_char(c)
        } else {
            '-'
        };
        out.push(d);
        assert(all[i as int] == d);
        assert(all.take(i as int + 1) =~= all.take(i as int).push(d));
        i += 1;
    }
    assert(all.take(i as int) =~= all);
    let t = trimmed_class(out.as_str(), CharClass::Is('-'));
    if crate::text::char_count(t.as_str()) == 0 {
        "unknown".to_owned()
    } else {
        t
    }
}

/// A point and the slug of a version, if there is one.
pub open spec fn version_suffix(version: Option<Seq<char>>) -> Seq<char> {
    match version {
        Some(v) => "."@ + slug_text(v),
        None => Seq::empty(),
    }
}

pub fn slug_suffix(version: &Option<String>) -> (r: String)
    ensures
        r@ == version_suffix(opt_view(*version)),
{
    match version {
        Some(v) => cat2(".", slug(v.as_str()).as_str()),
        None => String::new(),
    }
}

/// The text of a member, without space around it; none where nothing is left.
pub open spec fn field_text(v: JsonV, key: Seq<char>) -> Option<Seq<char>> {
    match v.text_at(key) {
        Some(s) => if trim(s).len() > 0 {
            Some(trim(s))
        } else {
            None
        },
        None => None,
    }
}

pub fn string_field(value: &Json, key: &str) -> (r: Option<String>)
    ensures
        opt_view(r) == field_text(value@, key@),
{
    match value.text_at(key) {
        Some(s) => {
            let t = trimmed(s.as_str());
            if crate::text::char_count(t.as_str()) > 0 {
                Some(t)
            } else {
                None
            }
        },
        None => None,
    }
}

/// An object with a text member, where the text is not blank.
pub open spec fn with_optional(v: JsonV, key: Seq<char>, text: Option<Seq<char>>) -> JsonV {
    match text {
        Some(s) => if trim(s).len() > 0 {
            v.with(key, JsonV::Text(s))
        } else {
            v
        },
        None => v,
    }
}

pub fn put_optional(v: Json, key: &str, text: &Option<String>) -> (r: Json)
    ensures
        r@ == with_optional(v@, key@, opt_view(*text)),
{
    match text {
        Some(s) => {
            let t = trimmed(s.as_str());
            if crate::text::char_count(t.as_str()) > 0 {
                v.with(key, Json::text(s.as_str()))
            } else {
                v
            }
        },
        None => v,
    }
}

/// A fact with a list, where the list is not empty.
pub open spec fn with_list(fact: JsonV, key: Seq<char>, items: Seq<JsonV>) -> JsonV {
    if items.len() > 0 {
        fact.with(key, JsonV::Array(items))
    } else {
        fact
    }
}

pub fn put_array(fact: Json, key: &str, items: Vec<Json>) -> (r: Json)
    ensures
        r@ == with_list(fact@, key@, items_view(items@)),
{
    if items.len() > 0 {
        fact.with(key, Json::array(items))
    } else {
        fact
    }
}

/// A fact with a value, where the value is not null.
pub open spec fn with_value(fact: JsonV, key: Seq<char>, value: JsonV) -> JsonV {
    if value is Null {
        fact
    } else {
        fact.with(key, value)
    }
}

pub fn put_object(fact: Json, key: &str, value: Json) -> (r: Json)
    ensures
        r@ == with_value(fact@, key@, value@),
{
    if value.is_null() {
        fact
    } else {
        fact.with(key, value)
    }
}

// ---------------------------------------------------------------------------
// Nulls
// ---------------------------------------------------------------------------
/// The value without members that are null, at any depth.
pub open spec fn strip_nulls(v: JsonV) -> JsonV
    decreases v, 0int,
{
    match v {
        JsonV::Array(a) => JsonV::Array(
            Seq::new(
                a.len(),
                |i: int|
                    if 0 <= i < a.len() {
                        strip_nulls(a[i])
                    } else {
                        JsonV::Null
                    },
            ),
        ),
        JsonV::Object(m) => JsonV::Object(stripped_members(m, m.len() as int)),
        _ => v,
    }
}

/// The first `n` members without what is null in them or is left null.
pub open spec fn stripped_members(m: Seq<MemberV>, n: int) -> Seq<MemberV>
    decreases m, n,
{
    if n <= 0 || n > m.len() {
        Seq::empty()
    } else {
        let value = strip_nulls(m[n - 1].value);
        if value is Null {
            stripped_members(m, n - 1)
        } else {
            stripped_members(m, n - 1).push(MemberV { key: m[n - 1].key, value })
        }
    }
}

pub fn json_strip_nulls(value: &Json) -> (r: Json)
    ensures
        r@ == strip_nulls(value@),
    decreases value,
{
    broadcast use {lemma_array_view, lemma_object_view};

    match value {
        Json::Array(v) => {
            assert(value@ == Json::Array(*v)@);
            let ghost all = strip_nulls(value@)->Array_0;
            let mut out: Vec<Json> = Vec::new();
            let mut i: usize = 0;
            while i < v.len()
                invariant
                    i <= v@.len(),
                    value matches Json::Array(w) && w == v,
                    value@ == JsonV::Array(items_view(v@)),
                    strip_nulls(value@) == JsonV::Array(all),
                    all.len() == v@.len(),
                    items_view(out@) == all.take(i as int),
                decreases v@.len() - i,
            {
                let ghost before = items_view(out@);
                let ghost next = strip_nulls(v@[i as int]@);
                out.push(json_strip_nulls(&v[i]));
                assert(items_view(out@) =~= before.push(next));
                assert(all[i as int] == next);
                assert(all.take(i as int + 1) =~= before.push(next));
                i += 1;
            }
            assert(all.take(i as int) =~= all);
            Json::Array(out)
        },
        Json::Object(m) => {
            assert(value@ == Json::Object(*m)@);
            let ghost mv = members_view(m@);
            let mut out: Vec<Member> = Vec::new();
            let mut i: usize = 0;
            assert(members_view(out@) =~= Seq::empty());
            while i < m.len()
                invariant
                    i <= m@.len(),
                    value matches Json::Object(w) && w == m,
                    mv == members_view(m@),
                    members_view(out@) == stripped_members(mv, i as int),
                decreases m@.len() - i,
            {
                let stripped = json_strip_nulls(&m[i].value);
                if !stripped.is_null() {
                    let ghost before = members_view(out@);
                    let ghost next = MemberV { key: mv[i as int].key, value: stripped@ };
                    out.push(Member { key: m[i].key.clone(), value: stripped });
                    assert(members_view(out@) =~= before.push(next));
                }
                i += 1;
            }
            Json::Object(out)
        },
        _ => value.copy(),
    }
}

// ---------------------------------------------------------------------------
// Facts
// ---------------------------------------------------------------------------
/// A fact of a source before what its adapter adds.
pub open spec fn base(
    source: SourceV,
    id: Seq<char>,
    subject_type: Seq<char>,
    subject_name: Seq<char>,
    subject_version: Option<Seq<char>>,
    status: Seq<char>,
) -> JsonV {
    let subject = strip_nulls(
        JsonV::empty_object().with("type"@, JsonV::Text(subject_type)).with(
            "name"@,
            JsonV::Text(subject_name),
        ).with("version"@, JsonV::opt_text(subject_version)).with(
            "canonicalComponent"@,
            JsonV::Text(source.component),
        ).with("repo"@, JsonV::opt_text(source.repo)),
    );
    let origin = strip_nulls(
        JsonV::empty_object().with("adapter"@, JsonV::Text(source.adapter)).with(
            "repo"@,
            JsonV::opt_text(source.repo),
        ).with("sha"@, JsonV::opt_text(source.sha)).with(
            "ref"@,
            JsonV::opt_text(source.reference),
        ),
    );
    let map = JsonV::empty_object().with("id"@, JsonV::Text(id)).with(
        "zone"@,
        JsonV::Text(source.zone),
    ).with("kind"@, JsonV::Text("evidence"@)).with("status"@, JsonV::Text(status)).with(
        "subjectType"@,
        JsonV::Text(subject_type),
    ).with("subjectName"@, JsonV::Text(subject_name)).with(
        "canonicalComponent"@,
        JsonV::Text(source.component),
    ).with("subject"@, subject).with("source"@, origin);
    with_optional(
        with_optional(
            with_optional(
                with_optional(map, "subjectVersion"@, subject_version),
                "sourceRepository"@,
                source.repo,
            ),
            "sourceSha"@,
            source.sha,
        ),
        "sourceRef"@,
        source.reference,
    )
}

pub fn base_fact(
    source: &Source,
    id: &str,
    subject_type: &str,
    subject_name: &str,
    subject_version: &Option<String>,
    status: &str,
) -> (r: Json)
    ensures
        r@ == base(
            source@,
            id@,
            subject_type@,
            subject_name@,
            opt_view(*subject_version),
            status@,
        ),
{
    let subject = Json::object().with("type", Json::text(subject_type)).with(
        "name",
        Json::text(subject_name),
    ).with("version", Json::opt_text(subject_version)).with(
        "canonicalComponent",
        Json::text(source.component.as_str()),
    ).with("repo", Json::opt_text(&source.repo));
    let origin = Json::object().with("adapter", Json::text(source.adapter.as_str())).with(
        "repo",
        Json::opt_text(&source.repo),
    ).with("sha", Json::opt_text(&source.sha)).with("ref", Json::opt_text(&source.reference));
    let map = Json::object().with("id", Json::text(id)).with(
        "zone",
        Json::text(source.zone.as_str()),
    ).with("kind", Json::text("evidence")).with("status", Json::text(status)).with(
        "subjectType",
        Json::text(subject_type),
    ).with("subjectName", Json::text(subject_name)).with(
        "canonicalComponent",
        Json::text(source.component.as_str()),
    ).with("subject", json_strip_nulls(&subject)).with("source", json_strip_nulls(&origin));
    put_optional(
        put_optional(
            put_optional(
                put_optional(map, "subjectVersion", subject_version),
                "sourceRepository",
                &source.repo,
            ),
            "sourceSha",
            &source.sha,
        ),
        "sourceRef",
        &source.reference,
    )
}

// ---------------------------------------------------------------------------
// Test runs
// ---------------------------------------------------------------------------
pub open spec fn passing_word(s: Seq<char>) -> bool {
    s == "pass"@ || s == "passed"@ || s == "success"@ || s == "ok"@
}

pub open spec fn failing_word(s: Seq<char>) -> bool {
    s == "fail"@ || s == "failed"@ || s == "failure"@ || s == "error"@ || s == "errored"@
}

pub open spec fn status_word(v: JsonV) -> Option<Seq<char>> {
    or(field_text(v, "status"@), or(field_text(v, "result"@), field_text(v, "outcome"@)))
}

pub open spec fn exit_value(v: JsonV) -> Option<JsonV> {
    match v.get("retcode"@) {
        Some(x) => Some(x),
        None => match v.get("returncode"@) {
            Some(x) => Some(x),
            None => v.get("exit_code"@),
        },
    }
}

pub open spec fn passed_or_failed(passed: bool) -> Seq<char> {
    if passed {
        "passed"@
    } else {
        "failed"@
    }
}

/// How a test run went: by its word, else by whether it says that it succeeded, else by
/// its exit code.
pub open spec fn run_status(v: JsonV) -> Seq<char> {
    let word = status_word(v);
    if word is Some && passing_word(lower(word->Some_0)) {
        "passed"@
    } else if word is Some && failing_word(lower(word->Some_0)) {
        "failed"@
    } else {
        match v.bool_at("success"@) {
            Some(b) => passed_or_failed(b),
            None => match exit_value(v) {
                Some(x) => match x.as_i64() {
                    Some(n) => passed_or_failed(n == 0),
                    None => "observed"@,
                },
                None => "observed"@,
            },
        }
    }
}

pub(crate) fn passed_word(passed: bool) -> (r: &'static str)
    ensures
        r@ == passed_or_failed(passed),
{
    if passed {
        "passed"
    } else {
        "failed"
    }
}

pub fn test_status(value: &Json) -> (r: &'static str)
    ensures
        r@ == run_status(value@),
{
    let word = or_text(
        string_field(value, "status"),
        or_text(string_field(value, "result"), string_field(value, "outcome")),
    );
    match &word {
        Some(w) => {
            let lowered = to_lower(w.as_str());
            let s = lowered.as_str();
            if same(s, "pass") || same(s, "passed") || same(s, "success") || same(s, "ok") {
                return "passed";
            }
            if same(s, "fail") || same(s, "failed") || same(s, "failure") || same(s, "error")
                || same(s, "errored") {
                return "failed";
            }
        },
        None => {},
    }
    match value.bool_at("success") {
        Some(b) => {
            return passed_word(b);
        },
        None => {},
    }
    let exit = match value.get("retcode") {
        Some(x) => Some(x),
        None => match value.get("returncode") {
            Some(x) => Some(x),
            None => value.get("exit_code"),
        },
    };
    match exit {
        Some(x) => match x.as_i64() {
            Some(n) => passed_word(n == 0),
            None => "observed",
        },
        None => "observed",
    }
}

/// The fact of one test run.
pub open spec fn run_fact(
    source: SourceV,
    adapter: Seq<char>,
    subject_type: Seq<char>,
    name: Seq<char>,
    evidence: JsonV,
) -> JsonV {
    let fact = base(
        source,
        adapter + "."@ + slug_text(source.component) + "."@ + slug_text(name),
        subject_type,
        name,
        source.version,
        run_status(evidence),
    );
    with_value(
        with_list(
            fact,
            "provides"@,
            seq![
                JsonV::empty_object().with("capability"@, JsonV::Text("test:"@ + adapter)).with(
                    "version"@,
                    JsonV::opt_text(source.version),
                ),
            ],
        ),
        "result"@,
        evidence,
    )
}

/// A list of one value.
pub fn just(value: Json) -> (r: Vec<Json>)
    ensures
        items_view(r@) == seq![value@],
{
    let ghost v = value@;
    let mut out: Vec<Json> = Vec::new();
    out.push(value);
    assert(items_view(out@) =~= seq![v]);
    out
}

pub fn test_run_fact(
    source: &Source,
    adapter: &str,
    subject_type: &str,
    name: &str,
    evidence: &Json,
) -> (r: Json)
    ensures
        r@ == run_fact(source@, adapter@, subject_type@, name@, evidence@),
{
    let id = cat5(
        adapter,
        ".",
        slug(source.component.as_str()).as_str(),
        ".",
        slug(name).as_str(),
    );
    let fact = base_fact(
        source,
        id.as_str(),
        subject_type,
        name,
        &source.version,
        test_status(evidence),
    );
    let provided = Json::object().with(
        "capability",
        Json::text(cat2("test:", adapter).as_str()),
    ).with("version", Json::opt_text(&source.version));
    put_object(put_array(fact, "provides", just(provided)), "result", evidence.copy())
}

// ---------------------------------------------------------------------------
// tox and nox
// ---------------------------------------------------------------------------
pub open spec fn environments(v: JsonV) -> Option<JsonV> {
    match v.get("testenvs"@) {
        Some(x) => Some(x),
        None => v.get("envs"@),
    }
}

/// The facts of a tox report: one for each environment, or one of the whole run.
pub open spec fn tox_facts(v: JsonV, source: SourceV) -> Seq<JsonV> {
    let whole = seq![run_fact(source, "tox"@, "tox-run"@, source.component, v)];
    match environments(v) {
        Some(JsonV::Object(m)) => if m.len() > 0 {
            m.map_values(|e: MemberV| run_fact(source, "tox"@, "tox-env"@, e.key, e.value))
        } else {
            whole
        },
        _ => whole,
    }
}

/// The facts of a tox report that was read.
pub fn tox_report(value: &Json, source: &Source) -> (r: Vec<Json>)
    ensures
        items_view(r@) == tox_facts(value@, source@),
{
    let envs = match value.get("testenvs") {
        Some(x) => Some(x),
        None => value.get("envs"),
    };
    match envs {
        Some(Json::Object(m)) => {
            proof {
                lemma_object_view(*m);
            }
            assert(environments(value@) == Some(Json::Object(*m)@));
            if m.len() > 0 {
                let ghost all = tox_facts(value@, source@);
                let mut out: Vec<Json> = Vec::new();
                let mut i: usize = 0;
                assert(items_view(out@) =~= all.take(0));
                while i < m.len()
                    invariant
                        i <= m@.len(),
                        all.len() == m@.len(),
                        all == members_view(m@).map_values(
                            |e: MemberV| run_fact(source@, "tox"@, "tox-env"@, e.key, e.value),
                        ),
                        items_view(out@) == all.take(i as int),
                    decreases m@.len() - i,
                {
                    let ghost before = items_view(out@);
                    let fact = test_run_fact(
                        source,
                        "tox",
                        "tox-env",
                        m[i].key.as_str(),
                        &m[i].value,
                    );
                    let ghost next = fact@;
                    out.push(fact);
                    assert(items_view(out@) =~= before.push(next));
                    assert(all[i as int] == next);
                    assert(all.take(i as int + 1) =~= before.push(next));
                    i += 1;
                }
                assert(all.take(i as int) =~= all);
                return out;
            }
        },
        _ => {},
    }
    just(test_run_fact(source, "tox", "tox-run", source.component.as_str(), value))
}

pub open spec fn tox_result(input: Seq<char>, source: SourceV) -> Result<Seq<JsonV>, Seq<char>> {
    match json_read(input) {
        Ok(v) => Ok(tox_facts(v, source)),
        Err(_) => Err("tox input was not valid JSON"@),
    }
}

pub fn normalize_tox(input: &str, source: &Source) -> (r: Result<Vec<Json>, String>)
    ensures
        facts_result(r) == tox_result(input@, source@),
{
    match read_json(input) {
        Ok(v) => Ok(tox_report(&v, source)),
        Err(_) => Err("tox input was not valid JSON".to_owned()),
    }
}

/// What a list of facts or an error is.
pub open spec fn facts_result(r: Result<Vec<Json>, String>) -> Result<Seq<JsonV>, Seq<char>> {
    match r {
        Ok(v) => Ok(items_view(v@)),
        Err(m) => Err(m@),
    }
}

pub open spec fn sessions(v: JsonV) -> Seq<JsonV> {
    let found = match v.get("sessions"@) {
        Some(x) => Some(x),
        None => v.get("results"@),
    };
    match found {
        Some(JsonV::Array(a)) => a,
        _ => Seq::empty(),
    }
}

pub open spec fn session_name(session: JsonV, index: nat) -> Seq<char> {
    match or(field_text(session, "name"@), field_text(session, "session"@)) {
        Some(s) => s,
        None => "session-"@ + decimal(index),
    }
}

/// The facts of a nox report: one for each session, or one of the whole run.
pub open spec fn nox_facts(v: JsonV, source: SourceV) -> Seq<JsonV> {
    let a = sessions(v);
    if a.len() > 0 {
        Seq::new(
            a.len(),
            |i: int|
                run_fact(source, "nox"@, "nox-session"@, session_name(a[i], i as nat), a[i]),
        )
    } else {
        seq![run_fact(source, "nox"@, "nox-run"@, source.component, v)]
    }
}

/// The facts of a nox report that was read.
pub fn nox_report(value: &Json, source: &Source) -> (r: Vec<Json>)
    ensures
        items_view(r@) == nox_facts(value@, source@),
{
    let found = match value.get("sessions") {
        Some(x) => Some(x),
        None => value.get("results"),
    };
    match found {
        Some(Json::Array(v)) => {
            proof {
                lemma_array_view(*v);
            }
            assert(sessions(value@) == items_view(v@));
            if v.len() > 0 {
                let ghost all = nox_facts(value@, source@);
                let mut out: Vec<Json> = Vec::new();
                let mut i: usize = 0;
                assert(items_view(out@) =~= all.take(0));
                while i < v.len()
                    invariant
                        i <= v@.len(),
                        sessions(value@) == items_view(v@),
                        v@.len() > 0,
                        all == nox_facts(value@, source@),
                        items_view(out@) == all.take(i as int),
                    decreases v@.len() - i,
                {
                    let ghost before = items_view(out@);
                    let name = match or_text(
                        string_field(&v[i], "name"),
                        string_field(&v[i], "session"),
                    ) {
                        Some(s) => s,
                        None => cat2("session-", digits_of_usize(i).as_str()),
                    };
                    let fact = test_run_fact(source, "nox", "nox-session", name.as_str(), &v[i]);
                    let ghost next = fact@;
                    out.push(fact);
                    assert(items_view(out@) =~= before.push(next));
                    assert(items_view(v@)[i as int] == v@[i as int]@);
                    assert(all[i as int] == next);
                    assert(all.take(i as int + 1) =~= before.push(next));
                    i += 1;
                }
                assert(all.take(i as int) =~= all);
                return out;
            }
        },
        _ => {},
    }
    just(test_run_fact(source, "nox", "nox-run", source.component.as_str(), value))
}

pub open spec fn nox_result(input: Seq<char>, source: SourceV) -> Result<Seq<JsonV>, Seq<char>> {
    match json_read(input) {
        Ok(v) => Ok(nox_facts(v, source)),
        Err(_) => Err("nox input was not valid JSON"@),
    }
}

pub fn normalize_nox(input: &str, source: &Source) -> (r: Result<Vec<Json>, String>)
    ensures
        facts_result(r) == nox_result(input@, source@),
{
    match read_json(input) {
        Ok(v) => Ok(nox_report(&v, source)),
        Err(_) => Err("nox input was not valid JSON".to_owned()),
    }
}

} // verus!
