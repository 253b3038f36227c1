//! Facts as rows: the columns that a record fills, the identity of its subject, and
//! the names that the subject goes by.
use vstd::prelude::*;
use crate::json::{items_view, json_print, lemma_array_view, opt_json, print_json, Json, JsonV};
use crate::text::{
    cat3, contains, copy_opt, cut_last, has_text, lower, opt_view, or, or_text, put_text, same,
    set_put, split_last, to_lower, trim, trim_start, trimmed, trimmed_start, views, CharClass,
};

verus! {

// ---------------------------------------------------------------------------
// Names
// ---------------------------------------------------------------------------
/// The short name of a component: what follows its last slash, without at-signs
/// before it.
pub open spec fn short_name(s: Seq<char>) -> Seq<char> {
    trim_start(
        match split_last(s, CharClass::Is('/')) {
            Some((_, name)) => name,
            None => s,
        },
        CharClass::Is('@'),
    )
}

pub fn component_key(value: &str) -> (r: String)
    ensures
        r@ == short_name(value@),
{
    match cut_last(value, CharClass::Is('/')) {
        Some((_, name)) => trimmed_start(name.as_str(), CharClass::Is('@')),
        None => trimmed_start(value, CharClass::Is('@')),
    }
}

/// The subject types that stand for a whole application.
pub open spec fn application_type(s: Seq<char>) -> bool {
    s == "app"@ || s == "application"@ || s == "repo"@ || s == "repository"@ || s == "sbom"@
}

fn is_application_type(s: &str) -> (r: bool)
    ensures
        r == application_type(s@),
{
    same(s, "app") || same(s, "application") || same(s, "repo") || same(s, "repository") || same(
        s,
        "sbom",
    )
}

/// The class of a subject type: application, dependency or component.
pub open spec fn class_of(subject_type: Option<Seq<char>>) -> Option<Seq<char>> {
    match subject_type {
        None => None,
        Some(t) => Some(
            if application_type(lower(t)) {
                "application"@
            } else if contains(lower(t), "dependency"@) {
                "dependency"@
            } else {
                "component"@
            },
        ),
    }
}

pub fn subject_class(subject_type: &Option<String>) -> (r: Option<String>)
    ensures
        opt_view(r) == class_of(opt_view(*subject_type)),
{
    match subject_type {
        None => None,
        Some(t) => {
            let low = to_lower(t.as_str());
            if is_application_type(low.as_str()) {
                Some("application".to_owned())
            } else if has_text(low.as_str(), "dependency") {
                Some("dependency".to_owned())
            } else {
                Some("component".to_owned())
            }
        },
    }
}

/// The text unless it is blank.
pub open spec fn solid(o: Option<Seq<char>>) -> Option<Seq<char>> {
    match o {
        Some(s) => if trim(s).len() > 0 {
            Some(s)
        } else {
            None
        },
        None => None,
    }
}

/// The identity of a subject: its type and, for an application with a repository,
/// the repository, else its name; nothing without a name.
pub open spec fn identity_of(
    subject_type: Option<Seq<char>>,
    subject_name: Option<Seq<char>>,
    repo: Option<Seq<char>>,
) -> Option<Seq<char>> {
    let kind = match solid(subject_type) {
        Some(t) => lower(t),
        None => lower("component"@),
    };
    match solid(subject_name) {
        None => None,
        Some(name) => match solid(repo) {
            Some(r) => if application_type(kind) {
                Some(kind + ":"@ + lower(trim(r)))
            } else {
                Some(kind + ":"@ + lower(trim(name)))
            },
            None => Some(kind + ":"@ + lower(trim(name))),
        },
    }
}

fn keep_solid(o: &Option<String>) -> (r: Option<String>)
    ensures
        opt_view(r) == solid(opt_view(*o)),
{
    match o {
        Some(s) => if trimmed(s.as_str()).as_str().is_empty() {
            None
        } else {
            Some(s.clone())
        },
        None => None,
    }
}

pub fn subject_identity(
    subject_type: &Option<String>,
    subject_name: &Option<String>,
    repo: &Option<String>,
) -> (r: Option<String>)
    ensures
        opt_view(r) == identity_of(
            opt_view(*subject_type),
            opt_view(*subject_name),
            opt_view(*repo),
        ),
{
    let kind = match keep_solid(subject_type) {
        Some(t) => to_lower(t.as_str()),
        None => to_lower("component"),
    };
    let name = match keep_solid(subject_name) {
        Some(n) => n,
        None => {
            return None;
        },
    };
    match keep_solid(repo) {
        Some(r) => {
            if is_application_type(kind.as_str()) {
                let low = to_lower(trimmed(r.as_str()).as_str());
                return Some(cat3(kind.as_str(), ":", low.as_str()));
            }
        },
        None => {},
    }
    let low = to_lower(trimmed(name.as_str()).as_str());
    Some(cat3(kind.as_str(), ":", low.as_str()))
}

// ---------------------------------------------------------------------------
// Aliases
// ---------------------------------------------------------------------------
/// The aliases with one more, unless it is blank.
pub open spec fn with_alias(aliases: Seq<Seq<char>>, alias: Seq<char>) -> Seq<Seq<char>> {
    if trim(alias).len() > 0 {
        set_put(aliases, trim(alias))
    } else {
        aliases
    }
}

pub fn add_alias(aliases: &mut Vec<String>, alias: &str)
    ensures
        views(final(aliases)@) == with_alias(views(old(aliases)@), alias@),
{
    let t = trimmed(alias);
    if !t.as_str().is_empty() {
        put_text(aliases, t.as_str());
    }
}

/// The aliases with the texts among the first `n` values.
pub open spec fn with_listed(aliases: Seq<Seq<char>>, a: Seq<JsonV>, n: int) -> Seq<Seq<char>>
    decreases n,
{
    if n <= 0 {
        aliases
    } else {
        match a[n - 1].as_text() {
            Some(s) => with_alias(with_listed(aliases, a, n - 1), s),
            None => with_listed(aliases, a, n - 1),
        }
    }
}

/// The aliases with those of a value: of its texts where it is a list, or of itself
/// where it is a text.
pub open spec fn with_value(aliases: Seq<Seq<char>>, v: Option<JsonV>) -> Seq<Seq<char>> {
    match v {
        Some(JsonV::Array(a)) => with_listed(aliases, a, a.len() as int),
        Some(JsonV::Text(s)) => with_alias(aliases, s),
        _ => aliases,
    }
}

pub fn collect_aliases(value: Option<&Json>, aliases: &mut Vec<String>)
    ensures
        views(final(aliases)@) == with_value(views(old(aliases)@), opt_json(value)),
{
    match value {
        Some(Json::Array(items)) => {
            proof {
                lemma_array_view(*items);
            }
            assert(opt_json(value) == Some(Json::Array(*items)@));
            let ghost base = views(aliases@);
            let ghost a = items_view(items@);
            let mut i: usize = 0;
            while i < items.len()
                invariant
                    a == items_view(items@),
                    i <= items@.len(),
                    views(aliases@) == with_listed(base, a, i as int),
                decreases items@.len() - i,
            {
                assert(a[i as int] == items@[i as int]@);
                match items[i].as_text() {
                    Some(s) => {
                        add_alias(aliases, s.as_str());
                    },
                    None => {},
                }
                i += 1;
            }
        },
        Some(Json::Text(s)) => {
            add_alias(aliases, s.as_str());
        },
        _ => {},
    }
}

pub open spec fn with_opt(aliases: Seq<Seq<char>>, o: Option<Seq<char>>) -> Seq<Seq<char>> {
    match o {
        Some(s) => with_alias(aliases, s),
        None => aliases,
    }
}

fn add_opt(aliases: &mut Vec<String>, o: &Option<String>)
    ensures
        views(final(aliases)@) == with_opt(views(old(aliases)@), opt_view(*o)),
{
    match o {
        Some(s) => {
            add_alias(aliases, s.as_str());
        },
        None => {},
    }
}

/// The member of a member.
pub open spec fn at2(v: JsonV, a: Seq<char>, b: Seq<char>) -> Option<JsonV> {
    match v.get(a) {
        Some(x) => x.get(b),
        None => None,
    }
}

fn get2<'a>(v: &'a Json, a: &str, b: &str) -> (r: Option<&'a Json>)
    ensures
        opt_json(r) == at2(v@, a@, b@),
{
    match v.get(a) {
        Some(x) => x.get(b),
        None => None,
    }
}

/// The text of the member of a member.
pub open spec fn text2(v: JsonV, a: Seq<char>, b: Seq<char>) -> Option<Seq<char>> {
    match at2(v, a, b) {
        Some(x) => x.as_text(),
        None => None,
    }
}

pub fn text_at2(v: &Json, a: &str, b: &str) -> (r: Option<String>)
    ensures
        opt_view(r) == text2(v@, a@, b@),
{
    match get2(v, a, b) {
        Some(x) => x.as_text(),
        None => None,
    }
}

/// The aliases of a subject: its name, component, repository and identity, and what
/// the fact and its subject list, sorted and each once.
pub open spec fn aliases_of(
    fact: JsonV,
    name: Option<Seq<char>>,
    component: Option<Seq<char>>,
    repo: Option<Seq<char>>,
    identity: Option<Seq<char>>,
) -> Seq<Seq<char>> {
    with_value(
        with_value(
            with_opt(with_opt(with_opt(with_opt(Seq::empty(), name), component), repo), identity),
            fact.get("aliases"@),
        ),
        at2(fact, "subject"@, "aliases"@),
    )
}

/// The JSON text of the aliases, where there are any.
pub open spec fn aliases_json(aliases: Seq<Seq<char>>) -> Option<Seq<char>> {
    if aliases.len() == 0 {
        None
    } else {
        Some(json_print(JsonV::texts(aliases)))
    }
}

pub fn subject_aliases(
    fact: &Json,
    name: &Option<String>,
    component: &Option<String>,
    repo: &Option<String>,
    identity: &Option<String>,
) -> (r: Vec<String>)
    ensures
        views(r@) == aliases_of(
            fact@,
            opt_view(*name),
            opt_view(*component),
            opt_view(*repo),
            opt_view(*identity),
        ),
{
    let mut aliases: Vec<String> = Vec::new();
    assert(views(aliases@) =~= Seq::empty());
    add_opt(&mut aliases, name);
    add_opt(&mut aliases, component);
    add_opt(&mut aliases, repo);
    add_opt(&mut aliases, identity);
    collect_aliases(fact.get("aliases"), &mut aliases);
    collect_aliases(get2(fact, "subject", "aliases"), &mut aliases);
    aliases
}

pub fn subject_aliases_json(
    fact: &Json,
    name: &Option<String>,
    component: &Option<String>,
    repo: &Option<String>,
    identity: &Option<String>,
) -> (r: Option<String>)
    ensures
        opt_view(r) == aliases_json(
            aliases_of(
                fact@,
                opt_view(*name),
                opt_view(*component),
                opt_view(*repo),
                opt_view(*identity),
            ),
        ),
{
    let aliases = subject_aliases(fact, name, component, repo, identity);
    assert(views(aliases@).len() == aliases@.len());
    if aliases.len() == 0 {
        None
    } else {
        Some(print_json(&Json::texts(&aliases)))
    }
}

proof fn lemma_alias_sorted(s: Seq<Seq<char>>, alias: Seq<char>)
    requires
        crate::text::sorted_set(s),
        forall|i: int| 0 <= i < s.len() ==> (#[trigger] s[i]).len() > 0,
    ensures
        crate::text::sorted_set(with_alias(s, alias)),
        forall|i: int|
            0 <= i < with_alias(s, alias).len() ==> (#[trigger] with_alias(s, alias)[i]).len() > 0,
{
    crate::text::lemma_set_put(s, trim(alias));
    let r = with_alias(s, alias);
    assert forall|i: int| 0 <= i < r.len() implies (#[trigger] r[i]).len() > 0 by {
        assert(r.contains(r[i]));
        if trim(alias).len() > 0 && r[i] != trim(alias) {
            assert(s.contains(r[i]));
        }
    }
}

proof fn lemma_listed_sorted(s: Seq<Seq<char>>, a: Seq<JsonV>, n: int)
    requires
        crate::text::sorted_set(s),
        forall|i: int| 0 <= i < s.len() ==> (#[trigger] s[i]).len() > 0,
    ensures
        crate::text::sorted_set(with_listed(s, a, n)),
        forall|i: int|
            0 <= i < with_listed(s, a, n).len() ==> (#[trigger] with_listed(s, a, n)[i]).len() > 0,
    decreases n,
{
    if n > 0 {
        lemma_listed_sorted(s, a, n - 1);
        match a[n - 1].as_text() {
            Some(t) => {
                lemma_alias_sorted(with_listed(s, a, n - 1), t);
            },
            None => {},
        }
    }
}

/// The aliases of a subject stand in order, each once, and none is empty.
pub proof fn law_aliases_sorted(
    fact: JsonV,
    name: Option<Seq<char>>,
    component: Option<Seq<char>>,
    repo: Option<Seq<char>>,
    identity: Option<Seq<char>>,
)
    ensures
        crate::text::sorted_set(aliases_of(fact, name, component, repo, identity)),
        forall|i: int|
            0 <= i < aliases_of(fact, name, component, repo, identity).len() ==> (
            #[trigger] aliases_of(fact, name, component, repo, identity)[i]).len() > 0,
{
    let s0 = Seq::<Seq<char>>::empty();
    let s1 = with_opt(s0, name);
    if name is Some {
        lemma_alias_sorted(s0, name.unwrap());
    }
    let s2 = with_opt(s1, component);
    if component is Some {
        lemma_alias_sorted(s1, component.unwrap());
    }
    let s3 = with_opt(s2, repo);
    if repo is Some {
        lemma_alias_sorted(s2, repo.unwrap());
    }
    let s4 = with_opt(s3, identity);
    if identity is Some {
        lemma_alias_sorted(s3, identity.unwrap());
    }
    let s5 = with_value(s4, fact.get("aliases"@));
    match fact.get("aliases"@) {
        Some(JsonV::Array(a)) => {
            lemma_listed_sorted(s4, a, a.len() as int);
        },
        Some(JsonV::Text(t)) => {
            lemma_alias_sorted(s4, t);
        },
        _ => {},
    }
    match at2(fact, "subject"@, "aliases"@) {
        Some(JsonV::Array(a)) => {
            lemma_listed_sorted(s5, a, a.len() as int);
        },
        Some(JsonV::Text(t)) => {
            lemma_alias_sorted(s5, t);
        },
        _ => {},
    }
}

// ---------------------------------------------------------------------------
// Rows
// ---------------------------------------------------------------------------
/// The JSON text of a list; anything else but null is a list of itself.
pub open spec fn list_json(v: Option<JsonV>) -> Option<Seq<char>> {
    match v {
        Some(JsonV::Array(a)) => Some(json_print(JsonV::Array(a))),
        Some(JsonV::Null) | None => None,
        Some(other) => Some(json_print(JsonV::Array(seq![other]))),
    }
}

pub fn json_array_text(value: Option<&Json>) -> (r: Option<String>)
    ensures
        opt_view(r) == list_json(opt_json(value)),
{
    match value {
        None => None,
        Some(Json::Null) => None,
        Some(j) => {
            if matches!(j, Json::Array(_)) {
                assert(j@ is Array);
                Some(print_json(j))
            } else {
                assert(!(j@ is Array) && !(j@ is Null));
                let mut one: Vec<Json> = Vec::new();
                one.push(j.copy());
                assert(items_view(one@) =~= seq![j@]);
                Some(print_json(&Json::array(one)))
            }
        },
    }
}

/// The columns that a record fills in the table of facts.
#[derive(Debug)]
pub struct FactRow {
    pub id: Option<String>,
    pub zone: Option<String>,
    pub kind: Option<String>,
    pub status: Option<String>,
    pub subject_type: Option<String>,
    pub component: Option<String>,
    pub canonical_component: Option<String>,
    pub identity: Option<String>,
    pub subject_class: Option<String>,
    pub version: Option<String>,
    pub repo: Option<String>,
    pub source_repo: Option<String>,
    pub source_sha: Option<String>,
    pub source_ref: Option<String>,
    pub subject_name: Option<String>,
    pub channel: Option<String>,
    pub tag: Option<String>,
    pub observed_at: Option<String>,
    pub accepted_at: Option<String>,
    pub requirements: Option<String>,
    pub provides: Option<String>,
    pub aliases: Option<String>,
    pub json: String,
}

pub struct RowV {
    pub id: Option<Seq<char>>,
    pub zone: Option<Seq<char>>,
    pub kind: Option<Seq<char>>,
    pub status: Option<Seq<char>>,
    pub subject_type: Option<Seq<char>>,
    pub component: Option<Seq<char>>,
    pub canonical_component: Option<Seq<char>>,
    pub identity: Option<Seq<char>>,
    pub subject_class: Option<Seq<char>>,
    pub version: Option<Seq<char>>,
    pub repo: Option<Seq<char>>,
    pub source_repo: Option<Seq<char>>,
    pub source_sha: Option<Seq<char>>,
    pub source_ref: Option<Seq<char>>,
    pub subject_name: Option<Seq<char>>,
    pub channel: Option<Seq<char>>,
    pub tag: Option<Seq<char>>,
    pub observed_at: Option<Seq<char>>,
    pub accepted_at: Option<Seq<char>>,
    pub requirements: Option<Seq<char>>,
    pub provides: Option<Seq<char>>,
    pub aliases: Option<Seq<char>>,
    pub json: Seq<char>,
}

impl View for FactRow {
    type V = RowV;

    open spec fn view(&self) -> RowV {
        RowV {
            id: opt_view(self.id),
            zone: opt_view(self.zone),
            kind: opt_view(self.kind),
            status: opt_view(self.status),
            subject_type: opt_view(self.subject_type),
            component: opt_view(self.component),
            canonical_component: opt_view(self.canonical_component),
            identity: opt_view(self.identity),
            subject_class: opt_view(self.subject_class),
            version: opt_view(self.version),
            repo: opt_view(self.repo),
            source_repo: opt_view(self.source_repo),
            source_sha: opt_view(self.source_sha),
            source_ref: opt_view(self.source_ref),
            subject_name: opt_view(self.subject_name),
            channel: opt_view(self.channel),
            tag: opt_view(self.tag),
            observed_at: opt_view(self.observed_at),
            accepted_at: opt_view(self.accepted_at),
            requirements: opt_view(self.requirements),
            provides: opt_view(self.provides),
            aliases: opt_view(self.aliases),
            json: self.json@,
        }
    }
}

/// The fact of a record: its member `fact` where that is an object, else the record
/// itself.
pub open spec fn fact_of(record: JsonV) -> JsonV {
    match record.object_at("fact"@) {
        Some(f) => f,
        None => record,
    }
}

pub open spec fn subject_name_of(fact: JsonV) -> Option<Seq<char>> {
    or(fact.text_at("subjectName"@), text2(fact, "subject"@, "name"@))
}

pub open spec fn subject_type_of(fact: JsonV) -> Option<Seq<char>> {
    or(fact.text_at("subjectType"@), text2(fact, "subject"@, "type"@))
}

pub open spec fn subject_repo_of(fact: JsonV) -> Option<Seq<char>> {
    or(fact.text_at("subjectRepo"@), text2(fact, "subject"@, "repo"@))
}

pub open spec fn component_of(fact: JsonV) -> Option<Seq<char>> {
    match subject_name_of(fact) {
        Some(n) => Some(short_name(n)),
        None => None,
    }
}

pub open spec fn fact_identity(fact: JsonV) -> Option<Seq<char>> {
    or(
        or(
            or(
                or(fact.text_at("identity"@), fact.text_at("canonicalId"@)),
                text2(fact, "subject"@, "identity"@),
            ),
            text2(fact, "subject"@, "id"@),
        ),
        identity_of(subject_type_of(fact), subject_name_of(fact), subject_repo_of(fact)),
    )
}

pub open spec fn source_repo_of(fact: JsonV, record: JsonV) -> Option<Seq<char>> {
    or(
        or(
            or(
                or(fact.text_at("sourceRepository"@), record.text_at("sourceRepository"@)),
                text2(fact, "source"@, "repo"@),
            ),
            text2(record, "source"@, "repo"@),
        ),
        text2(record, "source"@, "repository"@),
    )
}

/// A text of the source: of the fact or record itself, else of their source.
pub open spec fn source_text(fact: JsonV, record: JsonV, flat: Seq<char>, nested: Seq<char>) -> Option<
    Seq<char>,
> {
    or(
        or(
            or(fact.text_at(flat), record.text_at(flat)),
            text2(fact, "source"@, nested),
        ),
        text2(record, "source"@, nested),
    )
}

/// The row of a record.
pub open spec fn row_of(record: JsonV) -> RowV {
    let fact = fact_of(record);
    let source_repo = source_repo_of(fact, record);
    let source_ref = source_text(fact, record, "sourceRef"@, "ref"@);
    RowV {
        id: or(fact.text_at("id"@), record.text_at("id"@)),
        zone: or(
            or(or(fact.text_at("track"@), record.text_at("track"@)), fact.text_at("zone"@)),
            record.text_at("zone"@),
        ),
        kind: or(fact.text_at("kind"@), record.text_at("kind"@)),
        status: fact.text_at("status"@),
        subject_type: subject_type_of(fact),
        component: component_of(fact),
        canonical_component: or(
            or(
                fact.text_at("canonicalComponent"@),
                text2(fact, "subject"@, "canonicalComponent"@),
            ),
            component_of(fact),
        ),
        identity: fact_identity(fact),
        subject_class: class_of(subject_type_of(fact)),
        version: or(fact.text_at("subjectVersion"@), text2(fact, "subject"@, "version"@)),
        repo: or(subject_repo_of(fact), source_repo),
        source_repo,
        source_sha: source_text(fact, record, "sourceSha"@, "sha"@),
        source_ref,
        subject_name: subject_name_of(fact),
        channel: fact.text_at("channel"@),
        tag: or(fact.text_at("tag"@), source_ref),
        observed_at: or(fact.text_at("observedAt"@), record.text_at("observedAt"@)),
        accepted_at: or(record.text_at("acceptedAt"@), fact.text_at("acceptedAt"@)),
        requirements: list_json(fact.get("requires"@)),
        provides: list_json(fact.get("provides"@)),
        aliases: aliases_json(
            aliases_of(
                fact,
                subject_name_of(fact),
                component_of(fact),
                subject_repo_of(fact),
                fact_identity(fact),
            ),
        ),
        json: json_print(record),
    }
}

fn source_text_of(fact: &Json, record: &Json, flat: &str, nested: &str) -> (r: Option<String>)
    ensures
        opt_view(r) == source_text(fact@, record@, flat@, nested@),
{
    or_text(
        or_text(
            or_text(fact.text_at(flat), record.text_at(flat)),
            text_at2(fact, "source", nested),
        ),
        text_at2(record, "source", nested),
    )
}

pub fn fact_row(record: &Json) -> (r: FactRow)
    ensures
        r@ == row_of(record@),
{
    let fact = match record.object_at("fact") {
        Some(f) => f,
        None => record,
    };
    let zone = or_text(
        or_text(
            or_text(fact.text_at("track"), record.text_at("track")),
            fact.text_at("zone"),
        ),
        record.text_at("zone"),
    );
    let subject_type = or_text(fact.text_at("subjectType"), text_at2(fact, "subject", "type"));
    let subject_name = or_text(fact.text_at("subjectName"), text_at2(fact, "subject", "name"));
    let component = match &subject_name {
        Some(n) => Some(component_key(n.as_str())),
        None => None,
    };
    let subject_repo = or_text(fact.text_at("subjectRepo"), text_at2(fact, "subject", "repo"));
    let canonical_component = or_text(
        or_text(
            fact.text_at("canonicalComponent"),
            text_at2(fact, "subject", "canonicalComponent"),
        ),
        copy_opt(&component),
    );
    let class = subject_class(&subject_type);
    let identity = or_text(
        or_text(
            or_text(
                or_text(fact.text_at("identity"), fact.text_at("canonicalId")),
                text_at2(fact, "subject", "identity"),
            ),
            text_at2(fact, "subject", "id"),
        ),
        subject_identity(&subject_type, &subject_name, &subject_repo),
    );
    let aliases = subject_aliases_json(fact, &subject_name, &component, &subject_repo, &identity);
    let source_repo = or_text(
        or_text(
            or_text(
                or_text(fact.text_at("sourceRepository"), record.text_at("sourceRepository")),
                text_at2(fact, "source", "repo"),
            ),
            text_at2(record, "source", "repo"),
        ),
        text_at2(record, "source", "repository"),
    );
    let source_sha = source_text_of(fact, record, "sourceSha", "sha");
    let source_ref = source_text_of(fact, record, "sourceRef", "ref");
    let tag = or_text(fact.text_at("tag"), copy_opt(&source_ref));
    FactRow {
        id: or_text(fact.text_at("id"), record.text_at("id")),
        zone,
        kind: or_text(fact.text_at("kind"), record.text_at("kind")),
        status: fact.text_at("status"),
        component,
        canonical_component,
        identity,
        subject_class: class,
        version: or_text(fact.text_at("subjectVersion"), text_at2(fact, "subject", "version")),
        repo: or_text(copy_opt(&subject_repo), copy_opt(&source_repo)),
        source_repo,
        source_sha,
        source_ref,
        subject_type,
        subject_name,
        channel: fact.text_at("channel"),
        tag,
        observed_at: or_text(fact.text_at("observedAt"), record.text_at("observedAt")),
        accepted_at: or_text(record.text_at("acceptedAt"), fact.text_at("acceptedAt")),
        requirements: json_array_text(fact.get("requires")),
        provides: json_array_text(fact.get("provides")),
        aliases,
        json: print_json(record),
    }
}

pub open spec fn row_views(v: Seq<FactRow>) -> Seq<RowV> {
    v.map_values(|r: FactRow| r@)
}

/// The rows to insert for the records, one for each, in their order.
pub fn insert_facts(facts: &Vec<Json>) -> (r: Vec<FactRow>)
    ensures
        row_views(r@) == items_view(facts@).map_values(|f: JsonV| row_of(f)),
{
    let ghost all = items_view(facts@).map_values(|f: JsonV| row_of(f));
    let mut out: Vec<FactRow> = Vec::new();
    let mut i: usize = 0;
    while i < facts.len()
        invariant
            all == items_view(facts@).map_values(|f: JsonV| row_of(f)),
            i <= facts@.len(),
            row_views(out@) == all.take(i as int),
        decreases facts@.len() - i,
    {
        let ghost before = row_views(out@);
        let row = fact_row(&facts[i]);
        let ghost next = row@;
        out.push(row);
        assert(row_views(out@) =~= before.push(next));
        assert(all[i as int] == next);
        assert(all.take(i as int + 1) =~= before.push(next));
        i += 1;
    }
    assert(all.take(i as int) =~= all);
    out
}

} // verus!
