//! What is read of a fact: where each column of its row comes from, what names it has, and
//! what a query's context is.
use vstd::prelude::*;
use crate::context::{browsing, detected, ContextV, SurroundingsV};
use crate::facts::{
    aliases_of, at2, class_of, fact_of, identity_of, row_of, short_name, with_listed, with_opt,
    with_value,
};
use crate::graph::split_version;
use crate::json::{json_print, JsonV};
use crate::text::{
    contains, index_past, last_index_of, lemma_index_past, lower, set_put, split_last, text_less,
    trim, trim_start, CharClass,
};

verus! {

// ---------------------------------------------------------------------------
// Rows
// ---------------------------------------------------------------------------
/// The first text that is there.
pub open spec fn first_text(given: Seq<Option<Seq<char>>>) -> Option<Seq<char>>
    decreases given.len(),
{
    if given.len() == 0 {
        None
    } else if given[0] is Some {
        given[0]
    } else {
        first_text(given.skip(1))
    }
}

/// The text of a member of a member.
pub open spec fn nested(v: JsonV, outer: Seq<char>, inner: Seq<char>) -> Option<Seq<char>> {
    match v.get(outer) {
        Some(x) => x.text_at(inner),
        None => None,
    }
}

proof fn lemma_first_two(a: Option<Seq<char>>, b: Option<Seq<char>>)
    ensures
        first_text(seq![a, b]) == (if a is Some {
            a
        } else {
            b
        }),
{
    reveal_with_fuel(first_text, 3);
    assert(seq![a, b].skip(1) =~= seq![b]);
    assert(seq![b].skip(1) =~= Seq::empty());
}

proof fn lemma_first_three(a: Option<Seq<char>>, b: Option<Seq<char>>, c: Option<Seq<char>>)
    ensures
        first_text(seq![a, b, c]) == (if a is Some {
            a
        } else if b is Some {
            b
        } else {
            c
        }),
{
    lemma_first_two(b, c);
    assert(seq![a, b, c].skip(1) =~= seq![b, c]);
}

proof fn lemma_first_four(
    a: Option<Seq<char>>,
    b: Option<Seq<char>>,
    c: Option<Seq<char>>,
    d: Option<Seq<char>>,
)
    ensures
        first_text(seq![a, b, c, d]) == (if a is Some {
            a
        } else if b is Some {
            b
        } else if c is Some {
            c
        } else {
            d
        }),
{
    lemma_first_three(b, c, d);
    assert(seq![a, b, c, d].skip(1) =~= seq![b, c, d]);
}

proof fn lemma_first_five(
    a: Option<Seq<char>>,
    b: Option<Seq<char>>,
    c: Option<Seq<char>>,
    d: Option<Seq<char>>,
    e: Option<Seq<char>>,
)
    ensures
        first_text(seq![a, b, c, d, e]) == (if a is Some {
            a
        } else if b is Some {
            b
        } else if c is Some {
            c
        } else if d is Some {
            d
        } else {
            e
        }),
{
    lemma_first_four(b, c, d, e);
    assert(seq![a, b, c, d, e].skip(1) =~= seq![b, c, d, e]);
}

/// A row is made of a record and the fact in it, or of the record itself where it holds
/// none: each column is the first text that is there, of the fact before the record and of
/// its own members before nested ones.
pub proof fn law_row_is_read_from_record(record: JsonV)
    ensures
        ({
            let fact = if record.get("fact"@) is Some && record.get("fact"@)->Some_0 is Object {
                record.get("fact"@)->Some_0
            } else {
                record
            };
            let row = row_of(record);
            let kind = first_text(seq![fact.text_at("subjectType"@), nested(fact, "subject"@, "type"@)]);
            let name = first_text(seq![fact.text_at("subjectName"@), nested(fact, "subject"@, "name"@)]);
            let repo = first_text(seq![fact.text_at("subjectRepo"@), nested(fact, "subject"@, "repo"@)]);
            &&& row.id == first_text(seq![fact.text_at("id"@), record.text_at("id"@)])
            &&& row.zone == first_text(
                seq![
                    fact.text_at("track"@),
                    record.text_at("track"@),
                    fact.text_at("zone"@),
                    record.text_at("zone"@),
                ],
            )
            &&& row.kind == first_text(seq![fact.text_at("kind"@), record.text_at("kind"@)])
            &&& row.status == fact.text_at("status"@)
            &&& row.channel == fact.text_at("channel"@)
            &&& row.subject_type == kind
            &&& row.subject_name == name
            &&& name is Some ==> row.component == Some(short_name(name->Some_0))
            &&& name is None ==> row.component is None
            &&& row.canonical_component == first_text(
                seq![
                    fact.text_at("canonicalComponent"@),
                    nested(fact, "subject"@, "canonicalComponent"@),
                    row.component,
                ],
            )
            &&& row.version == first_text(
                seq![fact.text_at("subjectVersion"@), nested(fact, "subject"@, "version"@)],
            )
            &&& row.source_repo == first_text(
                seq![
                    fact.text_at("sourceRepository"@),
                    record.text_at("sourceRepository"@),
                    nested(fact, "source"@, "repo"@),
                    nested(record, "source"@, "repo"@),
                    nested(record, "source"@, "repository"@),
                ],
            )
            &&& row.repo == first_text(seq![repo, row.source_repo])
            &&& row.source_sha == first_text(
                seq![
                    fact.text_at("sourceSha"@),
                    record.text_at("sourceSha"@),
                    nested(fact, "source"@, "sha"@),
                    nested(record, "source"@, "sha"@),
                ],
            )
            &&& row.source_ref == first_text(
                seq![
                    fact.text_at("sourceRef"@),
                    record.text_at("sourceRef"@),
                    nested(fact, "source"@, "ref"@),
                    nested(record, "source"@, "ref"@),
                ],
            )
            &&& row.tag == first_text(seq![fact.text_at("tag"@), row.source_ref])
            &&& row.observed_at == first_text(
                seq![fact.text_at("observedAt"@), record.text_at("observedAt"@)],
            )
            &&& row.accepted_at == first_text(
                seq![record.text_at("acceptedAt"@), fact.text_at("acceptedAt"@)],
            )
            &&& row.json == json_print(record)
        }),
{
    let fact = fact_of(record);
    let row = row_of(record);
    lemma_first_two(fact.text_at("subjectType"@), nested(fact, "subject"@, "type"@));
    lemma_first_two(fact.text_at("subjectName"@), nested(fact, "subject"@, "name"@));
    lemma_first_two(fact.text_at("subjectRepo"@), nested(fact, "subject"@, "repo"@));
    lemma_first_two(fact.text_at("id"@), record.text_at("id"@));
    lemma_first_two(fact.text_at("kind"@), record.text_at("kind"@));
    lemma_first_two(fact.text_at("subjectVersion"@), nested(fact, "subject"@, "version"@));
    lemma_first_two(fact.text_at("observedAt"@), record.text_at("observedAt"@));
    lemma_first_two(record.text_at("acceptedAt"@), fact.text_at("acceptedAt"@));
    lemma_first_two(fact.text_at("tag"@), row.source_ref);
    lemma_first_two(crate::facts::subject_repo_of(fact), row.source_repo);
    lemma_first_three(
        fact.text_at("canonicalComponent"@),
        nested(fact, "subject"@, "canonicalComponent"@),
        row.component,
    );
    lemma_first_four(
        fact.text_at("track"@),
        record.text_at("track"@),
        fact.text_at("zone"@),
        record.text_at("zone"@),
    );
    lemma_first_four(
        fact.text_at("sourceSha"@),
        record.text_at("sourceSha"@),
        nested(fact, "source"@, "sha"@),
        nested(record, "source"@, "sha"@),
    );
    lemma_first_four(
        fact.text_at("sourceRef"@),
        record.text_at("sourceRef"@),
        nested(fact, "source"@, "ref"@),
        nested(record, "source"@, "ref"@),
    );
    lemma_first_five(
        fact.text_at("sourceRepository"@),
        record.text_at("sourceRepository"@),
        nested(fact, "source"@, "repo"@),
        nested(record, "source"@, "repo"@),
        nested(record, "source"@, "repository"@),
    );
}

/// A fact has the identity that it gives itself, or else one made of the type and the name
/// of its subject; the class of the subject goes by its type.
pub proof fn law_row_has_identity(record: JsonV)
    ensures
        ({
            let fact = fact_of(record);
            let row = row_of(record);
            let own = first_text(
                seq![
                    fact.text_at("identity"@),
                    fact.text_at("canonicalId"@),
                    nested(fact, "subject"@, "identity"@),
                    nested(fact, "subject"@, "id"@),
                ],
            );
            &&& own is Some ==> row.identity == own
            &&& own is None && (row.subject_name is None || trim(
                row.subject_name->Some_0,
            ).len() == 0) ==> row.identity is None
            &&& row.subject_class == class_of(row.subject_type)
        }),
{
    let fact = fact_of(record);
    lemma_first_four(
        fact.text_at("identity"@),
        fact.text_at("canonicalId"@),
        nested(fact, "subject"@, "identity"@),
        nested(fact, "subject"@, "id"@),
    );
}

/// Applications, repositories and bills of materials are applications, what is called a
/// dependency is one, and every other type is that of a component; the case of its letters
/// does not matter.
pub proof fn law_subject_class(kind: Seq<char>)
    ensures
        class_of(None) is None,
        ({
            let k = lower(kind);
            let app = k == "app"@ || k == "application"@ || k == "repo"@ || k == "repository"@ || k
                == "sbom"@;
            &&& app ==> class_of(Some(kind)) == Some("application"@)
            &&& !app && contains(k, "dependency"@) ==> class_of(Some(kind)) == Some("dependency"@)
            &&& !app && !contains(k, "dependency"@) ==> class_of(Some(kind)) == Some("component"@)
        }),
{
}

/// An identity is a type and a name: for an application with a repository that is the
/// repository, for all others the subject's own name. A type that is not given is that of
/// a component.
pub proof fn law_subject_identity(
    kind: Option<Seq<char>>,
    name: Seq<char>,
    repo: Option<Seq<char>>,
)
    requires
        trim(name).len() > 0,
    ensures
        ({
            let k = if kind is Some && trim(kind->Some_0).len() > 0 {
                lower(kind->Some_0)
            } else {
                lower("component"@)
            };
            let app = k == "app"@ || k == "application"@ || k == "repo"@ || k == "repository"@ || k
                == "sbom"@;
            let known = repo is Some && trim(repo->Some_0).len() > 0;
            &&& app && known ==> identity_of(kind, Some(name), repo) == Some(
                k + ":"@ + lower(trim(repo->Some_0)),
            )
            &&& !(app && known) ==> identity_of(kind, Some(name), repo) == Some(
                k + ":"@ + lower(trim(name)),
            )
        }),
{
}

/// What a fact requires and provides is kept as a list; what is no list is a list of
/// itself, and null is nothing.
pub proof fn law_lists_are_kept(record: JsonV)
    ensures
        ({
            let fact = fact_of(record);
            let row = row_of(record);
            let needs = fact.get("requires"@);
            let gives = fact.get("provides"@);
            &&& needs is None || needs->Some_0 is Null <==> row.requirements is None
            &&& gives is None || gives->Some_0 is Null <==> row.provides is None
            &&& needs is Some && needs->Some_0 is Array ==> row.requirements == Some(
                json_print(needs->Some_0),
            )
            &&& gives is Some && gives->Some_0 is Array ==> row.provides == Some(
                json_print(gives->Some_0),
            )
            &&& row.requirements is Some && !(needs->Some_0 is Array) ==> row.requirements == Some(
                json_print(JsonV::Array(seq![needs->Some_0])),
            )
            &&& row.provides is Some && !(gives->Some_0 is Array) ==> row.provides == Some(
                json_print(JsonV::Array(seq![gives->Some_0])),
            )
        }),
{
}

// ---------------------------------------------------------------------------
// Names
// ---------------------------------------------------------------------------
proof fn lemma_last_index(s: Seq<char>, k: CharClass)
    ensures
        -1 <= last_index_of(s, k) < s.len(),
        last_index_of(s, k) >= 0 ==> k.holds(s[last_index_of(s, k)]),
        forall|j: int| last_index_of(s, k) < j < s.len() ==> !k.holds(#[trigger] s[j]),
    decreases s.len(),
{
    if s.len() > 0 && !k.holds(s.last()) {
        lemma_last_index(s.drop_last(), k);
        assert forall|j: int| last_index_of(s, k) < j < s.len() implies !k.holds(#[trigger] s[j]) by {
            if j < s.len() - 1 {
                assert(s.drop_last()[j] == s[j]);
            }
        }
        if last_index_of(s, k) >= 0 {
            assert(s.drop_last()[last_index_of(s, k)] == s[last_index_of(s, k)]);
        }
    }
}

proof fn lemma_last_index_is(s: Seq<char>, k: CharClass, i: int)
    requires
        0 <= i < s.len(),
        k.holds(s[i]),
        forall|j: int| i < j < s.len() ==> !k.holds(#[trigger] s[j]),
    ensures
        last_index_of(s, k) == i,
{
    lemma_last_index(s, k);
    let r = last_index_of(s, k);
    if r < i {
        assert(!k.holds(s[i]));
    } else if r > i {
        assert(!k.holds(s[r]));
    }
}

/// The short name of a component is what follows its last slash: scopes and owners before
/// it do not matter.
pub proof fn law_short_name(scope: Seq<char>, name: Seq<char>)
    requires
        !name.contains('/'),
        name.len() > 0 ==> name[0] != '@',
    ensures
        short_name(scope + "/"@ + name) == name,
        short_name(name) == name,
        short_name("@"@ + name) == name,
        !short_name(scope).contains('/'),
{
    reveal_strlit("/");
    reveal_strlit("@");
    let slash = CharClass::Is('/');
    let at = CharClass::Is('@');
    let full = scope + "/"@ + name;
    let i = scope.len() as int;
    assert(full[i] == '/');
    assert forall|j: int| i < j < full.len() implies !slash.holds(#[trigger] full[j]) by {
        assert(full[j] == name[j - i - 1]);
        assert(name.contains(name[j - i - 1]));
    }
    lemma_last_index_is(full, slash, i);
    assert(full.skip(i + 1) =~= name);
    assert(trim_start(name, at) =~= name);
    lemma_last_index(name, slash);
    if last_index_of(name, slash) >= 0 {
        assert(name.contains(name[last_index_of(name, slash)]));
    }
    let tagged = "@"@ + name;
    assert("@"@ =~= seq!['@']);
    lemma_last_index(tagged, slash);
    if last_index_of(tagged, slash) >= 0 {
        let k = last_index_of(tagged, slash);
        assert(k > 0);
        assert(tagged[k] == name[k - 1]);
        assert(name.contains(name[k - 1]));
    }
    assert(at.holds(tagged[0]));
    assert(name.len() > 0 ==> tagged[1] == name[0]);
    assert(index_past(tagged, at, 0) == index_past(tagged, at, 1));
    assert(index_past(tagged, at, 1) == 1);
    assert(tagged.skip(1) =~= name);
    lemma_last_index(scope, slash);
    let r = short_name(scope);
    let rest = match split_last(scope, slash) {
        Some((_, n)) => n,
        None => scope,
    };
    lemma_index_past(rest, at, 0);
    if r.contains('/') {
        let q = choose|q: int| 0 <= q < r.len() && r[q] == '/';
        let d = index_past(rest, at, 0);
        assert(rest[d + q] == '/');
        let b = last_index_of(scope, slash) + 1;
        assert(rest =~= scope.skip(b));
        assert(scope[b + d + q] == '/');
    }
}

/// A reference is a name, or a name and a version behind the last at-sign; an at-sign that
/// starts a scope parts nothing.
pub proof fn law_reference_is_parted(name: Seq<char>, version: Seq<char>)
    requires
        !version.contains('@'),
        !version.contains('/'),
    ensures
        name.len() > 0 ==> split_version(name + "@"@ + version) == (name, Some(version)),
        !name.contains('@') ==> split_version(name) == (name, None::<Seq<char>>),
        split_version("@"@ + version) == ("@"@ + version, None::<Seq<char>>),
{
    reveal_strlit("@");
    let at = CharClass::Is('@');
    let full = name + "@"@ + version;
    let i = name.len() as int;
    assert(full[i] == '@');
    assert forall|j: int| i < j < full.len() implies !at.holds(#[trigger] full[j]) by {
        assert(full[j] == version[j - i - 1]);
        assert(version.contains(version[j - i - 1]));
    }
    lemma_last_index_is(full, at, i);
    assert(full.skip(i + 1) =~= version);
    assert(full.take(i) =~= name);
    lemma_last_index(name, at);
    if last_index_of(name, at) >= 0 {
        assert(name.contains(name[last_index_of(name, at)]));
    }
    let short = "@"@ + version;
    assert("@"@ =~= seq!['@']);
    assert forall|j: int| 0 < j < short.len() implies !at.holds(#[trigger] short[j]) by {
        assert(short[j] == version[j - 1]);
        assert(version.contains(version[j - 1]));
    }
    lemma_last_index_is(short, at, 0);
    assert(short.take(0).len() == 0);
}

proof fn lemma_put(s: Seq<Seq<char>>, k: Seq<char>, x: Seq<char>)
    ensures
        set_put(s, k).contains(x) <==> s.contains(x) || x == k,
    decreases s.len(),
{
    let r = set_put(s, k);
    if s.len() == 0 {
        assert(r[0] == k);
    } else if s[0] == k {
        assert(s.contains(k));
    } else if text_less(k, s[0]) {
        assert(r[0] == k);
        if s.contains(x) {
            let i = choose|i: int| 0 <= i < s.len() && s[i] == x;
            assert(r[i + 1] == x);
        }
        if r.contains(x) && x != k {
            let i = choose|i: int| 0 <= i < r.len() && r[i] == x;
            assert(s[i - 1] == x);
        }
    } else {
        lemma_put(s.skip(1), k, x);
        let t = set_put(s.skip(1), k);
        assert(r == seq![s[0]] + t);
        if t.contains(x) {
            let i = choose|i: int| 0 <= i < t.len() && t[i] == x;
            assert(r[i + 1] == x);
        }
        if s.skip(1).contains(x) {
            let i = choose|i: int| 0 <= i < s.skip(1).len() && s.skip(1)[i] == x;
            assert(s[i + 1] == x);
        }
        if s.contains(x) {
            let i = choose|i: int| 0 <= i < s.len() && s[i] == x;
            if i == 0 {
                assert(r[0] == x);
            } else {
                assert(s.skip(1)[i - 1] == x);
            }
        }
        if r.contains(x) {
            let i = choose|i: int| 0 <= i < r.len() && r[i] == x;
            if i == 0 {
                assert(s[0] == x);
            } else {
                assert(t[i - 1] == x);
            }
        }
    }
}

/// Whether a text, without the space around it, is the name.
pub open spec fn names(text: Option<Seq<char>>, name: Seq<char>) -> bool {
    text is Some && trim(text->Some_0) == name && name.len() > 0
}

/// Whether a value lists the name: it is the name, or a list that holds it.
pub open spec fn lists(v: Option<JsonV>, name: Seq<char>) -> bool {
    v is Some && (names(v->Some_0.as_text(), name) || (v->Some_0 is Array && exists|i: int|
        0 <= i < v->Some_0->Array_0.len() && names((#[trigger] v->Some_0->Array_0[i]).as_text(), name)))
}

proof fn lemma_opt_added(s: Seq<Seq<char>>, o: Option<Seq<char>>, name: Seq<char>)
    ensures
        with_opt(s, o).contains(name) <==> s.contains(name) || names(o, name),
{
    if o is Some && trim(o->Some_0).len() > 0 {
        lemma_put(s, trim(o->Some_0), name);
    }
}

proof fn lemma_listed_added(s: Seq<Seq<char>>, a: Seq<JsonV>, n: int, name: Seq<char>)
    requires
        0 <= n <= a.len(),
    ensures
        with_listed(s, a, n).contains(name) <==> s.contains(name) || exists|i: int|
            0 <= i < n && names((#[trigger] a[i]).as_text(), name),
    decreases n,
{
    if n > 0 {
        lemma_listed_added(s, a, n - 1, name);
        lemma_opt_added(with_listed(s, a, n - 1), a[n - 1].as_text(), name);
    }
}

proof fn lemma_value_added(s: Seq<Seq<char>>, v: Option<JsonV>, name: Seq<char>)
    ensures
        with_value(s, v).contains(name) <==> s.contains(name) || lists(v, name),
{
    match v {
        Some(JsonV::Array(a)) => {
            lemma_listed_added(s, a, a.len() as int, name);
        },
        Some(JsonV::Text(t)) => {
            lemma_opt_added(s, Some(t), name);
        },
        _ => {},
    }
}

/// A subject is known by its name, its component, its repository and its identity, by what
/// its fact lists as aliases and by what the subject lists itself, and by nothing else.
pub proof fn law_subject_is_known_by(
    fact: JsonV,
    name: Option<Seq<char>>,
    component: Option<Seq<char>>,
    repo: Option<Seq<char>>,
    identity: Option<Seq<char>>,
    alias: Seq<char>,
)
    ensures
        aliases_of(fact, name, component, repo, identity).contains(alias) <==> {
            ||| names(name, alias)
            ||| names(component, alias)
            ||| names(repo, alias)
            ||| names(identity, alias)
            ||| lists(fact.get("aliases"@), alias)
            ||| fact.get("subject"@) is Some && lists(
                fact.get("subject"@)->Some_0.get("aliases"@),
                alias,
            )
        },
{
    let none = Seq::<Seq<char>>::empty();
    let a = with_opt(none, name);
    let b = with_opt(a, component);
    let c = with_opt(b, repo);
    let d = with_opt(c, identity);
    let e = with_value(d, fact.get("aliases"@));
    lemma_opt_added(none, name, alias);
    lemma_opt_added(a, component, alias);
    lemma_opt_added(b, repo, alias);
    lemma_opt_added(c, identity, alias);
    lemma_value_added(d, fact.get("aliases"@), alias);
    lemma_value_added(e, at2(fact, "subject"@, "aliases"@), alias);
}

// ---------------------------------------------------------------------------
// Contexts
// ---------------------------------------------------------------------------
/// A query is about what is asked for; what is not asked for is detected, except that the
/// tag, the commit and the branch of the working directory belong to its own repository
/// alone. A component and a version are never detected.
pub proof fn law_context_is_asked_or_detected(args: ContextV, s: SurroundingsV)
    ensures
        ({
            let c = detected(args, s);
            &&& args.zone is Some ==> c.zone == args.zone
            &&& args.zone is None ==> c.zone == s.zone
            &&& args.repo is Some ==> c.repo == args.repo
            &&& args.repo is None ==> c.repo == s.repo
            &&& c.component == args.component
            &&& c.version == args.version
            &&& args.tag is Some ==> c.tag == args.tag
            &&& args.sha is Some ==> c.sha == args.sha
            &&& args.reference is Some ==> c.reference == args.reference
            &&& args.repo is None && args.tag is None ==> c.tag == s.tag
            &&& args.repo is None && args.sha is None ==> c.sha == s.sha
            &&& args.repo is None && args.reference is None ==> c.reference == s.branch
            &&& args.repo is Some && args.tag is None ==> c.tag is None
            &&& args.repo is Some && args.sha is None ==> c.sha is None
            &&& args.repo is Some && args.reference is None ==> c.reference is None
        }),
{
}

/// Browsing a zone is about the whole zone: nothing of the working directory narrows it.
/// Any other browsing is as any other query.
pub proof fn law_browsing_a_zone(args: ContextV, s: SurroundingsV)
    ensures
        ({
            let c = browsing(args, s);
            let zone_alone = args.zone is Some && args.repo is None && args.component is None;
            &&& zone_alone ==> c.zone == args.zone && c.repo is None && c.tag is None && c.sha is None
                && c.reference is None && c.version == args.version
            &&& !zone_alone ==> c == detected(args, s)
        }),
{
}

} // verus!
