//! What the shell makes of its lines, and what is prepared for the queries in it.
use vstd::prelude::*;
use crate::context::{context_filter, identity_test, ContextV};
use crate::repl_args::{graph_args, graph_from, limit_of, no_graph_args, GraphArgsV};
use crate::shell::{complete_sql, completions, ends_at, line_step, quotes, LineActionV};
use crate::sql::{identifier_sql, literal_sql, sql_identifier};
use crate::text::{join, lower, starts_with, trim, trim_suffixes};
use crate::views::{init_statement, without_comments, zone_view, InitV};
use crate::text_laws::mark;

verus! {

// ---------------------------------------------------------------------------
// Lines
// ---------------------------------------------------------------------------
proof fn lemma_no_quotes(s: Seq<char>, n: int)
    requires
        0 <= n <= s.len(),
        forall|i: int| 0 <= i < n ==> #[trigger] s[i] != '\'' && s[i] != '"',
    ensures
        !quotes(s, n).single,
        !quotes(s, n).double,
    decreases n,
{
    if n > 0 {
        lemma_no_quotes(s, n - 1);
        assert(s[n - 1] != '\'' && s[n - 1] != '"');
    }
}

proof fn lemma_open_quote(s: Seq<char>, a: int, n: int)
    requires
        0 <= a < n <= s.len(),
        s[a] == '\'',
        a > 0 ==> s[a - 1] != '\\',
        forall|i: int| 0 <= i < a ==> #[trigger] s[i] != '\'' && s[i] != '"',
        forall|i: int| a < i < n ==> #[trigger] s[i] != '\'',
    ensures
        quotes(s, n).single,
        !quotes(s, n).double,
    decreases n,
{
    if n == a + 1 {
        lemma_no_quotes(s, a);
    } else {
        lemma_open_quote(s, a, n - 1);
        assert(s[n - 1] != '\'');
    }
}

/// A statement ends at a semicolon outside of quotes, and nowhere else: without a semicolon
/// it goes on, without quotes every semicolon ends it, and none does that stands behind a
/// quote that was opened.
pub proof fn law_statement_ends(s: Seq<char>, a: int, i: int)
    requires
        0 <= i < s.len(),
    ensures
        (forall|j: int| 0 <= j < s.len() ==> #[trigger] s[j] != ';') ==> !complete_sql(s),
        s[i] == ';' && (forall|j: int| 0 <= j < i ==> #[trigger] s[j] != '\'' && s[j] != '"')
            ==> ends_at(s, i) && complete_sql(s),
        0 <= a < i && s[a] == '\'' && (a > 0 ==> s[a - 1] != '\\') && (forall|j: int|
            0 <= j < a ==> #[trigger] s[j] != '\'' && s[j] != '"') && (forall|j: int|
            a < j < i ==> #[trigger] s[j] != '\'') ==> !ends_at(s, i),
{
    if s[i] == ';' && (forall|j: int| 0 <= j < i ==> #[trigger] s[j] != '\'' && s[j] != '"') {
        lemma_no_quotes(s, i);
        assert(ends_at(s, i));
    }
    if 0 <= a < i && s[a] == '\'' && (a > 0 ==> s[a - 1] != '\\') && (forall|j: int|
        0 <= j < a ==> #[trigger] s[j] != '\'' && s[j] != '"') && (forall|j: int|
        a < j < i ==> #[trigger] s[j] != '\'') {
        lemma_open_quote(s, a, i);
    }
    if complete_sql(s) {
        let j = choose|j: int| 0 <= j < s.len() && #[trigger] ends_at(s, j);
        assert(s[j] == ';');
    }
}

/// A blank line changes nothing; a command is taken where no statement was begun, and is no
/// part of one otherwise. A statement is run once it is complete, without its semicolons, and
/// kept line by line until it is.
pub proof fn law_line_is_taken(buffer: Seq<char>, raw: Seq<char>)
    ensures
        ({
            let line = trim(raw);
            let r = line_step(buffer, raw);
            let text = if buffer.len() == 0 {
                line
            } else {
                buffer + "\n"@ + line
            };
            let is_command = starts_with(line, "."@) || starts_with(line, "/"@) || line == "red"@
                || line == "red-pill"@ || line == "blue"@ || line == "blue-pill"@ || line == "exit"@
                || line == "quit"@ || line == "help"@;
            let begun = trim(buffer).len() > 0;
            let taken = line.len() > 0 && (begun || !is_command);
            &&& line.len() == 0 ==> r.buffer == buffer && r.action is Wait
            &&& line.len() > 0 && !begun && is_command ==> r.buffer == buffer && r.action
                == LineActionV::Command(line)
            &&& taken && complete_sql(text) ==> r.buffer.len() == 0 && r.action == LineActionV::Sql(
                trim(trim_suffixes(trim(text), ";"@)),
            )
            &&& taken && !complete_sql(text) ==> r.buffer == text && r.action is Wait
        }),
{
}

/// What completes a word are the known words that start with it, each of them and no other.
pub proof fn law_completions_start_with(words: Seq<Seq<char>>, prefix: Seq<char>, n: int)
    requires
        0 <= n <= words.len(),
    ensures
        forall|k: int|
            0 <= k < completions(words, prefix, n).len() ==> starts_with(
                (#[trigger] completions(words, prefix, n)[k]).value,
                prefix,
            ) && words.contains(completions(words, prefix, n)[k].value),
        forall|i: int|
            0 <= i < n && starts_with(#[trigger] words[i], prefix) ==> exists|k: int|
                0 <= k < completions(words, prefix, n).len() && (
                #[trigger] completions(words, prefix, n)[k]).value == words[i],
    decreases n,
{
    if n > 0 {
        law_completions_start_with(words, prefix, n - 1);
        let before = completions(words, prefix, n - 1);
        let all = completions(words, prefix, n);
        assert forall|i: int| 0 <= i < n && starts_with(#[trigger] words[i], prefix) implies exists|
            k: int,
        |
            0 <= k < all.len() && (#[trigger] all[k]).value == words[i] by {
            if i < n - 1 {
                let k = choose|k: int|
                    0 <= k < before.len() && (#[trigger] before[k]).value == words[i];
                assert(all[k] == before[k]);
            } else {
                assert(all[all.len() - 1].value == words[i]);
            }
        }
        assert forall|k: int| 0 <= k < all.len() implies starts_with(
            (#[trigger] all[k]).value,
            prefix,
        ) && words.contains(all[k].value) by {
            if k < before.len() {
                assert(all[k] == before[k]);
            } else {
                assert(words[n - 1] == all[k].value);
            }
        }
    }
}

// ---------------------------------------------------------------------------
// Views
// ---------------------------------------------------------------------------
/// A zone has a view of its own where its name can be one and is not taken; the view shows
/// the facts of that zone.
pub proof fn law_zone_has_view(zone: Seq<char>)
    ensures
        ({
            let taken = zone == "zone"@
                || zone == "active"@
                || zone == "current"@
                || zone == "upstream"@
                || zone == "downstream"@
                || zone == "compatible_with_current"@
                || zone == "facts"@
                || zone == "context"@
                || zone == "subjects"@
                || zone == "components"@
                || zone == "identities"@
                || zone == "identity_aliases"@
                || zone == "valid_facts"@
                || zone == "invalid_facts"@
                || zone == "requirements"@
                || zone == "capabilities"@
                || zone == "members"@
                || zone == "deref"@
                || zone == "zones"@;
            &&& zone_view(zone) is Some <==> sql_identifier(zone) && !taken
            &&& zone_view(zone) is Some ==> zone_view(zone)->Some_0 == "create temp view "@
                + identifier_sql(zone) + " as select * from facts where zone = "@ + literal_sql(zone)
                + ";"@
        }),
{
}

/// A prepared statement makes a temporary view, whatever it says of how long the view lives;
/// anything else is refused.
pub proof fn law_prepared_statement(raw: Seq<char>)
    ensures
        ({
            let s = trim(without_comments(raw));
            let l = lower(s);
            let temporary = starts_with(l, "create temp view "@) || starts_with(
                l,
                "create temporary view "@,
            );
            let lasting = starts_with(l, "create view "@);
            let r = init_statement(raw);
            &&& s.len() == 0 ==> r is Nothing
            &&& s.len() > 0 && temporary ==> r == InitV::Run(s + ";"@)
            &&& s.len() > 0 && !temporary && lasting ==> r == InitV::Run(
                "create temp view "@ + s.skip(12) + ";"@,
            )
            &&& s.len() > 0 && !temporary && !lasting ==> r is Refused
        }),
{
}

/// The rows of a query are those of the zone, the repository and the component in its
/// context; the zone of the prepared views goes before that of the context, and the component
/// counts where it is asked for.
pub proof fn law_context_filters_rows(c: ContextV, view_zone: Option<Seq<char>>, table: Seq<char>)
    ensures
        ({
            let zone = if view_zone is Some {
                view_zone
            } else {
                c.zone
            };
            let z = table + ".zone"@ + " = "@ + literal_sql(zone->Some_0);
            let r = table + ".repo"@ + " = "@ + literal_sql(c.repo->Some_0);
            let k = identity_test(table, c.component->Some_0);
            let plain = context_filter(c, view_zone, table, false);
            let full = context_filter(c, view_zone, table, true);
            &&& zone is None && c.repo is None ==> plain == ""@
            &&& zone is Some && c.repo is None ==> plain == " and "@ + z
            &&& zone is None && c.repo is Some ==> plain == " and "@ + r
            &&& zone is Some && c.repo is Some ==> plain == " and "@ + (z + " and "@ + r)
            &&& c.component is None ==> full == plain
            &&& c.component is Some && zone is None && c.repo is None ==> full == " and "@ + k
            &&& c.component is Some && zone is Some && c.repo is None ==> full == " and "@ + (z
                + " and "@ + k)
            &&& c.component is Some && zone is None && c.repo is Some ==> full == " and "@ + (r
                + " and "@ + k)
            &&& c.component is Some && zone is Some && c.repo is Some ==> full == " and "@ + (z
                + " and "@ + r + " and "@ + k)
        }),
{
    let zone = if view_zone is Some {
        view_zone
    } else {
        c.zone
    };
    let z = table + ".zone"@ + " = "@ + literal_sql(zone->Some_0);
    let r = table + ".repo"@ + " = "@ + literal_sql(c.repo->Some_0);
    let k = identity_test(table, c.component->Some_0);
    let e = Seq::<Seq<char>>::empty();
    lemma_join_two(z, r, " and "@);
    lemma_join_two(z, k, " and "@);
    lemma_join_two(r, k, " and "@);
    lemma_join_three(z, r, k, " and "@);
}

proof fn lemma_join_two(a: Seq<char>, b: Seq<char>, sep: Seq<char>)
    ensures
        join(Seq::<Seq<char>>::empty().push(a).push(b), sep) == a + sep + b,
        join(Seq::<Seq<char>>::empty().push(a), sep) == a,
        join(Seq::<Seq<char>>::empty().push(b), sep) == b,
{
    let e = Seq::<Seq<char>>::empty();
    assert(e.push(a).push(b).drop_last() =~= e.push(a));
    assert(join(e.push(a), sep) == a);
    assert(join(e.push(a).push(b), sep) == join(e.push(a).push(b).drop_last(), sep) + sep + b);
}

proof fn lemma_join_three(a: Seq<char>, b: Seq<char>, c: Seq<char>, sep: Seq<char>)
    ensures
        join(Seq::<Seq<char>>::empty().push(a).push(b).push(c), sep) == a + sep + b + sep + c,
{
    let e = Seq::<Seq<char>>::empty();
    lemma_join_two(a, b, sep);
    let all = e.push(a).push(b).push(c);
    assert(all.drop_last() =~= e.push(a).push(b));
    assert(join(all, sep) == join(all.drop_last(), sep) + sep + c);
}

// ---------------------------------------------------------------------------
// Arguments
// ---------------------------------------------------------------------------
/// A graph query is all that stands behind its options.
pub proof fn law_graph_query_is_rest(args: Seq<Seq<char>>, i: int, parsed: GraphArgsV)
    requires
        0 <= i < args.len(),
        !starts_with(args[i], "-"@),
    ensures
        graph_from(args, i, parsed) == Ok::<GraphArgsV, Seq<char>>(
            GraphArgsV { query: Some(join(args.skip(i), " "@)), ..parsed },
        ),
{
    lemma_no_option(args[i]);
}

/// Each option of a graph query says what it is named for, and the rest is read behind it; an
/// option without its value is refused.
pub proof fn law_graph_options(args: Seq<Seq<char>>, i: int, parsed: GraphArgsV)
    requires
        0 <= i < args.len(),
    ensures
        ({
            let r = graph_from(args, i, parsed);
            let valued = i + 1 < args.len();
            let value = args[i + 1];
            let a = args[i];
            &&& a == "--schema"@ ==> r == graph_from(
                args,
                i + 1,
                GraphArgsV { schema: true, ..parsed },
            )
            &&& (a == "--file"@ || a == "-f"@) && valued ==> r == graph_from(
                args,
                i + 2,
                GraphArgsV { file: Some(value), ..parsed },
            )
            &&& a == "--var"@ && valued ==> r == graph_from(
                args,
                i + 2,
                GraphArgsV { vars: parsed.vars.push(value), ..parsed },
            )
            &&& a == "--limit"@ && valued && limit_of(value) is Ok ==> r == graph_from(
                args,
                i + 2,
                GraphArgsV { limit: limit_of(value)->Ok_0, ..parsed },
            )
            &&& a == "--limit"@ && valued && limit_of(value) is Err ==> r is Err
            &&& (a == "--file"@ || a == "-f"@ || a == "--var"@ || a == "--limit"@) && !valued ==> r
                is Err
        }),
{
    lemma_options();
}

/// Without options a graph query is limited to ten answers, and it is either written or in a
/// file.
pub proof fn law_graph_arguments(args: Seq<Seq<char>>)
    ensures
        ({
            let p = graph_from(args, 0, no_graph_args());
            let r = graph_args(args);
            &&& no_graph_args() == (GraphArgsV {
                query: None,
                file: None,
                vars: Seq::empty(),
                schema: false,
                limit: 10,
            })
            &&& r is Err <==> p is Err || (p->Ok_0.query is Some && p->Ok_0.file is Some)
            &&& r is Ok ==> r->Ok_0 == p->Ok_0
        }),
        graph_args(Seq::empty()) == Ok::<GraphArgsV, Seq<char>>(no_graph_args()),
{
}

proof fn lemma_no_option(a: Seq<char>)
    requires
        !starts_with(a, "-"@),
    ensures
        a != "--schema"@ && a != "-f"@ && a != "--file"@ && a != "--var"@ && a != "--limit"@,
        !starts_with(a, "--var="@),
        !starts_with(a, "--limit="@),
{
    reveal_strlit("-");
    reveal_strlit("--schema");
    reveal_strlit("-f");
    reveal_strlit("--file");
    reveal_strlit("--var");
    reveal_strlit("--limit");
    reveal_strlit("--var=");
    reveal_strlit("--limit=");
    if a.len() > 0 && a[0] == '-' {
        assert(a.take(1) =~= "-"@);
    }
    if starts_with(a, "--var="@) {
        assert(a.take(6)[0] == '-');
    }
    if starts_with(a, "--limit="@) {
        assert(a.take(8)[0] == '-');
    }
}

// ---------------------------------------------------------------------------
// Names
// ---------------------------------------------------------------------------
proof fn lemma_options()
    ensures
        mark("--file"@) == 10510104506,
        mark("--limit"@) == 10511604507,
        mark("--schema"@) == 10409704508,
        mark("--var"@) == 11811404505,
        mark("-f"@) == 10210204502,
{
    reveal_strlit("--file");
    reveal_strlit("--limit");
    reveal_strlit("--schema");
    reveal_strlit("--var");
    reveal_strlit("-f");
}


} // verus!
