//! Normalizing SQL twice is normalizing it once.
use vstd::prelude::*;
use crate::sql::{
    bare_comparison, bare_value, blank, boundary_after, boundary_before, class_sql, class_test,
    comparable_field, comparison_at, comparison_sign, expand_classes, field_name, is_operator_pair,
    law_plain_sql_is_kept, literal_sql, normal_sql, quote_values, solid_from, sql_tokens,
    status_comparison, token_end, tokens_from,
};
use crate::text::{
    concat, contains, end_before, index_of, index_past, is_white, last_index_of, lemma_concat_add,
    lemma_find_from, lemma_index_of, lemma_index_past, lower_char, occurs_at, replace, replace_char,
    replace_from, split_last, trim_start, CharClass,
};

verus! {

// ---------------------------------------------------------------------------
// Tokens that stand beside each other
// ---------------------------------------------------------------------------
/// Whether no two equals signs stand beside each other.
spec fn single_equals(s: Seq<char>) -> bool {
    forall|i: int| 0 <= i < s.len() - 1 ==> !(#[trigger] s[i] == '=' && s[i + 1] == '=')
}

/// Whether a text is a token that ends where the next character, if there is one, starts
/// another.
spec fn fits(token: Seq<char>, next: Option<char>) -> bool {
    let c = token[0];
    &&& token.len() > 0
    &&& single_equals(token)
    &&& !(token.last() == '=' && next == Some('='))
    &&& if CharClass::White.holds(c) {
        (forall|i: int| 0 <= i < token.len() ==> CharClass::White.holds(#[trigger] token[i])) && (
        next is Some ==> !CharClass::White.holds(next->Some_0))
    } else if c == '\'' || c == '"' {
        (token.len() >= 2 && token.last() == c && forall|i: int|
            1 <= i < token.len() - 1 ==> #[trigger] token[i] != c) || (next is None && forall|
            i: int,
        |
            1 <= i < token.len() ==> #[trigger] token[i] != c)
    } else if CharClass::SqlWord.holds(c) {
        (forall|i: int| 0 <= i < token.len() ==> CharClass::SqlWord.holds(#[trigger] token[i])) && (
        next is Some ==> !CharClass::SqlWord.holds(next->Some_0))
    } else if token.len() == 2 {
        is_operator_pair(c, token[1])
    } else {
        token.len() == 1 && (next is Some ==> !is_operator_pair(c, next->Some_0))
    }
}

/// The character that follows a token in a list, or `after` behind the last.
spec fn next_char(t: Seq<Seq<char>>, k: int, after: Option<char>) -> Option<char> {
    if k + 1 < t.len() {
        Some(t[k + 1][0])
    } else {
        after
    }
}

spec fn all_fit(t: Seq<Seq<char>>, after: Option<char>) -> bool {
    forall|k: int| 0 <= k < t.len() ==> fits(#[trigger] t[k], next_char(t, k, after))
}

proof fn lemma_index_past_is(s: Seq<char>, k: CharClass, from: int, to: int)
    requires
        0 <= from <= to <= s.len(),
        forall|j: int| from <= j < to ==> k.holds(#[trigger] s[j]),
        to < s.len() ==> !k.holds(s[to]),
    ensures
        index_past(s, k, from) == to,
    decreases to - from,
{
    if from < to {
        assert(k.holds(s[from]));
        lemma_index_past_is(s, k, from + 1, to);
    }
}

proof fn lemma_index_of_is(s: Seq<char>, k: CharClass, from: int, to: int)
    requires
        0 <= from <= to <= s.len(),
        forall|j: int| from <= j < to ==> !k.holds(#[trigger] s[j]),
        to < s.len() ==> k.holds(s[to]),
    ensures
        index_of(s, k, from) == to,
    decreases to - from,
{
    if from < to {
        assert(!k.holds(s[from]));
        lemma_index_of_is(s, k, from + 1, to);
    }
}

/// A token that fits is the token at its place.
proof fn lemma_token_at(before: Seq<char>, token: Seq<char>, rest: Seq<char>)
    requires
        fits(
            token,
            if rest.len() > 0 {
                Some(rest[0])
            } else {
                None
            },
        ),
    ensures
        token_end(before + token + rest, before.len() as int) == before.len() + token.len(),
{
    let s = before + token + rest;
    let i = before.len() as int;
    let e = i + token.len();
    let c = token[0];
    assert(s[i] == c);
    assert forall|j: int| i <= j < e implies #[trigger] s[j] == token[j - i] by {}
    assert(rest.len() > 0 ==> s[e] == rest[0]);
    assert(s.len() == e + rest.len());
    if CharClass::White.holds(c) {
        lemma_index_past_is(s, CharClass::White, i, e);
    } else if c == '\'' || c == '"' {
        let q = CharClass::Is(c);
        if token.len() >= 2 && token.last() == c && (forall|j: int|
            1 <= j < token.len() - 1 ==> #[trigger] token[j] != c) {
            assert(s[e - 1] == token[token.len() - 1]);
            lemma_index_of_is(s, q, i + 1, e - 1);
        } else {
            lemma_index_of_is(s, q, i + 1, e);
        }
    } else if CharClass::SqlWord.holds(c) {
        lemma_index_past_is(s, CharClass::SqlWord, i, e);
    } else if token.len() == 2 {
        assert(s[i + 1] == token[1]);
    } else {
        if i + 1 < s.len() {
            assert(s[i + 1] == rest[0]);
        }
    }
}

proof fn lemma_concat_first(t: Seq<Seq<char>>)
    requires
        t.len() > 0,
    ensures
        concat(t) == t[0] + concat(t.skip(1)),
{
    let first = seq![t[0]];
    assert(t =~= first + t.skip(1));
    lemma_concat_add(first, t.skip(1));
    assert(first.drop_last() =~= Seq::empty());
    assert(concat(first.drop_last()) =~= Seq::empty());
    assert(concat(first) =~= t[0]);
}

proof fn lemma_fit_rest(t: Seq<Seq<char>>, after: Option<char>)
    requires
        t.len() > 0,
        all_fit(t, after),
    ensures
        all_fit(t.skip(1), after),
{
    let r = t.skip(1);
    assert forall|k: int| 0 <= k < r.len() implies fits(
        #[trigger] r[k],
        next_char(r, k, after),
    ) by {
        assert(r[k] == t[k + 1]);
        assert(next_char(r, k, after) == next_char(t, k + 1, after));
    }
}

proof fn lemma_concat_start(t: Seq<Seq<char>>, after: Option<char>)
    requires
        all_fit(t, after),
    ensures
        t.len() == 0 ==> concat(t).len() == 0,
        t.len() > 0 ==> concat(t).len() > 0 && concat(t)[0] == t[0][0],
{
    if t.len() > 0 {
        lemma_concat_first(t);
        assert(fits(t[0], next_char(t, 0, after)));
    }
}

/// Tokens that fit are the tokens of the text that they make.
proof fn lemma_tokens_of_concat(before: Seq<char>, t: Seq<Seq<char>>)
    requires
        all_fit(t, None),
    ensures
        tokens_from(before + concat(t), before.len() as int) == t,
    decreases t.len(),
{
    let s = before + concat(t);
    let i = before.len() as int;
    if t.len() == 0 {
        assert(tokens_from(s, i) =~= t);
    } else {
        lemma_concat_first(t);
        let rest = t.skip(1);
        lemma_fit_rest(t, None);
        lemma_concat_start(rest, None);
        assert(fits(t[0], next_char(t, 0, None)));
        if rest.len() > 0 {
            assert(rest[0] == t[1]);
        }
        assert(s =~= before + t[0] + concat(rest));
        lemma_token_at(before, t[0], concat(rest));
        let e = i + t[0].len();
        assert(s.subrange(i, e) =~= t[0]);
        lemma_tokens_of_concat(before + t[0], rest);
        assert(seq![t[0]] + rest =~= t);
    }
}

/// Tokens that fit make a text without two equals signs beside each other.
proof fn lemma_concat_single(t: Seq<Seq<char>>)
    requires
        all_fit(t, None),
    ensures
        single_equals(concat(t)),
    decreases t.len(),
{
    if t.len() > 0 {
        lemma_concat_first(t);
        let rest = t.skip(1);
        lemma_fit_rest(t, None);
        lemma_concat_start(rest, None);
        lemma_concat_single(rest);
        assert(fits(t[0], next_char(t, 0, None)));
        let s = concat(t);
        let a = t[0];
        let b = concat(rest);
        assert forall|i: int| 0 <= i < s.len() - 1 implies !(#[trigger] s[i] == '=' && s[i + 1]
            == '=') by {
            if i + 1 < a.len() {
                assert(s[i] == a[i] && s[i + 1] == a[i + 1]);
            } else if i >= a.len() {
                assert(s[i] == b[i - a.len()] && s[i + 1] == b[i - a.len() + 1]);
            } else {
                assert(s[i] == a.last() && s[i + 1] == b[0]);
                assert(rest[0] == t[1]);
            }
        }
    }
}

/// The tokens of a text fit.
proof fn lemma_tokens_fit(s: Seq<char>, i: int)
    requires
        single_equals(s),
        0 <= i <= s.len(),
    ensures
        all_fit(tokens_from(s, i), None),
        i < s.len() ==> tokens_from(s, i).len() > 0 && tokens_from(s, i)[0].len() > 0
            && tokens_from(s, i)[0][0] == s[i],
        i == s.len() ==> tokens_from(s, i).len() == 0,
    decreases s.len() - i,
{
    if i < s.len() {
        let c = s[i];
        let e = token_end(s, i);
        lemma_index_past(s, CharClass::White, i);
        lemma_index_past(s, CharClass::SqlWord, i);
        lemma_index_of(s, CharClass::Is(c), i + 1);
        assert(i < e <= s.len());
        lemma_tokens_fit(s, e);
        let token = s.subrange(i, e);
        let rest = tokens_from(s, e);
        let t = tokens_from(s, i);
        assert(t == seq![token] + rest);
        let next = if e < s.len() {
            Some(s[e])
        } else {
            None
        };
        assert forall|j: int| 0 <= j < token.len() implies #[trigger] token[j] == s[i + j] by {}
        assert forall|j: int| 0 <= j < token.len() - 1 implies !(#[trigger] token[j] == '='
            && token[j + 1] == '=') by {
            assert(token[j] == s[i + j] && token[j + 1] == s[i + j + 1]);
        }
        if e < s.len() {
            assert(token.last() == s[e - 1]);
        }
        if CharClass::White.holds(c) {
        } else if c == '\'' || c == '"' {
            if index_of(s, CharClass::Is(c), i + 1) < s.len() {
                assert(token.last() == s[e - 1]);
            }
        }
        assert(fits(token, next));
        assert forall|k: int| 0 <= k < t.len() implies fits(
            #[trigger] t[k],
            next_char(t, k, None),
        ) by {
            if k == 0 {
                assert(t[0] == token);
                assert(next_char(t, 0, None) == next) by {
                    if rest.len() > 0 {
                        assert(t[1] == rest[0]);
                    }
                }
            } else {
                assert(t[k] == rest[k - 1]);
                assert(next_char(t, k, None) == next_char(rest, k - 1, None)) by {
                    if k + 1 < t.len() {
                        assert(t[k + 1] == rest[k]);
                    }
                }
            }
        }
    }
}

/// Without three equals signs in a row, writing one for two leaves none beside another.
proof fn lemma_replaced_single(s: Seq<char>, from: int)
    requires
        0 <= from <= s.len(),
        !contains(s, "==="@),
    ensures
        single_equals(replace_from(s, "=="@, "="@, from)),
        replace_from(s, "=="@, "="@, from).len() > 0 && replace_from(s, "=="@, "="@, from)[0]
            == '=' ==> from < s.len() && s[from] == '=',
    decreases s.len() - from,
{
    reveal_strlit("=");
    reveal_strlit("==");
    reveal_strlit("===");
    let r = replace_from(s, "=="@, "="@, from);
    if from < s.len() {
        lemma_find_from(s, "==="@, 0);
        if occurs_at(s, "=="@, from) {
            let w = s.subrange(from, from + 2);
            assert(w[0] == s[from] && w[1] == s[from + 1]);
            assert("=="@[0] == '=' && "=="@[1] == '=');
            lemma_replaced_single(s, from + 2);
            let rest = replace_from(s, "=="@, "="@, from + 2);
            if rest.len() > 0 && rest[0] == '=' {
                assert(s.subrange(from, from + 3) =~= "==="@);
                assert(occurs_at(s, "==="@, from));
            }
            assert(r == "="@ + rest);
            assert forall|i: int| 0 <= i < r.len() - 1 implies !(#[trigger] r[i] == '=' && r[i + 1]
                == '=') by {
                assert(r[i + 1] == rest[i]);
                if i > 0 {
                    assert(r[i] == rest[i - 1]);
                }
            }
        } else {
            lemma_replaced_single(s, from + 1);
            let rest = replace_from(s, "=="@, "="@, from + 1);
            assert(r == seq![s[from]] + rest);
            if s[from] == '=' && from + 1 < s.len() && s[from + 1] == '=' {
                assert(s.subrange(from, from + 2) =~= "=="@);
            }
            assert forall|i: int| 0 <= i < r.len() - 1 implies !(#[trigger] r[i] == '=' && r[i + 1]
                == '=') by {
                assert(r[i + 1] == rest[i]);
                if i > 0 {
                    assert(r[i] == rest[i - 1]);
                }
            }
        }
    }
}

// ---------------------------------------------------------------------------
// Kinds of tokens
// ---------------------------------------------------------------------------
proof fn lemma_not_blank(s: Seq<char>)
    requires
        s.len() > 0,
        !is_white(s.last()),
    ensures
        !blank(s),
{
    let white = CharClass::White;
    lemma_index_past(s, white, 0);
    let i = index_past(s, white, 0);
    if i == s.len() {
        assert(white.holds(s[s.len() - 1]));
    }
    let t = trim_start(s, white);
    assert(t.last() == s.last());
    assert(end_before(t, white) == t.len());
}

spec fn is_letter(c: char) -> bool {
    'a' <= c <= 'z' || 'A' <= c <= 'Z'
}

/// The last character of a column's name is the last of its token.
proof fn lemma_field_last(s: Seq<char>)
    requires
        field_name(s).len() > 0,
    ensures
        s.len() > 0,
        field_name(s).last() == lower_char(s.last()),
{
    let k = CharClass::Is('.');
    match split_last(s, k) {
        Some((_, field)) => {
            lemma_last_index(s, k);
            assert(field == s.skip(last_index_of(s, k) + 1));
            assert(field.last() == s.last());
        },
        None => {},
    }
}

proof fn lemma_last_index(s: Seq<char>, k: CharClass)
    ensures
        -1 <= last_index_of(s, k) < s.len(),
    decreases s.len(),
{
    if s.len() > 0 && !k.holds(s.last()) {
        lemma_last_index(s.drop_last(), k);
    }
}

proof fn lemma_comparable_last(f: Seq<char>)
    requires
        comparable_field(f),
    ensures
        f.len() >= 4,
        'a' <= f.last() <= 'z',
{
    reveal_strlit("zone");
    reveal_strlit("kind");
    reveal_strlit("status");
    reveal_strlit("type");
    reveal_strlit("component");
    reveal_strlit("capability");
    reveal_strlit("repo");
    reveal_strlit("version");
    reveal_strlit("fact_id");
    reveal_strlit("source_repo");
    reveal_strlit("source_repository");
    reveal_strlit("subject_name");
    reveal_strlit("subject_type");
    reveal_strlit("target");
}

/// A token that names a comparable column ends in a letter.
proof fn lemma_column_last(token: Seq<char>)
    requires
        comparable_field(field_name(token)),
    ensures
        token.len() > 0,
        is_letter(token.last()),
        !blank(token),
        !comparison_sign(token),
{
    lemma_comparable_last(field_name(token));
    lemma_field_last(token);
    lemma_not_blank(token);
    reveal_strlit("=");
    reveal_strlit("!=");
    reveal_strlit("<>");
}

/// A token that names a comparable column and is not the last is a word.
proof fn lemma_column_is_word(token: Seq<char>, next: Option<char>)
    requires
        comparable_field(field_name(token)),
        fits(token, next),
        next is Some,
    ensures
        CharClass::SqlWord.holds(token[0]),
        !CharClass::White.holds(token[0]),
        token[0] != '\'',
        token[0] != '"',
        forall|i: int| 0 <= i < token.len() ==> CharClass::SqlWord.holds(#[trigger] token[i]),
{
    lemma_column_last(token);
    assert(token.last() == token[token.len() - 1]);
}

proof fn lemma_replace_char_nothing(s: Seq<char>, c: char, by: Seq<char>)
    requires
        forall|i: int| 0 <= i < s.len() ==> #[trigger] s[i] != c,
    ensures
        replace_char(s, c, by) == s,
    decreases s.len(),
{
    if s.len() > 0 {
        assert(s.last() == s[s.len() - 1]);
        lemma_replace_char_nothing(s.drop_last(), c, by);
        assert(s.drop_last().push(s.last()) =~= s);
    }
}

/// The literal of a token without quotes is that token between two.
proof fn lemma_literal(token: Seq<char>, next: Option<char>, after: Option<char>)
    requires
        bare_value(token),
        fits(token, next),
        !blank(token),
    ensures
        literal_sql(token) == seq!['\''] + token + seq!['\''],
        fits(literal_sql(token), after),
{
    assert forall|i: int| 0 <= i < token.len() implies #[trigger] token[i] != '\'' by {
        if CharClass::White.holds(token[0]) {
            assert(CharClass::White.holds(token[i]));
        } else if CharClass::SqlWord.holds(token[0]) {
            assert(CharClass::SqlWord.holds(token[i]));
        }
    }
    lemma_replace_char_nothing(token, '\'', seq!['\'', '\'']);
    let r = literal_sql(token);
    assert(r =~= seq!['\''] + token + seq!['\'']);
    assert(r[0] == '\'' && r.last() == '\'');
    assert forall|i: int| 1 <= i < r.len() - 1 implies #[trigger] r[i] != '\'' by {
        assert(r[i] == token[i - 1]);
    }
    assert forall|i: int| 0 <= i < r.len() - 1 implies !(#[trigger] r[i] == '=' && r[i + 1]
        == '=') by {
        if 1 <= i && i + 1 < r.len() - 1 {
            assert(r[i] == token[i - 1] && r[i + 1] == token[i]);
        }
    }
}

/// A literal is neither blank nor bare, and no column, sign or mark before a column.
proof fn lemma_literal_kind(r: Seq<char>)
    requires
        r.len() >= 2,
        r[0] == '\'',
        r.last() == '\'',
    ensures
        !blank(r),
        !bare_value(r),
        !comparable_field(field_name(r)),
        !comparison_sign(r),
        r != "."@ && r != "("@ && r != ","@,
        r != "!"@ && r != "<"@ && r != ">"@,
{
    lemma_not_blank(r);
    if comparable_field(field_name(r)) {
        lemma_column_last(r);
    }
    reveal_strlit("=");
    reveal_strlit("!=");
    reveal_strlit("<>");
    reveal_strlit(".");
    reveal_strlit("(");
    reveal_strlit(",");
    reveal_strlit("!");
    reveal_strlit("<");
    reveal_strlit(">");
}

// ---------------------------------------------------------------------------
// Bare values
// ---------------------------------------------------------------------------
proof fn lemma_solid(t: Seq<Seq<char>>, from: int)
    requires
        0 <= from <= t.len(),
    ensures
        from <= solid_from(t, from) <= t.len(),
        forall|j: int| from <= j < solid_from(t, from) ==> blank(#[trigger] t[j]),
        solid_from(t, from) < t.len() ==> !blank(t[solid_from(t, from)]),
    decreases t.len() - from,
{
    if from < t.len() && blank(t[from]) {
        lemma_solid(t, from + 1);
    }
}

/// Whether a token is kept, or is a bare value that was made a literal.
spec fn kept_or_quoted(t: Seq<Seq<char>>, q: Seq<Seq<char>>, from: int, k: int) -> bool {
    q[k - from] == t[k] || (q[k - from] == literal_sql(t[k]) && bare_value(t[k]) && !blank(t[k]))
}

/// Whether a comparison with a bare value lost the value or the column.
spec fn answered(t: Seq<Seq<char>>, q: Seq<Seq<char>>, from: int, k: int) -> bool {
    match bare_comparison(t, k) {
        Some(v) => (q[k - from] == literal_sql(t[k]) && q[k - from] != t[k]) || q[v - from]
            == literal_sql(t[v]),
        None => true,
    }
}

/// What stands in a list after bare values were made literals.
spec fn requoted(t: Seq<Seq<char>>, q: Seq<Seq<char>>, from: int) -> bool {
    &&& q.len() == t.len() - from
    &&& forall|k: int| from <= k < t.len() ==> #[trigger] kept_or_quoted(t, q, from, k)
    &&& forall|k: int| from <= k < t.len() ==> #[trigger] answered(t, q, from, k)
}

/// What holds of a list holds of it behind others.
proof fn lemma_requoted_behind(
    t: Seq<Seq<char>>,
    head: Seq<Seq<char>>,
    rest: Seq<Seq<char>>,
    from: int,
    k: int,
)
    requires
        0 <= from,
        from + head.len() <= k < t.len(),
        requoted(t, rest, from + head.len()),
    ensures
        kept_or_quoted(t, head + rest, from, k),
        answered(t, head + rest, from, k),
{
    let m = from + head.len();
    let q = head + rest;
    assert(kept_or_quoted(t, rest, m, k));
    assert(answered(t, rest, m, k));
    assert(q[k - from] == rest[k - m]);
    if bare_comparison(t, k) is Some {
        lemma_bare_at(t, k);
        let w = bare_comparison(t, k)->Some_0;
        assert(q[w - from] == rest[w - m]);
    }
}

proof fn lemma_bare_at(t: Seq<Seq<char>>, i: int)
    requires
        0 <= i < t.len(),
        bare_comparison(t, i) is Some,
    ensures
        ({
            let v = bare_comparison(t, i)->Some_0;
            let op = solid_from(t, i + 1);
            &&& i < op < v < t.len()
            &&& v == solid_from(t, op + 1)
            &&& comparison_sign(t[op])
            &&& bare_value(t[v])
            &&& !blank(t[v])
            &&& forall|j: int| i < j < v ==> (#[trigger] bare_comparison(t, j)) is None
        }),
{
    let op = solid_from(t, i + 1);
    let v = solid_from(t, op + 1);
    lemma_solid(t, i + 1);
    lemma_solid(t, op + 1);
    assert forall|j: int| i < j < v implies (#[trigger] bare_comparison(t, j)) is None by {
        if comparable_field(field_name(t[j])) {
            lemma_column_last(t[j]);
            if j < op {
                assert(blank(t[j]));
            } else if j > op {
                assert(blank(t[j]));
            }
        }
    }
}

proof fn lemma_literal_longer(token: Seq<char>, next: Option<char>)
    requires
        bare_value(token),
        fits(token, next),
        !blank(token),
    ensures
        literal_sql(token) != token,
{
    lemma_literal(token, next, None);
    assert(literal_sql(token).len() == token.len() + 2);
}

proof fn lemma_requoted(t: Seq<Seq<char>>, from: int)
    requires
        0 <= from <= t.len(),
        all_fit(t, None),
    ensures
        requoted(t, quote_values(t, from), from),
    decreases t.len() - from,
{
    let q = quote_values(t, from);
    if from < t.len() {
        match bare_comparison(t, from) {
            Some(v) => {
                lemma_bare_at(t, from);
                lemma_requoted(t, v + 1);
                let rest = quote_values(t, v + 1);
                let head = t.subrange(from, v).push(literal_sql(t[v]));
                assert(q == head + rest);
                assert(from + head.len() == v + 1);
                assert(fits(t[v], next_char(t, v, None)));
                lemma_literal_longer(t[v], next_char(t, v, None));
                assert(q[v - from] == literal_sql(t[v]));
                assert forall|k: int| from <= k < t.len() implies #[trigger] kept_or_quoted(
                    t,
                    q,
                    from,
                    k,
                ) by {
                    if k > v {
                        lemma_requoted_behind(t, head, rest, from, k);
                    }
                }
                assert forall|k: int| from <= k < t.len() implies #[trigger] answered(
                    t,
                    q,
                    from,
                    k,
                ) by {
                    if k > v {
                        lemma_requoted_behind(t, head, rest, from, k);
                    } else if from < k < v {
                        assert(bare_comparison(t, k) is None);
                    }
                }
            },
            None => {
                lemma_requoted(t, from + 1);
                let rest = quote_values(t, from + 1);
                let head = seq![t[from]];
                assert(q == head + rest);
                assert forall|k: int| from <= k < t.len() implies #[trigger] kept_or_quoted(
                    t,
                    q,
                    from,
                    k,
                ) by {
                    if k > from {
                        lemma_requoted_behind(t, head, rest, from, k);
                    }
                }
                assert forall|k: int| from <= k < t.len() implies #[trigger] answered(
                    t,
                    q,
                    from,
                    k,
                ) by {
                    if k > from {
                        lemma_requoted_behind(t, head, rest, from, k);
                    }
                }
            },
        }
    }
}

proof fn lemma_same_solid(t: Seq<Seq<char>>, q: Seq<Seq<char>>, from: int)
    requires
        t.len() == q.len(),
        0 <= from <= t.len(),
        forall|k: int| 0 <= k < t.len() ==> blank(#[trigger] q[k]) == blank(t[k]),
    ensures
        solid_from(q, from) == solid_from(t, from),
    decreases t.len() - from,
{
    if from < t.len() {
        assert(blank(q[from]) == blank(t[from]));
        lemma_same_solid(t, q, from + 1);
    }
}

/// Once bare values are literals, the tokens still fit and no comparison has one.
proof fn lemma_quoted_once(t: Seq<Seq<char>>)
    requires
        all_fit(t, None),
    ensures
        all_fit(quote_values(t, 0), None),
        forall|i: int|
            0 <= i < quote_values(t, 0).len() ==> (#[trigger] bare_comparison(
                quote_values(t, 0),
                i,
            )) is None,
{
    let q = quote_values(t, 0);
    lemma_requoted(t, 0);
    assert forall|k: int| 0 <= k < t.len() implies (#[trigger] q[k]) == t[k] || (q[k] == literal_sql(
        t[k],
    ) && bare_value(t[k]) && !blank(t[k])) by {
        assert(kept_or_quoted(t, q, 0, k));
    }
    assert forall|k: int| 0 <= k < t.len() implies fits(t[k], next_char(t, k, None)) && (#[trigger] q[k]
        == t[k] || (q[k].len() >= 2 && q[k][0] == '\'' && q[k].last() == '\'')) by {
        assert(fits(t[k], next_char(t, k, None)));
        if q[k] != t[k] {
            lemma_literal(t[k], next_char(t, k, None), None);
        }
    }
    assert forall|k: int| 0 <= k < t.len() implies blank(#[trigger] q[k]) == blank(t[k]) by {
        if q[k] != t[k] {
            lemma_literal_kind(q[k]);
        }
    }
    assert forall|k: int| 0 <= k < q.len() implies fits(#[trigger] q[k], next_char(q, k, None)) by {
        assert(fits(t[k], next_char(t, k, None)));
        if q[k] != t[k] {
            lemma_literal(t[k], next_char(t, k, None), next_char(q, k, None));
        } else if k + 1 < q.len() {
            assert(q[k + 1] == t[k + 1] || q[k + 1][0] == '\'');
        }
    }
    assert forall|i: int| 0 <= i < q.len() implies (#[trigger] bare_comparison(q, i)) is None by {
        if bare_comparison(q, i) is Some {
            lemma_bare_at(q, i);
            let op = solid_from(q, i + 1);
            let v = bare_comparison(q, i)->Some_0;
            assert(q[i] == t[i]) by {
                if q[i] != t[i] {
                    lemma_literal_kind(q[i]);
                }
            }
            assert(q[op] == t[op]) by {
                if q[op] != t[op] {
                    lemma_literal_kind(q[op]);
                }
            }
            assert(q[v] == t[v]) by {
                if q[v] != t[v] {
                    lemma_literal_kind(q[v]);
                }
            }
            lemma_same_solid(t, q, i + 1);
            lemma_same_solid(t, q, op + 1);
            if i > 0 && q[i - 1] != t[i - 1] {
                lemma_literal_kind(q[i - 1]);
            }
            if i + 1 < q.len() && q[i + 1] != t[i + 1] {
                lemma_literal_kind(q[i + 1]);
                reveal_strlit("=");
                reveal_strlit("!=");
                reveal_strlit("<>");
            }
            assert(comparison_at(t, i) == Some((op, v)));
            assert(bare_comparison(t, i) == Some(v));
            assert(answered(t, q, 0, i));
            assert(fits(t[v], next_char(t, v, None)));
            lemma_literal_longer(t[v], next_char(t, v, None));
        }
    }
}

// ---------------------------------------------------------------------------
// Status classes
// ---------------------------------------------------------------------------
/// The tokens between a column and the list of a class.
spec fn member_words(sign: Seq<char>) -> Seq<Seq<char>> {
    if sign == "!="@ || sign == "<>"@ {
        seq![" "@, "not"@, " "@, "in"@, " "@]
    } else {
        seq![" "@, "in"@, " "@]
    }
}

/// The tokens of the list of a class.
spec fn class_words(class: Seq<char>) -> Seq<Seq<char>> {
    if class == "valid"@ {
        seq![
            "("@,
            "'compatible'"@,
            ","@,
            "'passed'"@,
            ","@,
            "'observed'"@,
            ","@,
            "'candidate'"@,
            ","@,
            "'valid'"@,
            ","@,
            "'ready'"@,
            ")"@,
        ]
    } else {
        seq![
            "("@,
            "'incompatible'"@,
            ","@,
            "'failed'"@,
            ","@,
            "'invalid'"@,
            ","@,
            "'blocked'"@,
            ")"@,
        ]
    }
}

/// The tokens of a membership test.
spec fn class_tokens(column: Seq<char>, sign: Seq<char>, class: Seq<char>) -> Seq<Seq<char>> {
    seq![column] + member_words(sign) + class_words(class)
}

/// The tokens from `i` on with those of each membership test in place of the comparison
/// that it stands for.
spec fn spread(q: Seq<Seq<char>>, i: int) -> Seq<Seq<char>>
    decreases q.len() - i,
{
    if i < 0 || i >= q.len() {
        Seq::empty()
    } else {
        match status_comparison(q, i) {
            Some((op, value, class)) => if i < value < q.len() {
                class_tokens(q[i], q[op], class) + spread(q, value + 1)
            } else {
                Seq::empty()
            },
            None => seq![q[i]] + spread(q, i + 1),
        }
    }
}

proof fn lemma_status_at(q: Seq<Seq<char>>, i: int)
    requires
        0 <= i < q.len(),
        status_comparison(q, i) is Some,
    ensures
        ({
            let (op, value, class) = status_comparison(q, i)->Some_0;
            &&& i < op < value < q.len()
            &&& op == solid_from(q, i + 1)
            &&& class == "valid"@ || class == "invalid"@
            &&& comparable_field(field_name(q[i]))
        }),
{
    let op = solid_from(q, i + 1);
    lemma_solid(q, i + 1);
    lemma_solid(q, op + 1);
}

proof fn lemma_short_is_quiet(token: Seq<char>)
    requires
        token.len() < 4,
    ensures
        !comparable_field(field_name(token)),
{
    if comparable_field(field_name(token)) {
        lemma_comparable_last(field_name(token));
        lemma_last_index(token, CharClass::Is('.'));
    }
}

proof fn lemma_quoted_fits(token: Seq<char>, next: Option<char>)
    requires
        token.len() >= 2,
        token[0] == '\'',
        token.last() == '\'',
        forall|i: int| 1 <= i < token.len() - 1 ==> is_letter(#[trigger] token[i]),
    ensures
        fits(token, next),
        !comparable_field(field_name(token)),
        !blank(token),
{
    lemma_literal_kind(token);
    assert(single_equals(token)) by {
        assert forall|i: int| 0 <= i < token.len() - 1 implies !(#[trigger] token[i] == '='
            && token[i + 1] == '=') by {
            if i > 0 {
                assert(is_letter(token[i]));
            }
        }
    }
}

/// A token of one character that is no letter, quote or space fits before anything that
/// makes no operator with it.
proof fn lemma_mark_fits(c: char, next: Option<char>)
    requires
        c == '(' || c == ')' || c == ',',
    ensures
        fits(seq![c], next),
{
}

/// What holds of the tokens of a list: they fit, and none names a column.
spec fn quiet(t: Seq<Seq<char>>) -> bool {
    forall|k: int| 0 <= k < t.len() ==> !comparable_field(field_name(#[trigger] t[k]))
}

proof fn lemma_member_words(sign: Seq<char>)
    ensures
        quiet(member_words(sign)),
        all_fit(member_words(sign), Some('(')),
        member_words(sign).len() >= 3,
        member_words(sign)[0] == " "@,
        blank(member_words(sign)[0]),
        !blank(member_words(sign)[1]),
        !comparison_sign(member_words(sign)[1]),
        concat(member_words(sign)) == " "@ + (if sign == "!="@ || sign == "<>"@ {
            "not in"@
        } else {
            "in"@
        }) + " "@,
{
    reveal_strlit(" ");
    reveal_strlit("in");
    reveal_strlit("not");
    reveal_strlit("not in");
    reveal_strlit("=");
    reveal_strlit("!=");
    reveal_strlit("<>");
    let t = member_words(sign);
    assert forall|k: int| 0 <= k < t.len() implies !comparable_field(
        field_name(#[trigger] t[k]),
    ) by {
        lemma_short_is_quiet(t[k]);
    }
    assert(" "@ =~= seq![' ']);
    assert(index_past(" "@, CharClass::White, 0) == index_past(" "@, CharClass::White, 1));
    lemma_not_blank("in"@);
    lemma_not_blank("not"@);
    assert forall|k: int| 0 <= k < t.len() implies fits(
        #[trigger] t[k],
        next_char(t, k, Some('(')),
    ) by {
        assert(t[k].len() > 0);
    }
    reveal_with_fuel(concat, 6);
    assert(concat(t) =~= " "@ + (if sign == "!="@ || sign == "<>"@ {
        "not in"@
    } else {
        "in"@
    }) + " "@);
}

proof fn lemma_class_words(class: Seq<char>, after: Option<char>)
    requires
        class == "valid"@ || class == "invalid"@,
    ensures
        quiet(class_words(class)),
        all_fit(class_words(class), after),
        class_words(class).len() > 0,
        class_words(class)[0] == "("@,
        class_words(class).last() == ")"@,
{
    reveal_strlit("(");
    reveal_strlit(")");
    reveal_strlit(",");
    assert("("@ =~= seq!['(']);
    assert(")"@ =~= seq![')']);
    assert(","@ =~= seq![',']);
    reveal_strlit("'compatible'");
    reveal_strlit("'passed'");
    reveal_strlit("'observed'");
    reveal_strlit("'candidate'");
    reveal_strlit("'valid'");
    reveal_strlit("'ready'");
    reveal_strlit("'incompatible'");
    reveal_strlit("'failed'");
    reveal_strlit("'invalid'");
    reveal_strlit("'blocked'");
    let t = class_words(class);
    assert forall|k: int| 0 <= k < t.len() implies fits(
        #[trigger] t[k],
        next_char(t, k, after),
    ) && !comparable_field(field_name(t[k])) by {
        let next = next_char(t, k, after);
        if t[k].len() == 1 {
            lemma_short_is_quiet(t[k]);
            lemma_mark_fits(t[k][0], next);
            assert(t[k] =~= seq![t[k][0]]);
        } else {
            lemma_quoted_fits(t[k], next);
        }
    }
}

proof fn lemma_valid_text()
    ensures
        concat(class_words("valid"@)) == class_sql("valid"@),
{
    reveal_strlit("(");
    reveal_strlit(")");
    reveal_strlit(",");
    reveal_strlit("'compatible'");
    reveal_strlit("'passed'");
    reveal_strlit("'observed'");
    reveal_strlit("'candidate'");
    reveal_strlit("'valid'");
    reveal_strlit("'ready'");
    reveal_strlit("('compatible','passed','observed','candidate','valid','ready')");
    reveal_with_fuel(concat, 14);
    assert(concat(class_words("valid"@)) =~= class_sql("valid"@));
}

proof fn lemma_invalid_text()
    ensures
        concat(class_words("invalid"@)) == class_sql("invalid"@),
{
    reveal_strlit("valid");
    reveal_strlit("invalid");
    assert("valid"@.len() != "invalid"@.len());
    reveal_strlit("(");
    reveal_strlit(")");
    reveal_strlit(",");
    reveal_strlit("'incompatible'");
    reveal_strlit("'failed'");
    reveal_strlit("'invalid'");
    reveal_strlit("'blocked'");
    reveal_strlit("('incompatible','failed','invalid','blocked')");
    reveal_with_fuel(concat, 10);
    assert(concat(class_words("invalid"@)) =~= class_sql("invalid"@));
}

proof fn lemma_concat_one(token: Seq<char>)
    ensures
        concat(seq![token]) == token,
{
    let t = seq![token];
    lemma_concat_first(t);
    assert(t.skip(1) =~= Seq::empty());
    assert(concat(t.skip(1)) =~= Seq::empty());
    assert(token + Seq::<char>::empty() =~= token);
}

proof fn lemma_class_text(column: Seq<char>, sign: Seq<char>, class: Seq<char>)
    requires
        class == "valid"@ || class == "invalid"@,
    ensures
        concat(class_tokens(column, sign, class)) == class_test(column, sign, class),
{
    if class == "valid"@ {
        lemma_valid_text();
    } else {
        lemma_invalid_text();
    }
    lemma_member_words(sign);
    lemma_concat_one(column);
    lemma_concat_add(seq![column], member_words(sign));
    lemma_concat_add(seq![column] + member_words(sign), class_words(class));
    assert(concat(class_tokens(column, sign, class)) =~= class_test(column, sign, class));
}

proof fn lemma_concat_empties(n: nat)
    ensures
        concat(Seq::new(n, |k: int| Seq::<char>::empty())) == Seq::<char>::empty(),
    decreases n,
{
    let t = Seq::new(n, |k: int| Seq::<char>::empty());
    if n > 0 {
        let d = Seq::new((n - 1) as nat, |k: int| Seq::<char>::empty());
        assert(t.drop_last() =~= d);
        lemma_concat_empties((n - 1) as nat);
        assert(concat(t) =~= Seq::<char>::empty());
    }
}

/// The spread tokens make the text that the expanded ones make.
proof fn lemma_spread_text(q: Seq<Seq<char>>, i: int)
    requires
        0 <= i <= q.len(),
    ensures
        concat(spread(q, i)) == concat(expand_classes(q, i)),
    decreases q.len() - i,
{
    if i < q.len() {
        match status_comparison(q, i) {
            Some((op, value, class)) => {
                lemma_status_at(q, i);
                lemma_spread_text(q, value + 1);
                let test = class_test(q[i], q[op], class);
                let empties = Seq::new((value - i) as nat, |k: int| Seq::<char>::empty());
                lemma_class_text(q[i], q[op], class);
                lemma_concat_add(class_tokens(q[i], q[op], class), spread(q, value + 1));
                lemma_concat_one(test);
                lemma_concat_empties((value - i) as nat);
                lemma_concat_add(seq![test], empties);
                lemma_concat_add(seq![test] + empties, expand_classes(q, value + 1));
                assert(test + Seq::<char>::empty() =~= test);
            },
            None => {
                lemma_spread_text(q, i + 1);
                lemma_concat_add(seq![q[i]], spread(q, i + 1));
                lemma_concat_add(seq![q[i]], expand_classes(q, i + 1));
            },
        }
    }
}

proof fn lemma_fit_add(a: Seq<Seq<char>>, b: Seq<Seq<char>>, after: Option<char>)
    requires
        all_fit(
            a,
            if b.len() > 0 {
                Some(b[0][0])
            } else {
                after
            },
        ),
        all_fit(b, after),
    ensures
        all_fit(a + b, after),
{
    let t = a + b;
    let middle = if b.len() > 0 {
        Some(b[0][0])
    } else {
        after
    };
    assert forall|k: int| 0 <= k < t.len() implies fits(
        #[trigger] t[k],
        next_char(t, k, after),
    ) by {
        if k < a.len() {
            assert(t[k] == a[k]);
            assert(fits(a[k], next_char(a, k, middle)));
            if k + 1 < a.len() {
                assert(t[k + 1] == a[k + 1]);
            } else if b.len() > 0 {
                assert(t[k + 1] == b[0]);
            }
        } else {
            assert(t[k] == b[k - a.len()]);
            assert(fits(b[k - a.len()], next_char(b, k - a.len(), after)));
            if k + 1 < t.len() {
                assert(t[k + 1] == b[k - a.len() + 1]);
            }
        }
    }
}

/// A column is a token before anything that is no word.
proof fn lemma_column_fits(token: Seq<char>, next: Option<char>)
    requires
        comparable_field(field_name(token)),
        fits(token, next),
        next is Some,
    ensures
        all_fit(seq![token], Some(' ')),
{
    lemma_column_is_word(token, next);
    let t = seq![token];
    assert(fits(token, Some(' ')));
    assert forall|k: int| 0 <= k < t.len() implies fits(
        #[trigger] t[k],
        next_char(t, k, Some(' ')),
    ) by {}
}

/// The spread tokens fit, and start as the tokens that they stand for.
proof fn lemma_spread_fits(q: Seq<Seq<char>>, i: int)
    requires
        0 <= i <= q.len(),
        all_fit(q, None),
    ensures
        all_fit(spread(q, i), None),
        i < q.len() ==> spread(q, i).len() > 0 && spread(q, i)[0] == q[i],
        i == q.len() ==> spread(q, i).len() == 0,
    decreases q.len() - i,
{
    if i < q.len() {
        assert(fits(q[i], next_char(q, i, None)));
        match status_comparison(q, i) {
            Some((op, value, class)) => {
                lemma_status_at(q, i);
                lemma_spread_fits(q, value + 1);
                let rest = spread(q, value + 1);
                let after = if rest.len() > 0 {
                    Some(rest[0][0])
                } else {
                    None
                };
                let m = member_words(q[op]);
                let c = class_words(class);
                lemma_member_words(q[op]);
                lemma_class_words(class, after);
                lemma_column_fits(q[i], next_char(q, i, None));
                reveal_strlit(" ");
                reveal_strlit("(");
                lemma_fit_add(m, c, after);
                assert((m + c)[0] == m[0]);
                lemma_fit_add(seq![q[i]], m + c, after);
                assert(seq![q[i]] + (m + c) =~= class_tokens(q[i], q[op], class));
                lemma_fit_add(class_tokens(q[i], q[op], class), rest, None);
            },
            None => {
                lemma_spread_fits(q, i + 1);
                let rest = spread(q, i + 1);
                let t = seq![q[i]];
                let after = if rest.len() > 0 {
                    Some(rest[0][0])
                } else {
                    None
                };
                assert(after == next_char(q, i, None));
                assert forall|k: int| 0 <= k < t.len() implies fits(
                    #[trigger] t[k],
                    next_char(t, k, after),
                ) by {}
                lemma_fit_add(t, rest, None);
            },
        }
    }
}

proof fn lemma_solid_shift(p: Seq<Seq<char>>, t: Seq<Seq<char>>, j: int)
    requires
        0 <= j <= t.len(),
    ensures
        solid_from(p + t, p.len() + j) == p.len() + solid_from(t, j),
    decreases t.len() - j,
{
    if j < t.len() {
        assert((p + t)[p.len() + j] == t[j]);
        lemma_solid_shift(p, t, j + 1);
    }
}

/// The first token that is not blank is the same before and after spreading, and behind
/// a sign both go on alike.
proof fn lemma_spread_solid(q: Seq<Seq<char>>, j: int)
    requires
        0 <= j <= q.len(),
        all_fit(q, None),
    ensures
        ({
            let t = spread(q, j);
            let a = solid_from(q, j);
            let b = solid_from(t, 0);
            &&& 0 <= b <= t.len()
            &&& j <= a <= q.len()
            &&& (a < q.len()) == (b < t.len())
            &&& a < q.len() ==> t[b] == q[a]
            &&& a < q.len() && comparison_sign(q[a]) ==> t.skip(b + 1) == spread(q, a + 1)
        }),
    decreases q.len() - j,
{
    let t = spread(q, j);
    lemma_spread_fits(q, j);
    lemma_solid(q, j);
    lemma_solid(t, 0);
    if j < q.len() {
        if blank(q[j]) {
            if field_name(q[j]) == "status"@ {
                lemma_column_last(q[j]);
            }
            let rest = spread(q, j + 1);
            assert(t == seq![q[j]] + rest);
            lemma_spread_solid(q, j + 1);
            lemma_solid_shift(seq![q[j]], rest, 0);
            let b = solid_from(rest, 0);
            assert(solid_from(t, 0) == solid_from(t, 1));
            assert(solid_from(t, 1) == 1 + b);
            assert(b < rest.len() ==> t[1 + b] == rest[b]);
            if b < rest.len() {
                assert(t.skip(1 + b + 1) =~= rest.skip(b + 1));
            }
        } else {
            assert(solid_from(t, 0) == 0);
            if comparison_sign(q[j]) {
                if field_name(q[j]) == "status"@ {
                    lemma_column_last(q[j]);
                }
                assert(t == seq![q[j]] + spread(q, j + 1));
                assert(t.skip(1) =~= spread(q, j + 1));
            }
        }
    }
}

/// Whether nothing is normalized at a token.
spec fn settled(t: Seq<Seq<char>>, k: int) -> bool {
    bare_comparison(t, k) is None && status_comparison(t, k) is None
}

proof fn lemma_quiet_is_settled(t: Seq<Seq<char>>, k: int)
    requires
        !comparable_field(field_name(t[k])),
    ensures
        settled(t, k),
{
}

/// The first token behind a kept one is the same in both lists, and behind a sign the
/// lists go on alike.
proof fn lemma_kept_sign(q: Seq<Seq<char>>, one: Seq<Seq<char>>, i: int)
    requires
        all_fit(q, None),
        0 <= i < q.len(),
    ensures
        ({
            let t = one + spread(q, i + 1);
            let op = solid_from(t, one.len() as int);
            let a = solid_from(q, i + 1);
            &&& one.len() <= op
            &&& op < t.len() ==> i < a < q.len() && t[op] == q[a]
            &&& op < t.len() && comparison_sign(t[op]) ==> t == t.take(op + 1) + spread(q, a + 1)
        }),
{
    let rest = spread(q, i + 1);
    let t = one + rest;
    let a = solid_from(q, i + 1);
    let b = solid_from(rest, 0);
    let op = one.len() + b;
    lemma_solid_shift(one, rest, 0);
    lemma_spread_solid(q, i + 1);
    if op < t.len() {
        assert(t[op] == rest[b]);
        if comparison_sign(t[op]) {
            assert(rest.skip(b + 1) == spread(q, a + 1));
            assert(t.skip(op + 1) =~= rest.skip(b + 1));
            assert(t =~= t.take(op + 1) + t.skip(op + 1));
        }
    }
}

/// The first token of the spread tokens behind others is that of their own list.
proof fn lemma_kept_value(q: Seq<Seq<char>>, two: Seq<Seq<char>>, j: int)
    requires
        all_fit(q, None),
        0 <= j <= q.len(),
    ensures
        ({
            let t = two + spread(q, j);
            let value = solid_from(t, two.len() as int);
            let d = solid_from(q, j);
            value < t.len() ==> d < q.len() && t[value] == q[d]
        }),
{
    let tail = spread(q, j);
    lemma_solid_shift(two, tail, 0);
    lemma_spread_solid(q, j);
    let t = two + tail;
    let c = solid_from(tail, 0);
    if two.len() + c < t.len() {
        assert(t[two.len() + c] == tail[c]);
    }
}

/// The sign and the value behind a kept token are those behind it in its own list.
proof fn lemma_kept_solids(q: Seq<Seq<char>>, one: Seq<Seq<char>>, i: int)
    requires
        all_fit(q, None),
        0 <= i < q.len(),
    ensures
        ({
            let t = one + spread(q, i + 1);
            let op = solid_from(t, one.len() as int);
            let value = solid_from(t, op + 1);
            let a = solid_from(q, i + 1);
            let d = solid_from(q, a + 1);
            op < t.len() && comparison_sign(t[op]) && value < t.len() ==> a < q.len() && t[op]
                == q[a] && d < q.len() && t[value] == q[d]
        }),
{
    let t = one + spread(q, i + 1);
    let op = solid_from(t, one.len() as int);
    let a = solid_from(q, i + 1);
    lemma_kept_sign(q, one, i);
    if op < t.len() && comparison_sign(t[op]) {
        let two = t.take(op + 1);
        assert(two.len() == op + 1);
        lemma_kept_value(q, two, a + 1);
    }
}

proof fn lemma_bracket_bounds_nothing()
    ensures
        !blank(")"@),
        ")"@ != "."@,
        ")"@ != "("@,
        ")"@ != ","@,
{
    reveal_strlit(")");
    reveal_strlit(".");
    reveal_strlit("(");
    reveal_strlit(",");
    lemma_not_blank(")"@);
    assert(")"@[0] != "."@[0] && ")"@[0] != "("@[0] && ")"@[0] != ","@[0]);
}

/// A kept token is as settled behind other tokens as it was in its own list.
proof fn lemma_kept_settled(q: Seq<Seq<char>>, p: Seq<Seq<char>>, i: int)
    requires
        all_fit(q, None),
        0 <= i < q.len(),
        i == 0 ==> p.len() == 0,
        i > 0 ==> p.len() > 0 && (p.last() == q[i - 1] || p.last() == ")"@),
        settled(q, i),
        status_comparison(q, i) is None,
    ensures
        settled(p + spread(q, i), p.len() as int),
{
    let t = p + spread(q, i);
    let k = p.len() as int;
    let one = p.push(q[i]);
    let rest = spread(q, i + 1);
    lemma_spread_fits(q, i + 1);
    assert(spread(q, i) == seq![q[i]] + rest);
    assert(t =~= one + rest);
    assert(t[k] == q[i]);
    lemma_kept_solids(q, one, i);
    lemma_bracket_bounds_nothing();
    let op = solid_from(t, k + 1);
    let value = solid_from(t, op + 1);
    let a = solid_from(q, i + 1);
    let d = solid_from(q, a + 1);
    if comparison_at(t, k) is Some {
        assert(comparison_at(t, k) == Some((op, value)));
        lemma_solid(t, k + 1);
        assert(boundary_before(q, i)) by {
            if i > 0 {
                assert(t[k - 1] == p.last());
            }
        }
        assert(boundary_after(q, i)) by {
            if i + 1 < q.len() {
                assert(t[k + 1] == rest[0]);
            }
        }
        assert(comparison_at(q, i) == Some((a, d)));
        assert(t[value] == q[d]);
    }
}

/// Nothing is left to normalize among spread tokens.
proof fn lemma_spread_settled(q: Seq<Seq<char>>, p: Seq<Seq<char>>, i: int)
    requires
        all_fit(q, None),
        0 <= i <= q.len(),
        i == 0 ==> p.len() == 0,
        i > 0 ==> p.len() > 0 && (p.last() == q[i - 1] || p.last() == ")"@),
        forall|k: int| 0 <= k < q.len() ==> (#[trigger] bare_comparison(q, k)) is None,
        forall|k: int| 0 <= k < p.len() ==> #[trigger] settled(p + spread(q, i), k),
    ensures
        forall|k: int|
            0 <= k < (p + spread(q, i)).len() ==> #[trigger] settled(p + spread(q, i), k),
    decreases q.len() - i,
{
    let t = p + spread(q, i);
    if i < q.len() {
        match status_comparison(q, i) {
            Some((op, value, class)) => {
                lemma_status_at(q, i);
                let c = class_tokens(q[i], q[op], class);
                let m = member_words(q[op]);
                let w = class_words(class);
                let rest = spread(q, value + 1);
                lemma_member_words(q[op]);
                lemma_class_words(class, None);
                assert(t =~= (p + c) + rest);
                let start = p.len() as int;
                assert forall|k: int| start <= k < start + c.len() implies settled(t, k) by {
                    assert(t[k] == c[k - start]);
                    if k == start {
                        assert(t[k + 1] == m[0] && t[k + 2] == m[1]);
                        assert(solid_from(t, k + 1) == solid_from(t, k + 2));
                        assert(solid_from(t, k + 2) == k + 2);
                    } else if k < start + 1 + m.len() {
                        assert(t[k] == m[k - start - 1]);
                        lemma_quiet_is_settled(t, k);
                    } else {
                        assert(t[k] == w[k - start - 1 - m.len()]);
                        lemma_quiet_is_settled(t, k);
                    }
                }
                assert forall|k: int| 0 <= k < (p + c).len() implies #[trigger] settled(
                    (p + c) + rest,
                    k,
                ) by {
                    if k < p.len() {
                        assert(settled(p + spread(q, i), k));
                    }
                }
                assert((p + c).last() == w.last());
                lemma_spread_settled(q, p + c, value + 1);
            },
            None => {
                lemma_kept_settled(q, p, i);
                let one = p.push(q[i]);
                let rest = spread(q, i + 1);
                assert(t =~= one + rest);
                assert forall|k: int| 0 <= k < one.len() implies #[trigger] settled(
                    one + rest,
                    k,
                ) by {
                    if k < p.len() {
                        assert(settled(p + spread(q, i), k));
                    }
                }
                lemma_spread_settled(q, one, i + 1);
            },
        }
    }
}

/// Normalizing twice is normalizing once: values that are quoted and classes that are
/// written out are left alone. Three equals signs in a row are left out: of them two
/// stand for one, and the one that is left and the third stand for one again.
pub proof fn law_normalizing_twice_is_once(s: Seq<char>)
    requires
        !contains(s, "==="@),
    ensures
        normal_sql(normal_sql(s)) == normal_sql(s),
{
    let one = replace(s, "=="@, "="@);
    lemma_replaced_single(s, 0);
    let t = sql_tokens(one);
    lemma_tokens_fit(one, 0);
    let q = quote_values(t, 0);
    lemma_quoted_once(t);
    let r = spread(q, 0);
    let n = normal_sql(s);
    lemma_spread_text(q, 0);
    lemma_spread_fits(q, 0);
    let none = Seq::<Seq<char>>::empty();
    assert(none + r =~= r);
    lemma_spread_settled(q, none, 0);
    let empty = Seq::<char>::empty();
    assert(empty + concat(r) =~= concat(r));
    lemma_tokens_of_concat(empty, r);
    assert(sql_tokens(n) == r);
    lemma_concat_single(r);
    assert(!contains(n, "=="@)) by {
        lemma_find_from(n, "=="@, 0);
        reveal_strlit("==");
        if contains(n, "=="@) {
            let i = crate::text::find(n, "=="@)->Some_0;
            let w = n.subrange(i, i + 2);
            assert(w[0] == n[i] && w[1] == n[i + 1]);
            assert("=="@[0] == '=' && "=="@[1] == '=');
        }
    }
    assert forall|i: int| 0 <= i < sql_tokens(n).len() implies (#[trigger] bare_comparison(
        sql_tokens(n),
        i,
    )) is None by {
        assert(settled(none + r, i));
    }
    assert forall|i: int| 0 <= i < sql_tokens(n).len() implies (#[trigger] status_comparison(
        sql_tokens(n),
        i,
    )) is None by {
        assert(settled(none + r, i));
    }
    law_plain_sql_is_kept(n);
}

} // verus!
