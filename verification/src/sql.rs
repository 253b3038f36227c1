//! SQL text: literals and identifiers, and the short forms that the query surface
//! accepts in filters.
use vstd::prelude::*;
use crate::text::{
    all_digits, alnum, alpha, cat3, cat5, chars_of, concat, concatenated, contains, cut_last,
    cut_once, digit, find_class, index_of, index_past, is_alnum, is_alpha, is_digit,
    lemma_concat_add, lemma_find_from, lemma_index_of, lemma_index_past, lemma_replace_nothing,
    lower, opt_view, replace, replace_char, replaced, replaced_char, same, skip_class, split_last,
    split_once, string_of, to_lower, trim, trim_class, trimmed, trimmed_class, views, CharClass,
};

verus! {

// ---------------------------------------------------------------------------
// Identifiers and literals
// ---------------------------------------------------------------------------
/// Whether the text is a plain SQL identifier: a letter or underscore, then letters,
/// digits and underscores.
pub open spec fn sql_identifier(s: Seq<char>) -> bool {
    &&& s.len() > 0
    &&& s[0] == '_' || is_alpha(s[0])
    &&& forall|i: int| 0 <= i < s.len() ==> #[trigger] s[i] == '_' || is_alnum(s[i])
}

pub fn is_sql_identifier(value: &str) -> (r: bool)
    ensures
        r == sql_identifier(value@),
{
    let v = chars_of(value);
    if v.len() == 0 || !(v[0] == '_' || alpha(v[0])) {
        return false;
    }
    let mut i: usize = 0;
    while i < v.len()
        invariant
            v@ == value@,
            i <= v@.len(),
            forall|j: int| 0 <= j < i ==> #[trigger] v@[j] == '_' || is_alnum(v@[j]),
        decreases v@.len() - i,
    {
        if !(v[i] == '_' || alnum(v[i])) {
            return false;
        }
        i += 1;
    }
    true
}

/// The text between two quotes, with each quote in it doubled.
pub open spec fn quoted(s: Seq<char>, q: char) -> Seq<char> {
    seq![q] + replace_char(s, q, seq![q, q]) + seq![q]
}

/// The identifier in double quotes.
pub open spec fn identifier_sql(s: Seq<char>) -> Seq<char> {
    quoted(s, '"')
}

/// The string literal of the text.
pub open spec fn literal_sql(s: Seq<char>) -> Seq<char> {
    quoted(s, '\'')
}

/// The string literal of the text, or `null`.
pub open spec fn literal_opt_sql(s: Option<Seq<char>>) -> Seq<char> {
    match s {
        Some(t) => literal_sql(t),
        None => "null"@,
    }
}

pub fn quote_identifier(value: &str) -> (r: String)
    ensures
        r@ == identifier_sql(value@),
{
    proof {
        reveal_strlit("\"");
        reveal_strlit("\"\"");
        assert("\""@ =~= seq!['"']);
        assert("\"\""@ =~= seq!['"', '"']);
    }
    let body = replaced_char(value, '"', "\"\"");
    cat3("\"", body.as_str(), "\"")
}

pub fn sql_literal(value: &str) -> (r: String)
    ensures
        r@ == literal_sql(value@),
{
    proof {
        reveal_strlit("'");
        reveal_strlit("''");
        assert("'"@ =~= seq!['\'']);
        assert("''"@ =~= seq!['\'', '\'']);
    }
    let body = replaced_char(value, '\'', "''");
    cat3("'", body.as_str(), "'")
}

pub fn sql_literal_opt(value: &Option<String>) -> (r: String)
    ensures
        r@ == literal_opt_sql(opt_view(*value)),
{
    match value {
        Some(s) => sql_literal(s.as_str()),
        None => "null".to_owned(),
    }
}

/// The text with each doubled quote read as one.
pub open spec fn undoubled(s: Seq<char>, q: char) -> Seq<char>
    decreases s.len(),
{
    if s.len() == 0 {
        s
    } else if s.len() >= 2 && s.last() == q && s[s.len() - 2] == q {
        undoubled(s.drop_last().drop_last(), q).push(q)
    } else {
        undoubled(s.drop_last(), q).push(s.last())
    }
}

proof fn lemma_undoubled(s: Seq<char>, q: char)
    ensures
        undoubled(replace_char(s, q, seq![q, q]), q) == s,
    decreases s.len(),
{
    if s.len() > 0 {
        let t = s.drop_last();
        lemma_undoubled(t, q);
        let r = replace_char(t, q, seq![q, q]);
        if s.last() == q {
            let u = r + seq![q, q];
            assert(u.drop_last().drop_last() =~= r);
        } else {
            assert(r.push(s.last()).drop_last() =~= r);
        }
        assert(t.push(s.last()) =~= s);
    }
}

/// Reading a quoted text gives back what was quoted, whatever quotes it holds.
pub proof fn law_quoted_reads_back(s: Seq<char>, q: char)
    ensures
        quoted(s, q).len() >= 2,
        quoted(s, q)[0] == q,
        quoted(s, q).last() == q,
        undoubled(quoted(s, q).subrange(1, quoted(s, q).len() - 1), q) == s,
{
    lemma_undoubled(s, q);
    assert(quoted(s, q).subrange(1, quoted(s, q).len() - 1) =~= replace_char(s, q, seq![q, q]));
}

// ---------------------------------------------------------------------------
// Tokens
// ---------------------------------------------------------------------------
/// Whether the character may stand in an SQL word.
pub fn is_sql_word_char(character: char) -> (r: bool)
    ensures
        r == CharClass::SqlWord.holds(character),
{
    CharClass::SqlWord.has(character)
}

pub open spec fn is_operator_pair(a: char, b: char) -> bool {
    (a == '!' && b == '=') || (a == '<' && b == '>') || (a == '<' && b == '=') || (a == '>' && b
        == '=')
}

/// Where the token that starts at `i` ends: a run of white space, a quoted text up
/// to its closing quote, a word, an operator of two characters, or one character.
pub open spec fn token_end(s: Seq<char>, i: int) -> int {
    let c = s[i];
    if CharClass::White.holds(c) {
        index_past(s, CharClass::White, i)
    } else if c == '\'' || c == '"' {
        let close = index_of(s, CharClass::Is(c), i + 1);
        if close < s.len() {
            close + 1
        } else {
            s.len() as int
        }
    } else if CharClass::SqlWord.holds(c) {
        index_past(s, CharClass::SqlWord, i)
    } else if i + 1 < s.len() && is_operator_pair(c, s[i + 1]) {
        i + 2
    } else {
        i + 1
    }
}

/// The tokens of the text from `i` on.
pub open spec fn tokens_from(s: Seq<char>, i: int) -> Seq<Seq<char>>
    decreases s.len() - i,
{
    if 0 <= i < s.len() && i < token_end(s, i) <= s.len() {
        seq![s.subrange(i, token_end(s, i))] + tokens_from(s, token_end(s, i))
    } else {
        Seq::empty()
    }
}

/// The tokens of SQL text.
pub open spec fn sql_tokens(s: Seq<char>) -> Seq<Seq<char>> {
    tokens_from(s, 0)
}

proof fn lemma_token_end(s: Seq<char>, i: int)
    requires
        0 <= i < s.len(),
    ensures
        i < token_end(s, i) <= s.len(),
{
    lemma_index_past(s, CharClass::White, i);
    lemma_index_past(s, CharClass::SqlWord, i);
    lemma_index_of(s, CharClass::Is(s[i]), i + 1);
}

pub fn tokenize_sql(sql: &str) -> (r: Vec<String>)
    ensures
        views(r@) == sql_tokens(sql@),
{
    let v = chars_of(sql);
    let n = v.len();
    let mut out: Vec<String> = Vec::new();
    let mut i: usize = 0;
    while i < n
        invariant
            v@ == sql@,
            n == v@.len(),
            i <= n,
            sql_tokens(sql@) == views(out@) + tokens_from(sql@, i as int),
        decreases n - i,
    {
        proof {
            lemma_token_end(sql@, i as int);
        }
        let c = v[i];
        let end: usize = if CharClass::White.has(c) {
            skip_class(v.as_slice(), CharClass::White, i)
        } else if c == '\'' || c == '"' {
            let close = find_class(v.as_slice(), CharClass::Is(c), i + 1);
            if close < n {
                close + 1
            } else {
                n
            }
        } else if is_sql_word_char(c) {
            skip_class(v.as_slice(), CharClass::SqlWord, i)
        } else if i + 1 < n && ((c == '!' && v[i + 1] == '=') || (c == '<' && v[i + 1] == '>') || (c
            == '<' && v[i + 1] == '=') || (c == '>' && v[i + 1] == '=')) {
            i + 2
        } else {
            i + 1
        };
        let ghost before = views(out@);
        out.push(string_of(v.as_slice(), i, end));
        assert(views(out@) =~= before.push(sql@.subrange(i as int, end as int)));
        assert(before + (seq![sql@.subrange(i as int, end as int)] + tokens_from(sql@, end as int))
            =~= views(out@) + tokens_from(sql@, end as int));
        i = end;
    }
    assert(views(out@) + Seq::<Seq<char>>::empty() =~= views(out@));
    out
}

proof fn lemma_tokens_concat(s: Seq<char>, i: int)
    requires
        0 <= i <= s.len(),
    ensures
        concat(tokens_from(s, i)) == s.skip(i),
        forall|k: int|
            0 <= k < tokens_from(s, i).len() ==> (#[trigger] tokens_from(s, i)[k]).len() > 0,
    decreases s.len() - i,
{
    if i < s.len() {
        lemma_token_end(s, i);
        let e = token_end(s, i);
        lemma_tokens_concat(s, e);
        let head = seq![s.subrange(i, e)];
        lemma_concat_add(head, tokens_from(s, e));
        assert(head.drop_last() =~= Seq::empty());
        assert(concat(head.drop_last()) =~= Seq::empty());
        assert(concat(head) =~= s.subrange(i, e));
        assert(s.subrange(i, e) + s.skip(e) =~= s.skip(i));
    } else {
        assert(s.skip(i) =~= Seq::empty());
    }
}

/// The tokens of a text, one after another, are the text, and none is empty.
pub proof fn law_tokens_cover_text(s: Seq<char>)
    ensures
        concat(sql_tokens(s)) == s,
        forall|k: int| 0 <= k < sql_tokens(s).len() ==> (#[trigger] sql_tokens(s)[k]).len() > 0,
{
    lemma_tokens_concat(s, 0);
    assert(s.skip(0) =~= s);
}

// ---------------------------------------------------------------------------
// Bare values in filters
// ---------------------------------------------------------------------------
/// Whether the text is empty but for white space.
pub open spec fn blank(s: Seq<char>) -> bool {
    trim(s).len() == 0
}

pub fn is_blank(s: &str) -> (r: bool)
    ensures
        r == blank(s@),
{
    trimmed(s).as_str().is_empty()
}

pub open spec fn after_sign(s: Seq<char>) -> Seq<char> {
    if s.len() > 0 && (s[0] == '+' || s[0] == '-') {
        s.skip(1)
    } else {
        s
    }
}

/// Whether the text is an exponent with its digits, or nothing.
pub open spec fn exponent_or_end(s: Seq<char>) -> bool {
    s.len() == 0 || ((s[0] == 'e' || s[0] == 'E') && after_sign(s.skip(1)).len() > 0 && all_digits(
        after_sign(s.skip(1)),
    ))
}

/// Whether the text is an unsigned decimal number: digits, a point among or beside
/// them where one stands, and an optional exponent.
pub open spec fn decimal_number(s: Seq<char>) -> bool {
    let a = index_past(s, CharClass::Digit, 0);
    if a < s.len() && s[a] == '.' {
        let b = index_past(s, CharClass::Digit, a + 1);
        b > 1 && exponent_or_end(s.skip(b))
    } else {
        a > 0 && exponent_or_end(s.skip(a))
    }
}

/// Whether Rust reads the text as a floating-point number.
pub open spec fn float_text(s: Seq<char>) -> bool {
    let t = after_sign(s);
    ||| lower(t) == "inf"@
    ||| lower(t) == "infinity"@
    ||| lower(t) == "nan"@
    ||| decimal_number(t)
}

fn sign_end(v: &[char], i: usize) -> (r: usize)
    requires
        i <= v@.len(),
    ensures
        i <= r <= v@.len(),
        v@.skip(r as int) == after_sign(v@.skip(i as int)),
{
    if i < v.len() && (v[i] == '+' || v[i] == '-') {
        assert(v@.skip(i as int)[0] == v@[i as int]);
        assert(v@.skip(i as int).skip(1) =~= v@.skip(i as int + 1));
        i + 1
    } else {
        assert(i < v@.len() ==> v@.skip(i as int)[0] == v@[i as int]);
        i
    }
}

fn exponent_ends(v: &[char], i: usize) -> (r: bool)
    requires
        i <= v@.len(),
    ensures
        r == exponent_or_end(v@.skip(i as int)),
{
    if i == v.len() {
        return true;
    }
    assert(v@.skip(i as int)[0] == v@[i as int]);
    if v[i] != 'e' && v[i] != 'E' {
        return false;
    }
    assert(v@.skip(i as int).skip(1) =~= v@.skip(i as int + 1));
    let from = sign_end(v, i + 1);
    let ghost d = v@.skip(from as int);
    if from == v.len() {
        return false;
    }
    let mut j: usize = from;
    while j < v.len()
        invariant
            from <= j <= v@.len(),
            d == v@.skip(from as int),
            forall|k: int| 0 <= k < j - from ==> is_digit(#[trigger] d[k]),
            exponent_or_end(v@.skip(i as int)) == all_digits(d),
        decreases v@.len() - j,
    {
        assert(d[j - from] == v@[j as int]);
        if !digit(v[j]) {
            return false;
        }
        j += 1;
    }
    true
}

fn is_decimal_number(v: &[char], i: usize) -> (r: bool)
    requires
        i <= v@.len(),
    ensures
        r == decimal_number(v@.skip(i as int)),
{
    let w = string_of(v, i, v.len());
    let t = chars_of(w.as_str());
    assert(t@ =~= v@.skip(i as int));
    let a = skip_class(t.as_slice(), CharClass::Digit, 0);
    if a < t.len() && t[a] == '.' {
        let b = skip_class(t.as_slice(), CharClass::Digit, a + 1);
        b > 1 && exponent_ends(t.as_slice(), b)
    } else {
        a > 0 && exponent_ends(t.as_slice(), a)
    }
}

pub fn is_float_text(s: &str) -> (r: bool)
    ensures
        r == float_text(s@),
{
    let v = chars_of(s);
    assert(v@.skip(0) =~= v@);
    let from = sign_end(v.as_slice(), 0);
    let rest = string_of(v.as_slice(), from, v.len());
    let low = to_lower(rest.as_str());
    same(low.as_str(), "inf") || same(low.as_str(), "infinity") || same(low.as_str(), "nan")
        || is_decimal_number(v.as_slice(), from)
}

/// Whether the text is two plain identifiers with one point between them.
pub open spec fn qualified_identifier(s: Seq<char>) -> bool {
    match split_once(s, "."@) {
        Some((qualifier, field)) => sql_identifier(qualifier) && sql_identifier(field),
        None => false,
    }
}

pub fn is_qualified_sql_identifier(token: &str) -> (r: bool)
    ensures
        r == qualified_identifier(token@),
{
    match cut_once(token, ".") {
        Some((qualifier, field)) => {
            let r = is_sql_identifier(qualifier.as_str()) && is_sql_identifier(field.as_str());
            r
        },
        None => false,
    }
}

pub open spec fn sql_keyword(s: Seq<char>) -> bool {
    ||| s == "null"@
    ||| s == "true"@
    ||| s == "false"@
    ||| s == "select"@
    ||| s == "from"@
    ||| s == "where"@
    ||| s == "and"@
    ||| s == "or"@
    ||| s == "in"@
    ||| s == "like"@
    ||| s == "is"@
    ||| s == "not"@
}

fn is_sql_keyword(s: &str) -> (r: bool)
    ensures
        r == sql_keyword(s@),
{
    same(s, "null") || same(s, "true") || same(s, "false") || same(s, "select") || same(s, "from")
        || same(s, "where") || same(s, "and") || same(s, "or") || same(s, "in") || same(s, "like")
        || same(s, "is") || same(s, "not")
}

/// Whether the token is a value without quotes: no quoted text, no qualified
/// identifier, no number and no keyword.
pub open spec fn bare_value(s: Seq<char>) -> bool {
    &&& !(s.len() > 0 && (s[0] == '\'' || s[0] == '"'))
    &&& !qualified_identifier(s)
    &&& !float_text(s)
    &&& !sql_keyword(lower(s))
}

pub fn is_bare_sql_value(token: &str) -> (r: bool)
    ensures
        r == bare_value(token@),
{
    let v = chars_of(token);
    if v.len() > 0 && (v[0] == '\'' || v[0] == '"') {
        return false;
    }
    let low = to_lower(token);
    !is_qualified_sql_identifier(token) && !is_float_text(token) && !is_sql_keyword(low.as_str())
}

/// The column that a token names: what follows its last point, in lower case.
pub open spec fn field_name(s: Seq<char>) -> Seq<char> {
    match split_last(s, CharClass::Is('.')) {
        Some((_, field)) => lower(field),
        None => lower(s),
    }
}

pub fn comparable_field_name(token: &str) -> (r: String)
    ensures
        r@ == field_name(token@),
{
    match cut_last(token, CharClass::Is('.')) {
        Some((_, field)) => to_lower(field.as_str()),
        None => to_lower(token),
    }
}

/// The columns whose comparisons take bare values.
pub open spec fn comparable_field(s: Seq<char>) -> bool {
    ||| s == "zone"@
    ||| s == "kind"@
    ||| s == "status"@
    ||| s == "type"@
    ||| s == "component"@
    ||| s == "capability"@
    ||| s == "repo"@
    ||| s == "version"@
    ||| s == "fact_id"@
    ||| s == "source_repo"@
    ||| s == "source_repository"@
    ||| s == "subject_name"@
    ||| s == "subject_type"@
    ||| s == "target"@
}

fn is_comparable_field(s: &str) -> (r: bool)
    ensures
        r == comparable_field(s@),
{
    same(s, "zone") || same(s, "kind") || same(s, "status") || same(s, "type") || same(
        s,
        "component",
    ) || same(s, "capability") || same(s, "repo") || same(s, "version") || same(s, "fact_id")
        || same(s, "source_repo") || same(s, "source_repository") || same(s, "subject_name")
        || same(s, "subject_type") || same(s, "target")
}

/// Whether a column may start at the token: it is the first, or white space, a
/// point, an opening bracket or a comma stands before it.
pub open spec fn boundary_before(t: Seq<Seq<char>>, i: int) -> bool {
    i == 0 || blank(t[i - 1]) || t[i - 1] == "."@ || t[i - 1] == "("@ || t[i - 1] == ","@
}

pub fn token_boundary_before(tokens: &[String], index: usize) -> (r: bool)
    requires
        index < tokens@.len(),
    ensures
        r == boundary_before(views(tokens@), index as int),
{
    if index == 0 {
        return true;
    }
    let t = tokens[index - 1].as_str();
    assert(views(tokens@)[index - 1] == t@);
    is_blank(t) || same(t, ".") || same(t, "(") || same(t, ",")
}

/// Whether a column may end at the token: it is the last, or white space or a
/// comparison sign stands after it.
pub open spec fn boundary_after(t: Seq<Seq<char>>, i: int) -> bool {
    i + 1 >= t.len() || blank(t[i + 1]) || t[i + 1] == "="@ || t[i + 1] == "!"@ || t[i + 1] == "<"@
        || t[i + 1] == ">"@ || t[i + 1] == "!="@ || t[i + 1] == "<>"@
}

pub fn token_boundary_after(tokens: &[String], index: usize) -> (r: bool)
    requires
        index < tokens@.len(),
    ensures
        r == boundary_after(views(tokens@), index as int),
{
    let n = tokens.len();
    if index + 1 >= n {
        return true;
    }
    let t = tokens[index + 1].as_str();
    assert(views(tokens@)[index + 1] == t@);
    is_blank(t) || same(t, "=") || same(t, "!") || same(t, "<") || same(t, ">") || same(t, "!=")
        || same(t, "<>")
}

/// The first token at or after `from` that is not white space, or the number of
/// tokens where there is none.
pub open spec fn solid_from(t: Seq<Seq<char>>, from: int) -> int
    decreases t.len() - from,
{
    if from < 0 || from >= t.len() {
        t.len() as int
    } else if !blank(t[from]) {
        from
    } else {
        solid_from(t, from + 1)
    }
}

pub fn next_non_ws(tokens: &[String], start: usize) -> (r: Option<usize>)
    requires
        start <= tokens@.len(),
    ensures
        match r {
            Some(i) => i == solid_from(views(tokens@), start as int) && start <= i < tokens@.len(),
            None => solid_from(views(tokens@), start as int) == tokens@.len(),
        },
{
    let mut i: usize = start;
    let ghost t = views(tokens@);
    while i < tokens.len()
        invariant
            t == views(tokens@),
            start <= i <= tokens@.len(),
            solid_from(t, start as int) == solid_from(t, i as int),
        decreases tokens@.len() - i,
    {
        assert(t[i as int] == tokens@[i as int]@);
        if !is_blank(tokens[i].as_str()) {
            return Some(i);
        }
        i += 1;
    }
    None
}

pub open spec fn comparison_sign(s: Seq<char>) -> bool {
    s == "="@ || s == "!="@ || s == "<>"@
}

fn is_comparison_sign(s: &str) -> (r: bool)
    ensures
        r == comparison_sign(s@),
{
    same(s, "=") || same(s, "!=") || same(s, "<>")
}

/// The index of the sign of a comparison whose column is token `i`, and the index
/// of the token compared with.
pub open spec fn comparison_at(t: Seq<Seq<char>>, i: int) -> Option<(int, int)> {
    let op = solid_from(t, i + 1);
    let value = solid_from(t, op + 1);
    if boundary_before(t, i) && boundary_after(t, i) && op < t.len() && comparison_sign(t[op])
        && value < t.len() {
        Some((op, value))
    } else {
        None
    }
}

fn find_comparison(tokens: &[String], i: usize) -> (r: Option<(usize, usize)>)
    requires
        i < tokens@.len(),
    ensures
        match r {
            Some((op, value)) => comparison_at(views(tokens@), i as int) == Some(
                (op as int, value as int),
            ) && i < op < value < tokens@.len(),
            None => comparison_at(views(tokens@), i as int) is None,
        },
{
    let n = tokens.len();
    if !token_boundary_before(tokens, i) || !token_boundary_after(tokens, i) {
        return None;
    }
    match next_non_ws(tokens, i + 1) {
        Some(op) => {
            assert(views(tokens@)[op as int] == tokens@[op as int]@);
            if is_comparison_sign(tokens[op].as_str()) {
                match next_non_ws(tokens, op + 1) {
                    Some(value) => Some((op, value)),
                    None => None,
                }
            } else {
                None
            }
        },
        None => None,
    }
}

/// The index of the bare value that the column at token `i` is compared with.
pub open spec fn bare_comparison(t: Seq<Seq<char>>, i: int) -> Option<int> {
    if comparable_field(field_name(t[i])) {
        match comparison_at(t, i) {
            Some((_, value)) => if bare_value(t[value]) {
                Some(value)
            } else {
                None
            },
            None => None,
        }
    } else {
        None
    }
}

/// The tokens from `i` on, with the bare value of each comparison made a literal.
pub open spec fn quote_values(t: Seq<Seq<char>>, i: int) -> Seq<Seq<char>>
    decreases t.len() - i,
{
    if i < 0 || i >= t.len() {
        Seq::empty()
    } else {
        match bare_comparison(t, i) {
            Some(value) => if i < value {
                t.subrange(i, value).push(literal_sql(t[value])) + quote_values(t, value + 1)
            } else {
                Seq::empty()
            },
            None => seq![t[i]] + quote_values(t, i + 1),
        }
    }
}

fn quote_bare_values(tokens: &Vec<String>) -> (r: Vec<String>)
    ensures
        views(r@) == quote_values(views(tokens@), 0),
{
    let ghost t = views(tokens@);
    let n = tokens.len();
    let mut out: Vec<String> = Vec::new();
    let mut i: usize = 0;
    while i < n
        invariant
            t == views(tokens@),
            n == tokens@.len(),
            i <= n,
            quote_values(t, 0) == views(out@) + quote_values(t, i as int),
        decreases n - i,
    {
        assert(t[i as int] == tokens@[i as int]@);
        let field = comparable_field_name(tokens[i].as_str());
        let found: Option<usize> = if is_comparable_field(field.as_str()) {
            match find_comparison(tokens.as_slice(), i) {
                Some((_, value)) => {
                    assert(t[value as int] == tokens@[value as int]@);
                    if is_bare_sql_value(tokens[value].as_str()) {
                        Some(value)
                    } else {
                        None
                    }
                },
                None => None,
            }
        } else {
            None
        };
        match found {
            Some(value) => {
                let ghost before = views(out@);
                let mut j: usize = i;
                while j < value
                    invariant
                        t == views(tokens@),
                        i <= j <= value < tokens@.len(),
                        views(out@) == before + t.subrange(i as int, j as int),
                    decreases value - j,
                {
                    let ghost mid = views(out@);
                    out.push(tokens[j].clone());
                    assert(views(out@) =~= mid.push(t[j as int]));
                    assert(mid.push(t[j as int]) =~= before + t.subrange(i as int, j as int + 1));
                    j += 1;
                }
                let ghost mid = views(out@);
                assert(t[value as int] == tokens@[value as int]@);
                let lit = sql_literal(tokens[value].as_str());
                out.push(lit);
                assert(views(out@) =~= mid.push(literal_sql(t[value as int])));
                assert(before + (t.subrange(i as int, value as int).push(
                    literal_sql(t[value as int]),
                ) + quote_values(t, value + 1)) =~= views(out@) + quote_values(t, value + 1));
                i = value + 1;
            },
            None => {
                let ghost before = views(out@);
                out.push(tokens[i].clone());
                assert(views(out@) =~= before.push(t[i as int]));
                assert(before + (seq![t[i as int]] + quote_values(t, i + 1)) =~= views(out@)
                    + quote_values(t, i + 1));
                i += 1;
            },
        }
    }
    assert(views(out@) + Seq::<Seq<char>>::empty() =~= views(out@));
    out
}

// ---------------------------------------------------------------------------
// Status classes
// ---------------------------------------------------------------------------
/// The status class that a value names, with or without quotes.
pub open spec fn status_class(s: Seq<char>) -> Option<Seq<char>> {
    let value = lower(trim_class(trim_class(trim(s), CharClass::Is('\'')), CharClass::Is('"')));
    if value == "valid"@ {
        Some("valid"@)
    } else if value == "invalid"@ {
        Some("invalid"@)
    } else {
        None
    }
}

pub fn status_class_value(token: &str) -> (r: Option<&'static str>)
    ensures
        match r {
            Some(c) => status_class(token@) == Some(c@),
            None => status_class(token@) is None,
        },
{
    let a = trimmed(token);
    let b = trimmed_class(a.as_str(), CharClass::Is('\''));
    let c = trimmed_class(b.as_str(), CharClass::Is('"'));
    let value = to_lower(c.as_str());
    if same(value.as_str(), "valid") {
        Some("valid")
    } else if same(value.as_str(), "invalid") {
        Some("invalid")
    } else {
        None
    }
}

/// The list of statuses that belong to a class.
pub open spec fn class_sql(class: Seq<char>) -> Seq<char> {
    if class == "valid"@ {
        "('compatible','passed','observed','candidate','valid','ready')"@
    } else if class == "invalid"@ {
        "('incompatible','failed','invalid','blocked')"@
    } else {
        "('')"@
    }
}

pub fn status_class_sql(status_class: &str) -> (r: &'static str)
    ensures
        r@ == class_sql(status_class@),
{
    if same(status_class, "valid") {
        "('compatible','passed','observed','candidate','valid','ready')"
    } else if same(status_class, "invalid") {
        "('incompatible','failed','invalid','blocked')"
    } else {
        "('')"
    }
}

/// The comparison of a status column at token `i` with a class: the index of its
/// sign, the index of its value, and the class.
pub open spec fn status_comparison(t: Seq<Seq<char>>, i: int) -> Option<(int, int, Seq<char>)> {
    if field_name(t[i]) == "status"@ {
        match comparison_at(t, i) {
            Some((op, value)) => match status_class(t[value]) {
                Some(class) => Some((op, value, class)),
                None => None,
            },
            None => None,
        }
    } else {
        None
    }
}

/// The membership test that stands for a comparison with a class.
pub open spec fn class_test(column: Seq<char>, sign: Seq<char>, class: Seq<char>) -> Seq<char> {
    column + " "@ + (if sign == "!="@ || sign == "<>"@ {
        "not in"@
    } else {
        "in"@
    }) + " "@ + class_sql(class)
}

/// The tokens from `i` on, with each comparison of a status with a class made a
/// membership test at the column's place and emptied after it.
pub open spec fn expand_classes(t: Seq<Seq<char>>, i: int) -> Seq<Seq<char>>
    decreases t.len() - i,
{
    if i < 0 || i >= t.len() {
        Seq::empty()
    } else {
        match status_comparison(t, i) {
            Some((op, value, class)) => if i < value {
                seq![class_test(t[i], t[op], class)] + Seq::new(
                    (value - i) as nat,
                    |k: int| Seq::<char>::empty(),
                ) + expand_classes(t, value + 1)
            } else {
                Seq::empty()
            },
            None => seq![t[i]] + expand_classes(t, i + 1),
        }
    }
}

pub fn normalize_status_class_filters(tokens: Vec<String>) -> (r: Vec<String>)
    ensures
        views(r@) == expand_classes(views(tokens@), 0),
{
    let ghost t = views(tokens@);
    let n = tokens.len();
    let mut out: Vec<String> = Vec::new();
    let mut i: usize = 0;
    while i < n
        invariant
            t == views(tokens@),
            n == tokens@.len(),
            i <= n,
            expand_classes(t, 0) == views(out@) + expand_classes(t, i as int),
        decreases n - i,
    {
        assert(t[i as int] == tokens@[i as int]@);
        let field = comparable_field_name(tokens[i].as_str());
        let found: Option<(usize, usize, &'static str)> = if same(field.as_str(), "status") {
            match find_comparison(tokens.as_slice(), i) {
                Some((op, value)) => {
                    assert(t[value as int] == tokens@[value as int]@);
                    match status_class_value(tokens[value].as_str()) {
                        Some(class) => Some((op, value, class)),
                        None => None,
                    }
                },
                None => None,
            }
        } else {
            None
        };
        let ghost before = views(out@);
        match found {
            Some((op, value, class)) => {
                assert(t[op as int] == tokens@[op as int]@);
                let negated = same(tokens[op].as_str(), "!=") || same(tokens[op].as_str(), "<>");
                let list = status_class_sql(class);
                let test = cat5(
                    tokens[i].as_str(),
                    " ",
                    if negated {
                        "not in"
                    } else {
                        "in"
                    },
                    " ",
                    list,
                );
                out.push(test);
                let ghost head = class_test(t[i as int], t[op as int], class@);
                assert(views(out@) =~= before.push(head));
                let mut j: usize = i;
                while j < value
                    invariant
                        i <= j <= value,
                        views(out@) == before.push(head) + Seq::new(
                            (j - i) as nat,
                            |k: int| Seq::<char>::empty(),
                        ),
                    decreases value - j,
                {
                    let ghost mid = views(out@);
                    out.push(String::new());
                    assert(views(out@) =~= mid.push(Seq::empty()));
                    assert(mid.push(Seq::empty()) =~= before.push(head) + Seq::new(
                        (j + 1 - i) as nat,
                        |k: int| Seq::<char>::empty(),
                    ));
                    j += 1;
                }
                assert(before + (seq![head] + Seq::new(
                    (value - i) as nat,
                    |k: int| Seq::<char>::empty(),
                ) + expand_classes(t, value + 1)) =~= views(out@) + expand_classes(t, value + 1));
                i = value + 1;
            },
            None => {
                out.push(tokens[i].clone());
                assert(views(out@) =~= before.push(t[i as int]));
                assert(before + (seq![t[i as int]] + expand_classes(t, i + 1)) =~= views(out@)
                    + expand_classes(t, i + 1));
                i += 1;
            },
        }
    }
    assert(views(out@) + Seq::<Seq<char>>::empty() =~= views(out@));
    out
}

/// SQL with its short forms written out: `==` is `=`, bare values of comparisons are
/// literals, and comparisons of a status with a class are membership tests.
pub open spec fn normal_sql(s: Seq<char>) -> Seq<char> {
    concat(expand_classes(quote_values(sql_tokens(replace(s, "=="@, "="@)), 0), 0))
}

pub fn normalize_matrix_sql(sql: &str) -> (r: String)
    ensures
        r@ == normal_sql(sql@),
{
    proof {
        reveal_strlit("==");
    }
    let single = replaced(sql, "==", "=");
    let tokens = tokenize_sql(single.as_str());
    let values = quote_bare_values(&tokens);
    let tests = normalize_status_class_filters(values);
    concatenated(tests.as_slice())
}

proof fn lemma_nothing_quoted(t: Seq<Seq<char>>, i: int)
    requires
        0 <= i <= t.len(),
        forall|j: int| i <= j < t.len() ==> (#[trigger] bare_comparison(t, j)) is None,
    ensures
        quote_values(t, i) == t.skip(i),
    decreases t.len() - i,
{
    if i < t.len() {
        assert(bare_comparison(t, i) is None);
        lemma_nothing_quoted(t, i + 1);
        assert(seq![t[i]] + t.skip(i + 1) =~= t.skip(i));
    } else {
        assert(t.skip(i) =~= Seq::empty());
    }
}

proof fn lemma_nothing_expanded(t: Seq<Seq<char>>, i: int)
    requires
        0 <= i <= t.len(),
        forall|j: int| i <= j < t.len() ==> (#[trigger] status_comparison(t, j)) is None,
    ensures
        expand_classes(t, i) == t.skip(i),
    decreases t.len() - i,
{
    if i < t.len() {
        assert(status_comparison(t, i) is None);
        lemma_nothing_expanded(t, i + 1);
        assert(seq![t[i]] + t.skip(i + 1) =~= t.skip(i));
    } else {
        assert(t.skip(i) =~= Seq::empty());
    }
}

/// Plain SQL is run as it was written: without a double equals sign, a bare value to
/// quote and a class of statuses, nothing is changed.
pub proof fn law_plain_sql_is_kept(s: Seq<char>)
    requires
        !contains(s, "=="@),
        forall|i: int|
            0 <= i < sql_tokens(s).len() ==> (#[trigger] bare_comparison(sql_tokens(s), i)) is None,
        forall|i: int|
            0 <= i < sql_tokens(s).len() ==> (#[trigger] status_comparison(sql_tokens(s), i)) is None,
    ensures
        normal_sql(s) == s,
{
    lemma_find_from(s, "=="@, 0);
    lemma_replace_nothing(s, "=="@, "="@, 0);
    assert(s.skip(0) =~= s);
    let t = sql_tokens(s);
    lemma_nothing_quoted(t, 0);
    lemma_nothing_expanded(t, 0);
    assert(t.skip(0) =~= t);
    law_tokens_cover_text(s);
}

} // verus!
