//! Statements that only read: the words of SQL outside quotes and comments, and those
//! that change rows.
use vstd::prelude::*;
use crate::text::{
    chars_of, find_chars, find_class, find_from, has_prefix, index_of, index_past, lemma_find_from,
    lemma_index_of, lemma_index_past, lower, same, skip_class, starts_with, string_of, to_lower,
    trim, trimmed, views, CharClass,
};

verus! {

// ---------------------------------------------------------------------------
// Words
// ---------------------------------------------------------------------------
/// The index behind the first `close` at or after `from`, or the end of the text.
pub open spec fn behind(s: Seq<char>, close: char, from: int) -> int {
    let i = index_of(s, CharClass::Is(close), from);
    if i < s.len() {
        i + 1
    } else {
        s.len() as int
    }
}

/// Where a text in quotes, a name in quotes, a comment or a parameter that starts at `i`
/// ends; the next character where none starts there.
pub open spec fn mark_end(s: Seq<char>, i: int) -> int {
    let c = s[i];
    if c == '\'' || c == '"' || c == '`' {
        behind(s, c, i + 1)
    } else if c == '[' {
        behind(s, ']', i + 1)
    } else if c == '-' && i + 1 < s.len() && s[i + 1] == '-' {
        behind(s, '\n', i + 2)
    } else if c == '/' && i + 1 < s.len() && s[i + 1] == '*' {
        match find_from(s, "*/"@, i + 2) {
            Some(k) => k + 2,
            None => s.len() as int,
        }
    } else if c == ':' || c == '@' || c == '#' {
        index_past(s, CharClass::SqliteName, i + 1)
    } else {
        i + 1
    }
}

/// Whether a word starts with a character: it continues a name, and is no byte order
/// mark, which SQLite takes for white space between words.
pub open spec fn starts_word(c: char) -> bool {
    CharClass::SqliteName.holds(c) && c != '\u{feff}'
}

/// The words of SQL from `i` on, in lower case and without what stands in quotes and
/// comments.
pub open spec fn words_from(s: Seq<char>, i: int) -> Seq<Seq<char>>
    decreases s.len() - i,
{
    if i < 0 || i >= s.len() {
        Seq::empty()
    } else if starts_word(s[i]) {
        let end = index_past(s, CharClass::SqliteName, i);
        if i < end <= s.len() {
            seq![lower(s.subrange(i, end))] + words_from(s, end)
        } else {
            Seq::empty()
        }
    } else if i < mark_end(s, i) <= s.len() {
        words_from(s, mark_end(s, i))
    } else {
        Seq::empty()
    }
}

/// The words of SQL, in lower case and without what stands in quotes and comments.
pub open spec fn sql_words(s: Seq<char>) -> Seq<Seq<char>> {
    words_from(s, 0)
}

proof fn lemma_mark_end(s: Seq<char>, i: int)
    requires
        0 <= i < s.len(),
    ensures
        i < mark_end(s, i) <= s.len(),
{
    lemma_index_of(s, CharClass::Is(s[i]), i + 1);
    lemma_index_of(s, CharClass::Is(']'), i + 1);
    lemma_index_past(s, CharClass::SqliteName, i + 1);
    if i + 1 < s.len() {
        lemma_index_of(s, CharClass::Is('\n'), i + 2);
        lemma_find_from(s, "*/"@, i + 2);
        reveal_strlit("*/");
    }
}

fn end_behind(v: &[char], close: char, from: usize) -> (r: usize)
    requires
        from <= v@.len(),
    ensures
        r == behind(v@, close, from as int),
{
    let i = find_class(v, CharClass::Is(close), from);
    if i < v.len() {
        i + 1
    } else {
        v.len()
    }
}

fn end_of_mark(v: &[char], i: usize) -> (r: usize)
    requires
        i < v@.len(),
    ensures
        r == mark_end(v@, i as int),
        i < r <= v@.len(),
{
    proof {
        lemma_mark_end(v@, i as int);
    }
    let c = v[i];
    if c == '\'' || c == '"' || c == '`' {
        end_behind(v, c, i + 1)
    } else if c == '[' {
        end_behind(v, ']', i + 1)
    } else if c == '-' && i + 1 < v.len() && v[i + 1] == '-' {
        end_behind(v, '\n', i + 2)
    } else if c == '/' && i + 1 < v.len() && v[i + 1] == '*' {
        let close = chars_of("*/");
        proof {
            reveal_strlit("*/");
        }
        match find_chars(v, close.as_slice(), i + 2) {
            Some(k) => k + 2,
            None => v.len(),
        }
    } else if c == ':' || c == '@' || c == '#' {
        skip_class(v, CharClass::SqliteName, i + 1)
    } else {
        i + 1
    }
}

pub fn words_of_sql(sql: &str) -> (r: Vec<String>)
    ensures
        views(r@) == sql_words(sql@),
{
    let v = chars_of(sql);
    let n = v.len();
    let mut out: Vec<String> = Vec::new();
    let mut i: usize = 0;
    while i < n
        invariant
            v@ == sql@,
            n == v@.len(),
            i <= n,
            sql_words(sql@) == views(out@) + words_from(sql@, i as int),
        decreases n - i,
    {
        if CharClass::SqliteName.has(v[i]) && v[i] != '\u{feff}' {
            proof {
                lemma_index_past(sql@, CharClass::SqliteName, i as int);
                lemma_index_past(sql@, CharClass::SqliteName, i as int + 1);
            }
            let end = skip_class(v.as_slice(), CharClass::SqliteName, i);
            let ghost before = views(out@);
            let word = to_lower(string_of(v.as_slice(), i, end).as_str());
            let ghost next = lower(sql@.subrange(i as int, end as int));
            out.push(word);
            assert(views(out@) =~= before.push(next));
            assert(before + (seq![next] + words_from(sql@, end as int)) =~= views(out@)
                + words_from(sql@, end as int));
            i = end;
        } else {
            i = end_of_mark(v.as_slice(), i);
        }
    }
    assert(views(out@) + Seq::<Seq<char>>::empty() =~= views(out@));
    out
}

// ---------------------------------------------------------------------------
// Changes
// ---------------------------------------------------------------------------
/// Whether the word at `i` makes a statement change rows: it inserts, updates or deletes,
/// or replaces into a table. The function `replace` does not.
pub open spec fn changes_at(words: Seq<Seq<char>>, i: int) -> bool {
    words[i] == "insert"@ || words[i] == "update"@ || words[i] == "delete"@ || (words[i]
        == "replace"@ && i + 1 < words.len() && words[i + 1] == "into"@)
}

/// Whether a statement has a word that makes it change rows.
pub open spec fn changes_rows(sql: Seq<char>) -> bool {
    exists|i: int| 0 <= i < sql_words(sql).len() && #[trigger] changes_at(sql_words(sql), i)
}

pub fn has_changes(sql: &str) -> (r: bool)
    ensures
        r == changes_rows(sql@),
{
    let words = words_of_sql(sql);
    let ghost all = sql_words(sql@);
    let n = words.len();
    let mut i: usize = 0;
    while i < n
        invariant
            all == sql_words(sql@),
            all == views(words@),
            n == words@.len(),
            i <= n,
            forall|k: int| 0 <= k < i ==> !(#[trigger] changes_at(all, k)),
        decreases n - i,
    {
        assert(all[i as int] == words@[i as int]@);
        assert(i + 1 < n ==> all[i + 1] == words@[i + 1]@);
        let w = words[i].as_str();
        if same(w, "insert") || same(w, "update") || same(w, "delete") || (same(w, "replace") && i
            + 1 < n && same(words[i + 1].as_str(), "into")) {
            assert(changes_at(all, i as int));
            return true;
        }
        i += 1;
    }
    false
}

/// Whether a statement selects: it starts with `select`, or with `with` and changes no
/// rows.
pub open spec fn selects(sql: Seq<char>) -> bool {
    let s = lower(trim(sql));
    starts_with(s, "select "@) || (starts_with(s, "with "@) && !changes_rows(sql))
}

pub fn is_selection(sql: &str) -> (r: bool)
    ensures
        r == selects(sql@),
{
    let s = to_lower(trimmed(sql).as_str());
    has_prefix(s.as_str(), "select ") || (has_prefix(s.as_str(), "with ") && !has_changes(sql))
}

/// Whether a statement only reads: it selects, or asks how another would be run.
pub open spec fn reads_only(sql: Seq<char>) -> bool {
    selects(sql) || starts_with(lower(trim(sql)), "explain query plan "@)
}

pub fn is_read_only(sql: &str) -> (r: bool)
    ensures
        r == reads_only(sql@),
{
    is_selection(sql) || has_prefix(
        to_lower(trimmed(sql).as_str()).as_str(),
        "explain query plan ",
    )
}

} // verus!
