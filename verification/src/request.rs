//! Query strings, pages and repository names of requests.
use vstd::prelude::*;
use vstd::utf8::encode_utf8;
use crate::json::{items_view, Json, JsonV};
use crate::text::{
    cat2, cat3, char_count, contains, decimal, digits_of_usize, find, find_text, has_char, join,
    joined, opt_view, skip_chars, trim, trim_suffixes, trimmed, trimmed_suffixes, views,
};

verus! {

/// The characters that stand for themselves in a URL: letters, digits, `-`, `.`, `_`
/// and `~`.
pub open spec fn unreserved(b: u8) -> bool {
    (48 <= b <= 57) || (65 <= b <= 90) || (97 <= b <= 122) || b == 45 || b == 46 || b == 95 || b
        == 126
}

pub open spec fn upper_hex(d: int) -> char {
    if d < 10 {
        (48 + d) as u8 as char
    } else {
        (55 + d) as u8 as char
    }
}

/// Bytes percent-encoded: each but those of unreserved characters as a percent sign
/// and two upper-case hexadecimal digits.
pub open spec fn percent_encoded(b: Seq<u8>) -> Seq<char>
    decreases b.len(),
{
    if b.len() == 0 {
        Seq::empty()
    } else if unreserved(b.last()) {
        percent_encoded(b.drop_last()).push(b.last() as char)
    } else {
        percent_encoded(b.drop_last()) + seq![
            '%',
            upper_hex(b.last() as int / 16),
            upper_hex(b.last() as int % 16),
        ]
    }
}

/// A text percent-encoded.
pub open spec fn url_encoded(s: Seq<char>) -> Seq<char> {
    percent_encoded(encode_utf8(s))
}

/// `urlencoding::encode`: percent-encodes every byte of the text's UTF-8 but those of
/// letters, digits, `-`, `_`, `.` and `~`.
#[verifier::external_body]
pub(crate) fn enc(value: &str) -> (r: String)
    ensures
        r@ == url_encoded(value@),
{
    urlencoding::encode(value).into_owned()
}

/// A parameter of a request.
#[derive(Debug)]
pub struct QueryPair {
    pub key: String,
    pub value: String,
}

pub struct PairV {
    pub key: Seq<char>,
    pub value: Seq<char>,
}

impl View for QueryPair {
    type V = PairV;

    open spec fn view(&self) -> PairV {
        PairV { key: self.key@, value: self.value@ }
    }
}

pub open spec fn pair_views(v: Seq<QueryPair>) -> Seq<PairV> {
    v.map_values(|p: QueryPair| p@)
}

pub open spec fn pair(key: Seq<char>, value: Seq<char>) -> PairV {
    PairV { key, value }
}

pub open spec fn pair_text(p: PairV) -> Seq<char> {
    url_encoded(p.key) + "="@ + url_encoded(p.value)
}

/// The parameters as a query string.
pub open spec fn query_text(pairs: Seq<PairV>) -> Seq<char> {
    join(pairs.map_values(|p: PairV| pair_text(p)), "&"@)
}

pub fn query_string(values: &Vec<QueryPair>) -> (r: String)
    ensures
        r@ == query_text(pair_views(values@)),
{
    let ghost all = pair_views(values@).map_values(|p: PairV| pair_text(p));
    let mut parts: Vec<String> = Vec::new();
    let mut i: usize = 0;
    while i < values.len()
        invariant
            all == pair_views(values@).map_values(|p: PairV| pair_text(p)),
            i <= values@.len(),
            views(parts@) == all.take(i as int),
        decreases values@.len() - i,
    {
        let ghost before = views(parts@);
        let k = enc(values[i].key.as_str());
        let v = enc(values[i].value.as_str());
        let part = cat3(k.as_str(), "=", v.as_str());
        let ghost next = part@;
        parts.push(part);
        assert(views(parts@) =~= before.push(next));
        assert(all[i as int] == next);
        assert(all.take(i as int + 1) =~= before.push(next));
        i += 1;
    }
    assert(all.take(i as int) =~= all);
    joined(parts.as_slice(), "&")
}

/// The query string behind its question mark, or nothing without parameters.
pub open spec fn suffix_text(pairs: Seq<PairV>) -> Seq<char> {
    if pairs.len() == 0 {
        ""@
    } else {
        "?"@ + query_text(pairs)
    }
}

pub fn query_suffix(values: &Vec<QueryPair>) -> (r: String)
    ensures
        r@ == suffix_text(pair_views(values@)),
{
    if values.len() == 0 {
        "".to_owned()
    } else {
        cat2("?", query_string(values).as_str())
    }
}

/// The parameters with one more, unless it is blank.
pub open spec fn with_pair(pairs: Seq<PairV>, key: Seq<char>, value: Option<Seq<char>>) -> Seq<
    PairV,
> {
    match value {
        Some(v) => if trim(v).len() > 0 {
            pairs.push(pair(key, v))
        } else {
            pairs
        },
        None => pairs,
    }
}

pub fn push_query(query: &mut Vec<QueryPair>, key: &str, value: Option<String>)
    ensures
        pair_views(final(query)@) == with_pair(
            pair_views(old(query)@),
            key@,
            opt_view(value),
        ),
{
    match value {
        Some(v) => {
            if !trimmed(v.as_str()).as_str().is_empty() {
                let ghost before = pair_views(query@);
                let ghost next = pair(key@, v@);
                query.push(QueryPair { key: key.to_owned(), value: v });
                assert(pair_views(query@) =~= before.push(next));
            }
        },
        None => {},
    }
}

/// Which page of a list is asked for.
#[derive(Debug)]
pub struct PageArgs {
    pub limit: Option<usize>,
    pub cursor: Option<String>,
}

/// The parameters with those of a page.
pub open spec fn with_page(pairs: Seq<PairV>, limit: Option<usize>, cursor: Option<Seq<char>>) -> Seq<
    PairV,
> {
    with_pair(
        match limit {
            Some(n) => pairs.push(pair("limit"@, decimal(n as nat))),
            None => pairs,
        },
        "cursor"@,
        cursor,
    )
}

pub fn push_page_query(query: &mut Vec<QueryPair>, page: PageArgs)
    ensures
        pair_views(final(query)@) == with_page(
            pair_views(old(query)@),
            page.limit,
            opt_view(page.cursor),
        ),
{
    match page.limit {
        Some(n) => {
            let ghost before = pair_views(query@);
            let text = digits_of_usize(n);
            let ghost next = pair("limit"@, text@);
            query.push(QueryPair { key: "limit".to_owned(), value: text });
            assert(pair_views(query@) =~= before.push(next));
        },
        None => {},
    }
    push_query(query, "cursor", page.cursor);
}

/// The values of a page: under its own key, or else under `items`.
pub open spec fn page_items(body: JsonV, key: Seq<char>) -> Seq<JsonV> {
    if body.get(key) is Some {
        body.items_at(key)
    } else {
        body.items_at("items"@)
    }
}

pub fn page_values(body: &Json, primary_key: &str) -> (r: Vec<Json>)
    ensures
        items_view(r@) == page_items(body@, primary_key@),
{
    if body.get(primary_key).is_some() {
        body.items_at(primary_key)
    } else {
        body.items_at("items")
    }
}

/// The repository that a remote's address names: what follows the GitHub host,
/// without `.git`, where a slash is left in it.
pub open spec fn repo_of_url(url: Seq<char>) -> Option<Seq<char>> {
    let text = trim_suffixes(trim(url), ".git"@);
    let rest = match find(text, "github.com:"@) {
        Some(i) => text.skip(i + "github.com:"@.len()),
        None => match find(text, "github.com/"@) {
            Some(i) => text.skip(i + "github.com/"@.len()),
            None => text,
        },
    };
    if rest.contains('/') {
        Some(rest)
    } else {
        None
    }
}

pub fn normalize_repo_url(value: &str) -> (r: Option<String>)
    ensures
        opt_view(r) == repo_of_url(value@),
{
    let text = trimmed_suffixes(trimmed(value).as_str(), ".git");
    let rest = match find_text(text.as_str(), "github.com:") {
        Some(i) => {
            let n = char_count("github.com:");
            let m = char_count(text.as_str());
            assert(i + n <= m);
            skip_chars(text.as_str(), i + n)
        },
        None => match find_text(text.as_str(), "github.com/") {
            Some(i) => {
                let n = char_count("github.com/");
                let m = char_count(text.as_str());
                assert(i + n <= m);
                skip_chars(text.as_str(), i + n)
            },
            None => text,
        },
    };
    if has_char(rest.as_str(), '/') {
        Some(rest)
    } else {
        None
    }
}

pub open spec fn trimmed_opt(o: Option<Seq<char>>) -> Option<Seq<char>> {
    match o {
        Some(s) => Some(trim(s)),
        None => None,
    }
}

fn trim_output(o: &Option<String>) -> (r: Option<String>)
    ensures
        opt_view(r) == trimmed_opt(opt_view(*o)),
{
    match o {
        Some(s) => Some(trimmed(s.as_str())),
        None => None,
    }
}

/// The repository of the working directory, from what `git remote get-url origin`
/// printed.
pub fn current_repo(remote: &Option<String>) -> (r: Option<String>)
    ensures
        opt_view(r) == (match opt_view(*remote) {
            Some(s) => repo_of_url(trim(s)),
            None => None,
        }),
{
    match remote {
        Some(s) => normalize_repo_url(trimmed(s.as_str()).as_str()),
        None => None,
    }
}

/// The commit of the working directory, from what `git rev-parse HEAD` printed.
pub fn current_sha(output: &Option<String>) -> (r: Option<String>)
    ensures
        opt_view(r) == trimmed_opt(opt_view(*output)),
{
    trim_output(output)
}

/// The tag of the working directory, from what `git describe` printed.
pub fn current_exact_tag(output: &Option<String>) -> (r: Option<String>)
    ensures
        opt_view(r) == trimmed_opt(opt_view(*output)),
{
    trim_output(output)
}

/// The branch of the working directory, from what `git rev-parse` printed.
pub fn current_branch(output: &Option<String>) -> (r: Option<String>)
    ensures
        opt_view(r) == trimmed_opt(opt_view(*output)),
{
    trim_output(output)
}

} // verus!
