//! The arguments of the shell's commands, and the names of saved queries.
use vstd::prelude::*;
use crate::graph_query::{parse_graph_query, short_request};
use crate::graphql::{is_native_graphql_query, native_query};
use crate::json::{items_view, Json, JsonV};
use crate::order::{lemma_insert_at, sorted_by};
use crate::queries::{default_options, query_text, source_text, ComponentQueryOptions, OptionsV};
use crate::text::{
    cat2, cat3, chars_of, debug_of, debug_text, has_char, has_prefix, is_alnum, alnum, join,
    join_path, joined, last_index_of, less, opt_view, path_in, parse_unsigned, same, starts_with,
    text_less, to_usize, trim, trim_prefixes, trimmed, trimmed_prefixes, views, CharClass,
};

verus! {

// ---------------------------------------------------------------------------
// Filters of components
// ---------------------------------------------------------------------------
pub struct ParsedOptionsV {
    pub options: OptionsV,
    pub rest: Seq<Seq<char>>,
}

/// The filters and the other words among arguments from an index on, added to those
/// before.
pub open spec fn options_from(args: Seq<Seq<char>>, i: int, parsed: ParsedOptionsV) -> Result<
    ParsedOptionsV,
    Seq<char>,
>
    decreases args.len() - i,
{
    if i < 0 || i >= args.len() {
        Ok(parsed)
    } else {
        let a = args[i];
        let o = parsed.options;
        if a == "--all"@ {
            options_from(
                args,
                i + 1,
                ParsedOptionsV { options: OptionsV { all: true, ..o }, ..parsed },
            )
        } else if a == "--include-applications"@ || a == "--applications"@ {
            options_from(
                args,
                i + 1,
                ParsedOptionsV { options: OptionsV { include_applications: true, ..o }, ..parsed },
            )
        } else if a == "--include-dependencies"@ || a == "--dependencies"@ {
            options_from(
                args,
                i + 1,
                ParsedOptionsV { options: OptionsV { include_dependencies: true, ..o }, ..parsed },
            )
        } else if a == "--type"@ || a == "-t"@ {
            if i + 1 < args.len() {
                options_from(
                    args,
                    i + 2,
                    ParsedOptionsV {
                        options: OptionsV { type_filter: Some(args[i + 1]), ..o },
                        ..parsed
                    },
                )
            } else {
                Err("--type requires a value"@)
            }
        } else if starts_with(a, "--type="@) {
            options_from(
                args,
                i + 1,
                ParsedOptionsV {
                    options: OptionsV { type_filter: Some(trim_prefixes(a, "--type="@)), ..o },
                    ..parsed
                },
            )
        } else {
            options_from(args, i + 1, ParsedOptionsV { rest: parsed.rest.push(a), ..parsed })
        }
    }
}

pub open spec fn parsed_options(args: Seq<Seq<char>>) -> Result<ParsedOptionsV, Seq<char>> {
    options_from(
        args,
        0,
        ParsedOptionsV { options: default_options(), rest: Seq::empty() },
    )
}

pub fn parse_component_query_options(args: &Vec<String>) -> (r: Result<
    (ComponentQueryOptions, Vec<String>),
    String,
>)
    ensures
        match parsed_options(views(args@)) {
            Ok(p) => r matches Ok(x) && x.0@ == p.options && views(x.1@) == p.rest,
            Err(m) => r matches Err(e) && e@ == m,
        },
{
    let ghost av = views(args@);
    let mut options = ComponentQueryOptions::default();
    let mut rest: Vec<String> = Vec::new();
    let mut index: usize = 0;
    assert(views(rest@) =~= Seq::empty());
    while index < args.len()
        invariant
            index <= args@.len(),
            av == views(args@),
            parsed_options(av) == options_from(
                av,
                index as int,
                ParsedOptionsV { options: options@, rest: views(rest@) },
            ),
        decreases args@.len() - index,
    {
        assert(av[index as int] == args@[index as int]@);
        let a = args[index].as_str();
        if same(a, "--all") {
            options.all = true;
        } else if same(a, "--include-applications") || same(a, "--applications") {
            options.include_applications = true;
        } else if same(a, "--include-dependencies") || same(a, "--dependencies") {
            options.include_dependencies = true;
        } else if same(a, "--type") || same(a, "-t") {
            index += 1;
            if index >= args.len() {
                return Err("--type requires a value".to_owned());
            }
            assert(av[index as int] == args@[index as int]@);
            options.type_filter = Some(args[index].clone());
        } else if has_prefix(a, "--type=") {
            options.type_filter = Some(trimmed_prefixes(a, "--type="));
        } else {
            let ghost before = views(rest@);
            rest.push(args[index].clone());
            assert(views(rest@) =~= before.push(av[index as int]));
        }
        index += 1;
    }
    Ok((options, rest))
}

// ---------------------------------------------------------------------------
// Comparing
// ---------------------------------------------------------------------------
pub struct CompareV {
    pub target: Seq<Seq<char>>,
    pub version: Option<Seq<char>>,
}

/// The words of the target and its version among arguments from an index on, added to
/// those before.
pub open spec fn compare_from(args: Seq<Seq<char>>, i: int, parsed: CompareV) -> Result<
    CompareV,
    Seq<char>,
>
    decreases args.len() - i,
{
    if i < 0 || i >= args.len() {
        Ok(parsed)
    } else {
        let a = args[i];
        if a == "--target-version"@ {
            if i + 1 < args.len() {
                compare_from(args, i + 2, CompareV { version: Some(args[i + 1]), ..parsed })
            } else {
                Err("--target-version requires a value"@)
            }
        } else if starts_with(a, "--target-version="@) {
            compare_from(
                args,
                i + 1,
                CompareV { version: Some(trim_prefixes(a, "--target-version="@)), ..parsed },
            )
        } else {
            compare_from(args, i + 1, CompareV { target: parsed.target.push(a), ..parsed })
        }
    }
}

pub open spec fn compare_usage() -> Seq<char> {
    "usage: .compare <component|repo|subject> [--target-version <version>]"@
}

/// What is compared with: the target, and its version where one is given.
pub open spec fn compare_args(args: Seq<Seq<char>>) -> Result<
    (Seq<char>, Option<Seq<char>>),
    Seq<char>,
> {
    match compare_from(args, 0, CompareV { target: Seq::empty(), version: None }) {
        Err(m) => Err(m),
        Ok(p) => if p.target.len() == 0 {
            Err(compare_usage())
        } else {
            Ok((join(p.target, " "@), p.version))
        },
    }
}

pub fn parse_compare_repl_args(args: &Vec<String>) -> (r: Result<(String, Option<String>), String>)
    ensures
        match compare_args(views(args@)) {
            Ok((target, version)) => r matches Ok(x) && x.0@ == target && opt_view(x.1) == version,
            Err(m) => r matches Err(e) && e@ == m,
        },
{
    let ghost av = views(args@);
    let ghost whole = compare_from(av, 0, CompareV { target: Seq::empty(), version: None });
    let mut target: Vec<String> = Vec::new();
    let mut version: Option<String> = None;
    let mut index: usize = 0;
    assert(views(target@) =~= Seq::empty());
    while index < args.len()
        invariant
            index <= args@.len(),
            av == views(args@),
            whole == compare_from(av, 0, CompareV { target: Seq::empty(), version: None }),
            whole == compare_from(
                av,
                index as int,
                CompareV { target: views(target@), version: opt_view(version) },
            ),
        decreases args@.len() - index,
    {
        assert(av[index as int] == args@[index as int]@);
        let a = args[index].as_str();
        if same(a, "--target-version") {
            index += 1;
            if index >= args.len() {
                return Err("--target-version requires a value".to_owned());
            }
            assert(av[index as int] == args@[index as int]@);
            version = Some(args[index].clone());
        } else if has_prefix(a, "--target-version=") {
            version = Some(trimmed_prefixes(a, "--target-version="));
        } else {
            let ghost before = views(target@);
            target.push(args[index].clone());
            assert(views(target@) =~= before.push(av[index as int]));
        }
        index += 1;
    }
    assert(views(target@).len() == target@.len());
    if target.len() == 0 {
        return Err(
            "usage: .compare <component|repo|subject> [--target-version <version>]".to_owned(),
        );
    }
    Ok((joined(target.as_slice(), " "), version))
}

// ---------------------------------------------------------------------------
// Graph queries
// ---------------------------------------------------------------------------
/// What graph query is asked for.
#[derive(Debug)]
pub struct ReplGraphArgs {
    pub query: Option<String>,
    pub file: Option<String>,
    pub vars: Vec<String>,
    pub schema: bool,
    pub limit: usize,
}

pub struct GraphArgsV {
    pub query: Option<Seq<char>>,
    pub file: Option<Seq<char>>,
    pub vars: Seq<Seq<char>>,
    pub schema: bool,
    pub limit: nat,
}

impl View for ReplGraphArgs {
    type V = GraphArgsV;

    open spec fn view(&self) -> GraphArgsV {
        GraphArgsV {
            query: opt_view(self.query),
            file: opt_view(self.file),
            vars: views(self.vars@),
            schema: self.schema,
            limit: self.limit as nat,
        }
    }
}

/// The limit that a text writes, one at least.
pub open spec fn limit_of(text: Seq<char>) -> Result<nat, Seq<char>> {
    match parse_unsigned(text, usize::MAX as int) {
        Some(n) => Ok(
            if n < 1 {
                1
            } else {
                n
            },
        ),
        None => Err("invalid graph limit "@ + debug_text(text)),
    }
}

fn parse_limit(text: &str) -> (r: Result<usize, String>)
    ensures
        match limit_of(text@) {
            Ok(n) => r matches Ok(x) && x == n,
            Err(m) => r matches Err(e) && e@ == m,
        },
{
    match to_usize(text) {
        Some(n) => if n < 1 {
            Ok(1)
        } else {
            Ok(n)
        },
        None => Err(cat2("invalid graph limit ", debug_of(text).as_str())),
    }
}

/// What arguments from an index on ask for, added to those before: the query starts at
/// the first word that is no option and takes all that follows.
pub open spec fn graph_from(args: Seq<Seq<char>>, i: int, parsed: GraphArgsV) -> Result<
    GraphArgsV,
    Seq<char>,
>
    decreases args.len() - i,
{
    if i < 0 || i >= args.len() {
        Ok(parsed)
    } else {
        let a = args[i];
        if a == "--schema"@ {
            graph_from(args, i + 1, GraphArgsV { schema: true, ..parsed })
        } else if a == "-f"@ || a == "--file"@ {
            if i + 1 < args.len() {
                graph_from(args, i + 2, GraphArgsV { file: Some(args[i + 1]), ..parsed })
            } else {
                Err(a + " requires a file path"@)
            }
        } else if a == "--var"@ {
            if i + 1 < args.len() {
                graph_from(
                    args,
                    i + 2,
                    GraphArgsV { vars: parsed.vars.push(args[i + 1]), ..parsed },
                )
            } else {
                Err("--var requires NAME=VALUE"@)
            }
        } else if a == "--limit"@ {
            if i + 1 < args.len() {
                match limit_of(args[i + 1]) {
                    Ok(n) => graph_from(args, i + 2, GraphArgsV { limit: n, ..parsed }),
                    Err(m) => Err(m),
                }
            } else {
                Err("--limit requires a number"@)
            }
        } else if starts_with(a, "--var="@) {
            graph_from(
                args,
                i + 1,
                GraphArgsV { vars: parsed.vars.push(trim_prefixes(a, "--var="@)), ..parsed },
            )
        } else if starts_with(a, "--limit="@) {
            match limit_of(trim_prefixes(a, "--limit="@)) {
                Ok(n) => graph_from(args, i + 1, GraphArgsV { limit: n, ..parsed }),
                Err(m) => Err(m),
            }
        } else {
            Ok(GraphArgsV { query: Some(join(args.skip(i), " "@)), ..parsed })
        }
    }
}

pub open spec fn no_graph_args() -> GraphArgsV {
    GraphArgsV { query: None, file: None, vars: Seq::empty(), schema: false, limit: 10 }
}

pub open spec fn graph_args(args: Seq<Seq<char>>) -> Result<GraphArgsV, Seq<char>> {
    match graph_from(args, 0, no_graph_args()) {
        Err(m) => Err(m),
        Ok(p) => if p.query is Some && p.file is Some {
            Err("provide a graph query inline or with --file, not both"@)
        } else {
            Ok(p)
        },
    }
}

pub fn parse_repl_graph_args(args: &Vec<String>) -> (r: Result<ReplGraphArgs, String>)
    ensures
        match graph_args(views(args@)) {
            Ok(p) => r matches Ok(x) && x@ == p,
            Err(m) => r matches Err(e) && e@ == m,
        },
{
    let ghost av = views(args@);
    let ghost whole = graph_from(av, 0, no_graph_args());
    let vars: Vec<String> = Vec::new();
    assert(views(vars@) =~= Seq::empty());
    let mut parsed = ReplGraphArgs { query: None, file: None, vars, schema: false, limit: 10 };
    let mut index: usize = 0;
    while index < args.len() && parsed.query.is_none()
        invariant
            index <= args@.len(),
            av == views(args@),
            whole == graph_from(av, 0, no_graph_args()),
            parsed.query is None ==> whole == graph_from(av, index as int, parsed@),
            parsed.query is Some ==> whole == Ok::<GraphArgsV, Seq<char>>(parsed@),
        decreases args@.len() - index,
    {
        assert(av[index as int] == args@[index as int]@);
        let a = args[index].as_str();
        if same(a, "--schema") {
            parsed.schema = true;
        } else if same(a, "-f") || same(a, "--file") {
            index += 1;
            if index >= args.len() {
                return Err(cat2(a, " requires a file path"));
            }
            assert(av[index as int] == args@[index as int]@);
            parsed.file = Some(args[index].clone());
        } else if same(a, "--var") {
            index += 1;
            if index >= args.len() {
                return Err("--var requires NAME=VALUE".to_owned());
            }
            assert(av[index as int] == args@[index as int]@);
            let ghost before = views(parsed.vars@);
            parsed.vars.push(args[index].clone());
            assert(views(parsed.vars@) =~= before.push(av[index as int]));
        } else if same(a, "--limit") {
            index += 1;
            if index >= args.len() {
                return Err("--limit requires a number".to_owned());
            }
            assert(av[index as int] == args@[index as int]@);
            match parse_limit(args[index].as_str()) {
                Ok(n) => {
                    parsed.limit = n;
                },
                Err(m) => {
                    return Err(m);
                },
            }
        } else if has_prefix(a, "--var=") {
            let ghost before = views(parsed.vars@);
            parsed.vars.push(trimmed_prefixes(a, "--var="));
            assert(views(parsed.vars@) =~= before.push(
                trim_prefixes(av[index as int], "--var="@),
            ));
        } else if has_prefix(a, "--limit=") {
            match parse_limit(trimmed_prefixes(a, "--limit=").as_str()) {
                Ok(n) => {
                    parsed.limit = n;
                },
                Err(m) => {
                    return Err(m);
                },
            }
        } else {
            let words = rest_of(args, index);
            parsed.query = Some(joined(words.as_slice(), " "));
        }
        index += 1;
    }
    if parsed.query.is_some() && parsed.file.is_some() {
        return Err("provide a graph query inline or with --file, not both".to_owned());
    }
    Ok(parsed)
}

/// The arguments from an index on.
pub fn rest_of(args: &Vec<String>, from: usize) -> (r: Vec<String>)
    requires
        from <= args@.len(),
    ensures
        views(r@) == views(args@).skip(from as int),
{
    let ghost all = views(args@).skip(from as int);
    let mut out: Vec<String> = Vec::new();
    let mut i: usize = from;
    assert(views(out@) =~= all.take(0));
    while i < args.len()
        invariant
            from <= i <= args@.len(),
            all == views(args@).skip(from as int),
            views(out@) == all.take(i - from),
        decreases args@.len() - i,
    {
        let ghost before = views(out@);
        out.push(args[i].clone());
        assert(views(out@) =~= before.push(args@[i as int]@));
        assert(all[i - from] == args@[i as int]@);
        assert(all.take(i - from + 1) =~= before.push(all[i - from]));
        i += 1;
    }
    assert(all.take(i - from) =~= all);
    out
}

/// The text of a graph query; `file_text` holds what was read of its file.
pub fn repl_graph_query_text(args: &ReplGraphArgs, file_text: &Option<String>) -> (r: Result<
    String,
    String,
>)
    ensures
        match source_text(args@.query, args@.file, opt_view(*file_text), "graph query"@) {
            Ok(t) => r matches Ok(s) && s@ == t,
            Err(m) => r matches Err(e) && e@ == m,
        },
{
    query_text(&args.query, &args.file, file_text, "graph query")
}

// ---------------------------------------------------------------------------
// Saved queries
// ---------------------------------------------------------------------------
pub open spec fn snippet_char(c: char) -> bool {
    is_alnum(c) || c == '-' || c == '_' || c == '.'
}

/// The name of a saved query: one file name, of plain characters.
pub open spec fn snippet_name(name: Seq<char>) -> Result<Seq<char>, Seq<char>> {
    let t = trim(name);
    if t.len() == 0 {
        Err("snippet name cannot be empty"@)
    } else if t.contains('/') || t.contains('\\') || t == "."@ || t == ".."@ {
        Err("snippet names cannot include path separators"@)
    } else if forall|i: int| 0 <= i < t.len() ==> snippet_char(#[trigger] t[i]) {
        Ok(t)
    } else {
        Err("snippet names can only use letters, numbers, '.', '-', and '_'"@)
    }
}

pub fn sanitize_repl_snippet_name(name: &str) -> (r: Result<String, String>)
    ensures
        match snippet_name(name@) {
            Ok(n) => r matches Ok(s) && s@ == n,
            Err(m) => r matches Err(e) && e@ == m,
        },
{
    let t = trimmed(name);
    let v = chars_of(t.as_str());
    if v.len() == 0 {
        return Err("snippet name cannot be empty".to_owned());
    }
    if has_char(t.as_str(), '/') || has_char(t.as_str(), '\\') || same(t.as_str(), ".") || same(
        t.as_str(),
        "..",
    ) {
        return Err("snippet names cannot include path separators".to_owned());
    }
    let mut i: usize = 0;
    while i < v.len()
        invariant
            i <= v@.len(),
            v@ == t@,
            t@ == trim(name@),
            v@.len() > 0,
            !(t@.contains('/') || t@.contains('\\') || t@ == "."@ || t@ == ".."@),
            forall|j: int| 0 <= j < i ==> snippet_char(#[trigger] t@[j]),
        decreases v@.len() - i,
    {
        let c = v[i];
        if !(alnum(c) || c == '-' || c == '_' || c == '.') {
            assert(!snippet_char(t@[i as int]));
            return Err(
                "snippet names can only use letters, numbers, '.', '-', and '_'".to_owned(),
            );
        }
        i += 1;
    }
    Ok(t)
}

/// Whether a file name has an extension: a point, but not only at its start.
pub open spec fn has_extension(name: Seq<char>) -> bool {
    last_index_of(name, CharClass::Is('.')) > 0
}

fn named_with_extension(name: &str) -> (r: bool)
    ensures
        r == has_extension(name@),
{
    let v = chars_of(name);
    match crate::text::find_last_class(v.as_slice(), CharClass::Is('.')) {
        Some(i) => i > 0,
        None => false,
    }
}

/// Whether a query is one of the graph.
pub open spec fn graph_snippet(query: Seq<char>) -> bool {
    native_query(query) || short_request(query) is Ok
}

pub fn is_repl_graph_snippet(query: &str) -> (r: bool)
    ensures
        r == graph_snippet(query@),
{
    is_native_graphql_query(query) || parse_graph_query(query).is_ok()
}

/// The file of a saved query: its name, with an extension by the query's language
/// where the name has none.
pub open spec fn snippet_file(name: Seq<char>, query: Option<Seq<char>>) -> Result<
    Seq<char>,
    Seq<char>,
> {
    match snippet_name(name) {
        Err(m) => Err(m),
        Ok(n) => Ok(
            if has_extension(n) {
                n
            } else if query is Some && graph_snippet(query->Some_0) {
                n + ".graphql"@
            } else {
                n + ".sql"@
            },
        ),
    }
}

pub open spec fn snippet_path(dir: Seq<char>, name: Seq<char>, query: Option<Seq<char>>) -> Result<
    Seq<char>,
    Seq<char>,
> {
    match snippet_file(name, query) {
        Err(m) => Err(m),
        Ok(file) => Ok(path_in(dir, file)),
    }
}

pub fn repl_snippet_path(dir: &str, name: &str, query: Option<&str>) -> (r: Result<String, String>)
    ensures
        match snippet_path(
            dir@,
            name@,
            match query {
                Some(q) => Some(q@),
                None => None,
            },
        ) {
            Ok(p) => r matches Ok(s) && s@ == p,
            Err(m) => r matches Err(e) && e@ == m,
        },
{
    let plain = match sanitize_repl_snippet_name(name) {
        Ok(n) => n,
        Err(m) => {
            return Err(m);
        },
    };
    let graph = match query {
        Some(q) => is_repl_graph_snippet(q),
        None => false,
    };
    let file = if named_with_extension(plain.as_str()) {
        plain
    } else if graph {
        cat2(plain.as_str(), ".graphql")
    } else {
        cat2(plain.as_str(), ".sql")
    };
    Ok(join_path(dir, file.as_str()))
}

/// A saved query lies in the directory of saved queries: its file's name holds no
/// separator of paths.
pub proof fn law_snippets_stay_in_directory(dir: Seq<char>, name: Seq<char>, query: Option<Seq<char>>)
    requires
        snippet_path(dir, name, query) is Ok,
    ensures
        exists|file: Seq<char>|
            snippet_path(dir, name, query) == Ok::<Seq<char>, Seq<char>>(
                #[trigger] path_in(dir, file),
            ) && file.len() > 0 && !file.contains('/') && !file.contains('\\') && file != "."@
                && file != ".."@,
{
    let t = trim(name);
    let file = snippet_file(name, query)->Ok_0;
    reveal_strlit(".graphql");
    reveal_strlit(".sql");
    reveal_strlit(".");
    reveal_strlit("..");
    assert forall|i: int| 0 <= i < file.len() implies file[i] != '/' && file[i] != '\\' by {
        if i < t.len() {
            assert(t[i] == file[i]);
            assert(t.contains(t[i]));
        } else {
            if file == t + ".graphql"@ {
                assert(file[i] == ".graphql"@[i - t.len()]);
            } else {
                assert(file[i] == ".sql"@[i - t.len()]);
            }
        }
    }
    assert(file.len() > t.len() ==> file.len() > 2);
}

pub open spec fn snippet_candidate(dir: Seq<char>, plain: Seq<char>, extension: Seq<char>) -> Seq<
    char,
> {
    path_in(dir, plain + "."@ + extension)
}

/// The files that a name may stand for, in the order in which they are tried.
pub open spec fn snippet_candidates(dir: Seq<char>, name: Seq<char>) -> Result<
    Seq<Seq<char>>,
    Seq<char>,
> {
    match snippet_name(name) {
        Err(m) => Err(m),
        Ok(n) => Ok(
            seq![
                snippet_path(dir, name, None)->Ok_0,
                snippet_candidate(dir, n, "graphql"@),
                snippet_candidate(dir, n, "gql"@),
                snippet_candidate(dir, n, "sql"@),
            ],
        ),
    }
}

pub fn resolve_repl_snippet_path(dir: &str, name: &str) -> (r: Result<Vec<String>, String>)
    ensures
        match snippet_candidates(dir@, name@) {
            Ok(all) => r matches Ok(v) && views(v@) == all,
            Err(m) => r matches Err(e) && e@ == m,
        },
{
    let exact = match repl_snippet_path(dir, name, None) {
        Ok(p) => p,
        Err(m) => {
            return Err(m);
        },
    };
    let plain = match sanitize_repl_snippet_name(name) {
        Ok(n) => n,
        Err(m) => {
            return Err(m);
        },
    };
    let n = plain.as_str();
    let mut out: Vec<String> = Vec::new();
    out.push(exact);
    out.push(join_path(dir, cat3(n, ".", "graphql").as_str()));
    out.push(join_path(dir, cat3(n, ".", "gql").as_str()));
    out.push(join_path(dir, cat3(n, ".", "sql").as_str()));
    assert(views(out@) =~= snippet_candidates(dir@, name@)->Ok_0);
    Ok(out)
}

pub fn snippet_not_found(name: &str) -> (r: String)
    ensures
        r@ == "saved query "@ + debug_text(name@) + " was not found"@,
{
    cat3("saved query ", debug_of(name).as_str(), " was not found")
}

/// How a saved query is run.
#[derive(Clone, Copy, Debug, PartialEq, Eq, Structural)]
pub enum SnippetKind {
    Graph,
    Sql,
}

pub open spec fn extension_of(name: Seq<char>) -> Option<Seq<char>> {
    if has_extension(name) {
        Some(name.skip(last_index_of(name, CharClass::Is('.')) + 1))
    } else {
        None
    }
}

pub fn file_extension(name: &str) -> (r: Option<String>)
    ensures
        opt_view(r) == extension_of(name@),
{
    let v = chars_of(name);
    match crate::text::find_last_class(v.as_slice(), CharClass::Is('.')) {
        Some(i) => if i > 0 {
            let n = v.len();
            assert(name@.subrange(i + 1, n as int) =~= name@.skip(i + 1));
            Some(crate::text::string_of(v.as_slice(), i + 1, n))
        } else {
            None
        },
        None => None,
    }
}

/// By its file's extension, else by how it reads.
pub open spec fn kind_of(file: Seq<char>, query: Seq<char>) -> SnippetKind {
    let e = extension_of(file);
    if e == Some("graphql"@) || e == Some("gql"@) {
        SnippetKind::Graph
    } else if e == Some("sql"@) {
        SnippetKind::Sql
    } else if native_query(query) {
        SnippetKind::Graph
    } else {
        SnippetKind::Sql
    }
}

pub fn snippet_kind(file: &str, query: &str) -> (r: SnippetKind)
    ensures
        r == kind_of(file@, query@),
{
    match file_extension(file) {
        Some(e) => {
            if same(e.as_str(), "graphql") || same(e.as_str(), "gql") {
                return SnippetKind::Graph;
            }
            if same(e.as_str(), "sql") {
                return SnippetKind::Sql;
            }
        },
        None => {},
    }
    if is_native_graphql_query(query) {
        SnippetKind::Graph
    } else {
        SnippetKind::Sql
    }
}

/// A file of a saved query.
#[derive(Debug)]
pub struct SnippetFile {
    pub name: String,
    pub path: String,
}

pub struct SnippetV {
    pub name: Seq<char>,
    pub path: Seq<char>,
}

pub open spec fn snippet_views(v: Seq<SnippetFile>) -> Seq<SnippetV> {
    v.map_values(|f: SnippetFile| SnippetV { name: f.name@, path: f.path@ })
}

pub open spec fn by_name() -> spec_fn(SnippetV, SnippetV) -> bool {
    |a: SnippetV, b: SnippetV| text_less(a.name, b.name)
}

pub open spec fn snippet_word(name: Seq<char>) -> Seq<char> {
    let e = extension_of(name);
    if e == Some("graphql"@) || e == Some("gql"@) {
        "graphql"@
    } else if e == Some("sql"@) {
        "sql"@
    } else {
        "query"@
    }
}

pub open spec fn snippet_json(s: SnippetV) -> JsonV {
    JsonV::empty_object().with("name"@, JsonV::Text(s.name)).with(
        "path"@,
        JsonV::Text(s.path),
    ).with("kind"@, JsonV::Text(snippet_word(s.name)))
}

fn snippet_row(file: &SnippetFile) -> (r: Json)
    ensures
        r@ == snippet_json(SnippetV { name: file.name@, path: file.path@ }),
{
    let mut word = "query";
    match file_extension(file.name.as_str()) {
        Some(e) => {
            if same(e.as_str(), "graphql") || same(e.as_str(), "gql") {
                word = "graphql";
            } else if same(e.as_str(), "sql") {
                word = "sql";
            }
        },
        None => {},
    }
    Json::object().with("name", Json::text(file.name.as_str())).with(
        "path",
        Json::text(file.path.as_str()),
    ).with("kind", Json::text(word))
}

/// The saved queries of a directory, by name.
pub open spec fn snippets_json(dir: Seq<char>, files: Seq<SnippetV>) -> JsonV {
    JsonV::empty_object().with("kind"@, JsonV::Text("repl-snippets"@)).with(
        "directory"@,
        JsonV::Text(dir),
    ).with(
        "queries"@,
        JsonV::Array(sorted_by(files, by_name()).map_values(|s: SnippetV| snippet_json(s))),
    )
}

pub fn list_repl_snippets_value(dir: &str, files: &Vec<SnippetFile>) -> (r: Json)
    ensures
        r@ == snippets_json(dir@, snippet_views(files@)),
{
    let ghost all = snippet_views(files@);
    let ghost f = by_name();
    let mut sorted: Vec<SnippetFile> = Vec::new();
    let mut i: usize = 0;
    assert(snippet_views(sorted@) =~= sorted_by(all.take(0), f));
    while i < files.len()
        invariant
            i <= files@.len(),
            all == snippet_views(files@),
            f == by_name(),
            snippet_views(sorted@) == sorted_by(all.take(i as int), f),
        decreases files@.len() - i,
    {
        let ghost sv = snippet_views(sorted@);
        let file = SnippetFile { name: files[i].name.clone(), path: files[i].path.clone() };
        let ghost view = SnippetV { name: file.name@, path: file.path@ };
        assert(all[i as int] == view);
        let mut k: usize = sorted.len();
        while k > 0 && less(file.name.as_str(), sorted[k - 1].name.as_str())
            invariant
                k <= sorted@.len(),
                f == by_name(),
                view == (SnippetV { name: file.name@, path: file.path@ }),
                sv == snippet_views(sorted@),
                forall|j: int| k <= j < sv.len() ==> f(view, #[trigger] sv[j]),
            decreases k,
        {
            assert(sv[k - 1].name == sorted@[k - 1].name@);
            k -= 1;
        }
        assert(k > 0 ==> sv[k - 1].name == sorted@[k - 1].name@);
        proof {
            lemma_insert_at(sv, view, f, k as int);
        }
        sorted.insert(k, file);
        assert(snippet_views(sorted@) =~= sv.take(k as int).push(view) + sv.skip(k as int));
        assert(all.take(i as int + 1).drop_last() =~= all.take(i as int));
        i += 1;
    }
    assert(all.take(i as int) =~= all);
    let ghost sv = snippet_views(sorted@);
    let ghost rows_view = sv.map_values(|s: SnippetV| snippet_json(s));
    let mut rows: Vec<Json> = Vec::new();
    let mut n: usize = 0;
    assert(items_view(rows@) =~= rows_view.take(0));
    while n < sorted.len()
        invariant
            n <= sorted@.len(),
            sv == snippet_views(sorted@),
            rows_view == sv.map_values(|s: SnippetV| snippet_json(s)),
            items_view(rows@) == rows_view.take(n as int),
        decreases sorted@.len() - n,
    {
        let ghost before = items_view(rows@);
        let row = snippet_row(&sorted[n]);
        let ghost next = row@;
        rows.push(row);
        assert(items_view(rows@) =~= before.push(next));
        assert(rows_view[n as int] == next);
        assert(rows_view.take(n as int + 1) =~= before.push(next));
        n += 1;
    }
    assert(rows_view.take(n as int) =~= rows_view);
    Json::object().with("kind", Json::text("repl-snippets")).with("directory", Json::text(dir)).with(
        "queries",
        Json::array(rows),
    )
}

} // verus!
