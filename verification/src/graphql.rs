//! The GraphQL subset of the graph surface: tokens, the query grammar, arguments
//! with variables, and projection of answers onto a selection.
use vstd::prelude::*;
use crate::text::{
    alpha, cat2, cat3, chars_of, debug_char, debug_of, debug_of_char, debug_text, decimal_int,
    digit, digits_of_i64, find_class, has_prefix, index_of, index_past, is_alpha, is_digit,
    is_white, less, lower, parse_i64, result_view, same, skip_class, starts_with, string_of,
    text_less, to_i64, to_lower, trim_start, trimmed_start, white, CharClass,
};

verus! {

/// Whether the text is a query of the grammar here rather than a short graph query.
pub open spec fn native_query(s: Seq<char>) -> bool {
    let t = trim_start(s, CharClass::White);
    starts_with(t, "{"@) || starts_with(lower(t), "query"@)
}

pub fn is_native_graphql_query(query: &str) -> (r: bool)
    ensures
        r == native_query(query@),
{
    let t = trimmed_start(query, CharClass::White);
    has_prefix(t.as_str(), "{") || has_prefix(to_lower(t.as_str()).as_str(), "query")
}

// ---------------------------------------------------------------------------
// Tokens
// ---------------------------------------------------------------------------
#[derive(Debug)]
pub enum GraphQlToken {
    Name(String),
    Text(String),
    Int(i64),
    Dollar,
    Punct(char),
}

pub enum TokenV {
    Name(Seq<char>),
    Text(Seq<char>),
    Int(int),
    Dollar,
    Punct(char),
}

impl View for GraphQlToken {
    type V = TokenV;

    open spec fn view(&self) -> TokenV {
        match self {
            GraphQlToken::Name(s) => TokenV::Name(s@),
            GraphQlToken::Text(s) => TokenV::Text(s@),
            GraphQlToken::Int(n) => TokenV::Int(*n as int),
            GraphQlToken::Dollar => TokenV::Dollar,
            GraphQlToken::Punct(c) => TokenV::Punct(*c),
        }
    }
}

pub open spec fn token_views(v: Seq<GraphQlToken>) -> Seq<TokenV> {
    v.map_values(|t: GraphQlToken| t@)
}

pub open spec fn name_start(c: char) -> bool {
    c == '_' || is_alpha(c)
}

pub fn is_graphql_name_start(character: char) -> (r: bool)
    ensures
        r == name_start(character),
{
    character == '_' || alpha(character)
}

pub open spec fn is_punct(c: char) -> bool {
    c == '{' || c == '}' || c == '(' || c == ')' || c == ':' || c == '!' || c == '[' || c == ']'
        || c == '='
}

/// The character that stands for an escape.
pub open spec fn unescape(c: char) -> char {
    if c == 'n' {
        '\n'
    } else if c == 'r' {
        '\r'
    } else if c == 't' {
        '\t'
    } else {
        c
    }
}

/// The rest of a string literal read from `i` on, with what was read before it, and
/// the index after what was read.
pub open spec fn string_from(s: Seq<char>, i: int, acc: Seq<char>) -> (
    Result<Seq<char>, Seq<char>>,
    int,
)
    decreases s.len() - i,
{
    if i < 0 || i >= s.len() {
        (Err("unterminated GraphQL string"@), s.len() as int)
    } else if s[i] == '"' {
        (Ok(acc), i + 1)
    } else if s[i] == '\\' {
        if i + 1 >= s.len() {
            (Err("unterminated GraphQL string escape"@), s.len() as int)
        } else {
            string_from(s, i + 2, acc.push(unescape(s[i + 1])))
        }
    } else {
        string_from(s, i + 1, acc.push(s[i]))
    }
}

/// Reads a string literal whose opening quote stands before `from`.
pub fn read_graphql_string(chars: &[char], from: usize) -> (r: (Result<String, String>, usize))
    requires
        from <= chars@.len(),
    ensures
        (result_view(r.0), r.1 as int) == string_from(chars@, from as int, Seq::empty()),
        from <= r.1 <= chars@.len(),
{
    let n = chars.len();
    let mut value = String::new();
    let mut i: usize = from;
    while i < n
        invariant
            n == chars@.len(),
            from <= i <= n,
            string_from(chars@, from as int, Seq::empty()) == string_from(
                chars@,
                i as int,
                value@,
            ),
        decreases n - i,
    {
        let c = chars[i];
        if c == '"' {
            return (Ok(value), i + 1);
        }
        if c == '\\' {
            if i + 1 >= n {
                return (Err("unterminated GraphQL string escape".to_owned()), n);
            }
            let e = chars[i + 1];
            value.push(
                if e == 'n' {
                    '\n'
                } else if e == 'r' {
                    '\r'
                } else if e == 't' {
                    '\t'
                } else {
                    e
                },
            );
            i += 2;
        } else {
            value.push(c);
            i += 1;
        }
    }
    (Err("unterminated GraphQL string".to_owned()), n)
}

/// The tokens of the text from `i` on behind those read before, or the message of
/// the first error. White space, commas and comments part tokens.
pub open spec fn query_tokens_from(s: Seq<char>, i: int, acc: Seq<TokenV>) -> Result<
    Seq<TokenV>,
    Seq<char>,
>
    decreases s.len() - i,
{
    if i < 0 || i >= s.len() {
        Ok(acc)
    } else {
        let c = s[i];
        if is_white(c) || c == ',' {
            query_tokens_from(s, i + 1, acc)
        } else if c == '#' {
            let e = index_of(s, CharClass::Is('\n'), i + 1);
            if i < e < s.len() {
                query_tokens_from(s, e + 1, acc)
            } else {
                Ok(acc)
            }
        } else if is_punct(c) {
            query_tokens_from(s, i + 1, acc.push(TokenV::Punct(c)))
        } else if c == '$' {
            query_tokens_from(s, i + 1, acc.push(TokenV::Dollar))
        } else if c == '"' {
            match string_from(s, i + 1, Seq::empty()) {
                (Ok(t), e) => if i < e <= s.len() {
                    query_tokens_from(s, e, acc.push(TokenV::Text(t)))
                } else {
                    Ok(acc)
                },
                (Err(m), _) => Err(m),
            }
        } else if c == '-' || is_digit(c) {
            let e = index_past(s, CharClass::Digit, i + 1);
            match parse_i64(s.subrange(i, e)) {
                Some(n) => if i < e <= s.len() {
                    query_tokens_from(s, e, acc.push(TokenV::Int(n)))
                } else {
                    Ok(acc)
                },
                None => Err("invalid GraphQL integer "@ + debug_text(s.subrange(i, e))),
            }
        } else if name_start(c) {
            let e = index_past(s, CharClass::NameChar, i + 1);
            if i < e <= s.len() {
                query_tokens_from(s, e, acc.push(TokenV::Name(s.subrange(i, e))))
            } else {
                Ok(acc)
            }
        } else {
            Err("unexpected GraphQL character "@ + debug_char(c))
        }
    }
}

/// The tokens of a query.
pub open spec fn query_tokens(s: Seq<char>) -> Result<Seq<TokenV>, Seq<char>> {
    query_tokens_from(s, 0, Seq::empty())
}

pub open spec fn tokens_result(r: Result<Vec<GraphQlToken>, String>) -> Result<
    Seq<TokenV>,
    Seq<char>,
> {
    match r {
        Ok(v) => Ok(token_views(v@)),
        Err(e) => Err(e@),
    }
}

pub fn tokenize_graphql(query: &str) -> (r: Result<Vec<GraphQlToken>, String>)
    ensures
        tokens_result(r) == query_tokens(query@),
{
    let v = chars_of(query);
    let n = v.len();
    let mut out: Vec<GraphQlToken> = Vec::new();
    let mut i: usize = 0;
    assert(token_views(out@) =~= Seq::empty());
    while i < n
        invariant
            v@ == query@,
            n == v@.len(),
            i <= n,
            query_tokens(query@) == query_tokens_from(query@, i as int, token_views(out@)),
        decreases n - i,
    {
        let c = v[i];
        let ghost before = token_views(out@);
        if white(c) || c == ',' {
            i += 1;
        } else if c == '#' {
            let e = find_class(v.as_slice(), CharClass::Is('\n'), i + 1);
            if e < n {
                i = e + 1;
            } else {
                return Ok(out);
            }
        } else if c == '{' || c == '}' || c == '(' || c == ')' || c == ':' || c == '!' || c == '['
            || c == ']' || c == '=' {
            out.push(GraphQlToken::Punct(c));
            assert(token_views(out@) =~= before.push(TokenV::Punct(c)));
            i += 1;
        } else if c == '$' {
            out.push(GraphQlToken::Dollar);
            assert(token_views(out@) =~= before.push(TokenV::Dollar));
            i += 1;
        } else if c == '"' {
            let (read, e) = read_graphql_string(v.as_slice(), i + 1);
            match read {
                Ok(t) => {
                    let ghost text = t@;
                    out.push(GraphQlToken::Text(t));
                    assert(token_views(out@) =~= before.push(TokenV::Text(text)));
                    i = e;
                },
                Err(m) => {
                    return Err(m);
                },
            }
        } else if c == '-' || digit(c) {
            let e = skip_class(v.as_slice(), CharClass::Digit, i + 1);
            let text = string_of(v.as_slice(), i, e);
            match to_i64(text.as_str()) {
                Some(k) => {
                    out.push(GraphQlToken::Int(k));
                    assert(token_views(out@) =~= before.push(TokenV::Int(k as int)));
                    i = e;
                },
                None => {
                    let d = debug_of(text.as_str());
                    return Err(cat2("invalid GraphQL integer ", d.as_str()));
                },
            }
        } else if is_graphql_name_start(c) {
            let e = skip_class(v.as_slice(), CharClass::NameChar, i + 1);
            let text = string_of(v.as_slice(), i, e);
            let ghost name = text@;
            out.push(GraphQlToken::Name(text));
            assert(token_views(out@) =~= before.push(TokenV::Name(name)));
            i = e;
        } else {
            let d = debug_of_char(c);
            return Err(cat2("unexpected GraphQL character ", d.as_str()));
        }
    }
    Ok(out)
}

// ---------------------------------------------------------------------------
// Queries
// ---------------------------------------------------------------------------
/// The value of an argument as it is written.
#[derive(Debug)]
pub enum GraphQlInput {
    Text(String),
    Int(i64),
    Bool(bool),
    Null,
    Variable(String),
}

pub enum InputV {
    Text(Seq<char>),
    Int(int),
    Bool(bool),
    Null,
    Variable(Seq<char>),
}

impl View for GraphQlInput {
    type V = InputV;

    open spec fn view(&self) -> InputV {
        match self {
            GraphQlInput::Text(s) => InputV::Text(s@),
            GraphQlInput::Int(n) => InputV::Int(*n as int),
            GraphQlInput::Bool(b) => InputV::Bool(*b),
            GraphQlInput::Null => InputV::Null,
            GraphQlInput::Variable(s) => InputV::Variable(s@),
        }
    }
}

/// A named argument of a field.
#[derive(Debug)]
pub struct GraphQlArg {
    pub name: String,
    pub value: GraphQlInput,
}

pub struct ArgV {
    pub name: Seq<char>,
    pub value: InputV,
}

impl View for GraphQlArg {
    type V = ArgV;

    open spec fn view(&self) -> ArgV {
        ArgV { name: self.name@, value: self.value@ }
    }
}

pub open spec fn arg_views(v: Seq<GraphQlArg>) -> Seq<ArgV> {
    v.map_values(|a: GraphQlArg| a@)
}

/// The arguments, in the order of their names, with one more; it takes the place of one
/// with its name.
pub open spec fn put_arg(args: Seq<ArgV>, arg: ArgV) -> Seq<ArgV>
    decreases args.len(),
{
    if args.len() == 0 {
        seq![arg]
    } else if args[0].name == arg.name {
        seq![arg] + args.skip(1)
    } else if text_less(arg.name, args[0].name) {
        seq![arg] + args
    } else {
        seq![args[0]] + put_arg(args.skip(1), arg)
    }
}

fn insert_arg(args: &mut Vec<GraphQlArg>, arg: GraphQlArg)
    ensures
        arg_views(final(args)@) == put_arg(arg_views(old(args)@), arg@),
{
    let ghost all = arg_views(args@);
    let ghost view = arg@;
    let mut i: usize = 0;
    assert(all.skip(0) =~= all);
    assert(all.take(0) + put_arg(all.skip(0), view) =~= put_arg(all, view));
    while i < args.len() && !same(args[i].name.as_str(), arg.name.as_str()) && !less(
        arg.name.as_str(),
        args[i].name.as_str(),
    )
        invariant
            i <= args@.len(),
            all == arg_views(args@),
            view == arg@,
            put_arg(all, view) == all.take(i as int) + put_arg(all.skip(i as int), view),
        decreases args@.len() - i,
    {
        assert(all.skip(i as int)[0] == all[i as int]);
        assert(all[i as int] == args@[i as int]@);
        assert(all.skip(i as int).skip(1) =~= all.skip(i as int + 1));
        assert(all.take(i as int) + (seq![all[i as int]] + put_arg(all.skip(i as int + 1), view))
            =~= all.take(i as int + 1) + put_arg(all.skip(i as int + 1), view));
        i += 1;
    }
    assert(i < args@.len() ==> all.skip(i as int)[0] == all[i as int] && all[i as int]
        == args@[i as int]@);
    if i < args.len() && same(args[i].name.as_str(), arg.name.as_str()) {
        args.set(i, arg);
        assert(all.skip(i as int).skip(1) =~= all.skip(i as int + 1));
        assert(arg_views(args@) =~= all.take(i as int) + (seq![view] + all.skip(i as int + 1)));
    } else {
        args.insert(i, arg);
        assert(arg_views(args@) =~= all.take(i as int) + (seq![view] + all.skip(i as int)));
        assert(seq![view] + all.skip(i as int) =~= put_arg(all.skip(i as int), view)) by {
            if i == all.len() {
                assert(seq![view] + all.skip(i as int) =~= seq![view]);
            }
        }
    }
}

/// A selected field, its arguments in the order of their names.
#[derive(Debug)]
pub struct GraphQlField {
    pub response_key: String,
    pub name: String,
    pub args: Vec<GraphQlArg>,
    pub selection: Vec<GraphQlField>,
}

pub struct FieldV {
    pub response_key: Seq<char>,
    pub name: Seq<char>,
    pub args: Seq<ArgV>,
    pub selection: Seq<FieldV>,
}

impl View for GraphQlField {
    type V = FieldV;

    open spec fn view(&self) -> FieldV
        decreases self,
    {
        FieldV {
            response_key: self.response_key@,
            name: self.name@,
            args: arg_views(self.args@),
            selection: Seq::new(
                self.selection@.len(),
                |i: int|
                    if 0 <= i < self.selection@.len() {
                        self.selection@[i].view()
                    } else {
                        FieldV {
                            response_key: Seq::empty(),
                            name: Seq::empty(),
                            args: Seq::empty(),
                            selection: Seq::empty(),
                        }
                    },
            ),
        }
    }
}

pub open spec fn field_views(v: Seq<GraphQlField>) -> Seq<FieldV> {
    v.map_values(|f: GraphQlField| f@)
}

pub proof fn lemma_field_view(f: GraphQlField)
    ensures
        f@ == (FieldV {
            response_key: f.response_key@,
            name: f.name@,
            args: arg_views(f.args@),
            selection: field_views(f.selection@),
        }),
{
    let a = f@.selection;
    assert forall|i: int| 0 <= i < f.selection@.len() implies a[i] == field_views(
        f.selection@,
    )[i] by {
        assert(a[i] == f.selection@[i]@);
    }
    assert(a =~= field_views(f.selection@));
}

/// The token at `i`, where there is one.
pub open spec fn token_at(t: Seq<TokenV>, i: int) -> Option<TokenV> {
    if 0 <= i < t.len() {
        Some(t[i])
    } else {
        None
    }
}

pub open spec fn after_token(t: Seq<TokenV>, i: int) -> int {
    if 0 <= i < t.len() {
        i + 1
    } else {
        i
    }
}

/// How an error message shows the token that was found.
pub open spec fn token_debug(t: Option<TokenV>) -> Seq<char> {
    match t {
        None => "None"@,
        Some(TokenV::Name(s)) => "Some(Name("@ + debug_text(s) + "))"@,
        Some(TokenV::Text(s)) => "Some(String("@ + debug_text(s) + "))"@,
        Some(TokenV::Int(n)) => "Some(Int("@ + decimal_int(n) + "))"@,
        Some(TokenV::Dollar) => "Some(Dollar)"@,
        Some(TokenV::Punct(c)) => "Some(Punct("@ + debug_char(c) + "))"@,
    }
}

fn debug_of_token(t: Option<&GraphQlToken>) -> (r: String)
    ensures
        r@ == token_debug(
            match t {
                Some(x) => Some(x@),
                None => None,
            },
        ),
{
    match t {
        None => "None".to_owned(),
        Some(GraphQlToken::Name(s)) => cat3("Some(Name(", debug_of(s.as_str()).as_str(), "))"),
        Some(GraphQlToken::Text(s)) => cat3("Some(String(", debug_of(s.as_str()).as_str(), "))"),
        Some(GraphQlToken::Int(n)) => cat3("Some(Int(", digits_of_i64(*n).as_str(), "))"),
        Some(GraphQlToken::Dollar) => "Some(Dollar)".to_owned(),
        Some(GraphQlToken::Punct(c)) => cat3("Some(Punct(", debug_of_char(*c).as_str(), "))"),
    }
}

pub open spec fn name_step(t: Seq<TokenV>, i: int) -> (Result<Seq<char>, Seq<char>>, int) {
    (
        match token_at(t, i) {
            Some(TokenV::Name(s)) => Ok(s),
            other => Err("expected GraphQL name, got "@ + token_debug(other)),
        },
        after_token(t, i),
    )
}

pub open spec fn punct_step(t: Seq<TokenV>, i: int, c: char) -> (Result<(), Seq<char>>, int) {
    if token_at(t, i) == Some(TokenV::Punct(c)) {
        (Ok(()), i + 1)
    } else {
        (Err("expected GraphQL punctuation "@ + debug_char(c)), i)
    }
}

pub open spec fn input_step(t: Seq<TokenV>, i: int) -> (Result<InputV, Seq<char>>, int) {
    let j = after_token(t, i);
    match token_at(t, i) {
        Some(TokenV::Text(s)) => (Ok(InputV::Text(s)), j),
        Some(TokenV::Int(n)) => (Ok(InputV::Int(n)), j),
        Some(TokenV::Dollar) => match name_step(t, j) {
            (Ok(s), k) => (Ok(InputV::Variable(s)), k),
            (Err(m), k) => (Err(m), k),
        },
        Some(TokenV::Name(s)) => (
            Ok(
                if s == "true"@ {
                    InputV::Bool(true)
                } else if s == "false"@ {
                    InputV::Bool(false)
                } else if s == "null"@ {
                    InputV::Null
                } else {
                    InputV::Text(s)
                },
            ),
            j,
        ),
        other => (Err("expected GraphQL value, got "@ + token_debug(other)), j),
    }
}

/// The arguments up to the closing bracket, together with those read before.
pub open spec fn args_step(t: Seq<TokenV>, i: int, acc: Seq<ArgV>) -> (
    Result<Seq<ArgV>, Seq<char>>,
    int,
)
    decreases t.len() - i,
{
    if token_at(t, i) == Some(TokenV::Punct(')')) {
        (Ok(acc), i + 1)
    } else if token_at(t, i) is None {
        (Err("unterminated GraphQL argument list"@), i)
    } else {
        match name_step(t, i) {
            (Err(m), j) => (Err(m), j),
            (Ok(name), j) => match punct_step(t, j, ':') {
                (Err(m), k) => (Err(m), k),
                (Ok(_), k) => match input_step(t, k) {
                    (Err(m), n) => (Err(m), n),
                    (Ok(value), n) => if i < n <= t.len() {
                        args_step(t, n, put_arg(acc, ArgV { name, value }))
                    } else {
                        (Ok(acc), i)
                    },
                },
            },
        }
    }
}

/// A selected field: an optional alias, the name, and the optional arguments and
/// selection.
pub open spec fn field_step(t: Seq<TokenV>, i: int) -> (Result<FieldV, Seq<char>>, int)
    decreases t.len() - i, 0int,
{
    match name_step(t, i) {
        (Err(m), j) => (Err(m), j),
        (Ok(first), j) => {
            let (named, k) = if token_at(t, j) == Some(TokenV::Punct(':')) {
                name_step(t, j + 1)
            } else {
                (Ok(first), j)
            };
            match named {
                Err(m) => (Err(m), k),
                Ok(name) => {
                    let (listed, n) = if token_at(t, k) == Some(TokenV::Punct('(')) {
                        args_step(t, k + 1, Seq::empty())
                    } else {
                        (Ok(Seq::empty()), k)
                    };
                    match listed {
                        Err(m) => (Err(m), n),
                        Ok(args) => {
                            if token_at(t, n) == Some(TokenV::Punct('{')) && i < n {
                                match selection_step(t, n) {
                                    (Err(m), p) => (Err(m), p),
                                    (Ok(selection), p) => (
                                        Ok(FieldV { response_key: first, name, args, selection }),
                                        p,
                                    ),
                                }
                            } else {
                                (
                                    Ok(
                                        FieldV {
                                            response_key: first,
                                            name,
                                            args,
                                            selection: Seq::empty(),
                                        },
                                    ),
                                    n,
                                )
                            }
                        },
                    }
                },
            }
        },
    }
}

/// The fields up to the closing brace, behind those read before.
pub open spec fn fields_step(t: Seq<TokenV>, i: int, acc: Seq<FieldV>) -> (
    Result<Seq<FieldV>, Seq<char>>,
    int,
)
    decreases t.len() - i, 1int,
{
    if token_at(t, i) == Some(TokenV::Punct('}')) {
        (Ok(acc), i + 1)
    } else if token_at(t, i) is None {
        (Err("unterminated GraphQL selection set"@), i)
    } else {
        match field_step(t, i) {
            (Err(m), j) => (Err(m), j),
            (Ok(f), j) => if i < j <= t.len() {
                fields_step(t, j, acc.push(f))
            } else {
                (Ok(acc), i)
            },
        }
    }
}

/// A selection set in its braces.
pub open spec fn selection_step(t: Seq<TokenV>, i: int) -> (Result<Seq<FieldV>, Seq<char>>, int)
    decreases t.len() - i, 2int,
{
    match punct_step(t, i, '{') {
        (Err(m), j) => (Err(m), j),
        (Ok(_), j) => fields_step(t, i + 1, Seq::empty()),
    }
}

/// Reads past bracketed tokens, `depth` brackets being open.
pub open spec fn balanced_step(t: Seq<TokenV>, i: int, depth: nat, open: char, close: char) -> (
    Result<(), Seq<char>>,
    int,
)
    decreases t.len() - i,
{
    match token_at(t, i) {
        None => (Err("unterminated GraphQL variable definition list"@), i),
        Some(x) => if x == TokenV::Punct(open) {
            balanced_step(t, i + 1, depth + 1, open, close)
        } else if x == TokenV::Punct(close) {
            if depth <= 1 {
                (Ok(()), i + 1)
            } else {
                balanced_step(t, i + 1, (depth - 1) as nat, open, close)
            }
        } else {
            balanced_step(t, i + 1, depth, open, close)
        },
    }
}

/// Where the selection set of a document starts: after `query`, its name and its
/// variable definitions, where they stand.
pub open spec fn operation_step(t: Seq<TokenV>, i: int) -> (Result<(), Seq<char>>, int) {
    if token_at(t, i) == Some(TokenV::Name("query"@)) {
        let j = if token_at(t, i + 1) matches Some(TokenV::Name(_)) {
            i + 2
        } else {
            i + 1
        };
        if token_at(t, j) == Some(TokenV::Punct('(')) {
            balanced_step(t, j + 1, 1, '(', ')')
        } else {
            (Ok(()), j)
        }
    } else if token_at(t, i) == Some(TokenV::Name("mutation"@)) || token_at(t, i) == Some(
        TokenV::Name("subscription"@),
    ) {
        (Err("Matrix GraphQL only supports query operations"@), i)
    } else {
        (Ok(()), i)
    }
}

/// A whole document.
pub open spec fn document_step(t: Seq<TokenV>, i: int) -> (Result<Seq<FieldV>, Seq<char>>, int) {
    match operation_step(t, i) {
        (Err(m), j) => (Err(m), j),
        (Ok(_), j) => match selection_step(t, j) {
            (Err(m), k) => (Err(m), k),
            (Ok(fields), k) => if token_at(t, k) is Some {
                (Err("unexpected token after GraphQL query"@), k)
            } else {
                (Ok(fields), k)
            },
        },
    }
}

/// The fields that a query selects.
pub open spec fn parsed_query(s: Seq<char>) -> Result<Seq<FieldV>, Seq<char>> {
    match query_tokens(s) {
        Err(m) => Err(m),
        Ok(t) => document_step(t, 0).0,
    }
}

pub open spec fn unit_result(r: Result<(), String>) -> Result<(), Seq<char>> {
    match r {
        Ok(_) => Ok(()),
        Err(e) => Err(e@),
    }
}

pub open spec fn input_result(r: Result<GraphQlInput, String>) -> Result<InputV, Seq<char>> {
    match r {
        Ok(x) => Ok(x@),
        Err(e) => Err(e@),
    }
}

pub open spec fn args_result(r: Result<Vec<GraphQlArg>, String>) -> Result<Seq<ArgV>, Seq<char>> {
    match r {
        Ok(v) => Ok(arg_views(v@)),
        Err(e) => Err(e@),
    }
}

pub open spec fn field_result(r: Result<GraphQlField, String>) -> Result<FieldV, Seq<char>> {
    match r {
        Ok(f) => Ok(f@),
        Err(e) => Err(e@),
    }
}

pub open spec fn fields_result(r: Result<Vec<GraphQlField>, String>) -> Result<
    Seq<FieldV>,
    Seq<char>,
> {
    match r {
        Ok(v) => Ok(field_views(v@)),
        Err(e) => Err(e@),
    }
}

/// A position in the tokens of a query.
pub struct GraphQlParser {
    pub tokens: Vec<GraphQlToken>,
    pub index: usize,
}

impl GraphQlParser {
    /// The position lies within the tokens or at their end.
    pub open spec fn wf(self) -> bool {
        self.index <= self.tokens@.len()
    }

    /// The parser with the position moved.
    pub open spec fn at(self, before: GraphQlParser, next: int) -> bool {
        self.tokens == before.tokens && self.index == next && self.wf()
    }

    pub fn parse(query: &str) -> (r: Result<Vec<GraphQlField>, String>)
        ensures
            fields_result(r) == parsed_query(query@),
    {
        match tokenize_graphql(query) {
            Ok(tokens) => {
                let mut parser = GraphQlParser { tokens, index: 0 };
                parser.parse_document()
            },
            Err(e) => Err(e),
        }
    }

    pub fn parse_document(&mut self) -> (r: Result<Vec<GraphQlField>, String>)
        requires
            old(self).wf(),
        ensures
            fields_result(r) == document_step(
                token_views(old(self).tokens@),
                old(self).index as int,
            ).0,
            final(self).at(
                *old(self),
                document_step(token_views(old(self).tokens@), old(self).index as int).1,
            ),
    {
        if self.consume_name("query") {
            if matches!(self.peek(), Some(GraphQlToken::Name(_))) {
                assert(self.index < self.tokens.len());
                self.index += 1;
            }
            if matches!(self.peek(), Some(GraphQlToken::Punct('('))) {
                match self.skip_balanced('(', ')') {
                    Ok(_) => {},
                    Err(e) => {
                        return Err(e);
                    },
                }
            }
        } else if self.peek_name("mutation") || self.peek_name("subscription") {
            return Err("Matrix GraphQL only supports query operations".to_owned());
        }
        match self.parse_selection_set() {
            Ok(fields) => {
                if self.peek().is_some() {
                    return Err("unexpected token after GraphQL query".to_owned());
                }
                Ok(fields)
            },
            Err(e) => Err(e),
        }
    }

    pub fn parse_selection_set(&mut self) -> (r: Result<Vec<GraphQlField>, String>)
        requires
            old(self).wf(),
        ensures
            fields_result(r) == selection_step(
                token_views(old(self).tokens@),
                old(self).index as int,
            ).0,
            final(self).at(
                *old(self),
                selection_step(token_views(old(self).tokens@), old(self).index as int).1,
            ),
            final(self).index >= old(self).index,
        decreases old(self).tokens@.len() - old(self).index, 2int,
    {
        let ghost t = token_views(self.tokens@);
        let ghost start = self.index;
        match self.expect_punct('{') {
            Ok(_) => {},
            Err(e) => {
                return Err(e);
            },
        }
        let mut fields: Vec<GraphQlField> = Vec::new();
        assert(field_views(fields@) =~= Seq::empty());
        loop
            invariant
                self.wf(),
                self.tokens == old(self).tokens,
                t == token_views(self.tokens@),
                start == old(self).index,
                start < self.index,
                selection_step(t, start as int) == fields_step(
                    t,
                    self.index as int,
                    field_views(fields@),
                ),
            decreases self.tokens@.len() - self.index,
        {
            if self.consume_punct('}') {
                return Ok(fields);
            }
            if self.peek().is_none() {
                return Err("unterminated GraphQL selection set".to_owned());
            }
            let ghost before = field_views(fields@);
            match self.parse_field() {
                Ok(f) => {
                    let ghost view = f@;
                    fields.push(f);
                    assert(field_views(fields@) =~= before.push(view));
                },
                Err(e) => {
                    return Err(e);
                },
            }
        }
    }

    pub fn parse_field(&mut self) -> (r: Result<GraphQlField, String>)
        requires
            old(self).wf(),
        ensures
            field_result(r) == field_step(
                token_views(old(self).tokens@),
                old(self).index as int,
            ).0,
            final(self).at(
                *old(self),
                field_step(token_views(old(self).tokens@), old(self).index as int).1,
            ),
            final(self).index >= old(self).index,
            r is Ok ==> final(self).index > old(self).index,
        decreases old(self).tokens@.len() - old(self).index, 0int,
    {
        let ghost t = token_views(self.tokens@);
        let first = match self.expect_name() {
            Ok(s) => s,
            Err(e) => {
                return Err(e);
            },
        };
        let name = if self.consume_punct(':') {
            match self.expect_name() {
                Ok(s) => s,
                Err(e) => {
                    return Err(e);
                },
            }
        } else {
            first.clone()
        };
        let args: Vec<GraphQlArg> = if self.consume_punct('(') {
            match self.parse_args() {
                Ok(v) => v,
                Err(e) => {
                    return Err(e);
                },
            }
        } else {
            let none: Vec<GraphQlArg> = Vec::new();
            assert(arg_views(none@) =~= Seq::empty());
            none
        };
        let selection: Vec<GraphQlField> = if matches!(self.peek(), Some(GraphQlToken::Punct('{'))) {
            match self.parse_selection_set() {
                Ok(v) => v,
                Err(e) => {
                    return Err(e);
                },
            }
        } else {
            let none: Vec<GraphQlField> = Vec::new();
            assert(field_views(none@) =~= Seq::empty());
            none
        };
        let field = GraphQlField { response_key: first, name, args, selection };
        proof {
            lemma_field_view(field);
        }
        Ok(field)
    }

    /// The arguments after an opening bracket.
    pub fn parse_args(&mut self) -> (r: Result<Vec<GraphQlArg>, String>)
        requires
            old(self).wf(),
        ensures
            args_result(r) == args_step(
                token_views(old(self).tokens@),
                old(self).index as int,
                Seq::empty(),
            ).0,
            final(self).at(
                *old(self),
                args_step(
                    token_views(old(self).tokens@),
                    old(self).index as int,
                    Seq::empty(),
                ).1,
            ),
            final(self).index >= old(self).index,
    {
        let ghost t = token_views(self.tokens@);
        let ghost start = self.index;
        let mut args: Vec<GraphQlArg> = Vec::new();
        assert(arg_views(args@) =~= Seq::empty());
        loop
            invariant
                self.wf(),
                self.tokens == old(self).tokens,
                t == token_views(self.tokens@),
                start == old(self).index,
                start <= self.index,
                args_step(t, start as int, Seq::empty()) == args_step(
                    t,
                    self.index as int,
                    arg_views(args@),
                ),
            decreases self.tokens@.len() - self.index,
        {
            if self.consume_punct(')') {
                return Ok(args);
            }
            if self.peek().is_none() {
                return Err("unterminated GraphQL argument list".to_owned());
            }
            let name = match self.expect_name() {
                Ok(s) => s,
                Err(e) => {
                    return Err(e);
                },
            };
            match self.expect_punct(':') {
                Ok(_) => {},
                Err(e) => {
                    return Err(e);
                },
            }
            match self.parse_input() {
                Ok(value) => {
                    insert_arg(&mut args, GraphQlArg { name, value });
                },
                Err(e) => {
                    return Err(e);
                },
            }
        }
    }

    pub fn parse_input(&mut self) -> (r: Result<GraphQlInput, String>)
        requires
            old(self).wf(),
        ensures
            input_result(r) == input_step(
                token_views(old(self).tokens@),
                old(self).index as int,
            ).0,
            final(self).at(
                *old(self),
                input_step(token_views(old(self).tokens@), old(self).index as int).1,
            ),
            final(self).index >= old(self).index,
    {
        match self.next() {
            Some(GraphQlToken::Text(s)) => Ok(GraphQlInput::Text(s)),
            Some(GraphQlToken::Int(n)) => Ok(GraphQlInput::Int(n)),
            Some(GraphQlToken::Dollar) => match self.expect_name() {
                Ok(s) => Ok(GraphQlInput::Variable(s)),
                Err(e) => Err(e),
            },
            Some(GraphQlToken::Name(s)) => {
                if same(s.as_str(), "true") {
                    Ok(GraphQlInput::Bool(true))
                } else if same(s.as_str(), "false") {
                    Ok(GraphQlInput::Bool(false))
                } else if same(s.as_str(), "null") {
                    Ok(GraphQlInput::Null)
                } else {
                    Ok(GraphQlInput::Text(s))
                }
            },
            other => {
                let d = debug_of_token(other.as_ref());
                Err(cat2("expected GraphQL value, got ", d.as_str()))
            },
        }
    }

    pub fn skip_balanced(&mut self, open: char, close: char) -> (r: Result<(), String>)
        requires
            old(self).wf(),
        ensures
            unit_result(r) == (match punct_step(
                token_views(old(self).tokens@),
                old(self).index as int,
                open,
            ) {
                (Ok(_), i) => balanced_step(token_views(old(self).tokens@), i, 1, open, close).0,
                (Err(m), _) => Err(m),
            }),
            final(self).at(
                *old(self),
                match punct_step(token_views(old(self).tokens@), old(self).index as int, open) {
                    (Ok(_), i) => balanced_step(
                        token_views(old(self).tokens@),
                        i,
                        1,
                        open,
                        close,
                    ).1,
                    (Err(_), i) => i,
                },
            ),
            final(self).index >= old(self).index,
    {
        let ghost t = token_views(self.tokens@);
        let ghost start = self.index + 1;
        match self.expect_punct(open) {
            Ok(_) => {},
            Err(e) => {
                return Err(e);
            },
        }
        let mut depth: usize = 1;
        loop
            invariant
                self.wf(),
                self.tokens == old(self).tokens,
                t == token_views(self.tokens@),
                start == old(self).index + 1,
                start <= self.index,
                1 <= depth <= self.index,
                punct_step(t, old(self).index as int, open) == (
                    Ok::<(), Seq<char>>(()),
                    start,
                ),
                balanced_step(t, start, 1, open, close) == balanced_step(
                    t,
                    self.index as int,
                    depth as nat,
                    open,
                    close,
                ),
            decreases self.tokens@.len() - self.index,
        {
            match self.next() {
                Some(GraphQlToken::Punct(c)) => {
                    if c == open {
                        depth += 1;
                    } else if c == close {
                        if depth == 1 {
                            return Ok(());
                        }
                        depth -= 1;
                    }
                },
                Some(_) => {},
                None => {
                    return Err("unterminated GraphQL variable definition list".to_owned());
                },
            }
        }
    }

    pub fn expect_name(&mut self) -> (r: Result<String, String>)
        requires
            old(self).wf(),
        ensures
            result_view(r) == name_step(token_views(old(self).tokens@), old(self).index as int).0,
            final(self).at(
                *old(self),
                name_step(token_views(old(self).tokens@), old(self).index as int).1,
            ),
            final(self).index >= old(self).index,
            r is Ok ==> final(self).index == old(self).index + 1,
    {
        match self.next() {
            Some(GraphQlToken::Name(s)) => Ok(s),
            other => {
                let d = debug_of_token(other.as_ref());
                Err(cat2("expected GraphQL name, got ", d.as_str()))
            },
        }
    }

    pub fn expect_punct(&mut self, expected: char) -> (r: Result<(), String>)
        requires
            old(self).wf(),
        ensures
            unit_result(r) == punct_step(
                token_views(old(self).tokens@),
                old(self).index as int,
                expected,
            ).0,
            final(self).at(
                *old(self),
                punct_step(token_views(old(self).tokens@), old(self).index as int, expected).1,
            ),
    {
        if self.consume_punct(expected) {
            Ok(())
        } else {
            let d = debug_of_char(expected);
            Err(cat2("expected GraphQL punctuation ", d.as_str()))
        }
    }

    pub fn consume_name(&mut self, expected: &str) -> (r: bool)
        requires
            old(self).wf(),
        ensures
            r == (token_at(token_views(old(self).tokens@), old(self).index as int) == Some(
                TokenV::Name(expected@),
            )),
            final(self).at(
                *old(self),
                if r {
                    old(self).index + 1
                } else {
                    old(self).index as int
                },
            ),
    {
        if self.peek_name(expected) {
            assert(self.index < self.tokens.len());
            self.index += 1;
            true
        } else {
            false
        }
    }

    pub fn consume_punct(&mut self, expected: char) -> (r: bool)
        requires
            old(self).wf(),
        ensures
            r == (token_at(token_views(old(self).tokens@), old(self).index as int) == Some(
                TokenV::Punct(expected),
            )),
            final(self).at(
                *old(self),
                if r {
                    old(self).index + 1
                } else {
                    old(self).index as int
                },
            ),
    {
        let found = match self.peek() {
            Some(GraphQlToken::Punct(c)) => *c == expected,
            _ => false,
        };
        if found {
            assert(self.index < self.tokens.len());
            self.index += 1;
        }
        found
    }

    pub fn peek_name(&self, expected: &str) -> (r: bool)
        requires
            self.wf(),
        ensures
            r == (token_at(token_views(self.tokens@), self.index as int) == Some(
                TokenV::Name(expected@),
            )),
            r ==> self.index < self.tokens@.len(),
    {
        match self.peek() {
            Some(GraphQlToken::Name(s)) => same(s.as_str(), expected),
            _ => false,
        }
    }

    pub fn peek(&self) -> (r: Option<&GraphQlToken>)
        requires
            self.wf(),
        ensures
            match r {
                Some(x) => token_at(token_views(self.tokens@), self.index as int) == Some(x@)
                    && self.index < self.tokens@.len() && *x == self.tokens@[self.index as int],
                None => token_at(token_views(self.tokens@), self.index as int) is None
                    && self.index == self.tokens@.len(),
            },
    {
        if self.index < self.tokens.len() {
            Some(&self.tokens[self.index])
        } else {
            None
        }
    }

    pub fn next(&mut self) -> (r: Option<GraphQlToken>)
        requires
            old(self).wf(),
        ensures
            token_at(token_views(old(self).tokens@), old(self).index as int) == (match r {
                Some(x) => Some(x@),
                None => None,
            }),
            final(self).at(
                *old(self),
                after_token(token_views(old(self).tokens@), old(self).index as int),
            ),
            r is Some ==> final(self).index == old(self).index + 1,
            r is None ==> old(self).index == old(self).tokens@.len(),
    {
        if self.index < self.tokens.len() {
            let i = self.index;
            self.index = i + 1;
            Some(copy_token(&self.tokens[i]))
        } else {
            None
        }
    }
}

fn copy_token(t: &GraphQlToken) -> (r: GraphQlToken)
    ensures
        r@ == t@,
{
    match t {
        GraphQlToken::Name(s) => GraphQlToken::Name(s.clone()),
        GraphQlToken::Text(s) => GraphQlToken::Text(s.clone()),
        GraphQlToken::Int(n) => GraphQlToken::Int(*n),
        GraphQlToken::Dollar => GraphQlToken::Dollar,
        GraphQlToken::Punct(c) => GraphQlToken::Punct(*c),
    }
}

} // verus!
