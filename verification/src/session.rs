//! A session of the shell: what each command does to it, and what is then to be done.
use vstd::prelude::*;
use crate::calls::{either_path, CallV, RemoteCall};
use crate::config::{CachePolicy, OutputFormat};
use crate::context::{ContextV, MatrixContext};
use crate::json::{items_view, Json, JsonV};
use crate::queries::{
    compare_query_sql, compare_sql, components_query_sql, components_sql, fact_sql, fact_view_sql,
    tags_query_sql, tags_sql, versions_query_sql, versions_sql, FactView,
};
use crate::repl::{CommandV, ReplCommand};
use crate::repl_args::{
    compare_args, graph_args, kind_of, parse_compare_repl_args, parse_component_query_options,
    parse_repl_graph_args, parsed_options, repl_snippet_path, resolve_repl_snippet_path, rest_of,
    snippet_candidates, snippet_kind, snippet_path, GraphArgsV, ReplGraphArgs, SnippetKind,
};
use crate::request::{enc, url_encoded};
use crate::shell::{bare_statement, statement_of};
use crate::text::{
    cat2, cat3, cat4, cat5, char_count, copy_list, debug_of, debug_text, decimal, digits_of_usize,
    join, joined, opt_view, parse_unsigned, replace_char, replaced_char, same, to_usize, trim,
    trimmed, views,
};

verus! {

// ---------------------------------------------------------------------------
// The session
// ---------------------------------------------------------------------------
/// How results are shown.
#[derive(Clone, Copy, Debug, PartialEq, Eq, Structural)]
pub enum OutputMode {
    Human,
    Table,
    Json,
    Yaml,
    Csv,
}

pub open spec fn mode_of(output: OutputFormat) -> OutputMode {
    match output {
        OutputFormat::Json => OutputMode::Json,
        OutputFormat::Yaml => OutputMode::Yaml,
        OutputFormat::Csv => OutputMode::Csv,
        OutputFormat::Human => OutputMode::Human,
        OutputFormat::Table => OutputMode::Table,
    }
}

pub open spec fn mode_name(mode: OutputMode) -> Seq<char> {
    match mode {
        OutputMode::Human => "human"@,
        OutputMode::Table => "table"@,
        OutputMode::Json => "json"@,
        OutputMode::Yaml => "yaml"@,
        OutputMode::Csv => "csv"@,
    }
}

pub open spec fn mode_title(mode: OutputMode) -> Seq<char> {
    match mode {
        OutputMode::Human => "Human"@,
        OutputMode::Table => "Table"@,
        OutputMode::Json => "Json"@,
        OutputMode::Yaml => "Yaml"@,
        OutputMode::Csv => "Csv"@,
    }
}

impl OutputMode {
    pub fn name(self) -> (r: &'static str)
        ensures
            r@ == mode_name(self),
    {
        match self {
            OutputMode::Human => "human",
            OutputMode::Table => "table",
            OutputMode::Json => "json",
            OutputMode::Yaml => "yaml",
            OutputMode::Csv => "csv",
        }
    }

    fn title(self) -> (r: &'static str)
        ensures
            r@ == mode_title(self),
    {
        match self {
            OutputMode::Human => "Human",
            OutputMode::Table => "Table",
            OutputMode::Json => "Json",
            OutputMode::Yaml => "Yaml",
            OutputMode::Csv => "Csv",
        }
    }
}

/// A value that was listed for a field of the context.
#[derive(Debug)]
pub struct ContextChoice {
    pub field: String,
    pub value: String,
}

pub struct ChoiceV {
    pub field: Seq<char>,
    pub value: Seq<char>,
}

pub open spec fn choice_views(v: Seq<ContextChoice>) -> Seq<ChoiceV> {
    v.map_values(|c: ContextChoice| ChoiceV { field: c.field@, value: c.value@ })
}

/// What a session holds beside the loaded facts.
#[derive(Debug)]
pub struct ReplState {
    pub context: MatrixContext,
    pub choices: Vec<ContextChoice>,
    pub max_facts: usize,
    pub output_mode: OutputMode,
    pub expanded: bool,
    pub timing: bool,
}

pub struct StateV {
    pub context: ContextV,
    pub choices: Seq<ChoiceV>,
    pub max_facts: nat,
    pub output_mode: OutputMode,
    pub expanded: bool,
    pub timing: bool,
}

impl View for ReplState {
    type V = StateV;

    open spec fn view(&self) -> StateV {
        StateV {
            context: self.context@,
            choices: choice_views(self.choices@),
            max_facts: self.max_facts as nat,
            output_mode: self.output_mode,
            expanded: self.expanded,
            timing: self.timing,
        }
    }
}

// ---------------------------------------------------------------------------
// Actions
// ---------------------------------------------------------------------------
/// Why facts are loaded again.
#[derive(Clone, Copy, Debug, PartialEq, Eq, Structural)]
pub enum ReloadKind {
    Limit,
    Refresh,
    Offline,
}

/// What is to be done for a command.
#[derive(Debug)]
pub enum ReplAction {
    Stay,
    Quit,
    /// A line is shown.
    Say(String),
    Help,
    Examples,
    /// The context is detected again, the views are made anew and the context is shown.
    Detect,
    ShowContext,
    /// The views are made anew and the context is shown.
    Rebuild,
    Status,
    RunSql(String),
    /// The statement is run, and the values of a column become choices.
    Choose { field: String, sql: String },
    ReadSql(String),
    Get(Vec<String>),
    History(Vec<String>),
    Path { source: String, target: String, limit: usize },
    WorksWith { source: String, target: String, limit: usize },
    Why { source: String, target: String },
    Resolve(String),
    Schema,
    GraphQuery(ReplGraphArgs),
    Explain(ReplGraphArgs),
    Save { path: String, text: String },
    /// The first of the files that exists is read and run.
    Open { name: String, files: Vec<String>, args: Vec<String> },
    Snippets,
    Producers,
    Reload(ReloadKind),
    Remote(RemoteCall),
}

pub enum ActionV {
    Stay,
    Quit,
    Say(Seq<char>),
    Help,
    Examples,
    Detect,
    ShowContext,
    Rebuild,
    Status,
    RunSql(Seq<char>),
    Choose { field: Seq<char>, sql: Seq<char> },
    ReadSql(Seq<char>),
    Get(Seq<Seq<char>>),
    History(Seq<Seq<char>>),
    Path { source: Seq<char>, target: Seq<char>, limit: nat },
    WorksWith { source: Seq<char>, target: Seq<char>, limit: nat },
    Why { source: Seq<char>, target: Seq<char> },
    Resolve(Seq<char>),
    Schema,
    GraphQuery(GraphArgsV),
    Explain(GraphArgsV),
    Save { path: Seq<char>, text: Seq<char> },
    Open { name: Seq<char>, files: Seq<Seq<char>>, args: Seq<Seq<char>> },
    Snippets,
    Producers,
    Reload(ReloadKind),
    Remote(CallV),
}

impl View for ReplAction {
    type V = ActionV;

    open spec fn view(&self) -> ActionV {
        match self {
            ReplAction::Stay => ActionV::Stay,
            ReplAction::Quit => ActionV::Quit,
            ReplAction::Say(t) => ActionV::Say(t@),
            ReplAction::Help => ActionV::Help,
            ReplAction::Examples => ActionV::Examples,
            ReplAction::Detect => ActionV::Detect,
            ReplAction::ShowContext => ActionV::ShowContext,
            ReplAction::Rebuild => ActionV::Rebuild,
            ReplAction::Status => ActionV::Status,
            ReplAction::RunSql(t) => ActionV::RunSql(t@),
            ReplAction::Choose { field, sql } => ActionV::Choose { field: field@, sql: sql@ },
            ReplAction::ReadSql(t) => ActionV::ReadSql(t@),
            ReplAction::Get(a) => ActionV::Get(views(a@)),
            ReplAction::History(a) => ActionV::History(views(a@)),
            ReplAction::Path { source, target, limit } => ActionV::Path {
                source: source@,
                target: target@,
                limit: *limit as nat,
            },
            ReplAction::WorksWith { source, target, limit } => ActionV::WorksWith {
                source: source@,
                target: target@,
                limit: *limit as nat,
            },
            ReplAction::Why { source, target } => ActionV::Why {
                source: source@,
                target: target@,
            },
            ReplAction::Resolve(t) => ActionV::Resolve(t@),
            ReplAction::Schema => ActionV::Schema,
            ReplAction::GraphQuery(a) => ActionV::GraphQuery(a@),
            ReplAction::Explain(a) => ActionV::Explain(a@),
            ReplAction::Save { path, text } => ActionV::Save { path: path@, text: text@ },
            ReplAction::Open { name, files, args } => ActionV::Open {
                name: name@,
                files: views(files@),
                args: views(args@),
            },
            ReplAction::Snippets => ActionV::Snippets,
            ReplAction::Producers => ActionV::Producers,
            ReplAction::Reload(k) => ActionV::Reload(*k),
            ReplAction::Remote(c) => ActionV::Remote(c@),
        }
    }
}

/// The session after a command, and what is to be done.
pub struct StepV {
    pub state: StateV,
    pub action: ActionV,
}

pub open spec fn only(state: StateV, action: ActionV) -> Result<StepV, Seq<char>> {
    Ok(StepV { state, action })
}

// ---------------------------------------------------------------------------
// The context
// ---------------------------------------------------------------------------
/// The context with a field set: a value that is not blank, of a field that there is.
/// Another repository leaves the tag, the commit and the reference behind.
pub open spec fn with_field(context: ContextV, field: Seq<char>, given: Seq<char>) -> Result<
    ContextV,
    Seq<char>,
> {
    let value = trim(given);
    if value.len() == 0 {
        Err("usage: ."@ + field + " <value>"@)
    } else if field == "zone"@ {
        Ok(ContextV { zone: Some(value), ..context })
    } else if field == "repo"@ {
        Ok(ContextV { repo: Some(value), tag: None, sha: None, reference: None, ..context })
    } else if field == "component"@ {
        Ok(ContextV { component: Some(value), ..context })
    } else if field == "version"@ {
        Ok(ContextV { version: Some(value), ..context })
    } else if field == "tag"@ {
        Ok(ContextV { tag: Some(value), ..context })
    } else if field == "sha"@ {
        Ok(ContextV { sha: Some(value), ..context })
    } else if field == "ref"@ {
        Ok(ContextV { reference: Some(value), ..context })
    } else {
        Err("unknown context field "@ + debug_text(field))
    }
}

pub open spec fn without_field(context: ContextV, field: Seq<char>) -> Result<ContextV, Seq<char>> {
    if field == "zone"@ {
        Ok(ContextV { zone: None, ..context })
    } else if field == "repo"@ {
        Ok(ContextV { repo: None, ..context })
    } else if field == "component"@ {
        Ok(ContextV { component: None, ..context })
    } else if field == "version"@ {
        Ok(ContextV { version: None, ..context })
    } else if field == "tag"@ {
        Ok(ContextV { tag: None, ..context })
    } else if field == "sha"@ {
        Ok(ContextV { sha: None, ..context })
    } else if field == "ref"@ {
        Ok(ContextV { reference: None, ..context })
    } else {
        Err("unknown context field "@ + debug_text(field))
    }
}

pub open spec fn rebuilt(state: StateV, context: Result<ContextV, Seq<char>>) -> Result<
    StepV,
    Seq<char>,
> {
    match context {
        Ok(c) => only(StateV { context: c, ..state }, ActionV::Rebuild),
        Err(m) => Err(m),
    }
}

/// What a command on the context does.
pub open spec fn context_step(state: StateV, args: Seq<Seq<char>>) -> Result<StepV, Seq<char>> {
    if args.len() == 0 || (args.len() == 1 && args[0] == "show"@) {
        only(state, ActionV::ShowContext)
    } else if args.len() >= 2 && args[0] == "set"@ {
        rebuilt(state, with_field(state.context, args[1], join(args.skip(2), " "@)))
    } else if args.len() == 1 && args[0] == "auto"@ {
        only(state, ActionV::Detect)
    } else if args[0] == "clear"@ && (args.len() == 1 || (args.len() == 2 && args[1] == "all"@)) {
        only(StateV { context: ContextV::empty(), ..state }, ActionV::Rebuild)
    } else if args.len() == 2 && args[0] == "clear"@ {
        rebuilt(state, without_field(state.context, args[1]))
    } else {
        rebuilt(state, with_field(state.context, args[0], join(args.skip(1), " "@)))
    }
}

pub open spec fn no_pick(index: nat) -> Seq<char> {
    "pick "@ + decimal(index)
        + " is not available; run `.versions`, `.tags`, or `.components` first"@
}

/// What focusing on a choice, by its number or by a field and a value, does.
pub open spec fn use_step(state: StateV, args: Seq<Seq<char>>) -> Result<StepV, Seq<char>> {
    if args.len() == 1 && parse_unsigned(args[0], usize::MAX as int) is Some {
        let index = parse_unsigned(args[0], usize::MAX as int)->Some_0;
        let i = if index == 0 {
            0
        } else {
            index - 1
        };
        if i < state.choices.len() {
            rebuilt(
                state,
                with_field(state.context, state.choices[i].field, state.choices[i].value),
            )
        } else {
            Err(no_pick(index))
        }
    } else if args.len() >= 2 {
        rebuilt(state, with_field(state.context, args[0], join(args.skip(1), " "@)))
    } else {
        Err("usage: .use <pick> or .use <field> <value>"@)
    }
}

impl ReplState {
    /// A session with its context and how many facts it loads.
    pub fn new(context: MatrixContext, max_facts: usize, output: OutputFormat) -> (r: ReplState)
        ensures
            r@ == (StateV {
                context: context@,
                choices: Seq::empty(),
                max_facts: max_facts as nat,
                output_mode: mode_of(output),
                expanded: false,
                timing: false,
            }),
    {
        let choices: Vec<ContextChoice> = Vec::new();
        assert(choice_views(choices@) =~= Seq::empty());
        let output_mode = match output {
            OutputFormat::Json => OutputMode::Json,
            OutputFormat::Yaml => OutputMode::Yaml,
            OutputFormat::Csv => OutputMode::Csv,
            OutputFormat::Human => OutputMode::Human,
            OutputFormat::Table => OutputMode::Table,
        };
        ReplState { context, choices, max_facts, output_mode, expanded: false, timing: false }
    }

    pub fn set_context_field(&mut self, field: &str, value: &str) -> (r: Result<(), String>)
        ensures
            match with_field(old(self)@.context, field@, value@) {
                Ok(c) => r is Ok && final(self)@ == (StateV { context: c, ..old(self)@ }),
                Err(m) => (r matches Err(e) && e@ == m) && final(self)@ == old(self)@,
            },
    {
        let v = trimmed(value);
        if char_count(v.as_str()) == 0 {
            return Err(cat3("usage: .", field, " <value>"));
        }
        if same(field, "zone") {
            self.context.zone = Some(v);
        } else if same(field, "repo") {
            self.context.repo = Some(v);
            self.context.tag = None;
            self.context.sha = None;
            self.context.reference = None;
        } else if same(field, "component") {
            self.context.component = Some(v);
        } else if same(field, "version") {
            self.context.version = Some(v);
        } else if same(field, "tag") {
            self.context.tag = Some(v);
        } else if same(field, "sha") {
            self.context.sha = Some(v);
        } else if same(field, "ref") {
            self.context.reference = Some(v);
        } else {
            return Err(cat2("unknown context field ", debug_of(field).as_str()));
        }
        Ok(())
    }

    pub fn clear_context_field(&mut self, field: &str) -> (r: Result<(), String>)
        ensures
            match without_field(old(self)@.context, field@) {
                Ok(c) => r is Ok && final(self)@ == (StateV { context: c, ..old(self)@ }),
                Err(m) => (r matches Err(e) && e@ == m) && final(self)@ == old(self)@,
            },
    {
        if same(field, "zone") {
            self.context.zone = None;
        } else if same(field, "repo") {
            self.context.repo = None;
        } else if same(field, "component") {
            self.context.component = None;
        } else if same(field, "version") {
            self.context.version = None;
        } else if same(field, "tag") {
            self.context.tag = None;
        } else if same(field, "sha") {
            self.context.sha = None;
        } else if same(field, "ref") {
            self.context.reference = None;
        } else {
            return Err(cat2("unknown context field ", debug_of(field).as_str()));
        }
        Ok(())
    }

    fn set_and_rebuild(&mut self, field: &str, value: &str) -> (r: Result<ReplAction, String>)
        ensures
            match rebuilt(old(self)@, with_field(old(self)@.context, field@, value@)) {
                Ok(s) => (r matches Ok(a) && a@ == s.action) && final(self)@ == s.state,
                Err(m) => (r matches Err(e) && e@ == m) && final(self)@ == old(self)@,
            },
    {
        match self.set_context_field(field, value) {
            Ok(()) => Ok(ReplAction::Rebuild),
            Err(m) => Err(m),
        }
    }

    pub fn handle_context_command(&mut self, args: &Vec<String>) -> (r: Result<ReplAction, String>)
        ensures
            match context_step(old(self)@, views(args@)) {
                Ok(s) => (r matches Ok(a) && a@ == s.action) && final(self)@ == s.state,
                Err(m) => (r matches Err(e) && e@ == m) && final(self)@ == old(self)@,
            },
    {
        let n = args.len();
        let ghost av = views(args@);
        assert(av.len() == n);
        if n == 0 {
            return Ok(ReplAction::ShowContext);
        }
        assert(av[0] == args@[0]@);
        let first = args[0].as_str();
        if n == 1 && same(first, "show") {
            return Ok(ReplAction::ShowContext);
        }
        if n >= 2 && same(first, "set") {
            assert(av[1] == args@[1]@);
            let rest = rest_of(args, 2);
            return self.set_and_rebuild(args[1].as_str(), joined(rest.as_slice(), " ").as_str());
        }
        if n == 1 && same(first, "auto") {
            return Ok(ReplAction::Detect);
        }
        if same(first, "clear") {
            assert(n >= 2 ==> av[1] == args@[1]@);
            if n == 1 || (n == 2 && same(args[1].as_str(), "all")) {
                self.context = MatrixContext::empty();
                return Ok(ReplAction::Rebuild);
            }
            if n == 2 {
                return match self.clear_context_field(args[1].as_str()) {
                    Ok(()) => Ok(ReplAction::Rebuild),
                    Err(m) => Err(m),
                };
            }
        }
        let rest = rest_of(args, 1);
        self.set_and_rebuild(first, joined(rest.as_slice(), " ").as_str())
    }

    pub fn use_context_choice(&mut self, args: &Vec<String>) -> (r: Result<ReplAction, String>)
        ensures
            match use_step(old(self)@, views(args@)) {
                Ok(s) => (r matches Ok(a) && a@ == s.action) && final(self)@ == s.state,
                Err(m) => (r matches Err(e) && e@ == m) && final(self)@ == old(self)@,
            },
    {
        let n = args.len();
        let ghost av = views(args@);
        assert(av.len() == n);
        if n == 1 {
            assert(av[0] == args@[0]@);
            match to_usize(args[0].as_str()) {
                Some(index) => {
                    let i: usize = if index == 0 {
                        0
                    } else {
                        index - 1
                    };
                    if i < self.choices.len() {
                        assert(self@.choices[i as int].field == self.choices@[i as int].field@);
                        let field = self.choices[i].field.clone();
                        let value = self.choices[i].value.clone();
                        return self.set_and_rebuild(field.as_str(), value.as_str());
                    }
                    return Err(
                        cat3(
                            "pick ",
                            digits_of_usize(index).as_str(),
                            " is not available; run `.versions`, `.tags`, or `.components` first",
                        ),
                    );
                },
                None => {},
            }
        }
        if n >= 2 {
            assert(av[0] == args@[0]@);
            let rest = rest_of(args, 1);
            return self.set_and_rebuild(
                args[0].as_str(),
                joined(rest.as_slice(), " ").as_str(),
            );
        }
        Err("usage: .use <pick> or .use <field> <value>".to_owned())
    }
}

// ---------------------------------------------------------------------------
// Choices
// ---------------------------------------------------------------------------
/// The values of a column in the first `n` rows.
pub open spec fn choices_of(rows: Seq<JsonV>, field: Seq<char>, n: int) -> Seq<ChoiceV>
    decreases n,
{
    if n <= 0 {
        Seq::empty()
    } else {
        match rows[n - 1].text_at(field) {
            Some(value) => choices_of(rows, field, n - 1).push(ChoiceV { field, value }),
            None => choices_of(rows, field, n - 1),
        }
    }
}

impl ReplState {
    /// Keeps what a query listed as choices, and says how to pick one where there is
    /// one.
    pub fn keep_choices(&mut self, field: &str, result: &Json) -> (r: Option<String>)
        ensures
            ({
                let rows = result@.items_at("rows"@);
                let choices = choices_of(rows, field@, rows.len() as int);
                &&& final(self)@ == (StateV { choices, ..old(self)@ })
                &&& opt_view(r) == (if choices.len() > 0 {
                    Some("Use `.use <pick>` to focus one of these "@ + field@ + " values."@)
                } else {
                    None
                })
            }),
    {
        let rows = result.items_at("rows");
        let ghost rv = items_view(rows@);
        let mut choices: Vec<ContextChoice> = Vec::new();
        let mut i: usize = 0;
        assert(choice_views(choices@) =~= Seq::empty());
        while i < rows.len()
            invariant
                i <= rows@.len(),
                rv == items_view(rows@),
                choice_views(choices@) == choices_of(rv, field@, i as int),
            decreases rows@.len() - i,
        {
            assert(rv[i as int] == rows@[i as int]@);
            match rows[i].text_at(field) {
                Some(value) => {
                    let ghost before = choice_views(choices@);
                    let ghost next = ChoiceV { field: field@, value: value@ };
                    choices.push(ContextChoice { field: field.to_owned(), value });
                    assert(choice_views(choices@) =~= before.push(next));
                },
                None => {},
            }
            i += 1;
        }
        let any = choices.len() > 0;
        assert(choice_views(choices@).len() == choices@.len());
        self.choices = choices;
        if any {
            Some(cat3("Use `.use <pick>` to focus one of these ", field, " values."))
        } else {
            None
        }
    }
}

// ---------------------------------------------------------------------------
// Commands
// ---------------------------------------------------------------------------
/// A text inside single quotes.
pub open spec fn in_quotes(s: Seq<char>) -> Seq<char> {
    replace_char(s, '\'', "''"@)
}

pub open spec fn tables_sql() -> Seq<char> {
    "select name, type from sqlite_master where type in ('table', 'view') order by type, name"@
}

pub open spec fn schema_sql(args: Seq<Seq<char>>) -> Seq<char> {
    if args.len() > 0 {
        "select sql from sqlite_master where name = '"@ + in_quotes(args[0]) + "'"@
    } else {
        "select name, type, sql from sqlite_master where sql is not null order by type, name"@
    }
}

pub open spec fn describe_sql(args: Seq<Seq<char>>) -> Seq<char> {
    "select * from pragma_table_info('"@ + in_quotes(
        if args.len() > 0 {
            args[0]
        } else {
            "facts"@
        },
    ) + "')"@
}

pub open spec fn trace_sql(subject: Seq<char>) -> Seq<char> {
    "select id, zone, kind, status, subject_name, observed_at from facts where subject_name = '"@
        + in_quotes(subject) + "' order by observed_at desc"@
}

/// Two components and how many paths between them, where arguments give them.
pub open spec fn pair_of(args: Seq<Seq<char>>) -> Option<nat> {
    if args.len() == 2 {
        Some(5)
    } else if args.len() == 4 && args[2] == "--limit"@ {
        Some(
            match parse_unsigned(args[3], usize::MAX as int) {
                Some(n) => if n < 1 {
                    1
                } else {
                    n
                },
                None => 5,
            },
        )
    } else {
        None
    }
}

fn pair_limit(args: &Vec<String>) -> (r: Option<usize>)
    ensures
        match pair_of(views(args@)) {
            Some(n) => r matches Some(x) && x == n,
            None => r is None,
        },
        r is Some ==> args@.len() >= 2,
{
    let n = args.len();
    let ghost av = views(args@);
    assert(av.len() == n);
    if n == 2 {
        return Some(5);
    }
    if n == 4 {
        assert(av[2] == args@[2]@ && av[3] == args@[3]@);
        if same(args[2].as_str(), "--limit") {
            return match to_usize(args[3].as_str()) {
                Some(x) => if x < 1 {
                    Some(1)
                } else {
                    Some(x)
                },
                None => Some(5),
            };
        }
    }
    None
}

pub open spec fn gate_call(zone: Seq<char>, level: Seq<char>) -> CallV {
    either_path(
        "/zones/"@ + url_encoded(zone) + "/gates/"@ + url_encoded(level),
        "/tracks/"@ + url_encoded(zone) + "/promotion-gates/"@ + url_encoded(level),
    )
}

pub open spec fn on_off(b: bool) -> Seq<char> {
    if b {
        "on"@
    } else {
        "off"@
    }
}

fn on_or_off(b: bool) -> (r: &'static str)
    ensures
        r@ == on_off(b),
{
    if b {
        "on"
    } else {
        "off"
    }
}

/// The mode that a word names.
pub open spec fn mode_named(word: Seq<char>) -> Option<OutputMode> {
    if word == "human"@ {
        Some(OutputMode::Human)
    } else if word == "table"@ || word == "aligned"@ {
        Some(OutputMode::Table)
    } else if word == "json"@ {
        Some(OutputMode::Json)
    } else if word == "yaml"@ || word == "yml"@ {
        Some(OutputMode::Yaml)
    } else if word == "csv"@ {
        Some(OutputMode::Csv)
    } else {
        None
    }
}

fn named_mode(word: &str) -> (r: Option<OutputMode>)
    ensures
        r == mode_named(word@),
{
    if same(word, "human") {
        Some(OutputMode::Human)
    } else if same(word, "table") || same(word, "aligned") {
        Some(OutputMode::Table)
    } else if same(word, "json") {
        Some(OutputMode::Json)
    } else if same(word, "yaml") || same(word, "yml") {
        Some(OutputMode::Yaml)
    } else if same(word, "csv") {
        Some(OutputMode::Csv)
    } else {
        None
    }
}

pub open spec fn mode_step(state: StateV, args: Seq<Seq<char>>) -> StepV {
    if args.len() == 0 {
        StepV { state, action: ActionV::Say("Output mode: "@ + mode_title(state.output_mode)) }
    } else {
        match mode_named(args[0]) {
            Some(m) => StepV {
                state: StateV { output_mode: m, ..state },
                action: ActionV::Say("Output mode: "@ + mode_name(m)),
            },
            None => StepV {
                state,
                action: ActionV::Say(
                    "Unknown mode "@ + debug_text(args[0])
                        + "; expected human, table, json, yaml, or csv."@,
                ),
            },
        }
    }
}

pub open spec fn limit_step(state: StateV, args: Seq<Seq<char>>) -> StepV {
    let given = if args.len() > 0 {
        parse_unsigned(args[0], usize::MAX as int)
    } else {
        None
    };
    match given {
        Some(n) => if n > 0 {
            StepV {
                state: StateV { max_facts: n, ..state },
                action: ActionV::Reload(ReloadKind::Limit),
            }
        } else {
            StepV { state, action: ActionV::Say("Usage: .limit 2000"@) }
        },
        None => StepV { state, action: ActionV::Say("Usage: .limit 2000"@) },
    }
}

/// What graph queries, and their explanations, ask for.
pub open spec fn graph_step(state: StateV, args: Seq<Seq<char>>) -> Result<StepV, Seq<char>> {
    match graph_args(args) {
        Err(m) => Err(m),
        Ok(a) => if a.schema {
            only(state, ActionV::Schema)
        } else if a.query is None && a.file is None {
            only(
                state,
                ActionV::Say(
                    "Usage: .graphql [--var name=value] [--limit N] <query> or .graphql -f <query.graphql>"@,
                ),
            )
        } else {
            only(state, ActionV::GraphQuery(a))
        },
    }
}

pub open spec fn explain_step(state: StateV, args: Seq<Seq<char>>) -> Result<StepV, Seq<char>> {
    if args.len() > 0 && (args[0] == "graph"@ || args[0] == "graphql"@) {
        match graph_args(args.skip(1)) {
            Err(m) => Err(m),
            Ok(a) => if a.query is None && a.file is None {
                only(
                    state,
                    ActionV::Say("Usage: .explain graph [--var name=value] <query>"@),
                )
            } else {
                only(state, ActionV::Explain(a))
            },
        }
    } else if args.len() == 0 {
        only(
            state,
            ActionV::Say("Usage: .explain select ... or .explain graph <query>"@),
        )
    } else {
        only(state, ActionV::RunSql("explain query plan "@ + join(args, " "@)))
    }
}

pub open spec fn save_step(state: StateV, args: Seq<Seq<char>>, dir: Seq<char>) -> Result<
    StepV,
    Seq<char>,
> {
    if args.len() < 2 {
        only(state, ActionV::Say("Usage: .save <name> <sql-or-graph-query>"@))
    } else {
        let query = join(args.skip(1), " "@);
        match snippet_path(dir, args[0], Some(query)) {
            Ok(path) => only(state, ActionV::Save { path, text: trim(query) }),
            Err(m) => Err(m),
        }
    }
}

pub open spec fn open_step(state: StateV, args: Seq<Seq<char>>, dir: Seq<char>) -> Result<
    StepV,
    Seq<char>,
> {
    if args.len() == 0 {
        only(state, ActionV::Say("Usage: .open <name> [--var name=value] [--limit N]"@))
    } else {
        match snippet_candidates(dir, args[0]) {
            Ok(files) => only(
                state,
                ActionV::Open { name: args[0], files, args: args.skip(1) },
            ),
            Err(m) => Err(m),
        }
    }
}

pub open spec fn components_usage() -> Seq<char> {
    "usage: .components [--all] [--type <type>] [--include-applications] [--include-dependencies]"@
}

pub open spec fn components_step(state: StateV, args: Seq<Seq<char>>, zone: Option<Seq<char>>) -> Result<
    StepV,
    Seq<char>,
> {
    match parsed_options(args) {
        Err(m) => Err(m),
        Ok(p) => if p.rest.len() > 0 {
            Err(components_usage())
        } else {
            only(
                state,
                ActionV::Choose {
                    field: "component"@,
                    sql: components_sql(state.context, zone, p.options, 50),
                },
            )
        },
    }
}

pub open spec fn versions_step(state: StateV, args: Seq<Seq<char>>, zone: Option<Seq<char>>) -> Result<
    StepV,
    Seq<char>,
> {
    match parsed_options(args) {
        Err(m) => Err(m),
        Ok(p) => only(
            state,
            ActionV::Choose {
                field: "version"@,
                sql: versions_sql(
                    state.context,
                    zone,
                    if p.rest.len() > 0 {
                        Some(join(p.rest, " "@))
                    } else {
                        None
                    },
                    p.options,
                    50,
                ),
            },
        ),
    }
}

pub open spec fn compare_step(state: StateV, args: Seq<Seq<char>>) -> Result<StepV, Seq<char>> {
    if args.len() == 0 {
        only(
            state,
            ActionV::Say(
                "Usage: .compare <component|repo|subject> [--target-version <version>]"@,
            ),
        )
    } else {
        match compare_args(args) {
            Ok((target, version)) => only(
                state,
                ActionV::RunSql(compare_sql(target, version, 50)),
            ),
            Err(m) => Err(m),
        }
    }
}

/// A text that a command needs: without one, its usage is shown.
pub open spec fn needing(state: StateV, text: Seq<char>, usage: Seq<char>, action: ActionV) -> Result<
    StepV,
    Seq<char>,
> {
    only(
        state,
        if text.len() == 0 {
            ActionV::Say(usage)
        } else {
            action
        },
    )
}

/// What a command does to a session, given the zone that the views show and the
/// directory of saved queries.
pub open spec fn step(
    state: StateV,
    command: CommandV,
    zone: Option<Seq<char>>,
    dir: Seq<char>,
) -> Result<StepV, Seq<char>> {
    match command {
        CommandV::Nothing => only(state, ActionV::Stay),
        CommandV::Quit => only(state, ActionV::Quit),
        CommandV::Reset => rebuilt(state, Ok(ContextV::empty())),
        CommandV::Help => only(state, ActionV::Help),
        CommandV::Context(args) => context_step(state, args),
        CommandV::SetField { field, value } => rebuilt(
            state,
            with_field(state.context, field, value),
        ),
        CommandV::Components(args) => components_step(state, args, zone),
        CommandV::Versions(args) => versions_step(state, args, zone),
        CommandV::Tags => only(
            state,
            ActionV::Choose { field: "tag"@, sql: tags_sql(state.context, zone, 50) },
        ),
        CommandV::Use(args) => use_step(state, args),
        CommandV::Status => only(state, ActionV::Status),
        CommandV::Read(path) => needing(
            state,
            path,
            "Usage: .read <query.sql>"@,
            ActionV::ReadSql(path),
        ),
        CommandV::Tables => only(state, ActionV::RunSql(tables_sql())),
        CommandV::Schema(args) => only(state, ActionV::RunSql(schema_sql(args))),
        CommandV::Deref(id) => needing(
            state,
            id,
            "Usage: .deref <fact-id>"@,
            ActionV::RunSql(fact_sql(id, FactView::Deref)),
        ),
        CommandV::Members(id) => needing(
            state,
            id,
            "Usage: .members <fact-id>"@,
            ActionV::RunSql(fact_sql(id, FactView::Members)),
        ),
        CommandV::Get(args) => only(
            state,
            if args.len() == 0 {
                ActionV::Say(
                    "Usage: .get <fact-id> [--revision N|--relative N|--event ID|--as-of DATE]"@,
                )
            } else {
                ActionV::Get(args)
            },
        ),
        CommandV::History { name, args } => only(
            state,
            if args.len() == 0 {
                ActionV::Say("Usage: ."@ + name + " <fact-id>"@)
            } else {
                ActionV::History(args)
            },
        ),
        CommandV::Compare(args) => compare_step(state, args),
        CommandV::Path(args) => only(
            state,
            match pair_of(args) {
                Some(limit) => ActionV::Path { source: args[0], target: args[1], limit },
                None => ActionV::Say(
                    "Usage: .path <from-component> <to-component> [--limit N]"@,
                ),
            },
        ),
        CommandV::WorksWith(args) => only(
            state,
            match pair_of(args) {
                Some(limit) => ActionV::WorksWith { source: args[0], target: args[1], limit },
                None => ActionV::Say(
                    "Usage: .works-with <component-a> <component-b> [--limit N]"@,
                ),
            },
        ),
        CommandV::Why(args) => only(
            state,
            if args.len() == 2 {
                ActionV::Why { source: args[0], target: args[1] }
            } else {
                ActionV::Say("Usage: .why <component-a> <component-b>"@)
            },
        ),
        CommandV::Resolve(name) => needing(
            state,
            name,
            "Usage: .resolve <component|repo|package|identity>"@,
            ActionV::Resolve(name),
        ),
        CommandV::Graph(args) => graph_step(state, args),
        CommandV::Save(args) => save_step(state, args, dir),
        CommandV::Open(args) => open_step(state, args, dir),
        CommandV::Snippets => only(state, ActionV::Snippets),
        CommandV::Producers => only(state, ActionV::Producers),
        CommandV::Examples => only(state, ActionV::Examples),
        CommandV::Describe(args) => only(state, ActionV::RunSql(describe_sql(args))),
        CommandV::Mode(args) => Ok(mode_step(state, args)),
        CommandV::Expanded => only(
            StateV { expanded: !state.expanded, ..state },
            ActionV::Say("Expanded output: "@ + on_off(!state.expanded)),
        ),
        CommandV::Timing => only(
            StateV { timing: !state.timing, ..state },
            ActionV::Say("Timing: "@ + on_off(!state.timing)),
        ),
        CommandV::Limit(args) => Ok(limit_step(state, args)),
        CommandV::Refresh => only(state, ActionV::Reload(ReloadKind::Refresh)),
        CommandV::Offline => only(state, ActionV::Reload(ReloadKind::Offline)),
        CommandV::Zones => only(state, ActionV::RunSql("select * from zones order by zone"@)),
        CommandV::Subjects => only(
            state,
            ActionV::RunSql("select * from subjects order by component"@),
        ),
        CommandV::Trace(subject) => needing(
            state,
            subject,
            "Usage: .trace <subject-name>"@,
            ActionV::RunSql(trace_sql(subject)),
        ),
        CommandV::Gate(args) => only(
            state,
            if args.len() > 0 {
                ActionV::Remote(
                    gate_call(
                        args[0],
                        if args.len() > 1 {
                            args[1]
                        } else {
                            "preview"@
                        },
                    ),
                )
            } else {
                ActionV::Say("Usage: .gate <zone> [level]"@)
            },
        ),
        CommandV::Explain(args) => explain_step(state, args),
        CommandV::Unknown(name) => only(
            state,
            ActionV::Say("Unknown command "@ + debug_text(name) + ". Try `.help`."@),
        ),
    }
}

fn say(text: &str) -> (r: ReplAction)
    ensures
        r@ == ActionV::Say(text@),
{
    ReplAction::Say(text.to_owned())
}

fn quoted(s: &str) -> (r: String)
    ensures
        r@ == in_quotes(s@),
{
    replaced_char(s, '\'', "''")
}

impl ReplState {
    fn list_components(&self, args: &Vec<String>, zone: &Option<String>) -> (r: Result<
        ReplAction,
        String,
    >)
        ensures
            match components_step(self@, views(args@), opt_view(*zone)) {
                Ok(s) => (r matches Ok(a) && a@ == s.action) && self@ == s.state,
                Err(m) => r matches Err(e) && e@ == m,
            },
    {
        match parse_component_query_options(args) {
            Err(m) => Err(m),
            Ok((options, rest)) => {
                assert(views(rest@).len() == rest@.len());
                if rest.len() > 0 {
                    return Err(
                        "usage: .components [--all] [--type <type>] [--include-applications] [--include-dependencies]".to_owned(),
                    );
                }
                Ok(
                    ReplAction::Choose {
                        field: "component".to_owned(),
                        sql: components_query_sql(&self.context, zone, &options, 50),
                    },
                )
            },
        }
    }

    fn list_versions(&self, args: &Vec<String>, zone: &Option<String>) -> (r: Result<
        ReplAction,
        String,
    >)
        ensures
            match versions_step(self@, views(args@), opt_view(*zone)) {
                Ok(s) => (r matches Ok(a) && a@ == s.action) && self@ == s.state,
                Err(m) => r matches Err(e) && e@ == m,
            },
    {
        match parse_component_query_options(args) {
            Err(m) => Err(m),
            Ok((options, rest)) => {
                assert(views(rest@).len() == rest@.len());
                let component = if rest.len() > 0 {
                    Some(joined(rest.as_slice(), " "))
                } else {
                    None
                };
                Ok(
                    ReplAction::Choose {
                        field: "version".to_owned(),
                        sql: versions_query_sql(&self.context, zone, &component, &options, 50),
                    },
                )
            },
        }
    }

    fn compare(&self, args: &Vec<String>) -> (r: Result<ReplAction, String>)
        ensures
            match compare_step(self@, views(args@)) {
                Ok(s) => (r matches Ok(a) && a@ == s.action) && self@ == s.state,
                Err(m) => r matches Err(e) && e@ == m,
            },
    {
        assert(views(args@).len() == args@.len());
        if args.len() == 0 {
            return Ok(
                say("Usage: .compare <component|repo|subject> [--target-version <version>]"),
            );
        }
        match parse_compare_repl_args(args) {
            Ok((target, version)) => Ok(
                ReplAction::RunSql(compare_query_sql(target.as_str(), &version, 50)),
            ),
            Err(m) => Err(m),
        }
    }

    fn graph_query(&self, args: &Vec<String>) -> (r: Result<ReplAction, String>)
        ensures
            match graph_step(self@, views(args@)) {
                Ok(s) => (r matches Ok(a) && a@ == s.action) && self@ == s.state,
                Err(m) => r matches Err(e) && e@ == m,
            },
    {
        match parse_repl_graph_args(args) {
            Err(m) => Err(m),
            Ok(a) => if a.schema {
                Ok(ReplAction::Schema)
            } else if a.query.is_none() && a.file.is_none() {
                Ok(
                    say(
                        "Usage: .graphql [--var name=value] [--limit N] <query> or .graphql -f <query.graphql>",
                    ),
                )
            } else {
                Ok(ReplAction::GraphQuery(a))
            },
        }
    }

    fn explain(&self, args: &Vec<String>) -> (r: Result<ReplAction, String>)
        ensures
            match explain_step(self@, views(args@)) {
                Ok(s) => (r matches Ok(a) && a@ == s.action) && self@ == s.state,
                Err(m) => r matches Err(e) && e@ == m,
            },
    {
        let ghost av = views(args@);
        assert(av.len() == args@.len());
        if args.len() == 0 {
            return Ok(say("Usage: .explain select ... or .explain graph <query>"));
        }
        assert(av[0] == args@[0]@);
        if same(args[0].as_str(), "graph") || same(args[0].as_str(), "graphql") {
            let rest = rest_of(args, 1);
            return match parse_repl_graph_args(&rest) {
                Err(m) => Err(m),
                Ok(a) => if a.query.is_none() && a.file.is_none() {
                    Ok(say("Usage: .explain graph [--var name=value] <query>"))
                } else {
                    Ok(ReplAction::Explain(a))
                },
            };
        }
        Ok(
            ReplAction::RunSql(
                cat2("explain query plan ", joined(args.as_slice(), " ").as_str()),
            ),
        )
    }

    fn save(&self, args: &Vec<String>, dir: &str) -> (r: Result<ReplAction, String>)
        ensures
            match save_step(self@, views(args@), dir@) {
                Ok(s) => (r matches Ok(a) && a@ == s.action) && self@ == s.state,
                Err(m) => r matches Err(e) && e@ == m,
            },
    {
        let ghost av = views(args@);
        assert(av.len() == args@.len());
        if args.len() < 2 {
            return Ok(say("Usage: .save <name> <sql-or-graph-query>"));
        }
        assert(av[0] == args@[0]@);
        let rest = rest_of(args, 1);
        let query = joined(rest.as_slice(), " ");
        match repl_snippet_path(dir, args[0].as_str(), Some(query.as_str())) {
            Ok(path) => Ok(ReplAction::Save { path, text: trimmed(query.as_str()) }),
            Err(m) => Err(m),
        }
    }

    fn open(&self, args: &Vec<String>, dir: &str) -> (r: Result<ReplAction, String>)
        ensures
            match open_step(self@, views(args@), dir@) {
                Ok(s) => (r matches Ok(a) && a@ == s.action) && self@ == s.state,
                Err(m) => r matches Err(e) && e@ == m,
            },
    {
        let ghost av = views(args@);
        assert(av.len() == args@.len());
        if args.len() == 0 {
            return Ok(say("Usage: .open <name> [--var name=value] [--limit N]"));
        }
        assert(av[0] == args@[0]@);
        match resolve_repl_snippet_path(dir, args[0].as_str()) {
            Ok(files) => Ok(
                ReplAction::Open { name: args[0].clone(), files, args: rest_of(args, 1) },
            ),
            Err(m) => Err(m),
        }
    }

    fn set_mode(&mut self, args: &Vec<String>) -> (r: ReplAction)
        ensures
            r@ == mode_step(old(self)@, views(args@)).action,
            final(self)@ == mode_step(old(self)@, views(args@)).state,
    {
        let ghost av = views(args@);
        assert(av.len() == args@.len());
        if args.len() == 0 {
            return ReplAction::Say(cat2("Output mode: ", self.output_mode.title()));
        }
        assert(av[0] == args@[0]@);
        match named_mode(args[0].as_str()) {
            Some(m) => {
                self.output_mode = m;
                ReplAction::Say(cat2("Output mode: ", m.name()))
            },
            None => ReplAction::Say(
                cat3(
                    "Unknown mode ",
                    debug_of(args[0].as_str()).as_str(),
                    "; expected human, table, json, yaml, or csv.",
                ),
            ),
        }
    }

    fn set_limit(&mut self, args: &Vec<String>) -> (r: ReplAction)
        ensures
            r@ == limit_step(old(self)@, views(args@)).action,
            final(self)@ == limit_step(old(self)@, views(args@)).state,
    {
        let ghost av = views(args@);
        assert(av.len() == args@.len());
        if args.len() > 0 {
            assert(av[0] == args@[0]@);
            match to_usize(args[0].as_str()) {
                Some(n) => {
                    if n > 0 {
                        self.max_facts = n;
                        return ReplAction::Reload(ReloadKind::Limit);
                    }
                },
                None => {},
            }
        }
        say("Usage: .limit 2000")
    }

    /// What the commands that run a statement ask for.
    fn query_action(&self, command: &ReplCommand, zone: &Option<String>, snippet_dir: &str) -> (r: Result<
        ReplAction,
        String,
    >)
        requires
            command is Components
                || command is Versions
                || command is Tags
                || command is Read
                || command is Tables
                || command is Schema
                || command is Deref
                || command is Members
                || command is Compare
                || command is Describe
                || command is Zones
                || command is Subjects
                || command is Trace
                || command is Explain,
        ensures
            match step(self@, command@, opt_view(*zone), snippet_dir@) {
                Ok(s) => (r matches Ok(a) && a@ == s.action) && self@ == s.state,
                Err(m) => r matches Err(e) && e@ == m,
            },
    {
        match command {
            ReplCommand::Components(args) => self.list_components(args, zone),
            ReplCommand::Versions(args) => self.list_versions(args, zone),
            ReplCommand::Tags => Ok(
                ReplAction::Choose {
                    field: "tag".to_owned(),
                    sql: tags_query_sql(&self.context, zone, 50),
                },
            ),
            ReplCommand::Read(path) => if char_count(path.as_str()) == 0 {
                Ok(say("Usage: .read <query.sql>"))
            } else {
                Ok(ReplAction::ReadSql(path.clone()))
            },
            ReplCommand::Tables => Ok(
                ReplAction::RunSql(
                    "select name, type from sqlite_master where type in ('table', 'view') order by type, name".to_owned(),
                ),
            ),
            ReplCommand::Schema(args) => {
                assert(views(args@).len() == args@.len());
                if args.len() > 0 {
                    assert(views(args@)[0] == args@[0]@);
                    Ok(
                        ReplAction::RunSql(
                            cat3(
                                "select sql from sqlite_master where name = '",
                                quoted(args[0].as_str()).as_str(),
                                "'",
                            ),
                        ),
                    )
                } else {
                    Ok(
                        ReplAction::RunSql(
                            "select name, type, sql from sqlite_master where sql is not null order by type, name".to_owned(),
                        ),
                    )
                }
            },
            ReplCommand::Deref(id) => if char_count(id.as_str()) == 0 {
                Ok(say("Usage: .deref <fact-id>"))
            } else {
                Ok(ReplAction::RunSql(fact_view_sql(id.as_str(), FactView::Deref)))
            },
            ReplCommand::Members(id) => if char_count(id.as_str()) == 0 {
                Ok(say("Usage: .members <fact-id>"))
            } else {
                Ok(ReplAction::RunSql(fact_view_sql(id.as_str(), FactView::Members)))
            },
            ReplCommand::Compare(args) => self.compare(args),
            ReplCommand::Describe(args) => {
                assert(views(args@).len() == args@.len());
                let table = if args.len() > 0 {
                    assert(views(args@)[0] == args@[0]@);
                    quoted(args[0].as_str())
                } else {
                    quoted("facts")
                };
                Ok(
                    ReplAction::RunSql(
                        cat3("select * from pragma_table_info('", table.as_str(), "')"),
                    ),
                )
            },
            ReplCommand::Zones => Ok(
                ReplAction::RunSql("select * from zones order by zone".to_owned()),
            ),
            ReplCommand::Subjects => Ok(
                ReplAction::RunSql("select * from subjects order by component".to_owned()),
            ),
            ReplCommand::Trace(subject) => if char_count(subject.as_str()) == 0 {
                Ok(say("Usage: .trace <subject-name>"))
            } else {
                Ok(
                    ReplAction::RunSql(
                        cat3(
                            "select id, zone, kind, status, subject_name, observed_at from facts where subject_name = '",
                            quoted(subject.as_str()).as_str(),
                            "' order by observed_at desc",
                        ),
                    ),
                )
            },
            ReplCommand::Explain(args) => self.explain(args),
            _ => Ok(ReplAction::Stay),
        }
    }

    /// What the commands that leave the session as it is ask for.
    fn other_action(&self, command: &ReplCommand, zone: &Option<String>, snippet_dir: &str) -> (r: Result<
        ReplAction,
        String,
    >)
        requires
            command is Nothing
                || command is Quit
                || command is Help
                || command is Status
                || command is Get
                || command is History
                || command is Path
                || command is WorksWith
                || command is Why
                || command is Resolve
                || command is Graph
                || command is Save
                || command is Open
                || command is Snippets
                || command is Producers
                || command is Examples
                || command is Refresh
                || command is Offline
                || command is Gate
                || command is Unknown,
        ensures
            match step(self@, command@, opt_view(*zone), snippet_dir@) {
                Ok(s) => (r matches Ok(a) && a@ == s.action) && self@ == s.state,
                Err(m) => r matches Err(e) && e@ == m,
            },
    {
        match command {
            ReplCommand::Nothing => Ok(ReplAction::Stay),
            ReplCommand::Quit => Ok(ReplAction::Quit),
            ReplCommand::Help => Ok(ReplAction::Help),
            ReplCommand::Status => Ok(ReplAction::Status),
            ReplCommand::Get(args) => {
                assert(views(args@).len() == args@.len());
                if args.len() == 0 {
                    Ok(
                        say(
                            "Usage: .get <fact-id> [--revision N|--relative N|--event ID|--as-of DATE]",
                        ),
                    )
                } else {
                    Ok(ReplAction::Get(copy_list(args)))
                }
            },
            ReplCommand::History { name, args } => {
                assert(views(args@).len() == args@.len());
                if args.len() == 0 {
                    Ok(ReplAction::Say(cat3("Usage: .", name.as_str(), " <fact-id>")))
                } else {
                    Ok(ReplAction::History(copy_list(args)))
                }
            },
            ReplCommand::Path(args) => match pair_limit(args) {
                Some(limit) => {
                    assert(views(args@)[0] == args@[0]@ && views(args@)[1] == args@[1]@);
                    Ok(
                        ReplAction::Path {
                            source: args[0].clone(),
                            target: args[1].clone(),
                            limit,
                        },
                    )
                },
                None => Ok(say("Usage: .path <from-component> <to-component> [--limit N]")),
            },
            ReplCommand::WorksWith(args) => match pair_limit(args) {
                Some(limit) => {
                    assert(views(args@)[0] == args@[0]@ && views(args@)[1] == args@[1]@);
                    Ok(
                        ReplAction::WorksWith {
                            source: args[0].clone(),
                            target: args[1].clone(),
                            limit,
                        },
                    )
                },
                None => Ok(say("Usage: .works-with <component-a> <component-b> [--limit N]")),
            },
            ReplCommand::Why(args) => {
                assert(views(args@).len() == args@.len());
                if args.len() == 2 {
                    assert(views(args@)[0] == args@[0]@ && views(args@)[1] == args@[1]@);
                    Ok(ReplAction::Why { source: args[0].clone(), target: args[1].clone() })
                } else {
                    Ok(say("Usage: .why <component-a> <component-b>"))
                }
            },
            ReplCommand::Resolve(name) => if char_count(name.as_str()) == 0 {
                Ok(say("Usage: .resolve <component|repo|package|identity>"))
            } else {
                Ok(ReplAction::Resolve(name.clone()))
            },
            ReplCommand::Graph(args) => self.graph_query(args),
            ReplCommand::Save(args) => self.save(args, snippet_dir),
            ReplCommand::Open(args) => self.open(args, snippet_dir),
            ReplCommand::Snippets => Ok(ReplAction::Snippets),
            ReplCommand::Producers => Ok(ReplAction::Producers),
            ReplCommand::Examples => Ok(ReplAction::Examples),
            ReplCommand::Refresh => Ok(ReplAction::Reload(ReloadKind::Refresh)),
            ReplCommand::Offline => Ok(ReplAction::Reload(ReloadKind::Offline)),
            ReplCommand::Gate(args) => {
                assert(views(args@).len() == args@.len());
                if args.len() > 0 {
                    assert(views(args@)[0] == args@[0]@);
                    let z = enc(args[0].as_str());
                    let l = if args.len() > 1 {
                        assert(views(args@)[1] == args@[1]@);
                        enc(args[1].as_str())
                    } else {
                        enc("preview")
                    };
                    Ok(
                        ReplAction::Remote(
                            RemoteCall {
                                path: cat4("/zones/", z.as_str(), "/gates/", l.as_str()),
                                fallback: Some(
                                    cat4("/tracks/", z.as_str(), "/promotion-gates/", l.as_str()),
                                ),
                            },
                        ),
                    )
                } else {
                    Ok(say("Usage: .gate <zone> [level]"))
                }
            },
            ReplCommand::Unknown(name) => Ok(
                ReplAction::Say(
                    cat3(
                        "Unknown command ",
                        debug_of(name.as_str()).as_str(),
                        ". Try `.help`.",
                    ),
                ),
            ),
            _ => Ok(ReplAction::Stay),
        }
    }

    /// Does what a command does to the session, and says what is to be done.
    pub fn handle_command(
        &mut self,
        command: &ReplCommand,
        zone: &Option<String>,
        snippet_dir: &str,
    ) -> (r: Result<ReplAction, String>)
        ensures
            match step(old(self)@, command@, opt_view(*zone), snippet_dir@) {
                Ok(s) => (r matches Ok(a) && a@ == s.action) && final(self)@ == s.state,
                Err(m) => (r matches Err(e) && e@ == m) && final(self)@ == old(self)@,
            },
    {
        match command {
            ReplCommand::Context(args) => self.handle_context_command(args),
            ReplCommand::SetField { field, value } => self.set_and_rebuild(
                field.as_str(),
                value.as_str(),
            ),
            ReplCommand::Reset => {
                self.context = MatrixContext::empty();
                Ok(ReplAction::Rebuild)
            },
            ReplCommand::Use(args) => self.use_context_choice(args),
            ReplCommand::Mode(args) => Ok(self.set_mode(args)),
            ReplCommand::Expanded => {
                self.expanded = !self.expanded;
                Ok(ReplAction::Say(cat2("Expanded output: ", on_or_off(self.expanded))))
            },
            ReplCommand::Timing => {
                self.timing = !self.timing;
                Ok(ReplAction::Say(cat2("Timing: ", on_or_off(self.timing))))
            },
            ReplCommand::Limit(args) => Ok(self.set_limit(args)),
            ReplCommand::Components(_)
            | ReplCommand::Versions(_)
            | ReplCommand::Tags
            | ReplCommand::Read(_)
            | ReplCommand::Tables
            | ReplCommand::Schema(_)
            | ReplCommand::Deref(_)
            | ReplCommand::Members(_)
            | ReplCommand::Compare(_)
            | ReplCommand::Describe(_)
            | ReplCommand::Zones
            | ReplCommand::Subjects
            | ReplCommand::Trace(_)
            | ReplCommand::Explain(_) => self.query_action(command, zone, snippet_dir),
            _ => self.other_action(command, zone, snippet_dir),
        }
    }
}

// ---------------------------------------------------------------------------
// After an action
// ---------------------------------------------------------------------------
/// How facts are loaded again.
pub fn reload_policy(kind: ReloadKind) -> (r: CachePolicy)
    ensures
        r == (if kind is Offline {
            CachePolicy::Offline
        } else {
            CachePolicy::Refresh
        }),
{
    match kind {
        ReloadKind::Offline => CachePolicy::Offline,
        _ => CachePolicy::Refresh,
    }
}

/// What is said once facts were loaded again.
pub fn reload_message(kind: ReloadKind, max_facts: usize, fact_count: usize) -> (r: String)
    ensures
        r@ == (match kind {
            ReloadKind::Limit => "Fact limit: "@ + decimal(max_facts as nat) + "; loaded "@
                + decimal(fact_count as nat) + " facts."@,
            ReloadKind::Refresh => "Refreshed "@ + decimal(fact_count as nat) + " facts."@,
            ReloadKind::Offline => "Loaded "@ + decimal(fact_count as nat) + " cached facts."@,
        }),
{
    let count = digits_of_usize(fact_count);
    match kind {
        ReloadKind::Limit => cat5(
            "Fact limit: ",
            digits_of_usize(max_facts).as_str(),
            "; loaded ",
            count.as_str(),
            " facts.",
        ),
        ReloadKind::Refresh => cat3("Refreshed ", count.as_str(), " facts."),
        ReloadKind::Offline => cat3("Loaded ", count.as_str(), " cached facts."),
    }
}

/// How a saved query is run.
#[derive(Debug)]
pub enum OpenedQuery {
    Graph { query: String, vars: Vec<String>, limit: usize },
    Sql(String),
}

/// How the query of a file is run with arguments, which are read in any case.
pub fn opened_query(file: &str, query: &str, args: &Vec<String>) -> (r: Result<OpenedQuery, String>)
    ensures
        match graph_args(views(args@)) {
            Err(m) => r matches Err(e) && e@ == m,
            Ok(a) => match kind_of(file@, query@) {
                SnippetKind::Graph => r matches Ok(OpenedQuery::Graph { query: q, vars, limit })
                    && q@ == query@ && views(vars@) == a.vars && limit == a.limit,
                SnippetKind::Sql => r matches Ok(OpenedQuery::Sql(s)) && s@ == statement_of(query@),
            },
        },
{
    match parse_repl_graph_args(args) {
        Err(m) => Err(m),
        Ok(a) => match snippet_kind(file, query) {
            SnippetKind::Graph => Ok(
                OpenedQuery::Graph { query: query.to_owned(), vars: a.vars, limit: a.limit },
            ),
            SnippetKind::Sql => Ok(OpenedQuery::Sql(bare_statement(query))),
        },
    }
}

// ---------------------------------------------------------------------------
// What holds of every session
// ---------------------------------------------------------------------------
/// Only the commands on the context change the context, and none changes the choices.
pub proof fn law_other_commands_keep_context(
    state: StateV,
    command: CommandV,
    zone: Option<Seq<char>>,
    dir: Seq<char>,
)
    requires
        step(state, command, zone, dir) is Ok,
        !(command is Reset || command is Context || command is SetField || command is Use),
    ensures
        step(state, command, zone, dir)->Ok_0.state.context == state.context,
        step(state, command, zone, dir)->Ok_0.state.choices == state.choices,
{
}

/// Clearing a session leaves no field of its context set, whatever it was, and changes
/// nothing else.
pub proof fn law_reset_clears_context(state: StateV, zone: Option<Seq<char>>, dir: Seq<char>)
    ensures
        step(state, CommandV::Reset, zone, dir) == Ok::<StepV, Seq<char>>(
            StepV {
                state: StateV { context: ContextV::empty(), ..state },
                action: ActionV::Rebuild,
            },
        ),
        ContextV::empty().zone is None,
        ContextV::empty().repo is None,
        ContextV::empty().component is None,
        ContextV::empty().version is None,
        ContextV::empty().tag is None,
        ContextV::empty().sha is None,
        ContextV::empty().reference is None,
{
}

/// Setting the repository forgets the tag, the commit and the reference of the one
/// before; no other field that is set touches another.
pub proof fn law_setting_a_field(context: ContextV, field: Seq<char>, value: Seq<char>)
    requires
        with_field(context, field, value) is Ok,
    ensures
        ({
            let c = with_field(context, field, value)->Ok_0;
            &&& field == "repo"@ ==> c.repo == Some(trim(value)) && c.tag is None && c.sha is None
                && c.reference is None && c.zone == context.zone && c.component
                == context.component && c.version == context.version
            &&& field != "repo"@ ==> c.repo == context.repo
            &&& field != "repo"@ && field != "tag"@ ==> c.tag == context.tag
            &&& field != "repo"@ && field != "sha"@ ==> c.sha == context.sha
            &&& field != "repo"@ && field != "ref"@ ==> c.reference == context.reference
            &&& field != "zone"@ ==> c.zone == context.zone
            &&& field != "component"@ ==> c.component == context.component
            &&& field != "version"@ ==> c.version == context.version
        }),
{
    reveal_strlit("zone");
    reveal_strlit("repo");
    reveal_strlit("component");
    reveal_strlit("version");
    reveal_strlit("tag");
    reveal_strlit("sha");
    reveal_strlit("ref");
    assert("zone"@[0] != "repo"@[0]);
    assert("tag"@[0] != "sha"@[0]);
    assert("tag"@[0] != "ref"@[0]);
    assert("sha"@[0] != "ref"@[0]);
    assert("component"@.len() == 9 && "version"@.len() == 7 && "zone"@.len() == 4 && "repo"@.len()
        == 4 && "tag"@.len() == 3 && "sha"@.len() == 3 && "ref"@.len() == 3);
}

} // verus!
