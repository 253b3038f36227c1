//! The shell's commands: how a line is read.
use vstd::prelude::*;
use crate::repl_args::rest_of;
use crate::text::{
    join, joined, same, strip_prefix, stripped_prefix, trim, trimmed, views, words, words_of,
};

verus! {

// ---------------------------------------------------------------------------
// Commands
// ---------------------------------------------------------------------------
/// A command of the shell.
#[derive(Debug)]
pub enum ReplCommand {
    Nothing,
    Quit,
    Reset,
    Help,
    Context(Vec<String>),
    SetField { field: String, value: String },
    Components(Vec<String>),
    Versions(Vec<String>),
    Tags,
    Use(Vec<String>),
    Status,
    Read(String),
    Tables,
    Schema(Vec<String>),
    Deref(String),
    Members(String),
    Get(Vec<String>),
    History { name: String, args: Vec<String> },
    Compare(Vec<String>),
    Path(Vec<String>),
    WorksWith(Vec<String>),
    Why(Vec<String>),
    Resolve(String),
    Graph(Vec<String>),
    Save(Vec<String>),
    Open(Vec<String>),
    Snippets,
    Producers,
    Examples,
    Describe(Vec<String>),
    Mode(Vec<String>),
    Expanded,
    Timing,
    Limit(Vec<String>),
    Refresh,
    Offline,
    Zones,
    Subjects,
    Trace(String),
    Gate(Vec<String>),
    Explain(Vec<String>),
    Unknown(String),
}

pub enum CommandV {
    Nothing,
    Quit,
    Reset,
    Help,
    Context(Seq<Seq<char>>),
    SetField { field: Seq<char>, value: Seq<char> },
    Components(Seq<Seq<char>>),
    Versions(Seq<Seq<char>>),
    Tags,
    Use(Seq<Seq<char>>),
    Status,
    Read(Seq<char>),
    Tables,
    Schema(Seq<Seq<char>>),
    Deref(Seq<char>),
    Members(Seq<char>),
    Get(Seq<Seq<char>>),
    History { name: Seq<char>, args: Seq<Seq<char>> },
    Compare(Seq<Seq<char>>),
    Path(Seq<Seq<char>>),
    WorksWith(Seq<Seq<char>>),
    Why(Seq<Seq<char>>),
    Resolve(Seq<char>),
    Graph(Seq<Seq<char>>),
    Save(Seq<Seq<char>>),
    Open(Seq<Seq<char>>),
    Snippets,
    Producers,
    Examples,
    Describe(Seq<Seq<char>>),
    Mode(Seq<Seq<char>>),
    Expanded,
    Timing,
    Limit(Seq<Seq<char>>),
    Refresh,
    Offline,
    Zones,
    Subjects,
    Trace(Seq<char>),
    Gate(Seq<Seq<char>>),
    Explain(Seq<Seq<char>>),
    Unknown(Seq<char>),
}

impl View for ReplCommand {
    type V = CommandV;

    open spec fn view(&self) -> CommandV {
        match self {
            ReplCommand::Nothing => CommandV::Nothing,
            ReplCommand::Quit => CommandV::Quit,
            ReplCommand::Reset => CommandV::Reset,
            ReplCommand::Help => CommandV::Help,
            ReplCommand::Context(a) => CommandV::Context(views(a@)),
            ReplCommand::SetField { field, value } => CommandV::SetField {
                field: field@,
                value: value@,
            },
            ReplCommand::Components(a) => CommandV::Components(views(a@)),
            ReplCommand::Versions(a) => CommandV::Versions(views(a@)),
            ReplCommand::Tags => CommandV::Tags,
            ReplCommand::Use(a) => CommandV::Use(views(a@)),
            ReplCommand::Status => CommandV::Status,
            ReplCommand::Read(p) => CommandV::Read(p@),
            ReplCommand::Tables => CommandV::Tables,
            ReplCommand::Schema(a) => CommandV::Schema(views(a@)),
            ReplCommand::Deref(t) => CommandV::Deref(t@),
            ReplCommand::Members(t) => CommandV::Members(t@),
            ReplCommand::Get(a) => CommandV::Get(views(a@)),
            ReplCommand::History { name, args } => CommandV::History {
                name: name@,
                args: views(args@),
            },
            ReplCommand::Compare(a) => CommandV::Compare(views(a@)),
            ReplCommand::Path(a) => CommandV::Path(views(a@)),
            ReplCommand::WorksWith(a) => CommandV::WorksWith(views(a@)),
            ReplCommand::Why(a) => CommandV::Why(views(a@)),
            ReplCommand::Resolve(t) => CommandV::Resolve(t@),
            ReplCommand::Graph(a) => CommandV::Graph(views(a@)),
            ReplCommand::Save(a) => CommandV::Save(views(a@)),
            ReplCommand::Open(a) => CommandV::Open(views(a@)),
            ReplCommand::Snippets => CommandV::Snippets,
            ReplCommand::Producers => CommandV::Producers,
            ReplCommand::Examples => CommandV::Examples,
            ReplCommand::Describe(a) => CommandV::Describe(views(a@)),
            ReplCommand::Mode(a) => CommandV::Mode(views(a@)),
            ReplCommand::Expanded => CommandV::Expanded,
            ReplCommand::Timing => CommandV::Timing,
            ReplCommand::Limit(a) => CommandV::Limit(views(a@)),
            ReplCommand::Refresh => CommandV::Refresh,
            ReplCommand::Offline => CommandV::Offline,
            ReplCommand::Zones => CommandV::Zones,
            ReplCommand::Subjects => CommandV::Subjects,
            ReplCommand::Trace(t) => CommandV::Trace(t@),
            ReplCommand::Gate(a) => CommandV::Gate(views(a@)),
            ReplCommand::Explain(a) => CommandV::Explain(views(a@)),
            ReplCommand::Unknown(t) => CommandV::Unknown(t@),
        }
    }
}

/// A line without the mark of a command.
pub open spec fn command_text(raw: Seq<char>) -> Seq<char> {
    let t = trim(raw);
    trim(
        match strip_prefix(t, "/"@) {
            Some(rest) => rest,
            None => match strip_prefix(t, "."@) {
                Some(rest) => rest,
                None => t,
            },
        },
    )
}

pub open spec fn is_field(name: Seq<char>) -> bool {
    name == "zone"@ || name == "repo"@ || name == "component"@ || name == "version"@ || name
        == "tag"@ || name == "sha"@ || name == "ref"@
}

/// The command of a name with its arguments.
pub open spec fn command_named(name: Seq<char>, args: Seq<Seq<char>>) -> CommandV {
    let text = join(args, " "@);
    if name == "red"@ || name == "red-pill"@ || name == "exit"@ || name == "quit"@ || name == "q"@ {
        CommandV::Quit
    } else if name == "blue"@ || name == "blue-pill"@ || name == "clear"@ {
        CommandV::Reset
    } else if name == "help"@ || name == "?"@ {
        CommandV::Help
    } else if name == "context"@ || name == "ctx"@ {
        CommandV::Context(args)
    } else if is_field(name) {
        CommandV::SetField { field: name, value: text }
    } else if name == "components"@ {
        CommandV::Components(args)
    } else if name == "versions"@ {
        CommandV::Versions(args)
    } else if name == "tags"@ {
        CommandV::Tags
    } else if name == "use"@ {
        CommandV::Use(args)
    } else if name == "status"@ {
        CommandV::Status
    } else if name == "read"@ || name == "load"@ || name == "source"@ {
        CommandV::Read(text)
    } else if name == "tables"@ || name == "views"@ {
        CommandV::Tables
    } else if name == "schema"@ {
        CommandV::Schema(args)
    } else if name == "deref"@ {
        CommandV::Deref(text)
    } else if name == "members"@ {
        CommandV::Members(text)
    } else if name == "get"@ {
        CommandV::Get(args)
    } else if name == "history"@ || name == "supersedes"@ {
        CommandV::History { name, args }
    } else if name == "compare"@ {
        CommandV::Compare(args)
    } else if name == "path"@ {
        CommandV::Path(args)
    } else if name == "works-with"@ || name == "works"@ || name == "compatible"@ {
        CommandV::WorksWith(args)
    } else if name == "why"@ {
        CommandV::Why(args)
    } else if name == "resolve"@ {
        CommandV::Resolve(text)
    } else if name == "graph"@ || name == "graphql"@ {
        CommandV::Graph(args)
    } else if name == "save"@ {
        CommandV::Save(args)
    } else if name == "open"@ || name == "run"@ {
        CommandV::Open(args)
    } else if name == "snippets"@ || name == "queries"@ {
        CommandV::Snippets
    } else if name == "producers"@ || name == "coverage"@ {
        CommandV::Producers
    } else if name == "examples"@ {
        CommandV::Examples
    } else if name == "describe"@ || name == "desc"@ || name == "d"@ {
        CommandV::Describe(args)
    } else if name == "mode"@ {
        CommandV::Mode(args)
    } else if name == "x"@ || name == "expanded"@ {
        CommandV::Expanded
    } else if name == "timing"@ {
        CommandV::Timing
    } else if name == "limit"@ {
        CommandV::Limit(args)
    } else if name == "refresh"@ {
        CommandV::Refresh
    } else if name == "offline"@ {
        CommandV::Offline
    } else if name == "zones"@ {
        CommandV::Zones
    } else if name == "subjects"@ {
        CommandV::Subjects
    } else if name == "trace"@ {
        CommandV::Trace(text)
    } else if name == "gate"@ {
        CommandV::Gate(args)
    } else if name == "explain"@ {
        CommandV::Explain(args)
    } else {
        CommandV::Unknown(name)
    }
}

/// The command of a line.
pub open spec fn command_of(raw: Seq<char>) -> CommandV {
    let all = words(command_text(raw));
    if all.len() == 0 {
        CommandV::Nothing
    } else {
        command_named(all[0], all.skip(1))
    }
}

fn named_field(name: &str) -> (r: bool)
    ensures
        r == is_field(name@),
{
    same(name, "zone") || same(name, "repo") || same(name, "component") || same(name, "version")
        || same(name, "tag") || same(name, "sha") || same(name, "ref")
}

fn named_command(n: &str, args: Vec<String>) -> (r: ReplCommand)
    ensures
        r@ == command_named(n@, views(args@)),
{
    let text = joined(args.as_slice(), " ");
    if same(n, "red") || same(n, "red-pill") || same(n, "exit") || same(n, "quit") || same(n, "q") {
        ReplCommand::Quit
    } else if same(n, "blue") || same(n, "blue-pill") || same(n, "clear") {
        ReplCommand::Reset
    } else if same(n, "help") || same(n, "?") {
        ReplCommand::Help
    } else if same(n, "context") || same(n, "ctx") {
        ReplCommand::Context(args)
    } else if named_field(n) {
        ReplCommand::SetField { field: n.to_owned(), value: text }
    } else if same(n, "components") {
        ReplCommand::Components(args)
    } else if same(n, "versions") {
        ReplCommand::Versions(args)
    } else if same(n, "tags") {
        ReplCommand::Tags
    } else if same(n, "use") {
        ReplCommand::Use(args)
    } else if same(n, "status") {
        ReplCommand::Status
    } else if same(n, "read") || same(n, "load") || same(n, "source") {
        ReplCommand::Read(text)
    } else if same(n, "tables") || same(n, "views") {
        ReplCommand::Tables
    } else if same(n, "schema") {
        ReplCommand::Schema(args)
    } else if same(n, "deref") {
        ReplCommand::Deref(text)
    } else if same(n, "members") {
        ReplCommand::Members(text)
    } else if same(n, "get") {
        ReplCommand::Get(args)
    } else if same(n, "history") || same(n, "supersedes") {
        ReplCommand::History { name: n.to_owned(), args }
    } else if same(n, "compare") {
        ReplCommand::Compare(args)
    } else if same(n, "path") {
        ReplCommand::Path(args)
    } else if same(n, "works-with") || same(n, "works") || same(n, "compatible") {
        ReplCommand::WorksWith(args)
    } else if same(n, "why") {
        ReplCommand::Why(args)
    } else if same(n, "resolve") {
        ReplCommand::Resolve(text)
    } else if same(n, "graph") || same(n, "graphql") {
        ReplCommand::Graph(args)
    } else if same(n, "save") {
        ReplCommand::Save(args)
    } else if same(n, "open") || same(n, "run") {
        ReplCommand::Open(args)
    } else if same(n, "snippets") || same(n, "queries") {
        ReplCommand::Snippets
    } else if same(n, "producers") || same(n, "coverage") {
        ReplCommand::Producers
    } else if same(n, "examples") {
        ReplCommand::Examples
    } else if same(n, "describe") || same(n, "desc") || same(n, "d") {
        ReplCommand::Describe(args)
    } else if same(n, "mode") {
        ReplCommand::Mode(args)
    } else if same(n, "x") || same(n, "expanded") {
        ReplCommand::Expanded
    } else if same(n, "timing") {
        ReplCommand::Timing
    } else if same(n, "limit") {
        ReplCommand::Limit(args)
    } else if same(n, "refresh") {
        ReplCommand::Refresh
    } else if same(n, "offline") {
        ReplCommand::Offline
    } else if same(n, "zones") {
        ReplCommand::Zones
    } else if same(n, "subjects") {
        ReplCommand::Subjects
    } else if same(n, "trace") {
        ReplCommand::Trace(text)
    } else if same(n, "gate") {
        ReplCommand::Gate(args)
    } else if same(n, "explain") {
        ReplCommand::Explain(args)
    } else {
        ReplCommand::Unknown(n.to_owned())
    }
}

pub fn parse_command(raw: &str) -> (r: ReplCommand)
    ensures
        r@ == command_of(raw@),
{
    let t = trimmed(raw);
    let rest = match stripped_prefix(t.as_str(), "/") {
        Some(rest) => rest,
        None => match stripped_prefix(t.as_str(), ".") {
            Some(rest) => rest,
            None => t,
        },
    };
    let text = trimmed(rest.as_str());
    let all = words_of(text.as_str());
    assert(views(all@).len() == all@.len());
    if all.len() == 0 {
        return ReplCommand::Nothing;
    }
    assert(views(all@)[0] == all@[0]@);
    let args = rest_of(&all, 1);
    named_command(all[0].as_str(), args)
}

} // verus!
