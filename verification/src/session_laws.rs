//! What the commands of a session do.
use vstd::prelude::*;
use crate::context::ContextV;
use crate::json::JsonV;
use crate::repl::{command_named, CommandV};
use crate::repl_args::{compare_args, limit_of};
use crate::session::{
    choices_of, limit_step, mode_of, mode_step, step, use_step, with_field, without_field, ActionV,
    ChoiceV, ReloadKind, StateV, StepV,
};
use crate::config::OutputFormat;
use crate::text::{join, parse_unsigned, trim};
use crate::text_laws::mark;

verus! {

/// A field that is set holds the value without the space around it; one that is cleared
/// holds nothing, and nothing else changes. A blank value is refused.
pub proof fn law_field_is_set_and_cleared(c: ContextV, value: Seq<char>, field: Seq<char>)
    ensures
        trim(value).len() == 0 ==> with_field(c, field, value) is Err,
        trim(value).len() > 0 ==> with_field(c, "zone"@, value) is Ok && with_field(c, "zone"@, value)->Ok_0.zone
            == Some(trim(value)),
        trim(value).len() > 0 ==> with_field(c, "repo"@, value) is Ok && with_field(c, "repo"@, value)->Ok_0.repo
            == Some(trim(value)),
        trim(value).len() > 0 ==> with_field(c, "component"@, value) is Ok && with_field(c, "component"@, value)->Ok_0.component
            == Some(trim(value)),
        trim(value).len() > 0 ==> with_field(c, "version"@, value) is Ok && with_field(c, "version"@, value)->Ok_0.version
            == Some(trim(value)),
        trim(value).len() > 0 ==> with_field(c, "tag"@, value) is Ok && with_field(c, "tag"@, value)->Ok_0.tag
            == Some(trim(value)),
        trim(value).len() > 0 ==> with_field(c, "sha"@, value) is Ok && with_field(c, "sha"@, value)->Ok_0.sha
            == Some(trim(value)),
        trim(value).len() > 0 ==> with_field(c, "ref"@, value) is Ok && with_field(c, "ref"@, value)->Ok_0.reference
            == Some(trim(value)),
        without_field(c, "zone"@) == Ok::<ContextV, Seq<char>>(ContextV { zone: None, ..c }),
        without_field(c, "repo"@) == Ok::<ContextV, Seq<char>>(ContextV { repo: None, ..c }),
        without_field(c, "component"@) == Ok::<ContextV, Seq<char>>(ContextV { component: None, ..c }),
        without_field(c, "version"@) == Ok::<ContextV, Seq<char>>(ContextV { version: None, ..c }),
        without_field(c, "tag"@) == Ok::<ContextV, Seq<char>>(ContextV { tag: None, ..c }),
        without_field(c, "sha"@) == Ok::<ContextV, Seq<char>>(ContextV { sha: None, ..c }),
        without_field(c, "ref"@) == Ok::<ContextV, Seq<char>>(ContextV { reference: None, ..c }),
{
    lemma_field_names();
}

/// What is picked is the choice with its number, counted from one.
pub proof fn law_pick_is_by_number(state: StateV, args: Seq<Seq<char>>)
    requires
        args.len() == 1,
        parse_unsigned(args[0], usize::MAX as int) is Some,
        parse_unsigned(args[0], usize::MAX as int)->Some_0 > 0,
    ensures
        ({
            let n = parse_unsigned(args[0], usize::MAX as int)->Some_0;
            let r = use_step(state, args);
            &&& n > state.choices.len() ==> r is Err
            &&& n <= state.choices.len() ==> ({
                let choice = state.choices[n - 1];
                let set = with_field(state.context, choice.field, choice.value);
                &&& set is Err <==> r is Err
                &&& set is Ok ==> r->Ok_0.state == (StateV { context: set->Ok_0, ..state })
                    && r->Ok_0.action is Rebuild
            })
        }),
{
}

/// What can be picked are the values of the rows that have one, in their order.
pub proof fn law_choices_are_rows(rows: Seq<JsonV>, field: Seq<char>, n: int)
    requires
        0 <= n <= rows.len(),
        forall|i: int| 0 <= i < n ==> (#[trigger] rows[i]).text_at(field) is Some,
    ensures
        choices_of(rows, field, n).len() == n,
        forall|i: int|
            0 <= i < n ==> (#[trigger] choices_of(rows, field, n)[i]) == (ChoiceV {
                field,
                value: rows[i].text_at(field)->Some_0,
            }),
    decreases n,
{
    if n > 0 {
        law_choices_are_rows(rows, field, n - 1);
    }
}

/// A row without a value is passed over.
pub proof fn law_row_without_choice(rows: Seq<JsonV>, field: Seq<char>, n: int)
    requires
        0 < n <= rows.len(),
        rows[n - 1].text_at(field) is None,
    ensures
        choices_of(rows, field, n) == choices_of(rows, field, n - 1),
{
}

/// A mode that is named is the one that is used from there on; any other name changes
/// nothing. A session starts with the mode of its output.
pub proof fn law_mode_is_named(state: StateV, word: Seq<char>)
    ensures
        ({
            let mode = mode_step(state, seq![word]).state.output_mode;
            let rest = StateV { output_mode: mode, ..state };
            &&& mode_step(state, seq![word]).state == rest
            &&& word == "human"@ ==> mode is Human
            &&& word == "table"@ || word == "aligned"@ ==> mode is Table
            &&& word == "json"@ ==> mode is Json
            &&& word == "yaml"@ || word == "yml"@ ==> mode is Yaml
            &&& word == "csv"@ ==> mode is Csv
            &&& word != "human"@ && word != "table"@ && word != "aligned"@ && word != "json"@ && word
                != "yaml"@ && word != "yml"@ && word != "csv"@ ==> mode == state.output_mode
        }),
        mode_step(state, Seq::empty()).state == state,
        mode_of(OutputFormat::Json) is Json,
        mode_of(OutputFormat::Yaml) is Yaml,
        mode_of(OutputFormat::Csv) is Csv,
        mode_of(OutputFormat::Human) is Human,
        mode_of(OutputFormat::Table) is Table,
{
    lemma_mode_names();
    assert(seq![word][0] == word);
}

/// A limit is a number above zero; it loads the facts again, and nothing else is a limit.
pub proof fn law_limit_is_positive(state: StateV, args: Seq<Seq<char>>)
    ensures
        ({
            let n = if args.len() > 0 {
                parse_unsigned(args[0], usize::MAX as int)
            } else {
                None
            };
            let r = limit_step(state, args);
            &&& n is Some && n->Some_0 > 0 ==> r.state == (StateV { max_facts: n->Some_0, ..state })
                && r.action == ActionV::Reload(ReloadKind::Limit)
            &&& n is None || n->Some_0 == 0 ==> r.state == state && r.action is Say
        }),
{
}

/// Asking twice for expanded output, or for timing, is as not asking for it; asking once is
/// not.
pub proof fn law_switches_toggle(state: StateV, zone: Option<Seq<char>>, dir: Seq<char>)
    ensures
        ({
            let a = step(state, CommandV::Expanded, zone, dir)->Ok_0.state;
            let b = step(state, CommandV::Timing, zone, dir)->Ok_0.state;
            &&& a.expanded != state.expanded
            &&& b.timing != state.timing
            &&& step(a, CommandV::Expanded, zone, dir)->Ok_0.state == state
            &&& step(b, CommandV::Timing, zone, dir)->Ok_0.state == state
            &&& step(state, CommandV::Expanded, zone, dir)->Ok_0.action == ActionV::Say(
                "Expanded output: "@ + if a.expanded {
                    "on"@
                } else {
                    "off"@
                },
            )
            &&& step(state, CommandV::Timing, zone, dir)->Ok_0.action == ActionV::Say(
                "Timing: "@ + if b.timing {
                    "on"@
                } else {
                    "off"@
                },
            )
        }),
{
}

/// Questions about two components are asked in the order in which they are named, with five
/// ways at most.
pub proof fn law_questions_name_components(
    state: StateV,
    args: Seq<Seq<char>>,
    zone: Option<Seq<char>>,
    dir: Seq<char>,
)
    requires
        args.len() < 3,
    ensures
        step(state, CommandV::Path(args), zone, dir)->Ok_0.action is Say <==> args.len() != 2,
        step(state, CommandV::WorksWith(args), zone, dir)->Ok_0.action is Say <==> args.len() != 2,
        step(state, CommandV::Why(args), zone, dir)->Ok_0.action is Say <==> args.len() != 2,
        args.len() == 2 ==> step(state, CommandV::Path(args), zone, dir)->Ok_0.action == (
        ActionV::Path { source: args[0], target: args[1], limit: 5 }),
        args.len() == 2 ==> step(state, CommandV::WorksWith(args), zone, dir)->Ok_0.action == (
        ActionV::WorksWith { source: args[0], target: args[1], limit: 5 }),
        args.len() == 2 ==> step(state, CommandV::Why(args), zone, dir)->Ok_0.action == (
        ActionV::Why { source: args[0], target: args[1] }),
{
}

/// A question about two components may be limited to a number of ways, at least one.
pub proof fn law_questions_are_limited(
    state: StateV,
    args: Seq<Seq<char>>,
    zone: Option<Seq<char>>,
    dir: Seq<char>,
)
    requires
        args.len() == 4,
        args[2] == "--limit"@,
        parse_unsigned(args[3], usize::MAX as int) is Some,
    ensures
        ({
            let n = parse_unsigned(args[3], usize::MAX as int)->Some_0;
            let limit: nat = if n == 0 {
                1
            } else {
                n
            };
            &&& step(state, CommandV::Path(args), zone, dir)->Ok_0.action == (ActionV::Path {
                source: args[0],
                target: args[1],
                limit,
            })
            &&& step(state, CommandV::WorksWith(args), zone, dir)->Ok_0.action
                == (ActionV::WorksWith { source: args[0], target: args[1], limit })
        }),
{
}

/// Commands that only show something leave the session as it is, and each does what it is
/// named for.
pub proof fn law_commands_act(
    state: StateV,
    args: Seq<Seq<char>>,
    text: Seq<char>,
    zone: Option<Seq<char>>,
    dir: Seq<char>,
)
    requires
        text.len() > 0,
        args.len() > 0,
    ensures
        ({
            let at = |c: CommandV| step(state, c, zone, dir);
            let does = |c: CommandV, a: ActionV|
                step(state, c, zone, dir) == Ok::<StepV, Seq<char>>(StepV { state, action: a });
            &&& does(CommandV::Nothing, ActionV::Stay)
            &&& does(CommandV::Quit, ActionV::Quit)
            &&& does(CommandV::Help, ActionV::Help)
            &&& does(CommandV::Examples, ActionV::Examples)
            &&& does(CommandV::Status, ActionV::Status)
            &&& does(CommandV::Snippets, ActionV::Snippets)
            &&& does(CommandV::Producers, ActionV::Producers)
            &&& does(CommandV::Refresh, ActionV::Reload(ReloadKind::Refresh))
            &&& does(CommandV::Offline, ActionV::Reload(ReloadKind::Offline))
            &&& does(CommandV::Resolve(text), ActionV::Resolve(text))
            &&& does(CommandV::Read(text), ActionV::ReadSql(text))
            &&& does(CommandV::Get(args), ActionV::Get(args))
            &&& does(CommandV::History { name: text, args }, ActionV::History(args))
            &&& at(CommandV::Resolve(Seq::empty()))->Ok_0.action is Say
            &&& at(CommandV::Read(Seq::empty()))->Ok_0.action is Say
            &&& at(CommandV::Get(Seq::empty()))->Ok_0.action is Say
            &&& at(CommandV::Unknown(text))->Ok_0.action is Say
            &&& at(CommandV::Unknown(text))->Ok_0.state == state
        }),
{
}

/// A command goes by any of its names, with what is written behind it.
pub proof fn law_commands_are_named(args: Seq<Seq<char>>)
    ensures
        command_named("red"@, args) == CommandV::Quit,
        command_named("red-pill"@, args) == CommandV::Quit,
        command_named("exit"@, args) == CommandV::Quit,
        command_named("quit"@, args) == CommandV::Quit,
        command_named("q"@, args) == CommandV::Quit,
        command_named("blue"@, args) == CommandV::Reset,
        command_named("blue-pill"@, args) == CommandV::Reset,
        command_named("clear"@, args) == CommandV::Reset,
        command_named("help"@, args) == CommandV::Help,
        command_named("?"@, args) == CommandV::Help,
        command_named("context"@, args) == CommandV::Context(args),
        command_named("ctx"@, args) == CommandV::Context(args),
        command_named("components"@, args) == CommandV::Components(args),
        command_named("versions"@, args) == CommandV::Versions(args),
        command_named("tags"@, args) == CommandV::Tags,
        command_named("use"@, args) == CommandV::Use(args),
        command_named("status"@, args) == CommandV::Status,
        command_named("read"@, args) == CommandV::Read(join(args, " "@)),
        command_named("load"@, args) == CommandV::Read(join(args, " "@)),
        command_named("source"@, args) == CommandV::Read(join(args, " "@)),
        command_named("tables"@, args) == CommandV::Tables,
        command_named("views"@, args) == CommandV::Tables,
        command_named("schema"@, args) == CommandV::Schema(args),
        command_named("deref"@, args) == CommandV::Deref(join(args, " "@)),
        command_named("members"@, args) == CommandV::Members(join(args, " "@)),
        command_named("get"@, args) == CommandV::Get(args),
        command_named("compare"@, args) == CommandV::Compare(args),
        command_named("path"@, args) == CommandV::Path(args),
        command_named("works-with"@, args) == CommandV::WorksWith(args),
        command_named("works"@, args) == CommandV::WorksWith(args),
        command_named("compatible"@, args) == CommandV::WorksWith(args),
        command_named("why"@, args) == CommandV::Why(args),
        command_named("resolve"@, args) == CommandV::Resolve(join(args, " "@)),
        command_named("graph"@, args) == CommandV::Graph(args),
        command_named("graphql"@, args) == CommandV::Graph(args),
        command_named("save"@, args) == CommandV::Save(args),
        command_named("open"@, args) == CommandV::Open(args),
        command_named("run"@, args) == CommandV::Open(args),
        command_named("snippets"@, args) == CommandV::Snippets,
        command_named("queries"@, args) == CommandV::Snippets,
        command_named("producers"@, args) == CommandV::Producers,
        command_named("coverage"@, args) == CommandV::Producers,
        command_named("examples"@, args) == CommandV::Examples,
        command_named("describe"@, args) == CommandV::Describe(args),
        command_named("desc"@, args) == CommandV::Describe(args),
        command_named("d"@, args) == CommandV::Describe(args),
        command_named("mode"@, args) == CommandV::Mode(args),
        command_named("x"@, args) == CommandV::Expanded,
        command_named("expanded"@, args) == CommandV::Expanded,
        command_named("timing"@, args) == CommandV::Timing,
        command_named("limit"@, args) == CommandV::Limit(args),
        command_named("refresh"@, args) == CommandV::Refresh,
        command_named("offline"@, args) == CommandV::Offline,
        command_named("zones"@, args) == CommandV::Zones,
        command_named("subjects"@, args) == CommandV::Subjects,
        command_named("trace"@, args) == CommandV::Trace(join(args, " "@)),
        command_named("gate"@, args) == CommandV::Gate(args),
        command_named("explain"@, args) == CommandV::Explain(args),
        command_named("zone"@, args) == (CommandV::SetField { field: "zone"@, value: join(args, " "@) }),
        command_named("repo"@, args) == (CommandV::SetField { field: "repo"@, value: join(args, " "@) }),
        command_named("component"@, args) == (CommandV::SetField { field: "component"@, value: join(args, " "@) }),
        command_named("version"@, args) == (CommandV::SetField { field: "version"@, value: join(args, " "@) }),
        command_named("tag"@, args) == (CommandV::SetField { field: "tag"@, value: join(args, " "@) }),
        command_named("sha"@, args) == (CommandV::SetField { field: "sha"@, value: join(args, " "@) }),
        command_named("ref"@, args) == (CommandV::SetField { field: "ref"@, value: join(args, " "@) }),
        command_named("history"@, args) == (CommandV::History { name: "history"@, args }),
        command_named("supersedes"@, args) == (CommandV::History { name: "supersedes"@, args }),
{
    lemma_command_names();
}

/// The words behind a comparison name its target, but for the version that is asked of it.
pub proof fn law_comparison_is_read(a: Seq<char>, v: Seq<char>)
    requires
        a != "--target-version"@,
        !crate::text::starts_with(a, "--target-version="@),
    ensures
        compare_args(seq![a]) == Ok::<(Seq<char>, Option<Seq<char>>), Seq<char>>((a, None)),
        compare_args(seq![a, "--target-version"@, v]) == Ok::<
            (Seq<char>, Option<Seq<char>>),
            Seq<char>,
        >((a, Some(v))),
        compare_args(seq!["--target-version"@, v, a]) == Ok::<
            (Seq<char>, Option<Seq<char>>),
            Seq<char>,
        >((a, Some(v))),
        compare_args(seq![a, "--target-version"@]) is Err,
        compare_args(Seq::empty()) is Err,
{
    reveal_with_fuel(crate::repl_args::compare_from, 4);
    reveal_with_fuel(join, 3);
    let none = Seq::<Seq<char>>::empty();
    assert(none.push(a).drop_last() =~= none);
    assert(none + seq![a] =~= none.push(a));
}

/// A limit of a graph query is a number, and never less than one.
pub proof fn law_graph_limit(text: Seq<char>)
    ensures
        ({
            let n = parse_unsigned(text, usize::MAX as int);
            &&& limit_of(text) is Ok <==> n is Some
            &&& n is Some && n->Some_0 >= 1 ==> limit_of(text)->Ok_0 == n->Some_0
            &&& n is Some && n->Some_0 < 1 ==> limit_of(text)->Ok_0 == 1
        }),
{
}

// ---------------------------------------------------------------------------
// Names
// ---------------------------------------------------------------------------
proof fn lemma_field_names()
    ensures
        mark("component"@) == 11111609909,
        mark("ref"@) == 10110211403,
        mark("repo"@) == 11211111404,
        mark("sha"@) == 10409711503,
        mark("tag"@) == 9710311603,
        mark("version"@) == 11511011807,
        mark("zone"@) == 11010112204,
{
    reveal_strlit("component");
    reveal_strlit("ref");
    reveal_strlit("repo");
    reveal_strlit("sha");
    reveal_strlit("tag");
    reveal_strlit("version");
    reveal_strlit("zone");
}


proof fn lemma_mode_names()
    ensures
        mark("aligned"@) == 10310009707,
        mark("csv"@) == 11511809903,
        mark("human"@) == 10911010405,
        mark("json"@) == 11111010604,
        mark("table"@) == 9810111605,
        mark("yaml"@) == 10910812104,
        mark("yml"@) == 10910812103,
{
    reveal_strlit("aligned");
    reveal_strlit("csv");
    reveal_strlit("human");
    reveal_strlit("json");
    reveal_strlit("table");
    reveal_strlit("yaml");
    reveal_strlit("yml");
}


proof fn lemma_command_names()
    ensures
        mark("red"@) == 10110011403,
        mark("red-pill"@) == 11210811408,
        mark("exit"@) == 10511610104,
        mark("quit"@) == 10511611304,
        mark("q"@) == 11311311301,
        mark("blue"@) == 11710109804,
        mark("blue-pill"@) == 4510809809,
        mark("clear"@) == 10111409905,
        mark("help"@) == 10811210404,
        mark("?"@) == 6306306301,
        mark("context"@) == 11611609907,
        mark("ctx"@) == 11612009903,
        mark("components"@) == 11011509910,
        mark("versions"@) == 10511511808,
        mark("tags"@) == 10311511604,
        mark("use"@) == 11510111703,
        mark("status"@) == 11611511506,
        mark("read"@) == 9710011404,
        mark("load"@) == 9710010804,
        mark("source"@) == 11410111506,
        mark("tables"@) == 10811511606,
        mark("views"@) == 10111511805,
        mark("schema"@) == 10109711506,
        mark("deref"@) == 11410210005,
        mark("members"@) == 9811510907,
        mark("get"@) == 10111610303,
        mark("compare"@) == 11210109907,
        mark("path"@) == 11610411204,
        mark("works-with"@) == 4510411910,
        mark("works"@) == 11411511905,
        mark("compatible"@) == 11610109910,
        mark("why"@) == 10412111903,
        mark("resolve"@) == 11110111407,
        mark("graph"@) == 9710410305,
        mark("graphql"@) == 11210810307,
        mark("save"@) == 11810111504,
        mark("open"@) == 10111011104,
        mark("run"@) == 11711011403,
        mark("snippets"@) == 11211511508,
        mark("queries"@) == 11411511307,
        mark("producers"@) == 11711511209,
        mark("coverage"@) == 11410109908,
        mark("examples"@) == 11211510108,
        mark("describe"@) == 11410110008,
        mark("desc"@) == 11509910004,
        mark("d"@) == 10010010001,
        mark("mode"@) == 10010110904,
        mark("x"@) == 12012012001,
        mark("expanded"@) == 11010010108,
        mark("timing"@) == 10510311606,
        mark("limit"@) == 10911610805,
        mark("refresh"@) == 11410411407,
        mark("offline"@) == 10810111107,
        mark("zones"@) == 11011512205,
        mark("subjects"@) == 10111511508,
        mark("trace"@) == 9710111605,
        mark("gate"@) == 11610110304,
        mark("explain"@) == 10811010107,
        mark("zone"@) == 11010112204,
        mark("repo"@) == 11211111404,
        mark("component"@) == 11111609909,
        mark("version"@) == 11511011807,
        mark("tag"@) == 9710311603,
        mark("sha"@) == 10409711503,
        mark("ref"@) == 10110211403,
        mark("history"@) == 11612110407,
        mark("supersedes"@) == 11511511510,
{
    reveal_strlit("red");
    reveal_strlit("red-pill");
    reveal_strlit("exit");
    reveal_strlit("quit");
    reveal_strlit("q");
    reveal_strlit("blue");
    reveal_strlit("blue-pill");
    reveal_strlit("clear");
    reveal_strlit("help");
    reveal_strlit("?");
    reveal_strlit("context");
    reveal_strlit("ctx");
    reveal_strlit("components");
    reveal_strlit("versions");
    reveal_strlit("tags");
    reveal_strlit("use");
    reveal_strlit("status");
    reveal_strlit("read");
    reveal_strlit("load");
    reveal_strlit("source");
    reveal_strlit("tables");
    reveal_strlit("views");
    reveal_strlit("schema");
    reveal_strlit("deref");
    reveal_strlit("members");
    reveal_strlit("get");
    reveal_strlit("compare");
    reveal_strlit("path");
    reveal_strlit("works-with");
    reveal_strlit("works");
    reveal_strlit("compatible");
    reveal_strlit("why");
    reveal_strlit("resolve");
    reveal_strlit("graph");
    reveal_strlit("graphql");
    reveal_strlit("save");
    reveal_strlit("open");
    reveal_strlit("run");
    reveal_strlit("snippets");
    reveal_strlit("queries");
    reveal_strlit("producers");
    reveal_strlit("coverage");
    reveal_strlit("examples");
    reveal_strlit("describe");
    reveal_strlit("desc");
    reveal_strlit("d");
    reveal_strlit("mode");
    reveal_strlit("x");
    reveal_strlit("expanded");
    reveal_strlit("timing");
    reveal_strlit("limit");
    reveal_strlit("refresh");
    reveal_strlit("offline");
    reveal_strlit("zones");
    reveal_strlit("subjects");
    reveal_strlit("trace");
    reveal_strlit("gate");
    reveal_strlit("explain");
    reveal_strlit("zone");
    reveal_strlit("repo");
    reveal_strlit("component");
    reveal_strlit("version");
    reveal_strlit("tag");
    reveal_strlit("sha");
    reveal_strlit("ref");
    reveal_strlit("history");
    reveal_strlit("supersedes");
}

} // verus!
