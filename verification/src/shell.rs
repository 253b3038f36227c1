//! The shell's lines: which are commands, when a statement is complete, what a word can
//! be completed to and how it is shown.
use vstd::prelude::*;
use crate::text::{
    chars_of, concat, find_class, has_prefix, index_of, lemma_index_of, lower, same, starts_with,
    string_of, to_lower, trim, trim_class, trim_suffixes, trimmed, trimmed_class, trimmed_suffixes,
    views, CharClass,
};

verus! {

/// What `.help` shows.
pub const HELP_TEXT: &'static str = "Matrix shell commands
  .help, /help              Show this help
  .status, /status          Show session, construct, cache, and output state
  .tables                   List local tables and views
  .schema [table]           Show local SQL schema
  .describe [table]         Show columns for a table or view
  .mode human|table|json|yaml|csv
                            Change output format
  .x                        Toggle expanded table output
  .timing                   Toggle query timing
  .limit <n>                Set fact fetch limit and refresh cache
  .refresh                  Reload facts from the construct
  .offline                  Reload facts from the local persistent cache
  .context                  Show active context
  .context <field> <value>  Set zone, repo, component, version, tag, sha, or ref
  .context set <field> ...  Same as `.context <field> <value>`
  .context clear [field]    Clear one context field, or all fields
  .context auto             Reset to detected git repo, tag, ref, and sha
  .zone/.repo/.component    Shortcut setters for common context fields
  .version/.tag/.sha/.ref   Shortcut setters for version and source context
  .components [filters]     List primary components in the current context
  .versions [filters] [component]
                            List primary versions and remember picks for `.use`
  .tags                     List tags/refs and remember picks for `.use`
  .use <pick>               Focus a picked component, version, or tag
  .zones                    Summarize facts by zone
  .subjects                 Summarize facts by subject
  .trace <subject>          Show recent facts for a subject
  .gate <zone> [level]      Fetch a gate decision from the construct
  .views                    List local tables and views
  .get <fact-id>            Show the current or selected revision of a fact
  .deref <fact-id>          Show member/require/provide edges for a fact
  .members <fact-id>        Show tuple members for a fact
  .history <fact-id>        Show accepted revisions for a fact
  .history <fact-id> --relative -1
                            Show a selected revision by offset from current
  .compare <target>         Compare active context to a component/repo/subject
  .path <from> <to>         Find an inferred compatibility path
  .works-with <a> <b>       Check whether two components connect
  .why <a> <b>              Explain pair compatibility
  .resolve <name>           Explain component/repo/package alias resolution
  .graphql <query>          Run native GraphQL or graph shorthand
  .graphql -f <file>        Run a graph query file
  .graphql --var n=v ...    Bind GraphQL variables
  .graphql --schema         Print the native Matrix GraphQL schema
  .save <name> <query>      Save a SQL or graph query snippet
  .open <name>              Run a saved query snippet
  .snippets                 List saved query snippets
  .producers                Show fact producer coverage and freshness
  .coverage                 Alias for .producers
  .read <file>              Run a saved SQL query file
  .examples                 Show copyable query examples
  .explain <sql>            Run EXPLAIN QUERY PLAN
  .explain graph <query>    Explain a graph or GraphQL query
  red, red-pill, .exit      Exit
  blue, blue-pill           Clear the current session context

SQL
  End SQL statements with `;`.
  Available tables/views: facts, active, zone, zones, subjects, components,
  identities, identity_aliases, current, upstream, downstream,
  compatible_with_current, valid_facts, invalid_facts, capabilities,
  requirements, members, deref, and one view per SQL-safe zone such as runtime.
  `status = valid` expands to compatible statuses.
  Component filters: --all, --type <type>, --include-applications,
  --include-dependencies.
";

/// What `.examples` shows.
pub const EXAMPLES_TEXT: &'static str = "Matrix SQL examples

select * from current;

select current_version, capability, component, version, status
from upstream;

select current_version, capability, component, version, status
from downstream;

select component, version, runtime, platform
from members
where fact_id==release-bundle.api.1.0.0;

select edge, target, target_version, runtime, platform
from deref
where fact_id==release-bundle.api.1.0.0;

.members release-bundle.api.1.0.0
.deref release-bundle.api.1.0.0
.history release-bundle.api.1.0.0 --relative -1
.history release-bundle.api.1.0.0 --as-of 2026-06-19
.compare ledger-service
.why example/ledger-service --target-version v2.4.0
.graphql --schema
.graphql --var component=eunomia --var for=aphrodite query Matrix($component:String!,$for:String!) { versions(component:$component, for:$for) { versions } }
.explain graph aphrodite -> eunomia
.save aphrodite-path { path(from:\"aphrodite\", to:\"eunomia\") { status paths { confidence nodes { component version } } } }
.open aphrodite-path
";

// ---------------------------------------------------------------------------
// Lines
// ---------------------------------------------------------------------------
/// Whether a line is a command and no SQL.
pub open spec fn command_line(line: Seq<char>) -> bool {
    starts_with(line, "."@) || starts_with(line, "/"@) || line == "red"@ || line == "red-pill"@
        || line == "blue"@ || line == "blue-pill"@ || line == "exit"@ || line == "quit"@ || line
        == "help"@
}

pub fn is_repl_command(line: &str) -> (r: bool)
    ensures
        r == command_line(line@),
{
    has_prefix(line, ".") || has_prefix(line, "/") || same(line, "red") || same(line, "red-pill")
        || same(line, "blue") || same(line, "blue-pill") || same(line, "exit") || same(
        line,
        "quit",
    ) || same(line, "help")
}

/// Whether quotes of the two kinds are open after characters.
pub struct QuotesV {
    pub single: bool,
    pub double: bool,
}

pub open spec fn previous_char(s: Seq<char>, i: int) -> char {
    if 0 < i <= s.len() {
        s[i - 1]
    } else {
        '\0'
    }
}

/// Which quotes are open after the first `n` characters: a quote opens or closes unless
/// it stands inside the other kind or behind a backslash.
pub open spec fn quotes(s: Seq<char>, n: int) -> QuotesV
    decreases n,
{
    if n <= 0 {
        QuotesV { single: false, double: false }
    } else {
        let q = quotes(s, n - 1);
        let c = s[n - 1];
        if c == '\'' && !q.double && previous_char(s, n - 1) != '\\' {
            QuotesV { single: !q.single, ..q }
        } else if c == '"' && !q.single && previous_char(s, n - 1) != '\\' {
            QuotesV { double: !q.double, ..q }
        } else {
            q
        }
    }
}

/// Whether a semicolon ends a statement: it stands in no quotes.
pub open spec fn ends_at(s: Seq<char>, i: int) -> bool {
    s[i] == ';' && !quotes(s, i).single && !quotes(s, i).double
}

/// Whether a text holds a complete statement.
pub open spec fn complete_sql(s: Seq<char>) -> bool {
    exists|i: int| 0 <= i < s.len() && #[trigger] ends_at(s, i)
}

pub fn is_complete_sql(sql: &str) -> (r: bool)
    ensures
        r == complete_sql(sql@),
{
    let v = chars_of(sql);
    let mut single = false;
    let mut double = false;
    let mut previous = '\0';
    let mut i: usize = 0;
    while i < v.len()
        invariant
            i <= v@.len(),
            v@ == sql@,
            previous == previous_char(sql@, i as int),
            quotes(sql@, i as int) == (QuotesV { single, double }),
            forall|j: int| 0 <= j < i ==> !#[trigger] ends_at(sql@, j),
        decreases v@.len() - i,
    {
        let c = v[i];
        if c == '\'' && !double && previous != '\\' {
            single = !single;
        } else if c == '"' && !single && previous != '\\' {
            double = !double;
        } else if c == ';' && !single && !double {
            assert(ends_at(sql@, i as int));
            return true;
        }
        previous = c;
        i += 1;
    }
    false
}

/// What a line that was read asks for.
#[derive(Debug)]
pub enum LineAction {
    /// Nothing yet.
    Wait,
    /// A command.
    Command(String),
    /// A statement.
    Sql(String),
}

pub enum LineActionV {
    Wait,
    Command(Seq<char>),
    Sql(Seq<char>),
}

impl View for LineAction {
    type V = LineActionV;

    open spec fn view(&self) -> LineActionV {
        match self {
            LineAction::Wait => LineActionV::Wait,
            LineAction::Command(c) => LineActionV::Command(c@),
            LineAction::Sql(s) => LineActionV::Sql(s@),
        }
    }
}

/// A statement without space and semicolons at its end.
pub open spec fn statement_of(text: Seq<char>) -> Seq<char> {
    trim(trim_suffixes(trim(text), ";"@))
}

pub fn bare_statement(text: &str) -> (r: String)
    ensures
        r@ == statement_of(text@),
{
    let t = trimmed(text);
    let u = trimmed_suffixes(t.as_str(), ";");
    trimmed(u.as_str())
}

/// The buffer with a line behind it.
pub open spec fn extended(buffer: Seq<char>, line: Seq<char>) -> Seq<char> {
    if buffer.len() == 0 {
        line
    } else {
        buffer + "\n"@ + line
    }
}

pub struct LineStepV {
    pub buffer: Seq<char>,
    pub action: LineActionV,
}

/// What a line does to a buffer of lines: blank lines do nothing, commands are run where
/// no statement was begun, and other lines are gathered until they hold a statement.
pub open spec fn line_step(buffer: Seq<char>, raw: Seq<char>) -> LineStepV {
    let line = trim(raw);
    if line.len() == 0 {
        LineStepV { buffer, action: LineActionV::Wait }
    } else if trim(buffer).len() == 0 && command_line(line) {
        LineStepV { buffer, action: LineActionV::Command(line) }
    } else {
        let text = extended(buffer, line);
        if complete_sql(text) {
            LineStepV { buffer: Seq::empty(), action: LineActionV::Sql(statement_of(text)) }
        } else {
            LineStepV { buffer: text, action: LineActionV::Wait }
        }
    }
}

/// The lines of a statement that was begun.
#[derive(Debug)]
pub struct LineBuffer {
    pub text: String,
}

impl LineBuffer {
    pub fn new() -> (r: LineBuffer)
        ensures
            r.text@ == Seq::<char>::empty(),
    {
        LineBuffer { text: String::new() }
    }

    /// Whether a statement was begun.
    pub fn is_begun(&self) -> (r: bool)
        ensures
            r == (trim(self.text@).len() > 0),
    {
        let t = trimmed(self.text.as_str());
        crate::text::char_count(t.as_str()) > 0
    }

    /// Takes a line.
    pub fn accept(&mut self, raw: &str) -> (r: LineAction)
        ensures
            final(self).text@ == line_step(old(self).text@, raw@).buffer,
            r@ == line_step(old(self).text@, raw@).action,
    {
        let line = trimmed(raw);
        if crate::text::char_count(line.as_str()) == 0 {
            return LineAction::Wait;
        }
        if !self.is_begun() && is_repl_command(line.as_str()) {
            return LineAction::Command(line);
        }
        if crate::text::char_count(self.text.as_str()) > 0 {
            self.text.push_str("\n");
        }
        self.text.push_str(line.as_str());
        assert(old(self).text@.len() == 0 ==> self.text@ =~= line@);
        if is_complete_sql(self.text.as_str()) {
            let sql = bare_statement(self.text.as_str());
            self.text = String::new();
            return LineAction::Sql(sql);
        }
        LineAction::Wait
    }

    /// Drops what was begun, and says so.
    pub fn interrupt(&mut self) -> (r: &'static str)
        ensures
            final(self).text@ == Seq::<char>::empty(),
            old(self).text@.len() == 0 ==> r@ == "Use `red` to exit."@,
            old(self).text@.len() > 0 ==> r@ == "Cleared query buffer."@,
    {
        if crate::text::char_count(self.text.as_str()) == 0 {
            assert(self.text@ =~= Seq::<char>::empty());
            "Use `red` to exit."
        } else {
            self.text = String::new();
            "Cleared query buffer."
        }
    }
}

/// No line of a statement is lost: what is kept and what is run is what was kept before
/// and the line.
pub proof fn law_lines_are_kept(buffer: Seq<char>, raw: Seq<char>)
    requires
        trim(raw).len() > 0,
        !(line_step(buffer, raw).action is Command),
    ensures
        match line_step(buffer, raw).action {
            LineActionV::Sql(s) => s == statement_of(extended(buffer, trim(raw))) && line_step(
                buffer,
                raw,
            ).buffer.len() == 0,
            _ => line_step(buffer, raw).buffer == extended(buffer, trim(raw)),
        },
{
}

// ---------------------------------------------------------------------------
// Completion
// ---------------------------------------------------------------------------
/// What words are completed to.
pub open spec fn completion_words() -> Seq<Seq<char>> {
    Seq::<Seq<char>>::empty()
        .push(".describe"@)
        .push(".deref"@)
        .push(".examples"@)
        .push(".explain"@)
        .push(".gate"@)
        .push(".graph"@)
        .push(".graphql"@)
        .push(".get"@)
        .push(".help"@)
        .push(".history"@)
        .push(".load"@)
        .push(".limit"@)
        .push(".members"@)
        .push(".mode"@)
        .push(".offline"@)
        .push(".open"@)
        .push(".path"@)
        .push(".read"@)
        .push(".refresh"@)
        .push(".resolve"@)
        .push(".run"@)
        .push(".schema"@)
        .push(".source"@)
        .push(".save"@)
        .push(".snippets"@)
        .push(".status"@)
        .push(".component"@)
        .push(".components"@)
        .push(".compare"@)
        .push(".context"@)
        .push(".repo"@)
        .push(".subjects"@)
        .push(".tables"@)
        .push(".tag"@)
        .push(".tags"@)
        .push(".timing"@)
        .push(".trace"@)
        .push(".use"@)
        .push(".version"@)
        .push(".versions"@)
        .push(".views"@)
        .push(".why"@)
        .push(".zone"@)
        .push(".zones"@)
        .push("/help"@)
        .push("/status"@)
        .push("--as-of"@)
        .push("--event"@)
        .push("--relative"@)
        .push("--revision"@)
        .push("--target-version"@)
        .push("--schema"@)
        .push("--var"@)
        .push("blue"@)
        .push("by"@)
        .push("capabilities"@)
        .push("capability"@)
        .push("channel"@)
        .push("compatible"@)
        .push("compatible_with_current"@)
        .push("component"@)
        .push("components"@)
        .push("compare"@)
        .push("context"@)
        .push("count"@)
        .push("csv"@)
        .push("current"@)
        .push("deref"@)
        .push("downstream"@)
        .push("facts"@)
        .push("fact_id"@)
        .push("from"@)
        .push("graph"@)
        .push("graphql"@)
        .push("group"@)
        .push("get"@)
        .push("history"@)
        .push("id"@)
        .push("incompatible"@)
        .push("json"@)
        .push("kind"@)
        .push("load"@)
        .push("limit"@)
        .push("producers"@)
        .push("members"@)
        .push("observed_at"@)
        .push("accepted_at"@)
        .push("order"@)
        .push("path"@)
        .push("provides"@)
        .push("read"@)
        .push("red"@)
        .push("repo"@)
        .push("resolve"@)
        .push("ref"@)
        .push("requirements"@)
        .push("requires"@)
        .push("select"@)
        .push("source"@)
        .push("source_repository"@)
        .push("source_repo"@)
        .push("source_sha"@)
        .push("status"@)
        .push("subject_name"@)
        .push("subject_type"@)
        .push("subjects"@)
        .push("target"@)
        .push("target_version"@)
        .push("table"@)
        .push("tag"@)
        .push("tags"@)
        .push("type"@)
        .push("upstream"@)
        .push("use"@)
        .push("version"@)
        .push("versions"@)
        .push("where"@)
        .push("why"@)
        .push("with"@)
        .push("zone"@)
        .push("zones"@)
}

/// The words that the shell completes.
#[derive(Debug)]
pub struct MatrixCompleter {
    pub words: Vec<String>,
}

/// A completion: what the word becomes, and whether a space follows it.
#[derive(Debug)]
pub struct Completion {
    pub value: String,
    pub append_whitespace: bool,
}

pub struct CompletionV {
    pub value: Seq<char>,
    pub append_whitespace: bool,
}

pub open spec fn completion_views(v: Seq<Completion>) -> Seq<CompletionV> {
    v.map_values(
        |c: Completion| CompletionV { value: c.value@, append_whitespace: c.append_whitespace },
    )
}

/// Where the word before the cursor starts.
pub open spec fn word_start(before: Seq<char>) -> int {
    crate::text::last_index_of(before, CharClass::WordBreak) + 1
}

pub open spec fn spaced(word: Seq<char>) -> bool {
    !starts_with(word, "."@) && !starts_with(word, "/"@) && word != "facts"@ && word != "zones"@
        && word != "subjects"@
}

/// The completions of a prefix among the first `n` words.
pub open spec fn completions(words: Seq<Seq<char>>, prefix: Seq<char>, n: int) -> Seq<CompletionV>
    decreases n,
{
    if n <= 0 {
        Seq::empty()
    } else if starts_with(words[n - 1], prefix) {
        completions(words, prefix, n - 1).push(
            CompletionV { value: words[n - 1], append_whitespace: spaced(words[n - 1]) },
        )
    } else {
        completions(words, prefix, n - 1)
    }
}

fn push_word(words: &mut Vec<String>, word: &str)
    ensures
        views(final(words)@) == views(old(words)@).push(word@),
{
    let ghost before = views(words@);
    words.push(word.to_owned());
    assert(views(words@) =~= before.push(word@));
}

impl MatrixCompleter {
    pub fn new() -> (r: MatrixCompleter)
        ensures
            views(r.words@) == completion_words(),
    {
        let mut words: Vec<String> = Vec::new();
        assert(views(words@) =~= Seq::empty());
        push_word(&mut words, ".describe");
        push_word(&mut words, ".deref");
        push_word(&mut words, ".examples");
        push_word(&mut words, ".explain");
        push_word(&mut words, ".gate");
        push_word(&mut words, ".graph");
        push_word(&mut words, ".graphql");
        push_word(&mut words, ".get");
        push_word(&mut words, ".help");
        push_word(&mut words, ".history");
        push_word(&mut words, ".load");
        push_word(&mut words, ".limit");
        push_word(&mut words, ".members");
        push_word(&mut words, ".mode");
        push_word(&mut words, ".offline");
        push_word(&mut words, ".open");
        push_word(&mut words, ".path");
        push_word(&mut words, ".read");
        push_word(&mut words, ".refresh");
        push_word(&mut words, ".resolve");
        push_word(&mut words, ".run");
        push_word(&mut words, ".schema");
        push_word(&mut words, ".source");
        push_word(&mut words, ".save");
        push_word(&mut words, ".snippets");
        push_word(&mut words, ".status");
        push_word(&mut words, ".component");
        push_word(&mut words, ".components");
        push_word(&mut words, ".compare");
        push_word(&mut words, ".context");
        push_word(&mut words, ".repo");
        push_word(&mut words, ".subjects");
        push_word(&mut words, ".tables");
        push_word(&mut words, ".tag");
        push_word(&mut words, ".tags");
        push_word(&mut words, ".timing");
        push_word(&mut words, ".trace");
        push_word(&mut words, ".use");
        push_word(&mut words, ".version");
        push_word(&mut words, ".versions");
        push_word(&mut words, ".views");
        push_word(&mut words, ".why");
        push_word(&mut words, ".zone");
        push_word(&mut words, ".zones");
        push_word(&mut words, "/help");
        push_word(&mut words, "/status");
        push_word(&mut words, "--as-of");
        push_word(&mut words, "--event");
        push_word(&mut words, "--relative");
        push_word(&mut words, "--revision");
        push_word(&mut words, "--target-version");
        push_word(&mut words, "--schema");
        push_word(&mut words, "--var");
        push_word(&mut words, "blue");
        push_word(&mut words, "by");
        push_word(&mut words, "capabilities");
        push_word(&mut words, "capability");
        push_word(&mut words, "channel");
        push_word(&mut words, "compatible");
        push_word(&mut words, "compatible_with_current");
        push_word(&mut words, "component");
        push_word(&mut words, "components");
        push_word(&mut words, "compare");
        push_word(&mut words, "context");
        push_word(&mut words, "count");
        push_word(&mut words, "csv");
        push_word(&mut words, "current");
        push_word(&mut words, "deref");
        push_word(&mut words, "downstream");
        push_word(&mut words, "facts");
        push_word(&mut words, "fact_id");
        push_word(&mut words, "from");
        push_word(&mut words, "graph");
        push_word(&mut words, "graphql");
        push_word(&mut words, "group");
        push_word(&mut words, "get");
        push_word(&mut words, "history");
        push_word(&mut words, "id");
        push_word(&mut words, "incompatible");
        push_word(&mut words, "json");
        push_word(&mut words, "kind");
        push_word(&mut words, "load");
        push_word(&mut words, "limit");
        push_word(&mut words, "producers");
        push_word(&mut words, "members");
        push_word(&mut words, "observed_at");
        push_word(&mut words, "accepted_at");
        push_word(&mut words, "order");
        push_word(&mut words, "path");
        push_word(&mut words, "provides");
        push_word(&mut words, "read");
        push_word(&mut words, "red");
        push_word(&mut words, "repo");
        push_word(&mut words, "resolve");
        push_word(&mut words, "ref");
        push_word(&mut words, "requirements");
        push_word(&mut words, "requires");
        push_word(&mut words, "select");
        push_word(&mut words, "source");
        push_word(&mut words, "source_repository");
        push_word(&mut words, "source_repo");
        push_word(&mut words, "source_sha");
        push_word(&mut words, "status");
        push_word(&mut words, "subject_name");
        push_word(&mut words, "subject_type");
        push_word(&mut words, "subjects");
        push_word(&mut words, "target");
        push_word(&mut words, "target_version");
        push_word(&mut words, "table");
        push_word(&mut words, "tag");
        push_word(&mut words, "tags");
        push_word(&mut words, "type");
        push_word(&mut words, "upstream");
        push_word(&mut words, "use");
        push_word(&mut words, "version");
        push_word(&mut words, "versions");
        push_word(&mut words, "where");
        push_word(&mut words, "why");
        push_word(&mut words, "with");
        push_word(&mut words, "zone");
        push_word(&mut words, "zones");
        MatrixCompleter { words }
    }

    /// The completions of the word that ends a text, and where the word starts.
    pub fn complete(&self, before: &str) -> (r: (usize, Vec<Completion>))
        ensures
            r.0 == word_start(before@),
            0 <= word_start(before@) <= before@.len(),
            completion_views(r.1@) == completions(
                views(self.words@),
                lower(before@.skip(word_start(before@))),
                self.words@.len() as int,
            ),
    {
        let v = chars_of(before);
        let length = v.len();
        assert(length == before@.len());
        let start: usize = match crate::text::find_last_class(v.as_slice(), CharClass::WordBreak) {
            Some(i) => i + 1,
            None => 0,
        };
        let word = string_of(v.as_slice(), start, length);
        assert(word@ =~= before@.skip(start as int));
        let prefix = to_lower(word.as_str());
        let ghost all = views(self.words@);
        let mut out: Vec<Completion> = Vec::new();
        let mut i: usize = 0;
        assert(completion_views(out@) =~= Seq::empty());
        while i < self.words.len()
            invariant
                i <= self.words@.len(),
                all == views(self.words@),
                completion_views(out@) == completions(all, prefix@, i as int),
            decreases self.words@.len() - i,
        {
            assert(all[i as int] == self.words@[i as int]@);
            let w = self.words[i].as_str();
            if has_prefix(w, prefix.as_str()) {
                let space = !has_prefix(w, ".") && !has_prefix(w, "/") && !same(w, "facts")
                    && !same(w, "zones") && !same(w, "subjects");
                let ghost before_view = completion_views(out@);
                out.push(Completion { value: self.words[i].clone(), append_whitespace: space });
                assert(completion_views(out@) =~= before_view.push(
                    CompletionV { value: all[i as int], append_whitespace: spaced(all[i as int]) },
                ));
            }
            i += 1;
        }
        (start, out)
    }
}

// ---------------------------------------------------------------------------
// Highlighting
// ---------------------------------------------------------------------------
/// How a token is shown.
#[derive(Clone, Copy, Debug, PartialEq, Eq, Structural)]
pub enum TokenStyle {
    Command,
    Quoted,
    Keyword,
    Table,
    Plain,
}

/// Whether a word is one of SQL.
pub open spec fn keyword(w: Seq<char>) -> bool {
    w == "select"@
        || w == "with"@
        || w == "from"@
        || w == "where"@
        || w == "group"@
        || w == "by"@
        || w == "order"@
        || w == "limit"@
        || w == "join"@
        || w == "left"@
        || w == "right"@
        || w == "inner"@
        || w == "outer"@
        || w == "on"@
        || w == "as"@
        || w == "and"@
        || w == "or"@
        || w == "not"@
        || w == "null"@
        || w == "is"@
        || w == "like"@
        || w == "in"@
        || w == "case"@
        || w == "when"@
        || w == "then"@
        || w == "else"@
        || w == "end"@
        || w == "explain"@
        || w == "pragma"@
}

fn is_keyword(w: &str) -> (r: bool)
    ensures
        r == keyword(w@),
{
    same(w, "select")
        || same(w, "with")
        || same(w, "from")
        || same(w, "where")
        || same(w, "group")
        || same(w, "by")
        || same(w, "order")
        || same(w, "limit")
        || same(w, "join")
        || same(w, "left")
        || same(w, "right")
        || same(w, "inner")
        || same(w, "outer")
        || same(w, "on")
        || same(w, "as")
        || same(w, "and")
        || same(w, "or")
        || same(w, "not")
        || same(w, "null")
        || same(w, "is")
        || same(w, "like")
        || same(w, "in")
        || same(w, "case")
        || same(w, "when")
        || same(w, "then")
        || same(w, "else")
        || same(w, "end")
        || same(w, "explain")
        || same(w, "pragma")
}

pub open spec fn style_of(token: Seq<char>) -> TokenStyle {
    let l = lower(token);
    if starts_with(token, "."@) || starts_with(token, "/"@) {
        TokenStyle::Command
    } else if starts_with(token, "'"@) || starts_with(token, "\""@) {
        TokenStyle::Quoted
    } else if keyword(l) {
        TokenStyle::Keyword
    } else if l == "facts"@ || l == "zones"@ || l == "subjects"@ {
        TokenStyle::Table
    } else {
        TokenStyle::Plain
    }
}

pub fn token_style(token: &str) -> (r: TokenStyle)
    ensures
        r == style_of(token@),
{
    let lowered = to_lower(token);
    let l = lowered.as_str();
    if has_prefix(token, ".") || has_prefix(token, "/") {
        TokenStyle::Command
    } else if has_prefix(token, "'") || has_prefix(token, "\"") {
        TokenStyle::Quoted
    } else if is_keyword(l) {
        TokenStyle::Keyword
    } else if same(l, "facts") || same(l, "zones") || same(l, "subjects") {
        TokenStyle::Table
    } else {
        TokenStyle::Plain
    }
}

/// A part of a line and how it is shown.
#[derive(Debug)]
pub struct StyledPart {
    pub style: TokenStyle,
    pub text: String,
}

pub struct PartV {
    pub style: TokenStyle,
    pub text: Seq<char>,
}

pub open spec fn part_views(v: Seq<StyledPart>) -> Seq<PartV> {
    v.map_values(|p: StyledPart| PartV { style: p.style, text: p.text@ })
}

pub open spec fn styled(text: Seq<char>) -> PartV {
    PartV { style: style_of(trim_class(text, CharClass::Delimiter)), text }
}

/// The parts of a line from an index on, each up to and with its delimiter.
pub open spec fn parts_from(line: Seq<char>, from: int) -> Seq<PartV>
    decreases line.len() - from,
    via parts_from_decreases
{
    if from < 0 || from >= line.len() {
        Seq::empty()
    } else {
        let i = index_of(line, CharClass::Delimiter, from);
        if i >= line.len() {
            seq![styled(line.skip(from))]
        } else {
            seq![styled(line.subrange(from, i + 1))] + parts_from(line, i + 1)
        }
    }
}

#[via_fn]
proof fn parts_from_decreases(line: Seq<char>, from: int) {
    if 0 <= from < line.len() {
        lemma_index_of(line, CharClass::Delimiter, from);
    }
}

pub fn highlight(line: &str) -> (r: Vec<StyledPart>)
    ensures
        part_views(r@) == parts_from(line@, 0),
{
    let v = chars_of(line);
    let mut out: Vec<StyledPart> = Vec::new();
    let mut from: usize = 0;
    assert(part_views(out@) =~= Seq::empty());
    assert(Seq::<PartV>::empty() + parts_from(line@, 0) =~= parts_from(line@, 0));
    while from < v.len()
        invariant
            v@ == line@,
            from <= v@.len(),
            parts_from(line@, 0) == part_views(out@) + parts_from(line@, from as int),
        decreases v@.len() - from,
    {
        let i = find_class(v.as_slice(), CharClass::Delimiter, from);
        proof {
            lemma_index_of(line@, CharClass::Delimiter, from as int);
        }
        let n = v.len();
        let end: usize = if i < n {
            i + 1
        } else {
            n
        };
        let text = string_of(v.as_slice(), from, end);
        assert(i >= n ==> text@ =~= line@.skip(from as int));
        let style = token_style(trimmed_class(text.as_str(), CharClass::Delimiter).as_str());
        let ghost before = part_views(out@);
        let ghost next = styled(text@);
        out.push(StyledPart { style, text });
        assert(part_views(out@) =~= before.push(next));
        assert(before + (seq![next] + parts_from(line@, end as int)) =~= before.push(next)
            + parts_from(line@, end as int));
        assert(before + seq![next] =~= before.push(next) + parts_from(line@, n as int));
        from = end;
    }
    assert(part_views(out@) + parts_from(line@, from as int) =~= part_views(out@));
    out
}

/// What is shown of a line is the line.
pub proof fn law_highlighting_keeps_line(line: Seq<char>, from: int)
    requires
        0 <= from <= line.len(),
    ensures
        concat(parts_from(line, from).map_values(|p: PartV| p.text)) == line.skip(from),
    decreases line.len() - from,
{
    let texts = parts_from(line, from).map_values(|p: PartV| p.text);
    if from >= line.len() {
        assert(texts =~= Seq::<Seq<char>>::empty());
        assert(concat(texts) =~= line.skip(from));
    } else {
        lemma_index_of(line, CharClass::Delimiter, from);
        let i = index_of(line, CharClass::Delimiter, from);
        if i >= line.len() {
            assert(texts =~= seq![line.skip(from)]);
            assert(texts.drop_last() =~= Seq::<Seq<char>>::empty());
            assert(concat(texts.drop_last()) =~= Seq::<char>::empty());
            assert(concat(texts) =~= line.skip(from));
        } else {
            law_highlighting_keeps_line(line, i + 1);
            let rest = parts_from(line, i + 1).map_values(|p: PartV| p.text);
            let first = seq![line.subrange(from, i + 1)];
            assert(texts =~= first + rest);
            crate::text::lemma_concat_add(first, rest);
            assert(first.drop_last() =~= Seq::<Seq<char>>::empty());
            assert(concat(first.drop_last()) =~= Seq::<char>::empty());
            assert(concat(first) =~= line.subrange(from, i + 1));
            assert(line.subrange(from, i + 1) + line.skip(i + 1) =~= line.skip(from));
        }
    }
}

/// Whether a single quote is open after the first `n` characters.
pub open spec fn quote_open(s: Seq<char>, n: int) -> bool
    decreases n,
{
    if n <= 0 {
        false
    } else if s[n - 1] == '\'' {
        !quote_open(s, n - 1)
    } else {
        quote_open(s, n - 1)
    }
}

pub fn is_inside_string_literal(before: &str) -> (r: bool)
    ensures
        r == quote_open(before@, before@.len() as int),
{
    let v = chars_of(before);
    let mut open = false;
    let mut i: usize = 0;
    while i < v.len()
        invariant
            i <= v@.len(),
            v@ == before@,
            open == quote_open(before@, i as int),
        decreases v@.len() - i,
    {
        if v[i] == '\'' {
            open = !open;
        }
        i += 1;
    }
    open
}

} // verus!
