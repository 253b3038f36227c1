//! What the reports tell: the inventory of producers, updates, the oracle and its facts.
use vstd::prelude::*;
use crate::config::{Matrix, OutputFormat};
use crate::inventory::{column_sum, inventory_json, stale_count, summary_json, total};
use crate::json::{json_print, lemma_get_with, lemma_with_is_object, Json, JsonV};
use crate::oracle::{
    oracle_row, read_line, shown_config, shown_key, with_key, OracleClient, OracleConfig,
    OracleConfigV, OracleLine, OracleRow,
};
use crate::readonly::{changes_rows, reads_only, selects, sql_words};
use crate::render::rows_of;
use crate::reports::{doctor_json, status_json, Reach, SessionFacts};
use crate::session::ReplState;
use crate::text::{decimal, decimal_int, lower, opt_view, starts_with, trim, trim_end, CharClass};
use crate::update::{
    asset_url, first_step, github_token, homebrew_report, is_homebrew_install, linux_command, newer,
    next_step, notice, notice_is_fresh, notice_wanted, numbers_of, release_report, unavailable_text,
    HomebrewState, UpdateCommand,
};
use crate::text_laws::mark;

verus! {

// ---------------------------------------------------------------------------
// Producers
// ---------------------------------------------------------------------------
proof fn lemma_stale_count(rows: Seq<JsonV>, n: int)
    requires
        0 <= n <= rows.len(),
    ensures
        stale_count(rows, n) == rows.take(n).filter(
            |r: JsonV| r.text_at("freshness"@) == Some("stale"@),
        ).len(),
    decreases n,
{
    reveal(Seq::filter);
    if n > 0 {
        lemma_stale_count(rows, n - 1);
        assert(rows.take(n).drop_last() =~= rows.take(n - 1));
    }
}

/// What a column sums up to over two lists of rows is what it sums up to over each; over
/// one row it is the row's number, and nothing where the row has none.
pub proof fn law_column_sums(a: Seq<JsonV>, b: Seq<JsonV>, row: JsonV, key: Seq<char>)
    ensures
        total(a + b, key) == total(a, key) + total(b, key),
        total(Seq::empty(), key) == 0,
        row.i64_at(key) is Some ==> total(seq![row], key) == row.i64_at(key)->Some_0,
        row.i64_at(key) is None ==> total(seq![row], key) == 0,
    decreases b.len(),
{
    reveal_with_fuel(column_sum, 3);
    if b.len() == 0 {
        assert(a + b =~= a);
    } else {
        law_column_sums(a, b.drop_last(), row, key);
        lemma_sum_takes(a + b, (a + b).len() - 1, key);
        lemma_sum_takes(b, b.len() - 1, key);
        assert((a + b).take((a + b).len() - 1) =~= a + b.drop_last());
        assert(b.take(b.len() - 1) =~= b.drop_last());
        assert((a + b).last() == b.last());
    }
}

proof fn lemma_sum_takes(rows: Seq<JsonV>, n: int, key: Seq<char>)
    requires
        0 <= n <= rows.len(),
    ensures
        column_sum(rows, key, n) == total(rows.take(n), key),
    decreases n,
{
    if n > 0 {
        lemma_sum_takes(rows, n - 1, key);
        lemma_sum_takes(rows.take(n), n - 1, key);
        assert(rows.take(n).take(n - 1) =~= rows.take(n - 1));
    }
}

/// The summary counts every producer and those that are stale, and sums up the facts of all;
/// facts lack the metadata of a producer where their producer was inferred and where it is
/// unknown.
pub proof fn law_inventory_sums_up(rows: Seq<JsonV>, days: int)
    ensures
        ({
            let v = summary_json(rows, days);
            let sum = |key: Seq<char>| Some(JsonV::Number(decimal_int(total(rows, key))));
            &&& v.get("producers"@) == Some(JsonV::number(rows.len()))
            &&& v.get("staleProducers"@) == Some(
                JsonV::number(
                    rows.filter(|r: JsonV| r.text_at("freshness"@) == Some("stale"@)).len(),
                ),
            )
            &&& v.get("facts"@) == sum("facts"@)
            &&& v.get("invalidFacts"@) == sum("invalid_facts"@)
            &&& v.get("sourceRepoFacts"@) == sum("source_repo_facts"@)
            &&& v.get("inferredSubjectRepoFacts"@) == sum("inferred_subject_repo_facts"@)
            &&& v.get("unknownProducerFacts"@) == sum("unknown_producer_facts"@)
            &&& v.get("missingProducerMetadataFacts"@) == Some(
                JsonV::Number(
                    decimal_int(
                        total(rows, "inferred_subject_repo_facts"@) + total(
                            rows,
                            "unknown_producer_facts"@,
                        ),
                    ),
                ),
            )
            &&& v.get("staleAfterDays"@) == Some(JsonV::Number(decimal_int(days)))
        }),
{
    broadcast use {lemma_get_with, lemma_with_is_object};

    lemma_summary_keys();
    lemma_stale_count(rows, rows.len() as int);
    assert(rows.take(rows.len() as int) =~= rows);
}

/// An inventory shows its rows, and its summary is that of the rows it shows.
pub proof fn law_inventory_shows_rows(result: JsonV, days: int)
    ensures
        ({
            let v = inventory_json(result, days);
            &&& v.text_at("kind"@) == Some("producer-inventory"@)
            &&& v.items_at("rows"@) == rows_of(result)
            &&& v.get("summary"@) == Some(summary_json(v.items_at("rows"@), days))
            &&& result.get("columns"@) is Some ==> v.get("columns"@) == result.get("columns"@)
        }),
{
    broadcast use {lemma_get_with, lemma_with_is_object};

    lemma_inventory_keys();
}

// ---------------------------------------------------------------------------
// Updates
// ---------------------------------------------------------------------------
/// Under Homebrew there is an update exactly where Homebrew names one, and it is that one;
/// otherwise what is installed, else what was built, is the latest.
pub proof fn law_homebrew_report(built: Seq<char>, installed: Option<Seq<char>>, outdated: Option<Seq<char>>)
    ensures
        ({
            let v = homebrew_report(built, installed, outdated);
            &&& v.bool_at("updateAvailable"@) == Some(outdated is Some)
            &&& outdated is Some ==> v.text_at("latest"@) == outdated
            &&& outdated is None ==> v.text_at("latest"@) == v.text_at("current"@)
            &&& installed is Some ==> v.text_at("current"@) == installed
            &&& installed is None ==> v.text_at("current"@) == Some(built)
            &&& v.text_at("installMethod"@) == Some("homebrew"@)
            &&& v.text_at("command"@) == Some("matrix update"@)
        }),
{
    broadcast use {lemma_get_with, lemma_with_is_object};

    lemma_update_keys();
}

/// Without Homebrew there is an update exactly where the release is newer than what was
/// built.
pub proof fn law_release_report(built: Seq<char>, latest: Seq<char>, direct: bool, path: Option<Seq<char>>)
    ensures
        ({
            let v = release_report(built, latest, direct, path);
            &&& v.bool_at("updateAvailable"@) == Some(newer(numbers_of(built), numbers_of(latest)))
            &&& v.text_at("current"@) == Some(built)
            &&& v.text_at("latest"@) == Some(latest)
            &&& direct ==> v.text_at("installMethod"@) == Some("direct-linux"@)
            &&& !direct ==> v.text_at("installMethod"@) == Some("manual"@)
            &&& v.text_at("installPath"@) == path
            &&& v.text_at("command"@) == Some("matrix update"@)
            &&& v.text_at("manualCommand"@) == Some(linux_command(latest, path))
        }),
{
    broadcast use {lemma_get_with, lemma_with_is_object};

    lemma_update_keys();
}

/// An update under Homebrew is left to Homebrew; any other begins with a look at the latest
/// release. A check changes nothing.
pub proof fn law_update_begins(homebrew: Option<HomebrewState>, check: bool, built: Seq<char>)
    ensures
        homebrew is None <==> first_step(homebrew, check, built) is LookUp,
        homebrew is Some && !check <==> first_step(homebrew, check, built) is Upgrade,
        homebrew is Some && check <==> first_step(homebrew, check, built) is Done,
        homebrew is Some && check ==> first_step(homebrew, check, built)->Done_0.bool_at(
            "updateAvailable"@,
        ) == Some(homebrew->Some_0.outdated is Some),
{
    if homebrew is Some {
        law_homebrew_report(
            built,
            opt_view(homebrew->Some_0.installed),
            opt_view(homebrew->Some_0.outdated),
        );
    }
}

/// A release is installed where the program can replace itself and the release is newer, or
/// is forced; where the program cannot replace itself the update is refused, and where it is
/// not newer nothing is done. A check reports and does nothing else.
pub proof fn law_update_goes_on(
    command: UpdateCommand,
    built: Seq<char>,
    latest: Seq<char>,
    direct: bool,
    program: Option<Seq<char>>,
)
    ensures
        ({
            let step = next_step(command, built, latest, direct, program);
            let wanted = command.force || newer(numbers_of(built), numbers_of(latest));
            &&& step is Install <==> !command.check && direct && wanted
            &&& step is Refuse <==> !command.check && !direct
            &&& step is Done <==> command.check || (direct && !wanted)
            &&& command.check ==> step->Done_0.bool_at("updateAvailable"@) == Some(
                newer(numbers_of(built), numbers_of(latest)),
            )
            &&& command.check && command.install_path is Some ==> step->Done_0.text_at(
                "installPath"@,
            ) == opt_view(command.install_path)
            &&& command.check && command.install_path is None ==> step->Done_0.text_at(
                "installPath"@,
            ) == program
            &&& step is Refuse ==> step->Refuse_0 == unavailable_text(latest, program)
            &&& !command.check && direct && !wanted ==> step->Done_0 == JsonV::Text(
                "Already on latest version, "@ + built,
            )
        }),
{
    law_release_report(built, latest, direct, opt_view(command.install_path));
    law_release_report(built, latest, direct, program);
}

/// A newer version is told of, and no other: by Homebrew's word where it installed the
/// program, else by that of the releases.
pub proof fn law_notice_tells_newer(
    homebrew: bool,
    outdated: Option<Seq<char>>,
    built: Seq<char>,
    latest: Option<Seq<char>>,
)
    ensures
        ({
            let n = notice(homebrew, outdated, built, latest);
            let told = |v: Seq<char>| "Update "@ + v + " available, run `matrix update`\n"@;
            let is_newer = latest is Some && newer(numbers_of(built), numbers_of(latest->Some_0));
            &&& homebrew && outdated is Some ==> n == told(outdated->Some_0)
            &&& homebrew && outdated is None ==> n.len() == 0
            &&& !homebrew && is_newer ==> n == told(latest->Some_0)
            &&& !homebrew && !is_newer ==> n.len() == 0
        }),
{
}

/// A notice is for a person at a terminal, unless it is switched off or the program is being
/// updated; it is looked up again after a day.
pub proof fn law_notice_is_wanted(
    output: OutputFormat,
    updating: bool,
    off: bool,
    terminal: bool,
    wanted: bool,
    seconds: u64,
    nanos: u32,
    fresh: bool,
)
    requires
        call_ensures(notice_wanted, (output, updating, off, terminal), wanted),
        nanos < 1_000_000_000,
        call_ensures(notice_is_fresh, (seconds, nanos), fresh),
    ensures
        wanted ==> output is Human && terminal,
        updating || off ==> !wanted,
        output is Human && terminal && !updating && !off ==> wanted,
        fresh <==> seconds as int * 1_000_000_000 + nanos as int <= 24 * 60 * 60 * 1_000_000_000,
{
}

/// Homebrew installed the program where it has the formula and the program lies under one
/// of its directories.
pub proof fn law_homebrew_install(has_formula: bool, program: Option<String>, r: bool)
    requires
        call_ensures(is_homebrew_install, (has_formula, &program), r),
    ensures
        !has_formula || program is None ==> !r,
        has_formula && program is Some ==> (r <==> starts_with(
            program->Some_0@,
            "/opt/homebrew/"@,
        ) || starts_with(program->Some_0@, "/usr/local/"@)),
{
}

/// The program's own token for GitHub goes before the common one; a blank one is none.
pub proof fn law_github_token(own: Option<String>, common: Option<String>, r: Option<String>)
    requires
        call_ensures(github_token, (&own, &common), r),
    ensures
        ({
            let solid = |o: Option<String>| o is Some && trim(o->Some_0@).len() > 0;
            &&& solid(own) ==> opt_view(r) == opt_view(own)
            &&& !solid(own) && solid(common) ==> opt_view(r) == opt_view(common)
            &&& !solid(own) && !solid(common) ==> r is None
        }),
{
}

/// The address of an archive is that of the first asset with its name.
pub proof fn law_asset_is_first_of_name(assets: Seq<JsonV>, name: Seq<char>, k: int)
    requires
        0 <= k < assets.len(),
        assets[k].text_at("name"@) == Some(name),
        forall|j: int| 0 <= j < k ==> (#[trigger] assets[j]).text_at("name"@) != Some(name),
    ensures
        asset_url(assets, name, 0) == assets[k].text_at("url"@),
{
    lemma_asset_from(assets, name, 0, k);
}

proof fn lemma_asset_from(assets: Seq<JsonV>, name: Seq<char>, i: int, k: int)
    requires
        0 <= i <= k < assets.len(),
        assets[k].text_at("name"@) == Some(name),
        forall|j: int| i <= j < k ==> (#[trigger] assets[j]).text_at("name"@) != Some(name),
    ensures
        asset_url(assets, name, i) == assets[k].text_at("url"@),
    decreases k - i,
{
    if i < k {
        lemma_asset_from(assets, name, i + 1, k);
    }
}

/// Without an asset of the name there is no archive.
pub proof fn law_no_asset_of_name(assets: Seq<JsonV>, name: Seq<char>, i: int)
    requires
        forall|j: int| 0 <= j < assets.len() ==> (#[trigger] assets[j]).text_at("name"@) != Some(name),
    ensures
        asset_url(assets, name, i) is None,
    decreases assets.len() - i,
{
    if 0 <= i < assets.len() {
        law_no_asset_of_name(assets, name, i + 1);
    }
}

// ---------------------------------------------------------------------------
// The oracle
// ---------------------------------------------------------------------------
/// The oracle's client takes the command line before the environment, and that before the
/// file, without slashes at the end.
pub proof fn law_oracle_prefers_command_line(
    oracle: Option<String>,
    prefix: Option<String>,
    oracle_env: Option<String>,
    prefix_env: Option<String>,
    path: String,
    config: OracleConfig,
    json: bool,
    r: OracleClient,
)
    requires
        call_ensures(
            OracleClient::load,
            (oracle, prefix, oracle_env, prefix_env, path, config, json),
            r,
        ),
    ensures
        ({
            let bare = |s: Seq<char>| trim_end(s, CharClass::Is('/'));
            &&& oracle is Some ==> opt_view(r.oracle) == Some(bare(oracle->Some_0@))
            &&& oracle is None && oracle_env is Some ==> opt_view(r.oracle) == Some(
                bare(oracle_env->Some_0@),
            )
            &&& oracle is None && oracle_env is None && config.oracle is Some ==> opt_view(r.oracle)
                == Some(bare(config.oracle->Some_0@))
            &&& oracle is None && oracle_env is None && config.oracle is None ==> r.oracle is None
            &&& prefix is Some ==> r.api_prefix@ == bare(prefix->Some_0@)
            &&& prefix is None && prefix_env is Some ==> r.api_prefix@ == bare(prefix_env->Some_0@)
            &&& prefix is None && prefix_env is None && config.api_prefix is Some ==> r.api_prefix@
                == bare(config.api_prefix->Some_0@)
            &&& prefix is None && prefix_env is None && config.api_prefix is None ==> r.api_prefix@
                == bare("/v1/compatibility"@)
        }),
{
}

/// What is set of the oracle's settings is shown, a token only as being there; the other
/// settings stay.
pub proof fn law_oracle_setting_is_shown(path: Seq<char>, c: OracleConfigV, value: Seq<char>)
    ensures
        with_key(c, "oracle"@, value)->Ok_0 == (OracleConfigV { oracle: Some(value), ..c }),
        with_key(c, "api-prefix"@, value)->Ok_0 == (OracleConfigV { api_prefix: Some(value), ..c }),
        with_key(c, "apiPrefix"@, value) == with_key(c, "api-prefix"@, value),
        with_key(c, "token"@, value)->Ok_0 == (OracleConfigV { token: Some(value), ..c }),
        shown_key(c, "oracle"@)->Ok_0.text_at("oracle"@) == c.oracle,
        shown_key(c, "api-prefix"@)->Ok_0.text_at("apiPrefix"@) == c.api_prefix,
        shown_key(c, "apiPrefix"@) == shown_key(c, "api-prefix"@),
        shown_key(c, "token"@)->Ok_0.bool_at("hasToken"@) == Some(c.token is Some),
        shown_config(path, c).text_at("configPath"@) == Some(path),
        shown_config(path, c).text_at("oracle"@) == c.oracle,
        shown_config(path, c).text_at("apiPrefix"@) == c.api_prefix,
        shown_config(path, c).bool_at("hasToken"@) == Some(c.token is Some),
{
    broadcast use {lemma_get_with, lemma_with_is_object};

    lemma_oracle_keys();
}

/// A row of the oracle's table holds the fact's members; its zone is the track where the
/// fact names one.
pub proof fn law_oracle_row_is_read(fact: Json, r: OracleRow)
    requires
        call_ensures(oracle_row, (&fact,), r),
    ensures
        fact@.get("track"@) is Some ==> opt_view(r.zone) == fact@.text_at("track"@),
        fact@.get("track"@) is None ==> opt_view(r.zone) == fact@.text_at("zone"@),
        opt_view(r.id) == fact@.text_at("id"@),
        opt_view(r.kind) == fact@.text_at("kind"@),
        opt_view(r.status) == fact@.text_at("status"@),
        opt_view(r.source_repository) == fact@.text_at("sourceRepository"@),
        opt_view(r.source_sha) == fact@.text_at("sourceSha"@),
        opt_view(r.subject_type) == fact@.text_at("subjectType"@),
        opt_view(r.subject_name) == fact@.text_at("subjectName"@),
        opt_view(r.channel) == fact@.text_at("channel"@),
        opt_view(r.observed_at) == fact@.text_at("observedAt"@),
        r.json@ == json_print(fact@),
{
}

/// A few words end the shell, clear it or ask for help; every other line is a query.
pub proof fn law_oracle_line_is_read(raw: &str, r: OracleLine)
    requires
        call_ensures(read_line, (raw,), r),
    ensures
        ({
            let t = trim(raw@);
            let quits = t == "red"@ || t == "red-pill"@ || t == "exit"@ || t == "quit"@;
            let clears = t == "blue"@ || t == "blue-pill"@ || t == "clear"@;
            &&& r is Nothing <==> t.len() == 0
            &&& r is Quit <==> quits
            &&& r is Clear <==> clears
            &&& r is Help <==> t == "help"@
            &&& r is Query <==> t.len() > 0 && !quits && !clears && t != "help"@
            &&& r is Query ==> r->Query_0@ == t
        }),
{
    lemma_line_words();
    reveal_strlit("red");
    reveal_strlit("red-pill");
    reveal_strlit("exit");
    reveal_strlit("quit");
    reveal_strlit("blue");
    reveal_strlit("blue-pill");
    reveal_strlit("clear");
    reveal_strlit("help");
}

// ---------------------------------------------------------------------------
// Statements
// ---------------------------------------------------------------------------
/// A statement that only reads selects, or explains a plan. One that starts with `with` may
/// hold neither insert, update nor delete, nor replace rows.
pub proof fn law_only_reads(sql: Seq<char>)
    ensures
        ({
            let s = lower(trim(sql));
            let w = sql_words(sql);
            let writes = exists|i: int|
                0 <= i < w.len() && (#[trigger] w[i] == "insert"@ || w[i] == "update"@ || w[i]
                    == "delete"@ || (w[i] == "replace"@ && i + 1 < w.len() && w[i + 1] == "into"@));
            &&& starts_with(s, "select "@) ==> selects(sql) && reads_only(sql)
            &&& starts_with(s, "with "@) && !writes ==> selects(sql) && reads_only(sql)
            &&& starts_with(s, "explain query plan "@) ==> reads_only(sql)
            &&& starts_with(s, "with "@) && writes ==> !selects(sql) && !reads_only(sql)
            &&& reads_only(sql) ==> starts_with(s, "select "@) || starts_with(s, "with "@)
                || starts_with(s, "explain query plan "@)
            &&& selects(sql) ==> starts_with(s, "select "@) || starts_with(s, "with "@)
        }),
{
    reveal_strlit("select ");
    reveal_strlit("with ");
    reveal_strlit("explain query plan ");
    let s = lower(trim(sql));
    let w = sql_words(sql);
    if starts_with(s, "with "@) {
        assert(s[0] == "with "@[0]);
        if starts_with(s, "select "@) {
            assert(s[0] == "select "@[0]);
        }
        if starts_with(s, "explain query plan "@) {
            assert(s[0] == "explain query plan "@[0]);
        }
    }
    if exists|i: int|
        0 <= i < w.len() && (#[trigger] w[i] == "insert"@ || w[i] == "update"@ || w[i] == "delete"@
            || (w[i] == "replace"@ && i + 1 < w.len() && w[i + 1] == "into"@)) {
        let i = choose|i: int|
            0 <= i < w.len() && (#[trigger] w[i] == "insert"@ || w[i] == "update"@ || w[i]
                == "delete"@ || (w[i] == "replace"@ && i + 1 < w.len() && w[i + 1] == "into"@));
        assert(crate::readonly::changes_at(w, i));
    }
    if changes_rows(sql) {
        let i = choose|i: int|
            0 <= i < sql_words(sql).len() && #[trigger] crate::readonly::changes_at(
                sql_words(sql),
                i,
            );
        assert(w[i] == w[i]);
    }
}

// ---------------------------------------------------------------------------
// Reports
// ---------------------------------------------------------------------------
/// The doctor tells what is configured and whether the construct was reached, and why not.
pub proof fn law_doctor_tells_reach(matrix: Matrix, auth: JsonV, reach: Reach)
    ensures
        ({
            let v = doctor_json(matrix, auth, reach);
            let inner = v.get("reachability"@);
            &&& v.text_at("configPath"@) == Some(matrix.config_path@)
            &&& v.text_at("construct"@) == opt_view(matrix.construct)
            &&& v.text_at("apiPrefix"@) == Some(matrix.api_prefix@)
            &&& matrix.profile is Some ==> v.text_at("profile"@) == Some("red-wiz"@)
            &&& matrix.profile is None ==> v.get("profile"@) == Some(JsonV::Null)
            &&& v.get("auth"@) == Some(auth)
            &&& v.bool_at("reachable"@) == Some(reach is Reached)
            &&& inner is Some
            &&& inner->Some_0.bool_at("reachable"@) == Some(reach is Reached)
            &&& reach is Reached ==> inner->Some_0.get("error"@) is None
            &&& reach is Unset ==> inner->Some_0.text_at("error"@) == Some("no construct configured"@)
            &&& reach matches Reach::Failed(m) ==> inner->Some_0.text_at("error"@) == Some(m@)
        }),
{
    broadcast use {lemma_get_with, lemma_with_is_object};

    lemma_doctor_keys();
}

/// The status of a session shows its state.
pub proof fn law_status_shows_session(matrix: Matrix, state: ReplState, facts: SessionFacts)
    ensures
        ({
            let v = status_json(matrix, state, facts);
            &&& v.text_at("construct"@) == opt_view(matrix.construct)
            &&& v.text_at("apiPrefix"@) == Some(matrix.api_prefix@)
            &&& v.get("context"@) == Some(facts.context@)
            &&& v.get("facts"@) == Some(JsonV::number(facts.fact_count as nat))
            &&& v.get("maxFacts"@) == Some(JsonV::number(state.max_facts as nat))
            &&& v.bool_at("expanded"@) == Some(state.expanded)
            &&& v.bool_at("timing"@) == Some(state.timing)
            &&& facts.refreshed_seconds is Some ==> v.text_at("refreshed"@) == Some(
                decimal(facts.refreshed_seconds->Some_0 as nat) + "s ago"@,
            )
            &&& facts.refreshed_seconds is None ==> v.text_at("refreshed"@) == Some("unknown"@)
            &&& v.get("cache"@) == Some(facts.cache@)
        }),
{
    broadcast use {lemma_get_with, lemma_with_is_object};

    lemma_session_keys();
}

// ---------------------------------------------------------------------------
// Keys
// ---------------------------------------------------------------------------
proof fn lemma_summary_keys()
    ensures
        mark("facts"@) == 9911510205,
        mark("inferredSubjectRepoFacts"@) == 10111510524,
        mark("invalidFacts"@) == 10011510512,
        mark("missingProducerMetadataFacts"@) == 11411510928,
        mark("producers"@) == 11711511209,
        mark("sourceRepoFacts"@) == 10111511515,
        mark("staleAfterDays"@) == 11611511514,
        mark("staleProducers"@) == 11111511514,
        mark("unknownProducerFacts"@) == 10011511720,
{
    reveal_strlit("facts");
    reveal_strlit("inferredSubjectRepoFacts");
    reveal_strlit("invalidFacts");
    reveal_strlit("missingProducerMetadataFacts");
    reveal_strlit("producers");
    reveal_strlit("sourceRepoFacts");
    reveal_strlit("staleAfterDays");
    reveal_strlit("staleProducers");
    reveal_strlit("unknownProducerFacts");
}


proof fn lemma_inventory_keys()
    ensures
        "columns"@ != "kind"@,
        "columns"@ != "rows"@,
        "columns"@ != "summary"@,
        "kind"@ != "rows"@,
        "kind"@ != "summary"@,
        "rows"@ != "summary"@,
{
    reveal_strlit("columns");
    reveal_strlit("kind");
    reveal_strlit("rows");
    reveal_strlit("summary");
    assert("columns"@.len() != "kind"@.len());
    assert("columns"@.len() != "rows"@.len());
    assert("columns"@[0] != "summary"@[0]);
    assert("kind"@[0] != "rows"@[0]);
    assert("kind"@.len() != "summary"@.len());
    assert("rows"@.len() != "summary"@.len());
}


proof fn lemma_update_keys()
    ensures
        mark("command"@) == 10910009907,
        mark("current"@) == 11411609907,
        mark("installMethod"@) == 10810010513,
        mark("installPath"@) == 10810410511,
        mark("latest"@) == 10111610806,
        mark("manualCommand"@) == 6710010913,
        mark("updateAvailable"@) == 11810111715,
{
    reveal_strlit("command");
    reveal_strlit("current");
    reveal_strlit("installMethod");
    reveal_strlit("installPath");
    reveal_strlit("latest");
    reveal_strlit("manualCommand");
    reveal_strlit("updateAvailable");
}


proof fn lemma_oracle_keys()
    ensures
        mark("api-prefix"@) == 11412009710,
        mark("apiPrefix"@) == 11412009709,
        mark("configPath"@) == 10310409910,
        mark("hasToken"@) == 11111010408,
        mark("oracle"@) == 9910111106,
        mark("token"@) == 10711011605,
{
    reveal_strlit("api-prefix");
    reveal_strlit("apiPrefix");
    reveal_strlit("configPath");
    reveal_strlit("hasToken");
    reveal_strlit("oracle");
    reveal_strlit("token");
}


proof fn lemma_line_words()
    ensures
        mark("blue"@) == 11710109804,
        mark("blue-pill"@) == 4510809809,
        mark("clear"@) == 10111409905,
        mark("exit"@) == 10511610104,
        mark("help"@) == 10811210404,
        mark("quit"@) == 10511611304,
        mark("red"@) == 10110011403,
        mark("red-pill"@) == 11210811408,
{
    reveal_strlit("blue");
    reveal_strlit("blue-pill");
    reveal_strlit("clear");
    reveal_strlit("exit");
    reveal_strlit("help");
    reveal_strlit("quit");
    reveal_strlit("red");
    reveal_strlit("red-pill");
}


proof fn lemma_doctor_keys()
    ensures
        mark("apiPrefix"@) == 11412009709,
        mark("auth"@) == 11610409704,
        mark("configPath"@) == 10310409910,
        mark("construct"@) == 11611609909,
        mark("error"@) == 11411410105,
        mark("profile"@) == 10210111207,
        mark("reachability"@) == 9812111412,
        mark("reachable"@) == 10410111409,
{
    reveal_strlit("apiPrefix");
    reveal_strlit("auth");
    reveal_strlit("configPath");
    reveal_strlit("construct");
    reveal_strlit("error");
    reveal_strlit("profile");
    reveal_strlit("reachability");
    reveal_strlit("reachable");
}


proof fn lemma_session_keys()
    ensures
        mark("apiPrefix"@) == 11412009709,
        mark("cache"@) == 9910109905,
        mark("construct"@) == 11611609909,
        mark("context"@) == 11611609907,
        mark("expanded"@) == 11010010108,
        mark("facts"@) == 9911510205,
        mark("maxFacts"@) == 9711510908,
        mark("mode"@) == 10010110904,
        mark("refreshed"@) == 10110011409,
        mark("timing"@) == 10510311606,
{
    reveal_strlit("apiPrefix");
    reveal_strlit("cache");
    reveal_strlit("construct");
    reveal_strlit("context");
    reveal_strlit("expanded");
    reveal_strlit("facts");
    reveal_strlit("maxFacts");
    reveal_strlit("mode");
    reveal_strlit("refreshed");
    reveal_strlit("timing");
}


} // verus!
