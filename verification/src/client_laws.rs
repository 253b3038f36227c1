//! What the client's settings, its token and its cache amount to.
use vstd::prelude::*;
use crate::cache::{
    bytes_text, duration_text, first_step, float_value, fresh_metadata, head_entries, head_matches,
    head_of, metadata_entries, nearest, page_path, page_size, summarized, summary_json, tenths_text,
    FactCacheSource, HeadV, MetadataV, SummaryV,
};
use crate::config::{
    command_token, diagnosis, pack_list, reply_value, CachePolicy, CandidateV, Config,
    ConfigProfile, ConfigV, Environment, Matrix, OutputFormat, RED_WIZ_API_PREFIX,
    RED_WIZ_CONSTRUCT_URL, RED_WIZ_TOKEN_COMMAND,
};
use crate::json::{lemma_get_with, lemma_with_is_object, JsonV};
use crate::render::{html_page, response_value};
use crate::request::{pair, query_text};
use crate::settings::{changed, listing, saved_profile, shown, using, Setting};
use crate::text::{decimal, lower, opt_view, trim, trim_end, CharClass};
use crate::text_laws::mark;

verus! {

// ---------------------------------------------------------------------------
// Settings in force
// ---------------------------------------------------------------------------
/// Loading takes each setting from the command line, else from the environment, else from
/// the profile in force, else from the file, without slashes at its end. A profile of the
/// environment that is none is passed over.
pub proof fn law_load_prefers_command_line(
    construct: Option<String>,
    prefix: Option<String>,
    profile: Option<ConfigProfile>,
    output: OutputFormat,
    path: String,
    config: Config,
    env: Environment,
    r: Matrix,
)
    requires
        call_ensures(Matrix::load, (construct, prefix, profile, output, path, config, env), r),
    ensures
        profile is Some ==> r.profile == profile,
        profile is None && env.profile is Some && lower(env.profile->Some_0@) == "red-wiz"@
            ==> r.profile == Some(ConfigProfile::RedWiz),
        profile is None && (env.profile is None || lower(env.profile->Some_0@) != "red-wiz"@)
            ==> r.profile == config.profile,
        ({
            let slash = CharClass::Is('/');
            let got = opt_view(r.construct);
            &&& construct is Some ==> got == Some(trim_end(construct->Some_0@, slash))
            &&& construct is None && env.construct is Some ==> got == Some(
                trim_end(env.construct->Some_0@, slash),
            )
            &&& construct is None && env.construct is None && r.profile is Some ==> got == Some(
                trim_end(RED_WIZ_CONSTRUCT_URL@, slash),
            )
            &&& construct is None && env.construct is None && r.profile is None
                && config.construct is Some ==> got == Some(
                trim_end(config.construct->Some_0@, slash),
            )
            &&& construct is None && env.construct is None && r.profile is None
                && config.construct is None ==> got is None
            &&& prefix is Some ==> r.api_prefix@ == trim_end(prefix->Some_0@, slash)
            &&& prefix is None && env.api_prefix is Some ==> r.api_prefix@ == trim_end(
                env.api_prefix->Some_0@,
                slash,
            )
            &&& prefix is None && env.api_prefix is None && r.profile is Some ==> r.api_prefix@
                == trim_end(RED_WIZ_API_PREFIX@, slash)
            &&& prefix is None && env.api_prefix is None && r.profile is None
                && config.api_prefix is Some ==> r.api_prefix@ == trim_end(
                config.api_prefix->Some_0@,
                slash,
            )
        }),
{
}

/// Where a token is taken from: a token goes before a file, and a file before a command; of
/// two of the same sort that of the environment goes before the configured one. The
/// command of a profile is the last resort. What is blank in the environment, and a blank
/// token, is not there.
pub proof fn law_token_is_taken_from(m: Matrix)
    ensures
        ({
            let solid = |o: Option<String>| o is Some && trim(o->Some_0@).len() > 0;
            let e = m.environment;
            let c = m.config;
            let a = solid(e.token);
            let b = solid(c.token);
            let f = solid(e.token_file);
            let g = c.token_file is Some;
            let h = solid(e.token_command);
            let k = c.token_command is Some;
            let r = m.candidate();
            &&& a ==> r == Some(CandidateV::EnvToken(e.token->Some_0@))
            &&& !a && b ==> r == Some(CandidateV::ConfigToken(c.token->Some_0@))
            &&& !a && !b && f ==> r == Some(CandidateV::EnvTokenFile(e.token_file->Some_0@))
            &&& !a && !b && !f && g ==> r == Some(CandidateV::ConfigTokenFile(c.token_file->Some_0@))
            &&& !a && !b && !f && !g && h ==> r == Some(
                CandidateV::EnvTokenCommand(e.token_command->Some_0@),
            )
            &&& !a && !b && !f && !g && !h && k ==> r == Some(
                CandidateV::ConfigTokenCommand(c.token_command->Some_0@),
            )
            &&& !a && !b && !f && !g && !h && !k && m.profile is Some ==> r == Some(
                CandidateV::ProfileTokenCommand(RED_WIZ_TOKEN_COMMAND@),
            )
            &&& !a && !b && !f && !g && !h && !k && m.profile is None ==> r is None
        }),
{
}

/// A member that holds a usable token: a text that is neither blank nor the placeholder.
pub open spec fn holds_token(v: JsonV, key: Seq<char>) -> bool {
    v.text_at(key) is Some && trim(v.text_at(key)->Some_0).len() > 0 && trim(
        v.text_at(key)->Some_0,
    ) != "<token>"@
}

/// The token that a command printed is the text itself, without the space around it, or,
/// of a JSON value, the usable one that stands under the first of four names. A JSON value
/// without one is an error, and no text at all is no token.
pub proof fn law_command_prints_token(command: Seq<char>, text: Seq<char>, v: JsonV)
    ensures
        trim(text).len() == 0 ==> command_token(command, text, Some(v)) == Ok::<
            Option<Seq<char>>,
            Seq<char>,
        >(None) && command_token(command, text, None) == Ok::<Option<Seq<char>>, Seq<char>>(None),
        trim(text).len() > 0 ==> command_token(command, text, None) == Ok::<
            Option<Seq<char>>,
            Seq<char>,
        >(Some(trim(text))),
        trim(text).len() > 0 ==> ({
            let r = command_token(command, text, Some(v));
            let a = holds_token(v, "access_token"@);
            let b = holds_token(v, "token"@);
            let c = holds_token(v, "bearerToken"@);
            let d = holds_token(v, "bearer_token"@);
            &&& r is Err <==> !a && !b && !c && !d
            &&& r is Ok ==> r->Ok_0 is Some
            &&& a ==> r->Ok_0->Some_0 == trim(v.text_at("access_token"@)->Some_0)
            &&& !a && b ==> r->Ok_0->Some_0 == trim(v.text_at("token"@)->Some_0)
            &&& !a && !b && c ==> r->Ok_0->Some_0 == trim(v.text_at("bearerToken"@)->Some_0)
            &&& !a && !b && !c && d ==> r->Ok_0->Some_0 == trim(v.text_at("bearer_token"@)->Some_0)
        }),
{
}

/// The policy in force is that of the environment, else that of the file, else `auto`; a
/// policy of the environment that is none is an error.
pub proof fn law_policy_in_force(m: Matrix)
    ensures
        m.environment.cache_policy is None && m.config.cache_policy is Some ==> m.policy() == Ok::<
            CachePolicy,
            Seq<char>,
        >(m.config.cache_policy->Some_0),
        m.environment.cache_policy is None && m.config.cache_policy is None ==> m.policy() == Ok::<
            CachePolicy,
            Seq<char>,
        >(CachePolicy::Auto),
        m.environment.cache_policy is Some ==> ({
            let t = lower(trim(m.environment.cache_policy->Some_0@));
            let auto_name = t == "auto"@ || t == "hot-miss"@ || t == "hot-miss-refresh"@;
            let prefer_name = t == "prefer-cache"@ || t == "cache"@ || t == "cache-first"@ || t
                == "local"@;
            let refresh_name = t == "refresh"@ || t == "always-refresh"@ || t == "live"@;
            &&& auto_name ==> m.policy() == Ok::<CachePolicy, Seq<char>>(CachePolicy::Auto)
            &&& prefer_name ==> m.policy() == Ok::<CachePolicy, Seq<char>>(CachePolicy::PreferCache)
            &&& refresh_name ==> m.policy() == Ok::<CachePolicy, Seq<char>>(CachePolicy::Refresh)
            &&& t == "offline"@ ==> m.policy() == Ok::<CachePolicy, Seq<char>>(CachePolicy::Offline)
            &&& m.policy() is Err <==> !auto_name && !prefer_name && !refresh_name && t != "offline"@
        }),
{
    lemma_policy_names();
}

/// Asking for the cache alone and for a refresh at once is refused; asking for one of the
/// two overrides the policy in force.
pub proof fn law_load_options(m: Matrix, offline: bool, refresh: bool, r: Result<CachePolicy, String>)
    requires
        call_ensures(Matrix::fact_load_options, (&m, offline, refresh), r),
    ensures
        offline && refresh ==> r is Err,
        offline && !refresh ==> r == Ok::<CachePolicy, String>(CachePolicy::Offline),
        !offline && refresh ==> r == Ok::<CachePolicy, String>(CachePolicy::Refresh),
        !offline && !refresh ==> crate::config::policy_result(r) == m.policy(),
{
}

/// A reply that is no success is an error that tells its status; so is a page in place of an
/// answer. Every other reply is its value.
pub proof fn law_reply_is_read(success: bool, status: Seq<char>, kind: Seq<char>, text: Seq<char>)
    ensures
        ({
            let r = reply_value(success, status, kind, text);
            &&& !success ==> r is Err && r->Err_0.take(("construct "@ + status + ": "@).len() as int)
                == "construct "@ + status + ": "@
            &&& success && html_page(kind, text) ==> r is Err
            &&& success && !html_page(kind, text) ==> r == Ok::<JsonV, Seq<char>>(
                response_value(text),
            )
        }),
{
    let head = "construct "@ + status + ": "@;
    if !success {
        let r = reply_value(success, status, kind, text)->Err_0;
        assert(r.take(head.len() as int) =~= head);
    }
}

/// What the diagnosis tells: whether a token is configured and could be had, and from where.
pub proof fn law_diagnosis_tells_source(candidate: Option<CandidateV>, available: bool, error: Option<Seq<char>>)
    ensures
        ({
            let v = diagnosis(candidate, available, error);
            &&& v.bool_at("configured"@) == Some(candidate is Some)
            &&& v.bool_at("available"@) == Some(candidate is Some && available)
            &&& candidate is None ==> v.get("source"@) == Some(JsonV::Null)
            &&& candidate matches Some(CandidateV::EnvToken(_)) ==> v.text_at("source"@) == Some(
                "env-token"@,
            )
            &&& candidate matches Some(CandidateV::ConfigToken(_)) ==> v.text_at("source"@) == Some(
                "config-token"@,
            )
            &&& candidate matches Some(CandidateV::EnvTokenFile(p)) ==> v.text_at("source"@) == Some(
                "env-token-file"@,
            ) && v.text_at("tokenFile"@) == Some(p)
            &&& candidate matches Some(CandidateV::ConfigTokenFile(p)) ==> v.text_at("source"@)
                == Some("config-token-file"@) && v.text_at("tokenFile"@) == Some(p)
            &&& candidate matches Some(CandidateV::EnvTokenCommand(p)) ==> v.text_at("source"@)
                == Some("env-token-command"@) && v.text_at("tokenCommand"@) == Some(p)
            &&& candidate matches Some(CandidateV::ConfigTokenCommand(p)) ==> v.text_at("source"@)
                == Some("config-token-command"@) && v.text_at("tokenCommand"@) == Some(p)
            &&& candidate matches Some(CandidateV::ProfileTokenCommand(p)) ==> v.text_at("source"@)
                == Some("profile-token-command"@) && v.text_at("tokenCommand"@) == Some(p)
            &&& candidate is Some && error is Some ==> v.text_at("error"@) == error
        }),
{
    broadcast use {lemma_get_with, lemma_with_is_object};

    lemma_diagnosis_keys();
}

// ---------------------------------------------------------------------------
// Changing settings
// ---------------------------------------------------------------------------
/// What is set is what is configured afterwards: a text as it was given, a number by its
/// value, a policy and a profile by their names, a list of packs by its parts. A value that is
/// no number, no policy or no profile is refused.
pub proof fn law_setting_is_set(c: ConfigV, value: Seq<char>)
    ensures
        changed(c, Setting::Construct, value)->Ok_0 == (ConfigV { construct: Some(value), ..c }),
        changed(c, Setting::ApiPrefix, value)->Ok_0 == (ConfigV { api_prefix: Some(value), ..c }),
        changed(c, Setting::Token, value)->Ok_0 == (ConfigV { token: Some(value), ..c }),
        changed(c, Setting::TokenFile, value)->Ok_0 == (ConfigV { token_file: Some(value), ..c }),
        changed(c, Setting::TokenCommand, value)->Ok_0 == (ConfigV {
            token_command: Some(value),
            ..c
        }),
        changed(c, Setting::SqlInit, value)->Ok_0 == (ConfigV { sql_init: Some(value), ..c }),
        changed(c, Setting::SqlPack, value)->Ok_0 == (ConfigV { sql_packs: seq![value], ..c }),
        changed(c, Setting::SqlPacks, value)->Ok_0 == (ConfigV {
            sql_packs: pack_list(value),
            ..c
        }),
        changed(c, Setting::Profile, value) is Ok <==> lower(value) == "red-wiz"@,
        changed(c, Setting::Profile, value) is Ok ==> changed(c, Setting::Profile, value)->Ok_0 == (
        ConfigV { profile: Some(ConfigProfile::RedWiz), ..c }),
        changed(c, Setting::CachePolicy, value) is Ok <==> CachePolicy::named(value) is Some,
        changed(c, Setting::CachePolicy, value) is Ok ==> changed(
            c,
            Setting::CachePolicy,
            value,
        )->Ok_0 == (ConfigV { cache_policy: CachePolicy::named(value), ..c }),
        ({
            let n = crate::text::parse_unsigned(value, usize::MAX as int);
            &&& changed(c, Setting::CacheMaxFacts, value) is Ok <==> n is Some
            &&& n is Some ==> changed(c, Setting::CacheMaxFacts, value)->Ok_0 == (ConfigV {
                cache_max_facts: Some(n->Some_0 as usize),
                ..c
            })
        }),
{
}

/// A setting has one key with dashes and one in camel case, and no two settings share one.
pub proof fn law_setting_keys()
    ensures
        Setting::keyed("profile"@) == Some(Setting::Profile),
        Setting::keyed("construct"@) == Some(Setting::Construct),
        Setting::keyed("api-prefix"@) == Some(Setting::ApiPrefix),
        Setting::keyed("apiPrefix"@) == Some(Setting::ApiPrefix),
        Setting::keyed("token"@) == Some(Setting::Token),
        Setting::keyed("token-file"@) == Some(Setting::TokenFile),
        Setting::keyed("tokenFile"@) == Some(Setting::TokenFile),
        Setting::keyed("token-command"@) == Some(Setting::TokenCommand),
        Setting::keyed("tokenCommand"@) == Some(Setting::TokenCommand),
        Setting::keyed("sql-init"@) == Some(Setting::SqlInit),
        Setting::keyed("sqlInit"@) == Some(Setting::SqlInit),
        Setting::keyed("sql-pack"@) == Some(Setting::SqlPack),
        Setting::keyed("sqlPack"@) == Some(Setting::SqlPack),
        Setting::keyed("sql-packs"@) == Some(Setting::SqlPacks),
        Setting::keyed("sqlPacks"@) == Some(Setting::SqlPacks),
        Setting::keyed("cache-policy"@) == Some(Setting::CachePolicy),
        Setting::keyed("cachePolicy"@) == Some(Setting::CachePolicy),
        Setting::keyed("cache-max-facts"@) == Some(Setting::CacheMaxFacts),
        Setting::keyed("cacheMaxFacts"@) == Some(Setting::CacheMaxFacts),
        Setting::keyed("max-facts"@) == Some(Setting::CacheMaxFacts),
        Setting::keyed("maxFacts"@) == Some(Setting::CacheMaxFacts),
{
    lemma_setting_keys();
}

/// The listing shows every setting, of the token and its command only whether they are there,
/// and what it shows of one is what reading that one shows.
pub proof fn law_listing_shows_settings(path: Seq<char>, c: ConfigV)
    ensures
        ({
            let v = listing(path, c);
            let one = |s: Setting| shown(c, s);
            &&& v.text_at("configPath"@) == Some(path)
            &&& v.text_at("construct"@) == c.construct
            &&& v.text_at("apiPrefix"@) == c.api_prefix
            &&& v.text_at("tokenFile"@) == c.token_file
            &&& v.text_at("sqlInit"@) == c.sql_init
            &&& v.bool_at("hasToken"@) == Some(c.token is Some)
            &&& v.bool_at("hasTokenCommand"@) == Some(c.token_command is Some)
            &&& c.profile is Some ==> v.text_at("profile"@) == Some("red-wiz"@)
            &&& c.profile is None ==> v.get("profile"@) == Some(JsonV::Null)
            &&& v.get("sqlPacks"@) == Some(JsonV::texts(c.sql_packs))
            &&& c.cache_max_facts is Some ==> v.get("cacheMaxFacts"@) == Some(
                JsonV::number(c.cache_max_facts->Some_0 as nat),
            )
            &&& c.cache_max_facts is None ==> v.get("cacheMaxFacts"@) == Some(JsonV::Null)
            &&& c.cache_policy is Some ==> v.text_at("cachePolicy"@) == Some(
                c.cache_policy->Some_0.name(),
            )
            &&& one(Setting::Profile).get("profile"@) == v.get("profile"@)
            &&& one(Setting::Construct).get("construct"@) == v.get("construct"@)
            &&& one(Setting::ApiPrefix).get("apiPrefix"@) == v.get("apiPrefix"@)
            &&& one(Setting::Token).get("hasToken"@) == v.get("hasToken"@)
            &&& one(Setting::TokenFile).get("tokenFile"@) == v.get("tokenFile"@)
            &&& one(Setting::TokenCommand).get("hasTokenCommand"@) == v.get("hasTokenCommand"@)
            &&& one(Setting::SqlInit).get("sqlInit"@) == v.get("sqlInit"@)
            &&& one(Setting::SqlPack).get("sqlPacks"@) == v.get("sqlPacks"@)
            &&& one(Setting::SqlPacks).get("sqlPacks"@) == v.get("sqlPacks"@)
            &&& one(Setting::CachePolicy).get("cachePolicy"@) == v.get("cachePolicy"@)
            &&& one(Setting::CacheMaxFacts).get("cacheMaxFacts"@) == v.get("cacheMaxFacts"@)
        }),
{
    broadcast use {lemma_get_with, lemma_with_is_object};

    lemma_listing_keys();
}

/// A profile that is used brings its construct, its prefix and its token command; what is
/// reported is what is configured then.
pub proof fn law_profile_is_used(path: Seq<char>, c: ConfigV, profile: ConfigProfile)
    ensures
        ({
            let u = using(c, profile);
            let v = saved_profile(path, profile, u);
            &&& u.construct == Some(RED_WIZ_CONSTRUCT_URL@)
            &&& u.api_prefix == Some(RED_WIZ_API_PREFIX@)
            &&& u.token_command == Some(RED_WIZ_TOKEN_COMMAND@)
            &&& v.text_at("saved"@) == Some(path)
            &&& v.text_at("profile"@) == Some("red-wiz"@)
            &&& v.text_at("construct"@) == u.construct
            &&& v.text_at("apiPrefix"@) == u.api_prefix
            &&& v.bool_at("hasToken"@) == Some(false)
            &&& v.bool_at("hasTokenCommand"@) == Some(true)
            &&& v.get("tokenFile"@) == Some(JsonV::Null)
        }),
{
    broadcast use {lemma_get_with, lemma_with_is_object};

    lemma_listing_keys();
}

// ---------------------------------------------------------------------------
// The cache
// ---------------------------------------------------------------------------
/// A cache that holds enough serves as long as it is fresh; a stale one is held against the
/// construct's head first, unless the cache is preferred. What does not hold enough, or
/// cannot be read, is fetched.
pub proof fn law_cache_serves(summary: Option<SummaryV>, max_facts: usize)
    ensures
        ({
            let enough = summary is Some && summary->Some_0.metadata is Some
                && summary->Some_0.metadata->Some_0.max_facts >= max_facts;
            let fresh = enough && !summary->Some_0.stale;
            let auto_step = first_step(CachePolicy::Auto, summary, max_facts);
            let prefer_step = first_step(CachePolicy::PreferCache, summary, max_facts);
            &&& auto_step is UseCache <==> fresh
            &&& auto_step is CheckHead <==> enough && !fresh
            &&& auto_step is Sync <==> !enough
            &&& prefer_step is UseCache <==> enough
            &&& prefer_step is Sync <==> !enough
            &&& first_step(CachePolicy::Refresh, summary, max_facts) is Sync
            &&& first_step(CachePolicy::Offline, summary, max_facts) is UseCache
        }),
{
}

/// A cache is stale more than a day after it was last checked, or after it was fetched where
/// it was never checked; without a clock it never is. An age is never negative.
pub proof fn law_cache_goes_stale(source: FactCacheSource, path: Seq<char>, m: MetadataV, now: u64)
    ensures
        ({
            let s = summarized(source, path, m, Some(now));
            let since = if m.checked_at_unix is Some {
                m.checked_at_unix->Some_0
            } else {
                m.fetched_at_unix
            };
            &&& s.stale <==> now - since > 24 * 60 * 60
            &&& now >= m.fetched_at_unix ==> s.age_seconds is Some && s.age_seconds->Some_0
                + m.fetched_at_unix == now
            &&& now < m.fetched_at_unix ==> s.age_seconds == Some(0u64)
            &&& now >= since ==> s.checked_age_seconds is Some && s.checked_age_seconds->Some_0 + since
                == now
            &&& now < since ==> s.checked_age_seconds == Some(0u64)
            &&& s.metadata == Some(m)
            &&& s.source == source
            &&& s.path == path
            &&& !summarized(source, path, m, None).stale
            &&& summarized(source, path, m, None).age_seconds is None
        }),
{
}

/// A cache that was just filled is that of its construct's head, and of no head with another
/// digest or another count; where there was no head it is of none.
pub proof fn law_filled_cache_has_head(
    m: Matrix,
    now: u64,
    count: usize,
    most: usize,
    head: HeadV,
    other: HeadV,
)
    ensures
        ({
            let f = fresh_metadata(m, now, count, most, Some(head));
            let bare = fresh_metadata(m, now, count, most, None);
            &&& head_matches(Some(f), Some(head))
            &&& head_matches(Some(f), Some(other)) <==> head.digest == other.digest
                && head.fact_count == other.fact_count
            &&& !head_matches(Some(bare), Some(head))
            &&& !head_matches(Some(f), None)
            &&& !head_matches(None, Some(head))
            &&& f.construct == opt_view(m.construct)
            &&& f.api_prefix == m.api_prefix@
            &&& f.profile == m.profile
            &&& f.schema_version == 2
            &&& f.fetched_at_unix == now
            &&& f.fact_count == count
            &&& f.max_facts == most
            &&& !summarized(FactCacheSource::Live, m.api_prefix@, f, Some(now)).stale
            &&& f.head_latest_accepted_at == head.latest_accepted_at
            &&& f.head_latest_fact_id == head.latest_fact_id
            &&& f.head_latest_content_hash == head.latest_content_hash
        }),
{
}

/// Recording a head that was checked records what the metadata with that head and that time
/// would: no entry of it says anything else.
pub proof fn law_checked_head_is_recorded(m: MetadataV, now: u64, head: HeadV)
    ensures
        ({
            let with_head = MetadataV {
                checked_at_unix: Some(now),
                head_digest: Some(head.digest),
                head_fact_count: Some(head.fact_count),
                head_latest_accepted_at: head.latest_accepted_at,
                head_latest_fact_id: head.latest_fact_id,
                head_latest_content_hash: head.latest_content_hash,
                ..m
            };
            let all = metadata_entries(with_head);
            let some = head_entries(now, head);
            &&& some.len() == 6
            &&& forall|i: int| 0 <= i < some.len() ==> all.contains(#[trigger] some[i])
            &&& forall|i: int, j: int|
                0 <= i < j < some.len() ==> (#[trigger] some[i]).key != (#[trigger] some[j]).key
        }),
{
    lemma_entry_keys();
    let with_head = MetadataV {
        checked_at_unix: Some(now),
        head_digest: Some(head.digest),
        head_fact_count: Some(head.fact_count),
        head_latest_accepted_at: head.latest_accepted_at,
        head_latest_fact_id: head.latest_fact_id,
        head_latest_content_hash: head.latest_content_hash,
        ..m
    };
    let all = metadata_entries(with_head);
    let some = head_entries(now, head);
    assert(some[0] == all[5]);
    assert(some[1] == all[8]);
    assert(some[2] == all[9]);
    assert(some[3] == all[10]);
    assert(some[4] == all[11]);
    assert(some[5] == all[12]);
}

/// A head names its kind, its version and count, and a digest that is not blank; the rest
/// is optional. What it says is what is read of it.
pub proof fn law_head_is_read(body: JsonV)
    ensures
        ({
            let optional = |k: Seq<char>|
                body.get(k) is None || body.get(k)->Some_0 is Null || body.get(k)->Some_0 is Text;
            let h = head_of(body);
            &&& h is Some <==> {
                &&& body.text_at("kind"@) == Some("compatibility-facts-head"@)
                &&& body.text_at("digest"@) is Some
                &&& trim(body.text_at("digest"@)->Some_0).len() > 0
                &&& body.u64_at("schemaVersion"@) is Some
                &&& body.u64_at("schemaVersion"@)->Some_0 <= u32::MAX
                &&& body.u64_at("factCount"@) is Some
                &&& body.u64_at("factCount"@)->Some_0 <= usize::MAX
                &&& optional("generatedAt"@)
                &&& optional("latestAcceptedAt"@)
                &&& optional("latestFactId"@)
                &&& optional("latestContentHash"@)
            }
            &&& h is Some ==> {
                &&& Some(h->Some_0.digest) == body.text_at("digest"@)
                &&& body.u64_at("factCount"@)->Some_0 == h->Some_0.fact_count
                &&& body.u64_at("schemaVersion"@)->Some_0 == h->Some_0.schema_version
                &&& h->Some_0.generated_at == body.text_at("generatedAt"@)
                &&& h->Some_0.latest_accepted_at == body.text_at("latestAcceptedAt"@)
                &&& h->Some_0.latest_fact_id == body.text_at("latestFactId"@)
                &&& h->Some_0.latest_content_hash == body.text_at("latestContentHash"@)
            }
        }),
{
}

/// A page asks for what is still wanted, but for no more than two hundred facts at once, and
/// goes on at the cursor.
pub proof fn law_page_request(have: nat, max_facts: nat, cursor: Seq<char>)
    requires
        have < max_facts,
    ensures
        0 < page_size(have, max_facts) <= 200,
        have + page_size(have, max_facts) <= max_facts,
        page_size(have, max_facts) < 200 ==> have + page_size(have, max_facts) == max_facts,
        page_path(have, max_facts, None) == "/facts?"@ + query_text(
            seq![pair("limit"@, decimal(page_size(have, max_facts)))],
        ),
        page_path(have, max_facts, Some(cursor)) == "/facts?"@ + query_text(
            seq![pair("limit"@, decimal(page_size(have, max_facts))), pair("cursor"@, cursor)],
        ),
{
    assert(seq![pair("limit"@, decimal(page_size(have, max_facts)))].push(pair("cursor"@, cursor))
        =~= seq![pair("limit"@, decimal(page_size(have, max_facts))), pair("cursor"@, cursor)]);
}

/// A duration is told in whole seconds below a minute, in minutes below an hour, in hours
/// below two days, and in days from there on.
pub proof fn law_duration_is_told(seconds: nat)
    ensures
        seconds < 60 ==> duration_text(seconds) == decimal(seconds) + "s"@,
        60 <= seconds < 60 * 60 ==> duration_text(seconds) == decimal(seconds / 60) + "m"@,
        60 * 60 <= seconds < 48 * 60 * 60 ==> duration_text(seconds) == decimal(seconds / 3600)
            + "h"@,
        48 * 60 * 60 <= seconds ==> duration_text(seconds) == decimal(seconds / 86400) + "d"@,
{
}

/// Rounding leaves no more than half a unit.
proof fn lemma_nearest(n: nat, unit: nat)
    requires
        unit > 0,
    ensures
        2 * (nearest(n, unit) * unit) <= 2 * n + unit,
        2 * n <= 2 * (nearest(n, unit) * unit) + unit,
{
    let q = n / unit;
    let r = n % unit;
    assert(n == q * unit + r && r < unit) by (nonlinear_arith)
        requires
            unit > 0,
            q == n / unit,
            r == n % unit,
    ;
    assert((q + 1) * unit == q * unit + unit) by (nonlinear_arith);
}

/// A size below a kibibyte is told in bytes. A larger one is told in tenths of the largest
/// unit up to gibibytes that it fills, and they are no more than half a tenth off.
pub proof fn law_size_is_told(bytes: nat)
    requires
        bytes < 0x20_0000_0000_0000,
    ensures
        bytes < 1024 ==> bytes_text(bytes) == decimal(bytes) + " B"@,
        bytes >= 1024 ==> exists|tenths: nat|
            #![trigger tenths_text(tenths)]
            {
                let unit: nat = if bytes < 1024 * 1024 {
                    1024
                } else if bytes < 1024 * 1024 * 1024 {
                    1024 * 1024
                } else {
                    1024 * 1024 * 1024
                };
                &&& bytes < 1024 * 1024 ==> bytes_text(bytes) == decimal(tenths / 10) + "."@
                    + decimal(tenths % 10) + " KiB"@
                &&& 1024 * 1024 <= bytes < 1024 * 1024 * 1024 ==> bytes_text(bytes) == decimal(
                    tenths / 10,
                ) + "."@ + decimal(tenths % 10) + " MiB"@
                &&& 1024 * 1024 * 1024 <= bytes ==> bytes_text(bytes) == decimal(tenths / 10) + "."@
                    + decimal(tenths % 10) + " GiB"@
                &&& 2 * (tenths * unit) <= 20 * bytes + unit
                &&& 20 * bytes <= 2 * (tenths * unit) + unit
            },
{
    assert(crate::cache::float_step(bytes) == 1);
    assert(nearest(bytes, 1) == bytes);
    assert(float_value(bytes) == nearest(bytes, 1) * 1);
    if bytes >= 1024 {
        let unit: nat = if bytes < 1024 * 1024 {
            1024
        } else if bytes < 1024 * 1024 * 1024 {
            1024 * 1024
        } else {
            1024 * 1024 * 1024
        };
        let tenths = nearest(10 * bytes, unit);
        lemma_nearest(10 * bytes, unit);
        assert(tenths_text(tenths) == decimal(tenths / 10) + "."@ + decimal(tenths % 10));
    }
}

/// What the summary of a cache shows: where the facts came from, whether there is a cache and
/// how old it is, and what it holds.
pub proof fn law_summary_is_shown(s: SummaryV, size: Option<u64>)
    ensures
        ({
            let v = summary_json(s, size);
            &&& s.source is Live ==> v.text_at("source"@) == Some("live"@)
            &&& s.source is Cache ==> v.text_at("source"@) == Some("cache"@)
            &&& s.source is Missing ==> v.text_at("source"@) == Some("missing"@)
            &&& s.policy is Auto ==> v.text_at("policy"@) == Some("auto"@)
            &&& s.policy is PreferCache ==> v.text_at("policy"@) == Some("prefer-cache"@)
            &&& s.policy is Refresh ==> v.text_at("policy"@) == Some("refresh"@)
            &&& s.policy is Offline ==> v.text_at("policy"@) == Some("offline"@)
            &&& v.text_at("path"@) == Some(s.path)
            &&& v.bool_at("exists"@) == Some(!(s.source is Missing))
            &&& v.bool_at("stale"@) == Some(s.stale)
            &&& v.get("staleAfterSeconds"@) == Some(JsonV::number(86400))
            &&& size is Some ==> v.get("sizeBytes"@) == Some(JsonV::number(size->Some_0 as nat))
            &&& size is Some ==> v.text_at("sizeHuman"@) == Some(bytes_text(size->Some_0 as nat))
            &&& s.age_seconds is Some ==> v.get("ageSeconds"@) == Some(
                JsonV::number(s.age_seconds->Some_0 as nat),
            ) && v.text_at("ageHuman"@) == Some(duration_text(s.age_seconds->Some_0 as nat))
            &&& s.checked_age_seconds is Some ==> v.get("checkedAgeSeconds"@) == Some(
                JsonV::number(s.checked_age_seconds->Some_0 as nat),
            ) && v.text_at("checkedAgeHuman"@) == Some(
                duration_text(s.checked_age_seconds->Some_0 as nat),
            )
        }),
{
    broadcast use {lemma_get_with, lemma_with_is_object};

    lemma_summary_keys();
}

/// What the summary of a cache shows of what the cache records.
pub proof fn law_metadata_is_shown(s: SummaryV, size: Option<u64>)
    requires
        s.metadata is Some,
    ensures
        ({
            let v = summary_json(s, size);
            let m = s.metadata->Some_0;
            &&& v.text_at("construct"@) == m.construct
            &&& v.text_at("apiPrefix"@) == Some(m.api_prefix)
            &&& v.get("schemaVersion"@) == Some(JsonV::number(m.schema_version as nat))
            &&& v.get("fetchedAtUnix"@) == Some(JsonV::number(m.fetched_at_unix as nat))
            &&& m.checked_at_unix is Some ==> v.get("checkedAtUnix"@) == Some(
                JsonV::number(m.checked_at_unix->Some_0 as nat),
            )
            &&& m.checked_at_unix is None ==> v.get("checkedAtUnix"@) == v.get("fetchedAtUnix"@)
            &&& v.get("factCount"@) == Some(JsonV::number(m.fact_count as nat))
            &&& v.get("maxFacts"@) == Some(JsonV::number(m.max_facts as nat))
            &&& v.text_at("headDigest"@) == m.head_digest
            &&& v.text_at("headLatestAcceptedAt"@) == m.head_latest_accepted_at
            &&& v.text_at("headLatestFactId"@) == m.head_latest_fact_id
            &&& v.text_at("headLatestContentHash"@) == m.head_latest_content_hash
        }),
{
    broadcast use {lemma_get_with, lemma_with_is_object};

    lemma_summary_keys();
}

// ---------------------------------------------------------------------------
// Keys
// ---------------------------------------------------------------------------
proof fn lemma_policy_names()
    ensures
        mark("always-refresh"@) == 11410409714,
        mark("auto"@) == 11611109704,
        mark("cache"@) == 9910109905,
        mark("cache-first"@) == 4511609911,
        mark("hot-miss"@) == 10911510408,
        mark("hot-miss-refresh"@) == 4510410416,
        mark("live"@) == 11810110804,
        mark("local"@) == 9910810805,
        mark("offline"@) == 10810111107,
        mark("prefer-cache"@) == 4510111212,
        mark("refresh"@) == 11410411407,
{
    reveal_strlit("always-refresh");
    reveal_strlit("auto");
    reveal_strlit("cache");
    reveal_strlit("cache-first");
    reveal_strlit("hot-miss");
    reveal_strlit("hot-miss-refresh");
    reveal_strlit("live");
    reveal_strlit("local");
    reveal_strlit("offline");
    reveal_strlit("prefer-cache");
    reveal_strlit("refresh");
}


proof fn lemma_diagnosis_keys()
    ensures
        mark("available"@) == 10810109709,
        mark("configured"@) == 10310009910,
        mark("error"@) == 11411410105,
        mark("source"@) == 11410111506,
        mark("tokenCommand"@) == 11110011612,
        mark("tokenFile"@) == 11010111609,
{
    reveal_strlit("available");
    reveal_strlit("configured");
    reveal_strlit("error");
    reveal_strlit("source");
    reveal_strlit("tokenCommand");
    reveal_strlit("tokenFile");
}


proof fn lemma_setting_keys()
    ensures
        mark("api-prefix"@) == 11412009710,
        mark("apiPrefix"@) == 11412009709,
        mark("cache-max-facts"@) == 9711509915,
        mark("cache-policy"@) == 11212109912,
        mark("cacheMaxFacts"@) == 9711509913,
        mark("cachePolicy"@) == 8012109911,
        mark("construct"@) == 11611609909,
        mark("max-facts"@) == 10211510909,
        mark("maxFacts"@) == 9711510908,
        mark("profile"@) == 10210111207,
        mark("sql-init"@) == 10511611508,
        mark("sql-pack"@) == 11210711508,
        mark("sql-packs"@) == 11211511509,
        mark("sqlInit"@) == 7311611507,
        mark("sqlPack"@) == 8010711507,
        mark("sqlPacks"@) == 9711511508,
        mark("token"@) == 10711011605,
        mark("token-command"@) == 9910011613,
        mark("token-file"@) == 4510111610,
        mark("tokenCommand"@) == 11110011612,
        mark("tokenFile"@) == 11010111609,
{
    reveal_strlit("api-prefix");
    reveal_strlit("apiPrefix");
    reveal_strlit("cache-max-facts");
    reveal_strlit("cache-policy");
    reveal_strlit("cacheMaxFacts");
    reveal_strlit("cachePolicy");
    reveal_strlit("construct");
    reveal_strlit("max-facts");
    reveal_strlit("maxFacts");
    reveal_strlit("profile");
    reveal_strlit("sql-init");
    reveal_strlit("sql-pack");
    reveal_strlit("sql-packs");
    reveal_strlit("sqlInit");
    reveal_strlit("sqlPack");
    reveal_strlit("sqlPacks");
    reveal_strlit("token");
    reveal_strlit("token-command");
    reveal_strlit("token-file");
    reveal_strlit("tokenCommand");
    reveal_strlit("tokenFile");
}


proof fn lemma_listing_keys()
    ensures
        mark("apiPrefix"@) == 11412009709,
        mark("cacheMaxFacts"@) == 9711509913,
        mark("cachePolicy"@) == 8012109911,
        mark("configPath"@) == 10310409910,
        mark("construct"@) == 11611609909,
        mark("hasToken"@) == 11111010408,
        mark("hasTokenCommand"@) == 11010010415,
        mark("profile"@) == 10210111207,
        mark("saved"@) == 11810011505,
        mark("sqlInit"@) == 7311611507,
        mark("sqlPacks"@) == 9711511508,
        mark("tokenFile"@) == 11010111609,
{
    reveal_strlit("apiPrefix");
    reveal_strlit("cacheMaxFacts");
    reveal_strlit("cachePolicy");
    reveal_strlit("configPath");
    reveal_strlit("construct");
    reveal_strlit("hasToken");
    reveal_strlit("hasTokenCommand");
    reveal_strlit("profile");
    reveal_strlit("saved");
    reveal_strlit("sqlInit");
    reveal_strlit("sqlPacks");
    reveal_strlit("tokenFile");
}


proof fn lemma_entry_keys()
    ensures
        mark("checkedAtUnix"@) == 10012009913,
        mark("headDigest"@) == 10511610410,
        mark("headFactCount"@) == 9911610413,
        mark("headLatestAcceptedAt"@) == 6511610420,
        mark("headLatestContentHash"@) == 6710410421,
        mark("headLatestFactId"@) == 11510010416,
{
    reveal_strlit("checkedAtUnix");
    reveal_strlit("headDigest");
    reveal_strlit("headFactCount");
    reveal_strlit("headLatestAcceptedAt");
    reveal_strlit("headLatestContentHash");
    reveal_strlit("headLatestFactId");
}


proof fn lemma_summary_keys()
    ensures
        mark("ageHuman"@) == 11711009708,
        mark("ageSeconds"@) == 9911509710,
        mark("apiPrefix"@) == 11412009709,
        mark("checkedAgeHuman"@) == 6511009915,
        mark("checkedAgeSeconds"@) == 10311509917,
        mark("checkedAt"@) == 10711609909,
        mark("checkedAtUnix"@) == 10012009913,
        mark("construct"@) == 11611609909,
        mark("exists"@) == 11511510106,
        mark("factCount"@) == 6711610209,
        mark("fetchedAt"@) == 10411610209,
        mark("fetchedAtUnix"@) == 10012010213,
        mark("format"@) == 10911610206,
        mark("headDigest"@) == 10511610410,
        mark("headFactCount"@) == 9911610413,
        mark("headLatestAcceptedAt"@) == 6511610420,
        mark("headLatestContentHash"@) == 6710410421,
        mark("headLatestFactId"@) == 11510010416,
        mark("maxFacts"@) == 9711510908,
        mark("path"@) == 11610411204,
        mark("policy"@) == 10512111206,
        mark("profile"@) == 10210111207,
        mark("schemaVersion"@) == 8611011513,
        mark("sizeBytes"@) == 6611511509,
        mark("sizeHuman"@) == 7211011509,
        mark("source"@) == 11410111506,
        mark("stale"@) == 9710111505,
        mark("staleAfterSeconds"@) == 10111511517,
{
    reveal_strlit("ageHuman");
    reveal_strlit("ageSeconds");
    reveal_strlit("apiPrefix");
    reveal_strlit("checkedAgeHuman");
    reveal_strlit("checkedAgeSeconds");
    reveal_strlit("checkedAt");
    reveal_strlit("checkedAtUnix");
    reveal_strlit("construct");
    reveal_strlit("exists");
    reveal_strlit("factCount");
    reveal_strlit("fetchedAt");
    reveal_strlit("fetchedAtUnix");
    reveal_strlit("format");
    reveal_strlit("headDigest");
    reveal_strlit("headFactCount");
    reveal_strlit("headLatestAcceptedAt");
    reveal_strlit("headLatestContentHash");
    reveal_strlit("headLatestFactId");
    reveal_strlit("maxFacts");
    reveal_strlit("path");
    reveal_strlit("policy");
    reveal_strlit("profile");
    reveal_strlit("schemaVersion");
    reveal_strlit("sizeBytes");
    reveal_strlit("sizeHuman");
    reveal_strlit("source");
    reveal_strlit("stale");
    reveal_strlit("staleAfterSeconds");
}


} // verus!
