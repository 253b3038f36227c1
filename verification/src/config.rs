//! Profiles, cache policy, stored configuration, and where a token comes from.
use vstd::prelude::*;
use vstd::utf8::{encode_utf8, valid_utf8};
use crate::json::{json_read, read_json, Json, JsonV};
use crate::render::{error_detail, error_text, html_page, looks_like_html, parse_response_text, response_value};
use crate::text::{
    cat2, cat3, cat4, copy_list, copy_opt, debug_of, debug_text, keep_non_empty, lower, non_empty,
    opt_view, or, parse_unsigned, pieces, result_view, same, split, to_lower, to_usize, trim,
    trim_end, trimmed, trimmed_end, views, CharClass,
};

verus! {

pub const RED_WIZ_CONSTRUCT_URL: &'static str = "https://platform-api.red-wiz.stream";

pub const RED_WIZ_API_PREFIX: &'static str = "/v1/compatibility";

pub const RED_WIZ_TOKEN_COMMAND: &'static str = "wiz auth token --audience platform-api --format json";

/// How many facts are cached unless something else is configured.
pub const DEFAULT_FACT_CACHE_MAX_FACTS: usize = 1000;

// ---------------------------------------------------------------------------
// Profiles, policies and formats
// ---------------------------------------------------------------------------
#[derive(Clone, Copy, Debug, PartialEq, Eq, Structural)]
pub enum ConfigProfile {
    RedWiz,
}

impl ConfigProfile {
    pub open spec fn name(self) -> Seq<char> {
        "red-wiz"@
    }

    /// The profile with the name, in any case.
    pub open spec fn named(s: Seq<char>) -> Option<ConfigProfile> {
        if lower(s) == "red-wiz"@ {
            Some(ConfigProfile::RedWiz)
        } else {
            None
        }
    }

    pub fn from_name(value: &str) -> (r: Option<ConfigProfile>)
        ensures
            r == ConfigProfile::named(value@),
    {
        if same(to_lower(value).as_str(), "red-wiz") {
            Some(ConfigProfile::RedWiz)
        } else {
            None
        }
    }

    pub fn as_str(self) -> (r: &'static str)
        ensures
            r@ == self.name(),
    {
        "red-wiz"
    }

    pub fn construct(self) -> (r: &'static str)
        ensures
            r@ == RED_WIZ_CONSTRUCT_URL@,
    {
        RED_WIZ_CONSTRUCT_URL
    }

    pub fn api_prefix(self) -> (r: &'static str)
        ensures
            r@ == RED_WIZ_API_PREFIX@,
    {
        RED_WIZ_API_PREFIX
    }

    pub fn token_command(self) -> (r: Option<&'static str>)
        ensures
            r matches Some(c) && c@ == RED_WIZ_TOKEN_COMMAND@,
    {
        Some(RED_WIZ_TOKEN_COMMAND)
    }
}

/// The name of an optional profile.
pub open spec fn profile_name(p: Option<ConfigProfile>) -> Option<Seq<char>> {
    match p {
        Some(x) => Some(x.name()),
        None => None,
    }
}

#[derive(Clone, Copy, Debug, PartialEq, Eq, Structural)]
pub enum CachePolicy {
    Auto,
    PreferCache,
    Refresh,
    Offline,
}

impl CachePolicy {
    pub open spec fn name(self) -> Seq<char> {
        match self {
            CachePolicy::Auto => "auto"@,
            CachePolicy::PreferCache => "prefer-cache"@,
            CachePolicy::Refresh => "refresh"@,
            CachePolicy::Offline => "offline"@,
        }
    }

    /// The policy that a text names, by its name or another name for it.
    pub open spec fn named(s: Seq<char>) -> Option<CachePolicy> {
        let t = lower(trim(s));
        if t == "auto"@ || t == "hot-miss"@ || t == "hot-miss-refresh"@ {
            Some(CachePolicy::Auto)
        } else if t == "prefer-cache"@ || t == "cache"@ || t == "cache-first"@ || t == "local"@ {
            Some(CachePolicy::PreferCache)
        } else if t == "refresh"@ || t == "always-refresh"@ || t == "live"@ {
            Some(CachePolicy::Refresh)
        } else if t == "offline"@ {
            Some(CachePolicy::Offline)
        } else {
            None
        }
    }

    /// The policy that a text names, or the message that it names none.
    pub open spec fn parsed(s: Seq<char>) -> Result<CachePolicy, Seq<char>> {
        match CachePolicy::named(s) {
            Some(p) => Ok(p),
            None => Err(
                "unknown cache policy "@ + debug_text(s)
                    + "; expected auto, prefer-cache, refresh, or offline"@,
            ),
        }
    }

    pub fn as_str(self) -> (r: &'static str)
        ensures
            r@ == self.name(),
    {
        match self {
            CachePolicy::Auto => "auto",
            CachePolicy::PreferCache => "prefer-cache",
            CachePolicy::Refresh => "refresh",
            CachePolicy::Offline => "offline",
        }
    }

    pub fn parse(value: &str) -> (r: Result<CachePolicy, String>)
        ensures
            policy_result(r) == CachePolicy::parsed(value@),
    {
        let low = to_lower(trimmed(value).as_str());
        let t = low.as_str();
        if same(t, "auto") || same(t, "hot-miss") || same(t, "hot-miss-refresh") {
            Ok(CachePolicy::Auto)
        } else if same(t, "prefer-cache") || same(t, "cache") || same(t, "cache-first") || same(
            t,
            "local",
        ) {
            Ok(CachePolicy::PreferCache)
        } else if same(t, "refresh") || same(t, "always-refresh") || same(t, "live") {
            Ok(CachePolicy::Refresh)
        } else if same(t, "offline") {
            Ok(CachePolicy::Offline)
        } else {
            let d = debug_of(value);
            Err(
                cat3(
                    "unknown cache policy ",
                    d.as_str(),
                    "; expected auto, prefer-cache, refresh, or offline",
                ),
            )
        }
    }
}

pub open spec fn policy_result(r: Result<CachePolicy, String>) -> Result<CachePolicy, Seq<char>> {
    match r {
        Ok(p) => Ok(p),
        Err(e) => Err(e@),
    }
}

/// Each policy is read back from its name.
pub proof fn law_policy_name_reads_back(p: CachePolicy)
    ensures
        CachePolicy::named(p.name()) == Some(p),
{
    reveal_strlit("auto");
    reveal_strlit("prefer-cache");
    reveal_strlit("refresh");
    reveal_strlit("offline");
    reveal_strlit("hot-miss");
    reveal_strlit("hot-miss-refresh");
    reveal_strlit("cache");
    reveal_strlit("cache-first");
    reveal_strlit("local");
    reveal_strlit("always-refresh");
    reveal_strlit("live");
    let s = p.name();
    crate::text::lemma_index_past(s, CharClass::White, 0);
    assert(s.skip(0) =~= s);
    crate::text::lemma_end_before(s, CharClass::White);
    assert(s.take(s.len() as int) =~= s);
    assert(trim(s) == s);
    assert(lower(s) =~= s);
    match p {
        CachePolicy::Auto => {},
        CachePolicy::PreferCache => {
            assert(s.len() != "auto"@.len());
            assert(s.len() != "hot-miss"@.len());
            assert(s.len() != "hot-miss-refresh"@.len());
        },
        CachePolicy::Refresh => {
            assert(s.len() == 7);
            assert("offline"@.len() == 7);
            assert(s.len() != "auto"@.len());
        },
        CachePolicy::Offline => {
            assert(s[0] != "refresh"@[0]);
        },
    }
}

#[derive(Clone, Copy, Debug, PartialEq, Eq, Structural)]
pub enum OutputFormat {
    Human,
    Json,
    Yaml,
    Table,
    Csv,
}

impl OutputFormat {
    pub fn from_cli(output: OutputFormat, json: bool) -> (r: OutputFormat)
        ensures
            r == (if json {
                OutputFormat::Json
            } else {
                output
            }),
    {
        if json {
            OutputFormat::Json
        } else {
            output
        }
    }
}

// ---------------------------------------------------------------------------
// Configuration
// ---------------------------------------------------------------------------
/// What the configuration file holds.
#[derive(Debug)]
pub struct Config {
    pub profile: Option<ConfigProfile>,
    pub construct: Option<String>,
    pub api_prefix: Option<String>,
    pub token: Option<String>,
    pub token_file: Option<String>,
    pub token_command: Option<String>,
    pub sql_init: Option<String>,
    pub sql_packs: Vec<String>,
    pub cache_policy: Option<CachePolicy>,
    pub cache_max_facts: Option<usize>,
}

pub struct ConfigV {
    pub profile: Option<ConfigProfile>,
    pub construct: Option<Seq<char>>,
    pub api_prefix: Option<Seq<char>>,
    pub token: Option<Seq<char>>,
    pub token_file: Option<Seq<char>>,
    pub token_command: Option<Seq<char>>,
    pub sql_init: Option<Seq<char>>,
    pub sql_packs: Seq<Seq<char>>,
    pub cache_policy: Option<CachePolicy>,
    pub cache_max_facts: Option<usize>,
}

impl View for Config {
    type V = ConfigV;

    open spec fn view(&self) -> ConfigV {
        ConfigV {
            profile: self.profile,
            construct: opt_view(self.construct),
            api_prefix: opt_view(self.api_prefix),
            token: opt_view(self.token),
            token_file: opt_view(self.token_file),
            token_command: opt_view(self.token_command),
            sql_init: opt_view(self.sql_init),
            sql_packs: views(self.sql_packs@),
            cache_policy: self.cache_policy,
            cache_max_facts: self.cache_max_facts,
        }
    }
}

impl ConfigV {
    /// A configuration that says nothing.
    pub open spec fn empty() -> ConfigV {
        ConfigV {
            profile: None,
            construct: None,
            api_prefix: None,
            token: None,
            token_file: None,
            token_command: None,
            sql_init: None,
            sql_packs: Seq::empty(),
            cache_policy: None,
            cache_max_facts: None,
        }
    }
}

impl Default for Config {
    fn default() -> (r: Config)
        ensures
            r@ == ConfigV::empty(),
    {
        let packs: Vec<String> = Vec::new();
        assert(views(packs@) =~= Seq::empty());
        Config {
            profile: None,
            construct: None,
            api_prefix: None,
            token: None,
            token_file: None,
            token_command: None,
            sql_init: None,
            sql_packs: packs,
            cache_policy: None,
            cache_max_facts: None,
        }
    }
}

/// The environment variables that configure the tool, as they are set.
#[derive(Debug)]
pub struct Environment {
    pub profile: Option<String>,
    pub construct: Option<String>,
    pub api_prefix: Option<String>,
    pub token: Option<String>,
    pub token_file: Option<String>,
    pub token_command: Option<String>,
    pub sql_init: Option<String>,
    pub sql_packs: Option<String>,
    pub cache_policy: Option<String>,
    pub max_facts: Option<String>,
}

/// The configuration in force.
#[derive(Debug)]
pub struct Matrix {
    pub config_path: String,
    pub config: Config,
    pub environment: Environment,
    pub profile: Option<ConfigProfile>,
    pub construct: Option<String>,
    pub api_prefix: String,
    pub output: OutputFormat,
}

fn first_text(a: &Option<String>, b: &Option<String>) -> (r: Option<String>)
    ensures
        opt_view(r) == or(opt_view(*a), opt_view(*b)),
{
    match a {
        Some(s) => Some(s.clone()),
        None => copy_opt(b),
    }
}

/// The profile in force: that of the command line, of the environment, or of the
/// file.
pub open spec fn chosen_profile(
    over: Option<ConfigProfile>,
    env: Option<Seq<char>>,
    file: Option<ConfigProfile>,
) -> Option<ConfigProfile> {
    or(
        or(
            over,
            match env {
                Some(s) => ConfigProfile::named(s),
                None => None,
            },
        ),
        file,
    )
}

/// A setting in force: that of the command line, of the environment, of the profile
/// in force, or of the file.
pub open spec fn chosen_text(
    over: Option<Seq<char>>,
    env: Option<Seq<char>>,
    profile: Option<Seq<char>>,
    file: Option<Seq<char>>,
) -> Option<Seq<char>> {
    or(or(or(over, env), profile), file)
}

pub open spec fn without_slashes(s: Seq<char>) -> Seq<char> {
    trim_end(s, CharClass::Is('/'))
}

pub open spec fn no_construct() -> Seq<char> {
    "no construct configured; run `matrix config set construct <url>` or set MATRIX_CONSTRUCT_URL"@
}

impl Matrix {
    pub fn load(
        construct_override: Option<String>,
        prefix_override: Option<String>,
        profile_override: Option<ConfigProfile>,
        output: OutputFormat,
        config_path: String,
        config: Config,
        environment: Environment,
    ) -> (r: Matrix)
        ensures
            r.config_path == config_path,
            r.config == config,
            r.environment == environment,
            r.output == output,
            r.profile == chosen_profile(
                profile_override,
                opt_view(environment.profile),
                config.profile,
            ),
            opt_view(r.construct) == (match chosen_text(
                opt_view(construct_override),
                opt_view(environment.construct),
                if r.profile is Some {
                    Some(RED_WIZ_CONSTRUCT_URL@)
                } else {
                    None
                },
                opt_view(config.construct),
            ) {
                Some(s) => Some(without_slashes(s)),
                None => None,
            }),
            r.api_prefix@ == (match chosen_text(
                opt_view(prefix_override),
                opt_view(environment.api_prefix),
                if r.profile is Some {
                    Some(RED_WIZ_API_PREFIX@)
                } else {
                    None
                },
                opt_view(config.api_prefix),
            ) {
                Some(s) => without_slashes(s),
                None => without_slashes("/v1/matrix"@),
            }),
    {
        let env_profile: Option<ConfigProfile> = match &environment.profile {
            Some(s) => ConfigProfile::from_name(s.as_str()),
            None => None,
        };
        let profile: Option<ConfigProfile> = match profile_override {
            Some(p) => Some(p),
            None => match env_profile {
                Some(p) => Some(p),
                None => config.profile,
            },
        };
        let profile_construct: Option<String> = match profile {
            Some(p) => Some(p.construct().to_owned()),
            None => None,
        };
        let profile_prefix: Option<String> = match profile {
            Some(p) => Some(p.api_prefix().to_owned()),
            None => None,
        };
        let a = first_text(&construct_override, &environment.construct);
        let b = first_text(&a, &profile_construct);
        let construct = match first_text(&b, &config.construct) {
            Some(s) => Some(trimmed_end(s.as_str(), CharClass::Is('/'))),
            None => None,
        };
        let a = first_text(&prefix_override, &environment.api_prefix);
        let b = first_text(&a, &profile_prefix);
        let api_prefix = match first_text(&b, &config.api_prefix) {
            Some(s) => trimmed_end(s.as_str(), CharClass::Is('/')),
            None => trimmed_end("/v1/matrix", CharClass::Is('/')),
        };
        Matrix { config_path, config, environment, profile, construct, api_prefix, output }
    }

    /// The construct's address, or the message that there is none.
    pub fn construct(&self) -> (r: Result<String, String>)
        ensures
            result_view(r) == (match opt_view(self.construct) {
                Some(s) => Ok(s),
                None => Err(no_construct()),
            }),
    {
        match &self.construct {
            Some(s) => Ok(s.clone()),
            None => Err(
                "no construct configured; run `matrix config set construct <url>` or set MATRIX_CONSTRUCT_URL".to_owned(),
            ),
        }
    }

    /// The address of a request: the construct, the prefix and the path.
    pub fn request_url(&self, path: &str) -> (r: Result<String, String>)
        ensures
            match opt_view(self.construct) {
                Some(s) => result_view(r) == Ok::<Seq<char>, Seq<char>>(
                    s + self.api_prefix@ + path@,
                ),
                None => result_view(r) == Err::<Seq<char>, Seq<char>>(no_construct()),
            },
    {
        match self.construct() {
            Ok(c) => Ok(cat3(c.as_str(), self.api_prefix.as_str(), path)),
            Err(e) => Err(e),
        }
    }

    /// The paths of the SQL to read before a query: the start file, then the packs,
    /// the environment before the file for each.
    pub open spec fn sql_paths(self) -> Seq<Seq<char>> {
        (match or(opt_view(self.environment.sql_init), opt_view(self.config.sql_init)) {
            Some(s) => seq![s],
            None => Seq::empty(),
        }) + (match opt_view(self.environment.sql_packs) {
            Some(list) => pack_list(list),
            None => views(self.config.sql_packs@),
        })
    }

    pub fn sql_init_paths(&self) -> (r: Vec<String>)
        ensures
            views(r@) == self.sql_paths(),
    {
        let mut paths: Vec<String> = Vec::new();
        match first_text(&self.environment.sql_init, &self.config.sql_init) {
            Some(s) => {
                paths.push(s);
            },
            None => {},
        }
        let ghost head = views(paths@);
        assert(head =~= (match or(
            opt_view(self.environment.sql_init),
            opt_view(self.config.sql_init),
        ) {
            Some(s) => seq![s],
            None => Seq::empty(),
        }));
        let mut packs = match &self.environment.sql_packs {
            Some(list) => parse_sql_pack_list(list.as_str()),
            None => copy_list(&self.config.sql_packs),
        };
        let ghost tail = views(packs@);
        paths.append(&mut packs);
        assert(views(paths@) =~= head + tail);
        paths
    }

    /// The text of the SQL to run before a query.
    pub open spec fn packs_text(base: Seq<char>, paths: Seq<Seq<char>>, texts: Seq<Seq<char>>, n: int) -> Seq<
        char,
    >
        decreases n,
    {
        if n <= 0 {
            base
        } else {
            Matrix::packs_text(base, paths, texts, n - 1) + "\n-- Matrix SQL pack: "@ + paths[n - 1]
                + "\n"@ + texts[n - 1] + "\n"@
        }
    }

    /// The SQL packs that were read, one behind another under its path, or nothing
    /// where there is none.
    pub fn sql_init(paths: &Vec<String>, texts: &Vec<String>) -> (r: Option<String>)
        requires
            paths@.len() == texts@.len(),
        ensures
            opt_view(r) == (if paths@.len() == 0 {
                None
            } else {
                Some(
                    Matrix::packs_text(
                        Seq::empty(),
                        views(paths@),
                        views(texts@),
                        paths@.len() as int,
                    ),
                )
            }),
    {
        if paths.len() == 0 {
            return None;
        }
        let mut sql = String::new();
        let mut i: usize = 0;
        while i < paths.len()
            invariant
                i <= paths@.len() == texts@.len(),
                sql@ == Matrix::packs_text(
                    Seq::empty(),
                    views(paths@),
                    views(texts@),
                    i as int,
                ),
            decreases paths@.len() - i,
        {
            assert(views(paths@)[i as int] == paths@[i as int]@);
            assert(views(texts@)[i as int] == texts@[i as int]@);
            sql.push_str("\n-- Matrix SQL pack: ");
            sql.push_str(paths[i].as_str());
            sql.push_str("\n");
            sql.push_str(texts[i].as_str());
            sql.push_str("\n");
            i += 1;
        }
        Some(sql)
    }

    /// The cache policy in force: that of the environment, of the file, or `auto`.
    pub open spec fn policy(self) -> Result<CachePolicy, Seq<char>> {
        match opt_view(self.environment.cache_policy) {
            Some(s) => CachePolicy::parsed(s),
            None => Ok(
                match self.config.cache_policy {
                    Some(p) => p,
                    None => CachePolicy::Auto,
                },
            ),
        }
    }

    pub fn cache_policy(&self) -> (r: Result<CachePolicy, String>)
        ensures
            policy_result(r) == self.policy(),
    {
        match &self.environment.cache_policy {
            Some(s) => CachePolicy::parse(s.as_str()),
            None => Ok(
                match self.config.cache_policy {
                    Some(p) => p,
                    None => CachePolicy::Auto,
                },
            ),
        }
    }

    /// How many facts to load: as the command line says, the environment, the file,
    /// or the default.
    pub fn max_facts(&self, override_value: Option<usize>) -> (r: Result<usize, String>)
        ensures
            match override_value {
                Some(n) => r == Ok::<usize, String>(n),
                None => match opt_view(self.environment.max_facts) {
                    Some(s) => match parse_unsigned(s, usize::MAX as int) {
                        Some(n) => r matches Ok(m) && m == n,
                        None => r matches Err(e) && e@ == "invalid MATRIX_MAX_FACTS value "@
                            + debug_text(s),
                    },
                    None => r == Ok::<usize, String>(
                        match self.config.cache_max_facts {
                            Some(n) => n,
                            None => DEFAULT_FACT_CACHE_MAX_FACTS,
                        },
                    ),
                },
            },
    {
        match override_value {
            Some(n) => Ok(n),
            None => match &self.environment.max_facts {
                Some(s) => match to_usize(s.as_str()) {
                    Some(n) => Ok(n),
                    None => Err(
                        cat2("invalid MATRIX_MAX_FACTS value ", debug_of(s.as_str()).as_str()),
                    ),
                },
                None => Ok(
                    match self.config.cache_max_facts {
                        Some(n) => n,
                        None => DEFAULT_FACT_CACHE_MAX_FACTS,
                    },
                ),
            },
        }
    }

    /// The policy of a load: offline or refresh where asked for, which exclude each
    /// other, and otherwise the policy in force.
    pub fn fact_load_options(&self, offline: bool, refresh_cache: bool) -> (r: Result<
        CachePolicy,
        String,
    >)
        ensures
            policy_result(r) == (if offline && refresh_cache {
                Err("--offline cannot be combined with --refresh-cache"@)
            } else if offline {
                Ok(CachePolicy::Offline)
            } else if refresh_cache {
                Ok(CachePolicy::Refresh)
            } else {
                self.policy()
            }),
    {
        if offline && refresh_cache {
            return Err("--offline cannot be combined with --refresh-cache".to_owned());
        }
        if offline {
            Ok(CachePolicy::Offline)
        } else if refresh_cache {
            Ok(CachePolicy::Refresh)
        } else {
            self.cache_policy()
        }
    }
}

/// The value of a reply, or the message of what is wrong with it: a page in place
/// of an answer, or a status that is no success with the detail of its error.
pub open spec fn reply_value(
    success: bool,
    status: Seq<char>,
    content_type: Seq<char>,
    text: Seq<char>,
) -> Result<JsonV, Seq<char>> {
    if success && html_page(content_type, text) {
        Err("received HTML from the construct; authenticate or use a machine/API construct URL"@)
    } else if !success {
        Err("construct "@ + status + ": "@ + error_text(response_value(text), text))
    } else {
        Ok(response_value(text))
    }
}

pub open spec fn json_result(r: Result<Json, String>) -> Result<JsonV, Seq<char>> {
    match r {
        Ok(j) => Ok(j@),
        Err(e) => Err(e@),
    }
}

pub fn read_reply(success: bool, status: &str, content_type: &str, text: &str) -> (r: Result<
    Json,
    String,
>)
    ensures
        json_result(r) == reply_value(success, status@, content_type@, text@),
{
    if success && looks_like_html(content_type, text) {
        return Err(
            "received HTML from the construct; authenticate or use a machine/API construct URL".to_owned(),
        );
    }
    let value = parse_response_text(text);
    if !success {
        let detail = error_detail(&value, text);
        return Err(cat4("construct ", status, ": ", detail.as_str()));
    }
    Ok(value)
}

/// The pieces without white space at their ends.
pub open spec fn trim_all(parts: Seq<Seq<char>>) -> Seq<Seq<char>> {
    parts.map_values(|p: Seq<char>| trim(p))
}

/// The paths of a list of SQL packs: what stands between its commas, where it is
/// not blank.
pub open spec fn pack_list(s: Seq<char>) -> Seq<Seq<char>> {
    non_empty(trim_all(split(s, CharClass::Is(','))))
}

pub fn parse_sql_pack_list(value: &str) -> (r: Vec<String>)
    ensures
        views(r@) == pack_list(value@),
{
    let parts = pieces(value, CharClass::Is(','));
    let ghost all = trim_all(views(parts@));
    let mut out: Vec<String> = Vec::new();
    let mut i: usize = 0;
    while i < parts.len()
        invariant
            all == trim_all(views(parts@)),
            i <= parts@.len(),
            views(out@) == all.take(i as int),
        decreases parts@.len() - i,
    {
        let ghost before = views(out@);
        out.push(trimmed(parts[i].as_str()));
        assert(views(out@) =~= before.push(trim(parts@[i as int]@)));
        assert(all.take(i as int + 1) =~= before.push(trim(parts@[i as int]@)));
        i += 1;
    }
    assert(all.take(i as int) =~= all);
    keep_non_empty(out)
}

// ---------------------------------------------------------------------------
// Tokens
// ---------------------------------------------------------------------------
/// Where a token may come from.
#[derive(Debug)]
pub enum AuthCandidate {
    EnvToken(String),
    ConfigToken(String),
    EnvTokenFile(String),
    ConfigTokenFile(String),
    EnvTokenCommand(String),
    ConfigTokenCommand(String),
    ProfileTokenCommand(String),
}

pub enum CandidateV {
    EnvToken(Seq<char>),
    ConfigToken(Seq<char>),
    EnvTokenFile(Seq<char>),
    ConfigTokenFile(Seq<char>),
    EnvTokenCommand(Seq<char>),
    ConfigTokenCommand(Seq<char>),
    ProfileTokenCommand(Seq<char>),
}

impl View for AuthCandidate {
    type V = CandidateV;

    open spec fn view(&self) -> CandidateV {
        match self {
            AuthCandidate::EnvToken(s) => CandidateV::EnvToken(s@),
            AuthCandidate::ConfigToken(s) => CandidateV::ConfigToken(s@),
            AuthCandidate::EnvTokenFile(s) => CandidateV::EnvTokenFile(s@),
            AuthCandidate::ConfigTokenFile(s) => CandidateV::ConfigTokenFile(s@),
            AuthCandidate::EnvTokenCommand(s) => CandidateV::EnvTokenCommand(s@),
            AuthCandidate::ConfigTokenCommand(s) => CandidateV::ConfigTokenCommand(s@),
            AuthCandidate::ProfileTokenCommand(s) => CandidateV::ProfileTokenCommand(s@),
        }
    }
}

impl CandidateV {
    pub open spec fn source(self) -> Seq<char> {
        match self {
            CandidateV::EnvToken(_) => "env-token"@,
            CandidateV::ConfigToken(_) => "config-token"@,
            CandidateV::EnvTokenFile(_) => "env-token-file"@,
            CandidateV::ConfigTokenFile(_) => "config-token-file"@,
            CandidateV::EnvTokenCommand(_) => "env-token-command"@,
            CandidateV::ConfigTokenCommand(_) => "config-token-command"@,
            CandidateV::ProfileTokenCommand(_) => "profile-token-command"@,
        }
    }

    pub open spec fn token(self) -> Option<Seq<char>> {
        match self {
            CandidateV::EnvToken(s) | CandidateV::ConfigToken(s) => Some(s),
            _ => None,
        }
    }

    pub open spec fn token_file(self) -> Option<Seq<char>> {
        match self {
            CandidateV::EnvTokenFile(s) | CandidateV::ConfigTokenFile(s) => Some(s),
            _ => None,
        }
    }

    pub open spec fn token_command(self) -> Option<Seq<char>> {
        match self {
            CandidateV::EnvTokenCommand(s) | CandidateV::ConfigTokenCommand(
                s,
            ) | CandidateV::ProfileTokenCommand(s) => Some(s),
            _ => None,
        }
    }
}

impl AuthCandidate {
    pub fn source(&self) -> (r: &'static str)
        ensures
            r@ == self@.source(),
    {
        match self {
            AuthCandidate::EnvToken(_) => "env-token",
            AuthCandidate::ConfigToken(_) => "config-token",
            AuthCandidate::EnvTokenFile(_) => "env-token-file",
            AuthCandidate::ConfigTokenFile(_) => "config-token-file",
            AuthCandidate::EnvTokenCommand(_) => "env-token-command",
            AuthCandidate::ConfigTokenCommand(_) => "config-token-command",
            AuthCandidate::ProfileTokenCommand(_) => "profile-token-command",
        }
    }

    /// The token itself, where the candidate holds it.
    pub fn token(&self) -> (r: Option<String>)
        ensures
            opt_view(r) == self@.token(),
    {
        match self {
            AuthCandidate::EnvToken(s) | AuthCandidate::ConfigToken(s) => Some(s.clone()),
            _ => None,
        }
    }

    pub fn token_file(&self) -> (r: Option<String>)
        ensures
            opt_view(r) == self@.token_file(),
    {
        match self {
            AuthCandidate::EnvTokenFile(s) | AuthCandidate::ConfigTokenFile(s) => Some(s.clone()),
            _ => None,
        }
    }

    pub fn token_command(&self) -> (r: Option<String>)
        ensures
            opt_view(r) == self@.token_command(),
    {
        match self {
            AuthCandidate::EnvTokenCommand(s) | AuthCandidate::ConfigTokenCommand(
                s,
            ) | AuthCandidate::ProfileTokenCommand(s) => Some(s.clone()),
            _ => None,
        }
    }
}

/// The text unless it is blank.
pub open spec fn unless_blank(o: Option<Seq<char>>) -> Option<Seq<char>> {
    match o {
        Some(s) => if trim(s).len() > 0 {
            Some(s)
        } else {
            None
        },
        None => None,
    }
}

fn solid_text(o: &Option<String>) -> (r: Option<String>)
    ensures
        opt_view(r) == unless_blank(opt_view(*o)),
{
    match o {
        Some(s) => if trimmed(s.as_str()).as_str().is_empty() {
            None
        } else {
            Some(s.clone())
        },
        None => None,
    }
}

impl Matrix {
    /// Where the token comes from: a token before a file before a command, the
    /// environment before the file for each, and the profile's command last.
    pub open spec fn candidate(self) -> Option<CandidateV> {
        let env = self.environment;
        let file = self.config;
        if unless_blank(opt_view(env.token)) is Some {
            Some(CandidateV::EnvToken(unless_blank(opt_view(env.token)).unwrap()))
        } else if unless_blank(opt_view(file.token)) is Some {
            Some(CandidateV::ConfigToken(unless_blank(opt_view(file.token)).unwrap()))
        } else if unless_blank(opt_view(env.token_file)) is Some {
            Some(CandidateV::EnvTokenFile(unless_blank(opt_view(env.token_file)).unwrap()))
        } else if opt_view(file.token_file) is Some {
            Some(CandidateV::ConfigTokenFile(opt_view(file.token_file).unwrap()))
        } else if unless_blank(opt_view(env.token_command)) is Some {
            Some(CandidateV::EnvTokenCommand(unless_blank(opt_view(env.token_command)).unwrap()))
        } else if opt_view(file.token_command) is Some {
            Some(CandidateV::ConfigTokenCommand(opt_view(file.token_command).unwrap()))
        } else if self.profile is Some {
            Some(CandidateV::ProfileTokenCommand(RED_WIZ_TOKEN_COMMAND@))
        } else {
            None
        }
    }

    pub fn auth_candidate(&self) -> (r: Option<AuthCandidate>)
        ensures
            match r {
                Some(c) => self.candidate() == Some(c@),
                None => self.candidate() is None,
            },
    {
        match solid_text(&self.environment.token) {
            Some(s) => {
                return Some(AuthCandidate::EnvToken(s));
            },
            None => {},
        }
        match solid_text(&self.config.token) {
            Some(s) => {
                return Some(AuthCandidate::ConfigToken(s));
            },
            None => {},
        }
        match solid_text(&self.environment.token_file) {
            Some(s) => {
                return Some(AuthCandidate::EnvTokenFile(s));
            },
            None => {},
        }
        match copy_opt(&self.config.token_file) {
            Some(s) => {
                return Some(AuthCandidate::ConfigTokenFile(s));
            },
            None => {},
        }
        match solid_text(&self.environment.token_command) {
            Some(s) => {
                return Some(AuthCandidate::EnvTokenCommand(s));
            },
            None => {},
        }
        match copy_opt(&self.config.token_command) {
            Some(s) => {
                return Some(AuthCandidate::ConfigTokenCommand(s));
            },
            None => {},
        }
        match self.profile {
            Some(p) => match p.token_command() {
                Some(c) => Some(AuthCandidate::ProfileTokenCommand(c.to_owned())),
                None => None,
            },
            None => None,
        }
    }
}

/// The token in a text, unless it is blank or a placeholder.
pub open spec fn token_of(s: Seq<char>) -> Option<Seq<char>> {
    let t = trim(s);
    if t.len() == 0 || t == "<token>"@ {
        None
    } else {
        Some(t)
    }
}

pub fn usable_token(value: &str) -> (r: Option<String>)
    ensures
        opt_view(r) == token_of(value@),
{
    let t = trimmed(value);
    if t.as_str().is_empty() || same(t.as_str(), "<token>") {
        None
    } else {
        Some(t)
    }
}

pub open spec fn token_at(v: JsonV, k: Seq<char>) -> Option<Seq<char>> {
    match v.text_at(k) {
        Some(s) => token_of(s),
        None => None,
    }
}

fn usable_token_at(value: &Json, k: &str) -> (r: Option<String>)
    ensures
        opt_view(r) == token_at(value@, k@),
{
    match value.text_at(k) {
        Some(s) => usable_token(s.as_str()),
        None => None,
    }
}

/// The token in a JSON value, under the first of its names that holds one.
pub open spec fn json_token(v: JsonV) -> Option<Seq<char>> {
    or(
        or(
            or(token_at(v, "access_token"@), token_at(v, "token"@)),
            token_at(v, "bearerToken"@),
        ),
        token_at(v, "bearer_token"@),
    )
}

pub fn token_from_json_value(value: &Json) -> (r: Option<String>)
    ensures
        opt_view(r) == json_token(value@),
{
    let a = usable_token_at(value, "access_token");
    let b = first_text(&a, &usable_token_at(value, "token"));
    let c = first_text(&b, &usable_token_at(value, "bearerToken"));
    first_text(&c, &usable_token_at(value, "bearer_token"))
}

/// The token in a file: its text without white space, unless nothing is left.
pub fn token_from_file_text(text: &str) -> (r: Option<String>)
    ensures
        opt_view(r) == (if trim(text@).len() == 0 {
            None
        } else {
            Some(trim(text@))
        }),
{
    let t = trimmed(text);
    if t.as_str().is_empty() {
        None
    } else {
        Some(t)
    }
}

/// `String::from_utf8`: the text whose UTF-8 encoding the bytes are, or nothing
/// where they are no UTF-8.
#[verifier::external_body]
pub(crate) fn text_of_bytes(bytes: Vec<u8>) -> (r: Option<String>)
    ensures
        match r {
            Some(s) => encode_utf8(s@) == bytes@,
            None => !valid_utf8(bytes@),
        },
{
    String::from_utf8(bytes).ok()
}

pub open spec fn opt_result(r: Result<Option<String>, String>) -> Result<
    Option<Seq<char>>,
    Seq<char>,
> {
    match r {
        Ok(o) => Ok(opt_view(o)),
        Err(e) => Err(e@),
    }
}

/// The token that a command printed: in a JSON value it must stand under one of its
/// names; any other text is the token.
pub open spec fn command_token(command: Seq<char>, text: Seq<char>, read: Option<JsonV>) -> Result<
    Option<Seq<char>>,
    Seq<char>,
> {
    let t = trim(text);
    if t.len() == 0 {
        Ok(None)
    } else {
        match read {
            Some(v) => match json_token(v) {
                Some(token) => Ok(Some(token)),
                None => Err(
                    "Matrix token command "@ + debug_text(command)
                        + " emitted JSON without a token; expected access_token, token, bearerToken, or bearer_token"@,
                ),
            },
            None => Ok(Some(t)),
        }
    }
}

/// The token that a command printed, given the JSON value that its text holds.
pub fn token_from_command_text(command: &str, text: &str, read: &Option<Json>) -> (r: Result<
    Option<String>,
    String,
>)
    ensures
        opt_result(r) == command_token(
            command@,
            text@,
            match read {
                Some(j) => Some(j@),
                None => None,
            },
        ),
{
    let t = trimmed(text);
    if t.as_str().is_empty() {
        return Ok(None);
    }
    match read {
        Some(j) => match token_from_json_value(j) {
            Some(token) => Ok(Some(token)),
            None => Err(
                cat3(
                    "Matrix token command ",
                    debug_of(command).as_str(),
                    " emitted JSON without a token; expected access_token, token, bearerToken, or bearer_token",
                ),
            ),
        },
        None => Ok(Some(t)),
    }
}

/// The JSON value in the text without white space at its ends.
pub open spec fn json_in(text: Seq<char>) -> Option<JsonV> {
    match json_read(trim(text)) {
        Ok(v) => Some(v),
        Err(_) => None,
    }
}

pub fn token_from_command_stdout(command: &str, stdout: Vec<u8>) -> (r: Result<
    Option<String>,
    String,
>)
    ensures
        valid_utf8(stdout@) ==> exists|text: Seq<char>|
            #![trigger encode_utf8(text)]
            encode_utf8(text) == stdout@ && opt_result(r) == command_token(
                command@,
                text,
                json_in(text),
            ),
        !valid_utf8(stdout@) ==> opt_result(r) == Err::<Option<Seq<char>>, Seq<char>>(
            "Matrix token command did not emit UTF-8"@,
        ),
{
    let ghost bytes = stdout@;
    match text_of_bytes(stdout) {
        None => Err("Matrix token command did not emit UTF-8".to_owned()),
        Some(text) => {
            proof {
                vstd::utf8::encode_utf8_valid_utf8(text@);
            }
            assert(encode_utf8(text@) == bytes);
            let t = trimmed(text.as_str());
            let read = match read_json(t.as_str()) {
                Ok(j) => Some(j),
                Err(_) => None,
            };
            token_from_command_text(command, text.as_str(), &read)
        },
    }
}

/// What the diagnosis says of the token: where it comes from and whether it could
/// be had, never the token.
pub open spec fn diagnosis(
    candidate: Option<CandidateV>,
    available: bool,
    error: Option<Seq<char>>,
) -> JsonV {
    match candidate {
        None => JsonV::empty_object().with("configured"@, JsonV::Bool(false)).with(
            "available"@,
            JsonV::Bool(false),
        ).with("source"@, JsonV::Null),
        Some(c) => JsonV::empty_object().with("configured"@, JsonV::Bool(true)).with(
            "available"@,
            JsonV::Bool(available),
        ).with("source"@, JsonV::Text(c.source())).with(
            "tokenFile"@,
            JsonV::opt_text(c.token_file()),
        ).with("tokenCommand"@, JsonV::opt_text(c.token_command())).with(
            "error"@,
            JsonV::opt_text(error),
        ),
    }
}

/// The diagnosis of a candidate whose token was sought: it was found, it was not,
/// or the search failed.
pub fn auth_diagnostic(candidate: &Option<AuthCandidate>, resolved: &Result<Option<String>, String>) -> (r:
    Json)
    ensures
        r@ == diagnosis(
            match candidate {
                Some(c) => Some(c@),
                None => None,
            },
            resolved matches Ok(Some(_)),
            match resolved {
                Ok(_) => None,
                Err(e) => Some(e@),
            },
        ),
{
    match candidate {
        None => Json::object().with("configured", Json::Bool(false)).with(
            "available",
            Json::Bool(false),
        ).with("source", Json::Null),
        Some(c) => {
            let available = matches!(resolved, Ok(Some(_)));
            let error: Option<String> = match resolved {
                Ok(_) => None,
                Err(e) => Some(e.clone()),
            };
            Json::object().with("configured", Json::Bool(true)).with(
                "available",
                Json::Bool(available),
            ).with("source", Json::text(c.source())).with(
                "tokenFile",
                Json::opt_text(&c.token_file()),
            ).with("tokenCommand", Json::opt_text(&c.token_command())).with(
                "error",
                Json::opt_text(&error),
            )
        },
    }
}

/// A candidate that holds the token itself shows nothing of it in the diagnosis:
/// whatever the token is, the diagnosis is the same.
pub proof fn law_diagnosis_hides_token(a: Seq<char>, b: Seq<char>, available: bool, error: Option<Seq<char>>)
    ensures
        diagnosis(Some(CandidateV::EnvToken(a)), available, error) == diagnosis(
            Some(CandidateV::EnvToken(b)),
            available,
            error,
        ),
        diagnosis(Some(CandidateV::ConfigToken(a)), available, error) == diagnosis(
            Some(CandidateV::ConfigToken(b)),
            available,
            error,
        ),
{
}

} // verus!
