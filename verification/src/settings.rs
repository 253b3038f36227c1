//! Reading and changing the stored configuration.
use vstd::prelude::*;
use crate::config::{
    pack_list, parse_sql_pack_list, profile_name, CachePolicy, Config, ConfigProfile, ConfigV,
    Matrix, RED_WIZ_API_PREFIX, RED_WIZ_CONSTRUCT_URL, RED_WIZ_TOKEN_COMMAND,
};
use crate::json::{Json, JsonV};
use crate::text::{cat2, cat3, debug_of, debug_text, parse_unsigned, same, to_usize, views};

verus! {

/// A setting by which the configuration is read and changed.
#[derive(Clone, Copy, Debug, PartialEq, Eq, Structural)]
pub enum Setting {
    Profile,
    Construct,
    ApiPrefix,
    Token,
    TokenFile,
    TokenCommand,
    SqlInit,
    SqlPack,
    SqlPacks,
    CachePolicy,
    CacheMaxFacts,
}

impl Setting {
    /// The setting with the key.
    pub open spec fn keyed(key: Seq<char>) -> Option<Setting> {
        if key == "profile"@ {
            Some(Setting::Profile)
        } else if key == "construct"@ {
            Some(Setting::Construct)
        } else if key == "api-prefix"@ || key == "apiPrefix"@ {
            Some(Setting::ApiPrefix)
        } else if key == "token"@ {
            Some(Setting::Token)
        } else if key == "token-file"@ || key == "tokenFile"@ {
            Some(Setting::TokenFile)
        } else if key == "token-command"@ || key == "tokenCommand"@ {
            Some(Setting::TokenCommand)
        } else if key == "sql-init"@ || key == "sqlInit"@ {
            Some(Setting::SqlInit)
        } else if key == "sql-pack"@ || key == "sqlPack"@ {
            Some(Setting::SqlPack)
        } else if key == "sql-packs"@ || key == "sqlPacks"@ {
            Some(Setting::SqlPacks)
        } else if key == "cache-policy"@ || key == "cachePolicy"@ {
            Some(Setting::CachePolicy)
        } else if key == "cache-max-facts"@ || key == "cacheMaxFacts"@ || key == "max-facts"@ || key
            == "maxFacts"@ {
            Some(Setting::CacheMaxFacts)
        } else {
            None
        }
    }

    pub fn from_key(key: &str) -> (r: Option<Setting>)
        ensures
            r == Setting::keyed(key@),
    {
        if same(key, "profile") {
            Some(Setting::Profile)
        } else if same(key, "construct") {
            Some(Setting::Construct)
        } else if same(key, "api-prefix") || same(key, "apiPrefix") {
            Some(Setting::ApiPrefix)
        } else if same(key, "token") {
            Some(Setting::Token)
        } else if same(key, "token-file") || same(key, "tokenFile") {
            Some(Setting::TokenFile)
        } else if same(key, "token-command") || same(key, "tokenCommand") {
            Some(Setting::TokenCommand)
        } else if same(key, "sql-init") || same(key, "sqlInit") {
            Some(Setting::SqlInit)
        } else if same(key, "sql-pack") || same(key, "sqlPack") {
            Some(Setting::SqlPack)
        } else if same(key, "sql-packs") || same(key, "sqlPacks") {
            Some(Setting::SqlPacks)
        } else if same(key, "cache-policy") || same(key, "cachePolicy") {
            Some(Setting::CachePolicy)
        } else if same(key, "cache-max-facts") || same(key, "cacheMaxFacts") || same(
            key,
            "max-facts",
        ) || same(key, "maxFacts") {
            Some(Setting::CacheMaxFacts)
        } else {
            None
        }
    }
}

/// The message that a key names no setting.
pub open spec fn unknown_key(key: Seq<char>) -> Seq<char> {
    "unknown config key "@ + debug_text(key)
        + "; expected profile, construct, api-prefix, token, token-file, token-command, sql-init, sql-pack, sql-packs, cache-policy, or cache-max-facts"@
}

fn unknown_key_message(key: &str) -> (r: String)
    ensures
        r@ == unknown_key(key@),
{
    cat3(
        "unknown config key ",
        debug_of(key).as_str(),
        "; expected profile, construct, api-prefix, token, token-file, token-command, sql-init, sql-pack, sql-packs, cache-policy, or cache-max-facts",
    )
}

pub open spec fn policy_json(p: Option<CachePolicy>) -> JsonV {
    match p {
        Some(x) => JsonV::Text(x.name()),
        None => JsonV::Null,
    }
}

fn policy_value(p: Option<CachePolicy>) -> (r: Json)
    ensures
        r@ == policy_json(p),
{
    match p {
        Some(x) => Json::text(x.as_str()),
        None => Json::Null,
    }
}

pub open spec fn count_json(n: Option<usize>) -> JsonV {
    match n {
        Some(x) => JsonV::number(x as nat),
        None => JsonV::Null,
    }
}

pub fn count_value(n: Option<usize>) -> (r: Json)
    ensures
        r@ == count_json(n),
{
    match n {
        Some(x) => Json::count(x),
        None => Json::Null,
    }
}

pub open spec fn profile_json(p: Option<ConfigProfile>) -> JsonV {
    JsonV::opt_text(profile_name(p))
}

pub fn profile_value(p: Option<ConfigProfile>) -> (r: Json)
    ensures
        r@ == profile_json(p),
{
    match p {
        Some(x) => Json::text(x.as_str()),
        None => Json::Null,
    }
}

/// The listing of a configuration: of the token and its command only whether they
/// are there.
pub open spec fn listing(path: Seq<char>, c: ConfigV) -> JsonV {
    JsonV::empty_object().with("configPath"@, JsonV::Text(path)).with(
        "profile"@,
        profile_json(c.profile),
    ).with("construct"@, JsonV::opt_text(c.construct)).with(
        "apiPrefix"@,
        JsonV::opt_text(c.api_prefix),
    ).with("hasToken"@, JsonV::Bool(c.token is Some)).with(
        "tokenFile"@,
        JsonV::opt_text(c.token_file),
    ).with("hasTokenCommand"@, JsonV::Bool(c.token_command is Some)).with(
        "sqlInit"@,
        JsonV::opt_text(c.sql_init),
    ).with("sqlPacks"@, JsonV::texts(c.sql_packs)).with(
        "cachePolicy"@,
        policy_json(c.cache_policy),
    ).with("cacheMaxFacts"@, count_json(c.cache_max_facts))
}

pub fn config_list(matrix: &Matrix) -> (r: Json)
    ensures
        r@ == listing(matrix.config_path@, matrix.config@),
{
    let c = &matrix.config;
    Json::object().with("configPath", Json::text(matrix.config_path.as_str())).with(
        "profile",
        profile_value(c.profile),
    ).with("construct", Json::opt_text(&c.construct)).with(
        "apiPrefix",
        Json::opt_text(&c.api_prefix),
    ).with("hasToken", Json::Bool(c.token.is_some())).with(
        "tokenFile",
        Json::opt_text(&c.token_file),
    ).with("hasTokenCommand", Json::Bool(c.token_command.is_some())).with(
        "sqlInit",
        Json::opt_text(&c.sql_init),
    ).with("sqlPacks", Json::texts(&c.sql_packs)).with(
        "cachePolicy",
        policy_value(c.cache_policy),
    ).with("cacheMaxFacts", count_value(c.cache_max_facts))
}

/// What reading one setting shows.
pub open spec fn shown(c: ConfigV, s: Setting) -> JsonV {
    let o = JsonV::empty_object();
    match s {
        Setting::Profile => o.with("profile"@, profile_json(c.profile)),
        Setting::Construct => o.with("construct"@, JsonV::opt_text(c.construct)),
        Setting::ApiPrefix => o.with("apiPrefix"@, JsonV::opt_text(c.api_prefix)),
        Setting::Token => o.with("hasToken"@, JsonV::Bool(c.token is Some)),
        Setting::TokenFile => o.with("tokenFile"@, JsonV::opt_text(c.token_file)),
        Setting::TokenCommand => o.with("hasTokenCommand"@, JsonV::Bool(c.token_command is Some)),
        Setting::SqlInit => o.with("sqlInit"@, JsonV::opt_text(c.sql_init)),
        Setting::SqlPack | Setting::SqlPacks => o.with("sqlPacks"@, JsonV::texts(c.sql_packs)),
        Setting::CachePolicy => o.with("cachePolicy"@, policy_json(c.cache_policy)),
        Setting::CacheMaxFacts => o.with("cacheMaxFacts"@, count_json(c.cache_max_facts)),
    }
}

pub fn config_get(config: &Config, key: &str) -> (r: Result<Json, String>)
    ensures
        match Setting::keyed(key@) {
            Some(s) => r matches Ok(j) && j@ == shown(config@, s),
            None => r matches Err(e) && e@ == unknown_key(key@),
        },
{
    let o = Json::object();
    match Setting::from_key(key) {
        Some(s) => Ok(
            match s {
                Setting::Profile => o.with("profile", profile_value(config.profile)),
                Setting::Construct => o.with("construct", Json::opt_text(&config.construct)),
                Setting::ApiPrefix => o.with("apiPrefix", Json::opt_text(&config.api_prefix)),
                Setting::Token => o.with("hasToken", Json::Bool(config.token.is_some())),
                Setting::TokenFile => o.with("tokenFile", Json::opt_text(&config.token_file)),
                Setting::TokenCommand => o.with(
                    "hasTokenCommand",
                    Json::Bool(config.token_command.is_some()),
                ),
                Setting::SqlInit => o.with("sqlInit", Json::opt_text(&config.sql_init)),
                Setting::SqlPack | Setting::SqlPacks => o.with(
                    "sqlPacks",
                    Json::texts(&config.sql_packs),
                ),
                Setting::CachePolicy => o.with("cachePolicy", policy_value(config.cache_policy)),
                Setting::CacheMaxFacts => o.with(
                    "cacheMaxFacts",
                    count_value(config.cache_max_facts),
                ),
            },
        ),
        None => Err(unknown_key_message(key)),
    }
}

/// The configuration with one setting changed, or the message of what is wrong with
/// the value.
pub open spec fn changed(c: ConfigV, s: Setting, value: Seq<char>) -> Result<ConfigV, Seq<char>> {
    match s {
        Setting::Profile => match ConfigProfile::named(value) {
            Some(p) => Ok(ConfigV { profile: Some(p), ..c }),
            None => Err("unknown profile "@ + debug_text(value) + "; expected red-wiz"@),
        },
        Setting::Construct => Ok(ConfigV { construct: Some(value), ..c }),
        Setting::ApiPrefix => Ok(ConfigV { api_prefix: Some(value), ..c }),
        Setting::Token => Ok(ConfigV { token: Some(value), ..c }),
        Setting::TokenFile => Ok(ConfigV { token_file: Some(value), ..c }),
        Setting::TokenCommand => Ok(ConfigV { token_command: Some(value), ..c }),
        Setting::SqlInit => Ok(ConfigV { sql_init: Some(value), ..c }),
        Setting::SqlPack => Ok(ConfigV { sql_packs: seq![value], ..c }),
        Setting::SqlPacks => Ok(ConfigV { sql_packs: pack_list(value), ..c }),
        Setting::CachePolicy => match CachePolicy::parsed(value) {
            Ok(p) => Ok(ConfigV { cache_policy: Some(p), ..c }),
            Err(m) => Err(m),
        },
        Setting::CacheMaxFacts => match parse_unsigned(value, usize::MAX as int) {
            Some(n) => Ok(ConfigV { cache_max_facts: Some(n as usize), ..c }),
            None => Err("invalid cache max facts "@ + debug_text(value)),
        },
    }
}

/// Changes one setting; where that fails the configuration stays as it was.
pub fn config_set(config: &mut Config, key: &str, value: String) -> (r: Result<(), String>)
    ensures
        match Setting::keyed(key@) {
            Some(s) => match changed(old(config)@, s, value@) {
                Ok(c) => r is Ok && final(config)@ == c,
                Err(m) => (r matches Err(e) && e@ == m) && *final(config) == *old(config),
            },
            None => (r matches Err(e) && e@ == unknown_key(key@)) && *final(config) == *old(config),
        },
{
    let setting = match Setting::from_key(key) {
        Some(s) => s,
        None => {
            return Err(unknown_key_message(key));
        },
    };
    match setting {
        Setting::Profile => match ConfigProfile::from_name(value.as_str()) {
            Some(p) => {
                config.profile = Some(p);
            },
            None => {
                return Err(
                    cat3("unknown profile ", debug_of(value.as_str()).as_str(), "; expected red-wiz"),
                );
            },
        },
        Setting::Construct => {
            config.construct = Some(value);
        },
        Setting::ApiPrefix => {
            config.api_prefix = Some(value);
        },
        Setting::Token => {
            config.token = Some(value);
        },
        Setting::TokenFile => {
            config.token_file = Some(value);
        },
        Setting::TokenCommand => {
            config.token_command = Some(value);
        },
        Setting::SqlInit => {
            config.sql_init = Some(value);
        },
        Setting::SqlPack => {
            let mut packs: Vec<String> = Vec::new();
            packs.push(value);
            assert(views(packs@) =~= seq![value@]);
            config.sql_packs = packs;
        },
        Setting::SqlPacks => {
            config.sql_packs = parse_sql_pack_list(value.as_str());
        },
        Setting::CachePolicy => match CachePolicy::parse(value.as_str()) {
            Ok(p) => {
                config.cache_policy = Some(p);
            },
            Err(e) => {
                return Err(e);
            },
        },
        Setting::CacheMaxFacts => match to_usize(value.as_str()) {
            Some(n) => {
                config.cache_max_facts = Some(n);
            },
            None => {
                return Err(cat2("invalid cache max facts ", debug_of(value.as_str()).as_str()));
            },
        },
    }
    Ok(())
}

/// The configuration that uses a profile: its addresses and its token command, and
/// no token or token file of before.
pub open spec fn using(c: ConfigV, profile: ConfigProfile) -> ConfigV {
    ConfigV {
        profile: Some(profile),
        construct: Some(RED_WIZ_CONSTRUCT_URL@),
        api_prefix: Some(RED_WIZ_API_PREFIX@),
        token: None,
        token_file: None,
        token_command: Some(RED_WIZ_TOKEN_COMMAND@),
        ..c
    }
}

/// A change that the configuration commands ask for.
#[derive(Debug)]
pub enum ConfigSubcommand {
    List,
    Get { key: String },
    Put { key: String, value: String },
    Use { profile: ConfigProfile },
}

/// What a configuration command shows, and whether the configuration is to be saved
/// before it is shown.
#[derive(Debug)]
pub struct ConfigReply {
    pub value: Json,
    pub save: bool,
}

/// What `set` and `use` show.
pub open spec fn saved(path: Seq<char>) -> JsonV {
    JsonV::empty_object().with("saved"@, JsonV::Text(path))
}

pub open spec fn saved_profile(path: Seq<char>, profile: ConfigProfile, c: ConfigV) -> JsonV {
    saved(path).with("profile"@, JsonV::Text(profile.name())).with(
        "construct"@,
        JsonV::Text(RED_WIZ_CONSTRUCT_URL@),
    ).with("apiPrefix"@, JsonV::Text(RED_WIZ_API_PREFIX@)).with(
        "hasToken"@,
        JsonV::Bool(c.token is Some),
    ).with("tokenFile"@, JsonV::opt_text(c.token_file)).with(
        "hasTokenCommand"@,
        JsonV::Bool(c.token_command is Some),
    )
}

pub fn config_command(matrix: &mut Matrix, command: ConfigSubcommand) -> (r: Result<
    ConfigReply,
    String,
>)
    ensures
        final(matrix).config_path == old(matrix).config_path,
        final(matrix).environment == old(matrix).environment,
        final(matrix).profile == old(matrix).profile,
        final(matrix).construct == old(matrix).construct,
        final(matrix).api_prefix == old(matrix).api_prefix,
        final(matrix).output == old(matrix).output,
        match command {
            ConfigSubcommand::List => (r matches Ok(reply) && reply.value@ == listing(
                old(matrix).config_path@,
                old(matrix).config@,
            ) && !reply.save) && final(matrix).config == old(matrix).config,
            ConfigSubcommand::Get { key } => (match Setting::keyed(key@) {
                Some(s) => r matches Ok(reply) && reply.value@ == shown(old(matrix).config@, s)
                    && !reply.save,
                None => r matches Err(e) && e@ == unknown_key(key@),
            }) && final(matrix).config == old(matrix).config,
            ConfigSubcommand::Put { key, value } => match Setting::keyed(key@) {
                Some(s) => match changed(old(matrix).config@, s, value@) {
                    Ok(c) => (r matches Ok(reply) && reply.value@ == saved(
                        old(matrix).config_path@,
                    ) && reply.save) && final(matrix).config@ == c,
                    Err(m) => (r matches Err(e) && e@ == m) && final(matrix).config == old(
                        matrix,
                    ).config,
                },
                None => (r matches Err(e) && e@ == unknown_key(key@)) && final(matrix).config
                    == old(matrix).config,
            },
            ConfigSubcommand::Use { profile } => (r matches Ok(reply) && reply.value@
                == saved_profile(old(matrix).config_path@, profile, final(matrix).config@)
                && reply.save) && final(matrix).config@ == using(old(matrix).config@, profile),
        },
{
    match command {
        ConfigSubcommand::List => Ok(ConfigReply { value: config_list(matrix), save: false }),
        ConfigSubcommand::Get { key } => match config_get(&matrix.config, key.as_str()) {
            Ok(value) => Ok(ConfigReply { value, save: false }),
            Err(e) => Err(e),
        },
        ConfigSubcommand::Put { key, value } => match config_set(
            &mut matrix.config,
            key.as_str(),
            value,
        ) {
            Ok(_) => Ok(
                ConfigReply {
                    value: Json::object().with("saved", Json::text(matrix.config_path.as_str())),
                    save: true,
                },
            ),
            Err(e) => Err(e),
        },
        ConfigSubcommand::Use { profile } => {
            matrix.config.profile = Some(profile);
            matrix.config.construct = Some(profile.construct().to_owned());
            matrix.config.api_prefix = Some(profile.api_prefix().to_owned());
            matrix.config.token = None;
            matrix.config.token_file = None;
            matrix.config.token_command = match profile.token_command() {
                Some(c) => Some(c.to_owned()),
                None => None,
            };
            let value = Json::object().with(
                "saved",
                Json::text(matrix.config_path.as_str()),
            ).with("profile", Json::text(profile.as_str())).with(
                "construct",
                Json::text(profile.construct()),
            ).with("apiPrefix", Json::text(profile.api_prefix())).with(
                "hasToken",
                Json::Bool(matrix.config.token.is_some()),
            ).with("tokenFile", Json::opt_text(&matrix.config.token_file)).with(
                "hasTokenCommand",
                Json::Bool(matrix.config.token_command.is_some()),
            );
            Ok(ConfigReply { value, save: true })
        },
    }
}

/// Neither the listing nor any single setting shows the token or the token command:
/// configurations that differ in nothing else are shown alike.
pub proof fn law_config_hides_secrets(path: Seq<char>, a: ConfigV, b: ConfigV, s: Setting)
    requires
        a == (ConfigV { token: a.token, token_command: a.token_command, ..b }),
        a.token is Some == b.token is Some,
        a.token_command is Some == b.token_command is Some,
    ensures
        listing(path, a) == listing(path, b),
        shown(a, s) == shown(b, s),
{
}

/// The setting that reads the same part of the configuration.
pub open spec fn part(s: Setting) -> Setting {
    if s == Setting::SqlPack {
        Setting::SqlPacks
    } else {
        s
    }
}

/// Changing a setting touches no other setting's value.
pub proof fn law_change_keeps_other_settings(c: ConfigV, s: Setting, value: Seq<char>, other: Setting)
    requires
        changed(c, s, value) is Ok,
        part(s) != part(other),
    ensures
        shown(changed(c, s, value)->Ok_0, other) == shown(c, other),
{
}

/// A text setting that was changed is shown as it was changed.
pub proof fn law_changed_setting_is_shown(c: ConfigV, value: Seq<char>)
    ensures
        shown(changed(c, Setting::Construct, value)->Ok_0, Setting::Construct)
            == JsonV::empty_object().with("construct"@, JsonV::Text(value)),
        shown(changed(c, Setting::ApiPrefix, value)->Ok_0, Setting::ApiPrefix)
            == JsonV::empty_object().with("apiPrefix"@, JsonV::Text(value)),
        shown(changed(c, Setting::TokenFile, value)->Ok_0, Setting::TokenFile)
            == JsonV::empty_object().with("tokenFile"@, JsonV::Text(value)),
        shown(changed(c, Setting::SqlInit, value)->Ok_0, Setting::SqlInit)
            == JsonV::empty_object().with("sqlInit"@, JsonV::Text(value)),
{
}

/// Using a profile leaves no token or token file behind and keeps the SQL and cache
/// settings.
pub proof fn law_use_clears_tokens(c: ConfigV, profile: ConfigProfile)
    ensures
        using(c, profile).token is None,
        using(c, profile).token_file is None,
        using(c, profile).profile == Some(profile),
        using(c, profile).sql_packs == c.sql_packs,
        using(c, profile).sql_init == c.sql_init,
        using(c, profile).cache_policy == c.cache_policy,
        using(c, profile).cache_max_facts == c.cache_max_facts,
{
}

} // verus!
