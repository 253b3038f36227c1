//! The local cache of facts: what it records of itself, when it serves, and how that
//! is shown.
use vstd::prelude::*;
use std::collections::hash_map::DefaultHasher;
use std::hash::{BuildHasher, BuildHasherDefault};
use crate::config::{profile_name, CachePolicy, ConfigProfile, Matrix};
use crate::construct::{
    facts_reply, law_cursor_reads_back, page_info, page_json, page_limit, page_of, start_offset,
    PageV, DEFAULT_FACT_LIMIT,
};
use crate::json::{items_view, lemma_array_view, lemma_with, Json, JsonV};
use crate::request::{query_text, query_string, QueryPair};
use crate::settings::{count_json, count_value, profile_json, profile_value};
use crate::text::{
    cat2, cat3, copy_opt, decimal, digits_of, digits_of_usize, hex, hex_digits, join_path,
    lemma_parse_decimal, opt_view, parse_unsigned, path_in, same, to_u64, to_usize, trim, trimmed,
};

verus! {

/// The table of what is known of a cache.
pub const CACHE_TABLE_SQL: &'static str = "create table matrix_cache_metadata (
           key text primary key,
           value text not null
         );";

/// All that is known of a cache.
pub const CACHE_ENTRIES_SQL: &'static str = "select key, value from matrix_cache_metadata";

/// Keeps something of a cache, in place of what was known before.
pub const CACHE_ENTRY_SQL: &'static str =
    "insert or replace into matrix_cache_metadata (key, value) values (?1, ?2)";

/// After how many seconds without a check a cache is stale.
pub const FACT_CACHE_STALE_AFTER: u64 = 86400;

/// The largest page of facts that is asked for.
pub const MAX_FACTS_PAGE: usize = 200;

// ---------------------------------------------------------------------------
// Sizes and times
// ---------------------------------------------------------------------------
/// The number of units nearest to `n`, the even one of two that are equally near.
pub open spec fn nearest(n: nat, unit: nat) -> nat
    recommends
        unit > 0,
{
    let q = n / unit;
    let r = n % unit;
    if 2 * r > unit || (2 * r == unit && q % 2 == 1) {
        q + 1
    } else {
        q
    }
}

/// The distance between the binary floating-point numbers of 53 significant bits
/// around `n`.
pub open spec fn float_step(n: nat) -> nat
    decreases n,
{
    if n < 0x20_0000_0000_0000 {
        1
    } else {
        2 * float_step(n / 2)
    }
}

/// The binary floating-point number of 53 significant bits nearest to `n`.
pub open spec fn float_value(n: nat) -> nat {
    nearest(n, float_step(n)) * float_step(n)
}

/// A number of tenths with its point.
pub open spec fn tenths_text(n: nat) -> Seq<char> {
    decimal(n / 10) + "."@ + decimal(n % 10)
}

/// A size in bytes, or with one decimal in the largest of the binary units up to
/// gibibytes that it fills.
pub open spec fn bytes_text(bytes: nat) -> Seq<char> {
    let value = float_value(bytes);
    if value < 1024 {
        decimal(bytes) + " B"@
    } else if value < 1048576 {
        tenths_text(nearest(10 * value, 1024)) + " KiB"@
    } else if value < 1073741824 {
        tenths_text(nearest(10 * value, 1048576)) + " MiB"@
    } else {
        tenths_text(nearest(10 * value, 1073741824)) + " GiB"@
    }
}

fn nearest_of(n: u128, unit: u128) -> (r: u128)
    requires
        0 < unit < 0x1_0000_0000_0000_0000,
        n < 0x100_0000_0000_0000_0000,
    ensures
        r == nearest(n as nat, unit as nat),
        r <= n + 1,
{
    let q = n / unit;
    let rem = n % unit;
    assert(q <= n) by (nonlinear_arith)
        requires
            q == n / unit,
            unit > 0,
    ;
    if 2 * rem > unit || (2 * rem == unit && q % 2 == 1) {
        q + 1
    } else {
        q
    }
}

proof fn lemma_float_step(n: nat)
    requires
        n <= 0xffff_ffff_ffff_ffff,
    ensures
        1 <= float_step(n) <= 2048,
        n < 0x20_0000_0000_0000 ==> float_step(n) == 1,
        float_step(n) * 0x20_0000_0000_0000 <= 2 * n || float_step(n) == 1,
{
    reveal_with_fuel(float_step, 13);
}

fn float_step_of(n: u64) -> (r: u64)
    ensures
        r == float_step(n as nat),
        1 <= r <= 2048,
    decreases n,
{
    proof {
        lemma_float_step(n as nat);
    }
    if n < 0x20_0000_0000_0000 {
        1
    } else {
        proof {
            lemma_float_step((n / 2) as nat);
        }
        2 * float_step_of(n / 2)
    }
}

fn tenths_of(value: u128, unit: u128) -> (r: String)
    requires
        value <= 0x2_0000_0000_0000_0000,
        0 < unit < 0x1_0000_0000_0000_0000,
        10 * value / (unit as int) < 0x1000_0000_0000_0000,
    ensures
        r@ == tenths_text(nearest((10 * value) as nat, unit as nat)),
{
    let n = nearest_of(10 * value, unit);
    assert(n <= 10 * value / (unit as int) + 1);
    let whole = digits_of((n / 10) as u64);
    let tenth = digits_of((n % 10) as u64);
    cat3(whole.as_str(), ".", tenth.as_str())
}

pub fn human_bytes(bytes: u64) -> (r: String)
    ensures
        r@ == bytes_text(bytes as nat),
{
    let step = float_step_of(bytes);
    let steps = nearest_of(bytes as u128, step as u128);
    proof {
        lemma_float_step(bytes as nat);
        assert(steps * step <= bytes + step) by (nonlinear_arith)
            requires
                steps == nearest(bytes as nat, step as nat),
                step > 0,
        ;
    }
    let value: u128 = steps * (step as u128);
    if value < 1024 {
        let n = digits_of(bytes);
        cat2(n.as_str(), " B")
    } else if value < 1048576 {
        let n = tenths_of(value, 1024);
        cat2(n.as_str(), " KiB")
    } else if value < 1073741824 {
        let n = tenths_of(value, 1048576);
        cat2(n.as_str(), " MiB")
    } else {
        let n = tenths_of(value, 1073741824);
        cat2(n.as_str(), " GiB")
    }
}

/// An age in the largest unit that suits it: seconds, minutes, hours up to two days,
/// or days.
pub open spec fn duration_text(seconds: nat) -> Seq<char> {
    if seconds < 60 {
        decimal(seconds) + "s"@
    } else if seconds < 3600 {
        decimal(seconds / 60) + "m"@
    } else if seconds < 172800 {
        decimal(seconds / 3600) + "h"@
    } else {
        decimal(seconds / 86400) + "d"@
    }
}

pub fn human_duration(seconds: u64) -> (r: String)
    ensures
        r@ == duration_text(seconds as nat),
{
    if seconds < 60 {
        return cat2(digits_of(seconds).as_str(), "s");
    }
    let minutes = seconds / 60;
    if minutes < 60 {
        return cat2(digits_of(minutes).as_str(), "m");
    }
    let hours = minutes / 60;
    assert(hours == seconds / 3600);
    if hours < 48 {
        return cat2(digits_of(hours).as_str(), "h");
    }
    let days = hours / 24;
    assert(days == seconds / 86400);
    cat2(digits_of(days).as_str(), "d")
}

pub fn unix_timestamp_human(seconds: u64) -> (r: String)
    ensures
        r@ == decimal(seconds as nat),
{
    digits_of(seconds)
}

/// The time in seconds since the epoch, where the clock is not before it.
pub fn unix_now(clock: Option<u64>) -> (r: Result<u64, String>)
    ensures
        match clock {
            Some(n) => r == Ok::<u64, String>(n),
            None => r matches Err(e) && e@ == "system clock is before UNIX epoch"@,
        },
{
    match clock {
        Some(n) => Ok(n),
        None => Err("system clock is before UNIX epoch".to_owned()),
    }
}

/// The seconds from a time up to the clock's, none where it lies after it.
pub open spec fn age(clock: Option<u64>, since: u64) -> Option<u64> {
    match clock {
        Some(now) => Some(
            if now > since {
                (now - since) as u64
            } else {
                0
            },
        ),
        None => None,
    }
}

pub fn unix_age_seconds(clock: Option<u64>, fetched_at_unix: u64) -> (r: Option<u64>)
    ensures
        r == age(clock, fetched_at_unix),
{
    match clock {
        Some(now) => Some(now.saturating_sub(fetched_at_unix)),
        None => None,
    }
}

// ---------------------------------------------------------------------------
// Metadata
// ---------------------------------------------------------------------------
#[derive(Debug)]
pub struct FactCacheMetadata {
    pub construct: Option<String>,
    pub api_prefix: String,
    pub profile: Option<ConfigProfile>,
    pub schema_version: u32,
    pub fetched_at_unix: u64,
    pub checked_at_unix: Option<u64>,
    pub fact_count: usize,
    pub max_facts: usize,
    pub head_digest: Option<String>,
    pub head_fact_count: Option<usize>,
    pub head_latest_accepted_at: Option<String>,
    pub head_latest_fact_id: Option<String>,
    pub head_latest_content_hash: Option<String>,
}

pub struct MetadataV {
    pub construct: Option<Seq<char>>,
    pub api_prefix: Seq<char>,
    pub profile: Option<ConfigProfile>,
    pub schema_version: u32,
    pub fetched_at_unix: u64,
    pub checked_at_unix: Option<u64>,
    pub fact_count: usize,
    pub max_facts: usize,
    pub head_digest: Option<Seq<char>>,
    pub head_fact_count: Option<usize>,
    pub head_latest_accepted_at: Option<Seq<char>>,
    pub head_latest_fact_id: Option<Seq<char>>,
    pub head_latest_content_hash: Option<Seq<char>>,
}

impl View for FactCacheMetadata {
    type V = MetadataV;

    open spec fn view(&self) -> MetadataV {
        MetadataV {
            construct: opt_view(self.construct),
            api_prefix: self.api_prefix@,
            profile: self.profile,
            schema_version: self.schema_version,
            fetched_at_unix: self.fetched_at_unix,
            checked_at_unix: self.checked_at_unix,
            fact_count: self.fact_count,
            max_facts: self.max_facts,
            head_digest: opt_view(self.head_digest),
            head_fact_count: self.head_fact_count,
            head_latest_accepted_at: opt_view(self.head_latest_accepted_at),
            head_latest_fact_id: opt_view(self.head_latest_fact_id),
            head_latest_content_hash: opt_view(self.head_latest_content_hash),
        }
    }
}

/// A key of the metadata table with its value.
#[derive(Debug)]
pub struct CacheEntry {
    pub key: String,
    pub value: String,
}

pub struct EntryV {
    pub key: Seq<char>,
    pub value: Seq<char>,
}

impl View for CacheEntry {
    type V = EntryV;

    open spec fn view(&self) -> EntryV {
        EntryV { key: self.key@, value: self.value@ }
    }
}

pub open spec fn entry_views(v: Seq<CacheEntry>) -> Seq<EntryV> {
    v.map_values(|e: CacheEntry| e@)
}

pub open spec fn text_or_empty(o: Option<Seq<char>>) -> Seq<char> {
    match o {
        Some(s) => s,
        None => ""@,
    }
}

fn text_or_blank(o: &Option<String>) -> (r: String)
    ensures
        r@ == text_or_empty(opt_view(*o)),
{
    match o {
        Some(s) => s.clone(),
        None => "".to_owned(),
    }
}

pub open spec fn u64_or_empty(o: Option<u64>) -> Seq<char> {
    match o {
        Some(n) => decimal(n as nat),
        None => ""@,
    }
}

pub open spec fn usize_or_empty(o: Option<usize>) -> Seq<char> {
    match o {
        Some(n) => decimal(n as nat),
        None => ""@,
    }
}

fn u64_or_blank(o: Option<u64>) -> (r: String)
    ensures
        r@ == u64_or_empty(o),
{
    match o {
        Some(n) => digits_of(n),
        None => "".to_owned(),
    }
}

fn usize_or_blank(o: Option<usize>) -> (r: String)
    ensures
        r@ == usize_or_empty(o),
{
    match o {
        Some(n) => digits_of_usize(n),
        None => "".to_owned(),
    }
}

pub open spec fn entry(key: Seq<char>, value: Seq<char>) -> EntryV {
    EntryV { key, value }
}

/// The entries that record the metadata; what is not there is recorded as empty.
pub open spec fn metadata_entries(m: MetadataV) -> Seq<EntryV> {
    seq![
        entry("construct"@, text_or_empty(m.construct)),
        entry("apiPrefix"@, m.api_prefix),
        entry("profile"@, text_or_empty(profile_name(m.profile))),
        entry("schemaVersion"@, decimal(m.schema_version as nat)),
        entry("fetchedAtUnix"@, decimal(m.fetched_at_unix as nat)),
        entry("checkedAtUnix"@, u64_or_empty(m.checked_at_unix)),
        entry("factCount"@, decimal(m.fact_count as nat)),
        entry("maxFacts"@, decimal(m.max_facts as nat)),
        entry("headDigest"@, text_or_empty(m.head_digest)),
        entry("headFactCount"@, usize_or_empty(m.head_fact_count)),
        entry("headLatestAcceptedAt"@, text_or_empty(m.head_latest_accepted_at)),
        entry("headLatestFactId"@, text_or_empty(m.head_latest_fact_id)),
        entry("headLatestContentHash"@, text_or_empty(m.head_latest_content_hash)),
    ]
}

fn push_entry(entries: &mut Vec<CacheEntry>, key: &str, value: String)
    ensures
        entry_views(final(entries)@) == entry_views(old(entries)@).push(entry(key@, value@)),
{
    let ghost before = entry_views(entries@);
    let ghost v = value@;
    entries.push(CacheEntry { key: key.to_owned(), value });
    assert(entry_views(entries@) =~= before.push(entry(key@, v)));
}

pub fn write_fact_cache_metadata(metadata: &FactCacheMetadata) -> (r: Vec<CacheEntry>)
    ensures
        entry_views(r@) == metadata_entries(metadata@),
{
    let mut out: Vec<CacheEntry> = Vec::new();
    assert(entry_views(out@) =~= Seq::empty());
    push_entry(&mut out, "construct", text_or_blank(&metadata.construct));
    push_entry(&mut out, "apiPrefix", metadata.api_prefix.clone());
    let profile = match metadata.profile {
        Some(p) => p.as_str().to_owned(),
        None => "".to_owned(),
    };
    push_entry(&mut out, "profile", profile);
    push_entry(&mut out, "schemaVersion", digits_of(metadata.schema_version as u64));
    push_entry(&mut out, "fetchedAtUnix", digits_of(metadata.fetched_at_unix));
    push_entry(&mut out, "checkedAtUnix", u64_or_blank(metadata.checked_at_unix));
    push_entry(&mut out, "factCount", digits_of_usize(metadata.fact_count));
    push_entry(&mut out, "maxFacts", digits_of_usize(metadata.max_facts));
    push_entry(&mut out, "headDigest", text_or_blank(&metadata.head_digest));
    push_entry(&mut out, "headFactCount", usize_or_blank(metadata.head_fact_count));
    push_entry(
        &mut out,
        "headLatestAcceptedAt",
        text_or_blank(&metadata.head_latest_accepted_at),
    );
    push_entry(&mut out, "headLatestFactId", text_or_blank(&metadata.head_latest_fact_id));
    push_entry(
        &mut out,
        "headLatestContentHash",
        text_or_blank(&metadata.head_latest_content_hash),
    );
    assert(entry_views(out@) =~= metadata_entries(metadata@));
    out
}

/// The value of a key among the entries, the last where there are several.
pub open spec fn value_of(e: Seq<EntryV>, key: Seq<char>) -> Option<Seq<char>>
    decreases e.len(),
{
    if e.len() == 0 {
        None
    } else if e.last().key == key {
        Some(e.last().value)
    } else {
        value_of(e.drop_last(), key)
    }
}

fn find_value(entries: &Vec<CacheEntry>, key: &str) -> (r: Option<String>)
    ensures
        opt_view(r) == value_of(entry_views(entries@), key@),
{
    let ghost e = entry_views(entries@);
    let mut i: usize = entries.len();
    assert(e.take(i as int) =~= e);
    while i > 0
        invariant
            e == entry_views(entries@),
            i <= entries@.len(),
            value_of(e, key@) == value_of(e.take(i as int), key@),
        decreases i,
    {
        assert(e.take(i as int).drop_last() =~= e.take(i as int - 1));
        assert(e.take(i as int).last() == entries@[i - 1]@);
        if same(entries[i - 1].key.as_str(), key) {
            return Some(entries[i - 1].value.clone());
        }
        i -= 1;
    }
    None
}

pub open spec fn filled(o: Option<Seq<char>>) -> Option<Seq<char>> {
    match o {
        Some(s) => if s.len() > 0 {
            Some(s)
        } else {
            None
        },
        None => None,
    }
}

fn keep_filled(o: Option<String>) -> (r: Option<String>)
    ensures
        opt_view(r) == filled(opt_view(o)),
{
    match o {
        Some(s) => if s.as_str().is_empty() {
            None
        } else {
            Some(s)
        },
        None => None,
    }
}

pub open spec fn number_in(o: Option<Seq<char>>, max: int) -> Option<nat> {
    match o {
        Some(s) => parse_unsigned(s, max),
        None => None,
    }
}

pub open spec fn number_or_zero(o: Option<Seq<char>>, max: int) -> nat {
    match number_in(o, max) {
        Some(n) => n,
        None => 0,
    }
}

fn u64_in(o: &Option<String>) -> (r: Option<u64>)
    ensures
        match r {
            Some(n) => number_in(opt_view(*o), u64::MAX as int) == Some(n as nat),
            None => number_in(opt_view(*o), u64::MAX as int) is None,
        },
{
    match o {
        Some(s) => to_u64(s.as_str()),
        None => None,
    }
}

fn usize_in(o: &Option<String>) -> (r: Option<usize>)
    ensures
        match r {
            Some(n) => number_in(opt_view(*o), usize::MAX as int) == Some(n as nat),
            None => number_in(opt_view(*o), usize::MAX as int) is None,
        },
{
    match o {
        Some(s) => to_usize(s.as_str()),
        None => None,
    }
}

fn u32_or_zero(o: &Option<String>) -> (r: u32)
    ensures
        r == number_or_zero(opt_view(*o), u32::MAX as int),
{
    match u64_in(o) {
        Some(n) => if n <= u32::MAX as u64 {
            n as u32
        } else {
            0
        },
        None => 0,
    }
}

/// The metadata that the entries record; numbers that cannot be read are zero or
/// not there.
pub open spec fn entries_metadata(e: Seq<EntryV>) -> MetadataV {
    MetadataV {
        construct: filled(value_of(e, "construct"@)),
        api_prefix: match value_of(e, "apiPrefix"@) {
            Some(s) => s,
            None => "/v1/matrix"@,
        },
        profile: match filled(value_of(e, "profile"@)) {
            Some(s) => ConfigProfile::named(s),
            None => None,
        },
        schema_version: number_or_zero(value_of(e, "schemaVersion"@), u32::MAX as int) as u32,
        fetched_at_unix: number_or_zero(value_of(e, "fetchedAtUnix"@), u64::MAX as int) as u64,
        checked_at_unix: match number_in(filled(value_of(e, "checkedAtUnix"@)), u64::MAX as int) {
            Some(n) => Some(n as u64),
            None => None,
        },
        fact_count: number_or_zero(value_of(e, "factCount"@), usize::MAX as int) as usize,
        max_facts: number_or_zero(value_of(e, "maxFacts"@), usize::MAX as int) as usize,
        head_digest: filled(value_of(e, "headDigest"@)),
        head_fact_count: match number_in(filled(value_of(e, "headFactCount"@)), usize::MAX as int) {
            Some(n) => Some(n as usize),
            None => None,
        },
        head_latest_accepted_at: filled(value_of(e, "headLatestAcceptedAt"@)),
        head_latest_fact_id: filled(value_of(e, "headLatestFactId"@)),
        head_latest_content_hash: filled(value_of(e, "headLatestContentHash"@)),
    }
}

pub fn read_fact_cache_metadata(entries: &Vec<CacheEntry>) -> (r: FactCacheMetadata)
    ensures
        r@ == entries_metadata(entry_views(entries@)),
{
    let profile = match keep_filled(find_value(entries, "profile")) {
        Some(s) => ConfigProfile::from_name(s.as_str()),
        None => None,
    };
    let api_prefix = match find_value(entries, "apiPrefix") {
        Some(s) => s,
        None => "/v1/matrix".to_owned(),
    };
    let fetched = match u64_in(&find_value(entries, "fetchedAtUnix")) {
        Some(n) => n,
        None => 0,
    };
    let count = match usize_in(&find_value(entries, "factCount")) {
        Some(n) => n,
        None => 0,
    };
    let most = match usize_in(&find_value(entries, "maxFacts")) {
        Some(n) => n,
        None => 0,
    };
    FactCacheMetadata {
        construct: keep_filled(find_value(entries, "construct")),
        api_prefix,
        profile,
        schema_version: u32_or_zero(&find_value(entries, "schemaVersion")),
        fetched_at_unix: fetched,
        checked_at_unix: u64_in(&keep_filled(find_value(entries, "checkedAtUnix"))),
        fact_count: count,
        max_facts: most,
        head_digest: keep_filled(find_value(entries, "headDigest")),
        head_fact_count: usize_in(&keep_filled(find_value(entries, "headFactCount"))),
        head_latest_accepted_at: keep_filled(find_value(entries, "headLatestAcceptedAt")),
        head_latest_fact_id: keep_filled(find_value(entries, "headLatestFactId")),
        head_latest_content_hash: keep_filled(find_value(entries, "headLatestContentHash")),
    }
}

proof fn lemma_named_red_wiz()
    ensures
        ConfigProfile::named("red-wiz"@) == Some(ConfigProfile::RedWiz),
        "red-wiz"@.len() > 0,
{
    reveal_strlit("red-wiz");
    assert(crate::text::lower("red-wiz"@) =~= "red-wiz"@);
}

/// Whether no optional text of the metadata is there but empty.
pub open spec fn texts_filled(m: MetadataV) -> bool {
    &&& filled(m.construct) == m.construct
    &&& filled(m.head_digest) == m.head_digest
    &&& filled(m.head_latest_accepted_at) == m.head_latest_accepted_at
    &&& filled(m.head_latest_fact_id) == m.head_latest_fact_id
    &&& filled(m.head_latest_content_hash) == m.head_latest_content_hash
}

/// The value at index `i` is the value of its key, where the key stands nowhere
/// after it.
proof fn lemma_value_at(e: Seq<EntryV>, i: int)
    requires
        0 <= i < e.len(),
        forall|j: int| i < j < e.len() ==> (#[trigger] e[j]).key != e[i].key,
    ensures
        value_of(e, e[i].key) == Some(e[i].value),
    decreases e.len(),
{
    if i < e.len() - 1 {
        let d = e.drop_last();
        assert(d[i] == e[i]);
        assert forall|j: int| i < j < d.len() implies (#[trigger] d[j]).key != d[i].key by {
            assert(d[j] == e[j]);
        }
        lemma_value_at(d, i);
        assert(e[e.len() - 1].key != e[i].key);
    }
}

/// The length of the key of entry `i`.
spec fn key_length(i: int) -> int {
    if i == 0 {
        9
    } else if i == 1 {
        9
    } else if i == 2 {
        7
    } else if i == 3 {
        13
    } else if i == 4 {
        13
    } else if i == 5 {
        13
    } else if i == 6 {
        9
    } else if i == 7 {
        8
    } else if i == 8 {
        10
    } else if i == 9 {
        13
    } else if i == 10 {
        20
    } else if i == 11 {
        16
    } else {
        21
    }
}

/// The first character of the key of entry `i`.
spec fn key_start(i: int) -> char {
    if i == 0 {
        'c'
    } else if i == 1 {
        'a'
    } else if i == 2 {
        'p'
    } else if i == 3 {
        's'
    } else if i == 4 {
        'f'
    } else if i == 5 {
        'c'
    } else if i == 6 {
        'f'
    } else if i == 7 {
        'm'
    } else if i == 8 {
        'h'
    } else if i == 9 {
        'h'
    } else if i == 10 {
        'h'
    } else if i == 11 {
        'h'
    } else {
        'h'
    }
}

/// The metadata is read back from the entries that record it, except that an empty
/// optional text is read as not there.
pub proof fn law_metadata_reads_back(m: MetadataV)
    requires
        texts_filled(m),
    ensures
        entries_metadata(metadata_entries(m)) == m,
{
    reveal_strlit("");
    reveal_strlit("construct");
    reveal_strlit("apiPrefix");
    reveal_strlit("profile");
    reveal_strlit("schemaVersion");
    reveal_strlit("fetchedAtUnix");
    reveal_strlit("checkedAtUnix");
    reveal_strlit("factCount");
    reveal_strlit("maxFacts");
    reveal_strlit("headDigest");
    reveal_strlit("headFactCount");
    reveal_strlit("headLatestAcceptedAt");
    reveal_strlit("headLatestFactId");
    reveal_strlit("headLatestContentHash");
    lemma_named_red_wiz();
    let e = metadata_entries(m);
    assert forall|i: int| 0 <= i < 13 implies (#[trigger] e[i]).key.len() == key_length(i)
        && e[i].key[0] == key_start(i) by {
        if i == 0 {
        } else if i == 1 {
        } else if i == 2 {
        } else if i == 3 {
        } else if i == 4 {
        } else if i == 5 {
        } else if i == 6 {
        } else if i == 7 {
        } else if i == 8 {
        } else if i == 9 {
        } else if i == 10 {
        } else if i == 11 {
        } else if i == 12 {
        }
    }
    assert forall|i: int, j: int| 0 <= i < j < 13 implies (#[trigger] e[i]).key != (
    #[trigger] e[j]).key by {
        assert(key_length(i) != key_length(j) || key_start(i) != key_start(j));
    }
    assert forall|i: int| 0 <= i < 13 implies value_of(e, (#[trigger] e[i]).key) == Some(
        e[i].value,
    ) by {
        lemma_value_at(e, i);
    }
    assert(e[0].key == "construct"@ && e[1].key == "apiPrefix"@ && e[2].key == "profile"@);
    assert(e[3].key == "schemaVersion"@ && e[4].key == "fetchedAtUnix"@ && e[5].key
        == "checkedAtUnix"@);
    assert(e[6].key == "factCount"@ && e[7].key == "maxFacts"@ && e[8].key == "headDigest"@);
    assert(e[9].key == "headFactCount"@ && e[10].key == "headLatestAcceptedAt"@ && e[11].key
        == "headLatestFactId"@ && e[12].key == "headLatestContentHash"@);
    lemma_parse_decimal(m.schema_version as nat, u32::MAX as int);
    lemma_parse_decimal(m.fetched_at_unix as nat, u64::MAX as int);
    lemma_parse_decimal(m.fact_count as nat, usize::MAX as int);
    lemma_parse_decimal(m.max_facts as nat, usize::MAX as int);
    match m.checked_at_unix {
        Some(n) => {
            lemma_parse_decimal(n as nat, u64::MAX as int);
        },
        None => {},
    }
    match m.head_fact_count {
        Some(n) => {
            lemma_parse_decimal(n as nat, usize::MAX as int);
        },
        None => {},
    }
}

// ---------------------------------------------------------------------------
// The head of the facts
// ---------------------------------------------------------------------------
/// What a construct says of its facts as a whole.
#[derive(Debug)]
pub struct FactsHead {
    pub kind: String,
    pub schema_version: u32,
    pub fact_count: usize,
    pub digest: String,
    pub generated_at: Option<String>,
    pub latest_accepted_at: Option<String>,
    pub latest_fact_id: Option<String>,
    pub latest_content_hash: Option<String>,
}

pub struct HeadV {
    pub kind: Seq<char>,
    pub schema_version: u32,
    pub fact_count: usize,
    pub digest: Seq<char>,
    pub generated_at: Option<Seq<char>>,
    pub latest_accepted_at: Option<Seq<char>>,
    pub latest_fact_id: Option<Seq<char>>,
    pub latest_content_hash: Option<Seq<char>>,
}

impl View for FactsHead {
    type V = HeadV;

    open spec fn view(&self) -> HeadV {
        HeadV {
            kind: self.kind@,
            schema_version: self.schema_version,
            fact_count: self.fact_count,
            digest: self.digest@,
            generated_at: opt_view(self.generated_at),
            latest_accepted_at: opt_view(self.latest_accepted_at),
            latest_fact_id: opt_view(self.latest_fact_id),
            latest_content_hash: opt_view(self.latest_content_hash),
        }
    }
}

/// Whether a member is a text, null or not there.
pub open spec fn optional_text(body: JsonV, key: Seq<char>) -> bool {
    match body.get(key) {
        Some(JsonV::Text(_)) | Some(JsonV::Null) | None => true,
        _ => false,
    }
}

fn has_optional_text(body: &Json, key: &str) -> (r: bool)
    ensures
        r == optional_text(body@, key@),
{
    match body.get(key) {
        Some(Json::Text(_)) | Some(Json::Null) | None => true,
        _ => false,
    }
}

/// A head as an object: one that is given as a list has its eight fields in order.
pub open spec fn head_fields(body: JsonV) -> JsonV {
    match body {
        JsonV::Array(a) => if a.len() == 8 {
            JsonV::empty_object().with("kind"@, a[0]).with("schemaVersion"@, a[1]).with(
                "factCount"@,
                a[2],
            ).with("digest"@, a[3]).with("generatedAt"@, a[4]).with(
                "latestAcceptedAt"@,
                a[5],
            ).with("latestFactId"@, a[6]).with("latestContentHash"@, a[7])
        } else {
            body
        },
        _ => body,
    }
}

fn named_head_fields(body: &Json) -> (r: Json)
    ensures
        r@ == head_fields(body@),
{
    broadcast use lemma_array_view;

    match body {
        Json::Array(a) => {
            assert(body@ == Json::Array(*a)@);
            assert(items_view(a@).len() == a@.len());
            if a.len() == 8 {
                assert forall|i: int| 0 <= i < 8 implies #[trigger] items_view(a@)[i] == a@[i]@ by {}
                Json::object().with("kind", a[0].copy()).with("schemaVersion", a[1].copy()).with(
                    "factCount",
                    a[2].copy(),
                ).with("digest", a[3].copy()).with("generatedAt", a[4].copy()).with(
                    "latestAcceptedAt",
                    a[5].copy(),
                ).with("latestFactId", a[6].copy()).with("latestContentHash", a[7].copy())
            } else {
                body.copy()
            }
        },
        _ => body.copy(),
    }
}

/// The head in a reply: its kind and digest are texts, its version and count are
/// numbers in range, its optional texts are texts or null, it is of the kind that a
/// head has, and its digest is not blank.
pub open spec fn head_of(body: JsonV) -> Option<HeadV> {
    if body.text_at("kind"@) == Some("compatibility-facts-head"@)
        && body.u64_at("schemaVersion"@) is Some && body.u64_at("schemaVersion"@).unwrap()
        <= u32::MAX && body.u64_at("factCount"@) is Some && body.u64_at("factCount"@).unwrap()
        <= usize::MAX && body.text_at("digest"@) is Some && trim(
        body.text_at("digest"@).unwrap(),
    ).len() > 0 && optional_text(body, "generatedAt"@) && optional_text(body, "latestAcceptedAt"@)
        && optional_text(body, "latestFactId"@) && optional_text(body, "latestContentHash"@) {
        Some(
            HeadV {
                kind: "compatibility-facts-head"@,
                schema_version: body.u64_at("schemaVersion"@).unwrap() as u32,
                fact_count: body.u64_at("factCount"@).unwrap() as usize,
                digest: body.text_at("digest"@).unwrap(),
                generated_at: body.text_at("generatedAt"@),
                latest_accepted_at: body.text_at("latestAcceptedAt"@),
                latest_fact_id: body.text_at("latestFactId"@),
                latest_content_hash: body.text_at("latestContentHash"@),
            },
        )
    } else {
        None
    }
}

/// The head in a reply, where there was one, or the message that it is none.
pub fn read_facts_head(reply: &Option<Json>) -> (r: Result<Option<FactsHead>, String>)
    ensures
        match reply {
            None => r matches Ok(None),
            Some(body) => match head_of(head_fields(body@)) {
                Some(head) => r matches Ok(Some(h)) && h@ == head,
                None => r matches Err(e) && e@ == "construct returned an invalid facts head"@,
            },
        },
{
    let body = match reply {
        Some(b) => named_head_fields(b),
        None => {
            return Ok(None);
        },
    };
    let body = &body;
    let invalid = "construct returned an invalid facts head";
    if !(has_optional_text(body, "generatedAt") && has_optional_text(body, "latestAcceptedAt")
        && has_optional_text(body, "latestFactId") && has_optional_text(
        body,
        "latestContentHash",
    )) {
        return Err(invalid.to_owned());
    }
    match (
        body.text_at("kind"),
        body.u64_at("schemaVersion"),
        body.u64_at("factCount"),
        body.text_at("digest"),
    ) {
        (Some(kind), Some(version), Some(count), Some(digest)) => {
            if !same(kind.as_str(), "compatibility-facts-head") || version > u32::MAX as u64
                || count > usize::MAX as u64 || trimmed(digest.as_str()).as_str().is_empty() {
                return Err(invalid.to_owned());
            }
            Ok(
                Some(
                    FactsHead {
                        kind,
                        schema_version: version as u32,
                        fact_count: count as usize,
                        digest,
                        generated_at: body.text_at("generatedAt"),
                        latest_accepted_at: body.text_at("latestAcceptedAt"),
                        latest_fact_id: body.text_at("latestFactId"),
                        latest_content_hash: body.text_at("latestContentHash"),
                    },
                ),
            )
        },
        _ => Err(invalid.to_owned()),
    }
}

/// The entries that record a checked head.
pub open spec fn head_entries(now: u64, h: HeadV) -> Seq<EntryV> {
    seq![
        entry("checkedAtUnix"@, decimal(now as nat)),
        entry("headDigest"@, h.digest),
        entry("headFactCount"@, decimal(h.fact_count as nat)),
        entry("headLatestAcceptedAt"@, text_or_empty(h.latest_accepted_at)),
        entry("headLatestFactId"@, text_or_empty(h.latest_fact_id)),
        entry("headLatestContentHash"@, text_or_empty(h.latest_content_hash)),
    ]
}

pub fn update_fact_cache_head_metadata(now: u64, head: &FactsHead) -> (r: Vec<CacheEntry>)
    ensures
        entry_views(r@) == head_entries(now, head@),
{
    let mut out: Vec<CacheEntry> = Vec::new();
    assert(entry_views(out@) =~= Seq::empty());
    push_entry(&mut out, "checkedAtUnix", digits_of(now));
    push_entry(&mut out, "headDigest", head.digest.clone());
    push_entry(&mut out, "headFactCount", digits_of_usize(head.fact_count));
    push_entry(&mut out, "headLatestAcceptedAt", text_or_blank(&head.latest_accepted_at));
    push_entry(&mut out, "headLatestFactId", text_or_blank(&head.latest_fact_id));
    push_entry(&mut out, "headLatestContentHash", text_or_blank(&head.latest_content_hash));
    assert(entry_views(out@) =~= head_entries(now, head@));
    out
}

pub open spec fn opt_head(h: Option<&FactsHead>) -> Option<HeadV> {
    match h {
        Some(x) => Some(x@),
        None => None,
    }
}

/// The metadata of a cache that was just filled.
pub open spec fn fresh_metadata(m: Matrix, now: u64, count: usize, most: usize, h: Option<HeadV>) -> MetadataV {
    MetadataV {
        construct: opt_view(m.construct),
        api_prefix: m.api_prefix@,
        profile: m.profile,
        schema_version: 2,
        fetched_at_unix: now,
        checked_at_unix: None,
        fact_count: count,
        max_facts: most,
        head_digest: match h {
            Some(x) => Some(x.digest),
            None => None,
        },
        head_fact_count: match h {
            Some(x) => Some(x.fact_count),
            None => None,
        },
        head_latest_accepted_at: match h {
            Some(x) => x.latest_accepted_at,
            None => None,
        },
        head_latest_fact_id: match h {
            Some(x) => x.latest_fact_id,
            None => None,
        },
        head_latest_content_hash: match h {
            Some(x) => x.latest_content_hash,
            None => None,
        },
    }
}

pub fn new_cache_metadata(
    matrix: &Matrix,
    now: u64,
    fact_count: usize,
    max_facts: usize,
    head: Option<&FactsHead>,
) -> (r: FactCacheMetadata)
    ensures
        r@ == fresh_metadata(*matrix, now, fact_count, max_facts, opt_head(head)),
{
    let (digest, count, accepted, id, hash) = match head {
        Some(h) => (
            Some(h.digest.clone()),
            Some(h.fact_count),
            copy_opt(&h.latest_accepted_at),
            copy_opt(&h.latest_fact_id),
            copy_opt(&h.latest_content_hash),
        ),
        None => (None, None, None, None, None),
    };
    FactCacheMetadata {
        construct: copy_opt(&matrix.construct),
        api_prefix: matrix.api_prefix.clone(),
        profile: matrix.profile,
        schema_version: 2,
        fetched_at_unix: now,
        checked_at_unix: None,
        fact_count,
        max_facts,
        head_digest: digest,
        head_fact_count: count,
        head_latest_accepted_at: accepted,
        head_latest_fact_id: id,
        head_latest_content_hash: hash,
    }
}

/// Whether a cache of this schema can be read, or the message that it cannot.
pub fn check_cache_schema(schema_version: u32, path: &str) -> (r: Result<(), String>)
    ensures
        schema_version == 2 ==> r is Ok,
        schema_version != 2 ==> (r matches Err(e) && e@
            == "unsupported Matrix SQLite fact cache schema "@ + decimal(schema_version as nat)
            + " in "@ + path@ + "; run `matrix sync`"@),
{
    if schema_version == 2 {
        return Ok(());
    }
    Err(
        crate::text::cat5(
            "unsupported Matrix SQLite fact cache schema ",
            digits_of(schema_version as u64).as_str(),
            " in ",
            path,
            "; run `matrix sync`",
        ),
    )
}

// ---------------------------------------------------------------------------
// Summaries
// ---------------------------------------------------------------------------
#[derive(Clone, Copy, Debug, PartialEq, Eq, Structural)]
pub enum FactCacheSource {
    Live,
    Cache,
    Missing,
}

impl FactCacheSource {
    pub open spec fn name(self) -> Seq<char> {
        match self {
            FactCacheSource::Live => "live"@,
            FactCacheSource::Cache => "cache"@,
            FactCacheSource::Missing => "missing"@,
        }
    }

    pub fn as_str(self) -> (r: &'static str)
        ensures
            r@ == self.name(),
    {
        match self {
            FactCacheSource::Live => "live",
            FactCacheSource::Cache => "cache",
            FactCacheSource::Missing => "missing",
        }
    }
}

/// What is known of a cache when it is used.
#[derive(Debug)]
pub struct FactCacheSummary {
    pub source: FactCacheSource,
    pub policy: CachePolicy,
    pub path: String,
    pub metadata: Option<FactCacheMetadata>,
    pub age_seconds: Option<u64>,
    pub checked_age_seconds: Option<u64>,
    pub stale: bool,
}

pub struct SummaryV {
    pub source: FactCacheSource,
    pub policy: CachePolicy,
    pub path: Seq<char>,
    pub metadata: Option<MetadataV>,
    pub age_seconds: Option<u64>,
    pub checked_age_seconds: Option<u64>,
    pub stale: bool,
}

impl View for FactCacheSummary {
    type V = SummaryV;

    open spec fn view(&self) -> SummaryV {
        SummaryV {
            source: self.source,
            policy: self.policy,
            path: self.path@,
            metadata: match self.metadata {
                Some(m) => Some(m@),
                None => None,
            },
            age_seconds: self.age_seconds,
            checked_age_seconds: self.checked_age_seconds,
            stale: self.stale,
        }
    }
}

/// When the cache was last checked: when it was fetched, unless it was checked
/// since.
pub open spec fn checked_at(m: MetadataV) -> u64 {
    match m.checked_at_unix {
        Some(n) => n,
        None => m.fetched_at_unix,
    }
}

fn checked_time(m: &FactCacheMetadata) -> (r: u64)
    ensures
        r == checked_at(m@),
{
    match m.checked_at_unix {
        Some(n) => n,
        None => m.fetched_at_unix,
    }
}

/// The summary of a cache at a time: it is stale a day after its last check.
pub open spec fn summarized(source: FactCacheSource, path: Seq<char>, m: MetadataV, clock: Option<u64>) -> SummaryV {
    SummaryV {
        source,
        policy: CachePolicy::Auto,
        path,
        metadata: Some(m),
        age_seconds: age(clock, m.fetched_at_unix),
        checked_age_seconds: age(clock, checked_at(m)),
        stale: match age(clock, checked_at(m)) {
            Some(n) => n > FACT_CACHE_STALE_AFTER,
            None => false,
        },
    }
}

pub open spec fn opt_number(n: Option<u64>) -> JsonV {
    match n {
        Some(x) => JsonV::number(x as nat),
        None => JsonV::Null,
    }
}

fn number_value(n: Option<u64>) -> (r: Json)
    ensures
        r@ == opt_number(n),
{
    match n {
        Some(x) => Json::number(x),
        None => Json::Null,
    }
}

pub open spec fn opt_duration(n: Option<u64>) -> JsonV {
    match n {
        Some(x) => JsonV::Text(duration_text(x as nat)),
        None => JsonV::Null,
    }
}

fn duration_value(n: Option<u64>) -> (r: Json)
    ensures
        r@ == opt_duration(n),
{
    match n {
        Some(x) => Json::text(human_duration(x).as_str()),
        None => Json::Null,
    }
}

/// How a summary is shown, with the size of the cache's file where it has one.
pub open spec fn summary_json(s: SummaryV, size: Option<u64>) -> JsonV {
    let m = s.metadata;
    let there = s.source != FactCacheSource::Missing;
    JsonV::empty_object().with("source"@, JsonV::Text(s.source.name())).with(
        "policy"@,
        JsonV::Text(s.policy.name()),
    ).with("path"@, JsonV::Text(s.path)).with("exists"@, JsonV::Bool(there)).with(
        "format"@,
        if there {
            JsonV::Text("sqlite"@)
        } else {
            JsonV::Null
        },
    ).with("sizeBytes"@, opt_number(size)).with(
        "sizeHuman"@,
        match size {
            Some(n) => JsonV::Text(bytes_text(n as nat)),
            None => JsonV::Null,
        },
    ).with(
        "construct"@,
        match m {
            Some(x) => JsonV::opt_text(x.construct),
            None => JsonV::Null,
        },
    ).with(
        "apiPrefix"@,
        match m {
            Some(x) => JsonV::Text(x.api_prefix),
            None => JsonV::Null,
        },
    ).with(
        "profile"@,
        match m {
            Some(x) => profile_json(x.profile),
            None => JsonV::Null,
        },
    ).with(
        "schemaVersion"@,
        match m {
            Some(x) => JsonV::number(x.schema_version as nat),
            None => JsonV::Null,
        },
    ).with(
        "fetchedAtUnix"@,
        match m {
            Some(x) => JsonV::number(x.fetched_at_unix as nat),
            None => JsonV::Null,
        },
    ).with(
        "fetchedAt"@,
        match m {
            Some(x) => JsonV::Text(decimal(x.fetched_at_unix as nat)),
            None => JsonV::Null,
        },
    ).with(
        "checkedAtUnix"@,
        match m {
            Some(x) => JsonV::number(checked_at(x) as nat),
            None => JsonV::Null,
        },
    ).with(
        "checkedAt"@,
        match m {
            Some(x) => JsonV::Text(decimal(checked_at(x) as nat)),
            None => JsonV::Null,
        },
    ).with("ageSeconds"@, opt_number(s.age_seconds)).with(
        "ageHuman"@,
        opt_duration(s.age_seconds),
    ).with("checkedAgeSeconds"@, opt_number(s.checked_age_seconds)).with(
        "checkedAgeHuman"@,
        opt_duration(s.checked_age_seconds),
    ).with("staleAfterSeconds"@, JsonV::number(FACT_CACHE_STALE_AFTER as nat)).with(
        "stale"@,
        JsonV::Bool(s.stale),
    ).with(
        "factCount"@,
        match m {
            Some(x) => JsonV::number(x.fact_count as nat),
            None => JsonV::Null,
        },
    ).with(
        "maxFacts"@,
        match m {
            Some(x) => JsonV::number(x.max_facts as nat),
            None => JsonV::Null,
        },
    ).with(
        "headDigest"@,
        match m {
            Some(x) => JsonV::opt_text(x.head_digest),
            None => JsonV::Null,
        },
    ).with(
        "headFactCount"@,
        match m {
            Some(x) => count_json(x.head_fact_count),
            None => JsonV::Null,
        },
    ).with(
        "headLatestAcceptedAt"@,
        match m {
            Some(x) => JsonV::opt_text(x.head_latest_accepted_at),
            None => JsonV::Null,
        },
    ).with(
        "headLatestFactId"@,
        match m {
            Some(x) => JsonV::opt_text(x.head_latest_fact_id),
            None => JsonV::Null,
        },
    ).with(
        "headLatestContentHash"@,
        match m {
            Some(x) => JsonV::opt_text(x.head_latest_content_hash),
            None => JsonV::Null,
        },
    )
}

impl FactCacheSummary {
    pub fn from_metadata(
        source: FactCacheSource,
        path: String,
        metadata: FactCacheMetadata,
        clock: Option<u64>,
    ) -> (r: FactCacheSummary)
        ensures
            r@ == summarized(source, path@, metadata@, clock),
    {
        let age_seconds = unix_age_seconds(clock, metadata.fetched_at_unix);
        let checked_age_seconds = unix_age_seconds(clock, checked_time(&metadata));
        let stale = match checked_age_seconds {
            Some(n) => n > FACT_CACHE_STALE_AFTER,
            None => false,
        };
        FactCacheSummary {
            source,
            policy: CachePolicy::Auto,
            path,
            metadata: Some(metadata),
            age_seconds,
            checked_age_seconds,
            stale,
        }
    }

    /// The summary of a cache that is not there.
    pub fn missing(path: String, policy: CachePolicy) -> (r: FactCacheSummary)
        ensures
            r@ == (SummaryV {
                source: FactCacheSource::Missing,
                policy,
                path: path@,
                metadata: None,
                age_seconds: None,
                checked_age_seconds: None,
                stale: false,
            }),
    {
        FactCacheSummary {
            source: FactCacheSource::Missing,
            policy,
            path,
            metadata: None,
            age_seconds: None,
            checked_age_seconds: None,
            stale: false,
        }
    }

    pub fn with_policy(self, policy: CachePolicy) -> (r: FactCacheSummary)
        ensures
            r@ == (SummaryV { policy, ..self@ }),
    {
        FactCacheSummary { policy, ..self }
    }

    pub fn satisfies_max_facts(&self, requested: usize) -> (r: bool)
        ensures
            r == (match self@.metadata {
                Some(m) => m.max_facts >= requested,
                None => false,
            }),
    {
        match &self.metadata {
            Some(m) => m.max_facts >= requested,
            None => false,
        }
    }

    pub fn fact_count(&self) -> (r: usize)
        ensures
            r == (match self@.metadata {
                Some(m) => m.fact_count,
                None => 0,
            }),
    {
        match &self.metadata {
            Some(m) => m.fact_count,
            None => 0,
        }
    }

    pub fn to_value(&self, size_bytes: Option<u64>) -> (r: Json)
        ensures
            r@ == summary_json(self@, size_bytes),
    {
        let there = self.source != FactCacheSource::Missing;
        let head = Json::object().with("source", Json::text(self.source.as_str())).with(
            "policy",
            Json::text(self.policy.as_str()),
        ).with("path", Json::text(self.path.as_str())).with("exists", Json::Bool(there)).with(
            "format",
            if there {
                Json::text("sqlite")
            } else {
                Json::Null
            },
        ).with("sizeBytes", number_value(size_bytes)).with(
            "sizeHuman",
            match size_bytes {
                Some(n) => Json::text(human_bytes(n).as_str()),
                None => Json::Null,
            },
        );
        let named = match &self.metadata {
            Some(m) => head.with("construct", Json::opt_text(&m.construct)).with(
                "apiPrefix",
                Json::text(m.api_prefix.as_str()),
            ).with("profile", profile_value(m.profile)).with(
                "schemaVersion",
                Json::number(m.schema_version as u64),
            ).with("fetchedAtUnix", Json::number(m.fetched_at_unix)).with(
                "fetchedAt",
                Json::text(unix_timestamp_human(m.fetched_at_unix).as_str()),
            ).with("checkedAtUnix", Json::number(checked_time(m))).with(
                "checkedAt",
                Json::text(unix_timestamp_human(checked_time(m)).as_str()),
            ),
            None => head.with("construct", Json::Null).with("apiPrefix", Json::Null).with(
                "profile",
                Json::Null,
            ).with("schemaVersion", Json::Null).with("fetchedAtUnix", Json::Null).with(
                "fetchedAt",
                Json::Null,
            ).with("checkedAtUnix", Json::Null).with("checkedAt", Json::Null),
        };
        let aged = named.with("ageSeconds", number_value(self.age_seconds)).with(
            "ageHuman",
            duration_value(self.age_seconds),
        ).with("checkedAgeSeconds", number_value(self.checked_age_seconds)).with(
            "checkedAgeHuman",
            duration_value(self.checked_age_seconds),
        ).with("staleAfterSeconds", Json::number(FACT_CACHE_STALE_AFTER)).with(
            "stale",
            Json::Bool(self.stale),
        );
        match &self.metadata {
            Some(m) => aged.with("factCount", Json::count(m.fact_count)).with(
                "maxFacts",
                Json::count(m.max_facts),
            ).with("headDigest", Json::opt_text(&m.head_digest)).with(
                "headFactCount",
                count_value(m.head_fact_count),
            ).with("headLatestAcceptedAt", Json::opt_text(&m.head_latest_accepted_at)).with(
                "headLatestFactId",
                Json::opt_text(&m.head_latest_fact_id),
            ).with("headLatestContentHash", Json::opt_text(&m.head_latest_content_hash)),
            None => aged.with("factCount", Json::Null).with("maxFacts", Json::Null).with(
                "headDigest",
                Json::Null,
            ).with("headFactCount", Json::Null).with("headLatestAcceptedAt", Json::Null).with(
                "headLatestFactId",
                Json::Null,
            ).with("headLatestContentHash", Json::Null),
        }
    }
}

/// An object with the summary of the cache that it came from; anything else as it
/// is.
pub fn with_cache_summary(value: Json, cache: &Json) -> (r: Json)
    ensures
        r@ == value@.with("cache"@, cache@),
{
    value.with("cache", cache.copy())
}

/// What clearing the cache reports.
pub fn cache_clear_value(removed: usize, path: &str, all: bool) -> (r: Json)
    ensures
        r@ == JsonV::empty_object().with("kind"@, JsonV::Text("fact-cache-clear"@)).with(
            "removed"@,
            JsonV::number(removed as nat),
        ).with(
            "path"@,
            if all {
                JsonV::Null
            } else {
                JsonV::Text(path@)
            },
        ).with("all"@, JsonV::Bool(all)),
{
    Json::object().with("kind", Json::text("fact-cache-clear")).with(
        "removed",
        Json::count(removed),
    ).with(
        "path",
        if all {
            Json::Null
        } else {
            Json::text(path)
        },
    ).with("all", Json::Bool(all))
}

// ---------------------------------------------------------------------------
// Where facts come from
// ---------------------------------------------------------------------------
/// What to do for the facts of a query.
#[derive(Clone, Copy, Debug, PartialEq, Eq, Structural)]
pub enum CacheStep {
    /// Serve from the cache.
    UseCache,
    /// Fill the cache from the construct, and serve from it.
    Sync,
    /// Ask the construct for its head first.
    CheckHead,
}

/// The first step for a policy: offline uses the cache as it is, refresh always
/// syncs; otherwise a cache that can be read and is large enough serves, unless it
/// is stale, which only `prefer-cache` passes over.
pub open spec fn first_step(policy: CachePolicy, summary: Option<SummaryV>, max_facts: usize) -> CacheStep {
    match policy {
        CachePolicy::Offline => CacheStep::UseCache,
        CachePolicy::Refresh => CacheStep::Sync,
        CachePolicy::Auto | CachePolicy::PreferCache => match summary {
            Some(s) => if s.metadata is Some && s.metadata.unwrap().max_facts >= max_facts {
                if policy == CachePolicy::PreferCache || !s.stale {
                    CacheStep::UseCache
                } else {
                    CacheStep::CheckHead
                }
            } else {
                CacheStep::Sync
            },
            None => CacheStep::Sync,
        },
    }
}

pub fn cache_source_for_policy(
    policy: CachePolicy,
    summary: &Option<FactCacheSummary>,
    max_facts: usize,
) -> (r: CacheStep)
    ensures
        r == first_step(
            policy,
            match summary {
                Some(s) => Some(s@),
                None => None,
            },
            max_facts,
        ),
{
    match policy {
        CachePolicy::Offline => CacheStep::UseCache,
        CachePolicy::Refresh => CacheStep::Sync,
        CachePolicy::Auto | CachePolicy::PreferCache => match summary {
            Some(s) => if s.satisfies_max_facts(max_facts) {
                if policy == CachePolicy::PreferCache || !s.stale {
                    CacheStep::UseCache
                } else {
                    CacheStep::CheckHead
                }
            } else {
                CacheStep::Sync
            },
            None => CacheStep::Sync,
        },
    }
}

/// Whether a cache is still the construct's head: its digest is known and the same,
/// and so is its count where that is known.
pub open spec fn head_matches(m: Option<MetadataV>, h: Option<HeadV>) -> bool {
    match (m, h) {
        (Some(x), Some(y)) => x.head_digest == Some(y.digest) && (x.head_fact_count is None
            || x.head_fact_count == Some(y.fact_count)),
        _ => false,
    }
}

/// Whether the head of a construct is worth asking for: a cache knows one to hold it
/// against.
pub fn wants_head(metadata: &Option<FactCacheMetadata>) -> (r: bool)
    ensures
        r == (metadata matches Some(m) && m.head_digest is Some),
{
    match metadata {
        Some(m) => m.head_digest.is_some(),
        None => false,
    }
}

pub fn cache_head_matches(metadata: &Option<FactCacheMetadata>, head: &Option<FactsHead>) -> (r:
    bool)
    ensures
        r == head_matches(
            match metadata {
                Some(m) => Some(m@),
                None => None,
            },
            match head {
                Some(h) => Some(h@),
                None => None,
            },
        ),
{
    match (metadata, head) {
        (Some(m), Some(h)) => {
            let digest = match &m.head_digest {
                Some(d) => same(d.as_str(), h.digest.as_str()),
                None => false,
            };
            let count = match m.head_fact_count {
                Some(n) => n == h.fact_count,
                None => true,
            };
            digest && count
        },
        _ => false,
    }
}

/// The step after the head was asked for: the cache serves where it matches.
pub fn step_after_head(metadata: &Option<FactCacheMetadata>, head: &Option<FactsHead>) -> (r:
    CacheStep)
    ensures
        r == (if head_matches(
            match metadata {
                Some(m) => Some(m@),
                None => None,
            },
            match head {
                Some(h) => Some(h@),
                None => None,
            },
        ) {
            CacheStep::UseCache
        } else {
            CacheStep::Sync
        }),
{
    if cache_head_matches(metadata, head) {
        CacheStep::UseCache
    } else {
        CacheStep::Sync
    }
}

/// Offline never leaves the cache, refresh always does, and what does not hold
/// enough facts never serves unless offline.
pub proof fn law_cache_policies(summary: Option<SummaryV>, max_facts: usize)
    ensures
        first_step(CachePolicy::Offline, summary, max_facts) == CacheStep::UseCache,
        first_step(CachePolicy::Refresh, summary, max_facts) == CacheStep::Sync,
        first_step(CachePolicy::PreferCache, summary, max_facts) != CacheStep::CheckHead,
        summary is None ==> first_step(CachePolicy::Auto, summary, max_facts) == CacheStep::Sync,
        first_step(CachePolicy::Auto, summary, max_facts) == CacheStep::UseCache ==> !(
        summary.unwrap().stale) && summary.unwrap().metadata.unwrap().max_facts >= max_facts,
{
}

// ---------------------------------------------------------------------------
// Fetching facts
// ---------------------------------------------------------------------------
/// How far the fetching of facts has come.
#[derive(Debug)]
pub struct FetchState {
    pub facts: Vec<Json>,
    pub cursor: Option<String>,
    pub done: bool,
}

/// How many facts the next page is to have: as many as are still wanted, up to a page.
pub open spec fn page_size(have: nat, max_facts: nat) -> nat {
    if max_facts - have < MAX_FACTS_PAGE {
        (max_facts - have) as nat
    } else {
        MAX_FACTS_PAGE as nat
    }
}

/// The path of the next page, from the cursor on.
pub open spec fn page_path(have: nat, max_facts: nat, cursor: Option<Seq<char>>) -> Seq<char> {
    let first = seq![crate::request::pair("limit"@, decimal(page_size(have, max_facts)))];
    "/facts?"@ + query_text(
        match cursor {
            Some(c) => first.push(crate::request::pair("cursor"@, c)),
            None => first,
        },
    )
}

/// The cursor of the page after this one.
pub open spec fn next_cursor(body: JsonV) -> Option<Seq<char>> {
    match body.get("page"@) {
        Some(p) => p.text_at("nextCursor"@),
        None => None,
    }
}

impl FetchState {
    pub fn new() -> (r: FetchState)
        ensures
            r.facts@.len() == 0,
            r.cursor is None,
            !r.done,
    {
        FetchState { facts: Vec::new(), cursor: None, done: false }
    }

    /// The path of the next request, or nothing where all that is wanted is there.
    pub fn next_request(&self, max_facts: usize) -> (r: Option<String>)
        ensures
            opt_view(r) == (if self.done || self.facts@.len() >= max_facts {
                None
            } else {
                Some(
                    page_path(
                        self.facts@.len(),
                        max_facts as nat,
                        opt_view(self.cursor),
                    ),
                )
            }),
    {
        let have = self.facts.len();
        if self.done || have >= max_facts {
            return None;
        }
        let left = max_facts - have;
        let limit: usize = if left < MAX_FACTS_PAGE {
            left
        } else {
            MAX_FACTS_PAGE
        };
        let mut query: Vec<QueryPair> = Vec::new();
        query.push(QueryPair { key: "limit".to_owned(), value: digits_of_usize(limit) });
        assert(crate::request::pair_views(query@) =~= seq![
            crate::request::pair("limit"@, decimal(limit as nat)),
        ]);
        match &self.cursor {
            Some(c) => {
                let ghost before = crate::request::pair_views(query@);
                query.push(QueryPair { key: "cursor".to_owned(), value: c.clone() });
                assert(crate::request::pair_views(query@) =~= before.push(
                    crate::request::pair("cursor"@, c@),
                ));
            },
            None => {},
        }
        Some(cat2("/facts?", query_string(&query).as_str()))
    }

    /// Takes in a page: its facts come behind those before it, and it is the last
    /// where it names no next one.
    pub fn accept_page(&mut self, body: &Json)
        ensures
            items_view(final(self).facts@) == items_view(old(self).facts@)
                + crate::request::page_items(body@, "facts"@),
            opt_view(final(self).cursor) == next_cursor(body@),
            final(self).done == (next_cursor(body@) is None),
    {
        let mut page = crate::request::page_values(body, "facts");
        let ghost before = items_view(self.facts@);
        let ghost more = items_view(page@);
        self.facts.append(&mut page);
        assert(items_view(self.facts@) =~= before + more);
        self.cursor = match body.get("page") {
            Some(p) => p.text_at("nextCursor"),
            None => None,
        };
        self.done = self.cursor.is_none();
    }
}

/// What a construct with the facts `all` answers to the request of a fetch.
pub open spec fn construct_reply(
    all: Seq<JsonV>,
    have: nat,
    max_facts: nat,
    offset: nat,
) -> JsonV {
    let limit = page_limit(Some(page_size(have, max_facts) as usize), DEFAULT_FACT_LIMIT) as nat;
    facts_reply(page_of(all, offset, limit), page_info(all.len(), offset, limit))
}

/// The facts of a fetch after up to `requests` further requests.
pub open spec fn fetched(
    all: Seq<JsonV>,
    max_facts: nat,
    facts: Seq<JsonV>,
    cursor: Option<Seq<char>>,
    done: bool,
    requests: nat,
) -> Seq<JsonV>
    decreases requests,
{
    if requests == 0 || done || facts.len() >= max_facts || start_offset(cursor) is None {
        facts
    } else {
        let reply = construct_reply(all, facts.len(), max_facts, start_offset(cursor)->Some_0);
        fetched(
            all,
            max_facts,
            facts + crate::request::page_items(reply, "facts"@),
            next_cursor(reply),
            next_cursor(reply) is None,
            (requests - 1) as nat,
        )
    }
}

/// What a reply says is read from it as it was put in.
proof fn lemma_reply_reads_back(facts: Seq<JsonV>, page: PageV)
    ensures
        crate::request::page_items(facts_reply(facts, page), "facts"@) == facts,
        next_cursor(facts_reply(facts, page)) == page.next_cursor,
{
    let list = JsonV::empty_object().with("facts"@, JsonV::Array(facts));
    lemma_with(JsonV::empty_object(), "facts"@, JsonV::Array(facts));
    lemma_with(list, "page"@, page_json(page));
    let one = JsonV::empty_object().with("limit"@, JsonV::number(page.limit));
    let two = one.with("maxLimit"@, JsonV::number(page.max_limit));
    let three = two.with("total"@, JsonV::number(page.total));
    lemma_with(three, "nextCursor"@, JsonV::opt_text(page.next_cursor));
    reveal_strlit("facts");
    reveal_strlit("page");
    assert("facts"@.len() != "page"@.len());
}

proof fn lemma_fetch_continues(
    all: Seq<JsonV>,
    max_facts: nat,
    have: nat,
    cursor: Option<Seq<char>>,
    requests: nat,
)
    requires
        all.len() <= usize::MAX,
        max_facts <= usize::MAX,
        have <= all.len(),
        have <= max_facts,
        requests > max_facts - have,
        start_offset(cursor) == Some(have),
    ensures
        fetched(all, max_facts, all.take(have as int), cursor, false, requests) == if all.len()
            < max_facts {
            all
        } else {
            all.take(max_facts as int)
        },
    decreases requests,
{
    let facts = all.take(have as int);
    if have < max_facts {
        let limit = page_size(have, max_facts);
        let reply = construct_reply(all, have, max_facts, have);
        lemma_reply_reads_back(page_of(all, have, limit), page_info(all.len(), have, limit));
        if have < all.len() && all.len() - have > limit {
            let next = have + limit;
            assert(facts + page_of(all, have, limit) =~= all.take(next as int));
            law_cursor_reads_back(next as usize);
            lemma_fetch_continues(all, max_facts, next, next_cursor(reply), (requests - 1) as nat);
        } else {
            assert(facts + page_of(all, have, limit) =~= all);
            assert(all.take(all.len() as int) =~= all);
            assert(fetched(all, max_facts, all, None, true, (requests - 1) as nat) == all);
        }
    }
}

/// A fetch gets the facts of a construct in their order, as many as are wanted or as
/// there are, each of them once.
pub proof fn law_fetch_gets_first_facts(all: Seq<JsonV>, max_facts: nat, requests: nat)
    requires
        all.len() <= usize::MAX,
        max_facts <= usize::MAX,
        requests > max_facts,
    ensures
        fetched(all, max_facts, Seq::empty(), None, false, requests) == if all.len() < max_facts {
            all
        } else {
            all.take(max_facts as int)
        },
{
    assert(all.take(0) =~= Seq::<JsonV>::empty());
    lemma_fetch_continues(all, max_facts, 0, None, requests);
}

// ---------------------------------------------------------------------------
// Paths
// ---------------------------------------------------------------------------
/// The directory of the fact caches under the cache root.
pub fn fact_cache_dir(cache_root: &str) -> (r: String)
    ensures
        r@ == path_in(cache_root@, "facts"@),
{
    join_path(cache_root, "facts")
}

/// The name of a cache: its profile and sixteen hexadecimal digits of its hash.
pub open spec fn cache_name(profile: Option<ConfigProfile>, hash: u64) -> Seq<char> {
    (match profile {
        Some(p) => "profile-"@ + p.name(),
        None => "custom"@,
    }) + "-"@ + hex(hash as int, 16)
}

pub fn fact_cache_name(profile: Option<ConfigProfile>, hash: u64) -> (r: String)
    ensures
        r@ == cache_name(profile, hash),
{
    let prefix = match profile {
        Some(p) => cat2("profile-", p.as_str()),
        None => "custom".to_owned(),
    };
    cat3(prefix.as_str(), "-", hex_digits(hash, 16).as_str())
}

/// Whether a hash is one that a `DefaultHasher` gives of a profile's name, a construct and
/// a prefix. Which hash that is may differ between versions of the standard library and
/// between machines.
pub uninterp spec fn hashes_origin(
    profile: Option<Seq<char>>,
    construct: Option<Seq<char>>,
    api_prefix: Seq<char>,
    hash: u64,
) -> bool;

/// `BuildHasher::hash_one` of the profile's name, the construct and the prefix, in this
/// order, by a `DefaultHasher`: the result is a hash of these three values. Which one it
/// is is left unsaid, since the algorithm is not specified and may change.
#[verifier::external_body]
fn origin_hash(profile: Option<&str>, construct: &Option<String>, api_prefix: &str) -> (r: u64)
    ensures
        hashes_origin(
            match profile {
                Some(p) => Some(p@),
                None => None,
            },
            opt_view(*construct),
            api_prefix@,
            r,
        ),
{
    BuildHasherDefault::<DefaultHasher>::default().hash_one((profile, construct, api_prefix))
}

/// The name of the cache of a construct: its profile, and a hash of the profile, the
/// construct and the prefix.
pub fn fact_cache_key(matrix: &Matrix) -> (r: String)
    ensures
        exists|hash: u64|
            hashes_origin(
                profile_name(matrix.profile),
                opt_view(matrix.construct),
                matrix.api_prefix@,
                hash,
            ) && r@ == #[trigger] cache_name(matrix.profile, hash),
{
    let profile: Option<&str> = match matrix.profile {
        Some(p) => Some(p.as_str()),
        None => None,
    };
    let hash = origin_hash(profile, &matrix.construct, matrix.api_prefix.as_str());
    fact_cache_name(matrix.profile, hash)
}

} // verus!
