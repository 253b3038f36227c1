//! Updating the program: which version is newer, how it was installed, what to run and
//! what to tell.
use vstd::prelude::*;
use crate::config::OutputFormat;
use crate::json::{Json, JsonV};
use crate::render::{error_detail, error_text};
use crate::text::{
    all_digits, cat2, cat3, cat4, cat5, cat6, cat7, char_count, copy_opt, cut_once, decimal,
    digit, digits_of_u128, end_before, has_prefix, index_of, index_past, is_digit, join_path,
    lemma_end_before, lemma_index_of, lemma_index_past, lemma_parse_decimal, lines, lines_of,
    opt_view, parse_unsigned, path_in, pieces, same, split, split_from, split_once, starts_with,
    to_u64, trim, trim_class, trim_start, trimmed, trimmed_start, views, words, words_of, CharClass,
};

verus! {

/// The repository of the program.
pub const MATRIX_REPOSITORY: &'static str = "adrianmross/matrix";

/// The Homebrew formula of the program.
pub const MATRIX_HOMEBREW_FORMULA: &'static str = "adrianmross/tap/matrix";

/// The platform that release archives are built for.
pub const MATRIX_LINUX_TARGET: &'static str = "x86_64-unknown-linux-gnu";

/// For how many seconds a looked up version is not looked up again.
pub const UPDATE_CHECK_TTL: u64 = 86400;

// ---------------------------------------------------------------------------
// Versions
// ---------------------------------------------------------------------------
/// A version without space around it and without the `v` of a tag.
pub open spec fn plain_version(version: Seq<char>) -> Seq<char> {
    trim_start(trim_start(trim(version), CharClass::Is('v')), CharClass::Is('V'))
}

pub fn normalize_version(version: &str) -> (r: String)
    ensures
        r@ == plain_version(version@),
{
    let t = trimmed(version);
    let u = trimmed_start(t.as_str(), CharClass::Is('v'));
    trimmed_start(u.as_str(), CharClass::Is('V'))
}

/// The numbers of the pieces from an index on, up to the first that is not digits.
pub open spec fn numbers_from(parts: Seq<Seq<char>>, i: int) -> Seq<u64>
    decreases parts.len() - i,
{
    if i < 0 || i >= parts.len() || !all_digits(parts[i]) {
        Seq::empty()
    } else {
        match parse_unsigned(parts[i], u64::MAX as int) {
            Some(n) => seq![n as u64] + numbers_from(parts, i + 1),
            None => numbers_from(parts, i + 1),
        }
    }
}

/// The numbers of a version.
pub open spec fn numbers_of(version: Seq<char>) -> Seq<u64> {
    numbers_from(split(plain_version(version), CharClass::VersionMark), 0)
}

fn only_digits(s: &str) -> (r: bool)
    ensures
        r == all_digits(s@),
{
    let v = crate::text::chars_of(s);
    let mut i: usize = 0;
    while i < v.len()
        invariant
            i <= v@.len(),
            v@ == s@,
            forall|j: int| 0 <= j < i ==> is_digit(#[trigger] s@[j]),
        decreases v@.len() - i,
    {
        if !digit(v[i]) {
            assert(!is_digit(s@[i as int]));
            return false;
        }
        i += 1;
    }
    true
}

pub fn version_parts(version: &str) -> (r: Vec<u64>)
    ensures
        r@ == numbers_of(version@),
{
    let plain = normalize_version(version);
    let parts = pieces(plain.as_str(), CharClass::VersionMark);
    let ghost all = views(parts@);
    let mut out: Vec<u64> = Vec::new();
    let mut i: usize = 0;
    while i < parts.len()
        invariant
            i <= parts@.len(),
            all == views(parts@),
            all == split(plain_version(version@), CharClass::VersionMark),
            numbers_from(all, 0) == out@ + numbers_from(all, i as int),
        decreases parts@.len() - i,
    {
        assert(all[i as int] == parts@[i as int]@);
        if !only_digits(parts[i].as_str()) {
            assert(numbers_from(all, i as int) == Seq::<u64>::empty());
            assert(out@ + Seq::<u64>::empty() =~= out@);
            return out;
        }
        let ghost before = out@;
        match to_u64(parts[i].as_str()) {
            Some(n) => {
                out.push(n);
                assert(before + (seq![n] + numbers_from(all, i as int + 1)) =~= out@
                    + numbers_from(all, i as int + 1));
            },
            None => {},
        }
        i += 1;
    }
    assert(out@ + Seq::<u64>::empty() =~= out@);
    out
}

/// A number of a version; those that it does not write are zero.
pub open spec fn part(parts: Seq<u64>, i: int) -> u64 {
    if 0 <= i < parts.len() {
        parts[i]
    } else {
        0
    }
}

/// Whether two versions agree up to a place and the second is greater there.
pub open spec fn newer_at(current: Seq<u64>, latest: Seq<u64>, i: int) -> bool {
    &&& 0 <= i
    &&& part(latest, i) > part(current, i)
    &&& forall|j: int| 0 <= j < i ==> #[trigger] part(latest, j) == part(current, j)
}

/// Whether the second version is newer.
pub open spec fn newer(current: Seq<u64>, latest: Seq<u64>) -> bool {
    exists|i: int| newer_at(current, latest, i)
}

pub fn version_is_newer(current: &str, latest: &str) -> (r: bool)
    ensures
        r == newer(numbers_of(current@), numbers_of(latest@)),
{
    let c = version_parts(current);
    let l = version_parts(latest);
    let n = if c.len() < l.len() {
        l.len()
    } else {
        c.len()
    };
    let mut i: usize = 0;
    while i < n
        invariant
            i <= n,
            n == (if c@.len() < l@.len() {
                l@.len()
            } else {
                c@.len()
            }),
            c@ == numbers_of(current@),
            l@ == numbers_of(latest@),
            forall|j: int| 0 <= j < i ==> #[trigger] part(l@, j) == part(c@, j),
        decreases n - i,
    {
        let a: u64 = if i < c.len() {
            c[i]
        } else {
            0
        };
        let b: u64 = if i < l.len() {
            l[i]
        } else {
            0
        };
        assert(a == part(c@, i as int) && b == part(l@, i as int));
        if b > a {
            assert(newer_at(c@, l@, i as int));
            return true;
        }
        if b < a {
            assert forall|k: int| !newer_at(c@, l@, k) by {
                if newer_at(c@, l@, k) {
                    if k > i {
                        assert(part(l@, i as int) == part(c@, i as int));
                    } else if k < i {
                        assert(part(l@, k) == part(c@, k));
                    }
                }
            }
            return false;
        }
        i += 1;
    }
    assert forall|k: int| !newer_at(c@, l@, k) by {
        if 0 <= k < n {
            assert(part(l@, k) == part(c@, k));
        }
    }
    false
}

/// No version is newer than itself, and of two versions at most one is newer than the
/// other.
pub proof fn law_newer_is_strict(a: Seq<char>, b: Seq<char>)
    ensures
        !newer(numbers_of(a), numbers_of(a)),
        !(newer(numbers_of(a), numbers_of(b)) && newer(numbers_of(b), numbers_of(a))),
{
    let x = numbers_of(a);
    let y = numbers_of(b);
    if newer(x, y) && newer(y, x) {
        let i = choose|i: int| newer_at(x, y, i);
        let j = choose|j: int| newer_at(y, x, j);
        if i < j {
            assert(part(x, i) == part(y, i));
        } else if j < i {
            assert(part(y, j) == part(x, j));
        }
    }
}

/// What is newer than a newer version is newer.
pub proof fn law_newer_is_transitive(a: Seq<char>, b: Seq<char>, c: Seq<char>)
    requires
        newer(numbers_of(a), numbers_of(b)),
        newer(numbers_of(b), numbers_of(c)),
    ensures
        newer(numbers_of(a), numbers_of(c)),
{
    let x = numbers_of(a);
    let y = numbers_of(b);
    let z = numbers_of(c);
    let i = choose|i: int| newer_at(x, y, i);
    let j = choose|j: int| newer_at(y, z, j);
    let k = if i < j {
        i
    } else {
        j
    };
    assert forall|m: int| 0 <= m < k implies #[trigger] part(z, m) == part(x, m) by {
        assert(part(y, m) == part(x, m));
        assert(part(z, m) == part(y, m));
    }
    if i < j {
        assert(part(z, i) == part(y, i));
    } else if j < i {
        assert(part(y, j) == part(x, j));
    }
    assert(newer_at(x, z, k));
}

/// Of two versions with different numbers, zeros at the end aside, one is newer.
pub proof fn law_newer_is_total(a: Seq<char>, b: Seq<char>, i: int)
    requires
        0 <= i,
        part(numbers_of(a), i) != part(numbers_of(b), i),
    ensures
        newer(numbers_of(a), numbers_of(b)) || newer(numbers_of(b), numbers_of(a)),
    decreases i,
{
    let x = numbers_of(a);
    let y = numbers_of(b);
    if exists|j: int| 0 <= j < i && part(x, j) != part(y, j) {
        let j = choose|j: int| 0 <= j < i && part(x, j) != part(y, j);
        law_newer_is_total(a, b, j);
    } else {
        if part(y, i) > part(x, i) {
            assert(newer_at(x, y, i));
        } else {
            assert(newer_at(y, x, i));
        }
    }
}

proof fn lemma_end_before_pushed(c: char, s: Seq<char>, k: CharClass)
    requires
        !k.holds(c),
    ensures
        end_before(seq![c] + s, k) == end_before(s, k) + 1,
    decreases s.len(),
{
    let t = seq![c] + s;
    if s.len() == 0 {
        assert(t.last() == c);
    } else {
        assert(t.last() == s.last());
        assert(t.drop_last() =~= seq![c] + s.drop_last());
        lemma_end_before_pushed(c, s.drop_last(), k);
    }
}

proof fn lemma_index_past_pushed(c: char, s: Seq<char>, k: CharClass, from: int)
    requires
        0 <= from <= s.len(),
    ensures
        index_past(seq![c] + s, k, from + 1) == index_past(s, k, from) + 1,
    decreases s.len() - from,
{
    let t = seq![c] + s;
    if from < s.len() {
        assert(t[from + 1] == s[from]);
        lemma_index_past_pushed(c, s, k, from + 1);
    }
}

/// The `v` of a tag does not matter: a version and its tag have the same numbers.
pub proof fn law_tag_prefix_is_ignored(version: Seq<char>)
    requires
        trim(version) == version,
    ensures
        numbers_of("v"@ + version) == numbers_of(version),
{
    reveal_strlit("v");
    let white = CharClass::White;
    let v = CharClass::Is('v');
    assert("v"@ =~= seq!['v']);
    let tagged = seq!['v'] + version;
    assert(tagged[0] == 'v');
    assert(!white.holds('v'));
    assert(index_past(tagged, white, 0) == 0);
    assert(tagged.skip(0) =~= tagged);
    lemma_end_before_pushed('v', version, white);
    // Nothing is trimmed from the version, so nothing from its end.
    lemma_index_past(version, white, 0);
    let front = trim_start(version, white);
    lemma_end_before(front, white);
    assert(trim(version).len() == version.len());
    assert(front =~= version);
    assert(end_before(version, white) == version.len());
    assert(trim(tagged) =~= tagged);
    assert(v.holds(tagged[0]));
    assert(index_past(tagged, v, 0) == index_past(tagged, v, 1));
    lemma_index_past_pushed('v', version, v, 0);
    lemma_index_past(version, v, 0);
    assert(trim_start(tagged, v) =~= trim_start(version, v));
}

proof fn lemma_nothing_trimmed(s: Seq<char>, k: CharClass)
    requires
        forall|i: int| 0 <= i < s.len() ==> !k.holds(#[trigger] s[i]),
    ensures
        trim_start(s, k) == s,
        trim_class(s, k) == s,
{
    if s.len() > 0 {
        assert(!k.holds(s[0]));
        assert(!k.holds(s[s.len() - 1]));
    }
    assert(s.skip(0) =~= s);
    assert(s.take(s.len() as int) =~= s);
}

/// Nor does a capital `V` matter: before a version that has no tag's `v` itself, it
/// leaves the numbers as they are.
pub proof fn law_capital_prefix_is_ignored(version: Seq<char>)
    requires
        trim(version) == version,
        version.len() > 0 ==> version[0] != 'v',
    ensures
        numbers_of("V"@ + version) == numbers_of(version),
{
    reveal_strlit("V");
    let white = CharClass::White;
    let v = CharClass::Is('v');
    let capital = CharClass::Is('V');
    assert("V"@ =~= seq!['V']);
    let tagged = seq!['V'] + version;
    assert(tagged[0] == 'V');
    assert(!white.holds('V'));
    assert(index_past(tagged, white, 0) == 0);
    assert(tagged.skip(0) =~= tagged);
    lemma_end_before_pushed('V', version, white);
    lemma_index_past(version, white, 0);
    let front = trim_start(version, white);
    lemma_end_before(front, white);
    assert(trim(version).len() == version.len());
    assert(front =~= version);
    assert(end_before(version, white) == version.len());
    assert(trim(tagged) =~= tagged);
    assert(!v.holds(tagged[0]));
    assert(trim_start(tagged, v) =~= tagged);
    assert(version.len() > 0 ==> !v.holds(version[0]));
    assert(trim_start(version, v) =~= version);
    assert(capital.holds(tagged[0]));
    assert(index_past(tagged, capital, 0) == index_past(tagged, capital, 1));
    lemma_index_past_pushed('V', version, capital, 0);
    lemma_index_past(version, capital, 0);
    assert(trim_start(tagged, capital) =~= trim_start(version, capital));
}

/// Whether a version is written in digits and points alone.
pub open spec fn dotted(version: Seq<char>) -> bool {
    forall|i: int|
        0 <= i < version.len() ==> is_digit(#[trigger] version[i]) || version[i] == '.'
}

proof fn lemma_index_of_longer(s: Seq<char>, t: Seq<char>, k: CharClass, from: int)
    requires
        0 <= from <= s.len(),
        t.len() > 0,
        k.holds(t[0]),
    ensures
        index_of(s + t, k, from) == index_of(s, k, from),
    decreases s.len() - from,
{
    let u = s + t;
    if from < s.len() {
        assert(u[from] == s[from]);
        lemma_index_of_longer(s, t, k, from + 1);
    } else {
        assert(u[from] == t[0]);
    }
}

proof fn lemma_split_zero(s: Seq<char>, from: int)
    requires
        0 <= from <= s.len(),
    ensures
        split_from(s + seq!['.', '0'], CharClass::VersionMark, from) == split_from(
            s,
            CharClass::VersionMark,
            from,
        ).push(seq!['0']),
    decreases s.len() - from,
{
    let k = CharClass::VersionMark;
    let zero = seq!['.', '0'];
    let t = s + zero;
    lemma_index_of_longer(s, zero, k, from);
    lemma_index_of(s, k, from);
    let i = index_of(s, k, from);
    if i < s.len() {
        lemma_split_zero(s, i + 1);
        assert(t.subrange(from, i) =~= s.subrange(from, i));
        assert((seq![s.subrange(from, i)] + split_from(s, k, i + 1)).push(seq!['0']) =~= seq![
            s.subrange(from, i),
        ] + split_from(s, k, i + 1).push(seq!['0']));
    } else {
        let n = s.len() as int;
        assert(t.subrange(from, n) =~= s.skip(from));
        assert(t[n + 1] == '0');
        assert(!k.holds('0'));
        assert(index_of(t, k, n + 1) == index_of(t, k, n + 2));
        assert(index_of(t, k, n + 2) == t.len());
        assert(t.skip(n + 1) =~= seq!['0']);
        assert(split_from(t, k, n + 1) =~= seq![seq!['0']]);
        assert(seq![s.skip(from)] + seq![seq!['0']] =~= seq![s.skip(from)].push(seq!['0']));
    }
}

proof fn lemma_dotted_pieces(s: Seq<char>, from: int)
    requires
        dotted(s),
        0 <= from <= s.len(),
    ensures
        forall|i: int|
            0 <= i < split_from(s, CharClass::VersionMark, from).len() ==> all_digits(
                #[trigger] split_from(s, CharClass::VersionMark, from)[i],
            ),
    decreases s.len() - from,
{
    let k = CharClass::VersionMark;
    lemma_index_of(s, k, from);
    let i = index_of(s, k, from);
    let first = s.subrange(from, i);
    assert forall|j: int| 0 <= j < first.len() implies is_digit(#[trigger] first[j]) by {
        assert(!k.holds(s[from + j]));
    }
    let all = split_from(s, k, from);
    if i < s.len() {
        lemma_dotted_pieces(s, i + 1);
        let rest = split_from(s, k, i + 1);
        assert forall|j: int| 0 <= j < all.len() implies all_digits(#[trigger] all[j]) by {
            if j == 0 {
                assert(all[j] == first);
            } else {
                assert(all[j] == rest[j - 1]);
            }
        }
    } else {
        assert(s.skip(from) =~= first);
    }
}

proof fn lemma_numbers_zero(parts: Seq<Seq<char>>, i: int)
    requires
        0 <= i <= parts.len(),
        forall|j: int| 0 <= j < parts.len() ==> all_digits(#[trigger] parts[j]),
    ensures
        numbers_from(parts.push(seq!['0']), i) == numbers_from(parts, i).push(0u64),
    decreases parts.len() - i,
{
    let longer = parts.push(seq!['0']);
    if i < parts.len() {
        lemma_numbers_zero(parts, i + 1);
        assert(longer[i] == parts[i]);
        match parse_unsigned(parts[i], u64::MAX as int) {
            Some(n) => {
                assert((seq![n as u64] + numbers_from(parts, i + 1)).push(0u64) =~= seq![n as u64]
                    + numbers_from(parts, i + 1).push(0u64));
            },
            None => {},
        }
    } else {
        assert(longer[i] == seq!['0']);
        lemma_parse_decimal(0, u64::MAX as int);
        assert(decimal(0) =~= seq!['0']);
        assert(numbers_from(longer, i + 1) == Seq::<u64>::empty());
        assert(numbers_from(longer, i) =~= seq![0u64]);
        assert(numbers_from(parts, i).push(0u64) =~= seq![0u64]);
    }
}

proof fn lemma_dotted_plain(version: Seq<char>)
    requires
        dotted(version),
    ensures
        plain_version(version) == version,
{
    lemma_nothing_trimmed(version, CharClass::White);
    lemma_nothing_trimmed(version, CharClass::Is('v'));
    lemma_nothing_trimmed(version, CharClass::Is('V'));
}

/// A zero at the end changes no comparison: a version of digits and points is as new with
/// one as without.
pub proof fn law_zero_at_end_is_ignored(version: Seq<char>, other: Seq<char>)
    requires
        dotted(version),
    ensures
        newer(numbers_of(version + ".0"@), numbers_of(other)) == newer(
            numbers_of(version),
            numbers_of(other),
        ),
        newer(numbers_of(other), numbers_of(version + ".0"@)) == newer(
            numbers_of(other),
            numbers_of(version),
        ),
{
    reveal_strlit(".0");
    assert(".0"@ =~= seq!['.', '0']);
    let longer = version + seq!['.', '0'];
    assert(dotted(longer));
    lemma_dotted_plain(version);
    lemma_dotted_plain(longer);
    lemma_split_zero(version, 0);
    lemma_dotted_pieces(version, 0);
    lemma_numbers_zero(split(version, CharClass::VersionMark), 0);
    let x = numbers_of(version);
    let y = numbers_of(longer);
    let z = numbers_of(other);
    assert(y == x.push(0u64));
    assert forall|i: int| #[trigger] part(y, i) == part(x, i) by {}
    assert forall|i: int| #[trigger] newer_at(y, z, i) == newer_at(x, z, i) by {
        assert(part(y, i) == part(x, i));
        assert forall|j: int| (part(z, j) == part(y, j)) == (#[trigger] part(z, j) == part(x, j)) by {
            assert(part(y, j) == part(x, j));
        }
    }
    assert forall|i: int| #[trigger] newer_at(z, y, i) == newer_at(z, x, i) by {
        assert(part(y, i) == part(x, i));
        if newer_at(z, y, i) {
            assert forall|j: int| 0 <= j < i implies #[trigger] part(x, j) == part(z, j) by {
                assert(part(y, j) == part(x, j));
            }
        }
    }
    if newer(x, z) {
        let i = choose|i: int| newer_at(x, z, i);
        assert(newer_at(y, z, i));
    }
    if newer(y, z) {
        let i = choose|i: int| newer_at(y, z, i);
        assert(newer_at(x, z, i));
    }
    if newer(z, x) {
        let i = choose|i: int| newer_at(z, x, i);
        assert(newer_at(z, y, i));
    }
    if newer(z, y) {
        let i = choose|i: int| newer_at(z, y, i);
        assert(newer_at(z, x, i));
    }
}

// ---------------------------------------------------------------------------
// Commands to run by hand
// ---------------------------------------------------------------------------
pub open spec fn cargo_command(latest: Seq<char>) -> Seq<char> {
    "cargo install --locked --git https://github.com/"@ + MATRIX_REPOSITORY@ + " --tag v"@ + latest
        + " matrix --force"@
}

/// How to install a version from its source.
pub fn cargo_install_update_command(latest: &str) -> (r: String)
    ensures
        r@ == cargo_command(latest@),
{
    cat5(
        "cargo install --locked --git https://github.com/",
        MATRIX_REPOSITORY,
        " --tag v",
        latest,
        " matrix --force",
    )
}

/// The name of a version's release package.
pub open spec fn package_text(latest: Seq<char>) -> Seq<char> {
    "matrix-"@ + latest + "-"@ + MATRIX_LINUX_TARGET@
}

pub fn package_name(latest: &str) -> (r: String)
    ensures
        r@ == package_text(latest@),
{
    cat4("matrix-", latest, "-", MATRIX_LINUX_TARGET)
}

/// The name of a version's release archive.
pub fn asset_name(latest: &str) -> (r: String)
    ensures
        r@ == package_text(latest@) + ".tar.gz"@,
{
    cat2(package_name(latest).as_str(), ".tar.gz")
}

/// Whether only the system's administrator writes to a place.
pub open spec fn system_path(path: Seq<char>) -> bool {
    starts_with(path, "/usr/"@) || starts_with(path, "/opt/"@)
}

/// Where the program is installed unless that is known.
pub open spec fn install_target(path: Option<Seq<char>>) -> Seq<char> {
    match path {
        Some(p) => p,
        None => "~/.cargo/bin/matrix"@,
    }
}

pub open spec fn linux_command(latest: Seq<char>, path: Option<Seq<char>>) -> Seq<char> {
    let target = install_target(path);
    let package = package_text(latest);
    "gh release download v"@ + latest + " --repo "@ + MATRIX_REPOSITORY@ + " --pattern '"@ + package
        + ".tar.gz' --dir /tmp/matrix-update && tar -xzf /tmp/matrix-update/"@ + package
        + ".tar.gz -C /tmp/matrix-update && "@ + (if system_path(target) {
        "sudo install"@
    } else {
        "install"@
    }) + " /tmp/matrix-update/"@ + package + "/matrix "@ + target
}

/// How to install a release by hand on Linux.
pub fn linux_manual_update_command(latest: &str, install_path: &Option<String>) -> (r: String)
    ensures
        r@ == linux_command(latest@, opt_view(*install_path)),
{
    let target = match install_path {
        Some(p) => p.clone(),
        None => "~/.cargo/bin/matrix".to_owned(),
    };
    let install = if has_prefix(target.as_str(), "/usr/") || has_prefix(target.as_str(), "/opt/") {
        "sudo install"
    } else {
        "install"
    };
    let package = package_name(latest);
    let mut out = "gh release download v".to_owned();
    out.push_str(latest);
    out.push_str(" --repo ");
    out.push_str(MATRIX_REPOSITORY);
    out.push_str(" --pattern '");
    out.push_str(package.as_str());
    out.push_str(".tar.gz' --dir /tmp/matrix-update && tar -xzf /tmp/matrix-update/");
    out.push_str(package.as_str());
    out.push_str(".tar.gz -C /tmp/matrix-update && ");
    out.push_str(install);
    out.push_str(" /tmp/matrix-update/");
    out.push_str(package.as_str());
    out.push_str("/matrix ");
    out.push_str(target.as_str());
    out
}

pub open spec fn unavailable_text(latest: Seq<char>, path: Option<Seq<char>>) -> Seq<char> {
    "this matrix install was not detected as Homebrew-managed. On macOS use `brew upgrade "@
        + MATRIX_HOMEBREW_FORMULA@ + "`. On Linux use `"@ + linux_command(latest, path)
        + "`. From source use `"@ + cargo_command(latest) + "`."@
}

/// What to do where the program cannot replace itself.
pub fn direct_update_unavailable_message(latest: &str, install_path: &Option<String>) -> (r: String)
    ensures
        r@ == unavailable_text(latest@, opt_view(*install_path)),
{
    cat7(
        "this matrix install was not detected as Homebrew-managed. On macOS use `brew upgrade ",
        MATRIX_HOMEBREW_FORMULA,
        "`. On Linux use `",
        linux_manual_update_command(latest, install_path).as_str(),
        "`. From source use `",
        cargo_install_update_command(latest).as_str(),
        "`.",
    )
}

pub open spec fn install_method(homebrew: bool, direct: bool) -> Seq<char> {
    if homebrew {
        "homebrew"@
    } else if direct {
        "direct-linux"@
    } else {
        "manual"@
    }
}

/// How the program is updated; `direct` says whether releases are built for this
/// platform.
pub fn update_install_method(homebrew_install: bool, direct: bool) -> (r: &'static str)
    ensures
        r@ == install_method(homebrew_install, direct),
{
    if homebrew_install {
        "homebrew"
    } else if direct {
        "direct-linux"
    } else {
        "manual"
    }
}

// ---------------------------------------------------------------------------
// Homebrew
// ---------------------------------------------------------------------------
/// Whether Homebrew installed the program: it has the formula, and the program lies
/// where it installs.
pub fn is_homebrew_install(has_formula: bool, program: &Option<String>) -> (r: bool)
    ensures
        r == (has_formula && match opt_view(*program) {
            Some(p) => starts_with(p, "/opt/homebrew/"@) || starts_with(p, "/usr/local/"@),
            None => false,
        }),
{
    if !has_formula {
        return false;
    }
    match program {
        Some(p) => has_prefix(p.as_str(), "/opt/homebrew/") || has_prefix(
            p.as_str(),
            "/usr/local/",
        ),
        None => false,
    }
}

/// The version that `brew list --versions` prints: the second word.
pub open spec fn listed_version(text: Seq<char>) -> Option<Seq<char>> {
    if words(text).len() > 1 {
        Some(words(text)[1])
    } else {
        None
    }
}

pub fn homebrew_installed_version(text: &str) -> (r: Option<String>)
    ensures
        opt_view(r) == listed_version(text@),
{
    let all = words_of(text);
    if all.len() > 1 {
        assert(views(all@)[1] == all@[1]@);
        Some(all[1].clone())
    } else {
        None
    }
}

/// The first word behind the mark between two versions.
pub open spec fn line_version(line: Seq<char>) -> Option<Seq<char>> {
    match split_once(line, " < "@) {
        Some((_, latest)) => if words(latest).len() > 0 {
            Some(words(latest)[0])
        } else {
            None
        },
        None => None,
    }
}

pub open spec fn first_line_version(all: Seq<Seq<char>>, i: int) -> Option<Seq<char>>
    decreases all.len() - i,
{
    if i < 0 || i >= all.len() {
        None
    } else {
        match line_version(all[i]) {
            Some(v) => Some(v),
            None => first_line_version(all, i + 1),
        }
    }
}

/// The version that `brew outdated --verbose` says is available.
pub fn homebrew_outdated_version(text: &str) -> (r: Option<String>)
    ensures
        opt_view(r) == first_line_version(lines(text@), 0),
{
    let all = lines_of(text);
    let ghost lv = views(all@);
    let mut i: usize = 0;
    while i < all.len()
        invariant
            i <= all@.len(),
            lv == views(all@),
            lv == lines(text@),
            first_line_version(lv, 0) == first_line_version(lv, i as int),
        decreases all@.len() - i,
    {
        assert(lv[i as int] == all@[i as int]@);
        match cut_once(all[i].as_str(), " < ") {
            Some((_, latest)) => {
                let found = words_of(latest.as_str());
                if found.len() > 0 {
                    assert(views(found@)[0] == found@[0]@);
                    return Some(found[0].clone());
                }
            },
            None => {},
        }
        i += 1;
    }
    None
}

// ---------------------------------------------------------------------------
// Releases
// ---------------------------------------------------------------------------
/// Where the latest release is looked up.
pub fn latest_release_url() -> (r: String)
    ensures
        r@ == "https://api.github.com/repos/"@ + MATRIX_REPOSITORY@ + "/releases/latest"@,
{
    cat3("https://api.github.com/repos/", MATRIX_REPOSITORY, "/releases/latest")
}

/// The version of a release, from its tag.
pub open spec fn release_version(release: JsonV) -> Option<Seq<char>> {
    match release.text_at("tag_name"@) {
        Some(tag) => if plain_version(tag).len() > 0 {
            Some(plain_version(tag))
        } else {
            None
        },
        None => None,
    }
}

pub fn latest_matrix_version(release: &Json) -> (r: Result<String, String>)
    ensures
        match release_version(release@) {
            Some(v) => r matches Ok(s) && s@ == v,
            None => r matches Err(m) && m@ == "latest release response did not include tag_name"@,
        },
{
    match release.text_at("tag_name") {
        Some(tag) => {
            let v = normalize_version(tag.as_str());
            if char_count(v.as_str()) > 0 {
                return Ok(v);
            }
        },
        None => {},
    }
    Err("latest release response did not include tag_name".to_owned())
}

/// The address of the first asset with the name from an index on.
pub open spec fn asset_url(assets: Seq<JsonV>, name: Seq<char>, i: int) -> Option<Seq<char>>
    decreases assets.len() - i,
{
    if i < 0 || i >= assets.len() {
        None
    } else if assets[i].text_at("name"@) == Some(name) {
        assets[i].text_at("url"@)
    } else {
        asset_url(assets, name, i + 1)
    }
}

pub fn release_asset_api_url(release: &Json, asset_name: &str) -> (r: Option<String>)
    ensures
        opt_view(r) == asset_url(release@.items_at("assets"@), asset_name@, 0),
{
    let assets = release.items_at("assets");
    let ghost all = crate::json::items_view(assets@);
    let mut i: usize = 0;
    while i < assets.len()
        invariant
            i <= assets@.len(),
            all == crate::json::items_view(assets@),
            all == release@.items_at("assets"@),
            asset_url(all, asset_name@, 0) == asset_url(all, asset_name@, i as int),
        decreases assets@.len() - i,
    {
        assert(all[i as int] == assets@[i as int]@);
        match assets[i].text_at("name") {
            Some(name) => {
                if same(name.as_str(), asset_name) {
                    return assets[i].text_at("url");
                }
            },
            None => {},
        }
        i += 1;
    }
    None
}

pub fn missing_asset_message(latest: &str, asset: &str) -> (r: String)
    ensures
        r@ == "release v"@ + latest@ + " did not include expected Linux asset "@ + asset@,
{
    cat4("release v", latest, " did not include expected Linux asset ", asset)
}

pub open spec fn auth_hint() -> Seq<char> {
    "; public releases should not require auth, but MATRIX_GITHUB_TOKEN or GITHUB_TOKEN can be set for authenticated GitHub API access"@
}

/// Why the latest release could not be looked up.
pub fn release_lookup_error(status: u16, status_text: &str, has_token: bool, body: &Json) -> (r:
    String)
    ensures
        r@ == (if status == 404 && !has_token {
            "GitHub release lookup returned 404 for "@ + MATRIX_REPOSITORY@ + auth_hint()
        } else {
            "GitHub release lookup failed with "@ + status_text@ + ": "@ + error_text(body@, ""@)
        }),
{
    if status == 404 && !has_token {
        cat3(
            "GitHub release lookup returned 404 for ",
            MATRIX_REPOSITORY,
            "; public releases should not require auth, but MATRIX_GITHUB_TOKEN or GITHUB_TOKEN can be set for authenticated GitHub API access",
        )
    } else {
        cat4(
            "GitHub release lookup failed with ",
            status_text,
            ": ",
            error_detail(body, "").as_str(),
        )
    }
}

/// Why a release archive could not be downloaded.
pub fn asset_download_error(status: u16, status_text: &str, has_token: bool, body: &str) -> (r:
    String)
    ensures
        r@ == (if status == 404 && !has_token {
            "GitHub release asset download returned 404 for "@ + MATRIX_REPOSITORY@ + auth_hint()
        } else {
            "GitHub release asset download failed with "@ + status_text@ + ": "@ + body@
        }),
{
    if status == 404 && !has_token {
        cat3(
            "GitHub release asset download returned 404 for ",
            MATRIX_REPOSITORY,
            "; public releases should not require auth, but MATRIX_GITHUB_TOKEN or GITHUB_TOKEN can be set for authenticated GitHub API access",
        )
    } else {
        cat4("GitHub release asset download failed with ", status_text, ": ", body)
    }
}

pub open spec fn usable(o: Option<Seq<char>>) -> Option<Seq<char>> {
    match o {
        Some(s) => if trim(s).len() > 0 {
            Some(s)
        } else {
            None
        },
        None => None,
    }
}

/// The token for GitHub: of the program's own variable, else of the common one; blank
/// ones do not count.
pub fn github_token(own: &Option<String>, common: &Option<String>) -> (r: Option<String>)
    ensures
        opt_view(r) == (match usable(opt_view(*own)) {
            Some(t) => Some(t),
            None => usable(opt_view(*common)),
        }),
{
    match own {
        Some(t) => {
            let inner = trimmed(t.as_str());
            if char_count(inner.as_str()) > 0 {
                return Some(t.clone());
            }
        },
        None => {},
    }
    match common {
        Some(t) => {
            let inner = trimmed(t.as_str());
            if char_count(inner.as_str()) > 0 {
                return Some(t.clone());
            }
        },
        None => {},
    }
    None
}

// ---------------------------------------------------------------------------
// The update command
// ---------------------------------------------------------------------------
/// What the update command is asked to do.
#[derive(Debug)]
pub struct UpdateCommand {
    pub check: bool,
    pub force: bool,
    pub install_path: Option<String>,
}

/// What the update command does next.
#[derive(Debug)]
pub enum UpdateStep {
    /// Homebrew upgrades the program.
    Upgrade,
    /// The latest release is looked up.
    LookUp,
    /// The latest release is downloaded and installed.
    Install,
    /// The command is done and says so.
    Done(Json),
    Refuse(String),
}

pub enum UpdateStepV {
    Upgrade,
    LookUp,
    Install,
    Done(JsonV),
    Refuse(Seq<char>),
}

impl View for UpdateStep {
    type V = UpdateStepV;

    open spec fn view(&self) -> UpdateStepV {
        match self {
            UpdateStep::Upgrade => UpdateStepV::Upgrade,
            UpdateStep::LookUp => UpdateStepV::LookUp,
            UpdateStep::Install => UpdateStepV::Install,
            UpdateStep::Done(v) => UpdateStepV::Done(v@),
            UpdateStep::Refuse(m) => UpdateStepV::Refuse(m@),
        }
    }
}

/// What Homebrew knows of the program: the version it installed, and the one that it
/// could install.
#[derive(Debug)]
pub struct HomebrewState {
    pub installed: Option<String>,
    pub outdated: Option<String>,
}

pub open spec fn homebrew_report(built: Seq<char>, installed: Option<Seq<char>>, outdated: Option<
    Seq<char>,
>) -> JsonV {
    let current = match installed {
        Some(v) => v,
        None => built,
    };
    JsonV::empty_object().with("current"@, JsonV::Text(current)).with(
        "latest"@,
        JsonV::Text(
            match outdated {
                Some(v) => v,
                None => current,
            },
        ),
    ).with("updateAvailable"@, JsonV::Bool(outdated is Some)).with(
        "installMethod"@,
        JsonV::Text("homebrew"@),
    ).with("command"@, JsonV::Text("matrix update"@))
}

/// What the update command does first: where Homebrew installed the program, it knows
/// and does everything.
pub open spec fn first_step(homebrew: Option<HomebrewState>, check: bool, built: Seq<char>) -> UpdateStepV {
    match homebrew {
        Some(state) => if check {
            UpdateStepV::Done(
                homebrew_report(built, opt_view(state.installed), opt_view(state.outdated)),
            )
        } else {
            UpdateStepV::Upgrade
        },
        None => UpdateStepV::LookUp,
    }
}

pub fn update_start(homebrew: &Option<HomebrewState>, check: bool, built: &str) -> (r: UpdateStep)
    ensures
        r@ == first_step(*homebrew, check, built@),
{
    match homebrew {
        Some(state) => {
            if !check {
                return UpdateStep::Upgrade;
            }
            let current = match &state.installed {
                Some(v) => v.clone(),
                None => built.to_owned(),
            };
            let latest = match &state.outdated {
                Some(v) => v.clone(),
                None => current.clone(),
            };
            let available = state.outdated.is_some();
            UpdateStep::Done(
                Json::object().with("current", Json::text(current.as_str())).with(
                    "latest",
                    Json::text(latest.as_str()),
                ).with("updateAvailable", Json::Bool(available)).with(
                    "installMethod",
                    Json::text("homebrew"),
                ).with("command", Json::text("matrix update")),
            )
        },
        None => UpdateStep::LookUp,
    }
}

/// What is said once Homebrew upgraded the program.
pub fn homebrew_upgraded() -> (r: Json)
    ensures
        r@ == JsonV::Text(
            "Updated through Homebrew. Run `matrix --version` to confirm the installed version."@,
        ),
{
    Json::text("Updated through Homebrew. Run `matrix --version` to confirm the installed version.")
}

pub open spec fn path_or(given: Option<Seq<char>>, default: Option<Seq<char>>) -> Option<Seq<char>> {
    match given {
        Some(p) => Some(p),
        None => default,
    }
}

pub open spec fn release_report(
    built: Seq<char>,
    latest: Seq<char>,
    direct: bool,
    path: Option<Seq<char>>,
) -> JsonV {
    JsonV::empty_object().with("current"@, JsonV::Text(built)).with(
        "latest"@,
        JsonV::Text(latest),
    ).with(
        "updateAvailable"@,
        JsonV::Bool(newer(numbers_of(built), numbers_of(latest))),
    ).with("installMethod"@, JsonV::Text(install_method(false, direct))).with(
        "installPath"@,
        JsonV::opt_text(path),
    ).with("command"@, JsonV::Text("matrix update"@)).with(
        "manualCommand"@,
        JsonV::Text(linux_command(latest, path)),
    )
}

/// What the update command does once the latest version is known: it reports, or it
/// installs what is newer or forced, where releases are built for this platform.
pub open spec fn next_step(
    command: UpdateCommand,
    built: Seq<char>,
    latest: Seq<char>,
    direct: bool,
    program: Option<Seq<char>>,
) -> UpdateStepV {
    if command.check {
        UpdateStepV::Done(
            release_report(built, latest, direct, path_or(opt_view(command.install_path), program)),
        )
    } else if !direct {
        UpdateStepV::Refuse(unavailable_text(latest, program))
    } else if command.force || newer(numbers_of(built), numbers_of(latest)) {
        UpdateStepV::Install
    } else {
        UpdateStepV::Done(JsonV::Text("Already on latest version, "@ + built))
    }
}

pub fn update_next(
    command: &UpdateCommand,
    built: &str,
    latest: &str,
    direct: bool,
    program: &Option<String>,
) -> (r: UpdateStep)
    ensures
        r@ == next_step(*command, built@, latest@, direct, opt_view(*program)),
{
    let available = version_is_newer(built, latest);
    if !command.check {
        if !direct {
            return UpdateStep::Refuse(direct_update_unavailable_message(latest, program));
        }
        if !available && !command.force {
            return UpdateStep::Done(
                Json::text(cat2("Already on latest version, ", built).as_str()),
            );
        }
        return UpdateStep::Install;
    }
    let path = match &command.install_path {
        Some(p) => Some(p.clone()),
        None => copy_opt(program),
    };
    UpdateStep::Done(
        Json::object().with("current", Json::text(built)).with("latest", Json::text(latest)).with(
            "updateAvailable",
            Json::Bool(available),
        ).with("installMethod", Json::text(update_install_method(false, direct))).with(
            "installPath",
            Json::opt_text(&path),
        ).with("command", Json::text("matrix update")).with(
            "manualCommand",
            Json::text(linux_manual_update_command(latest, &path).as_str()),
        ),
    )
}

/// A version is installed only where it is newer or that is forced, and never by a
/// check.
pub proof fn law_installs_only_newer(
    command: UpdateCommand,
    built: Seq<char>,
    latest: Seq<char>,
    direct: bool,
    program: Option<Seq<char>>,
)
    ensures
        next_step(command, built, latest, direct, program) is Install ==> !command.check && direct
            && (command.force || newer(numbers_of(built), numbers_of(latest))),
        command.check ==> next_step(command, built, latest, direct, program) is Done,
{
}

/// What is said once a release was installed.
pub fn release_installed(built: &str, latest: &str) -> (r: Json)
    ensures
        r@ == JsonV::Text(
            "Updated matrix from "@ + built@ + " to "@ + latest@
                + ". Run `matrix --version` to confirm."@,
        ),
{
    Json::text(
        cat5(
            "Updated matrix from ",
            built,
            " to ",
            latest,
            ". Run `matrix --version` to confirm.",
        ).as_str(),
    )
}

/// The file that a new program is staged in beside the one that it replaces.
pub fn staged_name(binary: &str, process: u64, latest: &str) -> (r: String)
    ensures
        r@ == "."@ + binary@ + "-update-"@ + decimal(process as nat) + "-"@ + latest@,
{
    cat6(".", binary, "-update-", crate::text::digits_of(process).as_str(), "-", latest)
}

/// The directory that a release is unpacked in.
pub fn update_temp_name(latest: &str, process: u64, millis: u128) -> (r: String)
    ensures
        r@ == "matrix-update-"@ + latest@ + "-"@ + decimal(process as nat) + "-"@ + decimal(
            millis as nat,
        ),
{
    cat6(
        "matrix-update-",
        latest,
        "-",
        crate::text::digits_of(process).as_str(),
        "-",
        digits_of_u128(millis).as_str(),
    )
}

// ---------------------------------------------------------------------------
// The notice
// ---------------------------------------------------------------------------
/// Whether a command may be followed by a notice of a newer version: it is shown to a
/// person, is not the update itself, and notices are not switched off.
pub fn notice_wanted(output: OutputFormat, updating: bool, switched_off: bool, terminal: bool) -> (r:
    bool)
    ensures
        r == (output is Human && !updating && !switched_off && terminal),
{
    matches!(output, OutputFormat::Human) && !updating && !switched_off && terminal
}

pub open spec fn available_text(latest: Seq<char>) -> Seq<char> {
    "Update "@ + latest + " available, run `matrix update`\n"@
}

/// The notice of a newer version, empty where there is none: by what Homebrew says
/// where it installed the program, else by the latest release, if it could be looked
/// up.
pub open spec fn notice(homebrew: bool, outdated: Option<Seq<char>>, built: Seq<char>, latest: Option<
    Seq<char>,
>) -> Seq<char> {
    if homebrew {
        match outdated {
            Some(v) => available_text(v),
            None => Seq::empty(),
        }
    } else {
        match latest {
            Some(v) => if newer(numbers_of(built), numbers_of(v)) {
                available_text(v)
            } else {
                Seq::empty()
            },
            None => Seq::empty(),
        }
    }
}

pub fn update_notice(
    homebrew: bool,
    outdated: &Option<String>,
    built: &str,
    latest: &Option<String>,
) -> (r: String)
    ensures
        r@ == notice(homebrew, opt_view(*outdated), built@, opt_view(*latest)),
{
    if homebrew {
        match outdated {
            Some(v) => cat3("Update ", v.as_str(), " available, run `matrix update`\n"),
            None => String::new(),
        }
    } else {
        match latest {
            Some(v) => if version_is_newer(built, v.as_str()) {
                cat3("Update ", v.as_str(), " available, run `matrix update`\n")
            } else {
                String::new()
            },
            None => String::new(),
        }
    }
}

/// Whether a kept notice still counts.
pub fn notice_is_fresh(age_seconds: u64, age_nanos: u32) -> (r: bool)
    ensures
        r == (age_seconds < UPDATE_CHECK_TTL || (age_seconds == UPDATE_CHECK_TTL && age_nanos == 0)),
{
    age_seconds < UPDATE_CHECK_TTL || (age_seconds == UPDATE_CHECK_TTL && age_nanos == 0)
}

/// Where the last notice is kept.
pub fn update_notice_cache_path(cache_root: &str) -> (r: String)
    ensures
        r@ == path_in(cache_root@, "update_notice"@),
{
    join_path(cache_root, "update_notice")
}

} // verus!
