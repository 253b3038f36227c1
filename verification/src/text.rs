//! Text as sequences of characters: what the library's text operations mean, and
//! executable versions of them.
use vstd::prelude::*;
use vstd::utf8::encode_utf8;

verus! {

/// `String::push` appends one character.
pub assume_specification[ String::push ](s: &mut String, c: char)
    ensures
        final(s)@ == old(s)@.push(c),
;

/// `String::push_str` appends a string slice.
pub assume_specification[ String::push_str ](s: &mut String, t: &str)
    ensures
        final(s)@ == old(s)@ + t@,
;

// ---------------------------------------------------------------------------
// Views
// ---------------------------------------------------------------------------
/// What an optional string holds.
pub open spec fn opt_view(o: Option<String>) -> Option<Seq<char>> {
    match o {
        Some(s) => Some(s@),
        None => None,
    }
}

/// What a fallible text operation gives: its text, or the message of its error.
pub open spec fn result_view(r: Result<String, String>) -> Result<Seq<char>, Seq<char>> {
    match r {
        Ok(s) => Ok(s@),
        Err(e) => Err(e@),
    }
}

/// What a list of strings holds.
pub open spec fn views(v: Seq<String>) -> Seq<Seq<char>> {
    v.map_values(|s: String| s@)
}

// ---------------------------------------------------------------------------
// Characters
// ---------------------------------------------------------------------------
/// The characters with Unicode's White_Space property.
pub open spec fn is_white(c: char) -> bool {
    let n = c as u32;
    ||| 0x9 <= n <= 0xd
    ||| n == 0x20
    ||| n == 0x85
    ||| n == 0xa0
    ||| n == 0x1680
    ||| 0x2000 <= n <= 0x200a
    ||| n == 0x2028
    ||| n == 0x2029
    ||| n == 0x202f
    ||| n == 0x205f
    ||| n == 0x3000
}

pub fn white(c: char) -> (r: bool)
    ensures
        r == is_white(c),
{
    let n: u32 = c as u32;
    (0x9 <= n && n <= 0xd) || n == 0x20 || n == 0x85 || n == 0xa0 || n == 0x1680 || (0x2000 <= n
        && n <= 0x200a) || n == 0x2028 || n == 0x2029 || n == 0x202f || n == 0x205f || n == 0x3000
}

pub open spec fn is_digit(c: char) -> bool {
    '0' <= c <= '9'
}

pub open spec fn is_alpha(c: char) -> bool {
    'a' <= c <= 'z' || 'A' <= c <= 'Z'
}

pub open spec fn is_alnum(c: char) -> bool {
    is_alpha(c) || is_digit(c)
}

pub fn digit(c: char) -> (r: bool)
    ensures
        r == is_digit(c),
{
    '0' <= c && c <= '9'
}

pub fn alpha(c: char) -> (r: bool)
    ensures
        r == is_alpha(c),
{
    ('a' <= c && c <= 'z') || ('A' <= c && c <= 'Z')
}

pub fn alnum(c: char) -> (r: bool)
    ensures
        r == is_alnum(c),
{
    alpha(c) || digit(c)
}

/// The character with an ASCII upper-case letter made lower-case.
pub open spec fn lower_char(c: char) -> char {
    if 'A' <= c <= 'Z' {
        ((c as u8) + 32) as u8 as char
    } else {
        c
    }
}

/// The character with an ASCII lower-case letter made upper-case.
pub open spec fn upper_char(c: char) -> char {
    if 'a' <= c <= 'z' {
        ((c as u8) - 32) as u8 as char
    } else {
        c
    }
}

pub fn to_lower_char(c: char) -> (r: char)
    ensures
        r == lower_char(c),
{
    if 'A' <= c && c <= 'Z' {
        ((c as u8) + 32) as char
    } else {
        c
    }
}

pub fn to_upper_char(c: char) -> (r: char)
    ensures
        r == upper_char(c),
{
    if 'a' <= c && c <= 'z' {
        ((c as u8) - 32) as char
    } else {
        c
    }
}

/// Kinds of characters by which text is searched, split and trimmed.
#[derive(Clone, Copy)]
pub enum CharClass {
    /// White space.
    White,
    /// One character.
    Is(char),
    /// ASCII digits.
    Digit,
    /// What an SQL word is made of: letters, digits and the marks of versions,
    /// paths and package names.
    SqlWord,
    /// What continues a GraphQL name: letters, digits and underscores.
    NameChar,
    /// What continues a name in SQLite: letters, digits, underscores, dollar signs and
    /// whatever is not ASCII.
    SqliteName,
    /// `.` and `-`, which part the numbers of a version.
    VersionMark,
    /// `,`, `)` and `}`, which end a bare argument.
    ArgumentEnd,
    /// White space, `,`, `(` and `)`, which start a word to complete.
    WordBreak,
    /// White space, `,`, `(`, `)` and `;`, which part highlighted words.
    Delimiter,
}

impl CharClass {
    pub open spec fn holds(self, c: char) -> bool {
        match self {
            CharClass::White => is_white(c),
            CharClass::Is(d) => c == d,
            CharClass::Digit => is_digit(c),
            CharClass::SqlWord => is_alnum(c) || c == '_' || c == '-' || c == '@' || c == '.' || c
                == '/' || c == ':' || c == '#',
            CharClass::NameChar => c == '_' || is_alnum(c),
            CharClass::SqliteName => c == '_' || c == '$' || is_alnum(c) || c as u32 >= 0x80,
            CharClass::VersionMark => c == '.' || c == '-',
            CharClass::ArgumentEnd => c == ',' || c == ')' || c == '}',
            CharClass::WordBreak => is_white(c) || c == ',' || c == '(' || c == ')',
            CharClass::Delimiter => is_white(c) || c == ',' || c == '(' || c == ')' || c == ';',
        }
    }

    pub fn has(self, c: char) -> (r: bool)
        ensures
            r == self.holds(c),
    {
        match self {
            CharClass::White => white(c),
            CharClass::Is(d) => c == d,
            CharClass::Digit => digit(c),
            CharClass::SqlWord => alnum(c) || c == '_' || c == '-' || c == '@' || c == '.' || c
                == '/' || c == ':' || c == '#',
            CharClass::NameChar => c == '_' || alnum(c),
            CharClass::SqliteName => c == '_' || c == '$' || alnum(c) || c as u32 >= 0x80,
            CharClass::VersionMark => c == '.' || c == '-',
            CharClass::ArgumentEnd => c == ',' || c == ')' || c == '}',
            CharClass::WordBreak => white(c) || c == ',' || c == '(' || c == ')',
            CharClass::Delimiter => white(c) || c == ',' || c == '(' || c == ')' || c == ';',
        }
    }
}

// ---------------------------------------------------------------------------
// Between strings and characters
// ---------------------------------------------------------------------------
/// The characters of a string slice.
pub fn chars_of(s: &str) -> (r: Vec<char>)
    ensures
        r@ == s@,
{
    let mut out: Vec<char> = Vec::new();
    for c in it: s.chars()
        invariant
            it.seq() == s@,
            out@ == s@.take(it.index()),
    {
        out.push(c);
    }
    out
}

/// The string of the characters from `lo` up to `hi`.
pub fn string_of(v: &[char], lo: usize, hi: usize) -> (r: String)
    requires
        lo <= hi <= v@.len(),
    ensures
        r@ == v@.subrange(lo as int, hi as int),
{
    let mut out = String::new();
    let mut i: usize = lo;
    while i < hi
        invariant
            lo <= i <= hi <= v@.len(),
            out@ == v@.subrange(lo as int, i as int),
        decreases hi - i,
    {
        out.push(v[i]);
        i += 1;
    }
    out
}

/// The string of all the characters.
pub fn string_of_all(v: &[char]) -> (r: String)
    ensures
        r@ == v@,
{
    let r = string_of(v, 0, v.len());
    assert(v@.subrange(0, v@.len() as int) =~= v@);
    r
}

pub fn same(a: &str, b: &str) -> (r: bool)
    ensures
        r == (a@ == b@),
{
    a.to_owned() == b.to_owned()
}

/// The first value that is there.
pub open spec fn or<A>(a: Option<A>, b: Option<A>) -> Option<A> {
    match a {
        Some(x) => Some(x),
        None => b,
    }
}

pub fn or_text(a: Option<String>, b: Option<String>) -> (r: Option<String>)
    ensures
        opt_view(r) == or(opt_view(a), opt_view(b)),
{
    match a {
        Some(x) => Some(x),
        None => b,
    }
}

/// A copy of an optional string.
pub fn copy_opt(o: &Option<String>) -> (r: Option<String>)
    ensures
        opt_view(r) == opt_view(*o),
{
    match o {
        Some(s) => Some(s.clone()),
        None => None,
    }
}

/// A copy of a list of strings.
pub fn copy_list(v: &Vec<String>) -> (r: Vec<String>)
    ensures
        views(r@) == views(v@),
{
    let mut out: Vec<String> = Vec::new();
    let mut i: usize = 0;
    while i < v.len()
        invariant
            i <= v@.len(),
            views(out@) == views(v@).take(i as int),
        decreases v@.len() - i,
    {
        let ghost before = views(out@);
        out.push(v[i].clone());
        assert(views(out@) =~= before.push(v@[i as int]@));
        assert(before.push(v@[i as int]@) =~= views(v@).take(i as int + 1));
        i += 1;
    }
    assert(views(v@).take(i as int) =~= views(v@));
    out
}

pub fn cat2(a: &str, b: &str) -> (r: String)
    ensures
        r@ == a@ + b@,
{
    let mut out = a.to_owned();
    out.push_str(b);
    out
}

pub fn cat3(a: &str, b: &str, c: &str) -> (r: String)
    ensures
        r@ == a@ + b@ + c@,
{
    let mut out = cat2(a, b);
    out.push_str(c);
    out
}

pub fn cat4(a: &str, b: &str, c: &str, d: &str) -> (r: String)
    ensures
        r@ == a@ + b@ + c@ + d@,
{
    let mut out = cat3(a, b, c);
    out.push_str(d);
    out
}

pub fn cat5(a: &str, b: &str, c: &str, d: &str, e: &str) -> (r: String)
    ensures
        r@ == a@ + b@ + c@ + d@ + e@,
{
    let mut out = cat4(a, b, c, d);
    out.push_str(e);
    out
}

pub fn cat6(a: &str, b: &str, c: &str, d: &str, e: &str, f: &str) -> (r: String)
    ensures
        r@ == a@ + b@ + c@ + d@ + e@ + f@,
{
    let mut out = cat5(a, b, c, d, e);
    out.push_str(f);
    out
}

pub fn cat7(a: &str, b: &str, c: &str, d: &str, e: &str, f: &str, g: &str) -> (r: String)
    ensures
        r@ == a@ + b@ + c@ + d@ + e@ + f@ + g@,
{
    let mut out = cat6(a, b, c, d, e, f);
    out.push_str(g);
    out
}

// ---------------------------------------------------------------------------
// Debug text
// ---------------------------------------------------------------------------
/// What the `Debug` of `str` writes: the text in double quotes, escaped.
pub uninterp spec fn debug_text(s: Seq<char>) -> Seq<char>;

/// What the `Debug` of `char` writes: the character in single quotes, escaped.
pub uninterp spec fn debug_char(c: char) -> Seq<char>;

/// `<str as Debug>::fmt`: what it writes is a function of the text.
#[verifier::external_body]
pub(crate) fn debug_of(s: &str) -> (r: String)
    ensures
        r@ == debug_text(s@),
{
    format!("{s:?}")
}

/// `<char as Debug>::fmt`: what it writes is a function of the character.
#[verifier::external_body]
pub(crate) fn debug_of_char(c: char) -> (r: String)
    ensures
        r@ == debug_char(c),
{
    format!("{c:?}")
}

// ---------------------------------------------------------------------------
// Case
// ---------------------------------------------------------------------------
/// The text with its ASCII letters made lower-case.
pub open spec fn lower(s: Seq<char>) -> Seq<char> {
    s.map_values(|c: char| lower_char(c))
}

pub fn to_lower(s: &str) -> (r: String)
    ensures
        r@ == lower(s@),
{
    let v = chars_of(s);
    let mut out = String::new();
    let mut i: usize = 0;
    while i < v.len()
        invariant
            v@ == s@,
            i <= v@.len(),
            out@ == lower(s@).take(i as int),
        decreases v@.len() - i,
    {
        out.push(to_lower_char(v[i]));
        assert(out@ =~= lower(s@).take(i as int + 1));
        i += 1;
    }
    assert(lower(s@).take(i as int) =~= lower(s@));
    out
}

// ---------------------------------------------------------------------------
// Searching for a character
// ---------------------------------------------------------------------------
/// The first index at or after `from` whose character is of the class, or the
/// length of the text where there is none.
pub open spec fn index_of(s: Seq<char>, k: CharClass, from: int) -> int
    decreases s.len() - from,
{
    if from < 0 || from >= s.len() {
        s.len() as int
    } else if k.holds(s[from]) {
        from
    } else {
        index_of(s, k, from + 1)
    }
}

/// The first index at or after `from` whose character is not of the class, or the
/// length of the text where there is none.
pub open spec fn index_past(s: Seq<char>, k: CharClass, from: int) -> int
    decreases s.len() - from,
{
    if from < 0 || from >= s.len() {
        s.len() as int
    } else if !k.holds(s[from]) {
        from
    } else {
        index_past(s, k, from + 1)
    }
}

/// The length of the text without the characters of the class at its end.
pub open spec fn end_before(s: Seq<char>, k: CharClass) -> int
    decreases s.len(),
{
    if s.len() > 0 && k.holds(s.last()) {
        end_before(s.drop_last(), k)
    } else {
        s.len() as int
    }
}

/// The last index whose character is of the class, or -1 where there is none.
pub open spec fn last_index_of(s: Seq<char>, k: CharClass) -> int
    decreases s.len(),
{
    if s.len() == 0 {
        -1
    } else if k.holds(s.last()) {
        s.len() - 1
    } else {
        last_index_of(s.drop_last(), k)
    }
}

pub proof fn lemma_index_of(s: Seq<char>, k: CharClass, from: int)
    requires
        0 <= from <= s.len(),
    ensures
        from <= index_of(s, k, from) <= s.len(),
        forall|j: int| from <= j < index_of(s, k, from) ==> !k.holds(#[trigger] s[j]),
        index_of(s, k, from) < s.len() ==> k.holds(s[index_of(s, k, from)]),
    decreases s.len() - from,
{
    if from < s.len() && !k.holds(s[from]) {
        lemma_index_of(s, k, from + 1);
    }
}

pub proof fn lemma_index_past(s: Seq<char>, k: CharClass, from: int)
    requires
        0 <= from <= s.len(),
    ensures
        from <= index_past(s, k, from) <= s.len(),
        forall|j: int| from <= j < index_past(s, k, from) ==> k.holds(#[trigger] s[j]),
        index_past(s, k, from) < s.len() ==> !k.holds(s[index_past(s, k, from)]),
    decreases s.len() - from,
{
    if from < s.len() && k.holds(s[from]) {
        lemma_index_past(s, k, from + 1);
    }
}

pub proof fn lemma_end_before(s: Seq<char>, k: CharClass)
    ensures
        0 <= end_before(s, k) <= s.len(),
        forall|j: int| end_before(s, k) <= j < s.len() ==> k.holds(#[trigger] s[j]),
        end_before(s, k) > 0 ==> !k.holds(s[end_before(s, k) - 1]),
    decreases s.len(),
{
    if s.len() > 0 && k.holds(s.last()) {
        let t = s.drop_last();
        lemma_end_before(t, k);
        assert forall|j: int| end_before(s, k) <= j < s.len() implies k.holds(#[trigger] s[j]) by {
            if j < t.len() {
                assert(t[j] == s[j]);
            }
        }
    }
}

pub fn find_class(v: &[char], k: CharClass, from: usize) -> (r: usize)
    requires
        from <= v@.len(),
    ensures
        r == index_of(v@, k, from as int),
        from <= r <= v@.len(),
{
    let mut i: usize = from;
    while i < v.len()
        invariant
            from <= i <= v@.len(),
            index_of(v@, k, from as int) == index_of(v@, k, i as int),
        decreases v@.len() - i,
    {
        if k.has(v[i]) {
            return i;
        }
        i += 1;
    }
    i
}

pub fn skip_class(v: &[char], k: CharClass, from: usize) -> (r: usize)
    requires
        from <= v@.len(),
    ensures
        r == index_past(v@, k, from as int),
        from <= r <= v@.len(),
{
    let mut i: usize = from;
    while i < v.len()
        invariant
            from <= i <= v@.len(),
            index_past(v@, k, from as int) == index_past(v@, k, i as int),
        decreases v@.len() - i,
    {
        if !k.has(v[i]) {
            return i;
        }
        i += 1;
    }
    i
}

pub fn end_class(v: &[char], k: CharClass) -> (r: usize)
    ensures
        r == end_before(v@, k),
        r <= v@.len(),
{
    let mut i: usize = v.len();
    assert(v@.take(i as int) =~= v@);
    while i > 0
        invariant
            i <= v@.len(),
            end_before(v@, k) == end_before(v@.take(i as int), k),
        decreases i,
    {
        assert(v@.take(i as int).drop_last() =~= v@.take(i as int - 1));
        if !k.has(v[i - 1]) {
            return i;
        }
        i -= 1;
    }
    i
}

pub fn find_last_class(v: &[char], k: CharClass) -> (r: Option<usize>)
    ensures
        match r {
            Some(i) => i == last_index_of(v@, k) && i < v@.len(),
            None => last_index_of(v@, k) == -1,
        },
{
    let mut i: usize = v.len();
    assert(v@.take(i as int) =~= v@);
    while i > 0
        invariant
            i <= v@.len(),
            last_index_of(v@, k) == last_index_of(v@.take(i as int), k),
        decreases i,
    {
        assert(v@.take(i as int).drop_last() =~= v@.take(i as int - 1));
        if k.has(v[i - 1]) {
            return Some(i - 1);
        }
        i -= 1;
    }
    None
}

// ---------------------------------------------------------------------------
// Trimming
// ---------------------------------------------------------------------------
/// The text without the characters of the class at its start.
pub open spec fn trim_start(s: Seq<char>, k: CharClass) -> Seq<char> {
    s.skip(index_past(s, k, 0))
}

/// The text without the characters of the class at its end.
pub open spec fn trim_end(s: Seq<char>, k: CharClass) -> Seq<char> {
    s.take(end_before(s, k))
}

/// The text without the characters of the class at both its ends.
pub open spec fn trim_class(s: Seq<char>, k: CharClass) -> Seq<char> {
    trim_end(trim_start(s, k), k)
}

/// The text without white space at its ends.
pub open spec fn trim(s: Seq<char>) -> Seq<char> {
    trim_class(s, CharClass::White)
}

pub fn trimmed_start(s: &str, k: CharClass) -> (r: String)
    ensures
        r@ == trim_start(s@, k),
{
    let v = chars_of(s);
    let lo = skip_class(v.as_slice(), k, 0);
    string_of(v.as_slice(), lo, v.len())
}

pub fn trimmed_end(s: &str, k: CharClass) -> (r: String)
    ensures
        r@ == trim_end(s@, k),
{
    let v = chars_of(s);
    let hi = end_class(v.as_slice(), k);
    string_of(v.as_slice(), 0, hi)
}

pub fn trimmed_class(s: &str, k: CharClass) -> (r: String)
    ensures
        r@ == trim_class(s@, k),
{
    let t = trimmed_start(s, k);
    trimmed_end(t.as_str(), k)
}

pub fn trimmed(s: &str) -> (r: String)
    ensures
        r@ == trim(s@),
{
    trimmed_class(s, CharClass::White)
}

// ---------------------------------------------------------------------------
// Prefixes and suffixes
// ---------------------------------------------------------------------------
pub open spec fn starts_with(s: Seq<char>, p: Seq<char>) -> bool {
    p.len() <= s.len() && s.take(p.len() as int) == p
}

pub open spec fn ends_with(s: Seq<char>, p: Seq<char>) -> bool {
    p.len() <= s.len() && s.skip(s.len() - p.len()) == p
}

/// Whether `p` stands in `s` at index `i`.
pub open spec fn occurs_at(s: Seq<char>, p: Seq<char>, i: int) -> bool {
    0 <= i && i + p.len() <= s.len() && s.subrange(i, i + p.len()) == p
}

pub fn occurs(v: &[char], p: &[char], i: usize) -> (r: bool)
    ensures
        r == occurs_at(v@, p@, i as int),
{
    if i > v.len() || p.len() > v.len() - i {
        return false;
    }
    let n = v.len();
    let mut j: usize = 0;
    while j < p.len()
        invariant
            n == v@.len(),
            i + p@.len() <= n,
            j <= p@.len(),
            forall|k: int| 0 <= k < j ==> v@[i + k] == #[trigger] p@[k],
        decreases p@.len() - j,
    {
        if v[i + j] != p[j] {
            assert(v@.subrange(i as int, i + p@.len())[j as int] != p@[j as int]);
            return false;
        }
        j += 1;
    }
    assert(v@.subrange(i as int, i + p@.len()) =~= p@);
    true
}

pub fn has_prefix(s: &str, p: &str) -> (r: bool)
    ensures
        r == starts_with(s@, p@),
{
    let v = chars_of(s);
    let q = chars_of(p);
    let r = occurs(v.as_slice(), q.as_slice(), 0);
    assert(p@.len() <= s@.len() ==> s@.subrange(0, p@.len() as int) =~= s@.take(p@.len() as int));
    r
}

pub fn has_suffix(s: &str, p: &str) -> (r: bool)
    ensures
        r == ends_with(s@, p@),
{
    let v = chars_of(s);
    let q = chars_of(p);
    if q.len() > v.len() {
        return false;
    }
    let r = occurs(v.as_slice(), q.as_slice(), v.len() - q.len());
    assert(s@.subrange(s@.len() - p@.len(), s@.len() as int) =~= s@.skip(s@.len() - p@.len()));
    r
}

/// The text from character `n` on.
pub fn skip_chars(s: &str, n: usize) -> (r: String)
    requires
        n <= s@.len(),
    ensures
        r@ == s@.skip(n as int),
{
    let v = chars_of(s);
    string_of(v.as_slice(), n, v.len())
}

/// The number of characters.
pub fn char_count(s: &str) -> (r: usize)
    ensures
        r == s@.len(),
{
    chars_of(s).len()
}

/// The number of bytes in UTF-8.
pub fn byte_len(s: &str) -> (r: usize)
    ensures
        r == encode_utf8(s@).len(),
{
    s.as_bytes().len()
}

/// What follows the prefix, where the text has it.
pub open spec fn strip_prefix(s: Seq<char>, p: Seq<char>) -> Option<Seq<char>> {
    if starts_with(s, p) {
        Some(s.skip(p.len() as int))
    } else {
        None
    }
}

pub fn stripped_prefix(s: &str, p: &str) -> (r: Option<String>)
    ensures
        opt_view(r) == strip_prefix(s@, p@),
{
    if has_prefix(s, p) {
        Some(skip_chars(s, char_count(p)))
    } else {
        None
    }
}

/// The text without the prefix, as often as it repeats.
pub open spec fn trim_prefixes(s: Seq<char>, p: Seq<char>) -> Seq<char>
    decreases s.len(),
{
    if p.len() > 0 && starts_with(s, p) {
        trim_prefixes(s.skip(p.len() as int), p)
    } else {
        s
    }
}

/// The text without the suffix, as often as it repeats.
pub open spec fn trim_suffixes(s: Seq<char>, p: Seq<char>) -> Seq<char>
    decreases s.len(),
{
    if p.len() > 0 && ends_with(s, p) {
        trim_suffixes(s.take(s.len() - p.len()), p)
    } else {
        s
    }
}

pub fn trimmed_prefixes(s: &str, p: &str) -> (r: String)
    ensures
        r@ == trim_prefixes(s@, p@),
    decreases s@.len(),
{
    let n = char_count(p);
    if n > 0 && has_prefix(s, p) {
        let t = skip_chars(s, n);
        trimmed_prefixes(t.as_str(), p)
    } else {
        s.to_owned()
    }
}

pub fn trimmed_suffixes(s: &str, p: &str) -> (r: String)
    ensures
        r@ == trim_suffixes(s@, p@),
    decreases s@.len(),
{
    let n = char_count(p);
    if n > 0 && has_suffix(s, p) {
        let v = chars_of(s);
        let t = string_of(v.as_slice(), 0, v.len() - n);
        trimmed_suffixes(t.as_str(), p)
    } else {
        s.to_owned()
    }
}

// ---------------------------------------------------------------------------
// Searching for text
// ---------------------------------------------------------------------------
/// The first index at or after `from` at which `p` stands in `s`.
pub open spec fn find_from(s: Seq<char>, p: Seq<char>, from: int) -> Option<int>
    decreases s.len() + 1 - from,
{
    if from < 0 || from > s.len() {
        None
    } else if occurs_at(s, p, from) {
        Some(from)
    } else {
        find_from(s, p, from + 1)
    }
}

pub open spec fn find(s: Seq<char>, p: Seq<char>) -> Option<int> {
    find_from(s, p, 0)
}

/// Whether `p` stands anywhere in `s`.
pub open spec fn contains(s: Seq<char>, p: Seq<char>) -> bool {
    find(s, p) is Some
}

pub proof fn lemma_find_from(s: Seq<char>, p: Seq<char>, from: int)
    requires
        0 <= from,
    ensures
        match find_from(s, p, from) {
            Some(i) => from <= i && occurs_at(s, p, i) && (forall|j: int|
                from <= j < i ==> !occurs_at(s, p, j)),
            None => forall|j: int| from <= j ==> !occurs_at(s, p, j),
        },
    decreases s.len() + 1 - from,
{
    if from <= s.len() && !occurs_at(s, p, from) {
        lemma_find_from(s, p, from + 1);
    }
}

pub fn find_chars(v: &[char], p: &[char], from: usize) -> (r: Option<usize>)
    ensures
        match r {
            Some(i) => find_from(v@, p@, from as int) == Some(i as int) && from <= i && i
                + p@.len() <= v@.len(),
            None => find_from(v@, p@, from as int) is None,
        },
{
    if from > v.len() {
        return None;
    }
    let mut i: usize = from;
    loop
        invariant
            from <= i <= v@.len(),
            find_from(v@, p@, from as int) == find_from(v@, p@, i as int),
        decreases v@.len() - i,
    {
        if occurs(v, p, i) {
            return Some(i);
        }
        if i == v.len() {
            assert(find_from(v@, p@, i as int + 1) is None);
            return None;
        }
        i += 1;
    }
}

pub fn find_text(s: &str, p: &str) -> (r: Option<usize>)
    ensures
        match r {
            Some(i) => find(s@, p@) == Some(i as int) && i + p@.len() <= s@.len(),
            None => find(s@, p@) is None,
        },
{
    let v = chars_of(s);
    let q = chars_of(p);
    find_chars(v.as_slice(), q.as_slice(), 0)
}

pub fn has_text(s: &str, p: &str) -> (r: bool)
    ensures
        r == contains(s@, p@),
{
    find_text(s, p).is_some()
}

pub fn has_char(s: &str, c: char) -> (r: bool)
    ensures
        r == s@.contains(c),
{
    let v = chars_of(s);
    let mut i: usize = 0;
    while i < v.len()
        invariant
            v@ == s@,
            i <= v@.len(),
            forall|j: int| 0 <= j < i ==> v@[j] != c,
        decreases v@.len() - i,
    {
        if v[i] == c {
            assert(s@[i as int] == c);
            return true;
        }
        i += 1;
    }
    false
}

/// The text with each occurrence of a character replaced.
pub open spec fn replace_char(s: Seq<char>, c: char, by: Seq<char>) -> Seq<char>
    decreases s.len(),
{
    if s.len() == 0 {
        s
    } else if s.last() == c {
        replace_char(s.drop_last(), c, by) + by
    } else {
        replace_char(s.drop_last(), c, by).push(s.last())
    }
}

pub fn replaced_char(s: &str, c: char, by: &str) -> (r: String)
    ensures
        r@ == replace_char(s@, c, by@),
{
    let v = chars_of(s);
    let mut out = String::new();
    let mut i: usize = 0;
    while i < v.len()
        invariant
            v@ == s@,
            i <= v@.len(),
            out@ == replace_char(s@.take(i as int), c, by@),
        decreases v@.len() - i,
    {
        assert(s@.take(i as int + 1).drop_last() =~= s@.take(i as int));
        if v[i] == c {
            out.push_str(by);
        } else {
            out.push(v[i]);
        }
        i += 1;
    }
    assert(s@.take(i as int) =~= s@);
    out
}

/// The text from `from` on with each occurrence of `p`, taken from the left and
/// without overlap, replaced.
pub open spec fn replace_from(s: Seq<char>, p: Seq<char>, by: Seq<char>, from: int) -> Seq<char>
    decreases s.len() - from,
{
    if from < 0 || from >= s.len() {
        Seq::empty()
    } else if p.len() > 0 && occurs_at(s, p, from) {
        by + replace_from(s, p, by, from + p.len())
    } else {
        seq![s[from]] + replace_from(s, p, by, from + 1)
    }
}

pub open spec fn replace(s: Seq<char>, p: Seq<char>, by: Seq<char>) -> Seq<char> {
    replace_from(s, p, by, 0)
}

/// A text without what is replaced stays as it is.
pub proof fn lemma_replace_nothing(s: Seq<char>, p: Seq<char>, by: Seq<char>, from: int)
    requires
        0 <= from <= s.len(),
        forall|i: int| from <= i ==> !occurs_at(s, p, i),
    ensures
        replace_from(s, p, by, from) == s.skip(from),
    decreases s.len() - from,
{
    if from < s.len() {
        lemma_replace_nothing(s, p, by, from + 1);
        assert(seq![s[from]] + s.skip(from + 1) =~= s.skip(from));
    } else {
        assert(s.skip(from) =~= Seq::empty());
    }
}

pub fn replaced(s: &str, p: &str, by: &str) -> (r: String)
    requires
        p@.len() > 0,
    ensures
        r@ == replace(s@, p@, by@),
{
    let v = chars_of(s);
    let q = chars_of(p);
    let mut out = String::new();
    let mut i: usize = 0;
    while i < v.len()
        invariant
            v@ == s@,
            q@ == p@,
            p@.len() > 0,
            i <= v@.len(),
            replace(s@, p@, by@) == out@ + replace_from(s@, p@, by@, i as int),
        decreases v@.len() - i,
    {
        let ghost before = out@;
        if occurs(v.as_slice(), q.as_slice(), i) {
            out.push_str(by);
            assert(before + (by@ + replace_from(s@, p@, by@, i + p@.len())) =~= out@ + replace_from(
                s@,
                p@,
                by@,
                i + p@.len(),
            ));
            i += q.len();
        } else {
            out.push(v[i]);
            assert(before + (seq![s@[i as int]] + replace_from(s@, p@, by@, i + 1)) =~= out@
                + replace_from(s@, p@, by@, i + 1));
            i += 1;
        }
    }
    assert(out@ + Seq::<char>::empty() =~= out@);
    out
}

// ---------------------------------------------------------------------------
// Splitting and joining
// ---------------------------------------------------------------------------
/// The pieces of the text from `from` on between the characters of the class.
pub open spec fn split_from(s: Seq<char>, k: CharClass, from: int) -> Seq<Seq<char>>
    decreases s.len() - from,
{
    if from < 0 || from > s.len() {
        Seq::empty()
    } else {
        let i = index_of(s, k, from);
        if from <= i < s.len() {
            seq![s.subrange(from, i)] + split_from(s, k, i + 1)
        } else {
            seq![s.skip(from)]
        }
    }
}

/// The pieces of the text between the characters of the class.
pub open spec fn split(s: Seq<char>, k: CharClass) -> Seq<Seq<char>> {
    split_from(s, k, 0)
}

pub fn pieces(s: &str, k: CharClass) -> (r: Vec<String>)
    ensures
        views(r@) == split(s@, k),
{
    let v = chars_of(s);
    let mut out: Vec<String> = Vec::new();
    let mut from: usize = 0;
    loop
        invariant
            v@ == s@,
            from <= v@.len(),
            split(s@, k) == views(out@) + split_from(s@, k, from as int),
        decreases v@.len() - from,
    {
        let i = find_class(v.as_slice(), k, from);
        let ghost before = views(out@);
        out.push(string_of(v.as_slice(), from, i));
        assert(views(out@) =~= before.push(s@.subrange(from as int, i as int)));
        if i == v.len() {
            assert(s@.subrange(from as int, i as int) =~= s@.skip(from as int));
            assert(before + seq![s@.skip(from as int)] =~= views(out@));
            return out;
        }
        assert(before + (seq![s@.subrange(from as int, i as int)] + split_from(s@, k, i + 1))
            =~= views(out@) + split_from(s@, k, i + 1));
        from = i + 1;
    }
}

/// The pieces that hold something.
pub open spec fn non_empty(parts: Seq<Seq<char>>) -> Seq<Seq<char>> {
    parts.filter(|p: Seq<char>| p.len() > 0)
}

/// The words of the text: what stands between its white space.
pub open spec fn words(s: Seq<char>) -> Seq<Seq<char>> {
    non_empty(split(s, CharClass::White))
}

pub fn keep_non_empty(parts: Vec<String>) -> (r: Vec<String>)
    ensures
        views(r@) == non_empty(views(parts@)),
{
    let mut out: Vec<String> = Vec::new();
    let mut i: usize = 0;
    let ghost all = views(parts@);
    let ghost keep = |p: Seq<char>| p.len() > 0;
    assert(all.take(0).filter(keep) =~= Seq::empty()) by {
        reveal(Seq::filter);
    }
    while i < parts.len()
        invariant
            i <= parts@.len(),
            all == views(parts@),
            keep == (|p: Seq<char>| p.len() > 0),
            views(out@) == all.take(i as int).filter(keep),
        decreases parts@.len() - i,
    {
        proof {
            reveal(Seq::filter);
            assert(all.take(i as int + 1).drop_last() =~= all.take(i as int));
        }
        if !parts[i].as_str().is_empty() {
            let ghost before = views(out@);
            out.push(parts[i].clone());
            assert(views(out@) =~= before.push(parts@[i as int]@));
        }
        i += 1;
    }
    assert(all.take(i as int) =~= all);
    out
}

pub fn words_of(s: &str) -> (r: Vec<String>)
    ensures
        views(r@) == words(s@),
{
    keep_non_empty(pieces(s, CharClass::White))
}

/// A line without the carriage return at its end.
pub open spec fn without_return(s: Seq<char>) -> Seq<char> {
    if s.len() > 0 && s.last() == '\r' {
        s.drop_last()
    } else {
        s
    }
}

/// The lines of the text: what its line feeds end or part.
pub open spec fn lines(s: Seq<char>) -> Seq<Seq<char>> {
    let parts = split(s, CharClass::Is('\n'));
    let ended = if parts.last().len() == 0 {
        parts.drop_last()
    } else {
        parts
    };
    ended.map_values(|p: Seq<char>| without_return(p))
}

pub proof fn lemma_split_len(s: Seq<char>, k: CharClass, from: int)
    requires
        0 <= from <= s.len(),
    ensures
        split_from(s, k, from).len() > 0,
    decreases s.len() - from,
{
    lemma_index_of(s, k, from);
    if index_of(s, k, from) < s.len() {
        lemma_split_len(s, k, index_of(s, k, from) + 1);
    }
}

pub fn lines_of(s: &str) -> (r: Vec<String>)
    ensures
        views(r@) == lines(s@),
{
    let mut parts = pieces(s, CharClass::Is('\n'));
    let ghost all = views(parts@);
    proof {
        lemma_split_len(s@, CharClass::Is('\n'), 0);
        assert(all.len() == parts@.len());
        assert(all.last() == parts@.last()@);
    }
    if parts[parts.len() - 1].as_str().is_empty() {
        parts.pop();
        assert(views(parts@) =~= all.drop_last());
    }
    let ghost ended = views(parts@);
    let mut out: Vec<String> = Vec::new();
    let mut i: usize = 0;
    while i < parts.len()
        invariant
            i <= parts@.len(),
            ended == views(parts@),
            views(out@) == ended.take(i as int).map_values(|p: Seq<char>| without_return(p)),
        decreases parts@.len() - i,
    {
        let v = chars_of(parts[i].as_str());
        let n = v.len();
        let ghost before = views(out@);
        if n > 0 && v[n - 1] == '\r' {
            out.push(string_of(v.as_slice(), 0, n - 1));
            assert(v@.subrange(0, n - 1) =~= v@.drop_last());
        } else {
            out.push(parts[i].clone());
        }
        assert(views(out@) =~= before.push(without_return(ended[i as int])));
        assert(ended.take(i as int + 1).map_values(|p: Seq<char>| without_return(p))
            =~= ended.take(i as int).map_values(|p: Seq<char>| without_return(p)).push(
            without_return(ended[i as int]),
        ));
        i += 1;
    }
    assert(ended.take(i as int) =~= ended);
    out
}

/// The pieces one after another with the separator between them.
pub open spec fn join(parts: Seq<Seq<char>>, sep: Seq<char>) -> Seq<char>
    decreases parts.len(),
{
    if parts.len() == 0 {
        Seq::empty()
    } else if parts.len() == 1 {
        parts[0]
    } else {
        join(parts.drop_last(), sep) + sep + parts.last()
    }
}

pub fn joined(parts: &[String], sep: &str) -> (r: String)
    ensures
        r@ == join(views(parts@), sep@),
{
    let mut out = String::new();
    let mut i: usize = 0;
    let ghost all = views(parts@);
    while i < parts.len()
        invariant
            i <= parts@.len(),
            all == views(parts@),
            out@ == join(all.take(i as int), sep@),
        decreases parts@.len() - i,
    {
        assert(all.take(i as int + 1).drop_last() =~= all.take(i as int));
        if i > 0 {
            out.push_str(sep);
        }
        out.push_str(parts[i].as_str());
        assert(Seq::<char>::empty() + parts@[i as int]@ =~= parts@[i as int]@);
        i += 1;
    }
    assert(all.take(i as int) =~= all);
    out
}

/// The pieces one after another.
pub open spec fn concat(parts: Seq<Seq<char>>) -> Seq<char>
    decreases parts.len(),
{
    if parts.len() == 0 {
        Seq::empty()
    } else {
        concat(parts.drop_last()) + parts.last()
    }
}

pub fn concatenated(parts: &[String]) -> (r: String)
    ensures
        r@ == concat(views(parts@)),
{
    let mut out = String::new();
    let mut i: usize = 0;
    let ghost all = views(parts@);
    while i < parts.len()
        invariant
            i <= parts@.len(),
            all == views(parts@),
            out@ == concat(all.take(i as int)),
        decreases parts@.len() - i,
    {
        assert(all.take(i as int + 1).drop_last() =~= all.take(i as int));
        out.push_str(parts[i].as_str());
        i += 1;
    }
    assert(all.take(i as int) =~= all);
    out
}

pub proof fn lemma_concat_add(a: Seq<Seq<char>>, b: Seq<Seq<char>>)
    ensures
        concat(a + b) == concat(a) + concat(b),
    decreases b.len(),
{
    if b.len() == 0 {
        assert(a + b =~= a);
        assert(concat(a) + concat(b) =~= concat(a));
    } else {
        lemma_concat_add(a, b.drop_last());
        assert((a + b).drop_last() =~= a + b.drop_last());
        assert((a + b).last() == b.last());
        assert(concat(a) + concat(b.drop_last()) + b.last() =~= concat(a) + concat(b));
    }
}

/// What stands before and after the first occurrence of `p`.
pub open spec fn split_once(s: Seq<char>, p: Seq<char>) -> Option<(Seq<char>, Seq<char>)> {
    match find(s, p) {
        Some(i) => Some((s.take(i), s.skip(i + p.len()))),
        None => None,
    }
}

pub fn cut_once(s: &str, p: &str) -> (r: Option<(String, String)>)
    ensures
        match r {
            Some((a, b)) => split_once(s@, p@) == Some((a@, b@)),
            None => split_once(s@, p@) is None,
        },
{
    let n = char_count(p);
    match find_text(s, p) {
        Some(i) => {
            let v = chars_of(s);
            assert(i + n <= v.len());
            let a = string_of(v.as_slice(), 0, i);
            let b = string_of(v.as_slice(), i + n, v.len());
            assert(s@.subrange(0, i as int) =~= s@.take(i as int));
            assert(s@.subrange(i + p@.len(), s@.len() as int) =~= s@.skip(i + p@.len()));
            Some((a, b))
        },
        None => None,
    }
}

/// What stands before and after the last character of the class.
pub open spec fn split_last(s: Seq<char>, k: CharClass) -> Option<(Seq<char>, Seq<char>)> {
    let i = last_index_of(s, k);
    if i >= 0 {
        Some((s.take(i), s.skip(i + 1)))
    } else {
        None
    }
}

pub fn cut_last(s: &str, k: CharClass) -> (r: Option<(String, String)>)
    ensures
        match r {
            Some((a, b)) => split_last(s@, k) == Some((a@, b@)),
            None => split_last(s@, k) is None,
        },
{
    let v = chars_of(s);
    match find_last_class(v.as_slice(), k) {
        Some(i) => {
            let a = string_of(v.as_slice(), 0, i);
            let n = v.len();
            let b = string_of(v.as_slice(), i + 1, n);
            assert(s@.subrange(0, i as int) =~= s@.take(i as int));
            assert(s@.subrange(i + 1, s@.len() as int) =~= s@.skip(i + 1));
            Some((a, b))
        },
        None => None,
    }
}

// ---------------------------------------------------------------------------
// Numbers
// ---------------------------------------------------------------------------
pub open spec fn digit_char(n: int) -> char {
    (48 + n) as u8 as char
}

/// The decimal digits of a number.
pub open spec fn decimal(n: nat) -> Seq<char>
    decreases n,
{
    if n < 10 {
        seq![digit_char(n as int)]
    } else {
        decimal(n / 10).push(digit_char((n % 10) as int))
    }
}

pub fn digits_of(n: u64) -> (r: String)
    ensures
        r@ == decimal(n as nat),
    decreases n,
{
    if n < 10 {
        let mut out = String::new();
        out.push((48u8 + n as u8) as char);
        assert(out@ =~= seq![digit_char(n as int)]);
        out
    } else {
        let mut out = digits_of(n / 10);
        out.push((48u8 + (n % 10) as u8) as char);
        out
    }
}

pub fn digits_of_usize(n: usize) -> (r: String)
    ensures
        r@ == decimal(n as nat),
{
    digits_of(n as u64)
}

/// The decimal text of an integer.
pub open spec fn decimal_int(n: int) -> Seq<char> {
    if n < 0 {
        seq!['-'] + decimal((-n) as nat)
    } else {
        decimal(n as nat)
    }
}

pub fn digits_of_i64(n: i64) -> (r: String)
    ensures
        r@ == decimal_int(n as int),
{
    if n < 0 {
        let m: u64 = if n == i64::MIN {
            0x8000_0000_0000_0000u64
        } else {
            (-n) as u64
        };
        let d = digits_of(m);
        let mut out = String::new();
        out.push('-');
        out.push_str(d.as_str());
        assert(out@ =~= seq!['-'] + decimal((-(n as int)) as nat));
        out
    } else {
        digits_of(n as u64)
    }
}

pub fn digits_of_u128(n: u128) -> (r: String)
    ensures
        r@ == decimal(n as nat),
    decreases n,
{
    if n < 10 {
        digits_of(n as u64)
    } else {
        let mut out = digits_of_u128(n / 10);
        out.push((48u8 + (n % 10) as u8) as char);
        out
    }
}

pub fn digits_of_i128(n: i128) -> (r: String)
    requires
        n > i128::MIN,
    ensures
        r@ == decimal_int(n as int),
{
    if n < 0 {
        let d = digits_of_u128((-n) as u128);
        let mut out = String::new();
        out.push('-');
        out.push_str(d.as_str());
        assert(out@ =~= seq!['-'] + decimal((-(n as int)) as nat));
        out
    } else {
        digits_of_u128(n as u128)
    }
}

pub open spec fn all_digits(s: Seq<char>) -> bool {
    forall|i: int| 0 <= i < s.len() ==> is_digit(#[trigger] s[i])
}

/// The number that decimal digits stand for.
pub open spec fn digits_value(s: Seq<char>) -> nat
    decreases s.len(),
{
    if s.len() == 0 {
        0
    } else {
        (digits_value(s.drop_last()) * 10 + (s.last() as u32 - 48)) as nat
    }
}

/// The digits of an unsigned number: what follows an optional plus sign.
pub open spec fn unsigned_digits(s: Seq<char>) -> Seq<char> {
    if s.len() > 0 && s[0] == '+' {
        s.skip(1)
    } else {
        s
    }
}

/// The unsigned number up to `max` that the text writes.
pub open spec fn parse_unsigned(s: Seq<char>, max: int) -> Option<nat> {
    let d = unsigned_digits(s);
    if d.len() > 0 && all_digits(d) && digits_value(d) <= max {
        Some(digits_value(d))
    } else {
        None
    }
}

proof fn lemma_digits_value_prefix(s: Seq<char>, i: int)
    requires
        0 <= i <= s.len(),
        all_digits(s),
    ensures
        digits_value(s.take(i)) <= digits_value(s),
    decreases s.len() - i,
{
    if i < s.len() {
        lemma_digits_value_prefix(s, i + 1);
        assert(s.take(i + 1).drop_last() =~= s.take(i));
        assert(is_digit(s[i]));
    } else {
        assert(s.take(i) =~= s);
    }
}

/// The value of the digits from `from` on, where all are digits, there is one, and
/// the value does not pass `max`.
fn digits_from(v: &[char], from: usize, max: u64) -> (r: Option<u64>)
    requires
        from <= v@.len(),
    ensures
        match r {
            Some(n) => v@.skip(from as int).len() > 0 && all_digits(v@.skip(from as int)) && n
                == digits_value(v@.skip(from as int)) && n <= max,
            None => !(v@.skip(from as int).len() > 0 && all_digits(v@.skip(from as int))
                && digits_value(v@.skip(from as int)) <= max),
        },
{
    let ghost d = v@.skip(from as int);
    if from == v.len() {
        return None;
    }
    let mut n: u64 = 0;
    let mut i: usize = from;
    assert(d.take(0) =~= Seq::<char>::empty());
    while i < v.len()
        invariant
            from <= i <= v@.len(),
            d == v@.skip(from as int),
            n == digits_value(d.take(i - from)),
            n <= max,
            forall|j: int| 0 <= j < i - from ==> is_digit(#[trigger] d[j]),
        decreases v@.len() - i,
    {
        let c = v[i];
        assert(d[i - from] == c);
        if !digit(c) {
            return None;
        }
        let k: u64 = (c as u32 - 48) as u64;
        assert(d.take(i - from + 1).drop_last() =~= d.take(i - from));
        assert(digits_value(d.take(i - from + 1)) == n * 10 + k);
        if n > (u64::MAX - k) / 10 || n * 10 + k > max {
            proof {
                if all_digits(d) {
                    lemma_digits_value_prefix(d, i - from + 1);
                }
            }
            return None;
        }
        n = n * 10 + k;
        i += 1;
    }
    assert(d.take(i - from) =~= d);
    Some(n)
}

fn parse_up_to(s: &str, max: u64) -> (r: Option<u64>)
    ensures
        match r {
            Some(n) => parse_unsigned(s@, max as int) == Some(n as nat) && n <= max,
            None => parse_unsigned(s@, max as int) is None,
        },
{
    let v = chars_of(s);
    if v.len() > 0 && v[0] == '+' {
        digits_from(v.as_slice(), 1, max)
    } else {
        assert(v@.skip(0) =~= v@);
        digits_from(v.as_slice(), 0, max)
    }
}

pub fn to_u64(s: &str) -> (r: Option<u64>)
    ensures
        match r {
            Some(n) => parse_unsigned(s@, u64::MAX as int) == Some(n as nat),
            None => parse_unsigned(s@, u64::MAX as int) is None,
        },
{
    parse_up_to(s, u64::MAX)
}

pub fn to_usize(s: &str) -> (r: Option<usize>)
    ensures
        match r {
            Some(n) => parse_unsigned(s@, usize::MAX as int) == Some(n as nat),
            None => parse_unsigned(s@, usize::MAX as int) is None,
        },
{
    match parse_up_to(s, usize::MAX as u64) {
        Some(n) => Some(n as usize),
        None => None,
    }
}

/// The signed 64-bit number that the text writes.
pub open spec fn parse_i64(s: Seq<char>) -> Option<int> {
    if s.len() > 0 && s[0] == '-' {
        let d = s.skip(1);
        if d.len() > 0 && all_digits(d) && digits_value(d) <= 0x8000_0000_0000_0000 {
            Some(-(digits_value(d) as int))
        } else {
            None
        }
    } else {
        match parse_unsigned(s, i64::MAX as int) {
            Some(n) => Some(n as int),
            None => None,
        }
    }
}

pub fn to_i64(s: &str) -> (r: Option<i64>)
    ensures
        match r {
            Some(n) => parse_i64(s@) == Some(n as int),
            None => parse_i64(s@) is None,
        },
{
    let v = chars_of(s);
    if v.len() > 0 && v[0] == '-' {
        match digits_from(v.as_slice(), 1, 0x8000_0000_0000_0000u64) {
            Some(n) => {
                if n == 0x8000_0000_0000_0000u64 {
                    Some(i64::MIN)
                } else {
                    Some(-(n as i64))
                }
            },
            None => None,
        }
    } else {
        match parse_up_to(s, i64::MAX as u64) {
            Some(n) => Some(n as i64),
            None => None,
        }
    }
}

/// The digits of a number are digits, and stand for the number.
pub proof fn lemma_decimal_reads_back(n: nat)
    ensures
        decimal(n).len() > 0,
        all_digits(decimal(n)),
        digits_value(decimal(n)) == n,
        decimal(n)[0] != '+',
        decimal(n)[0] != '-',
    decreases n,
{
    if n < 10 {
        assert(decimal(n).drop_last() =~= Seq::empty());
        assert(digits_value(decimal(n).drop_last()) == 0);
    } else {
        lemma_decimal_reads_back(n / 10);
        let d = decimal(n / 10);
        assert(decimal(n).drop_last() =~= d);
        assert forall|i: int| 0 <= i < decimal(n).len() implies is_digit(
            #[trigger] decimal(n)[i],
        ) by {
            if i < d.len() {
                assert(decimal(n)[i] == d[i]);
            }
        }
    }
}

/// A number within the bound is read back from its digits.
pub proof fn lemma_parse_decimal(n: nat, max: int)
    requires
        n <= max,
    ensures
        parse_unsigned(decimal(n), max) == Some(n),
        decimal(n).len() > 0,
{
    lemma_decimal_reads_back(n);
}

/// The path of a name in a directory.
pub open spec fn path_in(dir: Seq<char>, name: Seq<char>) -> Seq<char> {
    if dir.len() == 0 {
        name
    } else if dir.last() == '/' {
        dir + name
    } else {
        dir + "/"@ + name
    }
}

pub fn join_path(dir: &str, name: &str) -> (r: String)
    ensures
        r@ == path_in(dir@, name@),
{
    let v = chars_of(dir);
    let n = v.len();
    if n == 0 {
        name.to_owned()
    } else if v[n - 1] == '/' {
        cat2(dir, name)
    } else {
        cat3(dir, "/", name)
    }
}

/// The last `k` hexadecimal digits of a number.
pub open spec fn hex(n: int, k: nat) -> Seq<char>
    decreases k,
{
    if k == 0 {
        Seq::empty()
    } else {
        hex(n / 16, (k - 1) as nat).push(hex_char(n % 16))
    }
}

pub open spec fn hex_char(d: int) -> char {
    if d < 10 {
        (48 + d) as u8 as char
    } else {
        (87 + d) as u8 as char
    }
}

pub fn hex_digits(n: u64, k: usize) -> (r: String)
    ensures
        r@ == hex(n as int, k as nat),
    decreases k,
{
    if k == 0 {
        String::new()
    } else {
        let mut out = hex_digits(n / 16, k - 1);
        let d: u8 = (n % 16) as u8;
        out.push(
            if d < 10 {
                (48 + d) as char
            } else {
                (87 + d) as char
            },
        );
        out
    }
}

// ---------------------------------------------------------------------------
// Order
// ---------------------------------------------------------------------------
/// The order of text by its characters, which is the order of its UTF-8 bytes.
pub open spec fn text_less(a: Seq<char>, b: Seq<char>) -> bool
    decreases a.len(),
{
    if b.len() == 0 {
        false
    } else if a.len() == 0 {
        true
    } else if a[0] != b[0] {
        a[0] < b[0]
    } else {
        text_less(a.skip(1), b.skip(1))
    }
}

pub fn less(a: &str, b: &str) -> (r: bool)
    ensures
        r == text_less(a@, b@),
{
    let v = chars_of(a);
    let w = chars_of(b);
    let mut i: usize = 0;
    assert(v@.skip(0) =~= v@);
    assert(w@.skip(0) =~= w@);
    loop
        invariant
            v@ == a@,
            w@ == b@,
            i <= v@.len(),
            i <= w@.len(),
            text_less(v@, w@) == text_less(v@.skip(i as int), w@.skip(i as int)),
        decreases v@.len() - i,
    {
        if i == w.len() {
            return false;
        }
        if i == v.len() {
            return true;
        }
        if v[i] != w[i] {
            return v[i] < w[i];
        }
        assert(v@.skip(i as int).skip(1) =~= v@.skip(i as int + 1));
        assert(w@.skip(i as int).skip(1) =~= w@.skip(i as int + 1));
        i += 1;
    }
}

/// The order of text is strict, total and transitive.
pub proof fn lemma_text_less_total(a: Seq<char>, b: Seq<char>)
    ensures
        !text_less(a, a),
        text_less(a, b) ==> !text_less(b, a),
        !text_less(a, b) && !text_less(b, a) ==> a == b,
    decreases a.len(),
{
    if a.len() == 0 || b.len() == 0 {
        if a.len() > 0 {
            lemma_text_less_total(a.skip(1), b);
        } else if b.len() == 0 {
            assert(a =~= b);
        }
    } else {
        lemma_text_less_total(a.skip(1), b.skip(1));
        if a[0] == b[0] && a.skip(1) == b.skip(1) {
            assert forall|i: int| 0 <= i < a.len() implies a[i] == b[i] by {
                if i > 0 {
                    assert(a.skip(1)[i - 1] == b.skip(1)[i - 1]);
                }
            }
            assert(a.len() == a.skip(1).len() + 1);
            assert(b.len() == b.skip(1).len() + 1);
            assert(a =~= b);
        }
    }
}

pub proof fn lemma_text_less_transitive(a: Seq<char>, b: Seq<char>, c: Seq<char>)
    requires
        text_less(a, b),
        text_less(b, c),
    ensures
        text_less(a, c),
    decreases a.len(),
{
    if a.len() > 0 && b.len() > 0 && c.len() > 0 {
        if a[0] == b[0] && b[0] == c[0] {
            lemma_text_less_transitive(a.skip(1), b.skip(1), c.skip(1));
        }
    }
}

// ---------------------------------------------------------------------------
// Sorted lists
// ---------------------------------------------------------------------------
/// A sorted list of texts with one more, which stands in it once.
pub open spec fn set_put(s: Seq<Seq<char>>, k: Seq<char>) -> Seq<Seq<char>>
    decreases s.len(),
{
    if s.len() == 0 {
        seq![k]
    } else if s[0] == k {
        s
    } else if text_less(k, s[0]) {
        seq![k] + s
    } else {
        seq![s[0]] + set_put(s.skip(1), k)
    }
}

/// Whether the texts stand in order, each once.
pub open spec fn sorted_set(s: Seq<Seq<char>>) -> bool {
    forall|i: int, j: int| 0 <= i < j < s.len() ==> text_less(#[trigger] s[i], #[trigger] s[j])
}

pub fn put_text(list: &mut Vec<String>, k: &str)
    ensures
        views(final(list)@) == set_put(views(old(list)@), k@),
{
    let ghost all = views(list@);
    let mut i: usize = 0;
    assert(all.take(0) + set_put(all.skip(0), k@) =~= set_put(all, k@)) by {
        assert(all.skip(0) =~= all);
    }
    while i < list.len() && !same(list[i].as_str(), k) && !less(k, list[i].as_str())
        invariant
            i <= list@.len(),
            all == views(list@),
            set_put(all, k@) == all.take(i as int) + set_put(all.skip(i as int), k@),
        decreases list@.len() - i,
    {
        assert(all.skip(i as int)[0] == all[i as int]);
        assert(all.skip(i as int).skip(1) =~= all.skip(i as int + 1));
        assert(all.take(i as int) + (seq![all[i as int]] + set_put(all.skip(i as int + 1), k@))
            =~= all.take(i as int + 1) + set_put(all.skip(i as int + 1), k@));
        i += 1;
    }
    assert(i < list@.len() ==> all.skip(i as int)[0] == all[i as int]);
    if i < list.len() && same(list[i].as_str(), k) {
        assert(all.take(i as int) + all.skip(i as int) =~= all);
    } else {
        list.insert(i, k.to_owned());
        assert(views(list@) =~= all.take(i as int) + (seq![k@] + all.skip(i as int)));
        assert(seq![k@] + all.skip(i as int) =~= set_put(all.skip(i as int), k@)) by {
            if i == all.len() {
                assert(seq![k@] + all.skip(i as int) =~= seq![k@]);
            }
        }
    }
}

/// Putting a text into a sorted list keeps it sorted and adds the text and nothing
/// else.
pub proof fn lemma_set_put(s: Seq<Seq<char>>, k: Seq<char>)
    ensures
        sorted_set(s) ==> sorted_set(set_put(s, k)),
        forall|x: Seq<char>| #[trigger] set_put(s, k).contains(x) <==> s.contains(x) || x == k,
    decreases s.len(),
{
    let r = set_put(s, k);
    if s.len() == 0 {
        assert(r[0] == k);
    } else if s[0] == k {
        assert(s[0] == k);
    } else if text_less(k, s[0]) {
        if sorted_set(s) {
            assert forall|i: int, j: int| 0 <= i < j < r.len() implies text_less(
                #[trigger] r[i],
                #[trigger] r[j],
            ) by {
                assert(r[j] == s[j - 1]);
                if i == 0 {
                    if j > 1 {
                        lemma_text_less_transitive(k, s[0], s[j - 1]);
                    }
                } else {
                    assert(r[i] == s[i - 1]);
                }
            }
        }
        assert forall|x: Seq<char>| #[trigger] r.contains(x) <==> s.contains(x) || x == k by {
            if s.contains(x) {
                let i = choose|i: int| 0 <= i < s.len() && s[i] == x;
                assert(r[i + 1] == x);
            }
            if r.contains(x) {
                let i = choose|i: int| 0 <= i < r.len() && r[i] == x;
                if i > 0 {
                    assert(s[i - 1] == x);
                }
            }
            assert(r[0] == k);
        }
    } else {
        let rest = s.skip(1);
        lemma_set_put(rest, k);
        let tail = set_put(rest, k);
        assert forall|x: Seq<char>| #[trigger] r.contains(x) <==> s.contains(x) || x == k by {
            if r.contains(x) {
                let i = choose|i: int| 0 <= i < r.len() && r[i] == x;
                if i == 0 {
                    assert(s[0] == x);
                } else {
                    assert(tail[i - 1] == x);
                    assert(tail.contains(x));
                    if x != k {
                        let q = choose|q: int| 0 <= q < rest.len() && rest[q] == x;
                        assert(s[q + 1] == x);
                    }
                }
            }
            if s.contains(x) {
                let i = choose|i: int| 0 <= i < s.len() && s[i] == x;
                if i == 0 {
                    assert(r[0] == x);
                } else {
                    assert(rest[i - 1] == x);
                    assert(rest.contains(x));
                    assert(tail.contains(x));
                    let q = choose|q: int| 0 <= q < tail.len() && tail[q] == x;
                    assert(r[q + 1] == x);
                }
            }
            if x == k {
                assert(tail.contains(k));
                let q = choose|q: int| 0 <= q < tail.len() && tail[q] == k;
                assert(r[q + 1] == k);
            }
        }
        if sorted_set(s) {
            assert forall|i: int, j: int| 0 <= i < j < rest.len() implies text_less(
                #[trigger] rest[i],
                #[trigger] rest[j],
            ) by {
                assert(rest[i] == s[i + 1] && rest[j] == s[j + 1]);
            }
            lemma_text_less_total(k, s[0]);
            assert forall|i: int, j: int| 0 <= i < j < r.len() implies text_less(
                #[trigger] r[i],
                #[trigger] r[j],
            ) by {
                assert(r[j] == tail[j - 1]);
                if i > 0 {
                    assert(r[i] == tail[i - 1]);
                } else {
                    assert(tail.contains(tail[j - 1]));
                    if tail[j - 1] != k {
                        let q = choose|q: int| 0 <= q < rest.len() && rest[q] == tail[j - 1];
                        assert(s[q + 1] == rest[q]);
                    }
                }
            }
        }
    }
}

} // verus!
