//! Digests, base64 and times: what the service has from other crates.
use vstd::prelude::*;
use vstd::utf8::{encode_utf8, encode_utf8_decode_utf8};
use base64::Engine;
use base64::engine::general_purpose::URL_SAFE_NO_PAD;
use chrono::{DateTime, Datelike, NaiveDate, Utc};
use sha2::{Digest, Sha256};

verus! {

// ---------------------------------------------------------------------------
// Base64
// ---------------------------------------------------------------------------
/// The character of the URL-safe base64 alphabet for six bits.
pub open spec fn base64_char(n: int) -> char {
    if n < 26 {
        (65 + n) as u8 as char
    } else if n < 52 {
        (71 + n) as u8 as char
    } else if n < 62 {
        (n - 4) as u8 as char
    } else if n == 62 {
        '-'
    } else {
        '_'
    }
}

/// Bytes in URL-safe base64 without padding: four characters for each three bytes,
/// and two or three for one or two left over.
pub open spec fn base64_url(b: Seq<u8>) -> Seq<char>
    decreases b.len(),
{
    if b.len() == 0 {
        Seq::empty()
    } else if b.len() == 1 {
        seq![base64_char(b[0] as int / 4), base64_char(b[0] as int % 4 * 16)]
    } else if b.len() == 2 {
        seq![
            base64_char(b[0] as int / 4),
            base64_char(b[0] as int % 4 * 16 + b[1] as int / 16),
            base64_char(b[1] as int % 16 * 4),
        ]
    } else {
        seq![
            base64_char(b[0] as int / 4),
            base64_char(b[0] as int % 4 * 16 + b[1] as int / 16),
            base64_char(b[1] as int % 16 * 4 + b[2] as int / 64),
            base64_char(b[2] as int % 64),
        ] + base64_url(b.skip(3))
    }
}

/// `base64::Engine::encode` of `URL_SAFE_NO_PAD`: the bytes in URL-safe base64
/// without padding.
#[verifier::external_body]
pub(crate) fn to_base64(bytes: &[u8]) -> (r: String)
    ensures
        r@ == base64_url(bytes@),
{
    URL_SAFE_NO_PAD.encode(bytes)
}

/// `base64::Engine::decode` of `URL_SAFE_NO_PAD`: the bytes whose encoding the text
/// is, and an error for any other text, since padding and trailing bits are refused.
#[verifier::external_body]
pub(crate) fn from_base64(text: &str) -> (r: Option<Vec<u8>>)
    ensures
        match r {
            Some(b) => base64_url(b@) == text@,
            None => forall|b: Seq<u8>| #[trigger] base64_url(b) != text@,
        },
{
    URL_SAFE_NO_PAD.decode(text).ok()
}

proof fn lemma_base64_char(m: int, n: int)
    requires
        0 <= m < 64,
        0 <= n < 64,
        base64_char(m) == base64_char(n),
    ensures
        m == n,
{
}

proof fn lemma_base64_len(b: Seq<u8>)
    ensures
        base64_url(b).len() == 4 * (b.len() / 3) + (if b.len() % 3 == 0 {
            0nat
        } else {
            b.len() % 3 + 1
        }),
    decreases b.len(),
{
    if b.len() >= 3 {
        lemma_base64_len(b.skip(3));
    }
}

/// No two sequences of bytes have the same base64.
pub proof fn lemma_base64_injective(a: Seq<u8>, b: Seq<u8>)
    requires
        base64_url(a) == base64_url(b),
    ensures
        a == b,
    decreases a.len(),
{
    lemma_base64_len(a);
    lemma_base64_len(b);
    assert(a.len() == b.len()) by {
        let x = a.len() as int;
        let y = b.len() as int;
        assert(x == 3 * (x / 3) + x % 3);
        assert(y == 3 * (y / 3) + y % 3);
    }
    let s = base64_url(a);
    let t = base64_url(b);
    if a.len() > 0 {
        assert(s[0] == t[0] && s[1] == t[1]);
        lemma_base64_char(a[0] as int / 4, b[0] as int / 4);
        if a.len() == 1 {
            lemma_base64_char(a[0] as int % 4 * 16, b[0] as int % 4 * 16);
        } else {
            lemma_base64_char(
                a[0] as int % 4 * 16 + a[1] as int / 16,
                b[0] as int % 4 * 16 + b[1] as int / 16,
            );
            assert(s[2] == t[2]);
            if a.len() == 2 {
                lemma_base64_char(a[1] as int % 16 * 4, b[1] as int % 16 * 4);
            } else {
                lemma_base64_char(
                    a[1] as int % 16 * 4 + a[2] as int / 64,
                    b[1] as int % 16 * 4 + b[2] as int / 64,
                );
                assert(s[3] == t[3]);
                lemma_base64_char(a[2] as int % 64, b[2] as int % 64);
                assert(a[2] == b[2]);
                assert(s.skip(4) =~= base64_url(a.skip(3)));
                assert(t.skip(4) =~= base64_url(b.skip(3)));
                lemma_base64_injective(a.skip(3), b.skip(3));
                assert forall|i: int| 0 <= i < a.len() implies a[i] == b[i] by {
                    if i >= 3 {
                        assert(a.skip(3)[i - 3] == b.skip(3)[i - 3]);
                    }
                }
            }
            assert(a[1] == b[1]);
        }
        assert(a[0] == b[0]);
    }
    assert(a =~= b);
}

/// No two texts have the same UTF-8.
pub proof fn lemma_utf8_injective(a: Seq<char>, b: Seq<char>)
    requires
        encode_utf8(a) == encode_utf8(b),
    ensures
        a == b,
{
    encode_utf8_decode_utf8(a);
    encode_utf8_decode_utf8(b);
}

// ---------------------------------------------------------------------------
// Digests
// ---------------------------------------------------------------------------
/// The SHA-256 digest of bytes.
pub uninterp spec fn sha256(bytes: Seq<u8>) -> Seq<u8>;

/// `sha2::Sha256::digest`: the SHA-256 digest, thirty-two bytes that are a function
/// of the bytes.
#[verifier::external_body]
pub(crate) fn digest(bytes: &[u8]) -> (r: Vec<u8>)
    ensures
        r@ == sha256(bytes@),
        r@.len() == 32,
{
    Sha256::digest(bytes).to_vec()
}

// ---------------------------------------------------------------------------
// Times
// ---------------------------------------------------------------------------
/// A moment: seconds since the epoch and nanoseconds into the second.
#[derive(Clone, Copy, Debug, PartialEq, Eq, Structural)]
pub struct Moment {
    pub seconds: i64,
    pub nanos: u32,
}

/// Whether a moment is not after another.
pub open spec fn not_after(a: Moment, b: Moment) -> bool {
    a.seconds < b.seconds || (a.seconds == b.seconds && a.nanos <= b.nanos)
}

impl Moment {
    pub fn is_not_after(self, other: Moment) -> (r: bool)
        ensures
            r == not_after(self, other),
    {
        self.seconds < other.seconds || (self.seconds == other.seconds && self.nanos
            <= other.nanos)
    }
}

/// The moment that `chrono::DateTime::parse_from_rfc3339` reads.
pub uninterp spec fn rfc3339(text: Seq<char>) -> Option<Moment>;

/// The day, counted as by `chrono::Datelike::num_days_from_ce`, that
/// `chrono::NaiveDate::parse_from_str` reads as year, month and day.
pub uninterp spec fn calendar_day(text: Seq<char>) -> Option<i32>;

/// What `chrono::DateTime<Utc>` displays of a moment.
pub uninterp spec fn moment_text(m: Moment) -> Seq<char>;

/// `chrono::DateTime::parse_from_rfc3339`: the moment, as its timestamp and the
/// nanoseconds into the second, is a function of the text.
#[verifier::external_body]
pub(crate) fn read_rfc3339(text: &str) -> (r: Option<Moment>)
    ensures
        r == rfc3339(text@),
{
    match DateTime::parse_from_rfc3339(text) {
        Ok(t) => Some(Moment { seconds: t.timestamp(), nanos: t.timestamp_subsec_nanos() }),
        Err(_) => None,
    }
}

/// `chrono::NaiveDate::parse_from_str` with year, month and day: the day that is read
/// is a function of the text.
#[verifier::external_body]
pub(crate) fn read_day(text: &str) -> (r: Option<i32>)
    ensures
        r == calendar_day(text@),
{
    match NaiveDate::parse_from_str(text, "%Y-%m-%d") {
        Ok(date) => Some(date.num_days_from_ce()),
        Err(_) => None,
    }
}

/// The `Display` of `chrono::DateTime<Utc>`: what it shows is a function of the
/// moment. A moment that `chrono` cannot hold is shown as the epoch.
#[verifier::external_body]
pub(crate) fn show_moment(m: Moment) -> (r: String)
    ensures
        r@ == moment_text(m),
{
    DateTime::<Utc>::from_timestamp(m.seconds, m.nanos).unwrap_or_default().to_string()
}

} // verus!
