//! JSON values with their members in key order, and the calls that read and print
//! them as text.
use vstd::prelude::*;
use crate::text::{
    decimal_int, decimal, digits_of, less, opt_view, parse_i64, parse_unsigned, same, text_less,
    to_i64, to_u64, views,
};

verus! {

/// A JSON value. A number is held as the text that prints it.
#[derive(Debug)]
pub enum Json {
    Null,
    Bool(bool),
    Number(String),
    Text(String),
    Array(Vec<Json>),
    Object(Vec<Member>),
}

/// A member of a JSON object.
#[derive(Debug)]
pub struct Member {
    pub key: String,
    pub value: Json,
}

/// What a JSON value holds.
pub enum JsonV {
    Null,
    Bool(bool),
    Number(Seq<char>),
    Text(Seq<char>),
    Array(Seq<JsonV>),
    Object(Seq<MemberV>),
}

/// What a member of a JSON object holds.
pub struct MemberV {
    pub key: Seq<char>,
    pub value: JsonV,
}

impl View for Json {
    type V = JsonV;

    open spec fn view(&self) -> JsonV
        decreases self,
    {
        match self {
            Json::Null => JsonV::Null,
            Json::Bool(b) => JsonV::Bool(*b),
            Json::Number(n) => JsonV::Number(n@),
            Json::Text(s) => JsonV::Text(s@),
            Json::Array(v) => JsonV::Array(
                Seq::new(
                    v@.len(),
                    |i: int|
                        if 0 <= i < v@.len() {
                            v@[i].view()
                        } else {
                            JsonV::Null
                        },
                ),
            ),
            Json::Object(v) => JsonV::Object(
                Seq::new(
                    v@.len(),
                    |i: int|
                        if 0 <= i < v@.len() {
                            MemberV { key: v@[i].key@, value: v@[i].value.view() }
                        } else {
                            MemberV { key: Seq::empty(), value: JsonV::Null }
                        },
                ),
            ),
        }
    }
}

/// What a list of JSON values holds.
pub open spec fn items_view(v: Seq<Json>) -> Seq<JsonV> {
    v.map_values(|j: Json| j@)
}

/// What the members of an object hold.
pub open spec fn members_view(v: Seq<Member>) -> Seq<MemberV> {
    v.map_values(|m: Member| MemberV { key: m.key@, value: m.value@ })
}

pub broadcast proof fn lemma_array_view(v: Vec<Json>)
    ensures
        #[trigger] Json::Array(v)@ == JsonV::Array(items_view(v@)),
{
    let a = Json::Array(v)@->Array_0;
    assert forall|i: int| 0 <= i < v@.len() implies a[i] == items_view(v@)[i] by {
        assert(a[i] == v@[i]@);
    }
    assert(a =~= items_view(v@));
}

pub broadcast proof fn lemma_object_view(v: Vec<Member>)
    ensures
        #[trigger] Json::Object(v)@ == JsonV::Object(members_view(v@)),
{
    let a = Json::Object(v)@->Object_0;
    assert forall|i: int| 0 <= i < v@.len() implies a[i] == members_view(v@)[i] by {
        assert(a[i] == (MemberV { key: v@[i].key@, value: v@[i].value@ }));
    }
    assert(a =~= members_view(v@));
}

// ---------------------------------------------------------------------------
// Members
// ---------------------------------------------------------------------------
/// The value of the first member with the key.
pub open spec fn member(m: Seq<MemberV>, k: Seq<char>) -> Option<JsonV>
    decreases m.len(),
{
    if m.len() == 0 {
        None
    } else if m[0].key == k {
        Some(m[0].value)
    } else {
        member(m.skip(1), k)
    }
}

/// The first `n` members but those with the key.
pub open spec fn other_members(m: Seq<MemberV>, k: Seq<char>, n: int) -> Seq<MemberV>
    decreases n,
{
    if n <= 0 {
        Seq::empty()
    } else if m[n - 1].key == k {
        other_members(m, k, n - 1)
    } else {
        other_members(m, k, n - 1).push(m[n - 1])
    }
}

/// The members with the key's value set, the key standing in key order.
pub open spec fn put(m: Seq<MemberV>, k: Seq<char>, v: JsonV) -> Seq<MemberV>
    decreases m.len(),
{
    if m.len() == 0 {
        seq![MemberV { key: k, value: v }]
    } else if m[0].key == k {
        seq![MemberV { key: k, value: v }] + m.skip(1)
    } else if text_less(k, m[0].key) {
        seq![MemberV { key: k, value: v }] + m
    } else {
        seq![m[0]] + put(m.skip(1), k, v)
    }
}

/// Whether the keys stand in order, each once.
pub open spec fn keys_ordered(m: Seq<MemberV>) -> bool {
    forall|i: int, j: int| 0 <= i < j < m.len() ==> text_less(#[trigger] m[i].key, #[trigger] m[j].key)
}

/// A key that was put is found with the value it was put with, and no other key's
/// value changes.
pub proof fn lemma_put_member(m: Seq<MemberV>, k: Seq<char>, v: JsonV, other: Seq<char>)
    ensures
        member(put(m, k, v), k) == Some(v),
        other != k ==> member(put(m, k, v), other) == member(m, other),
    decreases m.len(),
{
    if m.len() == 0 {
        assert(put(m, k, v).skip(1) =~= m);
    } else if m[0].key == k {
        assert(put(m, k, v).skip(1) =~= m.skip(1));
    } else if text_less(k, m[0].key) {
        assert(put(m, k, v).skip(1) =~= m);
    } else {
        lemma_put_member(m.skip(1), k, v, other);
        assert(put(m, k, v).skip(1) =~= put(m.skip(1), k, v));
    }
}

/// Sets a key's value in a list of members.
pub fn put_member(m: &mut Vec<Member>, k: &str, v: Json)
    ensures
        members_view(final(m)@) == put(members_view(old(m)@), k@, v@),
{
    let ghost all = members_view(m@);
    let mut i: usize = 0;
    assert(all.take(0) + put(all.skip(0), k@, v@) =~= put(all, k@, v@)) by {
        assert(all.skip(0) =~= all);
    }
    while i < m.len() && !same(m[i].key.as_str(), k) && !less(k, m[i].key.as_str())
        invariant
            i <= m@.len(),
            all == members_view(m@),
            put(all, k@, v@) == all.take(i as int) + put(all.skip(i as int), k@, v@),
        decreases m@.len() - i,
    {
        assert(all.skip(i as int)[0] == all[i as int]);
        assert(all.skip(i as int).skip(1) =~= all.skip(i as int + 1));
        assert(all.take(i as int) + (seq![all[i as int]] + put(all.skip(i as int + 1), k@, v@))
            =~= all.take(i as int + 1) + put(all.skip(i as int + 1), k@, v@));
        i += 1;
    }
    let ghost value = v@;
    if i < m.len() && same(m[i].key.as_str(), k) {
        assert(all.skip(i as int)[0] == all[i as int]);
        let key = k.to_owned();
        m.set(i, Member { key, value: v });
        assert(all.skip(i as int).skip(1) =~= all.skip(i as int + 1));
        assert(members_view(m@) =~= all.take(i as int) + (seq![MemberV { key: k@, value: value }] + all.skip(
            i as int + 1,
        )));
    } else {
        assert(i < m@.len() ==> all.skip(i as int)[0] == all[i as int]);
        let key = k.to_owned();
        m.insert(i, Member { key, value: v });
        assert(members_view(m@) =~= all.take(i as int) + (seq![MemberV { key: k@, value: value }] + all.skip(i as int)));
        assert(seq![MemberV { key: k@, value: value }] + all.skip(i as int) =~= put(all.skip(i as int), k@, value)) by {
            if i == all.len() {
                assert(seq![MemberV { key: k@, value: value }] + all.skip(i as int) =~= seq![MemberV { key: k@, value: value }]);
            }
        }
    }
}

// ---------------------------------------------------------------------------
// Reading and building values
// ---------------------------------------------------------------------------
impl JsonV {
    pub open spec fn get(self, k: Seq<char>) -> Option<JsonV> {
        match self {
            JsonV::Object(m) => member(m, k),
            _ => None,
        }
    }

    pub open spec fn as_text(self) -> Option<Seq<char>> {
        match self {
            JsonV::Text(s) => Some(s),
            _ => None,
        }
    }

    pub open spec fn as_bool(self) -> Option<bool> {
        match self {
            JsonV::Bool(b) => Some(b),
            _ => None,
        }
    }

    pub open spec fn as_u64(self) -> Option<nat> {
        match self {
            JsonV::Number(n) => parse_unsigned(n, u64::MAX as int),
            _ => None,
        }
    }

    pub open spec fn as_i64(self) -> Option<int> {
        match self {
            JsonV::Number(n) => parse_i64(n),
            _ => None,
        }
    }

    pub open spec fn as_array(self) -> Option<Seq<JsonV>> {
        match self {
            JsonV::Array(a) => Some(a),
            _ => None,
        }
    }

    /// The text of the member with the key.
    pub open spec fn text_at(self, k: Seq<char>) -> Option<Seq<char>> {
        match self.get(k) {
            Some(j) => j.as_text(),
            None => None,
        }
    }

    /// The items of the array that is the member with the key, or none.
    pub open spec fn items_at(self, k: Seq<char>) -> Seq<JsonV> {
        match self.get(k) {
            Some(JsonV::Array(a)) => a,
            _ => Seq::empty(),
        }
    }

    /// The member with the key, where it is an object.
    pub open spec fn object_at(self, k: Seq<char>) -> Option<JsonV> {
        match self.get(k) {
            Some(JsonV::Object(m)) => Some(JsonV::Object(m)),
            _ => None,
        }
    }

    /// The unsigned number that is the member with the key.
    pub open spec fn u64_at(self, k: Seq<char>) -> Option<nat> {
        match self.get(k) {
            Some(j) => j.as_u64(),
            None => None,
        }
    }

    /// The signed number that is the member with the key.
    pub open spec fn i64_at(self, k: Seq<char>) -> Option<int> {
        match self.get(k) {
            Some(j) => j.as_i64(),
            None => None,
        }
    }

    /// The truth value that is the member with the key.
    pub open spec fn bool_at(self, k: Seq<char>) -> Option<bool> {
        match self.get(k) {
            Some(j) => j.as_bool(),
            None => None,
        }
    }

    /// The object with the key's value set; what is no object stays as it is.
    pub open spec fn with(self, k: Seq<char>, v: JsonV) -> JsonV {
        match self {
            JsonV::Object(m) => JsonV::Object(put(m, k, v)),
            _ => self,
        }
    }

    /// The object without the member; any other value is left as it is.
    pub open spec fn without(self, k: Seq<char>) -> JsonV {
        match self {
            JsonV::Object(m) => JsonV::Object(other_members(m, k, m.len() as int)),
            _ => self,
        }
    }

    pub open spec fn empty_object() -> JsonV {
        JsonV::Object(Seq::empty())
    }

    pub open spec fn number(n: nat) -> JsonV {
        JsonV::Number(decimal(n))
    }

    pub open spec fn opt_text(o: Option<Seq<char>>) -> JsonV {
        match o {
            Some(s) => JsonV::Text(s),
            None => JsonV::Null,
        }
    }

    pub open spec fn texts(v: Seq<Seq<char>>) -> JsonV {
        JsonV::Array(v.map_values(|s: Seq<char>| JsonV::Text(s)))
    }

    /// The value or null.
    pub open spec fn or_null(o: Option<JsonV>) -> JsonV {
        match o {
            Some(j) => j,
            None => JsonV::Null,
        }
    }
}

/// Setting a member of an object leaves its other members.
pub proof fn lemma_with(v: JsonV, key: Seq<char>, value: JsonV)
    requires
        v is Object,
    ensures
        v.with(key, value) is Object,
        v.with(key, value).get(key) == Some(value),
        forall|other: Seq<char>|
            other != key ==> #[trigger] v.with(key, value).get(other) == v.get(other),
{
    assert forall|other: Seq<char>| other != key implies #[trigger] v.with(key, value).get(other)
        == v.get(other) by {
        lemma_put_member(v->Object_0, key, value, other);
    }
    lemma_put_member(v->Object_0, key, value, key);
}

pub broadcast proof fn lemma_with_is_object(v: JsonV, key: Seq<char>, value: JsonV)
    ensures
        v is Object ==> (#[trigger] v.with(key, value)) is Object,
{
}

/// What is found in an object after a member was set.
pub broadcast proof fn lemma_get_with(v: JsonV, key: Seq<char>, value: JsonV, other: Seq<char>)
    ensures
        v is Object ==> (#[trigger] v.with(key, value).get(other)) == (if other == key {
            Some(value)
        } else {
            v.get(other)
        }),
{
    if v is Object {
        lemma_with(v, key, value);
    }
}

/// What an optional JSON value holds.
pub open spec fn opt_json(o: Option<&Json>) -> Option<JsonV> {
    match o {
        Some(j) => Some(j@),
        None => None,
    }
}

impl Json {
    /// A copy of the value.
    pub fn copy(&self) -> (r: Json)
        ensures
            r@ == self@,
        decreases self,
    {
        broadcast use {lemma_array_view, lemma_object_view};

        match self {
            Json::Null => Json::Null,
            Json::Bool(b) => Json::Bool(*b),
            Json::Number(n) => Json::Number(n.clone()),
            Json::Text(n) => Json::Text(n.clone()),
            Json::Array(v) => {
                let mut out: Vec<Json> = Vec::new();
                let mut i: usize = 0;
                while i < v.len()
                    invariant
                        i <= v@.len(),
                        self matches Json::Array(w) && w == v,
                        items_view(out@) == items_view(v@).take(i as int),
                    decreases v@.len() - i,
                {
                    let ghost before = items_view(out@);
                    out.push(v[i].copy());
                    assert(items_view(out@) =~= before.push(v@[i as int]@));
                    assert(items_view(v@).take(i as int + 1) =~= before.push(v@[i as int]@));
                    i += 1;
                }
                assert(items_view(v@).take(i as int) =~= items_view(v@));
                Json::Array(out)
            },
            Json::Object(v) => {
                let mut out: Vec<Member> = Vec::new();
                let mut i: usize = 0;
                while i < v.len()
                    invariant
                        i <= v@.len(),
                        self matches Json::Object(w) && w == v,
                        members_view(out@) == members_view(v@).take(i as int),
                    decreases v@.len() - i,
                {
                    let ghost before = members_view(out@);
                    out.push(Member { key: v[i].key.clone(), value: v[i].value.copy() });
                    assert(members_view(out@) =~= before.push(MemberV { key: v@[i as int].key@, value: v@[i as int].value@ }));
                    assert(members_view(v@).take(i as int + 1) =~= before.push(
                        MemberV { key: v@[i as int].key@, value: v@[i as int].value@ },
                    ));
                    i += 1;
                }
                assert(members_view(v@).take(i as int) =~= members_view(v@));
                Json::Object(out)
            },
        }
    }

    /// The value of the member with the key.
    pub fn get(&self, k: &str) -> (r: Option<&Json>)
        ensures
            opt_json(r) == self@.get(k@),
    {
        broadcast use lemma_object_view;

        match self {
            Json::Object(m) => {
                let ghost all = members_view(m@);
                let mut i: usize = 0;
                assert(self@ == Json::Object(*m)@);
                assert(all.skip(0) =~= all);
                while i < m.len()
                    invariant
                        i <= m@.len(),
                        self@ == JsonV::Object(all),
                        all == members_view(m@),
                        member(all, k@) == member(all.skip(i as int), k@),
                    decreases m@.len() - i,
                {
                    assert(all.skip(i as int)[0] == all[i as int]);
                    assert(all.skip(i as int).skip(1) =~= all.skip(i as int + 1));
                    if same(m[i].key.as_str(), k) {
                        return Some(&m[i].value);
                    }
                    i += 1;
                }
                None
            },
            _ => None,
        }
    }

    pub fn as_text(&self) -> (r: Option<String>)
        ensures
            opt_view(r) == self@.as_text(),
    {
        match self {
            Json::Text(s) => Some(s.clone()),
            _ => None,
        }
    }

    pub fn as_bool(&self) -> (r: Option<bool>)
        ensures
            r == self@.as_bool(),
    {
        match self {
            Json::Bool(b) => Some(*b),
            _ => None,
        }
    }

    pub fn as_u64(&self) -> (r: Option<u64>)
        ensures
            match r {
                Some(n) => self@.as_u64() == Some(n as nat),
                None => self@.as_u64() is None,
            },
    {
        match self {
            Json::Number(n) => to_u64(n.as_str()),
            _ => None,
        }
    }

    pub fn as_i64(&self) -> (r: Option<i64>)
        ensures
            match r {
                Some(n) => self@.as_i64() == Some(n as int),
                None => self@.as_i64() is None,
            },
    {
        match self {
            Json::Number(n) => to_i64(n.as_str()),
            _ => None,
        }
    }

    pub fn as_array(&self) -> (r: Option<&Vec<Json>>)
        ensures
            match r {
                Some(v) => self@.as_array() == Some(items_view(v@)),
                None => self@.as_array() is None,
            },
    {
        broadcast use lemma_array_view;

        match self {
            Json::Array(v) => Some(v),
            _ => None,
        }
    }

    pub fn is_null(&self) -> (r: bool)
        ensures
            r == (self@ is Null),
    {
        matches!(self, Json::Null)
    }

    /// The text of the member with the key.
    pub fn text_at(&self, k: &str) -> (r: Option<String>)
        ensures
            opt_view(r) == self@.text_at(k@),
    {
        match self.get(k) {
            Some(j) => j.as_text(),
            None => None,
        }
    }

    pub fn items_at(&self, k: &str) -> (r: Vec<Json>)
        ensures
            items_view(r@) == self@.items_at(k@),
    {
        broadcast use lemma_array_view;

        match self.get(k) {
            Some(Json::Array(v)) => copy_items(v),
            _ => {
                let none: Vec<Json> = Vec::new();
                assert(items_view(none@) =~= Seq::empty());
                none
            },
        }
    }

    pub fn object_at(&self, k: &str) -> (r: Option<&Json>)
        ensures
            opt_json(r) == self@.object_at(k@),
    {
        match self.get(k) {
            Some(j) => if matches!(j, Json::Object(_)) {
                Some(j)
            } else {
                None
            },
            None => None,
        }
    }

    pub fn u64_at(&self, k: &str) -> (r: Option<u64>)
        ensures
            match r {
                Some(n) => self@.u64_at(k@) == Some(n as nat),
                None => self@.u64_at(k@) is None,
            },
    {
        match self.get(k) {
            Some(j) => j.as_u64(),
            None => None,
        }
    }

    pub fn i64_at(&self, k: &str) -> (r: Option<i64>)
        ensures
            match r {
                Some(n) => self@.i64_at(k@) == Some(n as int),
                None => self@.i64_at(k@) is None,
            },
    {
        match self.get(k) {
            Some(j) => j.as_i64(),
            None => None,
        }
    }

    pub fn bool_at(&self, k: &str) -> (r: Option<bool>)
        ensures
            r == self@.bool_at(k@),
    {
        match self.get(k) {
            Some(j) => j.as_bool(),
            None => None,
        }
    }

    /// A copy of the member with the key, or null.
    pub fn at_or_null(&self, k: &str) -> (r: Json)
        ensures
            r@ == JsonV::or_null(self@.get(k@)),
    {
        match self.get(k) {
            Some(j) => j.copy(),
            None => Json::Null,
        }
    }

    pub fn object() -> (r: Json)
        ensures
            r@ == JsonV::empty_object(),
    {
        broadcast use lemma_object_view;

        let m: Vec<Member> = Vec::new();
        assert(members_view(m@) =~= Seq::empty());
        Json::Object(m)
    }

    pub fn with(self, k: &str, v: Json) -> (r: Json)
        ensures
            r@ == self@.with(k@, v@),
    {
        broadcast use lemma_object_view;

        match self {
            Json::Object(m) => {
                let mut m = m;
                put_member(&mut m, k, v);
                Json::Object(m)
            },
            other => other,
        }
    }

    pub fn without(&self, k: &str) -> (r: Json)
        ensures
            r@ == self@.without(k@),
    {
        broadcast use lemma_object_view;

        match self {
            Json::Object(m) => {
                let mut out: Vec<Member> = Vec::new();
                let mut i: usize = 0;
                let ghost mv = members_view(m@);
                assert(members_view(out@) =~= Seq::empty());
                while i < m.len()
                    invariant
                        i <= m@.len(),
                        mv == members_view(m@),
                        members_view(out@) == other_members(mv, k@, i as int),
                    decreases m@.len() - i,
                {
                    if !same(m[i].key.as_str(), k) {
                        let ghost before = members_view(out@);
                        out.push(Member { key: m[i].key.clone(), value: m[i].value.copy() });
                        assert(members_view(out@) =~= before.push(mv[i as int]));
                    }
                    i += 1;
                }
                Json::Object(out)
            },
            _ => self.copy(),
        }
    }

    pub fn text(s: &str) -> (r: Json)
        ensures
            r@ == JsonV::Text(s@),
    {
        Json::Text(s.to_owned())
    }

    pub fn number(n: u64) -> (r: Json)
        ensures
            r@ == JsonV::number(n as nat),
    {
        Json::Number(digits_of(n))
    }

    pub fn count(n: usize) -> (r: Json)
        ensures
            r@ == JsonV::number(n as nat),
    {
        Json::Number(digits_of(n as u64))
    }

    pub fn opt_text(o: &Option<String>) -> (r: Json)
        ensures
            r@ == JsonV::opt_text(opt_view(*o)),
    {
        match o {
            Some(s) => Json::Text(s.clone()),
            None => Json::Null,
        }
    }

    pub fn texts(v: &Vec<String>) -> (r: Json)
        ensures
            r@ == JsonV::texts(views(v@)),
    {
        broadcast use lemma_array_view;

        let mut out: Vec<Json> = Vec::new();
        let mut i: usize = 0;
        let ghost all = views(v@).map_values(|s: Seq<char>| JsonV::Text(s));
        while i < v.len()
            invariant
                i <= v@.len(),
                all == views(v@).map_values(|s: Seq<char>| JsonV::Text(s)),
                items_view(out@) == all.take(i as int),
            decreases v@.len() - i,
        {
            let ghost before = items_view(out@);
            out.push(Json::Text(v[i].clone()));
            assert(items_view(out@) =~= before.push(JsonV::Text(v@[i as int]@)));
            assert(all.take(i as int + 1) =~= before.push(JsonV::Text(v@[i as int]@)));
            i += 1;
        }
        assert(all.take(i as int) =~= all);
        Json::Array(out)
    }

    pub fn array(v: Vec<Json>) -> (r: Json)
        ensures
            r@ == JsonV::Array(items_view(v@)),
    {
        broadcast use lemma_array_view;

        Json::Array(v)
    }
}

/// A copy of a list of JSON values.
pub fn copy_items(v: &Vec<Json>) -> (r: Vec<Json>)
    ensures
        items_view(r@) == items_view(v@),
{
    let mut out: Vec<Json> = Vec::new();
    let mut i: usize = 0;
    while i < v.len()
        invariant
            i <= v@.len(),
            items_view(out@) == items_view(v@).take(i as int),
        decreases v@.len() - i,
    {
        let ghost before = items_view(out@);
        out.push(v[i].copy());
        assert(items_view(out@) =~= before.push(v@[i as int]@));
        assert(items_view(v@).take(i as int + 1) =~= before.push(v@[i as int]@));
        i += 1;
    }
    assert(items_view(v@).take(i as int) =~= items_view(v@));
    out
}

/// Whether two texts write the same number, as `serde_json` writes numbers: a number has
/// one text but for zero, which a fraction writes with and without a sign.
pub open spec fn same_number(a: Seq<char>, b: Seq<char>) -> bool {
    a == b || (a == "0.0"@ && b == "-0.0"@) || (a == "-0.0"@ && b == "0.0"@)
}

/// Whether two values are equal.
pub open spec fn equal_json(a: JsonV, b: JsonV) -> bool
    decreases a,
{
    match (a, b) {
        (JsonV::Number(x), JsonV::Number(y)) => same_number(x, y),
        (JsonV::Array(x), JsonV::Array(y)) => x.len() == y.len() && (forall|i: int|
            0 <= i < x.len() ==> equal_json(#[trigger] x[i], y[i])),
        (JsonV::Object(x), JsonV::Object(y)) => x.len() == y.len() && (forall|i: int|
            0 <= i < x.len() ==> (#[trigger] x[i]).key == y[i].key && equal_json(
                x[i].value,
                y[i].value,
            )),
        _ => a == b,
    }
}

pub fn same_json(a: &Json, b: &Json) -> (r: bool)
    ensures
        r == equal_json(a@, b@),
    decreases a,
{
    broadcast use {lemma_array_view, lemma_object_view};

    match (a, b) {
        (Json::Null, Json::Null) => true,
        (Json::Bool(x), Json::Bool(y)) => *x == *y,
        (Json::Number(x), Json::Number(y)) => same(x.as_str(), y.as_str()) || (same(
            x.as_str(),
            "0.0",
        ) && same(y.as_str(), "-0.0")) || (same(x.as_str(), "-0.0") && same(y.as_str(), "0.0")),
        (Json::Text(x), Json::Text(y)) => same(x.as_str(), y.as_str()),
        (Json::Array(x), Json::Array(y)) => {
            assert(a@ == Json::Array(*x)@ && b@ == Json::Array(*y)@);
            let ghost xv = items_view(x@);
            let ghost yv = items_view(y@);
            assert(xv.len() == x@.len() && yv.len() == y@.len());
            if x.len() != y.len() {
                return false;
            }
            let mut i: usize = 0;
            while i < x.len()
                invariant
                    i <= x@.len() == y@.len(),
                    a matches Json::Array(w) && w == x,
                    xv == items_view(x@),
                    yv == items_view(y@),
                    a@ == JsonV::Array(xv),
                    b@ == JsonV::Array(yv),
                    forall|k: int| 0 <= k < i ==> equal_json(#[trigger] xv[k], yv[k]),
                decreases x@.len() - i,
            {
                assert(xv[i as int] == x@[i as int]@ && yv[i as int] == y@[i as int]@);
                if !same_json(&x[i], &y[i]) {
                    assert(!equal_json(xv[i as int], yv[i as int]));
                    return false;
                }
                i += 1;
            }
            true
        },
        (Json::Object(x), Json::Object(y)) => {
            assert(a@ == Json::Object(*x)@ && b@ == Json::Object(*y)@);
            let ghost xv = members_view(x@);
            let ghost yv = members_view(y@);
            assert(xv.len() == x@.len() && yv.len() == y@.len());
            if x.len() != y.len() {
                return false;
            }
            let mut i: usize = 0;
            while i < x.len()
                invariant
                    i <= x@.len() == y@.len(),
                    a matches Json::Object(w) && w == x,
                    xv == members_view(x@),
                    yv == members_view(y@),
                    a@ == JsonV::Object(xv),
                    b@ == JsonV::Object(yv),
                    forall|k: int|
                        0 <= k < i ==> (#[trigger] xv[k]).key == yv[k].key && equal_json(
                            xv[k].value,
                            yv[k].value,
                        ),
                decreases x@.len() - i,
            {
                assert(xv[i as int].key == x@[i as int].key@ && yv[i as int].key
                    == y@[i as int].key@);
                assert(xv[i as int].value == x@[i as int].value@ && yv[i as int].value
                    == y@[i as int].value@);
                if !same(x[i].key.as_str(), y[i].key.as_str()) || !same_json(
                    &x[i].value,
                    &y[i].value,
                ) {
                    assert(!(xv[i as int].key == yv[i as int].key && equal_json(
                        xv[i as int].value,
                        yv[i as int].value,
                    )));
                    return false;
                }
                i += 1;
            }
            true
        },
        _ => false,
    }
}

// ---------------------------------------------------------------------------
// JSON text
// ---------------------------------------------------------------------------
/// `serde_json::Value`, carried between the calls that read and print JSON text.
#[verifier::external_type_specification]
#[verifier::external_body]
pub struct ExValue(serde_json::Value);

/// What `serde_json::from_str` reads from the text: the value, or the message of
/// its error.
pub uninterp spec fn json_read(text: Seq<char>) -> Result<JsonV, Seq<char>>;

/// What `serde_json::to_string` prints of the value.
pub uninterp spec fn json_print(value: JsonV) -> Seq<char>;

/// What `serde_json::to_string_pretty` prints of the value.
pub uninterp spec fn json_print_pretty(value: JsonV) -> Seq<char>;

/// Moves a `serde_json::Value` into a `Json`, variant by variant; a number becomes
/// the text that `serde_json::Number` displays.
#[verifier::external_body]
fn from_value(value: serde_json::Value) -> Json {
    match value {
        serde_json::Value::Null => Json::Null,
        serde_json::Value::Bool(b) => Json::Bool(b),
        serde_json::Value::Number(n) => Json::Number(n.to_string()),
        serde_json::Value::String(s) => Json::Text(s),
        serde_json::Value::Array(v) => Json::Array(v.into_iter().map(from_value).collect()),
        serde_json::Value::Object(m) => {
            Json::Object(m.into_iter().map(|(key, v)| Member { key, value: from_value(v) }).collect())
        },
    }
}

/// Moves a `Json` into a `serde_json::Value`, variant by variant; the text of a
/// number is read by `serde_json::from_str`, and text that is no number stays a
/// string.
#[verifier::external_body]
fn to_value(json: &Json) -> serde_json::Value {
    match json {
        Json::Null => serde_json::Value::Null,
        Json::Bool(b) => serde_json::Value::Bool(*b),
        Json::Number(n) => {
            serde_json::from_str(n).unwrap_or_else(|_| serde_json::Value::String(n.clone()))
        },
        Json::Text(s) => serde_json::Value::String(s.clone()),
        Json::Array(v) => serde_json::Value::Array(v.iter().map(to_value).collect()),
        Json::Object(m) => {
            serde_json::Value::Object(m.iter().map(|m| (m.key.clone(), to_value(&m.value))).collect())
        },
    }
}

/// `serde_json::from_str` of a `Value`: what it reads, or its error's message, is a
/// function of the text. Text that starts with a square bracket holds an array or
/// nothing that can be read. Of text that starts with a brace nothing more is said: an
/// object whose first key is `RAW_VALUE_KEY` is read as what its text holds.
#[verifier::external_body]
pub(crate) fn read_json(text: &str) -> (r: Result<Json, String>)
    ensures
        match r {
            Ok(j) => json_read(text@) == Ok::<JsonV, Seq<char>>(j@),
            Err(e) => json_read(text@) == Err::<JsonV, Seq<char>>(e@),
        },
        r is Ok && text@.len() > 0 && text@[0] == '[' ==> r->Ok_0@ is Array,
{
    match serde_json::from_str::<serde_json::Value>(text) {
        Ok(value) => Ok(from_value(value)),
        Err(error) => Err(error.to_string()),
    }
}

/// The key that `serde_json` keeps for itself: where it comes first in an object, the
/// object stands for the JSON that its value holds as text.
pub const RAW_VALUE_KEY: &'static str = "$serde_json::private::RawValue";

/// How deep arrays and objects may nest for `serde_json::from_str` to read them.
pub const MAX_NESTING: usize = 127;

/// Whether a value nests no deeper than a number of levels, and holds numbers that are
/// integers of 64 bits and objects whose keys are in order and do not start with the one
/// that `serde_json` keeps for itself.
pub open spec fn storable(v: JsonV, depth: int) -> bool
    decreases v,
{
    match v {
        JsonV::Number(t) => exists|n: int|
            i64::MIN <= n <= u64::MAX && t == #[trigger] decimal_int(n),
        JsonV::Array(a) => depth > 0 && (forall|i: int|
            0 <= i < a.len() ==> storable(#[trigger] a[i], depth - 1)),
        JsonV::Object(m) => depth > 0 && keys_ordered(m) && (m.len() > 0 ==> m[0].key
            != RAW_VALUE_KEY@) && (forall|i: int|
            0 <= i < m.len() ==> storable((#[trigger] m[i]).value, depth - 1)),
        _ => true,
    }
}

/// Whether a text is read as a value.
pub open spec fn reads_as(text: Seq<char>, v: JsonV) -> bool {
    json_read(text) == Ok::<JsonV, Seq<char>>(v)
}

/// The `Display` of `serde_json::Value`, which is `serde_json::to_string`: the text
/// is a function of the value. A value that is `storable` is what
/// `serde_json::from_str` reads back of the text.
#[verifier::external_body]
pub(crate) fn print_json(json: &Json) -> (r: String)
    ensures
        r@ == json_print(json@),
        storable(json@, MAX_NESTING as int) ==> reads_as(r@, json@),
{
    to_value(json).to_string()
}

/// `serde_json::to_string_pretty`: the text is a function of the value.
#[verifier::external_body]
pub(crate) fn print_json_pretty(json: &Json) -> (r: String)
    ensures
        r@ == json_print_pretty(json@),
{
    serde_json::to_string_pretty(&to_value(json)).unwrap_or_default()
}

impl Json {
    /// The value that a JSON text writes.
    pub fn parse(text: &str) -> (r: Result<Json, String>)
        ensures
            match r {
                Ok(j) => json_read(text@) == Ok::<JsonV, Seq<char>>(j@),
                Err(e) => json_read(text@) == Err::<JsonV, Seq<char>>(e@),
            },
    {
        read_json(text)
    }

    /// The value as a JSON text.
    pub fn to_text(&self) -> (r: String)
        ensures
            r@ == json_print(self@),
            storable(self@, MAX_NESTING as int) ==> reads_as(r@, self@),
    {
        print_json(self)
    }
}

/// What `serde_yaml::to_string` prints of the value.
pub uninterp spec fn yaml_print(value: JsonV) -> Seq<char>;

/// `serde_yaml::to_string`, which prints every JSON value: the text is a function of the
/// value.
#[verifier::external_body]
pub(crate) fn print_yaml(json: &Json) -> (r: String)
    ensures
        r@ == yaml_print(json@),
{
    serde_yaml::to_string(&to_value(json)).unwrap_or_default()
}

} // verus!
