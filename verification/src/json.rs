//! A JSON document model with the same shape as `serde_json::Value`.
use vstd::prelude::*;

verus! {

/// A JSON number, split as `serde_json::Number` splits it: non-negative
/// integers, negative integers, and other numbers, the last kept as the
/// decimal text they were written with.
pub enum JsonNumber {
    PosInt(u64),
    NegInt(i64),
    Float(String),
}

/// A JSON value. Objects keep their members in a vector of key/value pairs.
pub enum JsonValue {
    Null,
    Bool(bool),
    Number(JsonNumber),
    Str(String),
    Array(Vec<JsonValue>),
    Object(Vec<(String, JsonValue)>),
}

/// The mathematical model of a JSON number.
pub enum NumberModel {
    PosInt(u64),
    NegInt(i64),
    Float(Seq<char>),
}

/// The mathematical model of a JSON value.
pub enum Json {
    Null,
    Bool(bool),
    Number(NumberModel),
    Str(Seq<char>),
    Array(Seq<Json>),
    Object(Seq<(Seq<char>, Json)>),
}

impl JsonNumber {
    pub open spec fn model(&self) -> NumberModel {
        match self {
            JsonNumber::PosInt(u) => NumberModel::PosInt(*u),
            JsonNumber::NegInt(i) => NumberModel::NegInt(*i),
            JsonNumber::Float(s) => NumberModel::Float(s@),
        }
    }
}

impl JsonValue {
    pub open spec fn model(self) -> Json
        decreases self, 0nat,
    {
        match self {
            JsonValue::Null => Json::Null,
            JsonValue::Bool(b) => Json::Bool(b),
            JsonValue::Number(n) => Json::Number(n.model()),
            JsonValue::Str(s) => Json::Str(s@),
            JsonValue::Array(items) => Json::Array(items_model(items@, items@.len())),
            JsonValue::Object(members) => Json::Object(members_model(members@, members@.len())),
        }
    }
}

/// The models of the first `n` items.
pub open spec fn items_model(s: Seq<JsonValue>, n: nat) -> Seq<Json>
    decreases s, n,
{
    if n == 0 || n > s.len() {
        Seq::empty()
    } else {
        items_model(s, (n - 1) as nat).push(s[n - 1].model())
    }
}

/// The models of the first `n` members.
pub open spec fn members_model(s: Seq<(String, JsonValue)>, n: nat) -> Seq<(Seq<char>, Json)>
    decreases s, n,
{
    if n == 0 || n > s.len() {
        Seq::empty()
    } else {
        members_model(s, (n - 1) as nat).push((s[n - 1].0@, s[n - 1].1.model()))
    }
}


pub proof fn lemma_items_model(s: Seq<JsonValue>, n: nat)
    requires
        n <= s.len(),
    ensures
        items_model(s, n).len() == n,
        forall|i: int| 0 <= i < n ==> #[trigger] items_model(s, n)[i] == s[i].model(),
    decreases n,
{
    if n > 0 {
        lemma_items_model(s, (n - 1) as nat);
    }
}

pub proof fn lemma_members_model(s: Seq<(String, JsonValue)>, n: nat)
    requires
        n <= s.len(),
    ensures
        members_model(s, n).len() == n,
        forall|i: int|
            0 <= i < n ==> #[trigger] members_model(s, n)[i] == (s[i].0@, s[i].1.model()),
    decreases n,
{
    if n > 0 {
        lemma_members_model(s, (n - 1) as nat);
    }
}

impl JsonNumber {
    pub fn deep_clone(&self) -> (out: JsonNumber)
        ensures
            out.model() == self.model(),
    {
        match self {
            JsonNumber::PosInt(u) => JsonNumber::PosInt(*u),
            JsonNumber::NegInt(i) => JsonNumber::NegInt(*i),
            JsonNumber::Float(s) => JsonNumber::Float(s.clone()),
        }
    }
}

impl JsonValue {
    /// A copy of the value, member for member.
    pub fn deep_clone(&self) -> (out: JsonValue)
        ensures
            out.model() == self.model(),
        decreases self, 0nat,
    {
        match self {
            JsonValue::Null => JsonValue::Null,
            JsonValue::Bool(b) => JsonValue::Bool(*b),
            JsonValue::Number(n) => JsonValue::Number(n.deep_clone()),
            JsonValue::Str(s) => JsonValue::Str(s.clone()),
            JsonValue::Array(items) => {
                let out = clone_items(items);
                proof {
                    lemma_items_model(items@, items@.len());
                    lemma_items_model(out@, out@.len());
                    assert(items_model(out@, out@.len()) =~= items_model(items@, items@.len()));
                }
                JsonValue::Array(out)
            },
            JsonValue::Object(members) => {
                let out = clone_members(members);
                proof {
                    lemma_members_model(members@, members@.len());
                    lemma_members_model(out@, out@.len());
                    assert(members_model(out@, out@.len()) =~= members_model(
                        members@,
                        members@.len(),
                    ));
                }
                JsonValue::Object(out)
            },
        }
    }
}

pub fn clone_items(items: &Vec<JsonValue>) -> (out: Vec<JsonValue>)
    ensures
        out@.len() == items@.len(),
        forall|i: int| 0 <= i < items@.len() ==> #[trigger] out@[i].model() == items@[i].model(),
    decreases items, 1nat,
{
    let mut out: Vec<JsonValue> = Vec::new();
    let mut i: usize = 0;
    while i < items.len()
        invariant
            i <= items@.len(),
            out@.len() == i,
            forall|j: int| 0 <= j < i ==> #[trigger] out@[j].model() == items@[j].model(),
        decreases items@.len() - i,
    {
        proof {
            assert(decreases_to!(items => items@));
            assert(decreases_to!(items@ => items@[i as int]));
        }
        let c = items[i].deep_clone();
        out.push(c);
        i = i + 1;
    }
    out
}

pub fn clone_members(members: &Vec<(String, JsonValue)>) -> (out: Vec<(String, JsonValue)>)
    ensures
        out@.len() == members@.len(),
        forall|i: int|
            0 <= i < members@.len() ==> #[trigger] out@[i].0@ == members@[i].0@
                && out@[i].1.model() == members@[i].1.model(),
    decreases members, 1nat,
{
    let mut out: Vec<(String, JsonValue)> = Vec::new();
    let mut i: usize = 0;
    while i < members.len()
        invariant
            i <= members@.len(),
            out@.len() == i,
            forall|j: int|
                0 <= j < i ==> #[trigger] out@[j].0@ == members@[j].0@ && out@[j].1.model()
                    == members@[j].1.model(),
        decreases members@.len() - i,
    {
        proof {
            assert(decreases_to!(members => members@));
            assert(decreases_to!(members@ => members@[i as int]));
            assert(decreases_to!(members@[i as int] => members@[i as int].1));
        }
        let k = members[i].0.clone();
        let v = members[i].1.deep_clone();
        out.push((k, v));
        i = i + 1;
    }
    out
}


/// Index of the last member whose key is `key`, among the first `n`.
pub open spec fn last_key_index(m: Seq<(Seq<char>, Json)>, key: Seq<char>, n: nat) -> Option<int>
    decreases n,
{
    if n == 0 || n > m.len() {
        None
    } else if m[n - 1].0 == key {
        Some(n - 1)
    } else {
        last_key_index(m, key, (n - 1) as nat)
    }
}

pub proof fn lemma_last_key_index(m: Seq<(Seq<char>, Json)>, key: Seq<char>, n: nat)
    requires
        n <= m.len(),
    ensures
        last_key_index(m, key, n) matches Some(i) ==> 0 <= i < n && m[i].0 == key,
        last_key_index(m, key, n) is None ==> forall|j: int| 0 <= j < n ==> m[j].0 != key,
    decreases n,
{
    if n > 0 {
        lemma_last_key_index(m, key, (n - 1) as nat);
    }
}

/// The value of the member `key` of an object's member list.
pub open spec fn member_get(m: Seq<(Seq<char>, Json)>, key: Seq<char>) -> Option<Json> {
    match last_key_index(m, key, m.len()) {
        Some(i) => Some(m[i].1),
        None => None,
    }
}

impl Json {
    /// What `serde_json::Value::get` with a string key gives.
    pub open spec fn get(self, key: Seq<char>) -> Option<Json> {
        match self {
            Json::Object(m) => member_get(m, key),
            _ => None,
        }
    }

    pub open spec fn is_object(self) -> bool {
        self is Object
    }

    pub open spec fn as_str(self) -> Option<Seq<char>> {
        match self {
            Json::Str(s) => Some(s),
            _ => None,
        }
    }

    pub open spec fn as_bool(self) -> Option<bool> {
        match self {
            Json::Bool(b) => Some(b),
            _ => None,
        }
    }

    /// What `serde_json::Value::as_i64` gives.
    pub open spec fn as_i64(self) -> Option<i64> {
        match self {
            Json::Number(NumberModel::PosInt(u)) => if u <= i64::MAX {
                Some(u as i64)
            } else {
                None
            },
            Json::Number(NumberModel::NegInt(i)) => Some(i),
            _ => None,
        }
    }

    /// What `serde_json::Value::as_u64` gives.
    pub open spec fn as_u64(self) -> Option<u64> {
        match self {
            Json::Number(NumberModel::PosInt(u)) => Some(u),
            _ => None,
        }
    }

    pub open spec fn as_array(self) -> Option<Seq<Json>> {
        match self {
            Json::Array(a) => Some(a),
            _ => None,
        }
    }
}

/// Position of the last member named `key`.
pub fn find_member(members: &Vec<(String, JsonValue)>, key: &String) -> (r: Option<usize>)
    ensures
        ({
            let m = members_model(members@, members@.len());
            match r {
                Some(i) => last_key_index(m, key@, m.len()) == Some(i as int),
                None => last_key_index(m, key@, m.len()) is None,
            }
        }),
{
    let ghost m = members_model(members@, members@.len());
    proof {
        lemma_members_model(members@, members@.len());
    }
    let mut i: usize = members.len();
    while i > 0
        invariant
            i <= members@.len(),
            m == members_model(members@, members@.len()),
            m.len() == members@.len(),
            forall|j: int| 0 <= j < members@.len() ==> #[trigger] m[j] == (members@[j].0@, members@[j].1.model()),
            last_key_index(m, key@, m.len()) == last_key_index(m, key@, i as nat),
        decreases i,
    {
        if members[i - 1].0 == *key {
            return Some(i - 1);
        }
        i = i - 1;
    }
    None
}

impl JsonValue {
    pub fn is_object(&self) -> (b: bool)
        ensures
            b == self.model().is_object(),
    {
        match self {
            JsonValue::Object(_) => true,
            _ => false,
        }
    }

    /// The member `key` of an object; `None` for a missing key or a value
    /// that is not an object.
    pub fn get(&self, key: &str) -> (r: Option<&JsonValue>)
        ensures
            match r {
                Some(v) => self.model().get(key@) == Some(v.model()),
                None => self.model().get(key@) is None,
            },
    {
        match self {
            JsonValue::Object(members) => {
                let k = key.to_owned();
                let found = find_member(members, &k);
                proof {
                    lemma_members_model(members@, members@.len());
                    lemma_last_key_index(members_model(members@, members@.len()), k@, members@.len());
                }
                match found {
                    Some(i) => {
                        Some(&members[i].1)
                    },
                    None => None,
                }
            },
            _ => None,
        }
    }

    pub fn as_str(&self) -> (r: Option<&String>)
        ensures
            match r {
                Some(s) => self.model().as_str() == Some(s@),
                None => self.model().as_str() is None,
            },
    {
        match self {
            JsonValue::Str(s) => Some(s),
            _ => None,
        }
    }

    pub fn as_bool(&self) -> (r: Option<bool>)
        ensures
            r == self.model().as_bool(),
    {
        match self {
            JsonValue::Bool(b) => Some(*b),
            _ => None,
        }
    }

    pub fn as_i64(&self) -> (r: Option<i64>)
        ensures
            r == self.model().as_i64(),
    {
        match self {
            JsonValue::Number(JsonNumber::PosInt(u)) => if *u <= 0x7fff_ffff_ffff_ffffu64 {
                Some(*u as i64)
            } else {
                None
            },
            JsonValue::Number(JsonNumber::NegInt(i)) => Some(*i),
            _ => None,
        }
    }

    pub fn as_u64(&self) -> (r: Option<u64>)
        ensures
            r == self.model().as_u64(),
    {
        match self {
            JsonValue::Number(JsonNumber::PosInt(u)) => Some(*u),
            _ => None,
        }
    }

    pub fn as_array(&self) -> (r: Option<&Vec<JsonValue>>)
        ensures
            match r {
                Some(a) => self.model().as_array() == Some(items_model(a@, a@.len())),
                None => self.model().as_array() is None,
            },
    {
        match self {
            JsonValue::Array(a) => Some(a),
            _ => None,
        }
    }
}


/// The member list of `merge_replace(Object(d), Object(s))` after the first
/// `n` members of `s` went in: a key already present gets its value merged
/// with the incoming one, a new key is appended.
pub open spec fn merge_members(
    d: Seq<(Seq<char>, Json)>,
    s: Seq<(Seq<char>, Json)>,
    n: nat,
) -> Seq<(Seq<char>, Json)>
    decreases s, n,
{
    if n == 0 || n > s.len() {
        d
    } else {
        let acc = merge_members(d, s, (n - 1) as nat);
        let k = s[n - 1].0;
        upsert_member(acc, k, merge_replace(get_or_null(acc, k), s[n - 1].1))
    }
}

/// The value of member `key`, or `Null` where there is none.
pub open spec fn get_or_null(m: Seq<(Seq<char>, Json)>, key: Seq<char>) -> Json {
    match member_get(m, key) {
        Some(v) => v,
        None => Json::Null,
    }
}

/// The member list with `key` set to `value`: the last member named `key`
/// is overwritten, or a new member is appended.
pub open spec fn upsert_member(m: Seq<(Seq<char>, Json)>, key: Seq<char>, value: Json) -> Seq<
    (Seq<char>, Json),
> {
    match last_key_index(m, key, m.len()) {
        Some(i) => m.update(i, (key, value)),
        None => m.push((key, value)),
    }
}

/// Recursive replace-merge of `src` into `dst`: two objects merge member by
/// member; in every other case `src` replaces `dst`.
pub open spec fn merge_replace(dst: Json, src: Json) -> Json
    decreases src, 0nat,
{
    match src {
        Json::Object(s) => match dst {
            Json::Object(d) => Json::Object(merge_members(d, s, s.len())),
            _ => src,
        },
        _ => src,
    }
}

/// Every object, at every depth, has distinct keys (as every object that
/// `serde_json` builds has).
pub open spec fn well_formed(j: Json) -> bool
    decreases j,
{
    match j {
        Json::Array(a) => forall|i: int| 0 <= i < a.len() ==> well_formed(#[trigger] a[i]),
        Json::Object(m) => {
            &&& distinct_keys(m)
            &&& forall|i: int| 0 <= i < m.len() ==> well_formed(#[trigger] m[i].1)
        },
        _ => true,
    }
}

pub open spec fn distinct_keys(m: Seq<(Seq<char>, Json)>) -> bool {
    forall|i: int, j: int| 0 <= i < j < m.len() ==> m[i].0 != m[j].0
}

pub proof fn lemma_members_model_ext(a: Seq<(String, JsonValue)>, b: Seq<(String, JsonValue)>)
    requires
        a.len() == b.len(),
        forall|i: int| 0 <= i < a.len() ==> #[trigger] a[i].0@ == b[i].0@ && a[i].1.model() == b[i].1.model(),
    ensures
        members_model(a, a.len()) == members_model(b, b.len()),
{
    lemma_members_model(a, a.len());
    lemma_members_model(b, b.len());
    assert(members_model(a, a.len()) =~= members_model(b, b.len()));
}

/// Merges `src` into `dst` in place: where both are objects, each member of
/// `src` is merged into the member of `dst` with the same key (which is
/// created when missing); otherwise `dst` becomes a copy of `src`.
pub fn merge_json_replace(dst: &mut JsonValue, src: &JsonValue)
    ensures
        final(dst).model() == merge_replace(old(dst).model(), src.model()),
    decreases src, 0nat,
{
    match src {
        JsonValue::Object(src_members) => {
            let mut taken = JsonValue::Null;
            std::mem::swap(dst, &mut taken);
            match taken {
                JsonValue::Object(mut members) => {
                    proof {
                        lemma_members_model(src_members@, src_members@.len());
                    }
                    merge_members_into(&mut members, src_members);
                    *dst = JsonValue::Object(members);
                },
                _ => {
                    *dst = src.deep_clone();
                },
            }
        },
        _ => {
            *dst = src.deep_clone();
        },
    }
}

fn merge_members_into(d: &mut Vec<(String, JsonValue)>, s: &Vec<(String, JsonValue)>)
    ensures
        members_model(final(d)@, final(d)@.len()) == merge_members(
            members_model(old(d)@, old(d)@.len()),
            members_model(s@, s@.len()),
            s@.len(),
        ),
    decreases s, 1nat,
{
    let ghost d0 = members_model(d@, d@.len());
    let ghost sm = members_model(s@, s@.len());
    proof {
        lemma_members_model(s@, s@.len());
    }
    let mut i: usize = 0;
    while i < s.len()
        invariant
            i <= s@.len(),
            sm == members_model(s@, s@.len()),
            sm.len() == s@.len(),
            forall|j: int| 0 <= j < s@.len() ==> #[trigger] sm[j] == (s@[j].0@, s@[j].1.model()),
            members_model(d@, d@.len()) == merge_members(d0, sm, i as nat),
        decreases s@.len() - i,
    {
        let ghost acc = members_model(d@, d@.len());
        let ghost before = d@;
        proof {
            lemma_members_model(d@, d@.len());
            assert(decreases_to!(s => s@));
            assert(decreases_to!(s@ => s@[i as int]));
            assert(decreases_to!(s@[i as int] => s@[i as int].1));
        }
        let found = find_member(d, &s[i].0);
        proof {
            lemma_last_key_index(acc, s@[i as int].0@, acc.len());
        }
        match found {
            Some(j) => {
                let (k, mut v) = d.remove(j);
                merge_json_replace(&mut v, &s[i].1);
                d.insert(j, (k, v));
                proof {
                    lemma_members_model(d@, d@.len());
                    assert(d@.len() == before.len());
                    assert forall|t: int| 0 <= t < d@.len() implies #[trigger] members_model(d@, d@.len())[t]
                        == acc.update(j as int, (sm[i as int].0, merge_replace(acc[j as int].1, sm[i as int].1)))[t] by {
                        if t == j as int {
                        } else {
                            assert(d@[t] == before[t]);
                        }
                    }
                    assert(members_model(d@, d@.len()) =~= acc.update(j as int, (sm[i as int].0, merge_replace(acc[j as int].1, sm[i as int].1))));
                }
            },
            None => {
                let k = s[i].0.clone();
                let v = s[i].1.deep_clone();
                d.push((k, v));
                proof {
                    lemma_members_model(d@, d@.len());
                    assert forall|t: int| 0 <= t < d@.len() implies #[trigger] members_model(d@, d@.len())[t]
                        == acc.push((sm[i as int].0, merge_replace(Json::Null, sm[i as int].1)))[t] by {
                        if t < before.len() {
                            assert(d@[t] == before[t]);
                        }
                    }
                    assert(members_model(d@, d@.len()) =~= acc.push((sm[i as int].0, merge_replace(Json::Null, sm[i as int].1))));
                }
            },
        }
        i = i + 1;
    }
}


/// The member list without its last member named `key`.
pub open spec fn remove_member(m: Seq<(Seq<char>, Json)>, key: Seq<char>) -> Seq<(Seq<char>, Json)> {
    match last_key_index(m, key, m.len()) {
        Some(i) => m.remove(i),
        None => m,
    }
}

/// Upserting keeps the keys distinct and leaves at least one member.
pub proof fn lemma_upsert_distinct(m: Seq<(Seq<char>, Json)>, key: Seq<char>, value: Json)
    requires
        distinct_keys(m),
    ensures
        distinct_keys(upsert_member(m, key, value)),
        upsert_member(m, key, value).len() > 0,
        has_member(upsert_member(m, key, value), key),
{
    lemma_last_key_index(m, key, m.len());
    let u = upsert_member(m, key, value);
    match last_key_index(m, key, m.len()) {
        Some(i) => {
            assert(u[i].0 == key);
        },
        None => {
            assert(u[m.len() as int].0 == key);
        },
    }
}

/// Removing a member keeps the keys distinct and drops every member named
/// `key`.
pub proof fn lemma_remove_distinct(m: Seq<(Seq<char>, Json)>, key: Seq<char>)
    requires
        distinct_keys(m),
    ensures
        distinct_keys(remove_member(m, key)),
        !has_member(remove_member(m, key), key),
        forall|k: Seq<char>| k != key ==> (has_member(remove_member(m, key), k) <==> has_member(m, k)),
{
    lemma_last_key_index(m, key, m.len());
    let r = remove_member(m, key);
    match last_key_index(m, key, m.len()) {
        Some(i) => {
            assert forall|a: int, b: int| 0 <= a < b < r.len() implies r[a].0 != r[b].0 by {
                let a2 = if a < i { a } else { a + 1 };
                let b2 = if b < i { b } else { b + 1 };
                assert(r[a] == m[a2]);
                assert(r[b] == m[b2]);
            }
            assert forall|t: int| 0 <= t < r.len() implies r[t].0 != key by {
                let t2 = if t < i { t } else { t + 1 };
                assert(r[t] == m[t2]);
            }
            assert forall|k: Seq<char>| k != key implies (has_member(r, k) <==> has_member(m, k)) by {
                if has_member(m, k) {
                    let t = choose|t: int| 0 <= t < m.len() && #[trigger] m[t].0 == k;
                    assert(t != i);
                    let t2 = if t < i { t } else { t - 1 };
                    assert(r[t2] == m[t]);
                }
                if has_member(r, k) {
                    let t = choose|t: int| 0 <= t < r.len() && #[trigger] r[t].0 == k;
                    let t2 = if t < i { t } else { t + 1 };
                    assert(r[t] == m[t2]);
                }
            }
        },
        None => {},
    }
}

/// Whether a member list has a member named `key`.
pub open spec fn has_member(m: Seq<(Seq<char>, Json)>, key: Seq<char>) -> bool {
    exists|i: int| 0 <= i < m.len() && #[trigger] m[i].0 == key
}

/// Sets member `key` to `value`: the member named `key` is overwritten, or
/// a new member is appended.
pub fn upsert_member_into(members: &mut Vec<(String, JsonValue)>, key: String, value: JsonValue)
    ensures
        members_model(final(members)@, final(members)@.len()) == upsert_member(
            members_model(old(members)@, old(members)@.len()),
            key@,
            value.model(),
        ),
{
    let ghost acc = members_model(members@, members@.len());
    let ghost before = members@;
    let ghost kv = (key@, value.model());
    proof {
        lemma_members_model(members@, members@.len());
    }
    let found = find_member(members, &key);
    proof {
        lemma_last_key_index(acc, key@, acc.len());
    }
    match found {
        Some(i) => {
            members.set(i, (key, value));
            proof {
                lemma_members_model(members@, members@.len());
                assert(members_model(members@, members@.len()) =~= acc.update(i as int, kv)) by {
                    assert forall|t: int| 0 <= t < members@.len() implies #[trigger] members_model(
                        members@,
                        members@.len(),
                    )[t] == acc.update(i as int, kv)[t] by {
                        if t != i {
                            assert(members@[t] == before[t]);
                        }
                    }
                }
            }
        },
        None => {
            members.push((key, value));
            proof {
                lemma_members_model(members@, members@.len());
                assert(members_model(members@, members@.len()) =~= acc.push(kv)) by {
                    assert forall|t: int| 0 <= t < members@.len() implies #[trigger] members_model(
                        members@,
                        members@.len(),
                    )[t] == acc.push(kv)[t] by {
                        if t < before.len() {
                            assert(members@[t] == before[t]);
                        }
                    }
                }
            }
        },
    }
}

/// Removes the member named `key`, if there is one.
pub fn remove_member_from(members: &mut Vec<(String, JsonValue)>, key: &String)
    ensures
        members_model(final(members)@, final(members)@.len()) == remove_member(
            members_model(old(members)@, old(members)@.len()),
            key@,
        ),
{
    let ghost acc = members_model(members@, members@.len());
    let ghost before = members@;
    proof {
        lemma_members_model(members@, members@.len());
    }
    let found = find_member(members, key);
    proof {
        lemma_last_key_index(acc, key@, acc.len());
    }
    match found {
        Some(i) => {
            members.remove(i);
            proof {
                lemma_members_model(members@, members@.len());
                assert(members_model(members@, members@.len()) =~= acc.remove(i as int)) by {
                    assert forall|t: int| 0 <= t < members@.len() implies #[trigger] members_model(
                        members@,
                        members@.len(),
                    )[t] == acc.remove(i as int)[t] by {
                        if t < i {
                            assert(members@[t] == before[t]);
                        } else {
                            assert(members@[t] == before[t + 1]);
                        }
                    }
                }
            }
        },
        None => {},
    }
}


/// The models of a vector of values.
pub open spec fn values_model(items: Seq<JsonValue>) -> Seq<Json> {
    Seq::new(items.len(), |i: int| items[i].model())
}

/// An array of the given values.
pub fn array_of(items: Vec<JsonValue>) -> (r: JsonValue)
    ensures
        r.model() == Json::Array(values_model(items@)),
{
    proof {
        lemma_items_model(items@, items@.len());
        assert(items_model(items@, items@.len()) =~= values_model(items@));
    }
    JsonValue::Array(items)
}

/// An object of the given members.
pub fn object_of(members: Vec<(String, JsonValue)>) -> (r: JsonValue)
    ensures
        r.model() == Json::Object(
            Seq::new(members@.len(), |i: int| (members@[i].0@, members@[i].1.model())),
        ),
{
    proof {
        lemma_members_model(members@, members@.len());
        assert(members_model(members@, members@.len()) =~= Seq::new(
            members@.len(),
            |i: int| (members@[i].0@, members@[i].1.model()),
        ));
    }
    JsonValue::Object(members)
}

/// A JSON string.
pub fn text_value(s: &str) -> (r: JsonValue)
    ensures
        r.model() == Json::Str(s@),
{
    JsonValue::Str(s.to_owned())
}

/// A JSON string, or `null` for none.
pub fn opt_text_value(s: &Option<String>) -> (r: JsonValue)
    ensures
        r.model() == match s {
            Some(t) => Json::Str(t@),
            None => Json::Null,
        },
{
    match s {
        Some(t) => JsonValue::Str(t.clone()),
        None => JsonValue::Null,
    }
}

/// A member `key: value`.
pub fn member(key: &str, value: JsonValue) -> (r: (String, JsonValue))
    ensures
        r.0@ == key@,
        r.1.model() == value.model(),
{
    (key.to_owned(), value)
}

} // verus!
