//! Laws of the replace-merge that configuration patches go through.
use vstd::prelude::*;
use crate::json::{
    distinct_keys, get_or_null, last_key_index, lemma_last_key_index, member_get, merge_members,
    merge_replace, upsert_member, well_formed, Json,
};

verus! {

proof fn lemma_same_keys_same_index(
    a: Seq<(Seq<char>, Json)>,
    b: Seq<(Seq<char>, Json)>,
    key: Seq<char>,
    n: nat,
)
    requires
        n <= a.len(),
        n <= b.len(),
        forall|t: int| 0 <= t < n ==> #[trigger] a[t].0 == b[t].0,
    ensures
        last_key_index(a, key, n) == last_key_index(b, key, n),
    decreases n,
{
    if n > 0 {
        lemma_same_keys_same_index(a, b, key, (n - 1) as nat);
    }
}

proof fn lemma_distinct_last_index(m: Seq<(Seq<char>, Json)>, i: int, n: nat)
    requires
        distinct_keys(m),
        0 <= i < n <= m.len(),
    ensures
        last_key_index(m, m[i].0, n) == Some(i),
    decreases n,
{
    if n - 1 != i {
        lemma_distinct_last_index(m, i, (n - 1) as nat);
    }
}

/// Reading a member back after it was set gives what was set; other members
/// are untouched.
pub proof fn lemma_upsert_get(m: Seq<(Seq<char>, Json)>, k: Seq<char>, w: Json, k2: Seq<char>)
    ensures
        member_get(upsert_member(m, k, w), k2) == if k2 == k {
            Some(w)
        } else {
            member_get(m, k2)
        },
{
    lemma_last_key_index(m, k, m.len());
    lemma_last_key_index(m, k2, m.len());
    match last_key_index(m, k, m.len()) {
        Some(i) => {
            let u = m.update(i, (k, w));
            lemma_same_keys_same_index(u, m, k2, m.len());
        },
        None => {
            let u = m.push((k, w));
            lemma_same_keys_same_index(u, m, k2, m.len());
        },
    }
}

/// What a member of `merge_members(d, s, n)` holds.
proof fn lemma_merge_members_get(
    d: Seq<(Seq<char>, Json)>,
    s: Seq<(Seq<char>, Json)>,
    n: nat,
    k: Seq<char>,
)
    requires
        distinct_keys(s),
        n <= s.len(),
    ensures
        member_get(merge_members(d, s, n), k) == match last_key_index(s, k, n) {
            Some(i) => Some(merge_replace(get_or_null(d, k), s[i].1)),
            None => member_get(d, k),
        },
    decreases n,
{
    if n > 0 {
        let kn = s[n - 1].0;
        let acc = merge_members(d, s, (n - 1) as nat);
        lemma_merge_members_get(d, s, (n - 1) as nat, k);
        lemma_merge_members_get(d, s, (n - 1) as nat, kn);
        lemma_last_key_index(s, kn, (n - 1) as nat);
        lemma_last_key_index(s, k, (n - 1) as nat);
        lemma_upsert_get(acc, kn, merge_replace(get_or_null(acc, kn), s[n - 1].1), k);
    }
}

/// Merging a well-formed value into itself changes nothing.
pub proof fn lemma_merge_self(x: Json)
    requires
        well_formed(x),
    ensures
        merge_replace(x, x) == x,
    decreases x, 0nat,
{
    match x {
        Json::Object(m) => {
            lemma_merge_members_self(m, m.len());
        },
        _ => {},
    }
}

proof fn lemma_merge_members_self(m: Seq<(Seq<char>, Json)>, n: nat)
    requires
        distinct_keys(m),
        forall|i: int| 0 <= i < m.len() ==> well_formed(#[trigger] m[i].1),
        n <= m.len(),
    ensures
        merge_members(m, m, n) == m,
    decreases m, n,
{
    if n > 0 {
        lemma_merge_members_self(m, (n - 1) as nat);
        let kn = m[n - 1].0;
        lemma_distinct_last_index(m, n - 1, m.len());
        assert(decreases_to!(m => m[n - 1]));
        lemma_merge_self(m[n - 1].1);
        assert(m.update(n - 1, (kn, m[n - 1].1)) =~= m);
    }
}

/// Merge law: merging the same well-formed patch twice gives what merging it
/// once gives.
pub proof fn lemma_merge_idempotent(dst: Json, src: Json)
    requires
        well_formed(src),
    ensures
        merge_replace(merge_replace(dst, src), src) == merge_replace(dst, src),
    decreases src, 0nat,
{
    match src {
        Json::Object(s) => match dst {
            Json::Object(d) => {
                lemma_merge_members_stable(d, s, s.len());
            },
            _ => {
                lemma_merge_self(src);
            },
        },
        _ => {},
    }
}

proof fn lemma_merge_members_stable(d: Seq<(Seq<char>, Json)>, s: Seq<(Seq<char>, Json)>, n: nat)
    requires
        distinct_keys(s),
        forall|i: int| 0 <= i < s.len() ==> well_formed(#[trigger] s[i].1),
        n <= s.len(),
    ensures
        merge_members(merge_members(d, s, s.len()), s, n) == merge_members(d, s, s.len()),
    decreases s, n,
{
    if n > 0 {
        let t = merge_members(d, s, s.len());
        lemma_merge_members_stable(d, s, (n - 1) as nat);
        let kn = s[n - 1].0;
        let vn = s[n - 1].1;
        lemma_distinct_last_index(s, n - 1, s.len());
        lemma_merge_members_get(d, s, s.len(), kn);
        let x = get_or_null(d, kn);
        assert(decreases_to!(s => s[n - 1]));
        lemma_merge_idempotent(x, vn);
        lemma_last_key_index(t, kn, t.len());
        let i = last_key_index(t, kn, t.len())->0;
        assert(t.update(i, (kn, merge_replace(x, vn))) =~= t);
    }
}

/// Merge law: in the merge of two objects, a key of the well-formed patch
/// holds the merge of the old value (or `Null`) with the patch's value, and
/// every other key keeps its old value.
pub proof fn lemma_merge_get(dst: Json, src: Json, key: Seq<char>)
    requires
        well_formed(src),
        dst is Object,
        src is Object,
    ensures
        merge_replace(dst, src).get(key) == match src.get(key) {
            Some(v) => Some(
                merge_replace(
                    match dst.get(key) {
                        Some(old) => old,
                        None => Json::Null,
                    },
                    v,
                ),
            ),
            None => dst.get(key),
        },
{
    let d = dst->Object_0;
    let s = src->Object_0;
    lemma_merge_members_get(d, s, s.len(), key);
    lemma_last_key_index(s, key, s.len());
}

} // verus!
