//! Association lists keyed by text: the maps of this library, kept in a fixed order so
//! that everything built from them comes out the same on every run.
use vstd::prelude::*;

use crate::text::text_eq;

verus! {

/// The value of the first entry whose key is `k`.
pub open spec fn assoc_get<V>(s: Seq<(Seq<char>, V)>, k: Seq<char>) -> Option<V>
    decreases s.len(),
{
    if s.len() == 0 {
        None
    } else if s[0].0 == k {
        Some(s[0].1)
    } else {
        assoc_get(s.skip(1), k)
    }
}

/// `s` with the first entry whose key is `k` set to `v`; `(k, v)` appended if there is none.
pub open spec fn assoc_put<V>(s: Seq<(Seq<char>, V)>, k: Seq<char>, v: V) -> Seq<(Seq<char>, V)>
    decreases s.len(),
{
    if s.len() == 0 {
        seq![(k, v)]
    } else if s[0].0 == k {
        seq![(k, v)] + s.skip(1)
    } else {
        seq![s[0]] + assoc_put(s.skip(1), k, v)
    }
}

/// No key occurs twice.
pub open spec fn keys_unique<V>(s: Seq<(Seq<char>, V)>) -> bool {
    forall|i: int, j: int| 0 <= i < j < s.len() ==> s[i].0 != s[j].0
}

/// `k` is the key of some entry.
pub open spec fn has_key<V>(s: Seq<(Seq<char>, V)>, k: Seq<char>) -> bool {
    exists|i: int| 0 <= i < s.len() && #[trigger] s[i].0 == k
}

proof fn lemma_get_at<V>(s: Seq<(Seq<char>, V)>, k: Seq<char>, i: int)
    requires
        0 <= i < s.len(),
        s[i].0 == k,
        forall|j: int| 0 <= j < i ==> s[j].0 != k,
    ensures
        assoc_get(s, k) == Some(s[i].1),
    decreases i,
{
    if i > 0 {
        lemma_get_at(s.skip(1), k, i - 1);
    }
}

proof fn lemma_get_none<V>(s: Seq<(Seq<char>, V)>, k: Seq<char>)
    requires
        forall|j: int| 0 <= j < s.len() ==> s[j].0 != k,
    ensures
        assoc_get(s, k) is None,
    decreases s.len(),
{
    if s.len() > 0 {
        lemma_get_none(s.skip(1), k);
    }
}

proof fn lemma_put_at<V>(s: Seq<(Seq<char>, V)>, k: Seq<char>, v: V, i: int)
    requires
        0 <= i < s.len(),
        s[i].0 == k,
        forall|j: int| 0 <= j < i ==> s[j].0 != k,
    ensures
        assoc_put(s, k, v) == s.update(i, (k, v)),
    decreases i,
{
    if i > 0 {
        lemma_put_at(s.skip(1), k, v, i - 1);
        assert(assoc_put(s, k, v) =~= s.update(i, (k, v)));
    } else {
        assert(assoc_put(s, k, v) =~= s.update(i, (k, v)));
    }
}

proof fn lemma_put_none<V>(s: Seq<(Seq<char>, V)>, k: Seq<char>, v: V)
    requires
        forall|j: int| 0 <= j < s.len() ==> s[j].0 != k,
    ensures
        assoc_put(s, k, v) == s.push((k, v)),
    decreases s.len(),
{
    if s.len() > 0 {
        lemma_put_none(s.skip(1), k, v);
        assert(assoc_put(s, k, v) =~= s.push((k, v)));
    } else {
        assert(assoc_put(s, k, v) =~= s.push((k, v)));
    }
}

/// Setting a key keeps the keys unique, and the key then holds the new value.
pub proof fn lemma_put_facts<V>(s: Seq<(Seq<char>, V)>, k: Seq<char>, v: V)
    requires
        keys_unique(s),
    ensures
        keys_unique(assoc_put(s, k, v)),
        assoc_get(assoc_put(s, k, v), k) == Some(v),
        has_key(assoc_put(s, k, v), k),
    decreases s.len(),
{
    if s.len() > 0 {
        let t = s.skip(1);
        assert(keys_unique(t));
        lemma_put_facts(t, k, v);
        if s[0].0 != k {
            let r = assoc_put(s, k, v);
            let rt = assoc_put(t, k, v);
            assert(r == seq![s[0]] + rt);
            assert(r.skip(1) =~= rt);
            assert forall|j: int| 0 <= j < rt.len() implies rt[j].0 != s[0].0 by {
                if rt[j].0 == s[0].0 {
                    lemma_put_keys(t, k, v, rt[j].0);
                    let m = choose|m: int| 0 <= m < t.len() && #[trigger] t[m].0 == rt[j].0;
                    assert(s[m + 1].0 == s[0].0);
                }
            }
            assert(r[0].0 == s[0].0);
            assert(keys_unique(r)) by {
                assert forall|a: int, b: int| 0 <= a < b < r.len() implies r[a].0 != r[b].0 by {
                    if a == 0 {
                        assert(r[b] == rt[b - 1]);
                    } else {
                        assert(r[a] == rt[a - 1] && r[b] == rt[b - 1]);
                    }
                }
            }
            assert(r[1 + (choose|m: int| 0 <= m < rt.len() && #[trigger] rt[m].0 == k)].0 == k);
        } else {
            let r = assoc_put(s, k, v);
            assert(r =~= s.update(0, (k, v)));
            assert(r[0].0 == k);
        }
    } else {
        assert(assoc_put(s, k, v)[0].0 == k);
    }
}

/// Every key after a put is `k` or was a key before.
proof fn lemma_put_keys<V>(s: Seq<(Seq<char>, V)>, k: Seq<char>, v: V, x: Seq<char>)
    requires
        has_key(assoc_put(s, k, v), x),
        x != k,
    ensures
        has_key(s, x),
    decreases s.len(),
{
    let r = assoc_put(s, k, v);
    let i = choose|i: int| 0 <= i < r.len() && #[trigger] r[i].0 == x;
    if s.len() > 0 {
        if s[0].0 == k {
            assert(r[i] == s[i]);
        } else if i == 0 {
            assert(s[0].0 == x);
        } else {
            let rt = assoc_put(s.skip(1), k, v);
            assert(rt[i - 1].0 == x);
            lemma_put_keys(s.skip(1), k, v, x);
            let m = choose|m: int| 0 <= m < s.skip(1).len() && #[trigger] s.skip(1)[m].0 == x;
            assert(s[m + 1].0 == x);
        }
    } else {
        assert(r[i].0 == k);
    }
}

/// Setting one key leaves the value of every other key as it was.
pub proof fn lemma_put_other<V>(s: Seq<(Seq<char>, V)>, k: Seq<char>, v: V, x: Seq<char>)
    requires
        x != k,
    ensures
        assoc_get(assoc_put(s, k, v), x) == assoc_get(s, x),
    decreases s.len(),
{
    if s.len() > 0 {
        let r = assoc_put(s, k, v);
        if s[0].0 == k {
            assert(r.skip(1) =~= s.skip(1));
        } else {
            assert(r.skip(1) =~= assoc_put(s.skip(1), k, v));
            lemma_put_other(s.skip(1), k, v, x);
        }
    } else {
        assert(assoc_put(s, k, v).skip(1) =~= s);
    }
}

/// Where `k` first stands among the keys of `s`.
pub fn find_key<V: DeepView>(s: &Vec<(String, V)>, k: &str) -> (r: Option<usize>)
    ensures
        match r {
            Some(i) => i < s.len() && s.deep_view()[i as int].0 == k@ && forall|j: int|
                0 <= j < i ==> s.deep_view()[j].0 != k@,
            None => forall|j: int| 0 <= j < s.len() ==> s.deep_view()[j].0 != k@,
        },
{
    let mut i: usize = 0;
    while i < s.len()
        invariant
            i <= s.len(),
            forall|j: int| 0 <= j < i ==> s.deep_view()[j].0 != k@,
        decreases s.len() - i,
    {
        assert(s.deep_view()[i as int].0 == s[i as int].0@);
        if text_eq(s[i].0.as_str(), k) {
            return Some(i);
        }
        i = i + 1;
    }
    None
}

/// The value under the key `k`, if there is one.
pub fn get_text(s: &Vec<(String, String)>, k: &str) -> (r: Option<String>)
    ensures
        r.deep_view() == assoc_get(s.deep_view(), k@),
{
    match find_key(s, k) {
        Some(i) => {
            proof {
                lemma_get_at(s.deep_view(), k@, i as int);
            }
            Some(s[i].1.clone())
        },
        None => {
            proof {
                lemma_get_none(s.deep_view(), k@);
            }
            None
        },
    }
}

/// Sets the key `k` to `v`, in place where `k` stands, else at the end.
pub fn put_entry<V: DeepView>(s: &mut Vec<(String, V)>, k: String, v: V)
    ensures
        final(s).deep_view() == assoc_put(old(s).deep_view(), k@, v.deep_view()),
{
    match find_key(s, k.as_str()) {
        Some(i) => {
            proof {
                lemma_put_at(old(s).deep_view(), k@, v.deep_view(), i as int);
            }
            let ghost before = s.deep_view();
            let ghost entry = (k@, v.deep_view());
            s.set(i, (k, v));
            assert(s.deep_view() =~= before.update(i as int, entry));
        },
        None => {
            proof {
                lemma_put_none(old(s).deep_view(), k@, v.deep_view());
            }
            let ghost before = s.deep_view();
            let ghost entry = (k@, v.deep_view());
            s.push((k, v));
            assert(s.deep_view() =~= before.push(entry));
        },
    }
}

} // verus!
