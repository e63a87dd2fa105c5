//! Association lists keyed by strings and kept in ascending key order — the
//! model of a `BTreeMap<String, V>`: inserting an existing key replaces its
//! value (and keeps the key), iteration is in key order.
use vstd::prelude::*;
use crate::text::{
    lemma_char_code_injective, lemma_seq_lt_irreflexive, lemma_seq_lt_trichotomy, seq_lt, str_eq, str_lt,
};

verus! {

/// Keys strictly ascending: sorted, and no key twice.
pub open spec fn keys_sorted<V>(m: Seq<(String, V)>) -> bool {
    forall|i: int, j: int| 0 <= i < j < m.len() ==> seq_lt(#[trigger] m[i].0@, #[trigger] m[j].0@)
}

/// `BTreeMap::insert`: replace the value of an equal key, else insert in order.
pub open spec fn spec_upsert<V>(m: Seq<(String, V)>, k: String, v: V) -> Seq<(String, V)>
    decreases m.len(),
{
    if m.len() == 0 {
        seq![(k, v)]
    } else if m[0].0@ == k@ {
        seq![(m[0].0, v)] + m.drop_first()
    } else if seq_lt(k@, m[0].0@) {
        seq![(k, v)] + m
    } else {
        seq![m[0]] + spec_upsert(m.drop_first(), k, v)
    }
}

/// `collect::<BTreeMap<_, _>>()`: insert every pair in order, later pairs
/// replacing the values of earlier equal keys.
pub open spec fn spec_collect<V>(items: Seq<(String, V)>) -> Seq<(String, V)>
    decreases items.len(),
{
    if items.len() == 0 {
        seq![]
    } else {
        spec_upsert(spec_collect(items.drop_last()), items.last().0, items.last().1)
    }
}

/// The value stored under `k`, if any.
pub open spec fn spec_get<V>(m: Seq<(String, V)>, k: Seq<char>) -> Option<V>
    decreases m.len(),
{
    if m.len() == 0 {
        None
    } else if m[0].0@ == k {
        Some(m[0].1)
    } else {
        spec_get(m.drop_first(), k)
    }
}

pub proof fn lemma_lt_asym(a: Seq<char>, b: Seq<char>)
    requires
        seq_lt(a, b),
    ensures
        !seq_lt(b, a),
        a != b,
{
    lemma_seq_lt_trichotomy(a, b);
}

proof fn lemma_upsert_at<V>(m: Seq<(String, V)>, k: String, v: V, i: int)
    requires
        0 <= i <= m.len(),
        forall|j: int| 0 <= j < i ==> seq_lt((#[trigger] m[j]).0@, k@),
        i == m.len() || !seq_lt(m[i].0@, k@),
    ensures
        spec_upsert(m, k, v) == (if i < m.len() && m[i].0@ == k@ {
            m.take(i).push((m[i].0, v)) + m.skip(i + 1)
        } else {
            m.take(i).push((k, v)) + m.skip(i)
        }),
    decreases i,
{
    if i == 0 {
        if m.len() == 0 {
            assert(m.take(0).push((k, v)) + m.skip(0) =~= seq![(k, v)]);
        } else if m[0].0@ == k@ {
            assert(m.take(0).push((m[0].0, v)) + m.skip(1) =~= seq![(m[0].0, v)] + m.drop_first());
        } else {
            lemma_seq_lt_trichotomy(m[0].0@, k@);
            assert(m.take(0).push((k, v)) + m.skip(0) =~= seq![(k, v)] + m);
        }
    } else {
        lemma_lt_asym(m[0].0@, k@);
        let t = m.drop_first();
        assert forall|j: int| 0 <= j < i - 1 implies seq_lt((#[trigger] t[j]).0@, k@) by {
            assert(t[j] == m[j + 1]);
        }
        lemma_upsert_at(t, k, v, i - 1);
        if i < m.len() && m[i].0@ == k@ {
            assert(seq![m[0]] + (t.take(i - 1).push((t[i - 1].0, v)) + t.skip(i)) =~= m.take(
                i,
            ).push((m[i].0, v)) + m.skip(i + 1));
        } else {
            assert(seq![m[0]] + (t.take(i - 1).push((k, v)) + t.skip(i - 1)) =~= m.take(i).push(
                (k, v),
            ) + m.skip(i));
        }
    }
}

/// `BTreeMap::insert` on the association list.
pub fn upsert<V>(m: &mut Vec<(String, V)>, k: String, v: V)
    ensures
        final(m)@ == spec_upsert(old(m)@, k, v),
{
    let mut i: usize = 0;
    while i < m.len() && str_lt(m[i].0.as_str(), k.as_str())
        invariant
            i <= m.len(),
            m@ == old(m)@,
            forall|j: int| 0 <= j < i ==> seq_lt((#[trigger] m@[j]).0@, k@),
        decreases m.len() - i,
    {
        i = i + 1;
    }
    let ghost before = m@;
    proof {
        lemma_upsert_at(before, k, v, i as int);
    }
    if i < m.len() && str_eq(m[i].0.as_str(), k.as_str()) {
        let (key, _old) = m.remove(i);
        m.insert(i, (key, v));
        assert(m@ =~= before.take(i as int).push((before[i as int].0, v)) + before.skip(i + 1));
    } else {
        m.insert(i, (k, v));
        assert(m@ =~= before.take(i as int).push((k, v)) + before.skip(i as int));
    }
}

/// `collect::<BTreeMap<_, _>>()` on the association list.
pub fn collect<V>(items: Vec<(String, V)>) -> (m: Vec<(String, V)>)
    ensures
        m@ == spec_collect(items@),
{
    let mut rest = items;
    let ghost all = rest@;
    let total: usize = rest.len();
    let mut queue: Vec<(String, V)> = Vec::new();
    proof {
        assert(all.take(all.len() as int) =~= all);
    }
    while rest.len() > 0
        invariant
            all.len() == rest.len() + queue.len(),
            all.len() == total,
            rest@ == all.take(rest.len() as int),
            forall|k: int| 0 <= k < queue.len() ==> queue@[k] == all[all.len() - 1 - k],
        decreases rest.len(),
    {
        let x = rest.pop().unwrap();
        queue.push(x);
        assert(rest@ =~= all.take(rest.len() as int));
    }
    let mut m: Vec<(String, V)> = Vec::new();
    let mut taken: usize = 0;
    proof {
        assert(all.take(0) =~= Seq::<(String, V)>::empty());
    }
    while queue.len() > 0
        invariant
            taken + queue.len() == all.len(),
            all.len() == total,
            forall|k: int| 0 <= k < queue.len() ==> queue@[k] == all[all.len() - 1 - k],
            m@ == spec_collect(all.take(taken as int)),
        decreases queue.len(),
    {
        let x = queue.pop().unwrap();
        proof {
            assert(x == all[taken as int]);
            assert(all.take(taken + 1).drop_last() =~= all.take(taken as int));
        }
        upsert(&mut m, x.0, x.1);
        taken = taken + 1;
    }
    proof {
        assert(all.take(all.len() as int) =~= all);
    }
    m
}

/// The value stored under `k`.
pub fn get<'a, V>(m: &'a Vec<(String, V)>, k: &str) -> (r: Option<&'a V>)
    ensures
        match r {
            Some(v) => spec_get(m@, k@) == Some(*v),
            None => spec_get(m@, k@) is None,
        },
{
    let mut i: usize = 0;
    proof {
        assert(m@.skip(0) =~= m@);
    }
    while i < m.len()
        invariant
            i <= m.len(),
            spec_get(m@.skip(i as int), k@) == spec_get(m@, k@),
        decreases m.len() - i,
    {
        proof {
            assert(m@.skip(i as int)[0] == m@[i as int]);
            assert(m@.skip(i as int).drop_first() =~= m@.skip(i + 1));
        }
        if str_eq(m[i].0.as_str(), k) {
            return Some(&m[i].1);
        }
        i = i + 1;
    }
    None
}

pub proof fn lemma_upsert_sorted<V>(m: Seq<(String, V)>, k: String, v: V)
    requires
        keys_sorted(m),
    ensures
        keys_sorted(spec_upsert(m, k, v)),
        forall|i: int|
            0 <= i < spec_upsert(m, k, v).len() ==> (#[trigger] spec_upsert(m, k, v)[i]).0@ == k@
                || exists|j: int| 0 <= j < m.len() && m[j].0@ == spec_upsert(m, k, v)[i].0@,
    decreases m.len(),
{
    let r = spec_upsert(m, k, v);
    if m.len() == 0 {
    } else if m[0].0@ == k@ {
        assert forall|i: int, j: int| 0 <= i < j < r.len() implies seq_lt(
            #[trigger] r[i].0@,
            #[trigger] r[j].0@,
        ) by {
            assert(r[j] == m[j]);
            if i > 0 {
                assert(r[i] == m[i]);
            }
        }
        assert forall|i: int| 0 <= i < r.len() implies (#[trigger] r[i]).0@ == k@ || exists|j: int|
            0 <= j < m.len() && m[j].0@ == r[i].0@ by {
            if i > 0 {
                assert(r[i] == m[i]);
            }
        }
    } else if seq_lt(k@, m[0].0@) {
        assert forall|i: int, j: int| 0 <= i < j < r.len() implies seq_lt(
            #[trigger] r[i].0@,
            #[trigger] r[j].0@,
        ) by {
            assert(r[j] == m[j - 1]);
            if i > 0 {
                assert(r[i] == m[i - 1]);
            } else if j > 1 {
                crate::text::lemma_seq_lt_transitive(k@, m[0].0@, m[j - 1].0@);
            }
        }
        assert forall|i: int| 0 <= i < r.len() implies (#[trigger] r[i]).0@ == k@ || exists|j: int|
            0 <= j < m.len() && m[j].0@ == r[i].0@ by {
            if i > 0 {
                assert(r[i] == m[i - 1]);
            }
        }
    } else {
        let t = m.drop_first();
        assert forall|i: int, j: int| 0 <= i < j < t.len() implies seq_lt(
            #[trigger] t[i].0@,
            #[trigger] t[j].0@,
        ) by {
            assert(t[i] == m[i + 1]);
            assert(t[j] == m[j + 1]);
        }
        lemma_upsert_sorted(t, k, v);
        let rt = spec_upsert(t, k, v);
        lemma_seq_lt_trichotomy(k@, m[0].0@);
        assert forall|i: int| 0 <= i < r.len() implies (#[trigger] r[i]).0@ == k@ || exists|j: int|
            0 <= j < m.len() && m[j].0@ == r[i].0@ by {
            if i > 0 {
                assert(r[i] == rt[i - 1]);
                if rt[i - 1].0@ != k@ {
                    let j = choose|j: int| 0 <= j < t.len() && t[j].0@ == rt[i - 1].0@;
                    assert(m[j + 1] == t[j]);
                }
            }
        }
        assert forall|i: int, j: int| 0 <= i < j < r.len() implies seq_lt(
            #[trigger] r[i].0@,
            #[trigger] r[j].0@,
        ) by {
            assert(r[j] == rt[j - 1]);
            if i > 0 {
                assert(r[i] == rt[i - 1]);
            } else {
                let kj = rt[j - 1].0@;
                if kj == k@ {
                } else {
                    let q = choose|q: int| 0 <= q < t.len() && t[q].0@ == kj;
                    assert(m[q + 1] == t[q]);
                }
            }
        }
    }
}

pub proof fn lemma_collect_sorted<V>(items: Seq<(String, V)>)
    ensures
        keys_sorted(spec_collect(items)),
    decreases items.len(),
{
    if items.len() > 0 {
        lemma_collect_sorted(items.drop_last());
        lemma_upsert_sorted(spec_collect(items.drop_last()), items.last().0, items.last().1);
    }
}

// ------------------------------------------------------------------ merge

/// One key of the union of two maps, with what each side holds under it.
pub struct Joined<A, B> {
    pub key: Seq<char>,
    pub left: Option<A>,
    pub right: Option<B>,
}

/// The keys of two sorted maps walked together in ascending order, each key
/// once, with both sides' values: the sorted, deduplicated union of the keys.
pub open spec fn spec_merge<A, B>(l: Seq<(String, A)>, r: Seq<(String, B)>) -> Seq<Joined<A, B>>
    decreases l.len() + r.len(),
{
    if l.len() == 0 && r.len() == 0 {
        seq![]
    } else if r.len() == 0 || (l.len() > 0 && seq_lt(l[0].0@, r[0].0@)) {
        seq![Joined { key: l[0].0@, left: Some(l[0].1), right: None }] + spec_merge(
            l.drop_first(),
            r,
        )
    } else if l.len() == 0 || seq_lt(r[0].0@, l[0].0@) {
        seq![Joined { key: r[0].0@, left: None, right: Some(r[0].1) }] + spec_merge(
            l,
            r.drop_first(),
        )
    } else {
        seq![Joined { key: l[0].0@, left: Some(l[0].1), right: Some(r[0].1) }] + spec_merge(
            l.drop_first(),
            r.drop_first(),
        )
    }
}


/// One key of a merge, owned.
pub struct JoinedEntry<A, B> {
    pub key: String,
    pub left: Option<A>,
    pub right: Option<B>,
}

pub open spec fn joined_view<A, B>(e: JoinedEntry<A, B>) -> Joined<A, B> {
    Joined { key: e.key@, left: e.left, right: e.right }
}

pub open spec fn joined_views<A, B>(v: Seq<JoinedEntry<A, B>>) -> Seq<Joined<A, B>> {
    v.map_values(|e: JoinedEntry<A, B>| joined_view(e))
}

/// Walk two sorted maps together in key order.
pub fn merge<A, B>(l: Vec<(String, A)>, r: Vec<(String, B)>) -> (out: Vec<JoinedEntry<A, B>>)
    ensures
        joined_views(out@) == spec_merge(l@, r@),
{
    let ghost l0 = l@;
    let ghost r0 = r@;
    let mut l = l;
    let mut r = r;
    let mut out: Vec<JoinedEntry<A, B>> = Vec::new();
    proof {
        assert(joined_views(out@) =~= Seq::<Joined<A, B>>::empty());
        assert(joined_views(out@) + spec_merge(l@, r@) =~= spec_merge(l0, r0));
    }
    while l.len() > 0 || r.len() > 0
        invariant
            joined_views(out@) + spec_merge(l@, r@) == spec_merge(l0, r0),
        decreases l.len() + r.len(),
    {
        let ghost lb = l@;
        let ghost rb = r@;
        let ghost ob = out@;
        let take_left = r.len() == 0 || (l.len() > 0 && str_lt(l[0].0.as_str(), r[0].0.as_str()));
        if take_left {
            let (k, a) = l.remove(0);
            out.push(JoinedEntry { key: k, left: Some(a), right: None });
            proof {
                assert(l@ =~= lb.drop_first());
                assert(joined_views(out@) =~= joined_views(ob).push(
                    Joined { key: lb[0].0@, left: Some(lb[0].1), right: None },
                ));
            }
        } else if l.len() == 0 || str_lt(r[0].0.as_str(), l[0].0.as_str()) {
            let (k, b) = r.remove(0);
            out.push(JoinedEntry { key: k, left: None, right: Some(b) });
            proof {
                assert(r@ =~= rb.drop_first());
                assert(joined_views(out@) =~= joined_views(ob).push(
                    Joined { key: rb[0].0@, left: None, right: Some(rb[0].1) },
                ));
            }
        } else {
            let (k, a) = l.remove(0);
            let (_k2, b) = r.remove(0);
            out.push(JoinedEntry { key: k, left: Some(a), right: Some(b) });
            proof {
                assert(l@ =~= lb.drop_first());
                assert(r@ =~= rb.drop_first());
                assert(joined_views(out@) =~= joined_views(ob).push(
                    Joined { key: lb[0].0@, left: Some(lb[0].1), right: Some(rb[0].1) },
                ));
            }
        }
    }
    proof {
        assert(spec_merge(l@, r@) =~= Seq::<Joined<A, B>>::empty());
        assert(joined_views(out@) + spec_merge(l@, r@) =~= joined_views(out@));
    }
    out
}


/// Walking a map together with itself pairs every entry with itself.
pub proof fn lemma_merge_self<A>(l: Seq<(String, A)>)
    ensures
        spec_merge(l, l).len() == l.len(),
        forall|k: int|
            0 <= k < l.len() ==> #[trigger] spec_merge(l, l)[k] == (Joined {
                key: l[k].0@,
                left: Some(l[k].1),
                right: Some(l[k].1),
            }),
    decreases l.len(),
{
    if l.len() > 0 {
        lemma_seq_lt_irreflexive(l[0].0@);
        let t = l.drop_first();
        lemma_merge_self(t);
        let m = spec_merge(l, l);
        assert(m == seq![Joined { key: l[0].0@, left: Some(l[0].1), right: Some(l[0].1) }] + spec_merge(t, t));
        assert forall|k: int| 0 <= k < l.len() implies #[trigger] spec_merge(l, l)[k] == (Joined {
            key: l[k].0@,
            left: Some(l[k].1),
            right: Some(l[k].1),
        }) by {
            if k > 0 {
                assert(t[k - 1] == l[k]);
            }
        }
    }
}


/// Reading a key after inserting it gives the inserted value; every other key
/// reads as before.
pub proof fn lemma_get_upsert<V>(m: Seq<(String, V)>, k: String, v: V, q: Seq<char>)
    ensures
        spec_get(spec_upsert(m, k, v), q) == (if q == k@ {
            Some(v)
        } else {
            spec_get(m, q)
        }),
    decreases m.len(),
{
    let u = spec_upsert(m, k, v);
    if m.len() == 0 {
        assert(u == seq![(k, v)]);
        assert(u.drop_first() =~= Seq::<(String, V)>::empty());
        assert(spec_get(u.drop_first(), q) is None);
    } else if m[0].0@ == k@ {
        assert(u[0] == (m[0].0, v));
        assert(u.drop_first() =~= m.drop_first());
    } else if seq_lt(k@, m[0].0@) {
        assert(u[0] == (k, v));
        assert(u.drop_first() =~= m);
    } else {
        lemma_get_upsert(m.drop_first(), k, v, q);
        assert(u[0] == m[0]);
        assert(u.drop_first() =~= spec_upsert(m.drop_first(), k, v));
    }
}

/// The value of the last pair with key `q`, if any.
pub open spec fn last_value<V>(items: Seq<(String, V)>, q: Seq<char>) -> Option<V>
    decreases items.len(),
{
    if items.len() == 0 {
        None
    } else if items.last().0@ == q {
        Some(items.last().1)
    } else {
        last_value(items.drop_last(), q)
    }
}

/// After collecting, each key reads as the value of its last pair.
pub proof fn lemma_get_collect<V>(items: Seq<(String, V)>, q: Seq<char>)
    ensures
        spec_get(spec_collect(items), q) == last_value(items, q),
    decreases items.len(),
{
    if items.len() > 0 {
        lemma_get_collect(items.drop_last(), q);
        lemma_get_upsert(spec_collect(items.drop_last()), items.last().0, items.last().1, q);
    }
}

} // verus!
