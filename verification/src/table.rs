//! String-keyed association lists with unique keys: the representation behind
//! the repository's toggle and segment maps and the user's attribute bag.

use vstd::prelude::*;

use crate::strings::string_eq;

verus! {

/// The value bound to `k` in a model-level table: the value of the first pair
/// whose key is `k`.
pub open spec fn table_get<V>(s: Seq<(Seq<char>, V)>, k: Seq<char>) -> Option<V>
    decreases s.len(),
{
    if s.len() == 0 {
        None
    } else if s[0].0 == k {
        Some(s[0].1)
    } else {
        table_get(s.drop_first(), k)
    }
}

/// No two pairs of `s` share a key.
pub open spec fn keys_unique<V>(s: Seq<(Seq<char>, V)>) -> bool {
    forall|i: int, j: int| 0 <= i < j < s.len() ==> (#[trigger] s[i]).0 != (#[trigger] s[j]).0
}

/// The model of an association list whose keys are `String`s: each key is
/// replaced by its view.
pub open spec fn raw_view<V>(t: Seq<(String, V)>) -> Seq<(Seq<char>, V)> {
    t.map_values(|p: (String, V)| (p.0@, p.1))
}

/// Looks `k` up in `t`, returning a reference to the first value whose key
/// has the characters of `k`.
pub fn table_find<'a, V>(t: &'a Vec<(String, V)>, k: &str) -> (r: Option<&'a V>)
    ensures
        match r {
            Some(v) => table_get(raw_view(t@), k@) == Some(*v),
            None => table_get(raw_view(t@), k@) is None,
        },
{
    let n = t.len();
    let mut i: usize = 0;
    while i < n
        invariant
            n == t@.len(),
            i <= n,
            forall|a: int| 0 <= a < i ==> (#[trigger] t@[a]).0@ != k@,
        decreases n - i,
    {
        if string_eq(t[i].0.as_str(), k) {
            proof {
                lemma_table_get_hit(raw_view(t@), i as int, k@);
            }
            return Some(&t[i].1);
        }
        i += 1;
    }
    proof {
        lemma_table_get_miss(raw_view(t@), k@);
    }
    None
}

/// A hit at the first position whose key matches decides the lookup.
pub proof fn lemma_table_get_hit<V>(s: Seq<(Seq<char>, V)>, i: int, k: Seq<char>)
    requires
        0 <= i < s.len(),
        s[i].0 == k,
        forall|a: int| 0 <= a < i ==> (#[trigger] s[a]).0 != k,
    ensures
        table_get(s, k) == Some(s[i].1),
    decreases i,
{
    if i > 0 {
        lemma_table_get_hit(s.drop_first(), i - 1, k);
    }
}

/// A key that no pair carries is absent.
pub proof fn lemma_table_get_miss<V>(s: Seq<(Seq<char>, V)>, k: Seq<char>)
    requires
        forall|a: int| 0 <= a < s.len() ==> (#[trigger] s[a]).0 != k,
    ensures
        table_get(s, k) is None,
    decreases s.len(),
{
    if s.len() > 0 {
        lemma_table_get_miss(s.drop_first(), k);
    }
}

/// Appending a pair with a fresh key binds that key and changes no other.
pub proof fn lemma_table_get_push<V>(s: Seq<(Seq<char>, V)>, k: Seq<char>, v: V)
    requires
        forall|a: int| 0 <= a < s.len() ==> (#[trigger] s[a]).0 != k,
    ensures
        table_get(s.push((k, v)), k) == Some(v),
        forall|q: Seq<char>| q != k ==> table_get(s.push((k, v)), q) == table_get(s, q),
    decreases s.len(),
{
    let p = s.push((k, v));
    if s.len() == 0 {
        assert(p[0] == (k, v));
        assert(p.drop_first() =~= Seq::<(Seq<char>, V)>::empty());
        assert forall|q: Seq<char>| q != k implies table_get(p, q) == table_get(s, q) by {
            assert(table_get(p.drop_first(), q) is None);
        }
    } else {
        lemma_table_get_push(s.drop_first(), k, v);
        assert(p[0] == s[0]);
        assert(p.drop_first() =~= s.drop_first().push((k, v)));
        assert(table_get(p, k) == Some(v)) by {
            assert(table_get(p.drop_first(), k) == Some(v));
        }
        assert forall|q: Seq<char>| q != k implies table_get(p, q) == table_get(s, q) by {
            if s[0].0 != q {
                assert(table_get(p.drop_first(), q) == table_get(s.drop_first().push((k, v)), q));
                assert(table_get(s.drop_first().push((k, v)), q) == table_get(s.drop_first(), q));
            }
        }
    }
}

/// Replacing the pair at the first position whose key is `k` rebinds `k` and
/// changes no other key.
pub proof fn lemma_table_get_update<V>(
    upd: Seq<(Seq<char>, V)>,
    orig: Seq<(Seq<char>, V)>,
    i: int,
    k: Seq<char>,
    v: V,
)
    requires
        0 <= i < orig.len(),
        upd.len() == orig.len(),
        orig[i].0 == k,
        upd[i] == (k, v),
        forall|a: int| 0 <= a < orig.len() && a != i ==> upd[a] == orig[a],
        forall|a: int| 0 <= a < i ==> (#[trigger] orig[a]).0 != k,
    ensures
        table_get(upd, k) == Some(v),
        forall|q: Seq<char>| q != k ==> table_get(upd, q) == table_get(orig, q),
    decreases i,
{
    if i == 0 {
        assert(upd[0] == (k, v));
        assert forall|q: Seq<char>| q != k implies table_get(upd, q) == table_get(orig, q) by {
            assert(upd.drop_first() =~= orig.drop_first());
            assert(table_get(upd.drop_first(), q) == table_get(orig.drop_first(), q));
        }
    } else {
        assert forall|a: int|
            0 <= a < orig.drop_first().len() && a != i - 1 implies upd.drop_first()[a]
            == orig.drop_first()[a] by {
            assert(upd[a + 1] == orig[a + 1]);
        }
        assert forall|a: int| 0 <= a < i - 1 implies (#[trigger] orig.drop_first()[a]).0 != k by {
            assert(orig[a + 1].0 != k);
        }
        lemma_table_get_update(upd.drop_first(), orig.drop_first(), i - 1, k, v);
        assert(upd[0] == orig[0]);
        assert(upd[0].0 != k);
        assert forall|q: Seq<char>| q != k implies table_get(upd, q) == table_get(orig, q) by {
            if orig[0].0 != q {
                assert(table_get(upd.drop_first(), q) == table_get(orig.drop_first(), q));
            }
        }
    }
}

/// Looking a key up in a value-by-value mapped table is the mapped result of
/// looking it up in the original.
pub proof fn lemma_table_get_rel<V, VM>(
    t: Seq<(Seq<char>, V)>,
    m: Seq<(Seq<char>, VM)>,
    f: spec_fn(V) -> VM,
    k: Seq<char>,
)
    requires
        m.len() == t.len(),
        forall|i: int| 0 <= i < t.len() ==> #[trigger] m[i] == (t[i].0, f(t[i].1)),
    ensures
        table_get(m, k) == match table_get(t, k) {
            Some(v) => Some(f(v)),
            None => None::<VM>,
        },
    decreases t.len(),
{
    if t.len() > 0 {
        assert(m[0] == (t[0].0, f(t[0].1)));
        assert forall|i: int|
            0 <= i < t.drop_first().len() implies #[trigger] m.drop_first()[i] == (
            t.drop_first()[i].0,
            f(t.drop_first()[i].1),
        ) by {
            assert(m[i + 1] == (t[i + 1].0, f(t[i + 1].1)));
        }
        lemma_table_get_rel(t.drop_first(), m.drop_first(), f, k);
    }
}

} // verus!
