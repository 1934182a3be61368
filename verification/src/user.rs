//! The subject of an evaluation: a stable rollout key plus custom attributes.

use vstd::prelude::*;

use crate::strings::string_eq;
use crate::table::{keys_unique, lemma_table_get_push, lemma_table_get_update, table_get};

verus! {

/// An immutable key/attribute bag representing the subject being evaluated.
///
/// The stable rollout key is either supplied through [`FPUser::stable_rollout`]
/// or generated from the clock when the user is created, so that every user
/// carries a key from the start.  Attributes are kept as a list of pairs with
/// unique keys; a later [`FPUser::with`] on an existing key replaces the value.
pub struct FPUser {
    key: String,
    attrs: Vec<(String, String)>,
}

/// What an [`FPUser`] denotes: a rollout key and an attribute table.
pub struct UserModel {
    /// The stable rollout key.
    pub key: Seq<char>,
    /// The attribute pairs, in insertion order, with unique keys.
    pub attrs: Seq<(Seq<char>, Seq<char>)>,
}

/// The attribute pairs of `t`, as sequences of characters.
pub open spec fn attrs_view(t: Seq<(String, String)>) -> Seq<(Seq<char>, Seq<char>)> {
    t.map_values(|p: (String, String)| (p.0@, p.1@))
}

impl View for FPUser {
    type V = UserModel;

    closed spec fn view(&self) -> UserModel {
        UserModel { key: self.key@, attrs: attrs_view(self.attrs@) }
    }
}

impl UserModel {
    /// The attribute value bound to `k`, if any.
    pub open spec fn attr(self, k: Seq<char>) -> Option<Seq<char>> {
        table_get(self.attrs, k)
    }
}

impl FPUser {
    /// No two attribute pairs share a key.
    pub open spec fn wf(self) -> bool {
        keys_unique(self@.attrs)
    }

    /// A fresh user with no attributes and a clock-generated rollout key.
    pub fn new() -> (u: FPUser)
        ensures
            u.wf(),
            u@.attrs =~= Seq::<(Seq<char>, Seq<char>)>::empty(),
    {
        let u = FPUser { key: crate::generate_key(), attrs: Vec::new() };
        proof {
            assert(u@.attrs =~= Seq::<(Seq<char>, Seq<char>)>::empty());
        }
        u
    }

    /// Replaces the stable rollout key.
    pub fn stable_rollout(self, key: String) -> (u: FPUser)
        ensures
            u@.key == key@,
            u@.attrs == self@.attrs,
            u.wf() == self.wf(),
    {
        FPUser { key, attrs: self.attrs }
    }

    /// Binds attribute `k` to `v`, replacing any existing binding of `k`.
    pub fn with(self, k: String, v: String) -> (u: FPUser)
        requires
            self.wf(),
        ensures
            u.wf(),
            u@.key == self@.key,
            u@.attr(k@) == Some(v@),
            forall|q: Seq<char>| q != k@ ==> u@.attr(q) == self@.attr(q),
    {
        let ghost key0 = self@.key;
        let ghost orig = self@.attrs;
        let mut this = self;
        let n = this.attrs.len();
        let mut i: usize = 0;
        while i < n
            invariant
                n == this.attrs@.len(),
                i <= n,
                this@.key == key0,
                key0 == self@.key,
                orig == this@.attrs,
                orig == self@.attrs,
                keys_unique(orig),
                forall|a: int| 0 <= a < i ==> (#[trigger] this.attrs@[a]).0@ != k@,
            decreases n - i,
        {
            if string_eq(this.attrs[i].0.as_str(), k.as_str()) {
                let ghost pre = this.attrs@;
                this.attrs[i] = (k, v);
                proof {
                    let upd = this@.attrs;
                    assert(upd.len() == orig.len());
                    assert(upd[i as int] == (this.attrs@[i as int].0@, this.attrs@[i as int].1@));
                    assert forall|a: int|
                        0 <= a < orig.len() && a != i implies upd[a] == orig[a] by {
                        assert(this.attrs@[a] == pre[a]);
                        assert(upd[a] == (this.attrs@[a].0@, this.attrs@[a].1@));
                        assert(orig[a] == (pre[a].0@, pre[a].1@));
                    }
                    assert forall|a: int| 0 <= a < i implies (#[trigger] orig[a]).0 != k@ by {
                        assert(orig[a] == (pre[a].0@, pre[a].1@));
                    }
                    assert(orig[i as int].0 == k@);
                    lemma_table_get_update(upd, orig, i as int, k@, v@);
                    assert forall|a: int, b: int|
                        0 <= a < b < upd.len() implies (#[trigger] upd[a]).0 != (
                    #[trigger] upd[b]).0 by {
                        assert(orig[i as int].0 == k@);
                    }
                }
                return this;
            }
            i += 1;
        }
        proof {
            assert forall|a: int| 0 <= a < orig.len() implies (#[trigger] orig[a]).0 != k@ by {
                assert(orig[a] == (this.attrs@[a].0@, this.attrs@[a].1@));
            }
        }
        let ghost pre = this.attrs@;
        this.attrs.push((k, v));
        proof {
            assert(this@.attrs =~= orig.push((k@, v@))) by {
                assert(this.attrs@ == pre.push((k, v)));
                assert forall|a: int|
                    0 <= a < this@.attrs.len() implies this@.attrs[a] == orig.push((k@, v@))[a] by {
                    assert(this@.attrs[a] == (this.attrs@[a].0@, this.attrs@[a].1@));
                }
            }
            lemma_table_get_push(orig, k@, v@);
        }
        this
    }

    /// Binds every pair of `attrs` in order, each replacing any earlier
    /// binding of the same key.
    pub fn with_attrs(self, attrs: Vec<(String, String)>) -> (u: FPUser)
        requires
            self.wf(),
        ensures
            u.wf(),
            u@.key == self@.key,
    {
        let mut u = self;
        let n = attrs.len();
        let mut i: usize = 0;
        while i < n
            invariant
                u.wf(),
                u@.key == self@.key,
                n == attrs@.len(),
                i <= n,
            decreases n - i,
        {
            let (k, v) = (attrs[i].0.clone(), attrs[i].1.clone());
            u = u.with(k, v);
            i += 1;
        }
        u
    }

    /// Looks an attribute up by name.
    pub fn get(&self, k: &str) -> (r: Option<&String>)
        ensures
            match r {
                Some(v) => self@.attr(k@) == Some(v@),
                None => self@.attr(k@) is None,
            },
    {
        let n = self.attrs.len();
        let mut i: usize = 0;
        while i < n
            invariant
                n == self.attrs@.len(),
                i <= n,
                forall|a: int| 0 <= a < i ==> (#[trigger] self.attrs@[a]).0@ != k@,
            decreases n - i,
        {
            if string_eq(self.attrs[i].0.as_str(), k) {
                proof {
                    let s = self@.attrs;
                    assert forall|a: int| 0 <= a < i implies (#[trigger] s[a]).0 != k@ by {
                        assert(s[a] == (self.attrs@[a].0@, self.attrs@[a].1@));
                    }
                    assert(s[i as int] == (self.attrs@[i as int].0@, self.attrs@[i as int].1@));
                    crate::table::lemma_table_get_hit(s, i as int, k@);
                }
                return Some(&self.attrs[i].1);
            }
            i += 1;
        }
        proof {
            let s = self@.attrs;
            assert forall|a: int| 0 <= a < s.len() implies (#[trigger] s[a]).0 != k@ by {
                assert(s[a] == (self.attrs@[a].0@, self.attrs@[a].1@));
            }
            crate::table::lemma_table_get_miss(s, k@);
        }
        None
    }

    /// All attribute pairs, in insertion order.
    pub fn get_all(&self) -> (r: &Vec<(String, String)>)
        ensures
            attrs_view(r@) == self@.attrs,
    {
        &self.attrs
    }

    /// The stable rollout key.
    pub fn key(&self) -> (r: String)
        ensures
            r@ == self@.key,
    {
        self.key.clone()
    }
}

} // verus!
