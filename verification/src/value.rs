//! The typed payload a toggle serves: a JSON-shaped value with structural
//! equality.
//!
//! Numbers are carried as their decimal text and objects as ordered key/value
//! lists, so equality is structural: two values are equal when they were
//! written the same way in the repository document.

use vstd::prelude::*;

use crate::strings::string_eq;
use crate::table::table_get;

verus! {

broadcast use vstd::std_specs::vec::axiom_vec_index_decreases;

/// A JSON-shaped toggle payload.
#[derive(Debug, PartialEq)]
pub enum FPValue {
    /// JSON `null`.
    Null,
    /// A boolean.
    Bool(bool),
    /// A number, as its decimal text.
    Number(String),
    /// A string.
    Str(String),
    /// An ordered array.
    Array(Vec<FPValue>),
    /// An object, as an ordered key/value list.
    Object(Vec<(String, FPValue)>),
}

/// What an [`FPValue`] denotes.
pub enum ValueModel {
    /// JSON `null`.
    Null,
    /// A boolean.
    Bool(bool),
    /// A number, as its decimal text.
    Number(Seq<char>),
    /// A string.
    Str(Seq<char>),
    /// An ordered array.
    Array(Seq<ValueModel>),
    /// An object, as an ordered key/value list.
    Object(Seq<(Seq<char>, ValueModel)>),
}

/// The model a value denotes.
pub closed spec fn model_of(v: FPValue) -> ValueModel
    decreases v,
{
    match v {
        FPValue::Null => ValueModel::Null,
        FPValue::Bool(b) => ValueModel::Bool(b),
        FPValue::Number(s) => ValueModel::Number(s@),
        FPValue::Str(s) => ValueModel::Str(s@),
        FPValue::Array(a) => ValueModel::Array(
            Seq::new(
                a@.len(),
                |i: int|
                    if 0 <= i < a@.len() {
                        proof {
                            vstd::std_specs::vec::axiom_vec_index_decreases(a, i);
                        }
                        model_of(a@[i])
                    } else {
                        ValueModel::Null
                    },
            ),
        ),
        FPValue::Object(o) => ValueModel::Object(
            Seq::new(
                o@.len(),
                |i: int|
                    if 0 <= i < o@.len() {
                        proof {
                            vstd::std_specs::vec::axiom_vec_index_decreases(o, i);
                        }
                        (o@[i].0@, model_of(o@[i].1))
                    } else {
                        (Seq::<char>::empty(), ValueModel::Null)
                    },
            ),
        ),
    }
}

impl View for FPValue {
    type V = ValueModel;

    open spec fn view(&self) -> ValueModel {
        model_of(*self)
    }
}

/// The models of a list of values, in order.
pub open spec fn values_view(v: Seq<FPValue>) -> Seq<ValueModel> {
    Seq::new(v.len(), |i: int| v[i]@)
}

/// The value under the first pair of an object whose key is `k`; nothing for
/// a missing key or a non-object.
pub open spec fn obj_get(v: ValueModel, k: Seq<char>) -> Option<ValueModel> {
    match v {
        ValueModel::Object(o) => table_get(o, k),
        _ => None,
    }
}

/// A value's model is the variant its value carries.
pub proof fn lemma_view_variant(v: FPValue)
    ensures
        v@ is Null <==> v is Null,
        v@ is Bool <==> v is Bool,
        v@ is Number <==> v is Number,
        v@ is Str <==> v is Str,
        v@ is Array <==> v is Array,
        v@ is Object <==> v is Object,
{
    match v {
        FPValue::Null => {},
        FPValue::Bool(_) => {},
        FPValue::Number(_) => {},
        FPValue::Str(_) => {},
        FPValue::Array(_) => {},
        FPValue::Object(_) => {},
    }
}

impl FPValue {
    /// Whether this value and `other` denote the same value.
    #[verifier::loop_isolation(false)]
    pub fn value_eq(&self, other: &FPValue) -> (r: bool)
        ensures
            r == (self@ == other@),
        decreases self,
    {
        match (self, other) {
            (FPValue::Null, FPValue::Null) => true,
            (FPValue::Bool(x), FPValue::Bool(y)) => *x == *y,
            (FPValue::Number(x), FPValue::Number(y)) => string_eq(x.as_str(), y.as_str()),
            (FPValue::Str(x), FPValue::Str(y)) => string_eq(x.as_str(), y.as_str()),
            (FPValue::Array(x), FPValue::Array(y)) => {
                let ghost vx = self@->Array_0;
                let ghost vy = other@->Array_0;
                proof {
                    assert(vx.len() == x@.len());
                    assert(vy.len() == y@.len());
                }
                let nx = x.len();
                let ny = y.len();
                if nx != ny {
                    return false;
                }
                let mut i: usize = 0;
                while i < nx
                    invariant
                        nx == x@.len(),
                        ny == y@.len(),
                        nx == ny,
                        i <= nx,
                        vx == self@->Array_0,
                        vy == other@->Array_0,
                        self@ is Array,
                        other@ is Array,
                        vx.len() == nx,
                        vy.len() == ny,
                        forall|j: int| 0 <= j < nx ==> vx[j] == x@[j]@,
                        forall|j: int| 0 <= j < ny ==> vy[j] == y@[j]@,
                        forall|j: int| 0 <= j < i ==> vx[j] == vy[j],
                    decreases nx - i,
                {
                    proof {
                        vstd::std_specs::vec::axiom_vec_index_decreases(*x, i as int);
                    }
                    if !x[i].value_eq(&y[i]) {
                        assert(vx[i as int] != vy[i as int]);
                        return false;
                    }
                    i += 1;
                }
                proof {
                    assert(vx =~= vy);
                }
                true
            },
            (FPValue::Object(x), FPValue::Object(y)) => {
                let ghost vx = self@->Object_0;
                let ghost vy = other@->Object_0;
                proof {
                    assert(vx.len() == x@.len());
                    assert(vy.len() == y@.len());
                }
                let nx = x.len();
                let ny = y.len();
                if nx != ny {
                    return false;
                }
                let mut i: usize = 0;
                while i < nx
                    invariant
                        nx == x@.len(),
                        ny == y@.len(),
                        nx == ny,
                        i <= nx,
                        vx == self@->Object_0,
                        vy == other@->Object_0,
                        self@ is Object,
                        other@ is Object,
                        vx.len() == nx,
                        vy.len() == ny,
                        forall|j: int| 0 <= j < nx ==> vx[j] == (x@[j].0@, x@[j].1@),
                        forall|j: int| 0 <= j < ny ==> vy[j] == (y@[j].0@, y@[j].1@),
                        forall|j: int| 0 <= j < i ==> vx[j] == vy[j],
                    decreases nx - i,
                {
                    proof {
                        vstd::std_specs::vec::axiom_vec_index_decreases(*x, i as int);
                    }
                    if !string_eq(x[i].0.as_str(), y[i].0.as_str()) {
                        assert(vx[i as int] != vy[i as int]);
                        return false;
                    }
                    if !x[i].1.value_eq(&y[i].1) {
                        assert(vx[i as int] != vy[i as int]);
                        return false;
                    }
                    i += 1;
                }
                proof {
                    assert(vx =~= vy);
                }
                true
            },
            _ => {
                proof {
                    lemma_view_variant(*self);
                    lemma_view_variant(*other);
                }
                false
            },
        }
    }

    /// The boolean this value holds, if it is one.
    pub fn as_bool(&self) -> (r: Option<bool>)
        ensures
            match r {
                Some(b) => self@ == ValueModel::Bool(b),
                None => !(self@ is Bool),
            },
    {
        proof {
            lemma_view_variant(*self);
        }
        match self {
            FPValue::Bool(b) => Some(*b),
            _ => None,
        }
    }

    /// The string this value holds, if it is one.
    pub fn as_str(&self) -> (r: Option<&String>)
        ensures
            match r {
                Some(s) => self@ == ValueModel::Str(s@),
                None => !(self@ is Str),
            },
    {
        proof {
            lemma_view_variant(*self);
        }
        match self {
            FPValue::Str(s) => Some(s),
            _ => None,
        }
    }

    /// The decimal text of the number this value holds, if it is one.
    pub fn as_number_text(&self) -> (r: Option<&String>)
        ensures
            match r {
                Some(s) => self@ == ValueModel::Number(s@),
                None => !(self@ is Number),
            },
    {
        proof {
            lemma_view_variant(*self);
        }
        match self {
            FPValue::Number(s) => Some(s),
            _ => None,
        }
    }

    /// The value bound to `k`, if this value is an object with such a key.
    #[verifier::loop_isolation(false)]
    pub fn get(&self, k: &str) -> (r: Option<&FPValue>)
        ensures
            match r {
                Some(x) => obj_get(self@, k@) == Some(x@),
                None => obj_get(self@, k@) is None,
            },
    {
        proof {
            lemma_view_variant(*self);
        }
        match self {
            FPValue::Object(o) => {
                let ghost m = self@->Object_0;
                proof {
                    assert(m.len() == o@.len());
                    assert(forall|j: int| 0 <= j < m.len() ==> m[j] == (o@[j].0@, o@[j].1@));
                }
                let n = o.len();
                let mut i: usize = 0;
                while i < n
                    invariant
                        n == o@.len(),
                        i <= n,
                        forall|j: int| 0 <= j < i ==> (#[trigger] m[j]).0 != k@,
                    decreases n - i,
                {
                    if string_eq(o[i].0.as_str(), k) {
                        proof {
                            crate::table::lemma_table_get_hit(m, i as int, k@);
                        }
                        return Some(&o[i].1);
                    }
                    i += 1;
                }
                proof {
                    crate::table::lemma_table_get_miss(m, k@);
                }
                None
            },
            _ => None,
        }
    }
}

impl Clone for FPValue {
    /// A deep copy that denotes the same value.
    #[verifier::loop_isolation(false)]
    fn clone(&self) -> (res: Self)
        ensures
            res@ == self@,
        decreases self,
    {
        match self {
            FPValue::Null => FPValue::Null,
            FPValue::Bool(b) => FPValue::Bool(*b),
            FPValue::Number(s) => FPValue::Number(s.clone()),
            FPValue::Str(s) => FPValue::Str(s.clone()),
            FPValue::Array(a) => {
                let n = a.len();
                let mut out: Vec<FPValue> = Vec::new();
                let mut i: usize = 0;
                while i < n
                    invariant
                        n == a@.len(),
                        i <= n,
                        out@.len() == i,
                        forall|j: int| 0 <= j < i ==> out@[j]@ == a@[j]@,
                    decreases n - i,
                {
                    proof {
                        vstd::std_specs::vec::axiom_vec_index_decreases(*a, i as int);
                    }
                    let e = a[i].clone();
                    out.push(e);
                    i += 1;
                }
                let res = FPValue::Array(out);
                proof {
                    assert(res@ is Array);
                    assert(self@ is Array);
                    assert(res@->Array_0 =~= self@->Array_0);
                }
                res
            },
            FPValue::Object(o) => {
                let n = o.len();
                let mut out: Vec<(String, FPValue)> = Vec::new();
                let mut i: usize = 0;
                while i < n
                    invariant
                        n == o@.len(),
                        i <= n,
                        out@.len() == i,
                        forall|j: int|
                            0 <= j < i ==> (#[trigger] out@[j]).0@ == o@[j].0@ && out@[j].1@
                                == o@[j].1@,
                    decreases n - i,
                {
                    proof {
                        vstd::std_specs::vec::axiom_vec_index_decreases(*o, i as int);
                    }
                    let ks = o[i].0.clone();
                    let e = o[i].1.clone();
                    out.push((ks, e));
                    i += 1;
                }
                let res = FPValue::Object(out);
                proof {
                    assert(res@ is Object);
                    assert(self@ is Object);
                    assert(res@->Object_0 =~= self@->Object_0);
                }
                res
            },
        }
    }
}

} // verus!
