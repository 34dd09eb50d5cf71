//! One environment frame: a mapping from variable names to values plus an
//! optional parent link. Frames live in the interpreter's arena and are
//! identified by their index there; a parent link always points to an
//! earlier index, so parent chains terminate.

use vstd::prelude::*;

use crate::semantics::FrameV;
use crate::value::{Value, ValueV};

verus! {

/// No two names in the sequence are equal.
pub open spec fn unique_names(names: Seq<Seq<char>>) -> bool {
    forall|i: int, j: int| 0 <= i < j < names.len() ==> names[i] != names[j]
}

/// The mapping an association list denotes; a repeated name would keep the
/// later value.
pub open spec fn assoc_map<V>(names: Seq<Seq<char>>, vals: Seq<V>) -> Map<Seq<char>, V>
    decreases names.len(),
{
    if names.len() == 0 || vals.len() == 0 {
        Map::empty()
    } else {
        assoc_map(names.drop_last(), vals.drop_last()).insert(names.last(), vals.last())
    }
}

/// Keys of the denoted map are exactly the listed names, and each name maps
/// to its value.
pub proof fn lemma_assoc_map_props<V>(names: Seq<Seq<char>>, vals: Seq<V>)
    requires
        names.len() == vals.len(),
        unique_names(names),
    ensures
        forall|k: Seq<char>| #[trigger] assoc_map(names, vals).contains_key(k) == names.contains(k),
        forall|i: int|
            0 <= i < names.len() ==> assoc_map(names, vals)[#[trigger] names[i]] == vals[i],
    decreases names.len(),
{
    if names.len() > 0 {
        let dn = names.drop_last();
        let dv = vals.drop_last();
        lemma_assoc_map_props(dn, dv);
        let m = assoc_map(names, vals);
        assert forall|k: Seq<char>| #[trigger] m.contains_key(k) == names.contains(k) by {
            if m.contains_key(k) {
                if k == names.last() {
                    assert(names[names.len() - 1] == k);
                } else {
                    assert(assoc_map(dn, dv).contains_key(k));
                    let i = choose|i: int| 0 <= i < dn.len() && dn[i] == k;
                    assert(names[i] == k);
                }
            }
            if names.contains(k) {
                let i = choose|i: int| 0 <= i < names.len() && names[i] == k;
                if i < names.len() - 1 {
                    assert(dn[i] == k);
                    assert(dn.contains(k));
                }
            }
        }
        assert forall|i: int| 0 <= i < names.len() implies m[#[trigger] names[i]] == vals[i] by {
            if i < names.len() - 1 {
                assert(names[i] != names.last());
                assert(dn[i] == names[i]);
            }
        }
    }
}

/// Updating the value at position `i` denotes inserting at the name at `i`.
pub proof fn lemma_assoc_map_update<V>(
    names: Seq<Seq<char>>,
    vals: Seq<V>,
    i: int,
    v: V,
)
    requires
        names.len() == vals.len(),
        unique_names(names),
        0 <= i < names.len(),
    ensures
        assoc_map(names, vals.update(i, v)) == assoc_map(names, vals).insert(names[i], v),
    decreases names.len(),
{
    let dn = names.drop_last();
    let dv = vals.drop_last();
    let last: int = names.len() - 1;
    if i == last {
        assert(vals.update(i, v).drop_last() =~= dv);
        assert(vals.update(i, v).last() == v);
        assert(assoc_map(names, vals.update(i, v)) == assoc_map(dn, dv).insert(names[i], v));
        assert(assoc_map(dn, dv).insert(names.last(), vals.last()).insert(names[i], v) =~= assoc_map(
            dn,
            dv,
        ).insert(names[i], v));
    } else {
        assert(vals.update(i, v).drop_last() =~= dv.update(i, v));
        assert(vals.update(i, v).last() == vals.last());
        lemma_assoc_map_update(dn, dv, i, v);
        assert(dn[i] == names[i]);
        assert(names[i] != names.last());
        assert(assoc_map(dn, dv).insert(names[i], v).insert(names.last(), vals.last()) =~= assoc_map(
            dn,
            dv,
        ).insert(names.last(), vals.last()).insert(names[i], v));
    }
}

/// Pushing a pair denotes inserting it.
pub proof fn lemma_assoc_map_push<V>(names: Seq<Seq<char>>, vals: Seq<V>, n: Seq<char>, v: V)
    requires
        names.len() == vals.len(),
    ensures
        assoc_map(names.push(n), vals.push(v)) == assoc_map(names, vals).insert(n, v),
{
    assert(names.push(n).drop_last() =~= names);
    assert(vals.push(v).drop_last() =~= vals);
    assert(names.push(n).last() == n);
    assert(vals.push(v).last() == v);
}

/// One environment frame. `names` and `values` run in parallel; a name
/// occurs at most once.
#[derive(Debug)]
pub struct Environment {
    pub parent: Option<usize>,
    pub names: Vec<String>,
    pub values: Vec<Value>,
}

impl View for Environment {
    type V = FrameV;

    open spec fn view(&self) -> FrameV {
        FrameV {
            parent: match self.parent {
                Some(p) => Some(p as int),
                None => None,
            },
            vars: assoc_map(self.names.deep_view(), self.values.deep_view()),
        }
    }
}

impl Environment {
    /// Internal consistency: parallel columns of equal length, names unique.
    pub open spec fn inv(&self) -> bool {
        &&& self.names.len() == self.values.len()
        &&& unique_names(self.names.deep_view())
    }

    /// Creates an empty frame with the given parent link.
    pub fn empty(parent: Option<usize>) -> (r: Environment)
        ensures
            r.inv(),
            r@.vars == Map::<Seq<char>, ValueV>::empty(),
            r@.parent == (match parent {
                Some(p) => Some(p as int),
                None => None::<int>,
            }),
            r.parent == parent,
    {
        Environment { parent, names: Vec::new(), values: Vec::new() }
    }

    /// The position of `name` in this frame, if it is bound here.
    fn find(&self, name: &String) -> (r: Option<usize>)
        requires
            self.inv(),
        ensures
            match r {
                Some(i) => i < self.names.len() && self.names.deep_view()[i as int] == name@,
                None => !self.names.deep_view().contains(name@),
            },
    {
        let n = self.names.len();
        let mut i: usize = 0;
        while i < n
            invariant
                i <= n,
                n == self.names.len(),
                forall|j: int| 0 <= j < i ==> self.names.deep_view()[j] != name@,
            decreases n - i,
        {
            if self.names[i] == *name {
                return Some(i);
            }
            i += 1;
        }
        None
    }

    /// Whether this frame itself binds `name`.
    pub fn binds(&self, name: &String) -> (r: bool)
        requires
            self.inv(),
        ensures
            r == self@.vars.contains_key(name@),
    {
        proof {
            lemma_assoc_map_props(self.names.deep_view(), self.values.deep_view());
        }
        self.find(name).is_some()
    }

    /// The value bound to `name` in this frame alone.
    pub fn get_local(&self, name: &String) -> (r: Option<&Value>)
        requires
            self.inv(),
        ensures
            match r {
                Some(v) => self@.vars.contains_key(name@) && v@ == self@.vars[name@],
                None => !self@.vars.contains_key(name@),
            },
    {
        proof {
            lemma_assoc_map_props(self.names.deep_view(), self.values.deep_view());
        }
        match self.find(name) {
            Some(i) => Some(&self.values[i]),
            None => None,
        }
    }

    /// Inserts or overwrites the binding of `name` in this frame alone.
    pub fn define_local(&mut self, name: &String, value: Value)
        requires
            old(self).inv(),
        ensures
            final(self).inv(),
            final(self)@.vars == old(self)@.vars.insert(name@, value@),
            final(self)@.parent == old(self)@.parent,
            final(self).parent == old(self).parent,
    {
        proof {
            lemma_assoc_map_props(self.names.deep_view(), self.values.deep_view());
        }
        match self.find(name) {
            Some(i) => {
                proof {
                    lemma_assoc_map_update(
                        self.names.deep_view(),
                        self.values.deep_view(),
                        i as int,
                        value@,
                    );
                }
                let ghost old_vals = self.values.deep_view();
                self.values[i] = value;
                proof {
                    assert(self.values.deep_view() =~= old_vals.update(i as int, value@));
                }
            },
            None => {
                proof {
                    lemma_assoc_map_push(
                        self.names.deep_view(),
                        self.values.deep_view(),
                        name@,
                        value@,
                    );
                }
                let ghost old_names = self.names.deep_view();
                let ghost old_vals = self.values.deep_view();
                self.names.push(name.clone());
                self.values.push(value);
                proof {
                    assert(self.names.deep_view() =~= old_names.push(name@));
                    assert(self.values.deep_view() =~= old_vals.push(value@));
                    assert(unique_names(old_names.push(name@)));
                }
            },
        }
    }
}

} // verus!
