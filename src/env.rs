//! The environment: a flat, insertion-ordered binding of names to values.
use vstd::prelude::*;

use crate::interpret::Value;

verus! {

/// Bindings from variable names to values, kept in the order in which names
/// were first bound. A name occurs at most once.
pub struct Env {
    entries: Vec<(String, Value)>,
    bound: Ghost<Map<Seq<char>, Value>>,
}

impl View for Env {
    type V = Map<Seq<char>, Value>;

    closed spec fn view(&self) -> Map<Seq<char>, Value> {
        self.bound@
    }
}

impl Env {
    /// The entries agree with the map of bindings, and no name occurs twice.
    pub closed spec fn wf(&self) -> bool {
        &&& forall|i: int|
            0 <= i < self.entries@.len() ==> #[trigger] self.bound@.contains_key(
                self.entries@[i].0@,
            ) && self.bound@[self.entries@[i].0@] == self.entries@[i].1
        &&& forall|k: Seq<char>|
            #[trigger] self.bound@.contains_key(k) ==> exists|i: int|
                0 <= i < self.entries@.len() && #[trigger] self.entries@[i].0@ == k
        &&& forall|i: int, j: int|
            0 <= i < j < self.entries@.len() ==> #[trigger] self.entries@[i].0@
                != #[trigger] self.entries@[j].0@
    }

    /// An environment with no bindings.
    pub fn new() -> (r: Env)
        ensures
            r.wf(),
            r@ == Map::<Seq<char>, Value>::empty(),
    {
        Env { entries: Vec::new(), bound: Ghost(Map::empty()) }
    }

    /// The position of `name` among the entries, if it is bound.
    fn position(&self, name: &String) -> (r: Option<usize>)
        requires
            self.wf(),
        ensures
            match r {
                Some(i) => i < self.entries@.len() && self.entries@[i as int].0@ == name@,
                None => !self@.contains_key(name@),
            },
    {
        let mut i: usize = 0;
        while i < self.entries.len()
            invariant
                self.wf(),
                i <= self.entries@.len(),
                forall|j: int| 0 <= j < i ==> self.entries@[j].0@ != name@,
            decreases self.entries@.len() - i,
        {
            if self.entries[i].0 == *name {
                return Some(i);
            }
            i = i + 1;
        }
        None
    }

    /// The value bound to `name`, if any.
    pub fn get(&self, name: &String) -> (r: Option<Value>)
        requires
            self.wf(),
        ensures
            r == (if self@.contains_key(name@) {
                Some(self@[name@])
            } else {
                None
            }),
    {
        match self.position(name) {
            Some(i) => Some(self.entries[i].1),
            None => None,
        }
    }

    /// Binds `name` to `value`, replacing an earlier binding of that name in
    /// place, or adding it last.
    pub fn insert(&mut self, name: String, value: Value)
        requires
            old(self).wf(),
        ensures
            final(self).wf(),
            final(self)@ == old(self)@.insert(name@, value),
    {
        let ghost key = name@;
        let pos = self.position(&name);
        let ghost at: int = match pos {
            Some(i) => i as int,
            None => self.entries@.len() as int,
        };
        match pos {
            Some(i) => {
                self.entries.set(i, (name, value));
            },
            None => {
                self.entries.push((name, value));
            },
        }
        self.bound = Ghost(self.bound@.insert(key, value));
        assert(self.entries@[at].0@ == key);
        assert forall|k: Seq<char>| #[trigger] self.bound@.contains_key(k) implies exists|i: int|
            0 <= i < self.entries@.len() && #[trigger] self.entries@[i].0@ == k by {
            if k != key {
                let j = choose|j: int|
                    0 <= j < old(self).entries@.len() && #[trigger] old(self).entries@[j].0@ == k;
                assert(self.entries@[j].0@ == k);
            } else {
                assert(self.entries@[at].0@ == k);
            }
        }
    }

    /// A copy of this environment, with the same bindings.
    pub fn snapshot(&self) -> (r: Env)
        requires
            self.wf(),
        ensures
            r.wf(),
            r@ == self@,
    {
        let mut entries: Vec<(String, Value)> = Vec::new();
        let mut i: usize = 0;
        while i < self.entries.len()
            invariant
                self.wf(),
                i <= self.entries@.len(),
                entries@.len() == i,
                forall|j: int| 0 <= j < i ==> (#[trigger] entries@[j]).0@ == self.entries@[j].0@
                    && entries@[j].1 == self.entries@[j].1,
            decreases self.entries@.len() - i,
        {
            let (name, value) = (self.entries[i].0.clone(), self.entries[i].1);
            entries.push((name, value));
            i = i + 1;
        }
        let r = Env { entries, bound: Ghost(self.bound@) };
        assert forall|k: Seq<char>| #[trigger] r.bound@.contains_key(k) implies exists|i: int|
            0 <= i < r.entries@.len() && #[trigger] r.entries@[i].0@ == k by {
            let j = choose|j: int|
                0 <= j < self.entries@.len() && #[trigger] self.entries@[j].0@ == k;
            assert(r.entries@[j].0@ == k);
        }
        r
    }
}

} // verus!
