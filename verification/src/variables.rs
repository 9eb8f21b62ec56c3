//! The values that an expression's variables stand for.

use crate::value::{Number, Value};
use vstd::hash_map::StringHashMap;
use vstd::prelude::*;

verus! {

/// A mapping from variable name to value. Names are case-sensitive.
pub struct Variables {
    bindings: StringHashMap<Value>,
}

impl View for Variables {
    type V = Map<Seq<char>, Number>;

    closed spec fn view(&self) -> Map<Seq<char>, Number> {
        self.bindings@.map_values(|value: Value| value@)
    }
}

impl Variables {
    /// No variable has a value.
    pub fn new() -> (r: Self)
        ensures
            r@ == Map::<Seq<char>, Number>::empty(),
    {
        let r = Variables { bindings: StringHashMap::new() };
        assert(r@ =~= Map::<Seq<char>, Number>::empty());
        r
    }

    /// Gives `name` the value `value`, in place of any it had.
    pub fn insert(&mut self, name: String, value: Value)
        ensures
            final(self)@ == old(self)@.insert(name@, value@),
    {
        self.bindings.insert(name, value);
        assert(self@ =~= old(self)@.insert(name@, value@));
    }

    /// The value of `name`, if it has one.
    pub fn get(&self, name: &str) -> (r: Option<&Value>)
        ensures
            match r {
                Some(value) => self@.contains_key(name@) && self@[name@] == value@,
                None => !self@.contains_key(name@),
            },
    {
        self.bindings.get(name)
    }
}

} // verus!
