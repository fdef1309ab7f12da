use vstd::prelude::*;
use vstd::hash_map::StringHashMap;
use crate::error::{EnvironmentError, EnvironmentErrorV};
use crate::value::{Value, ValueV};

verus! {

/// The variables of a run: each name bound at most once, never rebound.
pub struct Environment {
    values: StringHashMap<Value>,
}

impl View for Environment {
    type V = Map<Seq<char>, ValueV>;

    closed spec fn view(&self) -> Map<Seq<char>, ValueV> {
        self.values@.map_values(|v: Value| v@)
    }
}

impl Environment {
    /// An environment with no variable.
    pub fn new() -> (r: Environment)
        ensures
            r@ == Map::<Seq<char>, ValueV>::empty(),
    {
        let r = Environment { values: StringHashMap::new() };
        assert(r@ =~= Map::<Seq<char>, ValueV>::empty());
        r
    }

    /// Binds `name` to `val`; a name that is bound already is refused and keeps its value.
    pub fn define(&mut self, name: String, val: Value) -> (r: Result<(), EnvironmentError>)
        ensures
            old(self)@.contains_key(name@) ==> r is Err && r->Err_0@
                == EnvironmentErrorV::MultipleAssignmentVariable(name@) && final(self)@ == old(
                self,
            )@,
            !old(self)@.contains_key(name@) ==> r is Ok && final(self)@ == old(self)@.insert(
                name@,
                val@,
            ),
    {
        if self.values.contains_key(name.as_str()) {
            return Err(EnvironmentError::MultipleAssignmentVariable(name));
        }
        let ghost before = self.values@;
        let ghost key = name@;
        let ghost v = val;
        self.values.insert(name, val);
        proof {
            assert(self@ =~= before.map_values(|v: Value| v@).insert(key, v@));
        }
        Ok(())
    }

    /// The value bound to `name`.
    pub fn get(&self, name: &str) -> (r: Result<Value, EnvironmentError>)
        ensures
            self@.contains_key(name@) ==> r is Ok && r->Ok_0@ == self@[name@],
            !self@.contains_key(name@) ==> r is Err && r->Err_0@
                == EnvironmentErrorV::UndefinedVariable(name@),
    {
        match self.values.get(name) {
            Some(v) => Ok(v.duplicate()),
            None => Err(EnvironmentError::UndefinedVariable(name.to_string())),
        }
    }
}

} // verus!
