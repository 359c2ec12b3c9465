//! The shared variable mapping: one flat store for a whole run, keyed
//! by symbol name, with no scoping.  `set` anywhere in a program writes
//! to it and later references anywhere read from it.
//!
//! The store is an association list where the newest binding stands in
//! front; its model is the finite map the bindings denote, the newest
//! binding for a name winning.

use vstd::prelude::*;

verus! {

use crate::token::Token;
use crate::token::Val;
use crate::token::bytes_eq;
use crate::token::token_clone;

/// One variable binding.
pub struct Binding {
    pub name: Vec<u8>,
    pub value: Token,
}

/// The map denoted by a binding list, the front binding winning.
pub open spec fn env_model_at(entries: Seq<Binding>) -> Map<Seq<u8>, Val>
    decreases entries,
{
    if entries.len() == 0 {
        Map::empty()
    } else {
        env_model_at(entries.drop_first()).insert(entries[0].name@, entries[0].value.model())
    }
}

/// A binding list hidden in [`env_model_at`]'s tail behaves, for a name
/// not bound in the dropped prefix, like the whole list.
proof fn lemma_env_skip(entries: Seq<Binding>, i: int, name: Seq<u8>)
    requires
        0 <= i <= entries.len(),
        forall|j: int| 0 <= j < i ==> entries[j].name@ != name,
    ensures
        env_model_at(entries).contains_key(name) == env_model_at(entries.skip(i)).contains_key(
            name,
        ),
        env_model_at(entries).contains_key(name) ==> env_model_at(entries)[name] == env_model_at(
            entries.skip(i),
        )[name],
    decreases i,
{
    if i > 0 {
        lemma_env_skip(entries.drop_first(), i - 1, name);
        assert(entries.drop_first().skip(i - 1) =~= entries.skip(i));
        assert(entries.skip(0) =~= entries);
    } else {
        assert(entries.skip(0) =~= entries);
    }
}

/// The shared variable mapping.
pub struct Env {
    pub entries: Vec<Binding>,
}

impl Env {
    /// The map this store denotes.
    pub open spec fn model(self) -> Map<Seq<u8>, Val> {
        env_model_at(self.entries@)
    }

    /// An empty store.
    pub fn new() -> (r: Env)
        ensures
            r.model() == Map::<Seq<u8>, Val>::empty(),
    {
        Env { entries: Vec::new() }
    }

    /// Looks a name up and hands back a copy of its value, or `None`
    /// where the name is unbound.
    pub fn get(&self, name: &Vec<u8>) -> (r: Option<Token>)
        ensures
            match r {
                Some(t) => self.model().contains_key(name@) && t.model() == self.model()[name@],
                None => !self.model().contains_key(name@),
            },
    {
        let mut i: usize = 0;
        while i < self.entries.len()
            invariant
                i <= self.entries@.len(),
                forall|j: int| 0 <= j < i ==> self.entries@[j].name@ != name@,
            decreases self.entries@.len() - i,
        {
            if bytes_eq(&self.entries[i].name, name) {
                let t = token_clone(&self.entries[i].value);
                proof {
                    lemma_env_skip(self.entries@, i as int, name@);
                    assert(self.entries@.skip(i as int).drop_first() =~= self.entries@.skip(
                        i + 1,
                    ));
                }
                return Some(t);
            }
            i = i + 1;
        }
        proof {
            lemma_env_skip(self.entries@, self.entries@.len() as int, name@);
            assert(self.entries@.skip(self.entries@.len() as int) =~= Seq::<Binding>::empty());
        }
        None
    }

    /// Binds a name, shadowing any earlier binding of it.
    pub fn set(&mut self, name: Vec<u8>, value: Token)
        ensures
            final(self).model() == old(self).model().insert(name@, value.model()),
    {
        self.entries.insert(0, Binding { name, value });
        proof {
            assert(self.entries@.drop_first() =~= old(self).entries@);
        }
    }
}

} // verus!
