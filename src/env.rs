//! Scopes that borrow their enclosing scope: a child scope reads through to
//! its parent and lives no longer than it.
use vstd::prelude::*;
use crate::environment::{lookup, Binding};
use crate::value::Value;

verus! {

/// One scope's bindings and the scope that encloses it, if any.
pub struct Env<'parent> {
    bindings: Vec<(String, Value)>,
    parent: Option<&'parent Env<'parent>>,
}

impl<'parent> Env<'parent> {
    /// The bindings visible here, outermost scope first, each scope in the
    /// order its bindings were stored.
    pub closed spec fn visible(&self) -> Seq<Binding>
        decreases self,
    {
        let own = self.bindings@.map_values(|p: (String, Value)| (p.0@, p.1@));
        match self.parent {
            Some(p) => p.visible() + own,
            None => own,
        }
    }

    /// An empty scope with no parent.
    pub fn new() -> (r: Self)
        ensures
            r.visible() == Seq::<Binding>::empty(),
    {
        let r = Env { bindings: Vec::new(), parent: None };
        assert(r.visible() =~= Seq::<Binding>::empty());
        r
    }

    /// An empty scope inside this one.
    pub fn create_child(&'parent self) -> (r: Self)
        ensures
            r.visible() == self.visible(),
    {
        let r = Env { bindings: Vec::new(), parent: Some(self) };
        assert(r.visible() =~= self.visible());
        r
    }

    /// Binds `name` in this scope, over any earlier binding of it.
    pub fn store_binding(&mut self, name: String, val: Value)
        ensures
            final(self).visible() == old(self).visible().push((name@, val@)),
    {
        let ghost nm = name@;
        let ghost v = val@;
        self.bindings.push((name, val));
        assert(self.visible() =~= old(self).visible().push((nm, v)));
    }
}

proof fn lemma_lookup_append(a: Seq<Binding>, b: Seq<Binding>, name: Seq<char>)
    ensures
        lookup(a + b, name) == match lookup(b, name) {
            Some(v) => Some(v),
            None => lookup(a, name),
        },
    decreases b.len(),
{
    if b.len() == 0 {
        assert(a + b =~= a);
    } else {
        assert((a + b).drop_last() =~= a + b.drop_last());
        lemma_lookup_append(a, b.drop_last(), name);
    }
}

impl<'parent> Env<'parent> {
    /// The value of the innermost binding of `name`, if any scope holds one.
    pub fn get_binding_value_without_error(&self, name: &str) -> (r: Option<Value>)
        ensures
            match r {
                Some(v) => lookup(self.visible(), name@) == Some(v@),
                None => lookup(self.visible(), name@) is None,
            },
        decreases self,
    {
        let key = String::from_str(name);
        let ghost own = self.bindings@.map_values(|p: (String, Value)| (p.0@, p.1@));
        let mut i = self.bindings.len();
        assert(own.subrange(0, i as int) =~= own);
        while i > 0
            invariant
                i <= self.bindings@.len(),
                own == self.bindings@.map_values(|p: (String, Value)| (p.0@, p.1@)),
                key@ == name@,
                lookup(own, name@) == lookup(own.subrange(0, i as int), name@),
            decreases i,
        {
            assert(own.subrange(0, i as int).drop_last() =~= own.subrange(0, i - 1));
            if self.bindings[i - 1].0 == key {
                proof {
                    lemma_lookup_append(match self.parent { Some(p) => p.visible(), None => Seq::empty() }, own, name@);
                    assert(self.parent is None ==> Seq::<Binding>::empty() + own =~= own);
                }
                return Some(self.bindings[i - 1].1.duplicate());
            }
            i -= 1;
        }
        proof {
            lemma_lookup_append(match self.parent { Some(p) => p.visible(), None => Seq::empty() }, own, name@);
            assert(self.parent is None ==> Seq::<Binding>::empty() + own =~= own);
            assert(own.subrange(0, 0) =~= Seq::<Binding>::empty());
        }
        match self.parent {
            Some(p) => p.get_binding_value_without_error(name),
            None => None,
        }
    }

    /// The value of the innermost binding of `name`, or an error naming it.
    pub fn get_binding_value(&self, name: &str) -> (r: Result<Value, String>)
        ensures
            match r {
                Ok(v) => lookup(self.visible(), name@) == Some(v@),
                Err(m) => lookup(self.visible(), name@) is None
                    && m@ == "binding with name '"@ + name@ + "' does not exist"@,
            },
    {
        match self.get_binding_value_without_error(name) {
            Some(v) => Ok(v),
            None => {
                let mut message = String::from_str("binding with name '");
                message.append(name);
                message.append("' does not exist");
                Err(message)
            },
        }
    }
}

} // verus!
