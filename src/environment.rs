//! Lexically scoped variables. All bindings live in one sequence, innermost
//! last; each open scope remembers where its bindings begin. A lookup walks
//! from the end, so the innermost and latest binding of a name wins.
use vstd::prelude::*;
use crate::error::LoxError;
use crate::value::{Value, ValueView};

verus! {

pub type Binding = (Seq<char>, ValueView);

/// The value the innermost binding of `name` holds.
pub open spec fn lookup(b: Seq<Binding>, name: Seq<char>) -> Option<ValueView>
    decreases b.len(),
{
    if b.len() == 0 {
        None
    } else if b.last().0 == name {
        Some(b.last().1)
    } else {
        lookup(b.drop_last(), name)
    }
}

/// The index of the innermost binding of `name`, or -1.
pub open spec fn find(b: Seq<Binding>, name: Seq<char>) -> int
    decreases b.len(),
{
    if b.len() == 0 {
        -1
    } else if b.last().0 == name {
        b.len() - 1
    } else {
        find(b.drop_last(), name)
    }
}

/// The bindings after assigning `v` to `name`: the innermost binding of it
/// takes the value; none where no binding of it exists.
pub open spec fn assigned(b: Seq<Binding>, name: Seq<char>, v: ValueView) -> Option<Seq<Binding>> {
    let i = find(b, name);
    if 0 <= i < b.len() {
        Some(b.update(i, (name, v)))
    } else {
        None
    }
}

/// The first `n` bindings, or all of them where there are fewer.
pub open spec fn take(b: Seq<Binding>, n: int) -> Seq<Binding> {
    if 0 <= n <= b.len() {
        b.subrange(0, n)
    } else {
        b
    }
}

pub proof fn lemma_find(b: Seq<Binding>, name: Seq<char>)
    ensures
        -1 <= find(b, name) < b.len(),
        (find(b, name) >= 0) == (lookup(b, name) is Some),
        find(b, name) >= 0 ==> b[find(b, name)].0 == name && lookup(b, name) == Some(b[find(b, name)].1),
    decreases b.len(),
{
    if b.len() > 0 && b.last().0 != name {
        lemma_find(b.drop_last(), name);
    }
}

/// Variables by scope.
pub struct Environment {
    bindings: Vec<(String, Value)>,
    marks: Vec<usize>,
}

impl Environment {
    /// All bindings, outermost first.
    pub closed spec fn bindings(&self) -> Seq<Binding> {
        self.bindings@.map_values(|p: (String, Value)| (p.0@, p.1@))
    }

    /// Where each open inner scope begins, outermost first.
    pub closed spec fn marks(&self) -> Seq<usize> {
        self.marks@
    }

    /// An empty global scope.
    pub fn new() -> (r: Self)
        ensures
            r.bindings() == Seq::<Binding>::empty(),
            r.marks() == Seq::<usize>::empty(),
    {
        let r = Environment { bindings: Vec::new(), marks: Vec::new() };
        assert(r.bindings() =~= Seq::<Binding>::empty());
        r
    }

    /// `parent` with a new, empty inner scope.
    pub fn with_parent(parent: Environment) -> (r: Self)
        ensures
            r.bindings() == parent.bindings(),
            r.marks() == parent.marks().push(parent.bindings().len() as usize),
    {
        let mut p = parent;
        let n = p.bindings.len();
        p.marks.push(n);
        p
    }

    /// Opens a new, empty inner scope.
    pub fn open_scope(&mut self)
        ensures
            final(self).bindings() == old(self).bindings(),
            final(self).marks().len() == old(self).marks().len() + 1,
            final(self).marks().drop_last() == old(self).marks(),
            final(self).marks().last() as int == old(self).bindings().len(),
    {
        let n = self.bindings.len();
        assert(self.marks@.push(n).drop_last() =~= self.marks@);
        self.marks.push(n);
    }

    /// Closes the innermost scope, dropping its bindings; the global scope
    /// stays open.
    pub fn close_scope(&mut self)
        ensures
            old(self).marks().len() == 0 ==> final(self).marks() == old(self).marks()
                && final(self).bindings() == old(self).bindings(),
            old(self).marks().len() > 0 ==> final(self).marks() == old(self).marks().drop_last()
                && final(self).bindings() == take(old(self).bindings(), old(self).marks().last() as int),
    {
        match self.marks.pop() {
            Some(m) => {
                self.bindings.truncate(m);
                assert(self.bindings() =~= take(old(self).bindings(), m as int));
            },
            None => {},
        }
    }

    /// Binds `name` in the innermost scope, over any binding of it there.
    pub fn define(&mut self, name: String, value: Value)
        ensures
            final(self).bindings() == old(self).bindings().push((name@, value@)),
            final(self).marks() == old(self).marks(),
    {
        let ghost v = value@;
        let ghost nm = name@;
        self.bindings.push((name, value));
        assert(self.bindings() =~= old(self).bindings().push((nm, v)));
    }

    /// The value of the innermost binding of `name`.
    pub fn get(&self, name: &str) -> (r: Option<&Value>)
        ensures
            match r {
                Some(v) => lookup(self.bindings(), name@) == Some(v@),
                None => lookup(self.bindings(), name@) is None,
            },
    {
        proof {
            lemma_find(self.bindings(), name@);
        }
        match self.find_index(name) {
            Some(i) => Some(&self.bindings[i].1),
            None => None,
        }
    }

    /// Gives the innermost binding of `name` the value `value`; fails with
    /// "Undefined variable" on `line`, changing nothing, where `name` is bound
    /// nowhere.
    pub fn assign(&mut self, name: String, value: Value, line: usize) -> (r: Result<(), LoxError>)
        ensures
            final(self).marks() == old(self).marks(),
            match assigned(old(self).bindings(), name@, value@) {
                Some(b) => r is Ok && final(self).bindings() == b,
                None => r is Err && final(self).bindings() == old(self).bindings()
                    && r->Err_0.message@ == "Undefined variable"@ && r->Err_0.line == Some(line),
            },
    {
        proof {
            lemma_find(self.bindings(), name@);
        }
        match self.find_index(name.as_str()) {
            Some(i) => {
                let ghost nm = name@;
                let ghost v = value@;
                self.bindings.set(i, (name, value));
                assert(self.bindings() =~= old(self).bindings().update(i as int, (nm, v)));
                Ok(())
            },
            None => Err(LoxError::new("Undefined variable", Some(line))),
        }
    }

    fn find_index(&self, name: &str) -> (r: Option<usize>)
        ensures
            match r {
                Some(i) => i == find(self.bindings(), name@),
                None => find(self.bindings(), name@) == -1,
            },
    {
        let key = String::from_str(name);
        let mut i = self.bindings.len();
        assert(self.bindings().subrange(0, i as int) =~= self.bindings());
        while i > 0
            invariant
                i <= self.bindings@.len(),
                key@ == name@,
                find(self.bindings(), name@) == find(self.bindings().subrange(0, i as int), name@),
            decreases i,
        {
            assert(self.bindings().subrange(0, i as int).drop_last() =~= self.bindings().subrange(0, i - 1));
            if self.bindings[i - 1].0 == key {
                return Some(i - 1);
            }
            i -= 1;
        }
        None
    }
}

} // verus!
