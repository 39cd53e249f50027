//! The environment: a stack of scopes, each mapping names to values.
use vstd::prelude::*;
use crate::ast::{Value, ValueView};

verus! {

/// The bindings of one scope, as a map from names to values.
pub open spec fn scope_map(v: Seq<(String, Value)>) -> Map<Seq<char>, ValueView>
    decreases v.len(),
{
    if v.len() == 0 {
        Map::empty()
    } else {
        scope_map(v.drop_last()).insert(v.last().0@, v.last().1@)
    }
}

/// No name is bound twice in one scope.
pub open spec fn keys_unique(v: Seq<(String, Value)>) -> bool {
    forall|i: int, j: int| 0 <= i < j < v.len() ==> v[i].0@ != v[j].0@
}

proof fn lemma_scope_find(v: Seq<(String, Value)>, i: int)
    requires
        keys_unique(v),
        0 <= i < v.len(),
    ensures
        scope_map(v).contains_key(v[i].0@),
        scope_map(v)[v[i].0@] == v[i].1@,
    decreases v.len(),
{
    if i < v.len() - 1 {
        lemma_scope_find(v.drop_last(), i);
    }
}

proof fn lemma_scope_absent(v: Seq<(String, Value)>, k: Seq<char>)
    requires
        forall|i: int| 0 <= i < v.len() ==> v[i].0@ != k,
    ensures
        !scope_map(v).contains_key(k),
    decreases v.len(),
{
    if v.len() > 0 {
        lemma_scope_absent(v.drop_last(), k);
    }
}

proof fn lemma_scope_update(v: Seq<(String, Value)>, i: int, val: Value)
    requires
        keys_unique(v),
        0 <= i < v.len(),
    ensures
        scope_map(v.update(i, (v[i].0, val))) == scope_map(v).insert(v[i].0@, val@),
        keys_unique(v.update(i, (v[i].0, val))),
    decreases v.len(),
{
    let w = v.update(i, (v[i].0, val));
    if i == v.len() - 1 {
        assert(w.drop_last() =~= v.drop_last());
        lemma_scope_absent(v.drop_last(), v[i].0@);
        assert(scope_map(w) =~= scope_map(v).insert(v[i].0@, val@));
    } else {
        lemma_scope_update(v.drop_last(), i, val);
        assert(w.drop_last() =~= v.drop_last().update(i, (v[i].0, val)));
        assert(scope_map(w) =~= scope_map(v).insert(v[i].0@, val@));
    }
}

/// The innermost scope that binds `name`, if any.
pub open spec fn innermost(e: Seq<Map<Seq<char>, ValueView>>, name: Seq<char>) -> Option<int>
    decreases e.len(),
{
    if e.len() == 0 {
        None
    } else if e.last().contains_key(name) {
        Some(e.len() - 1)
    } else {
        innermost(e.drop_last(), name)
    }
}

proof fn lemma_innermost_prefix(e: Seq<Map<Seq<char>, ValueView>>, name: Seq<char>, n: int)
    requires
        0 <= n <= e.len(),
        forall|k: int| n <= k < e.len() ==> !(#[trigger] e[k]).contains_key(name),
    ensures
        innermost(e, name) == innermost(e.subrange(0, n), name),
    decreases e.len() - n,
{
    if n < e.len() {
        assert(e.drop_last().subrange(0, n) =~= e.subrange(0, n));
        lemma_innermost_prefix(e.drop_last(), name, n);
    } else {
        assert(e.subrange(0, n) =~= e);
    }
}

/// The innermost scope that binds a name is one of the scopes, and binds it.
pub proof fn lemma_innermost_bounds(e: Seq<Map<Seq<char>, ValueView>>, name: Seq<char>)
    ensures
        innermost(e, name) matches Some(s) ==> 0 <= s < e.len() && e[s].contains_key(name),
    decreases e.len(),
{
    if e.len() > 0 && !e.last().contains_key(name) {
        lemma_innermost_bounds(e.drop_last(), name);
    }
}

/// The value of `name` in the innermost scope that binds it.
pub open spec fn env_get(e: Seq<Map<Seq<char>, ValueView>>, name: Seq<char>) -> Option<ValueView> {
    match innermost(e, name) {
        Some(s) => Some(e[s][name]),
        None => None,
    }
}

/// The scopes after setting `name` in the innermost scope that binds it; `None`
/// when no scope does.
pub open spec fn env_assign(e: Seq<Map<Seq<char>, ValueView>>, name: Seq<char>, v: ValueView) -> Option<
    Seq<Map<Seq<char>, ValueView>>,
> {
    match innermost(e, name) {
        Some(s) => Some(e.update(s, e[s].insert(name, v))),
        None => None,
    }
}

/// The scopes after binding `name` in the innermost scope.
pub open spec fn env_define(e: Seq<Map<Seq<char>, ValueView>>, name: Seq<char>, v: ValueView) -> Seq<
    Map<Seq<char>, ValueView>,
> {
    e.update(e.len() - 1, e.last().insert(name, v))
}

/// A stack of scopes; the global scope at the bottom is never popped.
pub struct Environment {
    scopes: Vec<Vec<(String, Value)>>,
}

impl View for Environment {
    type V = Seq<Map<Seq<char>, ValueView>>;

    closed spec fn view(&self) -> Seq<Map<Seq<char>, ValueView>> {
        Seq::new(self.scopes@.len(), |i: int| scope_map(self.scopes@[i]@))
    }
}

impl Environment {
    pub closed spec fn wf(&self) -> bool {
        &&& self.scopes@.len() >= 1
        &&& forall|i: int| 0 <= i < self.scopes@.len() ==> keys_unique(#[trigger] self.scopes@[i]@)
    }

    /// An environment with the global scope alone, empty.
    pub fn new() -> (r: Self)
        ensures
            r.wf(),
            r@ == seq![Map::<Seq<char>, ValueView>::empty()],
    {
        let e = Environment { scopes: vec![Vec::new()] };
        assert(e@ =~= seq![Map::<Seq<char>, ValueView>::empty()]);
        e
    }

    pub fn depth(&self) -> (r: usize)
        ensures
            r == self@.len(),
    {
        self.scopes.len()
    }

    /// Where `name` is bound in scope `s`, if it is.
    fn find(&self, s: usize, name: &String) -> (r: Option<usize>)
        requires
            self.wf(),
            s < self.scopes@.len(),
        ensures
            match r {
                Some(i) => i < self.scopes@[s as int]@.len() && self.scopes@[s as int]@[i as int].0@
                    == name@,
                None => forall|i: int|
                    0 <= i < self.scopes@[s as int]@.len() ==> self.scopes@[s as int]@[i].0@
                        != name@,
            },
    {
        let scope = &self.scopes[s];
        let mut i: usize = 0;
        while i < scope.len()
            invariant
                scope@ == self.scopes@[s as int]@,
                i <= scope@.len(),
                forall|k: int| 0 <= k < i ==> scope@[k].0@ != name@,
            decreases scope@.len() - i,
        {
            if scope[i].0 == *name {
                return Some(i);
            }
            i = i + 1;
        }
        None
    }

    /// The innermost scope that binds `name`, and where in it.
    fn locate(&self, name: &String) -> (r: Option<(usize, usize)>)
        requires
            self.wf(),
        ensures
            match r {
                Some((s, i)) => innermost(self@, name@) == Some(s as int) && s < self.scopes@.len()
                    && i
                    < self.scopes@[s as int]@.len() && self.scopes@[s as int]@[i as int].0@
                    == name@,
                None => innermost(self@, name@) is None,
            },
    {
        let mut s = self.scopes.len();
        while s > 0
            invariant
                self.wf(),
                s <= self.scopes@.len(),
                forall|k: int| s <= k < self@.len() ==> !(#[trigger] self@[k]).contains_key(name@),
            decreases s,
        {
            match self.find(s - 1, name) {
                Some(i) => {
                    proof {
                        lemma_scope_find(self.scopes@[s - 1]@, i as int);
                        lemma_innermost_prefix(self@, name@, s as int);
                        assert(self@.subrange(0, s as int).last() == self@[s - 1]);
                    }
                    return Some((s - 1, i));
                },
                None => {
                    proof {
                        lemma_scope_absent(self.scopes@[s - 1]@, name@);
                    }
                },
            }
            s = s - 1;
        }
        proof {
            lemma_innermost_prefix(self@, name@, 0);
        }
        None
    }

    /// The value of `name` in the innermost scope that binds it.
    pub fn get(&self, name: &String) -> (r: Option<Value>)
        requires
            self.wf(),
        ensures
            match r {
                Some(v) => env_get(self@, name@) == Some(v@),
                None => env_get(self@, name@) is None,
            },
    {
        match self.locate(name) {
            Some((s, i)) => {
                proof {
                    lemma_scope_find(self.scopes@[s as int]@, i as int);
                }
                Some(self.scopes[s][i].1.clone())
            },
            None => None,
        }
    }

    /// Sets `name` in the innermost scope that binds it; `false` when none does.
    pub fn assign(&mut self, name: &String, value: Value) -> (r: bool)
        requires
            old(self).wf(),
        ensures
            final(self).wf(),
            match env_assign(old(self)@, name@, value@) {
                Some(e) => r && final(self)@ == e,
                None => !r && final(self)@ == old(self)@,
            },
    {
        match self.locate(name) {
            Some((s, i)) => {
                self.set_in(s, i, value);
                true
            },
            None => false,
        }
    }

    /// Sets the value of the binding at `i` in scope `s`.
    fn set_in(&mut self, s: usize, i: usize, value: Value)
        requires
            old(self).wf(),
            s < old(self).scopes@.len(),
            i < old(self).scopes@[s as int]@.len(),
        ensures
            final(self).wf(),
            final(self)@ == old(self)@.update(
                s as int,
                old(self)@[s as int].insert(old(self).scopes@[s as int]@[i as int].0@, value@),
            ),
    {
        let mut scope: Vec<(String, Value)> = Vec::new();
        self.scopes.set_and_swap(s, &mut scope);
        let ghost before = scope@;
        let key = scope[i].0.clone();
        scope.set(i, (key, value));
        proof {
            lemma_scope_update(before, i as int, value);
        }
        self.scopes.set(s, scope);
        assert(self@ =~= old(self)@.update(
            s as int,
            old(self)@[s as int].insert(old(self).scopes@[s as int]@[i as int].0@, value@),
        ));
    }

    /// Binds `name` in the innermost scope, replacing a binding of the same name there.
    pub fn define(&mut self, name: String, value: Value)
        requires
            old(self).wf(),
        ensures
            final(self).wf(),
            final(self)@ == env_define(old(self)@, name@, value@),
    {
        let s = self.scopes.len() - 1;
        match self.find(s, &name) {
            Some(i) => {
                self.set_in(s, i, value);
            },
            None => {
                let mut scope: Vec<(String, Value)> = Vec::new();
                self.scopes.set_and_swap(s, &mut scope);
                let ghost before = scope@;
                scope.push((name, value));
                assert(scope@.drop_last() == before);
                self.scopes.set(s, scope);
                assert(self@ =~= env_define(old(self)@, name@, value@));
            },
        }
    }

    /// Enters a new, empty innermost scope.
    pub fn push_scope(&mut self)
        requires
            old(self).wf(),
        ensures
            final(self).wf(),
            final(self)@ == old(self)@.push(Map::empty()),
    {
        self.scopes.push(Vec::new());
        assert(self@ =~= old(self)@.push(Map::empty()));
    }

    /// Leaves the innermost scope; the global scope is never left.
    pub fn pop_scope(&mut self)
        requires
            old(self).wf(),
        ensures
            final(self).wf(),
            final(self)@ == if old(self)@.len() > 1 {
                old(self)@.drop_last()
            } else {
                old(self)@
            },
    {
        if self.scopes.len() > 1 {
            self.scopes.pop();
            assert(self@ =~= old(self)@.drop_last());
        }
    }

    /// Leaves every scope but the global one.
    pub fn unwind(&mut self)
        requires
            old(self).wf(),
        ensures
            final(self).wf(),
            final(self)@ == old(self)@.subrange(0, 1),
    {
        self.scopes.truncate(1);
        assert(self@ =~= old(self)@.subrange(0, 1));
    }
}

} // verus!
