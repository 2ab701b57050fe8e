//! The scope chain: a store of scopes, each a mapping from names to values
//! with an optional enclosing scope. Scopes are named by their index in the
//! store, so a closure keeps its defining scope by keeping an index, and a
//! change made through one holder of an index is seen by every other.
use vstd::prelude::*;

verus! {

/// A value that can be copied: the copy has the same mathematical value.
pub trait Duplicate: View + Sized {
    fn duplicate(&self) -> (copy: Self)
        ensures
            copy@ == self@,
    ;
}

/// The mathematical value of one scope.
pub struct ScopeView<V> {
    pub bindings: Map<Seq<char>, V>,
    pub enclosing: Option<int>,
}

/// Why an operation on the scope chain failed.
#[derive(Debug, Clone, Copy, PartialEq, Eq, Structural)]
pub enum EnvironmentError {
    /// No scope of the chain binds the name.
    UndefinedVariable,
    /// The scope is the root of its chain, or no scope at all.
    NoEnclosingScope,
}

/// The scope of the chain starting at `scope` that binds `name`, nearest
/// first. An enclosing scope always has a smaller index than the scope it
/// encloses; a link that does not is not followed.
pub open spec fn resolve<V>(scopes: Seq<ScopeView<V>>, scope: int, name: Seq<char>) -> Option<int>
    decreases scope,
{
    if !(0 <= scope < scopes.len()) {
        None
    } else if scopes[scope].bindings.contains_key(name) {
        Some(scope)
    } else {
        match scopes[scope].enclosing {
            Some(outer) => if 0 <= outer < scope {
                resolve(scopes, outer, name)
            } else {
                None
            },
            None => None,
        }
    }
}

/// The value that `name` has when looked up from `scope`.
pub open spec fn lookup<V>(scopes: Seq<ScopeView<V>>, scope: int, name: Seq<char>) -> Option<V> {
    match resolve(scopes, scope, name) {
        Some(owner) => Some(scopes[owner].bindings[name]),
        None => None,
    }
}

/// The store after binding `name` to `value` in `scope` itself; a binding
/// that `scope` already has for the name is replaced.
pub open spec fn declare<V>(scopes: Seq<ScopeView<V>>, scope: int, name: Seq<char>, value: V) -> Seq<
    ScopeView<V>,
> {
    if 0 <= scope < scopes.len() {
        scopes.update(
            scope,
            ScopeView { bindings: scopes[scope].bindings.insert(name, value), enclosing: scopes[scope].enclosing },
        )
    } else {
        scopes
    }
}

/// The store after binding `name` to `value` in `scope` and in every scope
/// that encloses it, up to the root.
pub open spec fn declare_global<V>(scopes: Seq<ScopeView<V>>, scope: int, name: Seq<char>, value: V) -> Seq<
    ScopeView<V>,
>
    decreases scope,
{
    if !(0 <= scope < scopes.len()) {
        scopes
    } else {
        match scopes[scope].enclosing {
            Some(outer) => if 0 <= outer < scope {
                declare_global(declare(scopes, scope, name, value), outer, name, value)
            } else {
                declare(scopes, scope, name, value)
            },
            None => declare(scopes, scope, name, value),
        }
    }
}

/// The store after overwriting the nearest binding of `name` seen from
/// `scope`; `None` where no scope of the chain binds it.
pub open spec fn assign<V>(scopes: Seq<ScopeView<V>>, scope: int, name: Seq<char>, value: V) -> Option<
    Seq<ScopeView<V>>,
> {
    match resolve(scopes, scope, name) {
        Some(owner) => Some(declare(scopes, owner, name, value)),
        None => None,
    }
}

/// The store with one more scope, empty, enclosed by `parent`. Its index is
/// the length of the store before.
pub open spec fn enclose<V>(scopes: Seq<ScopeView<V>>, parent: int) -> Seq<ScopeView<V>> {
    scopes.push(ScopeView { bindings: Map::empty(), enclosing: Some(parent) })
}

/// The mapping that a list of bindings stands for: a later binding of a name
/// hides an earlier one.
pub open spec fn bindings_of<T: View>(entries: Seq<(String, T)>) -> Map<Seq<char>, T::V>
    decreases entries.len(),
{
    if entries.len() == 0 {
        Map::empty()
    } else {
        bindings_of(entries.drop_last()).insert(entries.last().0@, entries.last().1@)
    }
}

/// Where the last binding of a name lies decides what the mapping holds.
proof fn lemma_bindings_last_match<T: View>(entries: Seq<(String, T)>, name: Seq<char>, at: int)
    requires
        0 <= at < entries.len(),
        entries[at].0@ == name,
        forall|j: int| at < j < entries.len() ==> entries[j].0@ != name,
    ensures
        bindings_of(entries).contains_key(name),
        bindings_of(entries)[name] == entries[at].1@,
    decreases entries.len(),
{
    if at < entries.len() - 1 {
        lemma_bindings_last_match(entries.drop_last(), name, at);
    }
}

/// A name that no binding has is not in the mapping.
proof fn lemma_bindings_no_match<T: View>(entries: Seq<(String, T)>, name: Seq<char>)
    requires
        forall|j: int| 0 <= j < entries.len() ==> entries[j].0@ != name,
    ensures
        !bindings_of(entries).contains_key(name),
    decreases entries.len(),
{
    if entries.len() > 0 {
        lemma_bindings_no_match(entries.drop_last(), name);
    }
}

/// Replacing the value of the last binding of a name replaces the name's
/// value in the mapping.
proof fn lemma_bindings_overwrite<T: View>(entries: Seq<(String, T)>, at: int, key: String, value: T)
    requires
        0 <= at < entries.len(),
        entries[at].0@ == key@,
        forall|j: int| at < j < entries.len() ==> entries[j].0@ != key@,
    ensures
        bindings_of(entries.update(at, (key, value))) == bindings_of(entries).insert(key@, value@),
    decreases entries.len(),
{
    let updated = entries.update(at, (key, value));
    if at == entries.len() - 1 {
        assert(updated.drop_last() =~= entries.drop_last());
        assert(bindings_of(updated) =~= bindings_of(entries).insert(key@, value@));
    } else {
        lemma_bindings_overwrite(entries.drop_last(), at, key, value);
        assert(updated.drop_last() =~= entries.drop_last().update(at, (key, value)));
        assert(bindings_of(updated) =~= bindings_of(entries).insert(key@, value@));
    }
}

/// One more binding at the end binds its name.
proof fn lemma_bindings_push<T: View>(entries: Seq<(String, T)>, key: String, value: T)
    ensures
        bindings_of(entries.push((key, value))) == bindings_of(entries).insert(key@, value@),
{
    assert(entries.push((key, value)).drop_last() =~= entries);
}

struct Scope<T> {
    entries: Vec<(String, T)>,
    enclosing: Option<usize>,
}

impl<T: View> Scope<T> {
    spec fn model(&self) -> ScopeView<T::V> {
        ScopeView {
            bindings: bindings_of(self.entries@),
            enclosing: match self.enclosing {
                Some(outer) => Some(outer as int),
                None => None,
            },
        }
    }
}

impl<T: Duplicate> Scope<T> {
    /// The position of the last binding of `name`, if there is one.
    fn find(&self, name: &String) -> (at: Option<usize>)
        ensures
            match at {
                Some(i) => {
                    &&& i < self.entries@.len()
                    &&& self.entries@[i as int].0@ == name@
                    &&& forall|j: int| i < j < self.entries@.len() ==> self.entries@[j].0@ != name@
                    &&& self.model().bindings.contains_key(name@)
                    &&& self.model().bindings[name@] == self.entries@[i as int].1@
                },
                None => !self.model().bindings.contains_key(name@),
            },
    {
        let mut i: usize = self.entries.len();
        while i > 0
            invariant
                i <= self.entries@.len(),
                forall|j: int| i <= j < self.entries@.len() ==> self.entries@[j].0@ != name@,
            decreases i,
        {
            i = i - 1;
            if self.entries[i].0 == *name {
                proof {
                    lemma_bindings_last_match(self.entries@, name@, i as int);
                }
                return Some(i);
            }
        }
        proof {
            lemma_bindings_no_match(self.entries@, name@);
        }
        None
    }

    /// Binds `name` to `value`, in place of what the scope had for it.
    fn bind(&mut self, name: String, value: T)
        ensures
            final(self).model().bindings == old(self).model().bindings.insert(name@, value@),
            final(self).enclosing == old(self).enclosing,
    {
        match self.find(&name) {
            Some(i) => {
                proof {
                    lemma_bindings_overwrite(self.entries@, i as int, name, value);
                }
                self.entries.set(i, (name, value));
            },
            None => {
                proof {
                    lemma_bindings_push(self.entries@, name, value);
                }
                self.entries.push((name, value));
            },
        }
    }
}

/// A store of scopes. `T` is what the names are bound to: types for the
/// checker, values for the evaluator.
pub struct Environment<T> {
    scopes: Vec<Scope<T>>,
}

impl<T: View> View for Environment<T> {
    type V = Seq<ScopeView<T::V>>;

    closed spec fn view(&self) -> Seq<ScopeView<T::V>> {
        Seq::new(self.scopes@.len(), |i: int| self.scopes@[i].model())
    }
}

impl<T: Duplicate> Environment<T> {
    /// A store with one scope, the root: it is empty, has index 0 and no
    /// enclosing scope.
    pub fn new() -> (environment: Self)
        ensures
            environment@ == seq![ScopeView::<T::V> { bindings: Map::empty(), enclosing: None }],
    {
        let mut scopes: Vec<Scope<T>> = Vec::new();
        scopes.push(Scope { entries: Vec::new(), enclosing: None });
        let environment = Environment { scopes };
        proof {
            assert(environment@ =~= seq![
                ScopeView::<T::V> { bindings: Map::empty(), enclosing: None },
            ]);
        }
        environment
    }

    /// The number of scopes in the store.
    pub fn len(&self) -> (count: usize)
        ensures
            count == self@.len(),
    {
        self.scopes.len()
    }

    /// Binds `identifier` to `value` in `scope` and in every scope that
    /// encloses it, up to the root.
    pub fn declare_global(&mut self, scope: usize, identifier: String, value: T)
        ensures
            final(self)@ == declare_global(old(self)@, scope as int, identifier@, value@),
    {
        if scope >= self.scopes.len() {
            return ;
        }
        let mut current = scope;
        loop
            invariant
                current < self@.len(),
                self@.len() == old(self)@.len(),
                declare_global(old(self)@, scope as int, identifier@, value@) == declare_global(
                    self@,
                    current as int,
                    identifier@,
                    value@,
                ),
            decreases current,
        {
            let ghost before = self@;
            let outer = self.scopes[current].enclosing;
            match outer {
                Some(next) => {
                    if next < current {
                        self.bind_in(current, identifier.clone(), value.duplicate());
                        current = next;
                    } else {
                        self.bind_in(current, identifier, value);
                        return ;
                    }
                },
                None => {
                    self.bind_in(current, identifier, value);
                    return ;
                },
            }
        }
    }

    /// The value that `identifier` has when looked up from `scope`: that of
    /// the nearest scope of the chain that binds it.
    pub fn get(&self, scope: usize, identifier: &String) -> (result: Result<T, EnvironmentError>)
        ensures
            match lookup(self@, scope as int, identifier@) {
                Some(value) => result is Ok && result->Ok_0@ == value,
                None => result == Err::<T, EnvironmentError>(EnvironmentError::UndefinedVariable),
            },
    {
        match self.owner(scope, identifier) {
            Some((owner, at)) => Ok(self.scopes[owner].entries[at].1.duplicate()),
            None => Err(EnvironmentError::UndefinedVariable),
        }
    }

    /// Binds `identifier` to `value` in `scope` itself. Enclosing scopes are
    /// neither searched nor changed; a scope that is not in the store stays so.
    pub fn declare(&mut self, scope: usize, identifier: String, value: T)
        ensures
            final(self)@ == declare(old(self)@, scope as int, identifier@, value@),
    {
        if scope < self.scopes.len() {
            self.bind_in(scope, identifier, value);
        }
    }

    /// Overwrites the nearest binding of `identifier` seen from `scope`. No
    /// binding is ever created: where no scope of the chain binds the name,
    /// the store is unchanged and the result is `UndefinedVariable`.
    pub fn assign(&mut self, scope: usize, identifier: &String, value: T) -> (result: Result<
        (),
        EnvironmentError,
    >)
        ensures
            match assign(old(self)@, scope as int, identifier@, value@) {
                Some(scopes) => result is Ok && final(self)@ == scopes,
                None => result == Err::<(), EnvironmentError>(EnvironmentError::UndefinedVariable)
                    && final(self)@ == old(self)@,
            },
    {
        match self.owner(scope, identifier) {
            Some((owner, at)) => {
                self.bind_in(owner, identifier.clone(), value);
                Ok(())
            },
            None => Err(EnvironmentError::UndefinedVariable),
        }
    }

    /// Adds an empty scope enclosed by `parent` and gives its index.
    pub fn enclose(&mut self, parent: usize) -> (scope: usize)
        ensures
            final(self)@ == enclose(old(self)@, parent as int),
            scope == old(self)@.len(),
    {
        let scope = self.scopes.len();
        self.scopes.push(Scope { entries: Vec::new(), enclosing: Some(parent) });
        proof {
            assert(self@ =~= enclose(old(self)@, parent as int));
        }
        scope
    }

    /// The scope that encloses `scope`.
    pub fn get_enclosing(&self, scope: usize) -> (result: Result<usize, EnvironmentError>)
        ensures
            match result {
                Ok(outer) => 0 <= scope < self@.len() && self@[scope as int].enclosing == Some(outer as int),
                Err(e) => e == EnvironmentError::NoEnclosingScope && (scope >= self@.len()
                    || self@[scope as int].enclosing is None),
            },
    {
        if scope < self.scopes.len() {
            match self.scopes[scope].enclosing {
                Some(outer) => Ok(outer),
                None => Err(EnvironmentError::NoEnclosingScope),
            }
        } else {
            Err(EnvironmentError::NoEnclosingScope)
        }
    }

    /// The scope that binds `identifier`, nearest first, and where in it.
    fn owner(&self, scope: usize, identifier: &String) -> (found: Option<(usize, usize)>)
        ensures
            match found {
                Some((owner, at)) => {
                    &&& resolve(self@, scope as int, identifier@) == Some(owner as int)
                    &&& owner < self.scopes@.len()
                    &&& at < self.scopes@[owner as int].entries@.len()
                    &&& self.scopes@[owner as int].entries@[at as int].1@ == self@[owner as int].bindings[identifier@]
                },
                None => resolve(self@, scope as int, identifier@) is None,
            },
    {
        let mut current = scope;
        loop
            invariant
                resolve(self@, scope as int, identifier@) == resolve(self@, current as int, identifier@),
            decreases current,
        {
            if current >= self.scopes.len() {
                return None;
            }
            match self.scopes[current].find(identifier) {
                Some(at) => {
                    return Some((current, at));
                },
                None => {},
            }
            match self.scopes[current].enclosing {
                Some(outer) => {
                    if outer < current {
                        current = outer;
                    } else {
                        return None;
                    }
                },
                None => {
                    return None;
                },
            }
        }
    }

    /// Binds `identifier` to `value` in the scope at `scope`.
    fn bind_in(&mut self, scope: usize, identifier: String, value: T)
        requires
            scope < old(self)@.len(),
        ensures
            final(self)@ == declare(old(self)@, scope as int, identifier@, value@),
    {
        let mut taken = Scope { entries: Vec::new(), enclosing: None };
        std::mem::swap(&mut taken, &mut self.scopes[scope]);
        taken.bind(identifier, value);
        self.scopes.set(scope, taken);
        proof {
            assert(self@ =~= declare(old(self)@, scope as int, identifier@, value@));
        }
    }
}

} // verus!

verus! {

/// A lookup sees only the scopes of its chain: two stores that agree on the
/// scopes up to `scope` give the same result from `scope`.
pub proof fn lemma_resolve_depends_on_chain<V>(a: Seq<ScopeView<V>>, b: Seq<ScopeView<V>>, scope: int, name: Seq<char>)
    requires
        0 <= scope < a.len(),
        scope < b.len(),
        forall|i: int| 0 <= i <= scope ==> a[i] == b[i],
    ensures
        resolve(a, scope, name) == resolve(b, scope, name),
        lookup(a, scope, name) == lookup(b, scope, name),
    decreases scope,
{
    if !a[scope].bindings.contains_key(name) {
        match a[scope].enclosing {
            Some(outer) => {
                if 0 <= outer < scope {
                    lemma_resolve_depends_on_chain(a, b, outer, name);
                }
            },
            None => {},
        }
    }
}

/// What is declared in a scope made by `enclose` is not seen from its
/// parent, nor from any scope that was there before: a declaration never
/// reaches outwards.
pub proof fn law_declaration_stays_inside<V>(
    scopes: Seq<ScopeView<V>>,
    parent: int,
    declared: Seq<char>,
    value: V,
    from: int,
    name: Seq<char>,
)
    requires
        0 <= from < scopes.len(),
    ensures
        lookup(declare(enclose(scopes, parent), scopes.len() as int, declared, value), from, name) == lookup(
            scopes,
            from,
            name,
        ),
{
    let inner = declare(enclose(scopes, parent), scopes.len() as int, declared, value);
    lemma_resolve_depends_on_chain(inner, scopes, from, name);
}

/// A scope made by `enclose` sees, for every name that it does not bind
/// itself, what its parent sees.
pub proof fn law_enclosed_scope_sees_parent<V>(scopes: Seq<ScopeView<V>>, parent: int, name: Seq<char>)
    requires
        0 <= parent < scopes.len(),
    ensures
        lookup(enclose(scopes, parent), scopes.len() as int, name) == lookup(scopes, parent, name),
{
    let inner = enclose(scopes, parent);
    lemma_resolve_depends_on_chain(inner, scopes, parent, name);
    assert(!inner[scopes.len() as int].bindings.contains_key(name));
}

/// Where a scope binds a name, an assignment to the name from there
/// overwrites that binding, and a lookup from there gives the new value.
proof fn lemma_assign_then_lookup<V>(scopes: Seq<ScopeView<V>>, scope: int, name: Seq<char>, value: V)
    requires
        resolve(scopes, scope, name) is Some,
    ensures
        assign(scopes, scope, name, value) is Some,
        lookup(assign(scopes, scope, name, value)->Some_0, scope, name) == Some(value),
        resolve(assign(scopes, scope, name, value)->Some_0, scope, name) == resolve(scopes, scope, name),
    decreases scope,
{
    let owner = resolve(scopes, scope, name)->Some_0;
    let after = declare(scopes, owner, name, value);
    if scopes[scope].bindings.contains_key(name) {
        assert(after[scope].bindings.contains_key(name));
    } else {
        let outer = scopes[scope].enclosing->Some_0;
        lemma_assign_then_lookup(scopes, outer, name, value);
        lemma_resolve_owner(scopes, outer, name);
        assert(after[scope] == scopes[scope]);
    }
}

/// An assignment made inside a scope that `enclose` made, to a name that the
/// parent sees and the new scope does not bind, changes the binding that the
/// parent sees: after the construct is left, the new value is there.
pub proof fn law_assignment_reaches_outwards<V>(scopes: Seq<ScopeView<V>>, parent: int, name: Seq<char>, value: V)
    requires
        0 <= parent < scopes.len(),
        lookup(scopes, parent, name) is Some,
    ensures
        assign(enclose(scopes, parent), scopes.len() as int, name, value) is Some,
        lookup(assign(enclose(scopes, parent), scopes.len() as int, name, value)->Some_0, parent, name)
            == Some(value),
{
    let inner = enclose(scopes, parent);
    let new = scopes.len() as int;
    lemma_resolve_depends_on_chain(inner, scopes, parent, name);
    assert(!inner[new].bindings.contains_key(name));
    assert(resolve(inner, new, name) == resolve(inner, parent, name));
    lemma_assign_then_lookup(inner, parent, name, value);
    assert(assign(inner, new, name, value) == assign(inner, parent, name, value));
}

/// An assignment never makes a binding: it leaves the names that each scope
/// binds as they were.
pub proof fn law_assignment_binds_no_name<V>(scopes: Seq<ScopeView<V>>, scope: int, name: Seq<char>, value: V)
    requires
        assign(scopes, scope, name, value) is Some,
    ensures
        assign(scopes, scope, name, value)->Some_0.len() == scopes.len(),
        forall|i: int|
            0 <= i < scopes.len() ==> (#[trigger] assign(scopes, scope, name, value)->Some_0[i]).bindings.dom()
                == scopes[i].bindings.dom() && assign(scopes, scope, name, value)->Some_0[i].enclosing
                == scopes[i].enclosing,
{
    lemma_resolve_owner(scopes, scope, name);
    let owner = resolve(scopes, scope, name)->Some_0;
    let after = declare(scopes, owner, name, value);
    assert forall|i: int| 0 <= i < scopes.len() implies (#[trigger] after[i]).bindings.dom()
        == scopes[i].bindings.dom() && after[i].enclosing == scopes[i].enclosing by {
        if i == owner {
            assert(after[i].bindings.dom() =~= scopes[i].bindings.dom());
        }
    }
}

/// The scope that `resolve` finds is in the store and binds the name.
pub proof fn lemma_resolve_owner<V>(scopes: Seq<ScopeView<V>>, scope: int, name: Seq<char>)
    ensures
        resolve(scopes, scope, name) matches Some(owner) ==> 0 <= owner <= scope && owner < scopes.len()
            && scopes[owner].bindings.contains_key(name),
    decreases scope,
{
    if 0 <= scope < scopes.len() && !scopes[scope].bindings.contains_key(name) {
        match scopes[scope].enclosing {
            Some(outer) => {
                if 0 <= outer < scope {
                    lemma_resolve_owner(scopes, outer, name);
                }
            },
            None => {},
        }
    }
}

} // verus!

verus! {

/// A declaration changes what one name means and no other: every other name
/// is looked up as before, from every scope.
pub proof fn law_declaration_changes_one_name<V>(
    scopes: Seq<ScopeView<V>>,
    scope: int,
    declared: Seq<char>,
    value: V,
    from: int,
    name: Seq<char>,
)
    requires
        name != declared,
    ensures
        lookup(declare(scopes, scope, declared, value), from, name) == lookup(scopes, from, name),
        resolve(declare(scopes, scope, declared, value), from, name) == resolve(scopes, from, name),
    decreases from,
{
    let after = declare(scopes, scope, declared, value);
    if 0 <= from < scopes.len() {
        if !scopes[from].bindings.contains_key(name) {
            match scopes[from].enclosing {
                Some(outer) => {
                    if 0 <= outer < from {
                        law_declaration_changes_one_name(scopes, scope, declared, value, outer, name);
                    }
                },
                None => {},
            }
        }
    }
}

/// A lookup from the scope in which a name was just declared gives the value
/// declared.
pub proof fn law_declaration_is_seen<V>(scopes: Seq<ScopeView<V>>, scope: int, name: Seq<char>, value: V)
    requires
        0 <= scope < scopes.len(),
    ensures
        lookup(declare(scopes, scope, name, value), scope, name) == Some(value),
{
}

} // verus!
