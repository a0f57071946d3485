//! The custom function registry: a mapping from function names to handler
//! capabilities.
//!
//! A handler itself is an asynchronous callable supplied by the embedding
//! program; the core identifies each one by an opaque numeric handle and
//! never calls it. The registry is exclusively owned while it is being
//! filled and read-only once a built snapshot shares it, so mutation after
//! the freeze is impossible by construction.

use vstd::prelude::*;
use crate::strmap::StrMap;

verus! {

/// Opaque identity of a registered function handler. The embedding program
/// keeps the callable that each handle stands for.
pub type HandlerId = u64;

/// Append-then-freeze mapping from function names to handlers.
pub struct FunctionRegistry {
    inner: StrMap<HandlerId>,
}

impl FunctionRegistry {
    /// The name-to-handler mapping this registry holds.
    pub closed spec fn view(&self) -> Map<Seq<char>, HandlerId> {
        self.inner@
    }

    /// The registered names in first-registration order.
    pub closed spec fn names(&self) -> Seq<Seq<char>> {
        self.inner.keys()
    }

    /// Well-formedness, established by `new` and preserved by every method.
    pub closed spec fn wf(&self) -> bool {
        self.inner.wf()
    }

    /// Creates an empty registry.
    pub fn new() -> (r: Self)
        ensures
            r.wf(),
            r@ == Map::<Seq<char>, HandlerId>::empty(),
            r.names() == Seq::<Seq<char>>::empty(),
    {
        FunctionRegistry { inner: StrMap::new() }
    }

    /// Inserts or overwrites the entry for `name`: a later registration of
    /// the same name silently replaces the earlier handler.
    pub fn register(&mut self, name: String, handler: HandlerId)
        requires
            old(self).wf(),
        ensures
            final(self).wf(),
            final(self)@ == old(self)@.insert(name@, handler),
            final(self).names() == if old(self)@.contains_key(name@) {
                old(self).names()
            } else {
                old(self).names().push(name@)
            },
    {
        self.inner.insert(name, handler);
    }

    /// Looks a handler up by name.
    pub fn get(&self, name: &str) -> (r: Option<HandlerId>)
        requires
            self.wf(),
        ensures
            r == if self@.contains_key(name@) {
                Some(self@[name@])
            } else {
                None::<HandlerId>
            },
    {
        match self.inner.get(name) {
            Some(h) => Some(*h),
            None => None,
        }
    }

    /// Whether a function of this name is registered.
    pub fn contains(&self, name: &str) -> (r: bool)
        requires
            self.wf(),
        ensures
            r == self@.contains_key(name@),
    {
        self.inner.contains_key(name)
    }

    /// All registered names: each exactly once, in first-registration order.
    pub fn list(&self) -> (r: Vec<String>)
        requires
            self.wf(),
        ensures
            r@.len() == self.names().len(),
            forall|i: int| 0 <= i < r@.len() ==> r@[i]@ == self.names()[i],
            forall|i: int, j: int| 0 <= i < j < r@.len() ==> r@[i]@ != r@[j]@,
            forall|k: Seq<char>|
                self@.contains_key(k) <==> exists|i: int| 0 <= i < r@.len() && r@[i]@ == k,
    {
        let r = self.inner.key_strings();
        proof {
            self.inner.lemma_keys();
            assert forall|i: int, j: int| 0 <= i < j < r@.len() implies r@[i]@ != r@[j]@ by {
                assert(r@[i]@ == self.names()[i]);
                assert(r@[j]@ == self.names()[j]);
            }
            assert forall|k: Seq<char>|
                self@.contains_key(k) <==> (exists|i: int|
                    0 <= i < r@.len() && r@[i]@ == k) by {
                if self@.contains_key(k) {
                    assert(self.names().contains(k));
                    let i = choose|i: int|
                        0 <= i < self.names().len() && self.names()[i] == k;
                    assert(r@[i]@ == k);
                }
                if exists|i: int| 0 <= i < r@.len() && r@[i]@ == k {
                    let i = choose|i: int| 0 <= i < r@.len() && r@[i]@ == k;
                    assert(self.names()[i] == k);
                    assert(self.names().contains(k));
                }
            }
        }
        r
    }
}

impl Default for FunctionRegistry {
    /// The default registry is empty.
    fn default() -> (r: Self)
        ensures
            r.wf(),
            r@ == Map::<Seq<char>, HandlerId>::empty(),
            r.names() == Seq::<Seq<char>>::empty(),
    {
        FunctionRegistry::new()
    }
}

/// Law: looking up a name right after registering it yields exactly the
/// handler that was registered, whatever the registry held before.
pub proof fn lemma_register_then_get(
    reg: Map<Seq<char>, HandlerId>,
    name: Seq<char>,
    handler: HandlerId,
)
    ensures
        reg.insert(name, handler).contains_key(name),
        reg.insert(name, handler)[name] == handler,
{
}

/// Law: registering twice under one name leaves exactly the later handler;
/// the earlier one does not survive anywhere in the mapping.
pub proof fn lemma_last_registration_wins(
    reg: Map<Seq<char>, HandlerId>,
    name: Seq<char>,
    first: HandlerId,
    second: HandlerId,
)
    ensures
        reg.insert(name, first).insert(name, second) == reg.insert(name, second),
        reg.insert(name, first).insert(name, second)[name] == second,
{
    assert(reg.insert(name, first).insert(name, second) =~= reg.insert(name, second));
}

} // verus!
