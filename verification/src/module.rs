//! The module system: a builder that stages related functions, event
//! listeners and routes under one name.
//!
//! A module produces no behaviour of its own; the orchestrator consumes it
//! and merges its staged entries into the runtime registries. Routes are
//! opaque to the core: each is staged as a mount path beside the handle of a
//! routing object that the embedding program keeps.

use vstd::prelude::*;
use crate::events::ListenerId;
use crate::functions::HandlerId;
use crate::strmap::raw_entry_seq;

verus! {

/// Opaque identity of a routing object kept by the embedding program.
pub type RouteId = u64;

/// A named bundle of staged functions, listeners and routes.
pub struct Module {
    name: String,
    functions: Vec<(String, HandlerId)>,
    listeners: Vec<(String, ListenerId)>,
    routes: Vec<(String, RouteId)>,
}

impl Module {
    /// The module's name.
    pub closed spec fn spec_name(&self) -> Seq<char> {
        self.name@
    }

    /// The staged (function name, handler) pairs, in staging order.
    pub closed spec fn spec_functions(&self) -> Seq<(Seq<char>, HandlerId)> {
        raw_entry_seq(self.functions@)
    }

    /// The staged (pattern, listener) pairs, in staging order.
    pub closed spec fn spec_listeners(&self) -> Seq<(Seq<char>, ListenerId)> {
        raw_entry_seq(self.listeners@)
    }

    /// The staged (path, route) pairs, in staging order.
    pub closed spec fn spec_routes(&self) -> Seq<(Seq<char>, RouteId)> {
        raw_entry_seq(self.routes@)
    }

    /// Creates an empty module.
    pub fn new(name: String) -> (r: Self)
        ensures
            r.spec_name() == name@,
            r.spec_functions() == Seq::<(Seq<char>, HandlerId)>::empty(),
            r.spec_listeners() == Seq::<(Seq<char>, ListenerId)>::empty(),
            r.spec_routes() == Seq::<(Seq<char>, RouteId)>::empty(),
    {
        let r = Module { name, functions: Vec::new(), listeners: Vec::new(), routes: Vec::new() };
        proof {
            assert(r.spec_functions() =~= Seq::<(Seq<char>, HandlerId)>::empty());
            assert(r.spec_listeners() =~= Seq::<(Seq<char>, ListenerId)>::empty());
            assert(r.spec_routes() =~= Seq::<(Seq<char>, RouteId)>::empty());
        }
        r
    }

    /// Stages a custom function under `name`.
    pub fn with_function(self, name: String, handler: HandlerId) -> (r: Self)
        ensures
            r.spec_name() == self.spec_name(),
            r.spec_functions() == self.spec_functions().push((name@, handler)),
            r.spec_listeners() == self.spec_listeners(),
            r.spec_routes() == self.spec_routes(),
    {
        let mut m = self;
        m.functions.push((name, handler));
        proof {
            assert(m.spec_functions() =~= raw_entry_seq(m.functions@.drop_last()).push(
                (m.functions@.last().0@, m.functions@.last().1),
            ));
            assert(raw_entry_seq(m.functions@.drop_last()) =~= raw_entry_seq(
                m.functions@,
            ).drop_last());
        }
        m
    }

    /// Stages an event listener under `pattern`.
    pub fn with_listener(self, pattern: String, listener: ListenerId) -> (r: Self)
        ensures
            r.spec_name() == self.spec_name(),
            r.spec_functions() == self.spec_functions(),
            r.spec_listeners() == self.spec_listeners().push((pattern@, listener)),
            r.spec_routes() == self.spec_routes(),
    {
        let mut m = self;
        m.listeners.push((pattern, listener));
        proof {
            assert(m.spec_listeners() =~= raw_entry_seq(m.listeners@.drop_last()).push(
                (m.listeners@.last().0@, m.listeners@.last().1),
            ));
            assert(raw_entry_seq(m.listeners@.drop_last()) =~= raw_entry_seq(
                m.listeners@,
            ).drop_last());
        }
        m
    }

    /// Stages a route handle to be mounted at `path`.
    pub fn with_route(self, path: String, route: RouteId) -> (r: Self)
        ensures
            r.spec_name() == self.spec_name(),
            r.spec_functions() == self.spec_functions(),
            r.spec_listeners() == self.spec_listeners(),
            r.spec_routes() == self.spec_routes().push((path@, route)),
    {
        let mut m = self;
        m.routes.push((path, route));
        proof {
            assert(m.spec_routes() =~= raw_entry_seq(m.routes@.drop_last()).push(
                (m.routes@.last().0@, m.routes@.last().1),
            ));
            assert(raw_entry_seq(m.routes@.drop_last()) =~= raw_entry_seq(m.routes@).drop_last());
        }
        m
    }

    /// The module's name.
    pub fn name(&self) -> (r: &String)
        ensures
            r@ == self.spec_name(),
    {
        &self.name
    }

    /// The staged functions.
    pub fn functions(&self) -> (r: &Vec<(String, HandlerId)>)
        ensures
            raw_entry_seq(r@) == self.spec_functions(),
    {
        &self.functions
    }

    /// The staged listeners.
    pub fn listeners(&self) -> (r: &Vec<(String, ListenerId)>)
        ensures
            raw_entry_seq(r@) == self.spec_listeners(),
    {
        &self.listeners
    }

    /// The staged routes.
    pub fn routes(&self) -> (r: &Vec<(String, RouteId)>)
        ensures
            raw_entry_seq(r@) == self.spec_routes(),
    {
        &self.routes
    }
}

} // verus!
