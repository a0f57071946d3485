//! The orchestrator: merges modules into the runtime registries and
//! produces one built snapshot.
//!
//! Building registers every staged function under its namespaced name —
//! colliding names resolve by last registration, silently — registers every
//! staged listener verbatim, and concatenates the staged routes for the
//! embedding program to mount. Build is one-shot: it consumes the
//! orchestrator, and the snapshot's function registry is frozen from then
//! on — only read access remains.

use vstd::prelude::*;
use vstd::string::StringExecFns;
use crate::cache::MemoryCacheProvider;
use crate::events::{EventRegistry, ListenerId};
use crate::functions::{FunctionRegistry, HandlerId};
use crate::module::{Module, RouteId};
use crate::strmap::raw_entry_seq;

verus! {

/// Listen address and data path for the surrounding server process.
pub struct ServerConfig {
    /// Address the embedding server listens on.
    pub bind_addr: String,
    /// Optional path for on-disk data of the embedding server.
    pub data_path: Option<String>,
}

impl Default for ServerConfig {
    /// The default configuration: the local loopback on port 8000 and no
    /// data path.
    fn default() -> (r: Self)
        ensures
            r.bind_addr@ == "127.0.0.1:8000"@,
            r.data_path is None,
    {
        ServerConfig { bind_addr: String::from_str("127.0.0.1:8000"), data_path: None }
    }
}

/// The marker prepended to every module function's name at build time.
pub open spec fn ext_prefix() -> Seq<char> {
    seq!['e', 'x', 't', ':', ':']
}

/// A module function's name as the function registry sees it.
pub open spec fn namespaced(name: Seq<char>) -> Seq<char> {
    ext_prefix() + name
}

/// Distinct names stay distinct under namespacing.
pub proof fn lemma_namespaced_injective(a: Seq<char>, b: Seq<char>)
    requires
        namespaced(a) == namespaced(b),
    ensures
        a == b,
{
    assert(a =~= namespaced(a).skip(5));
    assert(b =~= namespaced(b).skip(5));
}

/// One module's staged functions folded into a function registry mapping,
/// each under its namespaced name, in staging order.
pub open spec fn apply_functions(
    reg: Map<Seq<char>, HandlerId>,
    pairs: Seq<(Seq<char>, HandlerId)>,
) -> Map<Seq<char>, HandlerId>
    decreases pairs.len(),
{
    if pairs.len() == 0 {
        reg
    } else {
        apply_functions(reg, pairs.drop_last()).insert(
            namespaced(pairs.last().0),
            pairs.last().1,
        )
    }
}

/// All modules' staged functions folded into a function registry mapping,
/// in module order.
pub open spec fn apply_modules_functions(reg: Map<Seq<char>, HandlerId>, ms: Seq<Module>) -> Map<
    Seq<char>,
    HandlerId,
>
    decreases ms.len(),
{
    if ms.len() == 0 {
        reg
    } else {
        apply_functions(
            apply_modules_functions(reg, ms.drop_last()),
            ms.last().spec_functions(),
        )
    }
}

/// One module's staged listeners folded into an event registry mapping,
/// each appended under its pattern verbatim, in staging order.
pub open spec fn apply_listeners(
    reg: Map<Seq<char>, Seq<ListenerId>>,
    pairs: Seq<(Seq<char>, ListenerId)>,
) -> Map<Seq<char>, Seq<ListenerId>>
    decreases pairs.len(),
{
    if pairs.len() == 0 {
        reg
    } else {
        EventRegistry::spec_register(
            apply_listeners(reg, pairs.drop_last()),
            pairs.last().0,
            pairs.last().1,
        )
    }
}

/// All modules' staged listeners folded into an event registry mapping, in
/// module order.
pub open spec fn apply_modules_listeners(
    reg: Map<Seq<char>, Seq<ListenerId>>,
    ms: Seq<Module>,
) -> Map<Seq<char>, Seq<ListenerId>>
    decreases ms.len(),
{
    if ms.len() == 0 {
        reg
    } else {
        apply_listeners(
            apply_modules_listeners(reg, ms.drop_last()),
            ms.last().spec_listeners(),
        )
    }
}

/// All modules' staged routes, concatenated in module order.
pub open spec fn all_routes(ms: Seq<Module>) -> Seq<(Seq<char>, RouteId)>
    decreases ms.len(),
{
    if ms.len() == 0 {
        Seq::empty()
    } else {
        all_routes(ms.drop_last()) + ms.last().spec_routes()
    }
}

/// Law: among registrations of one namespaced name — across modules or
/// within one — exactly the last one survives the build fold, whatever was
/// registered before.
pub proof fn lemma_apply_functions_last(
    reg: Map<Seq<char>, HandlerId>,
    pairs: Seq<(Seq<char>, HandlerId)>,
    j: int,
)
    requires
        0 <= j < pairs.len(),
        forall|l: int| j < l < pairs.len() ==> pairs[l].0 != pairs[j].0,
    ensures
        apply_functions(reg, pairs).contains_key(namespaced(pairs[j].0)),
        apply_functions(reg, pairs)[namespaced(pairs[j].0)] == pairs[j].1,
    decreases pairs.len(),
{
    if j < pairs.len() - 1 {
        assert(pairs.last().0 != pairs[j].0) by {
            assert(pairs[pairs.len() - 1].0 != pairs[j].0);
        }
        if namespaced(pairs.last().0) == namespaced(pairs[j].0) {
            lemma_namespaced_injective(pairs.last().0, pairs[j].0);
        }
        assert(pairs.drop_last()[j] == pairs[j]);
        assert forall|l: int|
            j < l < pairs.drop_last().len() implies pairs.drop_last()[l].0
            != pairs.drop_last()[j].0 by {
            assert(pairs.drop_last()[l] == pairs[l]);
        }
        lemma_apply_functions_last(reg, pairs.drop_last(), j);
    }
}

/// Law: registering two functions under the same namespaced name across
/// two modules leaves exactly one surviving handler, the later module's —
/// never both.
pub proof fn lemma_module_collision_last_wins(
    reg: Map<Seq<char>, HandlerId>,
    first_fns: Seq<(Seq<char>, HandlerId)>,
    second_fns: Seq<(Seq<char>, HandlerId)>,
    j: int,
)
    requires
        0 <= j < second_fns.len(),
        forall|l: int| j < l < second_fns.len() ==> second_fns[l].0 != second_fns[j].0,
    ensures
        apply_functions(apply_functions(reg, first_fns), second_fns).contains_key(
            namespaced(second_fns[j].0),
        ),
        apply_functions(apply_functions(reg, first_fns), second_fns)[namespaced(
            second_fns[j].0,
        )] == second_fns[j].1,
{
    lemma_apply_functions_last(apply_functions(reg, first_fns), second_fns, j);
}

/// The orchestrator: modules staged beside the registries and the cache
/// they will be merged around.
pub struct SurrealX {
    modules: Vec<Module>,
    function_registry: FunctionRegistry,
    event_registry: EventRegistry,
    cache_provider: MemoryCacheProvider,
}

/// The one immutable snapshot a build produces: the frozen function
/// registry, the still-mutable event registry, the cache provider, and the
/// staged routes for the embedding program to mount.
pub struct BuiltSurrealX {
    /// Frozen: shared read-only from here on.
    pub function_registry: FunctionRegistry,
    /// Still mutable: listeners can be added for the runtime's lifetime.
    pub event_registry: EventRegistry,
    /// The chosen cache provider.
    pub cache_provider: MemoryCacheProvider,
    /// Every staged (path, route) pair, in module order.
    pub routes: Vec<(String, RouteId)>,
}

impl SurrealX {
    /// The staged modules, in staging order.
    pub closed spec fn spec_modules(&self) -> Seq<Module> {
        self.modules@
    }

    /// The function registry's mapping before the build fold.
    pub closed spec fn spec_functions(&self) -> Map<Seq<char>, HandlerId> {
        self.function_registry@
    }

    /// The event registry's mapping before the build fold.
    pub closed spec fn spec_listeners_map(&self) -> Map<Seq<char>, Seq<ListenerId>> {
        self.event_registry@
    }

    /// The cache provider's store.
    pub closed spec fn spec_cache(&self) -> Map<Seq<char>, crate::cache::CacheEntry> {
        self.cache_provider@
    }

    /// Well-formedness, established by `new` and preserved by every method.
    pub closed spec fn wf(&self) -> bool {
        self.function_registry.wf() && self.event_registry.wf() && self.cache_provider.wf()
    }

    /// Creates an orchestrator with no modules, empty registries and an
    /// empty in-memory cache.
    pub fn new() -> (r: Self)
        ensures
            r.wf(),
            r.spec_modules() == Seq::<Module>::empty(),
            r.spec_functions() == Map::<Seq<char>, HandlerId>::empty(),
            r.spec_listeners_map() == Map::<Seq<char>, Seq<ListenerId>>::empty(),
            r.spec_cache() == Map::<Seq<char>, crate::cache::CacheEntry>::empty(),
    {
        SurrealX {
            modules: Vec::new(),
            function_registry: FunctionRegistry::new(),
            event_registry: EventRegistry::new(),
            cache_provider: MemoryCacheProvider::new(),
        }
    }

    /// Stages a module.
    pub fn with_module(self, module: Module) -> (r: Self)
        ensures
            r.wf() == self.wf(),
            r.spec_modules() == self.spec_modules().push(module),
            r.spec_functions() == self.spec_functions(),
            r.spec_listeners_map() == self.spec_listeners_map(),
            r.spec_cache() == self.spec_cache(),
    {
        let mut s = self;
        s.modules.push(module);
        s
    }

    /// Replaces the cache provider.
    pub fn with_cache(self, provider: MemoryCacheProvider) -> (r: Self)
        ensures
            r.spec_modules() == self.spec_modules(),
            r.spec_functions() == self.spec_functions(),
            r.spec_listeners_map() == self.spec_listeners_map(),
            r.spec_cache() == provider@,
            self.wf() && provider.wf() ==> r.wf(),
    {
        let mut s = self;
        s.cache_provider = provider;
        s
    }

    /// Merges every staged module into the registries and produces the
    /// built snapshot. Every staged function is registered under its
    /// namespaced name, later registrations silently replacing earlier
    /// ones; every staged listener is registered verbatim; the staged
    /// routes are concatenated in module order. Consumes the orchestrator.
    pub fn build(self) -> (r: BuiltSurrealX)
        requires
            self.wf(),
        ensures
            r.function_registry.wf(),
            r.event_registry.wf(),
            r.cache_provider.wf(),
            r.function_registry@ == apply_modules_functions(
                self.spec_functions(),
                self.spec_modules(),
            ),
            r.event_registry@ == apply_modules_listeners(
                self.spec_listeners_map(),
                self.spec_modules(),
            ),
            raw_entry_seq(r.routes@) == all_routes(self.spec_modules()),
            r.cache_provider@ == self.spec_cache(),
    {
        let SurrealX { modules, mut function_registry, mut event_registry, cache_provider } =
            self;
        let ghost ms = modules@;
        let ghost f0 = function_registry@;
        let n = modules.len();
        for mi in 0..n
            invariant
                n == modules@.len(),
                modules@ == ms,
                function_registry.wf(),
                function_registry@ == apply_modules_functions(f0, ms.take(mi as int)),
        {
            let m = &modules[mi];
            let fs = m.functions();
            let ghost base = function_registry@;
            let fn_count = fs.len();
            for fi in 0..fn_count
                invariant
                    n == modules@.len(),
                    modules@ == ms,
                    (mi as int) < n,
                    fn_count == fs@.len(),
                    raw_entry_seq(fs@) == ms[mi as int].spec_functions(),
                    function_registry.wf(),
                    base == apply_modules_functions(f0, ms.take(mi as int)),
                    function_registry@ == apply_functions(
                        base,
                        ms[mi as int].spec_functions().take(fi as int),
                    ),
            {
                let name = fs[fi].0.clone();
                let handler = fs[fi].1;
                let full = String::from_str("ext::").concat(name.as_str());
                proof {
                    reveal_strlit("ext::");
                    assert("ext::"@ =~= ext_prefix());
                    assert(full@ =~= namespaced(name@));
                    let fsq = ms[mi as int].spec_functions();
                    assert(fsq[fi as int].0 == name@);
                    assert(fsq.take(fi + 1).drop_last() =~= fsq.take(fi as int));
                    assert(fsq.take(fi + 1).last() == fsq[fi as int]);
                }
                function_registry.register(full, handler);
                proof {
                    assert(function_registry@ == apply_functions(
                        base,
                        ms[mi as int].spec_functions().take(fi + 1),
                    ));
                }
            }
            proof {
                let fsq = ms[mi as int].spec_functions();
                assert(fsq.take(fn_count as int) =~= fsq);
                assert(ms.take(mi + 1).drop_last() =~= ms.take(mi as int));
                assert(ms.take(mi + 1).last() == ms[mi as int]);
                assert(function_registry@ == apply_modules_functions(f0, ms.take(mi + 1)));
            }
        }
        proof {
            assert(ms.take(n as int) =~= ms);
        }
        let ghost e0 = event_registry@;
        for mi in 0..n
            invariant
                n == modules@.len(),
                modules@ == ms,
                event_registry.wf(),
                event_registry@ == apply_modules_listeners(e0, ms.take(mi as int)),
        {
            let m = &modules[mi];
            let ls = m.listeners();
            let ghost base = event_registry@;
            let l_count = ls.len();
            for li in 0..l_count
                invariant
                    n == modules@.len(),
                    modules@ == ms,
                    (mi as int) < n,
                    l_count == ls@.len(),
                    raw_entry_seq(ls@) == ms[mi as int].spec_listeners(),
                    event_registry.wf(),
                    base == apply_modules_listeners(e0, ms.take(mi as int)),
                    event_registry@ == apply_listeners(
                        base,
                        ms[mi as int].spec_listeners().take(li as int),
                    ),
            {
                let pattern = ls[li].0.clone();
                let listener = ls[li].1;
                proof {
                    let lsq = ms[mi as int].spec_listeners();
                    assert(lsq[li as int].0 == pattern@);
                    assert(lsq.take(li + 1).drop_last() =~= lsq.take(li as int));
                    assert(lsq.take(li + 1).last() == lsq[li as int]);
                }
                event_registry.register(pattern, listener);
                proof {
                    assert(event_registry@ == apply_listeners(
                        base,
                        ms[mi as int].spec_listeners().take(li + 1),
                    ));
                }
            }
            proof {
                let lsq = ms[mi as int].spec_listeners();
                assert(lsq.take(l_count as int) =~= lsq);
                assert(ms.take(mi + 1).drop_last() =~= ms.take(mi as int));
                assert(ms.take(mi + 1).last() == ms[mi as int]);
                assert(event_registry@ == apply_modules_listeners(e0, ms.take(mi + 1)));
            }
        }
        let mut routes: Vec<(String, RouteId)> = Vec::new();
        for mi in 0..n
            invariant
                n == modules@.len(),
                modules@ == ms,
                raw_entry_seq(routes@) == all_routes(ms.take(mi as int)),
        {
            let m = &modules[mi];
            let rs = m.routes();
            let ghost base = raw_entry_seq(routes@);
            let r_count = rs.len();
            for ri in 0..r_count
                invariant
                    n == modules@.len(),
                    modules@ == ms,
                    (mi as int) < n,
                    r_count == rs@.len(),
                    raw_entry_seq(rs@) == ms[mi as int].spec_routes(),
                    base == all_routes(ms.take(mi as int)),
                    raw_entry_seq(routes@) == base + ms[mi as int].spec_routes().take(ri as int),
            {
                let path = rs[ri].0.clone();
                let route = rs[ri].1;
                let ghost rt0 = routes@;
                let ghost pv = path@;
                routes.push((path, route));
                proof {
                    let rsq = ms[mi as int].spec_routes();
                    assert(routes@.drop_last() =~= rt0);
                    assert(raw_entry_seq(routes@) =~= raw_entry_seq(rt0).push((pv, route)));
                    assert((pv, route) == rsq[ri as int]);
                    assert(rsq.take(ri + 1).drop_last() =~= rsq.take(ri as int));
                    assert(rsq.take(ri + 1).last() == rsq[ri as int]);
                    assert(base + rsq.take(ri + 1) =~= (base + rsq.take(ri as int)).push(
                        rsq[ri as int],
                    ));
                    assert(raw_entry_seq(routes@) =~= base + rsq.take(ri + 1));
                }
            }
            proof {
                let rsq = ms[mi as int].spec_routes();
                assert(rsq.take(r_count as int) =~= rsq);
                assert(ms.take(mi + 1).drop_last() =~= ms.take(mi as int));
                assert(ms.take(mi + 1).last() == ms[mi as int]);
                assert(raw_entry_seq(routes@) == all_routes(ms.take(mi + 1)));
            }
        }
        BuiltSurrealX { function_registry, event_registry, cache_provider, routes }
    }
}

impl Default for SurrealX {
    /// The default orchestrator has no modules, empty registries and an
    /// empty in-memory cache.
    fn default() -> (r: Self)
        ensures
            r.wf(),
            r.spec_modules() == Seq::<Module>::empty(),
            r.spec_functions() == Map::<Seq<char>, HandlerId>::empty(),
            r.spec_listeners_map() == Map::<Seq<char>, Seq<ListenerId>>::empty(),
            r.spec_cache() == Map::<Seq<char>, crate::cache::CacheEntry>::empty(),
    {
        SurrealX::new()
    }
}

} // verus!
