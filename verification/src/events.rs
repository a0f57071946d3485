//! The event system: change-notification events, the pattern-keyed listener
//! registry, and dispatch planning.
//!
//! A listener is an asynchronous capability supplied by the embedding
//! program; the core identifies each one by an opaque numeric handle. Three
//! pattern shapes carry meaning: exact `"table:id"`, table wildcard
//! `"table:*"`, and global `"*"`. Emitting an event gathers the listeners of
//! the three shapes in that order and delivers to each matched listener at
//! most once per emit, in gathering order, stopping at the first failure.

use vstd::prelude::*;
use vstd::string::StringExecFns;
use crate::error::Error;
use crate::strmap::StrMap;

verus! {

/// Opaque identity of a registered event listener. The embedding program
/// keeps the callable that each handle stands for.
pub type ListenerId = u64;

/// The kind of change an event reports.
pub enum EventType {
    Create,
    Update,
    Delete,
    Custom(String),
}

impl Clone for EventType {
    /// Clones the event type, preserving the custom name if any.
    fn clone(&self) -> (r: Self)
        ensures
            r == *self,
    {
        match self {
            EventType::Create => EventType::Create,
            EventType::Update => EventType::Update,
            EventType::Delete => EventType::Delete,
            EventType::Custom(name) => EventType::Custom(name.clone()),
        }
    }
}

/// An event emitted when a table changes: what happened, where, to which
/// record, with which payload, and when.
pub struct Event {
    /// The kind of change.
    pub event_type: EventType,
    /// The table the change happened in.
    pub table: String,
    /// The changed record, when the change concerns a single record.
    pub record_id: Option<String>,
    /// The payload describing the change.
    pub data: serde_json::Value,
    /// Seconds since the Unix epoch at creation time.
    pub timestamp: i64,
}

/// The pattern string `"table:id"`.
pub open spec fn exact_pattern(table: Seq<char>, id: Seq<char>) -> Seq<char> {
    table + seq![':'] + id
}

/// The pattern string `"table:*"`.
pub open spec fn wildcard_pattern(table: Seq<char>) -> Seq<char> {
    table + seq![':', '*']
}

/// The pattern string `"*"`.
pub open spec fn global_pattern() -> Seq<char> {
    seq!['*']
}

/// The characters of an optional record id.
pub open spec fn rid_view(rid: Option<String>) -> Option<Seq<char>> {
    match rid {
        Some(id) => Some(id@),
        None => None,
    }
}

impl Event {
    /// The pattern this event matches exactly: `"table:id"` when it carries
    /// a record id, else `"table:*"`.
    pub open spec fn spec_pattern(&self) -> Seq<char> {
        match self.record_id {
            Some(id) => exact_pattern(self.table@, id@),
            None => wildcard_pattern(self.table@),
        }
    }

    /// Creates an event stamped with the current wall-clock time and no
    /// record id.
    pub fn new(event_type: EventType, table: String, data: serde_json::Value) -> (r: Self)
        ensures
            r.event_type == event_type,
            r.table == table,
            r.record_id is None,
            r.data == data,
    {
        Event { event_type, table, record_id: None, data, timestamp: crate::clock::now_seconds() }
    }

    /// Sets the record id.
    pub fn with_record_id(self, id: String) -> (r: Self)
        ensures
            r.event_type == self.event_type,
            r.table == self.table,
            r.record_id == Some(id),
            r.data == self.data,
            r.timestamp == self.timestamp,
    {
        Event {
            event_type: self.event_type,
            table: self.table,
            record_id: Some(id),
            data: self.data,
            timestamp: self.timestamp,
        }
    }

    /// Renders the pattern of this event.
    pub fn pattern(&self) -> (r: String)
        ensures
            r@ == self.spec_pattern(),
    {
        proof {
            reveal_strlit(":");
            reveal_strlit("*");
        }
        let mut s = self.table.clone();
        s.append(":");
        proof {
            assert(":"@ =~= seq![':']);
            assert("*"@ =~= seq!['*']);
        }
        match &self.record_id {
            Some(id) => {
                s.append(id.as_str());
                proof {
                    assert(s@ =~= self.spec_pattern());
                }
            },
            None => {
                s.append("*");
                proof {
                    assert(s@ =~= self.spec_pattern());
                }
            },
        }
        s
    }
}

impl Clone for Event {
    /// Clones the event, preserving every field.
    fn clone(&self) -> (r: Self)
        ensures
            r == *self,
    {
        Event {
            event_type: self.event_type.clone(),
            table: self.table.clone(),
            record_id: match &self.record_id {
                Some(id) => Some(id.clone()),
                None => None,
            },
            data: self.data.clone(),
            timestamp: self.timestamp,
        }
    }
}

/// The listeners registered for a pattern, or none.
pub open spec fn listeners_for(reg: Map<Seq<char>, Seq<ListenerId>>, key: Seq<char>) -> Seq<
    ListenerId,
> {
    if reg.contains_key(key) {
        reg[key]
    } else {
        Seq::empty()
    }
}

/// Every listener an event gathers, in gathering order: exact matches, then
/// table-wildcard matches, then global matches, duplicates included.
pub open spec fn gathered(
    reg: Map<Seq<char>, Seq<ListenerId>>,
    table: Seq<char>,
    rid: Option<Seq<char>>,
) -> Seq<ListenerId> {
    let own = match rid {
        Some(id) => exact_pattern(table, id),
        None => wildcard_pattern(table),
    };
    listeners_for(reg, own) + listeners_for(reg, wildcard_pattern(table)) + listeners_for(
        reg,
        global_pattern(),
    )
}

/// First occurrences of a sequence, in order: what at-most-once delivery
/// keeps of the gathered listeners.
pub open spec fn dedup(s: Seq<ListenerId>) -> Seq<ListenerId>
    decreases s.len(),
{
    if s.len() == 0 {
        Seq::empty()
    } else {
        let p = dedup(s.drop_last());
        if p.contains(s.last()) {
            p
        } else {
            p.push(s.last())
        }
    }
}

/// How often a listener occurs in a sequence.
pub open spec fn occurrences(s: Seq<ListenerId>, x: ListenerId) -> int
    decreases s.len(),
{
    if s.len() == 0 {
        0
    } else {
        occurrences(s.drop_last(), x) + if s.last() == x {
            1int
        } else {
            0int
        }
    }
}

/// Deduplication keeps membership: no listener appears or disappears.
pub proof fn lemma_dedup_contains(s: Seq<ListenerId>, x: ListenerId)
    ensures
        dedup(s).contains(x) <==> s.contains(x),
    decreases s.len(),
{
    if s.len() > 0 {
        lemma_dedup_contains(s.drop_last(), x);
        let p = dedup(s.drop_last());
        if s.contains(x) {
            let i = choose|i: int| 0 <= i < s.len() && s[i] == x;
            if i < s.len() - 1 {
                assert(s.drop_last()[i] == x);
            } else {
                assert(s.last() == x);
                if p.contains(s.last()) {
                    assert(dedup(s).contains(x));
                } else {
                    assert(dedup(s) == p.push(s.last()));
                    assert(dedup(s)[p.len() as int] == x);
                }
            }
        }
        if dedup(s).contains(x) {
            let i = choose|i: int| 0 <= i < dedup(s).len() && dedup(s)[i] == x;
            if p.contains(s.last()) {
                assert(p[i] == x);
                let j = choose|j: int| 0 <= j < s.drop_last().len() && s.drop_last()[j] == x;
                assert(s[j] == x);
            } else {
                if i < p.len() {
                    assert(p[i] == x);
                    let j = choose|j: int| 0 <= j < s.drop_last().len() && s.drop_last()[j] == x;
                    assert(s[j] == x);
                } else {
                    assert(s.last() == x);
                    assert(s[s.len() - 1] == x);
                }
            }
        }
        if s.drop_last().contains(x) {
            let j = choose|j: int| 0 <= j < s.drop_last().len() && s.drop_last()[j] == x;
            assert(s[j] == x);
            if p.contains(x) {
                if !p.contains(s.last()) {
                    let i = choose|i: int| 0 <= i < p.len() && p[i] == x;
                    assert(dedup(s)[i] == x);
                }
            }
        }
    }
}

/// Deduplication leaves no duplicates.
pub proof fn lemma_dedup_distinct(s: Seq<ListenerId>)
    ensures
        forall|i: int, j: int| 0 <= i < j < dedup(s).len() ==> dedup(s)[i] != dedup(s)[j],
    decreases s.len(),
{
    if s.len() > 0 {
        lemma_dedup_distinct(s.drop_last());
        let p = dedup(s.drop_last());
        if !p.contains(s.last()) {
            assert forall|i: int, j: int|
                0 <= i < j < dedup(s).len() implies dedup(s)[i] != dedup(s)[j] by {
                if j == dedup(s).len() - 1 {
                    assert(p[i] == dedup(s)[i]);
                    assert(p.contains(p[i]));
                }
            }
        }
    }
}

/// A sequence without duplicates holds each of its members exactly once.
pub proof fn lemma_distinct_occurrences(s: Seq<ListenerId>, x: ListenerId)
    requires
        forall|i: int, j: int| 0 <= i < j < s.len() ==> s[i] != s[j],
    ensures
        occurrences(s, x) == if s.contains(x) {
            1int
        } else {
            0int
        },
    decreases s.len(),
{
    if s.len() > 0 {
        assert forall|i: int, j: int|
            0 <= i < j < s.drop_last().len() implies s.drop_last()[i] != s.drop_last()[j] by {
            assert(s.drop_last()[i] == s[i]);
            assert(s.drop_last()[j] == s[j]);
        }
        lemma_distinct_occurrences(s.drop_last(), x);
        if s.last() == x {
            assert forall|i: int| 0 <= i < s.drop_last().len() implies s.drop_last()[i] != x by {
                assert(s.drop_last()[i] == s[i]);
                assert(s[s.len() - 1] == x);
            }
            assert(!s.drop_last().contains(x));
            assert(s.contains(x)) by {
                assert(s[s.len() - 1] == x);
            }
        } else {
            if s.contains(x) {
                let i = choose|i: int| 0 <= i < s.len() && s[i] == x;
                assert(s.drop_last()[i] == x);
            }
            if s.drop_last().contains(x) {
                let i = choose|i: int| 0 <= i < s.drop_last().len() && s.drop_last()[i] == x;
                assert(s[i] == x);
            }
        }
    }
}

/// Law: per emitted event, every gathered listener is delivered exactly
/// once — no duplicate delivery, no omission — and no listener outside the
/// gathered ones is delivered at all.
pub proof fn lemma_at_most_once_delivery(
    reg: Map<Seq<char>, Seq<ListenerId>>,
    table: Seq<char>,
    rid: Option<Seq<char>>,
    listener: ListenerId,
)
    ensures
        occurrences(dedup(gathered(reg, table, rid)), listener) == if gathered(
            reg,
            table,
            rid,
        ).contains(listener) {
            1int
        } else {
            0int
        },
{
    let g = gathered(reg, table, rid);
    lemma_dedup_contains(g, listener);
    lemma_dedup_distinct(g);
    lemma_distinct_occurrences(dedup(g), listener);
}

/// Law: an event without a record id has the table wildcard as its own
/// pattern, so wildcard listeners are gathered through both of the first
/// two passes and still delivered only once.
pub proof fn lemma_wildcard_event_gathers_twice(
    reg: Map<Seq<char>, Seq<ListenerId>>,
    table: Seq<char>,
    listener: ListenerId,
)
    requires
        listeners_for(reg, wildcard_pattern(table)).contains(listener),
    ensures
        occurrences(dedup(gathered(reg, table, None)), listener) == 1,
{
    let g = gathered(reg, table, None);
    let i = choose|i: int|
        0 <= i < listeners_for(reg, wildcard_pattern(table)).len() && listeners_for(
            reg,
            wildcard_pattern(table),
        )[i] == listener;
    assert(g[i] == listener);
    lemma_at_most_once_delivery(reg, table, None, listener);
}

/// Copies a listener list.
fn copy_ids(src: &Vec<ListenerId>) -> (r: Vec<ListenerId>)
    ensures
        r@ == src@,
{
    let mut out: Vec<ListenerId> = Vec::new();
    let n = src.len();
    for i in 0..n
        invariant
            n == src@.len(),
            out@ == src@.take(i as int),
    {
        out.push(src[i]);
        proof {
            assert(out@ =~= src@.take(i + 1));
        }
    }
    proof {
        assert(src@.take(n as int) =~= src@);
    }
    out
}

/// Appends a listener list to another.
fn extend_ids(dst: &mut Vec<ListenerId>, src: &Vec<ListenerId>)
    ensures
        final(dst)@ == old(dst)@ + src@,
{
    let n = src.len();
    for i in 0..n
        invariant
            n == src@.len(),
            dst@ == old(dst)@ + src@.take(i as int),
    {
        dst.push(src[i]);
        proof {
            assert(dst@ =~= old(dst)@ + src@.take(i + 1));
        }
    }
    proof {
        assert(old(dst)@ + src@.take(n as int) =~= old(dst)@ + src@);
    }
}

/// Whether a listener list holds an id.
fn contains_id(v: &Vec<ListenerId>, x: ListenerId) -> (r: bool)
    ensures
        r == v@.contains(x),
{
    let n = v.len();
    for i in 0..n
        invariant
            n == v@.len(),
            forall|j: int| 0 <= j < i ==> v@[j] != x,
    {
        if v[i] == x {
            return true;
        }
    }
    false
}

/// Pattern-keyed listener registry, mutable for its whole lifetime.
///
/// In the running system it sits behind a reader-writer lock held by the
/// embedding program; `emit_plan` only snapshots the matched listeners, so
/// the lock never has to be held across listener invocation.
pub struct EventRegistry {
    inner: StrMap<Vec<ListenerId>>,
}

impl EventRegistry {
    /// The pattern-to-listeners mapping this registry holds; listener lists
    /// keep registration order and may hold duplicates.
    pub closed spec fn view(&self) -> Map<Seq<char>, Seq<ListenerId>> {
        self.inner@.map_values(|v: Vec<ListenerId>| v@)
    }

    /// The registered patterns in first-registration order.
    pub closed spec fn patterns_in_order(&self) -> Seq<Seq<char>> {
        self.inner.keys()
    }

    /// Well-formedness, established by `new` and preserved by every method.
    pub closed spec fn wf(&self) -> bool {
        self.inner.wf()
    }

    /// What registering one listener does to the mapping: the listener is
    /// appended to its pattern's list, which is created if absent.
    pub open spec fn spec_register(
        reg: Map<Seq<char>, Seq<ListenerId>>,
        pattern: Seq<char>,
        listener: ListenerId,
    ) -> Map<Seq<char>, Seq<ListenerId>> {
        if reg.contains_key(pattern) {
            reg.insert(pattern, reg[pattern].push(listener))
        } else {
            reg.insert(pattern, seq![listener])
        }
    }

    /// Creates an empty registry.
    pub fn new() -> (r: Self)
        ensures
            r.wf(),
            r@ == Map::<Seq<char>, Seq<ListenerId>>::empty(),
            r.patterns_in_order() == Seq::<Seq<char>>::empty(),
    {
        let r = EventRegistry { inner: StrMap::new() };
        proof {
            assert(r@ =~= Map::<Seq<char>, Seq<ListenerId>>::empty());
        }
        r
    }

    /// Appends a listener to the list for `pattern`, creating the list if
    /// absent. May be called at any time of the registry's life.
    pub fn register(&mut self, pattern: String, listener: ListenerId)
        requires
            old(self).wf(),
        ensures
            final(self).wf(),
            final(self)@ == Self::spec_register(old(self)@, pattern@, listener),
            final(self).patterns_in_order() == if old(self)@.contains_key(pattern@) {
                old(self).patterns_in_order()
            } else {
                old(self).patterns_in_order().push(pattern@)
            },
    {
        let updated: Vec<ListenerId> = match self.inner.get(pattern.as_str()) {
            Some(v) => {
                let mut c = copy_ids(v);
                c.push(listener);
                c
            },
            None => {
                let mut c: Vec<ListenerId> = Vec::new();
                c.push(listener);
                c
            },
        };
        let ghost m0 = self.inner@;
        self.inner.insert(pattern, updated);
        proof {
            assert(self@ =~= Self::spec_register(
                m0.map_values(|v: Vec<ListenerId>| v@),
                pattern@,
                listener,
            ));
        }
    }

    /// Snapshots the listeners to notify for an event, in gathering order —
    /// exact pattern, table wildcard, global — with each matched listener
    /// exactly once.
    pub fn emit_plan(&self, event: &Event) -> (plan: Vec<ListenerId>)
        requires
            self.wf(),
        ensures
            plan@ == dedup(gathered(self@, event.table@, rid_view(event.record_id))),
    {
        proof {
            reveal_strlit(":*");
            reveal_strlit("*");
        }
        let own = event.pattern();
        let mut wild = event.table.clone();
        wild.append(":*");
        proof {
            assert(":*"@ =~= seq![':', '*']);
            assert("*"@ =~= seq!['*']);
            assert(wild@ =~= wildcard_pattern(event.table@));
        }
        let mut all: Vec<ListenerId> = Vec::new();
        match self.inner.get(own.as_str()) {
            Some(v) => extend_ids(&mut all, v),
            None => (),
        }
        match self.inner.get(wild.as_str()) {
            Some(v) => extend_ids(&mut all, v),
            None => (),
        }
        match self.inner.get("*") {
            Some(v) => extend_ids(&mut all, v),
            None => (),
        }
        proof {
            assert(all@ =~= gathered(self@, event.table@, rid_view(event.record_id)));
        }
        let mut plan: Vec<ListenerId> = Vec::new();
        let n = all.len();
        for i in 0..n
            invariant
                n == all@.len(),
                plan@ == dedup(all@.take(i as int)),
        {
            let x = all[i];
            proof {
                assert(all@.take(i + 1).drop_last() =~= all@.take(i as int));
                assert(all@.take(i + 1).last() == all@[i as int]);
            }
            if !contains_id(&plan, x) {
                plan.push(x);
            }
        }
        proof {
            assert(all@.take(n as int) =~= all@);
        }
        plan
    }

    /// All registered patterns: each exactly once, in first-registration
    /// order.
    pub fn patterns(&self) -> (r: Vec<String>)
        requires
            self.wf(),
        ensures
            r@.len() == self.patterns_in_order().len(),
            forall|i: int| 0 <= i < r@.len() ==> r@[i]@ == self.patterns_in_order()[i],
            forall|i: int, j: int| 0 <= i < j < r@.len() ==> r@[i]@ != r@[j]@,
            forall|k: Seq<char>|
                self@.contains_key(k) <==> exists|i: int| 0 <= i < r@.len() && r@[i]@ == k,
    {
        let r = self.inner.key_strings();
        proof {
            self.inner.lemma_keys();
            assert forall|i: int, j: int| 0 <= i < j < r@.len() implies r@[i]@ != r@[j]@ by {
                assert(r@[i]@ == self.patterns_in_order()[i]);
                assert(r@[j]@ == self.patterns_in_order()[j]);
            }
            assert forall|k: Seq<char>|
                self@.contains_key(k) <==> (exists|i: int|
                    0 <= i < r@.len() && r@[i]@ == k) by {
                if self@.contains_key(k) {
                    assert(self.patterns_in_order().contains(k));
                    let i = choose|i: int|
                        0 <= i < self.patterns_in_order().len() && self.patterns_in_order()[i]
                            == k;
                    assert(r@[i]@ == k);
                }
                if exists|i: int| 0 <= i < r@.len() && r@[i]@ == k {
                    let i = choose|i: int| 0 <= i < r@.len() && r@[i]@ == k;
                    assert(self.patterns_in_order()[i] == k);
                    assert(self.patterns_in_order().contains(k));
                }
            }
        }
        r
    }
}

impl Default for EventRegistry {
    /// The default registry is empty.
    fn default() -> (r: Self)
        ensures
            r.wf(),
            r@ == Map::<Seq<char>, Seq<ListenerId>>::empty(),
            r.patterns_in_order() == Seq::<Seq<char>>::empty(),
    {
        EventRegistry::new()
    }
}

/// Sequential fail-fast delivery of one emit's plan.
///
/// The embedding program drives it: `next` yields the listener to invoke;
/// after a listener fails, `report_failure` records the failure, `next`
/// yields nothing further, and `outcome` returns that first failure — later
/// gathered listeners are never invoked.
pub struct Dispatch {
    plan: Vec<ListenerId>,
    pos: usize,
    failure: Option<Error>,
}

impl Dispatch {
    /// The listeners this dispatch delivers to, in order.
    pub closed spec fn plan(&self) -> Seq<ListenerId> {
        self.plan@
    }

    /// How many listeners of the plan have been yielded.
    pub closed spec fn position(&self) -> int {
        self.pos as int
    }

    /// The first reported failure, if any.
    pub closed spec fn failure(&self) -> Option<Error> {
        self.failure
    }

    /// Well-formedness, established by `new` and preserved by every method.
    pub closed spec fn wf(&self) -> bool {
        self.pos <= self.plan@.len()
    }

    /// Starts delivery of a plan.
    pub fn new(plan: Vec<ListenerId>) -> (r: Self)
        ensures
            r.wf(),
            r.plan() == plan@,
            r.position() == 0,
            r.failure() is None,
    {
        Dispatch { plan, pos: 0, failure: None }
    }

    /// The next listener to invoke: nothing once the plan is exhausted or a
    /// failure was reported — delivery aborts at the first failure.
    pub fn next(&mut self) -> (r: Option<ListenerId>)
        requires
            old(self).wf(),
        ensures
            final(self).wf(),
            final(self).plan() == old(self).plan(),
            final(self).failure() == old(self).failure(),
            old(self).failure() is Some || old(self).position() == old(self).plan().len() ==> r
                is None && final(self).position() == old(self).position(),
            old(self).failure() is None && old(self).position() < old(self).plan().len() ==> r
                == Some(old(self).plan()[old(self).position()]) && final(self).position() == old(
                self,
            ).position() + 1,
    {
        if self.failure.is_some() {
            return None;
        }
        if self.pos == self.plan.len() {
            return None;
        }
        let id = self.plan[self.pos];
        self.pos = self.pos + 1;
        Some(id)
    }

    /// Records the failure of the listener yielded last; delivery stops.
    pub fn report_failure(&mut self, err: Error)
        requires
            old(self).wf(),
        ensures
            final(self).wf(),
            final(self).plan() == old(self).plan(),
            final(self).position() == old(self).position(),
            final(self).failure() == Some(err),
    {
        self.failure = Some(err);
    }

    /// Ends delivery: the first reported failure, or success if every
    /// yielded listener completed.
    pub fn outcome(self) -> (r: Result<(), Error>)
        ensures
            match self.failure() {
                Some(e) => r == Err::<(), Error>(e),
                None => r == Ok::<(), Error>(()),
            },
    {
        match self.failure {
            Some(e) => Err(e),
            None => Ok(()),
        }
    }
}

} // verus!
