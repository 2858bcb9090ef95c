use vstd::prelude::*;
use std::sync::Arc;
use dashmap::DashMap;
use dashmap::mapref::one::RefMut;

verus! {

#[verifier::external_type_specification]
#[verifier::external_body]
#[verifier::reject_recursive_types(K)]
#[verifier::reject_recursive_types(V)]
#[verifier::reject_recursive_types(S)]
pub struct ExDashMap<K, V, S>(DashMap<K, V, S>);

#[verifier::external_type_specification]
#[verifier::external_body]
#[verifier::reject_recursive_types(K)]
#[verifier::reject_recursive_types(V)]
pub struct ExRefMut<'a, K, V>(RefMut<'a, K, V>);

/// Request count of one client in its current window. Times are in
/// milliseconds on a clock that does not go backwards.
#[derive(Clone, Copy, Debug, PartialEq, Eq, Structural)]
pub struct ClientState {
    pub count: u32,
    pub window_start: u64,
}

/// Time passed since `start`; a `now` before `start` counts as no time.
pub open spec fn elapsed(start: u64, now: u64) -> int {
    if now >= start { now - start } else { 0 }
}

/// The fixed-window rule: the state a client's slot holds after a request at
/// `now`, and whether the request is let through. A first request, or one made
/// after the window has run out, opens a new window; within the window a
/// request is let through while fewer than `max_requests` have been.
pub open spec fn window_rule(prev: Option<ClientState>, now: u64, max_requests: u32, window: u64) -> (ClientState, bool) {
    match prev {
        None => (ClientState { count: 1, window_start: now }, true),
        Some(s) => if elapsed(s.window_start, now) > window {
            (ClientState { count: 1, window_start: now }, true)
        } else if s.count < max_requests {
            (ClientState { count: (s.count + 1) as u32, window_start: s.window_start }, true)
        } else {
            (s, false)
        },
    }
}

/// Applies the fixed-window rule to one client's slot.
pub fn decide(prev: Option<ClientState>, now: u64, max_requests: u32, window: u64) -> (r: (ClientState, bool))
    ensures
        r == window_rule(prev, now, max_requests, window),
{
    match prev {
        None => (ClientState { count: 1, window_start: now }, true),
        Some(s) => {
            let passed: u64 = if now >= s.window_start { now - s.window_start } else { 0 };
            if passed > window {
                (ClientState { count: 1, window_start: now }, true)
            } else if s.count < max_requests {
                (ClientState { count: s.count + 1, window_start: s.window_start }, true)
            } else {
                (s, false)
            }
        },
    }
}

/// The key a request is counted under: the forwarded address, or one shared
/// key for every request that carries none.
pub open spec fn key_of(forwarded: Option<String>) -> Seq<char> {
    match forwarded {
        Some(v) => v@,
        None => seq!['u', 'n', 'k', 'n', 'o', 'w', 'n'],
    }
}

/// Picks the key a request is counted under.
pub fn client_key(forwarded: Option<String>) -> (r: String)
    ensures
        r@ == key_of(forwarded),
{
    match forwarded {
        Some(v) => v,
        None => {
            proof { reveal_strlit("unknown"); }
            let k: &str = "unknown";
            assert(k@ =~= key_of(None));
            k.to_owned()
        },
    }
}

/// What the slot of a client held before a request and after it, and whether
/// the request was let through.
#[derive(Clone, Copy, Debug, PartialEq, Eq, Structural)]
pub struct Admission {
    pub allowed: bool,
    pub previous: Option<ClientState>,
    pub current: ClientState,
}

/// The value a locked slot of the client table holds.
pub uninterp spec fn slot_value(g: RefMut<'_, String, Option<ClientState>>) -> Option<ClientState>;

/// Relies on dashmap::DashMap::new: a table with no entries.
#[verifier::external_body]
fn empty_table() -> (r: DashMap<String, Option<ClientState>>)
{
    DashMap::new()
}

/// Relies on dashmap::DashMap::entry and Entry::or_insert: the slot of `key`,
/// created empty on first sight, held under its shard's write lock until the
/// guard is dropped.
#[verifier::external_body]
fn lock_slot<'a>(table: &'a DashMap<String, Option<ClientState>>, key: String) -> (r: RefMut<'a, String, Option<ClientState>>)
{
    table.entry(key).or_insert(None)
}

/// Relies on dashmap::mapref::one::RefMut::value: the value the slot holds.
#[verifier::external_body]
fn read_slot(g: &RefMut<'_, String, Option<ClientState>>) -> (r: Option<ClientState>)
    ensures
        r == slot_value(*g),
{
    *g.value()
}

/// Relies on dashmap::mapref::one::RefMut::value_mut: the slot now holds `v`.
#[verifier::external_body]
fn write_slot(g: &mut RefMut<'_, String, Option<ClientState>>, v: Option<ClientState>)
    ensures
        slot_value(*final(g)) == v,
{
    *g.value_mut() = v;
}

/// Relies on Arc's `Clone`: another handle on the same value.
#[verifier::external_body]
fn share<T>(a: &Arc<T>) -> (r: Arc<T>)
    ensures
        r == *a,
{
    Arc::clone(a)
}

/// The limit, the window, and the table of client slots, shared by every
/// service that one layer wraps.
pub struct RateLimitConfig {
    max_requests: u32,
    window: u64,
    clients: DashMap<String, Option<ClientState>>,
}

impl RateLimitConfig {
    pub closed spec fn max_requests(&self) -> u32 {
        self.max_requests
    }

    pub closed spec fn window(&self) -> u64 {
        self.window
    }

    /// Counts a request of the client at `now` under the fixed-window rule.
    /// The slot stays locked from the read to the write, so two requests of
    /// one client cannot both see the same count; other clients' slots do not
    /// wait on it unless they share a shard.
    pub fn check(&self, client_id: String, now: u64) -> (r: Admission)
        ensures
            (r.current, r.allowed) == window_rule(r.previous, now, self.max_requests(), self.window()),
    {
        let mut slot = lock_slot(&self.clients, client_id);
        let previous = read_slot(&slot);
        let (current, allowed) = decide(previous, now, self.max_requests, self.window);
        write_slot(&mut slot, Some(current));
        Admission { allowed, previous, current }
    }
}

/// Builds services that let each client through at most `max_requests` times
/// per window of `window` milliseconds.
pub struct RateLimitLayer {
    config: Arc<RateLimitConfig>,
}

/// A service behind the per-client request limit of its layer.
pub struct RateLimitService<S> {
    pub inner: S,
    config: Arc<RateLimitConfig>,
}

impl RateLimitLayer {
    pub closed spec fn max_requests(&self) -> u32 {
        self.config.max_requests
    }

    pub closed spec fn window(&self) -> u64 {
        self.config.window
    }

    /// A layer with the given limit and window, and no client seen yet.
    pub fn new(max_requests: u32, window: u64) -> (r: RateLimitLayer)
        ensures
            r.max_requests() == max_requests,
            r.window() == window,
    {
        RateLimitLayer { config: Arc::new(RateLimitConfig { max_requests, window, clients: empty_table() }) }
    }

    /// Wraps a service; every service of this layer shares one table of clients.
    pub fn layer<S>(&self, service: S) -> (r: RateLimitService<S>)
        ensures
            r.inner_service() == service,
            r.max_requests() == self.max_requests(),
            r.window() == self.window(),
    {
        RateLimitService { inner: service, config: share(&self.config) }
    }
}

impl<S> RateLimitService<S> {
    pub closed spec fn inner_service(&self) -> S {
        self.inner
    }

    pub closed spec fn max_requests(&self) -> u32 {
        self.config.max_requests
    }

    pub closed spec fn window(&self) -> u64 {
        self.config.window
    }

    /// Counts a request of the client at `now`; a request that is not let
    /// through must be answered as too many requests without reaching `inner`.
    pub fn check(&self, client_id: String, now: u64) -> (r: Admission)
        ensures
            (r.current, r.allowed) == window_rule(r.previous, now, self.max_requests(), self.window()),
    {
        self.config.check(client_id, now)
    }
}

} // verus!

verus! {

/// Within its window, a client that has used up its limit is turned away and
/// its count stays as it was.
pub proof fn lemma_limit_holds(s: ClientState, now: u64, max_requests: u32, window: u64)
    requires
        s.count >= max_requests,
        elapsed(s.window_start, now) <= window,
    ensures
        window_rule(Some(s), now, max_requests, window) == (s, false),
{
}

/// Within its window, a client under its limit is let through and counted.
pub proof fn lemma_counts_up(s: ClientState, now: u64, max_requests: u32, window: u64)
    requires
        s.count < max_requests,
        elapsed(s.window_start, now) <= window,
    ensures
        window_rule(Some(s), now, max_requests, window) == (
            ClientState { count: (s.count + 1) as u32, window_start: s.window_start },
            true,
        ),
{
}

/// Once the window has run out, the next request opens a new window and is
/// let through, whatever the count was.
pub proof fn lemma_window_resets(s: ClientState, now: u64, max_requests: u32, window: u64)
    requires
        elapsed(s.window_start, now) > window,
    ensures
        window_rule(Some(s), now, max_requests, window) == (ClientState { count: 1, window_start: now }, true),
{
}

/// With a limit of at least one, no slot ever counts more requests than the limit.
pub proof fn lemma_count_bounded(prev: Option<ClientState>, now: u64, max_requests: u32, window: u64)
    requires
        max_requests >= 1,
        prev matches Some(s) ==> s.count <= max_requests,
    ensures
        window_rule(prev, now, max_requests, window).0.count <= max_requests,
{
}

} // verus!
