use vstd::prelude::*;

verus! {

/// How long a listener stays quiet after it has asked for a refresh, in
/// milliseconds: quick enough for volume-key mashing, slow enough to swallow
/// event spam.
pub const DEBOUNCE_MS: u64 = 250;

/// Decides which change events turn into refresh requests: after a request,
/// events are held back until the window has passed, and held-back events
/// yield one request later on.
#[derive(Debug, Clone, Copy, PartialEq, Eq, Structural)]
pub struct Debouncer {
    pub window: u64,
    /// When the last request was made, in milliseconds.
    pub last_emit: Option<u64>,
    /// An event was held back since the last request.
    pub pending: bool,
}

/// A request that the block with identity `id` be refreshed.
pub struct RefreshRequest {
    pub id: String,
    /// When the change was seen, in milliseconds.
    pub timestamp: u64,
}

/// Watches one source of change events on behalf of one block.
pub struct Listener {
    pub id: String,
    pub debounce: Debouncer,
}

/// A request may be made at `now`: none was made yet, or the window since the
/// last one has passed.
pub open spec fn admits(d: Debouncer, now: u64) -> bool {
    match d.last_emit {
        None => true,
        Some(t) => now >= t && now - t >= d.window,
    }
}

/// An event at `now`: the next state, and whether a request is made.
pub open spec fn event_step(d: Debouncer, now: u64) -> (Debouncer, bool) {
    if admits(d, now) {
        (Debouncer { last_emit: Some(now), pending: false, ..d }, true)
    } else {
        (Debouncer { pending: true, ..d }, false)
    }
}

/// A quiet moment at `now`: a held-back event is answered once the window has
/// passed.
pub open spec fn idle_step(d: Debouncer, now: u64) -> (Debouncer, bool) {
    if d.pending && admits(d, now) {
        (Debouncer { last_emit: Some(now), pending: false, ..d }, true)
    } else {
        (d, false)
    }
}

/// The state after events at `times`, in that order, and how many requests
/// they made.
pub open spec fn run_events(d: Debouncer, times: Seq<u64>) -> (Debouncer, nat)
    decreases times.len(),
{
    if times.len() == 0 {
        (d, 0)
    } else {
        let (d1, n) = run_events(d, times.drop_last());
        let (d2, emit) = event_step(d1, times.last());
        (d2, if emit {
            n + 1
        } else {
            n
        })
    }
}

/// What the listener with identity `id` hands out for events at `times`:
/// for each event, the identity and time of its request, if one is made.
pub open spec fn run_requests(id: Seq<char>, d: Debouncer, times: Seq<u64>) -> Seq<
    Option<(Seq<char>, u64)>,
>
    decreases times.len(),
{
    if times.len() == 0 {
        Seq::empty()
    } else {
        let prev = run_events(d, times.drop_last()).0;
        run_requests(id, d, times.drop_last()).push(
            if event_step(prev, times.last()).1 {
                Some((id, times.last()))
            } else {
                None
            },
        )
    }
}

impl Debouncer {
    /// A debouncer that has made no request yet.
    pub open spec fn new_spec(window: u64) -> Debouncer {
        Debouncer { window, last_emit: None, pending: false }
    }

    pub fn new(window: u64) -> (r: Self)
        ensures
            r == Debouncer::new_spec(window),
    {
        Debouncer { window, last_emit: None, pending: false }
    }

    fn admits_at(&self, now: u64) -> (r: bool)
        ensures
            r == admits(*self, now),
    {
        match self.last_emit {
            None => true,
            Some(t) => now >= t && now - t >= self.window,
        }
    }

    /// A change event arrived at `now`; true when it is to be answered by a
    /// refresh request.
    pub fn on_event(&mut self, now: u64) -> (emit: bool)
        ensures
            (*final(self), emit) == event_step(*old(self), now),
    {
        if self.admits_at(now) {
            self.last_emit = Some(now);
            self.pending = false;
            true
        } else {
            self.pending = true;
            false
        }
    }

    /// No event arrived up to `now`; true when a held-back event is now to be
    /// answered by a refresh request.
    pub fn on_idle(&mut self, now: u64) -> (emit: bool)
        ensures
            (*final(self), emit) == idle_step(*old(self), now),
    {
        if self.pending && self.admits_at(now) {
            self.last_emit = Some(now);
            self.pending = false;
            true
        } else {
            false
        }
    }
}

impl Listener {
    /// A listener for the block with identity `id`, with the usual window.
    pub fn new(id: String) -> (r: Self)
        ensures
            r.id@ == id@,
            r.debounce == Debouncer::new_spec(DEBOUNCE_MS),
    {
        Listener { id, debounce: Debouncer::new(DEBOUNCE_MS) }
    }

    fn request(&self, now: u64) -> (r: RefreshRequest)
        ensures
            r.id@ == self.id@,
            r.timestamp == now,
    {
        RefreshRequest { id: self.id.clone(), timestamp: now }
    }

    /// A change event arrived at `now`: the refresh request to send, if any.
    pub fn on_event(&mut self, now: u64) -> (r: Option<RefreshRequest>)
        ensures
            final(self).id@ == old(self).id@,
            final(self).debounce == event_step(old(self).debounce, now).0,
            r is Some == event_step(old(self).debounce, now).1,
            r is Some ==> r->0.id@ == old(self).id@ && r->0.timestamp == now,
    {
        if self.debounce.on_event(now) {
            Some(self.request(now))
        } else {
            None
        }
    }

    /// No event arrived up to `now`: the refresh request to send, if any.
    pub fn on_idle(&mut self, now: u64) -> (r: Option<RefreshRequest>)
        ensures
            final(self).id@ == old(self).id@,
            final(self).debounce == idle_step(old(self).debounce, now).0,
            r is Some == idle_step(old(self).debounce, now).1,
            r is Some ==> r->0.id@ == old(self).id@ && r->0.timestamp == now,
    {
        if self.debounce.on_idle(now) {
            Some(self.request(now))
        } else {
            None
        }
    }
}

proof fn lemma_burst(d: Debouncer, times: Seq<u64>, t0: int)
    requires
        d.window > 0,
        forall|i: int| 0 <= i < times.len() ==> t0 <= #[trigger] times[i] < t0 + d.window,
    ensures
        run_events(d, times).0.window == d.window,
        run_events(d, times).1 <= 1,
        run_events(d, times).1 == 1 ==> run_events(d, times).0.last_emit is Some && t0
            <= run_events(d, times).0.last_emit->0 < t0 + d.window,
    decreases times.len(),
{
    if times.len() > 0 {
        let prefix = times.drop_last();
        assert forall|i: int| 0 <= i < prefix.len() implies t0 <= #[trigger] prefix[i] < t0
            + d.window by {
            assert(prefix[i] == times[i]);
        }
        lemma_burst(d, prefix, t0);
        assert(times.last() == times[times.len() - 1]);
    }
}

/// Events that all arrive within one debounce window, however many, make at
/// most one refresh request, whatever state the debouncer was in.
pub proof fn lemma_burst_makes_one_request(d: Debouncer, times: Seq<u64>)
    requires
        d.window > 0,
        times.len() > 0,
        forall|i: int| 0 <= i < times.len() ==> times[0] <= #[trigger] times[i] < times[0] as int
            + d.window,
    ensures
        run_events(d, times).1 <= 1,
        times.len() >= 2 ==> run_events(d, times).1 < times.len(),
{
    lemma_burst(d, times, times[0] as int);
}

/// Every request that a listener hands out carries the listener's identity,
/// whichever events arrived before it.
pub proof fn lemma_requests_carry_identity(id: Seq<char>, d: Debouncer, times: Seq<u64>)
    ensures
        run_requests(id, d, times).len() == times.len(),
        forall|i: int|
            0 <= i < times.len() ==> (#[trigger] run_requests(id, d, times)[i] matches Some(
                (rid, _),
            ) ==> rid == id),
    decreases times.len(),
{
    if times.len() > 0 {
        lemma_requests_carry_identity(id, d, times.drop_last());
    }
}

} // verus!
