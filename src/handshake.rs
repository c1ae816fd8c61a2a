use vstd::prelude::*;

verus! {

/// Where a one-shot "ready, then push" exchange with a freshly opened window stands.
#[derive(Clone, Copy, PartialEq, Eq, Structural, Debug)]
pub enum Phase {
    /// The window exists; nobody listens for its ready signal yet.
    Created,
    /// The listener is in place and the timer runs.
    AwaitingReady,
    /// The window signalled readiness; the payload has been handed out.
    ReadySignaled,
    /// The timer fired first; the payload has been handed out anyway.
    TimedOut,
    /// The payload was emitted to the window.
    DataPushed,
}

/// What the surrounding event loop reports to the exchange.
#[derive(Clone, Copy, PartialEq, Eq, Structural, Debug)]
pub enum Signal {
    /// The one-shot listener for the ready signal is registered.
    Listening,
    /// The window's content emitted its ready signal.
    Ready,
    /// The bounded wait ran out.
    Timeout,
    /// The payload handed out earlier has been emitted.
    Pushed,
}

/// The phase after `s` arrives in phase `p`, and whether the payload is handed
/// out at that moment.
pub open spec fn step(p: Phase, s: Signal) -> (Phase, bool) {
    match (p, s) {
        (Phase::Created, Signal::Listening) => (Phase::AwaitingReady, false),
        (Phase::AwaitingReady, Signal::Ready) => (Phase::ReadySignaled, true),
        (Phase::AwaitingReady, Signal::Timeout) => (Phase::TimedOut, true),
        (Phase::ReadySignaled, Signal::Pushed) => (Phase::DataPushed, false),
        (Phase::TimedOut, Signal::Pushed) => (Phase::DataPushed, false),
        _ => (p, false),
    }
}

/// The phase reached from `Created` after the signals `sigs`, in order.
pub open spec fn phase_after(sigs: Seq<Signal>) -> Phase
    decreases sigs.len(),
{
    if sigs.len() == 0 {
        Phase::Created
    } else {
        step(phase_after(sigs.drop_last()), sigs.last()).0
    }
}

/// Whether the payload is handed out in answer to the signal at position `k`.
pub open spec fn pushes_at(sigs: Seq<Signal>, k: int) -> bool {
    step(phase_after(sigs.take(k)), sigs[k]).1
}

/// How many times the payload is handed out over the signals `sigs`.
pub open spec fn push_count(sigs: Seq<Signal>) -> nat
    decreases sigs.len(),
{
    if sigs.len() == 0 {
        0
    } else {
        push_count(sigs.drop_last()) + if step(phase_after(sigs.drop_last()), sigs.last()).1 {
            1nat
        } else {
            0nat
        }
    }
}

/// Whether the phase is one in which the payload is still held.
pub open spec fn holds_payload(p: Phase) -> bool {
    p == Phase::Created || p == Phase::AwaitingReady
}

/// A window that was opened with a payload to deliver once it is ready.
pub struct ReadyHandshake<P> {
    phase: Phase,
    payload: Option<P>,
}

impl<P> ReadyHandshake<P> {
    pub closed spec fn phase_spec(&self) -> Phase {
        self.phase
    }

    pub closed spec fn payload_spec(&self) -> Option<P> {
        self.payload
    }

    /// The payload is held exactly until it is handed out.
    pub closed spec fn wf(&self) -> bool {
        holds_payload(self.phase) <==> self.payload.is_some()
    }

    pub fn new(payload: P) -> (r: Self)
        ensures
            r.wf(),
            r.phase_spec() == Phase::Created,
            r.payload_spec() == Some(payload),
    {
        ReadyHandshake { phase: Phase::Created, payload: Some(payload) }
    }

    pub fn phase(&self) -> (r: Phase)
        ensures
            r == self.phase_spec(),
    {
        self.phase
    }

    /// Feeds one signal in. Returns the payload at the one moment it is to be
    /// emitted: on the ready signal, or on the timeout, whichever comes first
    /// while awaiting readiness.
    pub fn on_signal(&mut self, s: Signal) -> (r: Option<P>)
        requires
            old(self).wf(),
        ensures
            final(self).wf(),
            final(self).phase_spec() == step(old(self).phase_spec(), s).0,
            r.is_some() == step(old(self).phase_spec(), s).1,
            r.is_some() ==> r == old(self).payload_spec(),
            r.is_none() ==> final(self).payload_spec() == old(self).payload_spec(),
    {
        match (self.phase, s) {
            (Phase::Created, Signal::Listening) => {
                self.phase = Phase::AwaitingReady;
                None
            },
            (Phase::AwaitingReady, Signal::Ready) => {
                self.phase = Phase::ReadySignaled;
                self.payload.take()
            },
            (Phase::AwaitingReady, Signal::Timeout) => {
                self.phase = Phase::TimedOut;
                self.payload.take()
            },
            (Phase::ReadySignaled, Signal::Pushed) => {
                self.phase = Phase::DataPushed;
                None
            },
            (Phase::TimedOut, Signal::Pushed) => {
                self.phase = Phase::DataPushed;
                None
            },
            _ => None,
        }
    }
}

proof fn lemma_phase_after_push(sigs: Seq<Signal>, k: int)
    requires
        0 <= k <= sigs.len(),
    ensures
        sigs.take(k).len() == k,
        k > 0 ==> sigs.take(k).drop_last() == sigs.take(k - 1),
        k > 0 ==> sigs.take(k).last() == sigs[k - 1],
{
    if k > 0 {
        assert(sigs.take(k).drop_last() =~= sigs.take(k - 1));
    }
}

/// Before anything is handed out, the phase is `Created` or `AwaitingReady`;
/// once it has been, it never is again.
proof fn lemma_count_matches_phase(sigs: Seq<Signal>)
    ensures
        push_count(sigs) == if holds_payload(phase_after(sigs)) { 0nat } else { 1nat },
    decreases sigs.len(),
{
    if sigs.len() > 0 {
        lemma_count_matches_phase(sigs.drop_last());
    }
}

proof fn lemma_prefix_count(sigs: Seq<Signal>, k: int)
    requires
        0 <= k < sigs.len(),
    ensures
        push_count(sigs.take(k + 1)) == push_count(sigs.take(k)) + if pushes_at(sigs, k) {
            1nat
        } else {
            0nat
        },
{
    lemma_phase_after_push(sigs, k + 1);
}

proof fn lemma_count_monotone(sigs: Seq<Signal>, k: int)
    requires
        0 <= k <= sigs.len(),
    ensures
        push_count(sigs.take(k)) <= push_count(sigs),
    decreases sigs.len() - k,
{
    if k < sigs.len() {
        lemma_prefix_count(sigs, k);
        lemma_count_monotone(sigs, k + 1);
    } else {
        assert(sigs.take(k) =~= sigs);
    }
}

/// The payload is handed out at most once, whatever signals arrive and in
/// whatever order.
pub proof fn lemma_at_most_one_push(sigs: Seq<Signal>)
    ensures
        push_count(sigs) <= 1,
{
    lemma_count_matches_phase(sigs);
}

/// A push that comes before any timeout answers the ready signal itself, and a
/// listener was in place before it: the payload never goes out ahead of the
/// signal.
pub proof fn lemma_push_follows_ready(sigs: Seq<Signal>, k: int)
    requires
        0 <= k < sigs.len(),
        pushes_at(sigs, k),
        forall|j: int| 0 <= j <= k ==> sigs[j] != Signal::Timeout,
    ensures
        sigs[k] == Signal::Ready,
        exists|j: int| 0 <= j < k && sigs[j] == Signal::Listening,
{
    lemma_phase_after_push(sigs, k);
    assert(phase_after(sigs.take(k)) == Phase::AwaitingReady);
    lemma_listening_before(sigs.take(k));
    let j = choose|j: int| 0 <= j < k && sigs.take(k)[j] == Signal::Listening;
    assert(sigs[j] == Signal::Listening);
}

proof fn lemma_listening_before(sigs: Seq<Signal>)
    requires
        phase_after(sigs) != Phase::Created,
    ensures
        exists|j: int| 0 <= j < sigs.len() && sigs[j] == Signal::Listening,
    decreases sigs.len(),
{
    let init = sigs.drop_last();
    if phase_after(init) == Phase::Created {
        assert(sigs[sigs.len() - 1] == Signal::Listening);
    } else {
        lemma_listening_before(init);
        let j = choose|j: int| 0 <= j < init.len() && init[j] == Signal::Listening;
        assert(sigs[j] == Signal::Listening);
    }
}

/// Whether, by the signal at position `k`, the exchange is awaiting
/// readiness: a listener came first and neither a ready signal nor a timeout
/// has arrived since.
pub open spec fn awaiting_at(sigs: Seq<Signal>, k: int) -> bool {
    exists|l: int|
        0 <= l < k && sigs[l] == Signal::Listening && (forall|j: int|
            0 <= j < k ==> sigs[j] != Signal::Ready && sigs[j] != Signal::Timeout)
}

proof fn lemma_awaiting_phase(sigs: Seq<Signal>, k: int)
    requires
        0 <= k <= sigs.len(),
        forall|j: int| 0 <= j < k ==> sigs[j] != Signal::Ready && sigs[j] != Signal::Timeout,
    ensures
        phase_after(sigs.take(k)) == Phase::Created || phase_after(sigs.take(k))
            == Phase::AwaitingReady,
        (exists|l: int| 0 <= l < k && sigs[l] == Signal::Listening) ==> phase_after(sigs.take(k))
            == Phase::AwaitingReady,
    decreases k,
{
    if k > 0 {
        lemma_phase_after_push(sigs, k);
        lemma_awaiting_phase(sigs, k - 1);
        if exists|l: int| 0 <= l < k && sigs[l] == Signal::Listening {
            let l = choose|l: int| 0 <= l < k && sigs[l] == Signal::Listening;
            if l < k - 1 {
                assert(exists|l2: int| 0 <= l2 < k - 1 && sigs[l2] == Signal::Listening);
            }
        }
    }
}

/// When the ready signal arrives while the exchange awaits it, the payload
/// goes out at that very signal, and only then.
pub proof fn lemma_ready_in_time_delivers(sigs: Seq<Signal>, k: int)
    requires
        0 <= k < sigs.len(),
        sigs[k] == Signal::Ready,
        awaiting_at(sigs, k),
    ensures
        pushes_at(sigs, k),
        forall|j: int| 0 <= j < k ==> !pushes_at(sigs, j),
        push_count(sigs) == 1,
{
    lemma_once_pushed_counted(sigs, k);
}

/// When the timeout comes while the exchange awaits the ready signal, the
/// payload still goes out, exactly once over the whole exchange.
pub proof fn lemma_timeout_still_delivers(sigs: Seq<Signal>, k: int)
    requires
        0 <= k < sigs.len(),
        sigs[k] == Signal::Timeout,
        awaiting_at(sigs, k),
    ensures
        pushes_at(sigs, k),
        forall|j: int| 0 <= j < k ==> !pushes_at(sigs, j),
        push_count(sigs) == 1,
{
    lemma_once_pushed_counted(sigs, k);
}

proof fn lemma_once_pushed_counted(sigs: Seq<Signal>, k: int)
    requires
        0 <= k < sigs.len(),
        sigs[k] == Signal::Ready || sigs[k] == Signal::Timeout,
        awaiting_at(sigs, k),
    ensures
        pushes_at(sigs, k),
        forall|j: int| 0 <= j < k ==> !pushes_at(sigs, j),
        push_count(sigs) == 1,
{
    lemma_awaiting_phase(sigs, k);
    assert forall|j: int| 0 <= j < k implies !pushes_at(sigs, j) by {
        lemma_awaiting_phase(sigs, j);
    }
    lemma_count_matches_phase(sigs.take(k));
    lemma_prefix_count(sigs, k);
    lemma_count_matches_phase(sigs.take(k + 1));
    lemma_count_monotone(sigs, k + 1);
    lemma_at_most_one_push(sigs);
}

} // verus!
