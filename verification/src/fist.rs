//! A raised fist, held, closes a tab: once per fist.
use vstd::prelude::*;

use crate::settings::{elapsed, span_of, FIST_HOLD, FIST_REARM};

verus! {

/// Since when a fist is held, and whether it has been acted upon.
#[derive(Clone, Copy, Debug, PartialEq, Eq, Structural)]
pub struct FistState {
    pub since: Option<u64>,
    pub fired: bool,
    pub last_fire: u64,
}

impl FistState {
    /// Whether a frame completes a held fist that has not been acted upon.
    pub open spec fn due(self, fist: bool, now: u64) -> bool {
        &&& fist
        &&& !self.fired
        &&& self.since matches Some(t0) && span_of(now, t0) >= FIST_HOLD
    }

    /// The state after seeing a frame: a fist starts the hold, anything else ends
    /// it. Only a hand that has opened, a while after the last action, arms the next
    /// one; a closed hand that is merely lowered does not.
    pub open spec fn seen(self, fist: bool, opened: bool, now: u64) -> FistState {
        if fist {
            FistState { since: Some(self.since.unwrap_or(now)), ..self }
        } else {
            FistState {
                since: None,
                fired: self.fired && !(opened && span_of(now, self.last_fire) > FIST_REARM),
                ..self
            }
        }
    }

    /// The state after acting upon the fist.
    pub open spec fn acted(self, now: u64) -> FistState {
        FistState { fired: true, last_fire: now, ..self }
    }

    /// The state after losing the hand.
    pub open spec fn lost(self) -> FistState {
        FistState { since: None, ..self }
    }

    /// Takes in a frame: whether it shows a raised fist, and whether one of the four
    /// fingers is up. Returns whether the tab is to be closed now.
    pub fn watch(&mut self, fist: bool, opened: bool, now: u64) -> (due: bool)
        ensures
            due == old(self).due(fist, now),
            *final(self) == old(self).seen(fist, opened, now),
    {
        if fist {
            match self.since {
                None => {
                    self.since = Some(now);
                    false
                },
                Some(t0) => !self.fired && elapsed(now, t0) >= FIST_HOLD,
            }
        } else {
            self.since = None;
            if opened && self.fired && elapsed(now, self.last_fire) > FIST_REARM {
                self.fired = false;
            }
            false
        }
    }

    /// Records that the tab was closed.
    pub fn act(&mut self, now: u64)
        ensures
            *final(self) == old(self).acted(now),
    {
        self.fired = true;
        self.last_fire = now;
    }

    /// Forgets the hold.
    pub fn lose(&mut self)
        ensures
            *final(self) == old(self).lost(),
    {
        self.since = None;
    }
}

/// What can happen to the fist, as far as it matters.
pub enum FistEvent {
    /// A frame: whether it shows a raised fist, and whether one of the four fingers
    /// is up.
    Frame { fist: bool, opened: bool, now: u64 },
    /// The tab that a frame at this time asked to close was closed.
    Closed { now: u64 },
    /// No hand in view.
    Lost,
}

impl FistEvent {
    /// Whether this interrupts a held fist.
    pub open spec fn interrupts(self) -> bool {
        match self {
            FistEvent::Frame { fist, .. } => !fist,
            FistEvent::Closed { .. } => false,
            FistEvent::Lost => true,
        }
    }

    /// Whether this is a frame of a hand that is no raised fist and has one of the
    /// four fingers up.
    pub open spec fn opens(self) -> bool {
        match self {
            FistEvent::Frame { fist, opened, .. } => !fist && opened,
            _ => false,
        }
    }

    /// The time that belongs to the event.
    pub open spec fn time(self) -> u64 {
        match self {
            FistEvent::Frame { now, .. } => now,
            FistEvent::Closed { now } => now,
            FistEvent::Lost => 0,
        }
    }
}

/// The state after one event.
pub open spec fn after_event(s: FistState, event: FistEvent) -> FistState {
    match event {
        FistEvent::Frame { fist, opened, now } => s.seen(fist, opened, now),
        FistEvent::Closed { now } => s.acted(now),
        FistEvent::Lost => s.lost(),
    }
}

/// The state after a sequence of events.
pub open spec fn after_events(start: FistState, events: Seq<FistEvent>) -> FistState
    decreases events.len(),
{
    if events.len() == 0 {
        start
    } else {
        after_event(after_events(start, events.drop_last()), events.last())
    }
}

/// Whether the event at this position is a frame that asks for a tab to be closed.
pub open spec fn closes_at(start: FistState, events: Seq<FistEvent>, k: int) -> bool {
    events[k] matches FistEvent::Frame { fist, now, .. } && after_events(start, events.take(k)).due(
        fist,
        now,
    )
}

/// Whether nothing from position `j` on, up to but without `k`, interrupts the fist.
pub open spec fn held_throughout(events: Seq<FistEvent>, j: int, k: int) -> bool {
    forall|i: int| j <= i < k ==> !(#[trigger] events[i]).interrupts()
}

/// Whether the event at this position is a frame with a raised fist at this time.
pub open spec fn fist_at(events: Seq<FistEvent>, j: int, t: u64) -> bool {
    events[j] matches FistEvent::Frame { fist, now, .. } && fist && now == t
}

proof fn lemma_hold_starts_somewhere(start: FistState, events: Seq<FistEvent>)
    requires
        start.since is None,
    ensures
        after_events(start, events).since matches Some(t0) ==> exists|j: int|
            0 <= j < events.len() && #[trigger] fist_at(events, j, t0) && held_throughout(
                events,
                j,
                events.len() as int,
            ),
    decreases events.len(),
{
    if events.len() > 0 {
        let before = events.drop_last();
        let last = events.len() - 1;
        lemma_hold_starts_somewhere(start, before);
        if after_events(start, events).since is Some {
            let t0 = after_events(start, events).since->0;
            if after_events(start, before).since is Some {
                let j = choose|j: int|
                    0 <= j < before.len() && #[trigger] fist_at(before, j, t0)
                        && held_throughout(before, j, before.len() as int);
                assert(fist_at(events, j, t0));
                assert forall|i: int| j <= i < events.len() implies !(
                #[trigger] events[i]).interrupts() by {
                    if i < last {
                        assert(before[i] == events[i]);
                        assert(!before[i].interrupts());
                    }
                }
                assert(held_throughout(events, j, events.len() as int));
            } else {
                assert(fist_at(events, last, t0));
                assert(held_throughout(events, last, events.len() as int));
            }
        }
    }
}

/// Only a fist that was raised and held closes a tab: the hold began in an earlier
/// frame, at least `FIST_HOLD` ago, and every frame since showed a raised fist.
pub proof fn law_tab_closes_only_on_held_fist(start: FistState, events: Seq<FistEvent>, k: int)
    requires
        start.since is None,
        0 <= k < events.len(),
        closes_at(start, events, k),
    ensures
        exists|j: int, t0: u64|
            0 <= j < k && #[trigger] fist_at(events, j, t0) && events[k].time() - t0 >= FIST_HOLD
                && held_throughout(events, j, k + 1),
{
    let before = events.take(k);
    lemma_hold_starts_somewhere(start, before);
    let t0 = after_events(start, before).since->0;
    let j = choose|j: int|
        0 <= j < before.len() && #[trigger] fist_at(before, j, t0) && held_throughout(
            before,
            j,
            before.len() as int,
        );
    assert(fist_at(events, j, t0));
    assert forall|i: int| j <= i < k + 1 implies !(#[trigger] events[i]).interrupts() by {
        if i < k {
            assert(before[i] == events[i]);
            assert(!before[i].interrupts());
        }
    }
    assert(held_throughout(events, j, k + 1));
}

proof fn lemma_hold_lasts(start: FistState, events: Seq<FistEvent>, k: int)
    requires
        0 < k <= events.len(),
        start.since is None,
        forall|i: int| 0 <= i < k ==> #[trigger] fist_at(events, i, events[i].time()),
    ensures
        after_events(start, events.take(k)).since == Some(events[0].time()),
        after_events(start, events.take(k)).fired == start.fired,
    decreases k,
{
    assert(events.take(k).drop_last() == events.take(k - 1));
    assert(events.take(k).last() == events[k - 1]);
    assert(fist_at(events, k - 1, events[k - 1].time()));
    if k > 1 {
        lemma_hold_lasts(start, events, k - 1);
    } else {
        assert(events.take(0) == Seq::<FistEvent>::empty());
    }
}

/// A held fist does close a tab: with nothing but raised fists since the hold began,
/// and the last one acted upon already armed again, the first frame that comes
/// `FIST_HOLD` or more after the start of the hold asks for it.
pub proof fn law_held_fist_closes_tab(start: FistState, events: Seq<FistEvent>, k: int)
    requires
        0 < k < events.len(),
        start.since is None,
        !start.fired,
        forall|i: int| 0 <= i <= k ==> #[trigger] fist_at(events, i, events[i].time()),
        events[k].time() - events[0].time() >= FIST_HOLD,
    ensures
        closes_at(start, events, k),
{
    lemma_hold_lasts(start, events, k);
    assert(fist_at(events, k, events[k].time()));
}

proof fn lemma_fired_stays(start: FistState, events: Seq<FistEvent>, i: int, k: int)
    requires
        0 <= i < k <= events.len(),
        events[i] is Closed,
        forall|m: int|
            i < m < k ==> !((#[trigger] events[m]) is Closed) && !(events[m].opens()
                && span_of(events[m].time(), events[i].time()) > FIST_REARM),
    ensures
        after_events(start, events.take(k)).fired,
        after_events(start, events.take(k)).last_fire == events[i].time(),
    decreases k,
{
    assert(events.take(k).drop_last() == events.take(k - 1));
    assert(events.take(k).last() == events[k - 1]);
    if i < k - 1 {
        lemma_fired_stays(start, events, i, k - 1);
    }
}

/// A fist closes one tab: after a tab was closed, no frame asks for another one
/// before a frame, more than `FIST_REARM` later, showed the hand opened, with one of
/// the four fingers up.
pub proof fn law_one_tab_per_fist(start: FistState, events: Seq<FistEvent>, i: int, k: int)
    requires
        0 <= i < k < events.len(),
        events[i] is Closed,
        forall|m: int| i < m < k ==> !((#[trigger] events[m]) is Closed),
        closes_at(start, events, k),
    ensures
        exists|m: int|
            i < m < k && (#[trigger] events[m]).opens() && events[m].time() - events[i].time()
                > FIST_REARM,
{
    if !(exists|m: int|
        i < m < k && (#[trigger] events[m]).opens() && events[m].time() - events[i].time()
            > FIST_REARM) {
        lemma_fired_stays(start, events, i, k);
    }
}

/// An opened hand arms the next fist: once it is seen more than `FIST_REARM` after the
/// last closed tab, a fist may close another one. Nothing sooner, and no closed hand,
/// does, and only a closed tab disarms it.
pub proof fn law_opened_hand_rearms(s: FistState, fist: bool, opened: bool, now: u64)
    ensures
        !fist && opened && now > s.last_fire + FIST_REARM ==> !s.seen(fist, opened, now).fired,
        fist || !opened || now <= s.last_fire + FIST_REARM ==> s.seen(fist, opened, now).fired
            == s.fired,
        s.seen(fist, opened, now).last_fire == s.last_fire,
        s.acted(now).fired && s.acted(now).last_fire == now && s.acted(now).since == s.since,
        s.lost().fired == s.fired && s.lost().last_fire == s.last_fire && s.lost().since is None,
{
}

/// A hold lasts as long as the fist: it begins with the first frame of the fist and
/// ends with the first one without; the tab is due once it has lasted `FIST_HOLD`.
pub proof fn law_hold_lasts_with_the_fist(s: FistState, fist: bool, opened: bool, now: u64)
    ensures
        !fist ==> s.seen(fist, opened, now).since is None && !s.due(fist, now),
        fist && s.since is None ==> s.seen(fist, opened, now).since == Some(now) && !s.due(
            fist,
            now,
        ),
        fist && s.since is Some ==> s.seen(fist, opened, now).since == s.since,
        fist && s.since is Some ==> (s.due(fist, now) <==> !s.fired && now >= s.since->0
            + FIST_HOLD),
{
}

} // verus!
