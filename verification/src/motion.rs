//! Where the palm has been lately.
use std::collections::VecDeque;

use vstd::prelude::*;

use crate::hand::Point;
use crate::settings::{elapsed, span_of, MOTION_MIN_SPAN, MOTION_WINDOW};

verus! {

/// The centre of the palm at some time.
#[derive(Clone, Copy, Debug, PartialEq, Eq, Structural)]
pub struct Sample {
    pub t: u64,
    pub p: Point,
}

/// Whether a sample is too old to be remembered.
pub open spec fn stale(s: Sample, now: u64) -> bool {
    span_of(now, s.t) > MOTION_WINDOW
}

/// The history without the stale samples at its front.
pub open spec fn fresh(history: Seq<Sample>, now: u64) -> Seq<Sample>
    decreases history.len(),
{
    if history.len() > 0 && stale(history[0], now) {
        fresh(history.subrange(1, history.len() as int), now)
    } else {
        history
    }
}

/// The history after one more sample.
pub open spec fn remembered(history: Seq<Sample>, s: Sample) -> Seq<Sample> {
    fresh(history.push(s), s.t)
}

/// The two samples between which the speed is measured, where there are two far
/// enough apart in time: the oldest and the newest one.
pub open spec fn stretch(history: Seq<Sample>) -> Option<(Sample, Sample)> {
    if history.len() < 2 || span_of(history.last().t, history[0].t) < MOTION_MIN_SPAN {
        None
    } else {
        Some((history[0], history.last()))
    }
}

/// Adds a sample and forgets the stale ones.
pub fn remember(history: &mut VecDeque<Sample>, s: Sample)
    ensures
        final(history)@ == remembered(old(history)@, s),
{
    history.push_back(s);
    let now = s.t;
    let mut front_is_stale = history.len() > 0 && elapsed(now, history[0].t) > MOTION_WINDOW;
    while front_is_stale
        invariant
            fresh(history@, now) == fresh(old(history)@.push(s), now),
            front_is_stale == (history@.len() > 0 && stale(history@[0], now)),
        decreases history@.len(),
    {
        let dropped = history.pop_front();
        front_is_stale = history.len() > 0 && elapsed(now, history[0].t) > MOTION_WINDOW;
    }
}

/// The samples between which the speed is measured. Without them it counts as
/// zero.
pub fn velocity_stretch(history: &VecDeque<Sample>) -> (ends: Option<(Sample, Sample)>)
    ensures
        ends == stretch(history@),
{
    let n: usize = history.len();
    if n < 2 {
        return None;
    }
    let first = history[0];
    let last = history[n - 1];
    if elapsed(last.t, first.t) < MOTION_MIN_SPAN {
        None
    } else {
        Some((first, last))
    }
}

/// Whether samples came in the order of their times.
pub open spec fn in_order(history: Seq<Sample>) -> bool {
    forall|i: int, j: int| 0 <= i < j < history.len() ==> history[i].t <= history[j].t
}

proof fn lemma_fresh(history: Seq<Sample>, now: u64) -> (k: int)
    requires
        in_order(history),
    ensures
        0 <= k <= history.len(),
        fresh(history, now) == history.subrange(k, history.len() as int),
        forall|i: int| 0 <= i < k ==> stale(#[trigger] history[i], now),
        forall|i: int| k <= i < history.len() ==> !stale(#[trigger] history[i], now),
    decreases history.len(),
{
    if history.len() > 0 && stale(history[0], now) {
        let rest = history.subrange(1, history.len() as int);
        let k = lemma_fresh(rest, now);
        assert(rest.subrange(k, rest.len() as int) == history.subrange(
            k + 1,
            history.len() as int,
        ));
        assert forall|i: int| 0 <= i < k + 1 implies stale(#[trigger] history[i], now) by {
            if i > 0 {
                assert(rest[i - 1] == history[i]);
            }
        }
        assert forall|i: int| k + 1 <= i < history.len() implies !stale(
            #[trigger] history[i],
            now,
        ) by {
            assert(rest[i - 1] == history[i]);
        }
        k + 1
    } else {
        assert(history.subrange(0, history.len() as int) == history);
        assert forall|i: int| 0 <= i < history.len() implies !stale(
            #[trigger] history[i],
            now,
        ) by {
            assert(history[0].t <= history[i].t || i == 0);
        }
        0
    }
}

/// With samples in order of time, the history holds a sample exactly if it is no
/// older than the window, stays in order, and always ends with the newest one.
pub proof fn law_history_is_the_window(history: Seq<Sample>, s: Sample)
    requires
        in_order(history.push(s)),
    ensures
        in_order(remembered(history, s)),
        remembered(history, s).len() > 0,
        remembered(history, s).last() == s,
        forall|x: Sample| #[trigger]
            remembered(history, s).contains(x) <==> history.push(s).contains(x) && !stale(x, s.t),
{
    let all = history.push(s);
    let kept = remembered(history, s);
    let k = lemma_fresh(all, s.t);
    assert(all.last() == s && !stale(s, s.t));
    assert(k < all.len()) by {
        if k == all.len() {
            assert(stale(all[all.len() - 1], s.t));
        }
    }
    assert(kept.last() == all.last());
    assert forall|x: Sample| #[trigger] kept.contains(x) <==> all.contains(x) && !stale(
        x,
        s.t,
    ) by {
        if kept.contains(x) {
            let i = choose|i: int| 0 <= i < kept.len() && kept[i] == x;
            assert(all[k + i] == x);
            assert(!stale(all[k + i], s.t));
        }
        if all.contains(x) && !stale(x, s.t) {
            let i = choose|i: int| 0 <= i < all.len() && all[i] == x;
            assert(k <= i) by {
                if i < k {
                    assert(stale(all[i], s.t));
                }
            }
            assert(kept[i - k] == x);
        }
    }
}

/// A new sample ends the history, and only a stale front leaves it: what is kept is
/// what was there, from the first sample on that is no older than the window.
pub proof fn law_only_a_stale_front_is_forgotten(history: Seq<Sample>, s: Sample) -> (k: int)
    ensures
        0 <= k <= history.len(),
        remembered(history, s) == history.push(s).subrange(k, history.len() as int + 1),
        remembered(history, s).last() == s,
        forall|i: int| 0 <= i < k ==> s.t > (#[trigger] history[i]).t + MOTION_WINDOW,
        s.t <= history.push(s)[k].t + MOTION_WINDOW,
{
    let all = history.push(s);
    let k = lemma_front(all, s.t);
    if k == all.len() {
        assert(stale(all[all.len() - 1], s.t));
    }
    assert forall|i: int| 0 <= i < k implies s.t > (#[trigger] history[i]).t + MOTION_WINDOW by {
        assert(stale(all[i], s.t));
    }
    k
}

proof fn lemma_front(history: Seq<Sample>, now: u64) -> (k: int)
    ensures
        0 <= k <= history.len(),
        fresh(history, now) == history.subrange(k, history.len() as int),
        forall|i: int| 0 <= i < k ==> stale(#[trigger] history[i], now),
        k < history.len() ==> !stale(history[k], now),
    decreases history.len(),
{
    if history.len() > 0 && stale(history[0], now) {
        let rest = history.subrange(1, history.len() as int);
        let k = lemma_front(rest, now);
        assert(rest.subrange(k, rest.len() as int) == history.subrange(
            k + 1,
            history.len() as int,
        ));
        assert forall|i: int| 0 <= i < k + 1 implies stale(#[trigger] history[i], now) by {
            if i > 0 {
                assert(rest[i - 1] == history[i]);
            }
        }
        if k < rest.len() {
            assert(rest[k] == history[k + 1]);
        }
        k + 1
    } else {
        assert(history.subrange(0, history.len() as int) == history);
        0
    }
}

/// Speed is measured from the oldest sample to the newest, where they are far enough
/// apart in time.
pub proof fn law_speed_spans_the_history(history: Seq<Sample>)
    ensures
        stretch(history) is Some <==> history.len() >= 2 && history.last().t >= history[0].t
            + MOTION_MIN_SPAN,
        stretch(history) matches Some((first, last)) ==> first == history[0] && last
            == history.last(),
{
}

} // verus!
