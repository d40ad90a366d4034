//! Two fingers scroll.
use vstd::prelude::*;

use crate::scalar::Scalar;
use crate::settings::{
    elapsed, number, span_of, threshold, SCROLL_MAX_TICKS, SCROLL_SETTLE, SCROLL_TICK,
};

verus! {

/// Which way the page goes.
#[derive(Clone, Copy, Debug, PartialEq, Eq, Structural)]
pub enum ScrollDirection {
    Up,
    Down,
}

/// Since when the fingers scroll, where they were last, and how far they have
/// gone since the last tick.
#[derive(Clone, Copy, Debug, PartialEq, Eq, Structural)]
pub struct ScrollState {
    pub entered: Option<u64>,
    pub last_y: Option<Scalar>,
    pub travel: Scalar,
}

/// The tick that travel amounts to: fingers that moved down (y grows downwards)
/// by a tick scroll the page down.
pub open spec fn tick_of(travel: Scalar) -> Option<ScrollDirection> {
    if !number(SCROLL_TICK).at_most(travel.unsigned()) {
        None
    } else if number(0).below(travel) {
        Some(ScrollDirection::Down)
    } else {
        Some(ScrollDirection::Up)
    }
}

/// The next tick of a frame that has already made `ticks` of them.
pub open spec fn next_tick(travel: Scalar, ticks: u32) -> Option<ScrollDirection> {
    if ticks < SCROLL_MAX_TICKS {
        tick_of(travel)
    } else {
        None
    }
}

/// The next tick of a frame that has already made `ticks` of them.
pub fn scroll_tick(travel: Scalar, ticks: u32) -> (tick: Option<ScrollDirection>)
    ensures
        tick == next_tick(travel, ticks),
{
    if ticks >= SCROLL_MAX_TICKS || !threshold(SCROLL_TICK).le(travel.abs()) {
        None
    } else if threshold(0).lt(travel) {
        Some(ScrollDirection::Down)
    } else {
        Some(ScrollDirection::Up)
    }
}

impl ScrollState {
    /// Whether the gesture is too young to scroll.
    pub open spec fn settling(self, now: u64) -> bool {
        span_of(now, self.entered.unwrap_or(now)) < SCROLL_SETTLE
    }

    /// The state with nothing scrolled yet.
    pub open spec fn rested(self) -> ScrollState {
        ScrollState { last_y: None, travel: number(0), ..self }
    }

    /// Whether the gesture is too young to scroll.
    pub fn is_settling(&self, now: u64) -> (result: bool)
        ensures
            result == self.settling(now),
    {
        let entered = match self.entered {
            Some(t) => t,
            None => now,
        };
        elapsed(now, entered) < SCROLL_SETTLE
    }

    /// Forgets where the fingers were.
    pub fn rest(&mut self)
        ensures
            *final(self) == old(self).rested(),
    {
        self.last_y = None;
        self.travel = Scalar::zero();
    }
}

/// The page follows the fingers, and only a full tick of travel scrolls it.
pub proof fn law_page_follows_fingers(travel: Scalar)
    ensures
        tick_of(travel) == Some(ScrollDirection::Down) <==> number(SCROLL_TICK).at_most(travel),
        tick_of(travel) == Some(ScrollDirection::Up) <==> travel.unsigned() != travel && number(
            SCROLL_TICK,
        ).at_most(travel.unsigned()),
        travel.unsigned().below(number(SCROLL_TICK)) ==> tick_of(travel) is None,
{
}

/// A tick is due for every full tick of travel, the way of the travel, and for at most
/// three of them a frame.
pub proof fn law_ticks_are_due_with_travel(travel: Scalar, ticks: u32)
    ensures
        next_tick(travel, ticks) is Some <==> ticks < 3 && number(SCROLL_TICK).at_most(
            travel.unsigned(),
        ),
        next_tick(travel, ticks) == Some(ScrollDirection::Down) <==> ticks < 3 && number(
            SCROLL_TICK,
        ).at_most(travel),
{
}

/// Scrolling settles for a while after it was entered, and resting forgets the fingers
/// and their travel only.
pub proof fn law_scroll_settles(s: ScrollState, now: u64)
    ensures
        s.settling(now) <==> (s.entered matches Some(t) ==> now < t + SCROLL_SETTLE),
        s.rested() == (ScrollState { entered: s.entered, last_y: None, travel: Scalar { bits: 0 } }),
{
}

} // verus!
