//! Poses and the mode they select.
use vstd::prelude::*;

use crate::settings::MODE_CONFIRM_FRAMES;

verus! {

/// What the tracked hand is doing.
#[derive(Clone, Copy, Debug, PartialEq, Eq, Structural)]
pub enum Mode {
    Idle,
    Cursor,
    Scroll,
    Palm,
}

impl Mode {
    /// Name of the mode.
    pub open spec fn name(self) -> Seq<char> {
        match self {
            Mode::Idle => "idle"@,
            Mode::Cursor => "cursor"@,
            Mode::Scroll => "scroll"@,
            Mode::Palm => "palm"@,
        }
    }

    /// Name of the mode.
    pub fn label(self) -> (text: &'static str)
        ensures
            text@ == self.name(),
    {
        match self {
            Mode::Idle => "idle",
            Mode::Cursor => "cursor",
            Mode::Scroll => "scroll",
            Mode::Palm => "palm",
        }
    }
}

/// How many of the four fingers (the thumb, at index 0, does not count) are up.
pub open spec fn raised(fingers: Seq<bool>) -> int {
    (if fingers[1] { 1int } else { 0 }) + (if fingers[2] { 1int } else { 0 })
        + (if fingers[3] { 1int } else { 0 }) + (if fingers[4] { 1int } else { 0 })
}

/// The mode that a pose stands for. A fist, held or just acted upon, is idle.
/// Otherwise pointing with the index alone moves the cursor, index and middle
/// together scroll unless all four fingers are up, and three or more fingers
/// are an open palm.
pub open spec fn pose(fingers: Seq<bool>, fist_now: bool, fist_fired: bool) -> Mode {
    if fist_now || fist_fired {
        Mode::Idle
    } else if fingers[1] && !fingers[2] {
        Mode::Cursor
    } else if fingers[1] && raised(fingers) < 4 {
        Mode::Scroll
    } else if raised(fingers) >= 3 {
        Mode::Palm
    } else {
        Mode::Idle
    }
}

/// How many of the four fingers are up.
pub fn count_raised(fingers: [bool; 5]) -> (count: u32)
    ensures
        count == raised(fingers@),
{
    let mut count: u32 = 0;
    if fingers[1] {
        count = count + 1;
    }
    if fingers[2] {
        count = count + 1;
    }
    if fingers[3] {
        count = count + 1;
    }
    if fingers[4] {
        count = count + 1;
    }
    count
}

/// Classifies a pose, forgiving a ring or little finger that wobbles.
pub fn classify_mode(fingers: [bool; 5], fist_now: bool, fist_fired: bool) -> (mode: Mode)
    ensures
        mode == pose(fingers@, fist_now, fist_fired),
{
    if fist_now || fist_fired {
        return Mode::Idle;
    }
    let ext_count: u32 = count_raised(fingers);
    if fingers[1] && fingers[2] && !(fingers[3] && fingers[4]) {
        Mode::Scroll
    } else if fingers[1] && !fingers[2] {
        Mode::Cursor
    } else if ext_count >= 3 {
        Mode::Palm
    } else {
        Mode::Idle
    }
}

/// The current mode, and the one that is about to replace it.
#[derive(Clone, Copy, Debug, PartialEq, Eq, Structural)]
pub struct ModeState {
    pub mode: Mode,
    pub candidate: Option<Mode>,
    pub frames: u32,
}

impl ModeState {
    /// A candidate differs from the mode and has been seen, but not often enough.
    pub open spec fn wf(self) -> bool {
        match self.candidate {
            None => self.frames == 0,
            Some(m) => m != self.mode && 1 <= self.frames < MODE_CONFIRM_FRAMES,
        }
    }

    /// This mode, without a candidate.
    pub open spec fn settled(self, mode: Mode) -> ModeState {
        ModeState { mode, candidate: None, frames: 0 }
    }

    /// Whether seeing this pose once more makes it the mode.
    pub open spec fn confirms(self, pose: Mode) -> bool {
        self.mode != pose && self.candidate == Some(pose) && self.frames + 1
            >= MODE_CONFIRM_FRAMES
    }

    /// The state after one frame with this pose.
    pub open spec fn after(self, pose: Mode) -> ModeState {
        if self.mode == pose {
            self.settled(self.mode)
        } else if self.confirms(pose) {
            self.settled(pose)
        } else if self.candidate == Some(pose) {
            ModeState { frames: (self.frames + 1) as u32, ..self }
        } else {
            ModeState { candidate: Some(pose), frames: 1, ..self }
        }
    }

    /// Takes in one frame with this pose. Returns whether the mode is now a new one.
    pub fn observe(&mut self, pose: Mode) -> (changed: bool)
        requires
            old(self).wf(),
        ensures
            final(self).wf(),
            *final(self) == old(self).after(pose),
            changed == old(self).confirms(pose),
    {
        if pose == self.mode {
            self.candidate = None;
            self.frames = 0;
            return false;
        }
        let repeated = match self.candidate {
            Some(m) => m == pose,
            None => false,
        };
        if repeated {
            self.frames = self.frames + 1;
            if self.frames >= MODE_CONFIRM_FRAMES {
                self.mode = pose;
                self.candidate = None;
                self.frames = 0;
                return true;
            }
        } else {
            self.candidate = Some(pose);
            self.frames = 1;
        }
        false
    }
}

/// The state after a sequence of frames with these poses.
pub open spec fn after_all(start: ModeState, poses: Seq<Mode>) -> ModeState
    decreases poses.len(),
{
    if poses.len() == 0 {
        start
    } else {
        after_all(start, poses.drop_last()).after(poses.last())
    }
}

/// How many of the latest poses in a row were this one.
pub open spec fn streak(poses: Seq<Mode>, pose: Mode) -> nat
    decreases poses.len(),
{
    if poses.len() == 0 || poses.last() != pose {
        0
    } else {
        1 + streak(poses.drop_last(), pose)
    }
}

proof fn lemma_candidate_is_streak(start: ModeState, poses: Seq<Mode>)
    requires
        start.wf(),
        start.candidate is None,
    ensures
        after_all(start, poses).wf(),
        after_all(start, poses).candidate matches Some(m) ==> after_all(start, poses).frames
            <= streak(poses, m),
    decreases poses.len(),
{
    if poses.len() > 0 {
        lemma_candidate_is_streak(start, poses.drop_last());
    }
}

proof fn lemma_streak_means_equal(poses: Seq<Mode>, pose: Mode, n: int)
    requires
        0 <= n <= streak(poses, pose),
    ensures
        n <= poses.len(),
        forall|i: int| poses.len() - n <= i < poses.len() ==> poses[i] == pose,
    decreases poses.len(),
{
    if n > 0 {
        lemma_streak_means_equal(poses.drop_last(), pose, n - 1);
        assert forall|i: int| poses.len() - n <= i < poses.len() implies poses[i] == pose by {
            if i < poses.len() - 1 {
                assert(poses.drop_last()[i] == pose);
            }
        }
    }
}

/// Modes are debounced: a frame changes the mode only if it and the frames just
/// before it, `MODE_CONFIRM_FRAMES` in all, showed the pose of the new mode.
pub proof fn law_mode_change_needs_consecutive_frames(start: ModeState, poses: Seq<Mode>)
    requires
        start.wf(),
        start.candidate is None,
        poses.len() > 0,
        after_all(start, poses).mode != after_all(start, poses.drop_last()).mode,
    ensures
        poses.len() >= MODE_CONFIRM_FRAMES,
        forall|i: int|
            poses.len() - MODE_CONFIRM_FRAMES <= i < poses.len() ==> poses[i] == after_all(
                start,
                poses,
            ).mode,
{
    let before = after_all(start, poses.drop_last());
    let pose = poses.last();
    lemma_candidate_is_streak(start, poses.drop_last());
    assert(before.confirms(pose));
    assert(streak(poses, pose) >= MODE_CONFIRM_FRAMES);
    lemma_streak_means_equal(poses, pose, MODE_CONFIRM_FRAMES as int);
}

/// A pose that is held long enough becomes the mode, whatever came before.
pub proof fn law_held_pose_becomes_mode(start: ModeState, poses: Seq<Mode>, pose: Mode)
    requires
        start.wf(),
        start.candidate is None,
        streak(poses, pose) >= MODE_CONFIRM_FRAMES,
    ensures
        after_all(start, poses).mode == pose,
{
    let p1 = poses.drop_last();
    let p2 = p1.drop_last();
    let p3 = p2.drop_last();
    reveal_with_fuel(streak, 4);
    reveal_with_fuel(after_all, 4);
    lemma_candidate_is_streak(start, p3);
    lemma_candidate_is_streak(start, p2);
    lemma_candidate_is_streak(start, p1);
}

/// Which pose selects which mode, finger by finger (the thumb does not count): without
/// a fist, held or just acted upon, the index finger without the middle one moves the
/// cursor; index and middle finger without both others scroll; the three others
/// together are a palm, whatever the index finger does; and anything else is idle.
pub proof fn law_poses_select_modes(fingers: Seq<bool>, fist_now: bool, fist_fired: bool)
    requires
        fingers.len() == 5,
    ensures
        fist_now || fist_fired ==> pose(fingers, fist_now, fist_fired) == Mode::Idle,
        !fist_now && !fist_fired ==> {
            let p = pose(fingers, fist_now, fist_fired);
            &&& p == Mode::Cursor <==> fingers[1] && !fingers[2]
            &&& p == Mode::Scroll <==> fingers[1] && fingers[2] && !(fingers[3] && fingers[4])
            &&& p == Mode::Palm <==> fingers[2] && fingers[3] && fingers[4]
        },
{
}

/// Raising a finger counts one more, and the thumb counts nothing.
pub proof fn law_fingers_are_counted(fingers: Seq<bool>, i: int)
    requires
        fingers.len() == 5,
        0 <= i < 5,
        !fingers[i],
    ensures
        raised(fingers.update(i, true)) == raised(fingers) + if i == 0 {
            0int
        } else {
            1
        },
        raised(fingers) == 0 <==> !fingers[1] && !fingers[2] && !fingers[3] && !fingers[4],
{
}

/// One frame of debouncing: the pose of the mode clears the candidate; a new pose
/// becomes the candidate, seen once; the candidate's pose counts on, and its third
/// frame in a row makes it the mode.
pub proof fn law_frame_counts_for_its_pose(s: ModeState, seen: Mode)
    requires
        s.wf(),
    ensures
        s.after(seen).wf(),
        seen == s.mode ==> s.after(seen) == (ModeState { mode: seen, candidate: None, frames: 0 }),
        seen != s.mode && s.candidate != Some(seen) ==> s.after(seen) == (ModeState {
            mode: s.mode,
            candidate: Some(seen),
            frames: 1,
        }),
        seen != s.mode && s.candidate == Some(seen) && s.frames < 2 ==> s.after(seen) == (
        ModeState { mode: s.mode, candidate: Some(seen), frames: (s.frames + 1) as u32 }),
        seen != s.mode && s.candidate == Some(seen) && s.frames >= 2 ==> s.after(seen) == (
        ModeState { mode: seen, candidate: None, frames: 0 }),
        s.confirms(seen) <==> s.after(seen).mode != s.mode,
{
}

/// The modes go by four different names.
pub proof fn law_modes_have_names(a: Mode, b: Mode)
    ensures
        Mode::Idle.name() == "idle"@,
        Mode::Cursor.name() == "cursor"@,
        Mode::Scroll.name() == "scroll"@,
        Mode::Palm.name() == "palm"@,
        a.name() == b.name() <==> a == b,
{
    reveal_strlit("idle");
    reveal_strlit("cursor");
    reveal_strlit("scroll");
    reveal_strlit("palm");
    if a != b {
        assert(a.name().len() != b.name().len() || a.name()[0] != b.name()[0]);
    }
}

} // verus!
