//! Clicks of the power button.
use vstd::prelude::*;

verus! {

/// The longest pause between the clicks of a multiple click, in nanoseconds.
pub const MULTI_CLICK_GAP: u64 = 800_000_000;

/// How long the button is held for a long press, in nanoseconds.
pub const LONG_PRESS: u64 = 3_000_000_000;

/// What the button was used for.
#[derive(Clone, Copy, Debug, PartialEq, Eq, Structural)]
pub enum PowerAction {
    Nothing,
    Single,
    Triple,
    Long,
}

/// Counts clicks. Times are readings of one monotonic clock in nanoseconds.
#[derive(Debug)]
pub struct ClickTracker {
    clicks: u8,
    deadline: Option<u64>,
    down_since: Option<u64>,
}

/// The state of a tracker.
pub struct TrackerView {
    pub clicks: u8,
    pub deadline: Option<u64>,
    pub down_since: Option<u64>,
}

impl TrackerView {
    /// Nothing is pending.
    pub open spec fn idle() -> TrackerView {
        TrackerView { clicks: 0, deadline: None, down_since: None }
    }

    /// The button has been held for a long press. A clock that went back
    /// counts as no time at all.
    pub open spec fn held_long(self, now: u64) -> bool {
        self.down_since is Some && now - self.down_since->0 >= LONG_PRESS
    }

    /// The state after the button went down.
    pub open spec fn pressed(self, now: u64) -> TrackerView {
        TrackerView {
            down_since: if self.down_since is Some {
                self.down_since
            } else {
                Some(now)
            },
            ..self
        }
    }

    /// The number of clicks once this one is counted: the first of a new
    /// series where the pause was too long.
    pub open spec fn counted(self, now: u64) -> int {
        let earlier = if self.deadline is Some && now > self.deadline->0 {
            0
        } else {
            self.clicks as int
        };
        earlier + 1
    }

    /// What a release of the button means.
    pub open spec fn release_action(self, now: u64) -> PowerAction {
        if self.held_long(now) {
            PowerAction::Long
        } else if self.counted(now) >= 3 {
            PowerAction::Triple
        } else {
            PowerAction::Nothing
        }
    }

    /// The state after a release of the button.
    pub open spec fn released(self, now: u64) -> TrackerView {
        if self.release_action(now) != PowerAction::Nothing {
            TrackerView::idle()
        } else {
            TrackerView {
                clicks: self.counted(now) as u8,
                deadline: Some((now + MULTI_CLICK_GAP) as u64),
                down_since: None,
            }
        }
    }

    /// What the passing of time means.
    pub open spec fn poll_action(self, now: u64) -> PowerAction {
        if self.held_long(now) {
            PowerAction::Long
        } else if self.clicks > 0 && self.deadline is Some && now >= self.deadline->0 {
            PowerAction::Single
        } else {
            PowerAction::Nothing
        }
    }

    /// The state after time has passed.
    pub open spec fn polled(self, now: u64) -> TrackerView {
        if self.poll_action(now) != PowerAction::Nothing {
            TrackerView::idle()
        } else {
            self
        }
    }

    /// What holds of every tracker: fewer than three clicks are pending, and
    /// there is a deadline exactly while some are.
    pub open spec fn sound(self) -> bool {
        self.clicks < 3 && (self.clicks > 0 <==> self.deadline is Some)
    }
}

impl View for ClickTracker {
    type V = TrackerView;

    closed spec fn view(&self) -> TrackerView {
        TrackerView {
            clicks: self.clicks,
            deadline: self.deadline,
            down_since: self.down_since,
        }
    }
}

impl Default for ClickTracker {
    fn default() -> (r: ClickTracker)
        ensures
            r@ == TrackerView::idle(),
    {
        ClickTracker { clicks: 0, deadline: None, down_since: None }
    }
}

impl ClickTracker {
    #[verifier::type_invariant]
    spec fn wf(self) -> bool {
        self.clicks < 3 && (self.clicks > 0 <==> self.deadline is Some)
    }

    /// The button went down.
    pub fn press(&mut self, now: u64)
        ensures
            final(self)@ == old(self)@.pressed(now),
            final(self)@.sound(),
    {
        proof {
            use_type_invariant(&*self);
        }
        if self.down_since.is_none() {
            self.down_since = Some(now);
        }
    }

    /// Whether the button has been held for a long press.
    fn is_held_long(&self, now: u64) -> (r: bool)
        ensures
            r == self@.held_long(now),
    {
        match self.down_since {
            Some(start) => now.saturating_sub(start) >= LONG_PRESS,
            None => false,
        }
    }

    /// The button went up.
    pub fn release(&mut self, now: u64) -> (action: PowerAction)
        requires
            now + MULTI_CLICK_GAP <= u64::MAX,
        ensures
            action == old(self)@.release_action(now),
            final(self)@ == old(self)@.released(now),
            final(self)@.sound(),
    {
        proof {
            use_type_invariant(&*self);
        }
        if self.is_held_long(now) {
            self.clear();
            return PowerAction::Long;
        }
        let late = match self.deadline {
            Some(deadline) => now > deadline,
            None => false,
        };
        let clicks: u8 = if late {
            1
        } else {
            self.clicks + 1
        };
        if clicks >= 3 {
            self.clear();
            PowerAction::Triple
        } else {
            *self = ClickTracker {
                clicks,
                deadline: Some(now + MULTI_CLICK_GAP),
                down_since: None,
            };
            PowerAction::Nothing
        }
    }

    /// Time has passed.
    pub fn poll(&mut self, now: u64) -> (action: PowerAction)
        ensures
            action == old(self)@.poll_action(now),
            final(self)@ == old(self)@.polled(now),
            final(self)@.sound(),
    {
        proof {
            use_type_invariant(&*self);
        }
        if self.is_held_long(now) {
            self.clear();
            return PowerAction::Long;
        }
        let due = match self.deadline {
            Some(deadline) => now >= deadline,
            None => false,
        };
        if self.clicks > 0 && due {
            self.clear();
            PowerAction::Single
        } else {
            PowerAction::Nothing
        }
    }

    /// Forgets everything that is pending.
    pub fn clear(&mut self)
        ensures
            final(self)@ == TrackerView::idle(),
    {
        *self = ClickTracker { clicks: 0, deadline: None, down_since: None };
    }
}

/// Every use of a tracker leaves it sound.
pub proof fn trackers_stay_sound(state: TrackerView, now: u64)
    requires
        state.sound(),
    ensures
        TrackerView::idle().sound(),
        state.pressed(now).sound(),
        state.released(now).sound(),
        state.polled(now).sound(),
{
}

/// The third click fires at once where no pause before it was too long.
pub proof fn the_third_click_fires(state: TrackerView, first: u64, second: u64, third: u64)
    requires
        state == TrackerView::idle(),
        first <= second <= first + MULTI_CLICK_GAP,
        second <= third <= second + MULTI_CLICK_GAP,
        third + MULTI_CLICK_GAP <= u64::MAX,
    ensures
        ({
            let one = state.pressed(first).released(first);
            let two = one.pressed(second).released(second);
            &&& state.pressed(first).release_action(first) == PowerAction::Nothing
            &&& one.pressed(second).release_action(second) == PowerAction::Nothing
            &&& two.pressed(third).release_action(third) == PowerAction::Triple
        }),
{
}

/// A single click is reported once the pause has passed, and not before.
pub proof fn a_single_click_resolves_after_the_gap(state: TrackerView, at: u64, now: u64)
    requires
        state == TrackerView::idle(),
        at + MULTI_CLICK_GAP <= u64::MAX,
    ensures
        state.pressed(at).released(at).poll_action(now) == (if now >= at + MULTI_CLICK_GAP {
            PowerAction::Single
        } else {
            PowerAction::Nothing
        }),
{
}

/// A long press is never followed by another action of its own.
pub proof fn a_long_press_leaves_nothing_behind(state: TrackerView, now: u64, later: u64)
    requires
        state.held_long(now),
    ensures
        state.release_action(now) == PowerAction::Long,
        state.released(now).poll_action(later) == PowerAction::Nothing,
        state.poll_action(now) == PowerAction::Long,
        state.polled(now).poll_action(later) == PowerAction::Nothing,
{
}

/// A key that is held for three seconds means a long press, whether it is then released or still
/// held, and a shorter one never does.
pub proof fn long_presses_take_three_seconds(since: u64, now: u64, state: TrackerView)
    requires
        state.down_since == Some(since),
    ensures
        state.release_action(now) == PowerAction::Long <==> now - since >= 3_000_000_000,
        state.poll_action(now) == PowerAction::Long <==> now - since >= 3_000_000_000,
        state.pressed(now).down_since == Some(since),
{
}

/// A key that is up is never held, and pressing it changes nothing but when it went down.
pub proof fn presses_note_their_time(state: TrackerView, now: u64, later: u64)
    requires
        state.down_since is None,
    ensures
        state.pressed(now).down_since == Some(now),
        state.pressed(now).clicks == state.clicks,
        state.pressed(now).deadline == state.deadline,
        state.release_action(now) != PowerAction::Long,
        state.poll_action(now) != PowerAction::Long,
        state.pressed(now).release_action(later) == PowerAction::Long <==> later - now
            >= 3_000_000_000,
{
}

/// Short clicks count together while each comes within the gap after the one before; the third
/// one fires. One that comes later counts from the beginning.
pub proof fn clicks_count_within_the_gap(state: TrackerView, now: u64)
    requires
        state.sound(),
        now + 800_000_000 <= u64::MAX,
        state.down_since is Some ==> now - state.down_since->0 < 3_000_000_000,
    ensures
        state.deadline is Some && now > state.deadline->0 ==> state.release_action(now)
            == PowerAction::Nothing && state.released(now).clicks == 1,
        state.deadline is None ==> state.release_action(now) == PowerAction::Nothing
            && state.released(now).clicks == 1,
        state.deadline is Some && now <= state.deadline->0 && state.clicks < 2
            ==> state.release_action(now) == PowerAction::Nothing && state.released(now).clicks
            == state.clicks + 1,
        state.deadline is Some && now <= state.deadline->0 && state.clicks == 2
            ==> state.release_action(now) == PowerAction::Triple && state.released(now)
            == TrackerView::idle(),
        state.release_action(now) == PowerAction::Nothing ==> state.released(now).deadline == Some(
            (now + 800_000_000) as u64,
        ) && state.released(now).down_since is None,
{
}

/// One or two clicks mean a single click once the gap is over, and until then nothing; whatever
/// fires clears the tracker, and what does not leaves it as it is.
pub proof fn clicks_resolve_when_the_gap_is_over(state: TrackerView, now: u64)
    requires
        state.sound(),
        state.down_since is None,
    ensures
        state.poll_action(now) == PowerAction::Single <==> state.clicks > 0 && now
            >= state.deadline->0,
        state.poll_action(now) == PowerAction::Single || state.poll_action(now)
            == PowerAction::Nothing,
        state.poll_action(now) == PowerAction::Single ==> state.polled(now).clicks == 0
            && state.polled(now).deadline is None && state.polled(now).down_since is None,
        state.poll_action(now) == PowerAction::Nothing ==> state.polled(now) == state,
{
}

} // verus!
