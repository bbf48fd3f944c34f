//! The score and combo controller: kills in quick succession multiply.
use vstd::prelude::*;
use crate::units::{valid_time, valid_delta, clock_after, advance_clock, SECOND};

verus! {

/// The points that a hazard caught in a blast is worth.
pub const CHAIN_SCORE: u32 = 1;

/// The running score, as the presentation layer last heard it.
#[derive(Clone, Copy, Debug, PartialEq, Eq, Structural)]
pub struct Score(pub u32);

/// Something scored `score` points, before the combo multiplies them.
#[derive(Clone, Copy, Debug, PartialEq, Eq, Structural)]
pub struct ScoreEvent {
    pub score: u32,
}

/// Notification that the score or the combo changed.
#[derive(Clone, Copy, Debug, PartialEq, Eq, Structural)]
pub struct NewScore {
    pub combo: u32,
    pub score: u32,
}

/// Score, combo multiplier, and the time since the last scoring event.
#[derive(Clone, Copy, Debug, PartialEq, Eq, Structural)]
pub struct ScoreController {
    pub score: u32,
    pub combo: u32,
    pub time_since_last_score: i64,
    pub combo_window: i64,
}

/// `v`, held to what a `u32` can count.
pub open spec fn capped(v: int) -> int {
    if v > u32::MAX {
        u32::MAX as int
    } else {
        v
    }
}

impl ScoreController {
    /// The combo is at least 1, and both times are points on the clock.
    pub open spec fn wf(self) -> bool {
        &&& self.combo >= 1
        &&& valid_time(self.time_since_last_score as int)
        &&& valid_time(self.combo_window as int)
    }

    /// Whether an event now would fall inside the combo window.
    pub open spec fn in_window(self) -> bool {
        self.time_since_last_score < self.combo_window
    }

    /// The multiplier that an event now is scored with: the combo inside the
    /// window, 1 outside of it.
    pub open spec fn multiplier(self) -> int {
        if self.in_window() {
            self.combo as int
        } else {
            1
        }
    }

    /// The controller after an event worth `points`.
    pub open spec fn after_event(self, points: int) -> ScoreController {
        ScoreController {
            score: capped(self.score + points * self.multiplier()) as u32,
            combo: if self.in_window() {
                capped(self.combo + 1) as u32
            } else {
                1
            },
            time_since_last_score: 0,
            combo_window: self.combo_window,
        }
    }

    /// Whether the idle check after `delta` more microseconds lets the combo
    /// decay: the window has been exceeded and the combo is not 1 already.
    pub open spec fn decays(self, delta: int) -> bool {
        clock_after(self.time_since_last_score as int, delta) > self.combo_window && self.combo
            != 1
    }

    /// The controller after the idle check of a tick of `delta` microseconds.
    pub open spec fn after_idle(self, delta: int) -> ScoreController {
        ScoreController {
            score: self.score,
            combo: if self.decays(delta) {
                1
            } else {
                self.combo
            },
            time_since_last_score: clock_after(self.time_since_last_score as int, delta) as i64,
            combo_window: self.combo_window,
        }
    }

    /// The controller after `count` events worth one point each.
    pub open spec fn after_events(self, count: nat) -> ScoreController
        decreases count,
    {
        if count == 0 {
            self
        } else {
            self.after_events((count - 1) as nat).after_event(CHAIN_SCORE as int)
        }
    }

    /// The notification that reports this controller's state.
    pub open spec fn notification(self) -> NewScore {
        NewScore { combo: self.combo, score: self.score }
    }

    /// Reacts to a scoring event. Outside the combo window the combo falls
    /// back to 1 first; the event then scores its points times the combo;
    /// inside the window the combo then grows by one. Score and combo stop
    /// at the largest `u32`.
    pub fn on_score_event(&mut self, event: ScoreEvent) -> (n: NewScore)
        requires
            old(self).wf(),
        ensures
            *final(self) == old(self).after_event(event.score as int),
            n == final(self).notification(),
            final(self).wf(),
    {
        let within: bool = self.time_since_last_score < self.combo_window;
        if !within {
            self.combo = 1;
        }
        assert(event.score * self.combo <= u32::MAX * u32::MAX) by (nonlinear_arith)
            requires 0 <= event.score <= u32::MAX, 0 <= self.combo <= u32::MAX;
        let gained: u64 = event.score as u64 * self.combo as u64;
        let total: u64 = self.score as u64 + gained;
        self.score = if total > u32::MAX as u64 {
            u32::MAX
        } else {
            total as u32
        };
        if within && self.combo < u32::MAX {
            self.combo = self.combo + 1;
        }
        self.time_since_last_score = 0;
        NewScore { combo: self.combo, score: self.score }
    }

    /// The idle check of one tick: counts the time since the last scoring
    /// event and, once it exceeds the window, lets the combo fall back to 1.
    /// It notifies only when the combo changes.
    pub fn update_combo_timer(&mut self, delta: i64) -> (n: Option<NewScore>)
        requires
            old(self).wf(),
            valid_delta(delta as int),
        ensures
            *final(self) == old(self).after_idle(delta as int),
            n.is_some() == old(self).decays(delta as int),
            n.is_some() ==> n.unwrap() == final(self).notification(),
            final(self).wf(),
    {
        self.time_since_last_score = advance_clock(self.time_since_last_score, delta);
        if self.time_since_last_score > self.combo_window && self.combo != 1 {
            self.combo = 1;
            Some(NewScore { combo: self.combo, score: self.score })
        } else {
            None
        }
    }
}

/// The controller that a level starts with: no score, combo 1, a window of
/// one second.
pub fn score_controller() -> (c: ScoreController)
    ensures
        c.score == 0,
        c.combo == 1,
        c.time_since_last_score == 0,
        c.combo_window == SECOND,
        c.wf(),
{
    ScoreController { score: 0, combo: 1, time_since_last_score: 0, combo_window: SECOND }
}

/// The idle check never changes the score.
pub proof fn lemma_idle_keeps_score(c: ScoreController, delta: int)
    requires
        c.wf(),
        valid_delta(delta),
    ensures
        c.after_idle(delta).score == c.score,
        c.after_idle(delta).combo == c.combo || c.after_idle(delta).combo == 1,
{
}

/// With the combo at 1 already, the idle check notifies nobody, however long
/// ago the last score was.
pub proof fn lemma_idle_is_silent_at_combo_one(c: ScoreController, delta: int)
    requires
        c.wf(),
        valid_delta(delta),
        c.combo == 1,
    ensures
        !c.decays(delta),
        c.after_idle(delta).combo == 1,
        c.after_idle(delta).score == c.score,
{
}

/// Once an idle check has found the window exceeded, the next idle check
/// changes neither combo nor score and notifies nobody.
pub proof fn lemma_idle_decay_is_idempotent(c: ScoreController, first: int, second: int)
    requires
        c.wf(),
        valid_delta(first),
        valid_delta(second),
        clock_after(c.time_since_last_score as int, first) > c.combo_window,
    ensures
        !c.after_idle(first).decays(second),
        c.after_idle(first).after_idle(second).combo == c.after_idle(first).combo,
        c.after_idle(first).after_idle(second).score == c.after_idle(first).score,
{
}

/// An event inside the window scores its points times the combo and raises
/// the combo by one; an event outside of it scores its points once and leaves
/// the combo at 1.
pub proof fn lemma_event_scoring(c: ScoreController, points: int)
    requires
        c.wf(),
        0 <= points <= u32::MAX,
    ensures
        c.in_window() ==> c.after_event(points).score == capped(c.score + points * c.combo),
        c.in_window() ==> c.after_event(points).combo == capped(c.combo + 1),
        !c.in_window() ==> c.after_event(points).score == capped(c.score + points),
        !c.in_window() ==> c.after_event(points).combo == 1,
        c.after_event(points).score >= c.score,
        c.after_event(points).wf(),
{
    assert(points * c.multiplier() >= 0) by (nonlinear_arith)
        requires points >= 0, c.multiplier() >= 1;
    assert(points * 1 == points);
}

/// The notifications of `count` events worth one point each, in order.
pub open spec fn event_notes(c: ScoreController, count: nat) -> Seq<NewScore> {
    Seq::new(count, |i: int| c.after_events((i + 1) as nat).notification())
}

/// Any number of events leaves the controller well formed and the score no
/// lower.
pub proof fn lemma_after_events(c: ScoreController, count: nat)
    requires
        c.wf(),
    ensures
        c.after_events(count).wf(),
        c.after_events(count).score >= c.score,
        c.after_events(count).combo_window == c.combo_window,
    decreases count,
{
    if count > 0 {
        lemma_after_events(c, (count - 1) as nat);
        lemma_event_scoring(c.after_events((count - 1) as nat), CHAIN_SCORE as int);
    }
}

/// Reacts to `count` scoring events of one point each and adds the
/// notification of each to `notes`.
pub fn score_chain(c: &mut ScoreController, count: usize, notes: &mut Vec<NewScore>)
    requires
        old(c).wf(),
    ensures
        *final(c) == old(c).after_events(count as nat),
        final(notes)@ == old(notes)@ + event_notes(*old(c), count as nat),
        final(c).wf(),
{
    let mut i: usize = 0;
    assert(notes@ =~= old(notes)@ + event_notes(*old(c), 0));
    while i < count
        invariant
            i <= count,
            *c == old(c).after_events(i as nat),
            c.wf(),
            notes@ == old(notes)@ + event_notes(*old(c), i as nat),
        decreases count - i,
    {
        let n = c.on_score_event(ScoreEvent { score: CHAIN_SCORE });
        notes.push(n);
        i = i + 1;
        assert(notes@ =~= old(notes)@ + event_notes(*old(c), i as nat));
    }
}

} // verus!
