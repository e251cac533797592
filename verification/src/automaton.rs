//! The two-action learning automaton.

use vstd::prelude::*;

use crate::random::uniform_below;

verus! {

/// The reinforcement an automaton receives.
#[derive(Clone, Copy, Debug, PartialEq, Eq, Structural)]
pub enum FeedBack {
    Reward,
    Inaction,
    Penalty,
}

/// A learning automaton with the states `0..=2 * max_activation`.
///
/// In the upper half, from `max_activation` on, it decides that its literal
/// takes part in the clause; in the lower half that it does not.
#[derive(Clone, Copy, Debug, PartialEq, Eq, Structural)]
pub struct Automaton {
    pub max_activation: i32,
    pub state: i32,
}

impl Automaton {
    /// The state lies within `0..=2 * max_activation`, and that range fits
    /// the machine integer.
    pub open spec fn wf(&self) -> bool {
        &&& 1 <= self.max_activation <= i32::MAX / 2
        &&& 0 <= self.state <= 2 * self.max_activation
    }

    /// The decision of the automaton: `true` in the upper half of its states.
    pub open spec fn spec_output(&self) -> bool {
        self.state >= self.max_activation
    }

    /// An automaton as `new` makes it: on one of the two states next to the
    /// boundary between the two decisions.
    pub open spec fn is_fresh(&self, max_activation: int) -> bool {
        &&& self.max_activation == max_activation
        &&& (self.state == max_activation - 1 || self.state == max_activation)
    }

    /// The state that follows `self.state` on `feedback`.
    ///
    /// A reward moves the state one step away from the boundary, a penalty
    /// one step towards it and, from the upper half, across it. The state
    /// stays within `0..=2 * max_activation`.
    pub open spec fn next_state(&self, feedback: FeedBack) -> int {
        let up = if self.state < 2 * self.max_activation {
            self.state + 1
        } else {
            self.state as int
        };
        let down = if self.state > 0 {
            self.state - 1
        } else {
            self.state as int
        };
        match feedback {
            FeedBack::Inaction => self.state as int,
            FeedBack::Reward => if self.spec_output() { up } else { down },
            FeedBack::Penalty => if self.spec_output() { down } else { up },
        }
    }

    /// The automaton after `feedback`.
    pub open spec fn after(&self, feedback: FeedBack) -> Automaton {
        Automaton { max_activation: self.max_activation, state: self.next_state(feedback) as i32 }
    }

    /// An automaton on the state `max_activation - 1 + draw`.
    pub fn at_boundary(max_activation: i32, draw: u64) -> (a: Automaton)
        requires
            1 <= max_activation <= i32::MAX / 2,
            draw < 2,
        ensures
            a.max_activation == max_activation,
            a.state == max_activation - 1 + draw,
            a.wf(),
            a.is_fresh(max_activation as int),
            a.spec_output() == (draw == 1),
    {
        let state = if draw == 0 { max_activation - 1 } else { max_activation };
        Automaton { max_activation, state }
    }

    /// A new automaton on a state drawn from the two next to the boundary.
    pub fn new(max_activation: i32) -> (a: Automaton)
        requires
            1 <= max_activation <= i32::MAX / 2,
        ensures
            a.wf(),
            a.is_fresh(max_activation as int),
    {
        let draw = uniform_below(2);
        Automaton::at_boundary(max_activation, draw)
    }

    /// Whether the automaton is well formed.
    pub fn is_valid(&self) -> (valid: bool)
        ensures
            valid == self.wf(),
    {
        1 <= self.max_activation && self.max_activation <= i32::MAX / 2 && 0 <= self.state && self.state
            <= 2 * self.max_activation
    }

    /// The decision of the automaton.
    pub fn output(&self) -> (b: bool)
        ensures
            b == self.spec_output(),
    {
        self.state >= self.max_activation
    }

    /// Moves the automaton to the state that follows on `feedback`.
    pub fn transition(&mut self, feedback: FeedBack)
        requires
            old(self).wf(),
        ensures
            *final(self) == old(self).after(feedback),
            final(self).wf(),
    {
        match feedback {
            FeedBack::Reward => {
                if self.state >= self.max_activation {
                    if self.state < 2 * self.max_activation {
                        self.state += 1;
                    }
                } else {
                    if self.state > 0 {
                        self.state -= 1;
                    }
                }
            },
            FeedBack::Penalty => {
                if self.state >= self.max_activation {
                    if self.state > 0 {
                        self.state -= 1;
                    }
                } else {
                    if self.state < 2 * self.max_activation {
                        self.state += 1;
                    }
                }
            },
            FeedBack::Inaction => {},
        }
    }
}

/// Feedback leaves a well-formed automaton well formed: the state stays
/// within `0..=2 * max_activation`, and `max_activation` is not touched.
pub proof fn lemma_after_is_wf(a: Automaton, feedback: FeedBack)
    requires
        a.wf(),
    ensures
        a.after(feedback).wf(),
        a.after(feedback).max_activation == a.max_activation,
{
}

/// A reward never changes the decision of an automaton, and inaction changes
/// nothing at all.
pub proof fn lemma_reward_keeps_decision(a: Automaton)
    requires
        a.wf(),
    ensures
        a.after(FeedBack::Reward).spec_output() == a.spec_output(),
        a.after(FeedBack::Inaction) == a,
{
}

/// Neither end of the state range traps an automaton: a penalty moves it off
/// the end it stands on.
pub proof fn lemma_penalty_leaves_the_ends(a: Automaton)
    requires
        a.wf(),
        a.state == 0 || a.state == 2 * a.max_activation,
    ensures
        a.after(FeedBack::Penalty).state != a.state,
        a.after(FeedBack::Reward).state == a.state,
{
}

} // verus!
