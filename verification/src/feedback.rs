//! The two kinds of feedback: which reinforcement an automaton receives, and
//! how a whole family of automata is updated.

use vstd::prelude::*;

use crate::automaton::{lemma_after_is_wf, Automaton, FeedBack};
use crate::random::chance;
use crate::ratio::Ratio;

verus! {

/// The kind of feedback a clause is given.
#[derive(Clone, Copy, Debug, PartialEq, Eq, Structural)]
pub enum FeedbackType {
    TypeI,
    TypeII,
}

/// Type I feedback for one automaton.
///
/// `normal` tells the frequent branch from the rare one, `action` is the
/// decision of the automaton, `literal` the value of its literal and `clause`
/// the value of its clause.
pub open spec fn spec_type_i_feedback(normal: bool, action: bool, literal: bool, clause: bool) -> FeedBack {
    match (clause, literal, normal) {
        (true, true, true) => if action { FeedBack::Reward } else { FeedBack::Penalty },
        (true, true, false) => FeedBack::Inaction,
        (true, false, true) => FeedBack::Inaction,
        (true, false, false) => FeedBack::Reward,
        (false, _, true) => FeedBack::Inaction,
        (false, _, false) => if action { FeedBack::Penalty } else { FeedBack::Reward },
    }
}

/// Type II feedback for one automaton: a penalty when the clause is true
/// although the literal is false and left out of it, else nothing.
pub open spec fn spec_type_ii_feedback(action: bool, literal: bool, clause: bool) -> FeedBack {
    if clause && !literal && !action {
        FeedBack::Penalty
    } else {
        FeedBack::Inaction
    }
}

/// What `sample_type_i_feedback` may return for the specificity `s`: the
/// feedback of the rare branch or, unless the rare branch has probability one,
/// that of the frequent branch.
pub open spec fn type_i_sampled(s: Ratio, feedback: FeedBack, action: bool, literal: bool, clause: bool) -> bool {
    ||| feedback == spec_type_i_feedback(false, action, literal, clause)
    ||| s.denom < s.numer && feedback == spec_type_i_feedback(true, action, literal, clause)
}

/// The automaton `a` after Type II feedback.
pub open spec fn type_ii_step(a: Automaton, literal: bool, clause: bool) -> Automaton {
    a.after(spec_type_ii_feedback(a.spec_output(), literal, clause))
}

/// `post` is a possible result of Type I feedback on the automaton `pre`.
pub open spec fn type_i_step(pre: Automaton, post: Automaton, s: Ratio, literal: bool, clause: bool) -> bool {
    exists|feedback: FeedBack|
        type_i_sampled(s, feedback, pre.spec_output(), literal, clause) && post == pre.after(feedback)
}

/// `post` is a possible result of Type I feedback on the family `pre`: each
/// automaton that has a literal in `input` took one step, the others are as
/// they were.
pub open spec fn type_i_outcome(pre: Seq<Automaton>, post: Seq<Automaton>, s: Ratio, input: Seq<bool>, clause: bool) -> bool {
    &&& post.len() == pre.len()
    &&& forall|i: int|
        0 <= i < pre.len() ==> if i < input.len() {
            type_i_step(pre[i], #[trigger] post[i], s, input[i], clause)
        } else {
            post[i] == pre[i]
        }
}

/// The family `pre` after Type II feedback: each automaton that has a literal
/// in `input` took its step, the others are as they were.
pub open spec fn type_ii_applied(pre: Seq<Automaton>, input: Seq<bool>, clause: bool) -> Seq<Automaton> {
    Seq::new(
        pre.len(),
        |i: int| if i < input.len() { type_ii_step(pre[i], input[i], clause) } else { pre[i] },
    )
}

/// `post` is a possible result of feedback of the given kind on `pre`.
pub open spec fn feedback_outcome(
    kind: FeedbackType,
    pre: Seq<Automaton>,
    post: Seq<Automaton>,
    s: Ratio,
    input: Seq<bool>,
    clause: bool,
) -> bool {
    match kind {
        FeedbackType::TypeI => type_i_outcome(pre, post, s, input, clause),
        FeedbackType::TypeII => post == type_ii_applied(pre, input, clause),
    }
}

/// Every automaton of the family is well formed.
pub open spec fn family_wf(family: Seq<Automaton>) -> bool {
    forall|i: int| 0 <= i < family.len() ==> (#[trigger] family[i]).wf()
}

/// Every automaton of the family is well formed and has the given
/// `max_activation`.
pub open spec fn family_of(family: Seq<Automaton>, max_activation: int) -> bool {
    forall|i: int|
        0 <= i < family.len() ==> (#[trigger] family[i]).wf() && family[i].max_activation == max_activation
}

/// Feedback of either kind keeps the size of a family, the well-formedness
/// of its automata and their `max_activation`.
pub proof fn lemma_feedback_keeps_family(
    kind: FeedbackType,
    pre: Seq<Automaton>,
    post: Seq<Automaton>,
    s: Ratio,
    input: Seq<bool>,
    clause: bool,
    max_activation: int,
)
    requires
        feedback_outcome(kind, pre, post, s, input, clause),
        family_of(pre, max_activation),
    ensures
        post.len() == pre.len(),
        family_of(post, max_activation),
{
    assert forall|i: int| 0 <= i < post.len() implies (#[trigger] post[i]).wf() && post[i].max_activation
        == max_activation by {
        assert(pre[i].wf());
        match kind {
            FeedbackType::TypeI => {
                if i < input.len() {
                    let feedback = choose|feedback: FeedBack|
                        type_i_sampled(s, feedback, pre[i].spec_output(), input[i], clause) && post[i]
                            == pre[i].after(feedback);
                    lemma_after_is_wf(pre[i], feedback);
                }
            },
            FeedbackType::TypeII => {
                if i < input.len() {
                    lemma_after_is_wf(pre[i], spec_type_ii_feedback(pre[i].spec_output(), input[i], clause));
                }
            },
        }
    }
}

/// Type I feedback once the branch is known.
pub fn type_i_feedback(normal: bool, action: bool, literal: bool, clause: bool) -> (feedback: FeedBack)
    ensures
        feedback == spec_type_i_feedback(normal, action, literal, clause),
{
    if clause {
        if literal {
            if normal {
                if action {
                    FeedBack::Reward
                } else {
                    FeedBack::Penalty
                }
            } else {
                FeedBack::Inaction
            }
        } else {
            if normal {
                FeedBack::Inaction
            } else {
                FeedBack::Reward
            }
        }
    } else {
        if normal {
            FeedBack::Inaction
        } else {
            if action {
                FeedBack::Penalty
            } else {
                FeedBack::Reward
            }
        }
    }
}

/// Type I feedback: takes the rare branch with probability `1 / s`.
pub fn sample_type_i_feedback(s: Ratio, action: bool, literal: bool, clause: bool) -> (feedback: FeedBack)
    requires
        s.is_positive(),
    ensures
        type_i_sampled(s, feedback, action, literal, clause),
{
    let rare = chance(s.reciprocal());
    type_i_feedback(!rare, action, literal, clause)
}

/// Type II feedback.
pub fn sample_type_ii_feedback(action: bool, literal: bool, clause: bool) -> (feedback: FeedBack)
    ensures
        feedback == spec_type_ii_feedback(action, literal, clause),
{
    if clause && !literal && !action {
        FeedBack::Penalty
    } else {
        FeedBack::Inaction
    }
}

/// Gives Type I feedback to each automaton of the family that has a literal
/// in `input`.
pub fn give_type_i_feedback(s: Ratio, input: &Vec<bool>, clause: bool, automata_family: &mut Vec<Automaton>)
    requires
        s.is_positive(),
        family_wf(old(automata_family)@),
    ensures
        type_i_outcome(old(automata_family)@, final(automata_family)@, s, input@, clause),
        family_wf(final(automata_family)@),
{
    let n = if input.len() < automata_family.len() { input.len() } else { automata_family.len() };
    let mut i: usize = 0;
    while i < n
        invariant
            s.is_positive(),
            n <= input.len(),
            n <= automata_family.len(),
            i <= n,
            automata_family.len() == old(automata_family).len(),
            family_wf(automata_family@),
            forall|j: int| 0 <= j < i ==> type_i_step(old(automata_family)[j], #[trigger] automata_family[j], s, input[j], clause),
            forall|j: int| i <= j < automata_family.len() ==> automata_family[j] == old(automata_family)[j],
        decreases n - i,
    {
        let action = automata_family[i].output();
        let feedback = sample_type_i_feedback(s, action, input[i], clause);
        automata_family[i].transition(feedback);
        i += 1;
    }
}

/// Gives Type II feedback to each automaton of the family that has a literal
/// in `input`.
pub fn give_type_ii_feedback(input: &Vec<bool>, clause: bool, automata_family: &mut Vec<Automaton>)
    requires
        family_wf(old(automata_family)@),
    ensures
        final(automata_family)@ == type_ii_applied(old(automata_family)@, input@, clause),
        family_wf(final(automata_family)@),
{
    let n = if input.len() < automata_family.len() { input.len() } else { automata_family.len() };
    let mut i: usize = 0;
    while i < n
        invariant
            n <= input.len(),
            n <= automata_family.len(),
            i <= n,
            automata_family.len() == old(automata_family).len(),
            family_wf(automata_family@),
            forall|j: int| 0 <= j < i ==> #[trigger] automata_family[j] == type_ii_step(old(automata_family)[j], input[j], clause),
            forall|j: int| i <= j < automata_family.len() ==> automata_family[j] == old(automata_family)[j],
        decreases n - i,
    {
        let action = automata_family[i].output();
        let feedback = sample_type_ii_feedback(action, input[i], clause);
        automata_family[i].transition(feedback);
        i += 1;
    }
    assert(automata_family@ =~= type_ii_applied(old(automata_family)@, input@, clause));
}

} // verus!
