//! The machine: two banks of clauses that vote for and against the class.

use vstd::prelude::*;

use crate::bank::{
    bank_is_valid, bank_trained, bank_view, bank_wf, lemma_trained_bank_is_wf,
    lemma_wf_bank_is_live, live_clauses, par_train, par_votes, trim_bank, votes,
};
use crate::clause::{lemma_trained_clause_is_wf, Clause, ClauseView};
use crate::feedback::FeedbackType;
use crate::literals::{expand, par_expand};
use crate::ratio::Ratio;

verus! {

/// A Tsetlin machine for one class.
///
/// `s` is the specificity: Type I feedback takes its rare branch with
/// probability `1 / s`. `threshold` bounds the vote margin that training
/// aims at.
#[derive(Clone, Debug, PartialEq, Eq)]
pub struct TsetlinMachine {
    s: Ratio,
    threshold: Ratio,
    positive_clauses: Vec<Clause>,
    negative_clauses: Vec<Clause>,
}

/// The mathematical model of a machine.
pub struct MachineView {
    pub s: Ratio,
    pub threshold: Ratio,
    pub positive: Seq<ClauseView>,
    pub negative: Seq<ClauseView>,
}

/// The sum of the votes.
pub open spec fn vote_sum(votes: Seq<i32>) -> int
    decreases votes.len(),
{
    if votes.len() == 0 {
        0
    } else {
        vote_sum(votes.drop_last()) + votes.last()
    }
}

/// `v` held within `low..=high`.
pub open spec fn clamp(v: int, low: int, high: int) -> int {
    if v < low {
        low
    } else if v > high {
        high
    } else {
        v
    }
}

/// The numerator of the feedback probability, over the denominator
/// `feedback_denom(threshold)`.
///
/// For the threshold `t = numer / denom` and the vote margin `v` the
/// probability is `(t - clamp(v, -t, t)) / (2 * t)`; both sides of the
/// fraction are multiplied by `denom` here.
pub open spec fn feedback_numer(threshold: Ratio, margin: int) -> int {
    threshold.numer - clamp(threshold.denom * margin, -(threshold.numer as int), threshold.numer as int)
}

/// The denominator of the feedback probability.
pub open spec fn feedback_denom(threshold: Ratio) -> int {
    2 * threshold.numer
}

/// The probability with which each clause is trained on an example whose
/// vote margin is `margin`.
pub open spec fn spec_feedback_probability(threshold: Ratio, margin: int) -> Ratio {
    Ratio { numer: feedback_numer(threshold, margin) as u64, denom: feedback_denom(threshold) as u64 }
}

/// The kind of feedback a bank gets: Type I where the polarity of the bank
/// agrees with the target, Type II where it does not.
pub open spec fn feedback_kind(positive_bank: bool, target: bool) -> FeedbackType {
    if positive_bank == target {
        FeedbackType::TypeI
    } else {
        FeedbackType::TypeII
    }
}

impl MachineView {
    /// The invariant of a machine: positive hyperparameters, a threshold
    /// whose double fits the machine integer, and clauses that satisfy
    /// theirs.
    pub open spec fn wf(&self) -> bool {
        &&& self.s.is_positive()
        &&& self.threshold.is_positive()
        &&& self.threshold.numer <= u64::MAX / 2
        &&& bank_wf(self.positive)
        &&& bank_wf(self.negative)
    }

    /// The machine of the given parts.
    pub open spec fn assembled(
        s: Ratio,
        threshold: Ratio,
        positive: Seq<ClauseView>,
        negative: Seq<ClauseView>,
    ) -> MachineView {
        MachineView { s, threshold, positive, negative }
    }

    /// The vote margin on `literals`: the votes for, less the votes against.
    pub open spec fn margin(&self, literals: Seq<bool>) -> int {
        vote_sum(votes(self.positive, literals)) - vote_sum(votes(self.negative, literals))
    }

    /// The prediction for `input`: the votes for outnumber the votes against.
    pub open spec fn predicts(&self, input: Seq<bool>) -> bool {
        self.margin(expand(input)) > 0
    }

    /// `post` is a possible result of fitting this machine to one example:
    /// the hyperparameters stay, and each bank was trained on the votes the
    /// machine gave before, with the feedback probability of its margin.
    pub open spec fn fitted_to(&self, post: MachineView, input: Seq<bool>, target: bool) -> bool {
        let literals = expand(input);
        let p = spec_feedback_probability(self.threshold, self.margin(literals));
        &&& post.s == self.s
        &&& post.threshold == self.threshold
        &&& bank_trained(
            self.positive,
            post.positive,
            feedback_kind(true, target),
            self.s,
            p,
            literals,
            votes(self.positive, literals),
        )
        &&& bank_trained(
            self.negative,
            post.negative,
            feedback_kind(false, target),
            self.s,
            p,
            literals,
            votes(self.negative, literals),
        )
    }
}

impl View for TsetlinMachine {
    type V = MachineView;

    closed spec fn view(&self) -> MachineView {
        MachineView {
            s: self.s,
            threshold: self.threshold,
            positive: bank_view(self.positive_clauses@),
            negative: bank_view(self.negative_clauses@),
        }
    }
}

/// The feedback probability is a probability whatever the vote margin: its
/// numerator lies between zero and its denominator. Beyond the threshold it
/// is held at zero or at one, on the threshold's own sides it falls as the
/// margin grows, and at margin zero it is one half.
pub proof fn lemma_feedback_probability_bounds(threshold: Ratio, margin: int)
    requires
        threshold.is_positive(),
    ensures
        0 <= feedback_numer(threshold, margin) <= feedback_denom(threshold),
        0 < feedback_denom(threshold),
        threshold.denom * margin >= threshold.numer ==> feedback_numer(threshold, margin) == 0,
        threshold.denom * margin <= -threshold.numer ==> feedback_numer(threshold, margin) == feedback_denom(
            threshold,
        ),
        -threshold.numer <= threshold.denom * margin <= threshold.numer ==> feedback_numer(threshold, margin)
            == threshold.numer - threshold.denom * margin,
        2 * feedback_numer(threshold, 0) == feedback_denom(threshold),
{
    assert(threshold.denom * 0 == 0);
}

/// The feedback probability does not grow with the vote margin.
pub proof fn lemma_feedback_probability_falls(threshold: Ratio, low: int, high: int)
    requires
        threshold.is_positive(),
        low <= high,
    ensures
        feedback_numer(threshold, low) >= feedback_numer(threshold, high),
{
    assert(threshold.denom * low <= threshold.denom * high) by (nonlinear_arith)
        requires
            threshold.denom > 0,
            low <= high,
    ;
}

/// Fitting at the ends of the feedback probability: a machine whose vote
/// margin has reached the threshold is left as it is, and in one whose margin
/// has reached the threshold's negative every clause has its round of
/// feedback.
pub proof fn lemma_fit_beyond_the_threshold(pre: MachineView, post: MachineView, input: Seq<bool>, target: bool)
    requires
        pre.wf(),
        pre.fitted_to(post, input, target),
    ensures
        pre.threshold.denom * pre.margin(expand(input)) >= pre.threshold.numer ==> post == pre,
        pre.threshold.denom * pre.margin(expand(input)) <= -pre.threshold.numer ==> {
            &&& forall|i: int|
                0 <= i < pre.positive.len() ==> pre.positive[i].updated_to(
                    #[trigger] post.positive[i],
                    feedback_kind(true, target),
                    pre.s,
                    expand(input),
                    pre.positive[i].applies(expand(input)),
                )
            &&& forall|i: int|
                0 <= i < pre.negative.len() ==> pre.negative[i].updated_to(
                    #[trigger] post.negative[i],
                    feedback_kind(false, target),
                    pre.s,
                    expand(input),
                    pre.negative[i].applies(expand(input)),
                )
        },
{
    let literals = expand(input);
    let margin = pre.margin(literals);
    let p = spec_feedback_probability(pre.threshold, margin);
    lemma_feedback_probability_bounds(pre.threshold, margin);
    assert(p.numer == feedback_numer(pre.threshold, margin));
    assert(p.denom == feedback_denom(pre.threshold));
    if pre.threshold.denom * margin >= pre.threshold.numer {
        assert forall|i: int| 0 <= i < pre.positive.len() implies post.positive[i] == pre.positive[i] by {
            assert(pre.positive[i].trained_to(
                post.positive[i],
                feedback_kind(true, target),
                pre.s,
                p,
                literals,
                votes(pre.positive, literals)[i],
            ));
        }
        assert forall|i: int| 0 <= i < pre.negative.len() implies post.negative[i] == pre.negative[i] by {
            assert(pre.negative[i].trained_to(
                post.negative[i],
                feedback_kind(false, target),
                pre.s,
                p,
                literals,
                votes(pre.negative, literals)[i],
            ));
        }
        assert(post.positive =~= pre.positive);
        assert(post.negative =~= pre.negative);
    }
    if pre.threshold.denom * margin <= -pre.threshold.numer {
        assert forall|i: int| 0 <= i < pre.positive.len() implies pre.positive[i].updated_to(
            #[trigger] post.positive[i],
            feedback_kind(true, target),
            pre.s,
            literals,
            pre.positive[i].applies(literals),
        ) by {
            assert(pre.positive[i].trained_to(
                post.positive[i],
                feedback_kind(true, target),
                pre.s,
                p,
                literals,
                votes(pre.positive, literals)[i],
            ));
        }
        assert forall|i: int| 0 <= i < pre.negative.len() implies pre.negative[i].updated_to(
            #[trigger] post.negative[i],
            feedback_kind(false, target),
            pre.s,
            literals,
            pre.negative[i].applies(literals),
        ) by {
            assert(pre.negative[i].trained_to(
                post.negative[i],
                feedback_kind(false, target),
                pre.s,
                p,
                literals,
                votes(pre.negative, literals)[i],
            ));
        }
    }
}

/// Fitting keeps the invariant of a machine, the size of its banks and the
/// parameters of its clauses.
pub proof fn lemma_fitted_machine_is_wf(pre: MachineView, post: MachineView, input: Seq<bool>, target: bool)
    requires
        pre.wf(),
        pre.fitted_to(post, input, target),
    ensures
        post.wf(),
        post.positive.len() == pre.positive.len(),
        post.negative.len() == pre.negative.len(),
        forall|i: int| 0 <= i < pre.positive.len() ==> same_shape(pre.positive[i], #[trigger] post.positive[i]),
        forall|i: int| 0 <= i < pre.negative.len() ==> same_shape(pre.negative[i], #[trigger] post.negative[i]),
{
    let literals = expand(input);
    let p = spec_feedback_probability(pre.threshold, pre.margin(literals));
    assert forall|i: int| 0 <= i < pre.positive.len() implies (#[trigger] post.positive[i]).wf() && same_shape(
        pre.positive[i],
        post.positive[i],
    ) by {
        assert(pre.positive[i].wf());
        lemma_trained_clause_is_wf(
            pre.positive[i],
            post.positive[i],
            feedback_kind(true, target),
            pre.s,
            p,
            literals,
            votes(pre.positive, literals)[i],
        );
    }
    assert forall|i: int| 0 <= i < pre.negative.len() implies (#[trigger] post.negative[i]).wf() && same_shape(
        pre.negative[i],
        post.negative[i],
    ) by {
        assert(pre.negative[i].wf());
        lemma_trained_clause_is_wf(
            pre.negative[i],
            post.negative[i],
            feedback_kind(false, target),
            pre.s,
            p,
            literals,
            votes(pre.negative, literals)[i],
        );
    }
}

/// The two clauses have the same parameters, and if the first holds two
/// automata for each feature, so does the second.
pub open spec fn same_shape(pre: ClauseView, post: ClauseView) -> bool {
    &&& post.feature_count == pre.feature_count
    &&& post.max_activation == pre.max_activation
    &&& pre.full() ==> post.full()
}

/// The prediction is read off the kept decisions of the clauses alone:
/// machines whose clauses keep the same decisions predict alike.
pub proof fn lemma_prediction_reads_decisions(a: MachineView, b: MachineView, input: Seq<bool>)
    requires
        a.positive.len() == b.positive.len(),
        a.negative.len() == b.negative.len(),
        forall|i: int|
            0 <= i < a.positive.len() ==> (#[trigger] a.positive[i]).cached_output == b.positive[i].cached_output,
        forall|i: int|
            0 <= i < a.negative.len() ==> (#[trigger] a.negative[i]).cached_output == b.negative[i].cached_output,
    ensures
        a.predicts(input) == b.predicts(input),
{
    let literals = expand(input);
    assert(votes(a.positive, literals) =~= votes(b.positive, literals));
    assert(votes(a.negative, literals) =~= votes(b.negative, literals));
}

/// A machine in which no clause votes for the class predicts `false`
/// whatever the input; in particular a machine without clauses does.
pub proof fn lemma_no_votes_for_predicts_false(machine: MachineView, input: Seq<bool>)
    requires
        forall|i: int|
            0 <= i < machine.positive.len() ==> !(#[trigger] machine.positive[i]).applies(expand(input)),
    ensures
        !machine.predicts(input),
{
    let literals = expand(input);
    lemma_vote_sum_bounds(votes(machine.negative, literals));
    lemma_vote_sum_of_zeros(votes(machine.positive, literals));
}

/// Every vote is zero or one.
pub open spec fn binary(votes: Seq<i32>) -> bool {
    forall|i: int| 0 <= i < votes.len() ==> votes[i] == 0 || votes[i] == 1
}

/// The sum of binary votes lies between zero and their number.
pub proof fn lemma_vote_sum_bounds(votes: Seq<i32>)
    requires
        binary(votes),
    ensures
        0 <= vote_sum(votes) <= votes.len(),
    decreases votes.len(),
{
    if votes.len() > 0 {
        lemma_vote_sum_bounds(votes.drop_last());
    }
}

/// Votes that are all zero sum to zero.
pub proof fn lemma_vote_sum_of_zeros(votes: Seq<i32>)
    requires
        forall|i: int| 0 <= i < votes.len() ==> votes[i] == 0,
    ensures
        vote_sum(votes) == 0,
    decreases votes.len(),
{
    if votes.len() > 0 {
        lemma_vote_sum_of_zeros(votes.drop_last());
    }
}

/// Sums the votes of a bank.
pub fn sum_votes(votes: &Vec<i32>) -> (sum: i128)
    ensures
        sum == vote_sum(votes@),
{
    let mut sum: i128 = 0;
    let mut i: usize = 0;
    while i < votes.len()
        invariant
            i <= votes.len(),
            sum == vote_sum(votes@.take(i as int)),
            -0x8000_0000 * i <= sum <= 0x8000_0000 * i,
        decreases votes.len() - i,
    {
        assert(votes@.take(i + 1).drop_last() =~= votes@.take(i as int));
        sum = sum + votes[i] as i128;
        i += 1;
    }
    assert(votes@.take(i as int) =~= votes@);
    sum
}

/// The probability with which each clause is trained, from the threshold and
/// the vote margin of the example.
pub fn feedback_probability(threshold: Ratio, margin: i128) -> (p: Ratio)
    requires
        threshold.is_positive(),
        threshold.numer <= u64::MAX / 2,
    ensures
        p == spec_feedback_probability(threshold, margin as int),
        p.numer == feedback_numer(threshold, margin as int),
        p.denom == feedback_denom(threshold),
        p.is_probability(),
{
    let bound = threshold.numer as i128;
    let scale = threshold.denom as i128;
    let held: i128 = if margin >= bound {
        assert(scale * margin >= bound) by (nonlinear_arith)
            requires
                scale >= 1,
                margin >= bound,
                bound >= 0,
        ;
        bound
    } else if margin <= -bound {
        assert(scale * margin <= -bound) by (nonlinear_arith)
            requires
                scale >= 1,
                margin <= -bound,
                bound >= 0,
        ;
        -bound
    } else {
        assert(-0x8000_0000_0000_0000_0000_0000_0000_0000 < scale * margin
            < 0x8000_0000_0000_0000_0000_0000_0000_0000) by (nonlinear_arith)
            requires
                1 <= scale <= 0xffff_ffff_ffff_ffff,
                -0x7fff_ffff_ffff_ffff <= margin <= 0x7fff_ffff_ffff_ffff,
        ;
        let scaled = scale * margin;
        if scaled < -bound {
            -bound
        } else if scaled > bound {
            bound
        } else {
            scaled
        }
    };
    Ratio { numer: (bound - held) as u64, denom: (2 * bound) as u64 }
}

impl TsetlinMachine {
    /// A machine of `num_clauses + 1` new clauses over `feature_count`
    /// features: the first `num_clauses / 2` vote for the class, the others
    /// against it.
    pub fn new(num_clauses: usize, max_activation: i32, s: Ratio, threshold: Ratio, feature_count: usize) -> (machine:
        TsetlinMachine)
        requires
            num_clauses < usize::MAX,
            1 <= max_activation <= i32::MAX / 2,
            s.is_positive(),
            threshold.is_positive(),
            threshold.numer <= u64::MAX / 2,
            1 <= feature_count <= usize::MAX / 2,
        ensures
            machine@.wf(),
            machine@.s == s,
            machine@.threshold == threshold,
            machine@.positive.len() == num_clauses / 2,
            machine@.positive.len() + machine@.negative.len() == num_clauses + 1,
            forall|i: int|
                0 <= i < machine@.positive.len() ==> (#[trigger] machine@.positive[i]).newly_built(
                    feature_count as nat,
                    max_activation as int,
                ),
            forall|i: int|
                0 <= i < machine@.negative.len() ==> (#[trigger] machine@.negative[i]).newly_built(
                    feature_count as nat,
                    max_activation as int,
                ),
    {
        let mut clauses: Vec<Clause> = Vec::new();
        let mut i: usize = 0;
        while i <= num_clauses
            invariant
                num_clauses < usize::MAX,
                1 <= max_activation <= i32::MAX / 2,
                1 <= feature_count <= usize::MAX / 2,
                i <= num_clauses + 1,
                clauses.len() == i,
                forall|j: int|
                    0 <= j < i ==> (#[trigger] clauses[j])@.newly_built(feature_count as nat, max_activation as int),
            decreases num_clauses + 1 - i,
        {
            clauses.push(Clause::new(feature_count, max_activation));
            i += 1;
        }
        let negative_clauses = clauses.split_off(num_clauses / 2);
        TsetlinMachine { s, threshold, positive_clauses: clauses, negative_clauses }
    }

    /// A machine of the given clauses, or `None` where the parts do not
    /// satisfy the invariant of a machine.
    pub fn from_clauses(s: Ratio, threshold: Ratio, positive_clauses: Vec<Clause>, negative_clauses: Vec<Clause>) -> (made:
        Option<TsetlinMachine>)
        ensures
            made.is_some() <==> MachineView::assembled(
                s,
                threshold,
                bank_view(positive_clauses@),
                bank_view(negative_clauses@),
            ).wf(),
            made matches Some(machine) ==> machine@ == MachineView::assembled(
                s,
                threshold,
                bank_view(positive_clauses@),
                bank_view(negative_clauses@),
            ),
    {
        if s.numer == 0 || s.denom == 0 || threshold.numer == 0 || threshold.denom == 0 || threshold.numer
            > u64::MAX / 2 {
            return None;
        }
        if !bank_is_valid(&positive_clauses) || !bank_is_valid(&negative_clauses) {
            return None;
        }
        Some(TsetlinMachine { s, threshold, positive_clauses, negative_clauses })
    }

    /// The specificity.
    pub fn s(&self) -> (s: Ratio)
        ensures
            s == self@.s,
    {
        self.s
    }

    /// The threshold.
    pub fn threshold(&self) -> (threshold: Ratio)
        ensures
            threshold == self@.threshold,
    {
        self.threshold
    }

    /// The clauses that vote for the class.
    pub fn positive_clauses(&self) -> (bank: &Vec<Clause>)
        ensures
            bank_view(bank@) == self@.positive,
    {
        &self.positive_clauses
    }

    /// The clauses that vote against the class.
    pub fn negative_clauses(&self) -> (bank: &Vec<Clause>)
        ensures
            bank_view(bank@) == self@.negative,
    {
        &self.negative_clauses
    }

    /// The literals of `input` and the votes of both banks on them.
    pub fn compute_clauses(&self, input: &Vec<bool>) -> (computed: (Vec<i32>, Vec<i32>, Vec<bool>))
        requires
            input.len() <= usize::MAX / 2,
        ensures
            computed.2@ == expand(input@),
            computed.0@ == votes(self@.positive, expand(input@)),
            computed.1@ == votes(self@.negative, expand(input@)),
    {
        let input = par_expand(input);
        let positive = par_votes(&self.positive_clauses, &input);
        let negative = par_votes(&self.negative_clauses, &input);
        (positive, negative, input)
    }

    /// The prediction for `input`: `true` when more clauses vote for the
    /// class than against it. The machine is only read.
    pub fn predict(&self, input: &Vec<bool>) -> (class: bool)
        requires
            input.len() <= usize::MAX / 2,
        ensures
            class == self@.predicts(input@),
    {
        let (positive, negative, _) = self.compute_clauses(input);
        sum_votes(&positive) > sum_votes(&negative)
    }

    /// Trains the clauses of one bank on their votes `results`, each with
    /// probability `threshold`.
    pub fn feedback_clauses(
        &mut self,
        positive_clauses: bool,
        results: Vec<i32>,
        threshold: Ratio,
        input: &Vec<bool>,
        feedback_type: FeedbackType,
    )
        requires
            old(self)@.wf(),
            threshold.wf(),
        ensures
            final(self)@.wf(),
            final(self)@.s == old(self)@.s,
            final(self)@.threshold == old(self)@.threshold,
            positive_clauses ==> final(self)@.negative == old(self)@.negative && bank_trained(
                old(self)@.positive,
                final(self)@.positive,
                feedback_type,
                old(self)@.s,
                threshold,
                input@,
                results@,
            ),
            !positive_clauses ==> final(self)@.positive == old(self)@.positive && bank_trained(
                old(self)@.negative,
                final(self)@.negative,
                feedback_type,
                old(self)@.s,
                threshold,
                input@,
                results@,
            ),
    {
        if positive_clauses {
            par_train(&mut self.positive_clauses, &results, feedback_type, self.s, threshold, input);
        } else {
            par_train(&mut self.negative_clauses, &results, feedback_type, self.s, threshold, input);
        }
        proof {
            if positive_clauses {
                lemma_trained_bank_is_wf(
                    old(self)@.positive,
                    self@.positive,
                    feedback_type,
                    self.s,
                    threshold,
                    input@,
                    results@,
                );
            } else {
                lemma_trained_bank_is_wf(
                    old(self)@.negative,
                    self@.negative,
                    feedback_type,
                    self.s,
                    threshold,
                    input@,
                    results@,
                );
            }
        }
    }

    /// Removes from both banks the clauses none of whose automata decides for
    /// its literal. A machine that satisfies its invariant has none.
    pub fn trim(&mut self)
        ensures
            final(self)@.s == old(self)@.s,
            final(self)@.threshold == old(self)@.threshold,
            final(self)@.positive == live_clauses(old(self)@.positive),
            final(self)@.negative == live_clauses(old(self)@.negative),
            old(self)@.wf() ==> final(self)@ == old(self)@,
    {
        proof {
            if self@.wf() {
                lemma_wf_bank_is_live(self@.positive);
                lemma_wf_bank_is_live(self@.negative);
            }
        }
        trim_bank(&mut self.positive_clauses);
        trim_bank(&mut self.negative_clauses);
    }

    /// Fits the machine to one example.
    ///
    /// The further the vote margin already lies on the side of `target`, the
    /// less likely each clause is trained. Clauses of the polarity of
    /// `target` get Type I feedback, the others Type II.
    pub fn fit(&mut self, input: Vec<bool>, target: bool)
        requires
            old(self)@.wf(),
            input.len() <= usize::MAX / 2,
        ensures
            old(self)@.fitted_to(final(self)@, input@, target),
            final(self)@.wf(),
    {
        let (positive, negative, input) = self.compute_clauses(&input);
        proof {
            lemma_vote_sum_bounds(positive@);
            lemma_vote_sum_bounds(negative@);
        }
        let v = sum_votes(&positive) - sum_votes(&negative);
        let threshold = feedback_probability(self.threshold, v);
        if target {
            self.feedback_clauses(true, positive, threshold, &input, FeedbackType::TypeI);
            self.feedback_clauses(false, negative, threshold, &input, FeedbackType::TypeII);
        } else {
            self.feedback_clauses(true, positive, threshold, &input, FeedbackType::TypeII);
            self.feedback_clauses(false, negative, threshold, &input, FeedbackType::TypeI);
        }
    }
}

} // verus!
