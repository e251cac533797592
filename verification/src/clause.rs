//! The clause: a conjunction over the literals that its automata decide to
//! take part in it.

use vstd::prelude::*;

use crate::automaton::Automaton;
use crate::feedback::{
    family_wf, feedback_outcome, give_type_i_feedback, give_type_ii_feedback,
    lemma_feedback_keeps_family, FeedbackType,
};
use crate::random::chance;
use crate::ratio::Ratio;

verus! {

/// How often a dead clause draws a new population before one automaton of the
/// last draw is put on the boundary state by hand.
pub const RESET_ATTEMPTS: usize = 64;

/// A clause over `2 * feature_count` literals: each feature and its negation.
///
/// The decisions of its automata are kept beside them and renewed after each
/// feedback. A clause none of whose automata decides for its literal is dead:
/// it would be true of every input. Such a clause is replaced by a new
/// population before it is used again.
#[derive(Clone, Debug, PartialEq, Eq)]
pub struct Clause {
    max_activation: i32,
    feature_count: usize,
    features: Vec<Automaton>,
    state: Vec<bool>,
}

/// The mathematical model of a clause.
pub struct ClauseView {
    pub max_activation: int,
    pub feature_count: nat,
    pub automata: Seq<Automaton>,
    pub cached_output: Seq<bool>,
}

/// The decisions of a family of automata.
pub open spec fn outputs(automata: Seq<Automaton>) -> Seq<bool> {
    Seq::new(automata.len(), |i: int| automata[i].spec_output())
}

/// At least one of the decisions is `true`.
pub open spec fn alive(decisions: Seq<bool>) -> bool {
    exists|i: int| 0 <= i < decisions.len() && decisions[i]
}

/// A population as a reset draws it: two automata for each feature, each on
/// one of the two states next to the boundary.
pub open spec fn fresh_population(population: Seq<Automaton>, feature_count: nat, max_activation: int) -> bool {
    &&& population.len() == 2 * feature_count
    &&& forall|i: int| 0 <= i < population.len() ==> (#[trigger] population[i]).is_fresh(max_activation)
}

impl ClauseView {
    /// The parameters are within the limits of the machine and the automata
    /// are well formed and share `max_activation`.
    pub open spec fn configured(&self) -> bool {
        &&& 1 <= self.max_activation <= i32::MAX / 2
        &&& 1 <= self.feature_count <= usize::MAX / 2
        &&& forall|i: int|
            0 <= i < self.automata.len() ==> {
                &&& (#[trigger] self.automata[i]).wf()
                &&& self.automata[i].max_activation == self.max_activation
            }
    }

    /// The invariant of a clause: it is configured, the kept decisions are
    /// those of its automata, and it is not dead.
    pub open spec fn wf(&self) -> bool {
        &&& self.configured()
        &&& self.cached_output == outputs(self.automata)
        &&& alive(self.cached_output)
    }

    /// The clause holds two automata for each feature.
    pub open spec fn full(&self) -> bool {
        self.automata.len() == 2 * self.feature_count
    }

    /// A clause as `Clause::new` makes it: its invariant holds and its
    /// automata are a fresh population for its parameters.
    pub open spec fn newly_built(&self, feature_count: nat, max_activation: int) -> bool {
        &&& self.wf()
        &&& self.feature_count == feature_count
        &&& self.max_activation == max_activation
        &&& fresh_population(self.automata, feature_count, max_activation)
    }

    /// The value of the clause on `literals`: no literal that takes part in it
    /// is false. Positions that only one of the two sequences has are left
    /// out.
    pub open spec fn applies(&self, literals: Seq<bool>) -> bool {
        forall|i: int|
            0 <= i < literals.len() && 0 <= i < self.cached_output.len() ==> literals[i] || !(
            #[trigger] self.cached_output[i])
    }

    /// The vote of the clause on `literals`: one if it is true, else zero.
    pub open spec fn vote(&self, literals: Seq<bool>) -> i32 {
        if self.applies(literals) {
            1
        } else {
            0
        }
    }

    /// The clause that `Clause::from_automata` starts from: the given parts
    /// and no decisions yet.
    pub open spec fn assembled(feature_count: nat, max_activation: int, automata: Seq<Automaton>) -> ClauseView {
        ClauseView { max_activation, feature_count, automata, cached_output: Seq::empty() }
    }

    /// This clause with another family of automata.
    pub open spec fn with_automata(&self, automata: Seq<Automaton>) -> ClauseView {
        ClauseView {
            max_activation: self.max_activation,
            feature_count: self.feature_count,
            automata,
            cached_output: self.cached_output,
        }
    }

    /// `post` is a possible result of renewing the decisions of this clause:
    /// the automata stay if one of them decides for its literal, else they
    /// are a fresh population; either way `post` is not dead.
    pub open spec fn refreshed_to(&self, post: ClauseView) -> bool {
        &&& post.max_activation == self.max_activation
        &&& post.feature_count == self.feature_count
        &&& post.cached_output == outputs(post.automata)
        &&& alive(post.cached_output)
        &&& if alive(outputs(self.automata)) {
            post.automata == self.automata
        } else {
            fresh_population(post.automata, self.feature_count, self.max_activation)
        }
    }

    /// `post` is a possible result of one round of feedback of the given
    /// kind: the automata took their steps and the decisions were renewed.
    pub open spec fn updated_to(
        &self,
        post: ClauseView,
        kind: FeedbackType,
        s: Ratio,
        literals: Seq<bool>,
        fired: bool,
    ) -> bool {
        exists|mid: Seq<Automaton>|
            feedback_outcome(kind, self.automata, mid, s, literals, fired)
                && #[trigger] self.with_automata(mid).refreshed_to(post)
    }

    /// `post` is a possible result of training this clause with probability
    /// `p` on an example whose literals are `literals` and on which its vote
    /// was `outcome`: it is unchanged, unless `p` is one, or it had one round
    /// of feedback, unless `p` is zero.
    pub open spec fn trained_to(
        &self,
        post: ClauseView,
        kind: FeedbackType,
        s: Ratio,
        p: Ratio,
        literals: Seq<bool>,
        outcome: i32,
    ) -> bool {
        ||| p.numer < p.denom && post == *self
        ||| p.numer > 0 && self.updated_to(post, kind, s, literals, outcome == 1)
    }
}

/// Renewing the decisions of a configured clause establishes its invariant;
/// in particular the clause is not dead afterwards. The parameters stay, and
/// so does a population of two automata for each feature.
pub proof fn lemma_refreshed_clause_is_wf(pre: ClauseView, post: ClauseView)
    requires
        pre.configured(),
        pre.refreshed_to(post),
    ensures
        post.wf(),
        alive(post.cached_output),
        post.feature_count == pre.feature_count,
        post.max_activation == pre.max_activation,
        pre.full() ==> post.full(),
{
    if !alive(outputs(pre.automata)) {
        assert forall|i: int| 0 <= i < post.automata.len() implies (#[trigger] post.automata[i]).wf()
            && post.automata[i].max_activation == post.max_activation by {
            assert(post.automata[i].is_fresh(pre.max_activation));
        }
    }
}

/// Training keeps the invariant of a clause, its parameters, and a population
/// of two automata for each feature.
pub proof fn lemma_trained_clause_is_wf(
    pre: ClauseView,
    post: ClauseView,
    kind: FeedbackType,
    s: Ratio,
    p: Ratio,
    literals: Seq<bool>,
    outcome: i32,
)
    requires
        pre.wf(),
        pre.trained_to(post, kind, s, p, literals, outcome),
    ensures
        post.wf(),
        post.feature_count == pre.feature_count,
        post.max_activation == pre.max_activation,
        pre.full() ==> post.full(),
{
    if post != pre {
        let mid = choose|mid: Seq<Automaton>|
            feedback_outcome(kind, pre.automata, mid, s, literals, outcome == 1) && #[trigger] pre.with_automata(
                mid,
            ).refreshed_to(post);
        lemma_feedback_keeps_family(kind, pre.automata, mid, s, literals, outcome == 1, pre.max_activation);
        lemma_refreshed_clause_is_wf(pre.with_automata(mid), post);
    }
}

/// A clause is false only where a literal that takes part in it is false: a
/// dead clause would be true of every input.
pub proof fn lemma_dead_clause_is_always_true(clause: ClauseView, literals: Seq<bool>)
    requires
        !alive(clause.cached_output),
    ensures
        clause.applies(literals),
{
}

impl View for Clause {
    type V = ClauseView;

    closed spec fn view(&self) -> ClauseView {
        ClauseView {
            max_activation: self.max_activation as int,
            feature_count: self.feature_count as nat,
            automata: self.features@,
            cached_output: self.state@,
        }
    }
}

/// The decisions of the automata, in their order.
fn decisions(features: &Vec<Automaton>) -> (state: Vec<bool>)
    ensures
        state@ == outputs(features@),
{
    let mut state: Vec<bool> = Vec::new();
    let mut i: usize = 0;
    while i < features.len()
        invariant
            i <= features.len(),
            state.len() == i,
            forall|j: int| 0 <= j < i ==> state[j] == features[j].spec_output(),
        decreases features.len() - i,
    {
        state.push(features[i].output());
        i += 1;
    }
    assert(state@ =~= outputs(features@));
    state
}

/// Whether one of the decisions is `true`.
fn any_true(state: &Vec<bool>) -> (found: bool)
    ensures
        found == alive(state@),
{
    let mut i: usize = 0;
    while i < state.len()
        invariant
            i <= state.len(),
            forall|j: int| 0 <= j < i ==> !state[j],
        decreases state.len() - i,
    {
        if state[i] {
            return true;
        }
        i += 1;
    }
    false
}

/// Draws two automata for each feature.
fn draw_population(feature_count: usize, max_activation: i32) -> (population: Vec<Automaton>)
    requires
        feature_count <= usize::MAX / 2,
        1 <= max_activation <= i32::MAX / 2,
    ensures
        fresh_population(population@, feature_count as nat, max_activation as int),
        family_wf(population@),
{
    let n = 2 * feature_count;
    let mut population: Vec<Automaton> = Vec::new();
    let mut i: usize = 0;
    while i < n
        invariant
            1 <= max_activation <= i32::MAX / 2,
            i <= n,
            population.len() == i,
            forall|j: int| 0 <= j < i ==> (#[trigger] population[j]).is_fresh(max_activation as int),
            family_wf(population@),
        decreases n - i,
    {
        population.push(Automaton::new(max_activation));
        i += 1;
    }
    population
}

/// Draws populations until one is not dead. After `RESET_ATTEMPTS` dead draws
/// in a row the first automaton of the last one is put on the upper boundary
/// state, which is one of the two states it could have drawn.
fn draw_live_population(feature_count: usize, max_activation: i32) -> (population: Vec<Automaton>)
    requires
        1 <= feature_count <= usize::MAX / 2,
        1 <= max_activation <= i32::MAX / 2,
    ensures
        fresh_population(population@, feature_count as nat, max_activation as int),
        family_wf(population@),
        alive(outputs(population@)),
{
    let mut population = draw_population(feature_count, max_activation);
    let mut state = decisions(&population);
    let mut attempts: usize = 1;
    while attempts < RESET_ATTEMPTS && !any_true(&state)
        invariant
            1 <= feature_count <= usize::MAX / 2,
            1 <= max_activation <= i32::MAX / 2,
            attempts <= RESET_ATTEMPTS,
            fresh_population(population@, feature_count as nat, max_activation as int),
            family_wf(population@),
            state@ == outputs(population@),
        decreases RESET_ATTEMPTS - attempts,
    {
        population = draw_population(feature_count, max_activation);
        state = decisions(&population);
        attempts += 1;
    }
    if !any_true(&state) {
        population.set(0, Automaton::at_boundary(max_activation, 1));
        assert(outputs(population@)[0]);
    }
    population
}

impl Clause {
    /// A new clause over `feature_count` features, with a population that is
    /// not dead.
    pub fn new(feature_count: usize, max_activation: i32) -> (clause: Clause)
        requires
            1 <= feature_count <= usize::MAX / 2,
            1 <= max_activation <= i32::MAX / 2,
        ensures
            clause@.newly_built(feature_count as nat, max_activation as int),
    {
        let mut c = Clause { max_activation, feature_count, features: Vec::new(), state: Vec::new() };
        assert(!alive(outputs(c@.automata)));
        c.output();
        c
    }

    /// A clause with the given automata, its decisions renewed as `output`
    /// does it, or `None` where the parts do not make a configured clause.
    pub fn from_automata(feature_count: usize, max_activation: i32, features: Vec<Automaton>) -> (made: Option<
        Clause,
    >)
        ensures
            made.is_some() <==> ClauseView::assembled(
                feature_count as nat,
                max_activation as int,
                features@,
            ).configured(),
            made matches Some(clause) ==> {
                &&& clause@.wf()
                &&& ClauseView::assembled(feature_count as nat, max_activation as int, features@).refreshed_to(
                    clause@,
                )
            },
    {
        let ghost start = ClauseView::assembled(feature_count as nat, max_activation as int, features@);
        if feature_count < 1 || feature_count > usize::MAX / 2 || max_activation < 1 || max_activation > i32::MAX
            / 2 {
            return None;
        }
        let mut i: usize = 0;
        while i < features.len()
            invariant
                i <= features.len(),
                start == ClauseView::assembled(feature_count as nat, max_activation as int, features@),
                forall|j: int|
                    0 <= j < i ==> (#[trigger] features[j]).wf() && features[j].max_activation == max_activation,
            decreases features.len() - i,
        {
            if !features[i].is_valid() || features[i].max_activation != max_activation {
                assert(start.automata[i as int] == features[i as int]);
                return None;
            }
            i += 1;
        }
        let mut c = Clause { max_activation, feature_count, features, state: Vec::new() };
        assert(c@ == start);
        c.output();
        Some(c)
    }

    /// Whether the invariant of the clause holds.
    pub fn is_valid(&self) -> (valid: bool)
        ensures
            valid == self@.wf(),
    {
        if self.feature_count < 1 || self.feature_count > usize::MAX / 2 || self.max_activation < 1
            || self.max_activation > i32::MAX / 2 {
            return false;
        }
        if self.state.len() != self.features.len() {
            assert(self@.cached_output.len() != outputs(self@.automata).len());
            return false;
        }
        let mut i: usize = 0;
        while i < self.features.len()
            invariant
                i <= self.features.len(),
                self.state.len() == self.features.len(),
                forall|j: int|
                    0 <= j < i ==> {
                        &&& (#[trigger] self.features[j]).wf()
                        &&& self.features[j].max_activation == self.max_activation
                        &&& self.state[j] == self.features[j].spec_output()
                    },
            decreases self.features.len() - i,
        {
            if !self.features[i].is_valid() || self.features[i].max_activation != self.max_activation {
                assert(self@.automata[i as int] == self.features[i as int]);
                return false;
            }
            if self.state[i] != self.features[i].output() {
                assert(self@.cached_output[i as int] != outputs(self@.automata)[i as int]);
                return false;
            }
            i += 1;
        }
        assert(self@.cached_output =~= outputs(self@.automata));
        any_true(&self.state)
    }

    /// The number of features.
    pub fn feature_count(&self) -> (n: usize)
        ensures
            n == self@.feature_count,
    {
        self.feature_count
    }

    /// The number of states on either side of the boundary of each automaton.
    pub fn max_activation(&self) -> (n: i32)
        ensures
            n == self@.max_activation,
    {
        self.max_activation
    }

    /// The automata.
    pub fn automata(&self) -> (automata: &Vec<Automaton>)
        ensures
            automata@ == self@.automata,
    {
        &self.features
    }

    /// The kept decisions of the automata.
    pub fn cached_output(&self) -> (decisions: &Vec<bool>)
        ensures
            decisions@ == self@.cached_output,
    {
        &self.state
    }

    /// Renews the kept decisions from the automata. A clause that turns out
    /// dead gets a fresh population in place of its automata.
    pub fn output(&mut self)
        requires
            old(self)@.configured(),
        ensures
            old(self)@.refreshed_to(final(self)@),
            final(self)@.wf(),
    {
        self.state = decisions(&self.features);
        if !any_true(&self.state) {
            self.features = draw_live_population(self.feature_count, self.max_activation);
            self.state = decisions(&self.features);
        }
    }

    /// Whether one of the automata decides for its literal.
    pub fn has_live_automaton(&self) -> (live: bool)
        ensures
            live == alive(outputs(self@.automata)),
    {
        let state = decisions(&self.features);
        any_true(&state)
    }

    /// The value of the clause on `input`, the literals of an example.
    pub fn apply(&self, input: &Vec<bool>) -> (value: bool)
        ensures
            value == self@.applies(input@),
    {
        let n = if input.len() < self.state.len() { input.len() } else { self.state.len() };
        let mut i: usize = 0;
        while i < n
            invariant
                n <= input.len(),
                n <= self.state.len(),
                i <= n,
                forall|j: int| 0 <= j < i ==> input[j] || !self.state[j],
            decreases n - i,
        {
            if !input[i] && self.state[i] {
                assert(self@.cached_output[i as int]);
                return false;
            }
            i += 1;
        }
        true
    }

    /// The vote of the clause on `input`: one if it is true, else zero.
    pub fn vote(&self, input: &Vec<bool>) -> (vote: i32)
        ensures
            vote == self@.vote(input@),
    {
        if self.apply(input) {
            1
        } else {
            0
        }
    }

    /// Trains the clause on one example, once it is decided whether it is
    /// trained: on a `hit` its automata get feedback of the given kind and its
    /// decisions are renewed, else nothing changes.
    ///
    /// `literals` are the literals of the example and `outcome` is the vote
    /// the clause gave on them.
    pub fn train_on(&mut self, hit: bool, kind: FeedbackType, s: Ratio, literals: &Vec<bool>, outcome: i32)
        requires
            old(self)@.wf(),
            s.is_positive(),
        ensures
            !hit ==> final(self)@ == old(self)@,
            hit ==> old(self)@.updated_to(final(self)@, kind, s, literals@, outcome == 1),
            final(self)@.wf(),
    {
        let fired = outcome == 1;
        if hit {
            match kind {
                FeedbackType::TypeI => give_type_i_feedback(s, literals, fired, &mut self.features),
                FeedbackType::TypeII => give_type_ii_feedback(literals, fired, &mut self.features),
            }
            assert(old(self)@.with_automata(self.features@).configured());
            self.output();
        }
    }

    /// Trains the clause on one example: with probability `p` it is a hit
    /// for `train_on`.
    pub fn train(&mut self, kind: FeedbackType, s: Ratio, p: Ratio, literals: &Vec<bool>, outcome: i32)
        requires
            old(self)@.wf(),
            s.is_positive(),
            p.wf(),
        ensures
            old(self)@.trained_to(final(self)@, kind, s, p, literals@, outcome),
            final(self)@.wf(),
    {
        let hit = chance(p);
        self.train_on(hit, kind, s, literals, outcome);
    }
}

} // verus!
