//! A bank: the clauses of one polarity, evaluated and trained side by side.

use rayon::iter::{
    IndexedParallelIterator, IntoParallelRefIterator, IntoParallelRefMutIterator, ParallelIterator,
};
use vstd::prelude::*;

use crate::clause::{alive, lemma_trained_clause_is_wf, outputs, Clause, ClauseView};
use crate::feedback::FeedbackType;
use crate::ratio::Ratio;

verus! {

/// The models of the clauses of a bank.
pub open spec fn bank_view(bank: Seq<Clause>) -> Seq<ClauseView> {
    Seq::new(bank.len(), |i: int| bank[i]@)
}

/// Every clause of the bank satisfies its invariant.
pub open spec fn bank_wf(bank: Seq<ClauseView>) -> bool {
    forall|i: int| 0 <= i < bank.len() ==> (#[trigger] bank[i]).wf()
}

/// The votes of the clauses of a bank on `literals`, in their order.
pub open spec fn votes(bank: Seq<ClauseView>, literals: Seq<bool>) -> Seq<i32> {
    Seq::new(bank.len(), |i: int| bank[i].vote(literals))
}

/// `post` is a possible result of training the bank `pre`: each clause that
/// has an outcome was trained on it, the others are as they were.
pub open spec fn bank_trained(
    pre: Seq<ClauseView>,
    post: Seq<ClauseView>,
    kind: FeedbackType,
    s: Ratio,
    p: Ratio,
    literals: Seq<bool>,
    outcomes: Seq<i32>,
) -> bool {
    &&& post.len() == pre.len()
    &&& forall|i: int|
        0 <= i < pre.len() ==> if i < outcomes.len() {
            pre[i].trained_to(#[trigger] post[i], kind, s, p, literals, outcomes[i])
        } else {
            post[i] == pre[i]
        }
}

/// Whether the invariant of every clause of the bank holds.
pub fn bank_is_valid(bank: &Vec<Clause>) -> (valid: bool)
    ensures
        valid == bank_wf(bank_view(bank@)),
{
    let mut i: usize = 0;
    while i < bank.len()
        invariant
            i <= bank.len(),
            forall|j: int| 0 <= j < i ==> (#[trigger] bank_view(bank@)[j]).wf(),
        decreases bank.len() - i,
    {
        if !bank[i].is_valid() {
            assert(!bank_view(bank@)[i as int].wf());
            return false;
        }
        i += 1;
    }
    true
}

/// The clauses of a bank in which one automaton decides for its literal, in
/// their order.
pub open spec fn live_clauses(bank: Seq<ClauseView>) -> Seq<ClauseView> {
    bank.filter(|clause: ClauseView| alive(outputs(clause.automata)))
}

/// Removes the clauses none of whose automata decides for its literal.
pub fn trim_bank(bank: &mut Vec<Clause>)
    ensures
        bank_view(final(bank)@) == live_clauses(bank_view(old(bank)@)),
{
    let ghost start = bank_view(bank@);
    let ghost live = |clause: ClauseView| alive(outputs(clause.automata));
    let ghost mut done: int = 0;
    let mut i: usize = 0;
    proof {
        reveal(Seq::filter);
        assert(start.take(0).filter(live) =~= Seq::<ClauseView>::empty());
        assert(bank_view(bank@).take(0) =~= Seq::<ClauseView>::empty());
        assert(bank_view(bank@).skip(0) =~= start.skip(0));
    }
    while i < bank.len()
        invariant
            0 <= done <= start.len(),
            i <= bank.len(),
            bank.len() - i == start.len() - done,
            live == |clause: ClauseView| alive(outputs(clause.automata)),
            bank_view(bank@).take(i as int) == start.take(done).filter(live),
            bank_view(bank@).skip(i as int) == start.skip(done),
        decreases bank.len() - i,
    {
        let ghost before = bank_view(bank@);
        let keep = bank[i].has_live_automaton();
        proof {
            assert(before[i as int] == before.skip(i as int)[0]);
            assert(start[done] == start.skip(done)[0]);
            assert(start.take(done + 1) =~= start.take(done).push(start[done]));
            start.take(done).lemma_filter_push(start[done], live);
        }
        if keep {
            proof {
                assert(before.take(i + 1) =~= before.take(i as int).push(before[i as int]));
                assert(before.skip(i + 1) =~= before.skip(i as int).skip(1));
                assert(start.skip(done + 1) =~= start.skip(done).skip(1));
            }
            i += 1;
        } else {
            bank.remove(i);
            proof {
                let after = bank_view(bank@);
                assert(after =~= before.remove(i as int));
                assert(after.take(i as int) =~= before.take(i as int));
                assert(after.skip(i as int) =~= before.skip(i as int).skip(1));
                assert(start.skip(done + 1) =~= start.skip(done).skip(1));
            }
        }
        proof {
            done = done + 1;
        }
    }
    proof {
        assert(bank_view(bank@).take(i as int) =~= bank_view(bank@));
        assert(start.take(done) =~= start);
    }
}

/// Training keeps the invariant of every clause of a bank.
pub proof fn lemma_trained_bank_is_wf(
    pre: Seq<ClauseView>,
    post: Seq<ClauseView>,
    kind: FeedbackType,
    s: Ratio,
    p: Ratio,
    literals: Seq<bool>,
    outcomes: Seq<i32>,
)
    requires
        bank_wf(pre),
        bank_trained(pre, post, kind, s, p, literals, outcomes),
    ensures
        bank_wf(post),
{
    assert forall|i: int| 0 <= i < post.len() implies (#[trigger] post[i]).wf() by {
        assert(pre[i].wf());
        if i < outcomes.len() {
            lemma_trained_clause_is_wf(pre[i], post[i], kind, s, p, literals, outcomes[i]);
        }
    }
}

/// A bank of clauses that satisfy their invariant has nothing to remove.
pub proof fn lemma_wf_bank_is_live(bank: Seq<ClauseView>)
    requires
        bank_wf(bank),
    ensures
        live_clauses(bank) == bank,
    decreases bank.len(),
{
    let live = |clause: ClauseView| alive(outputs(clause.automata));
    reveal(Seq::filter);
    if bank.len() > 0 {
        assert(bank_wf(bank.drop_last())) by {
            assert forall|i: int| 0 <= i < bank.drop_last().len() implies (#[trigger] bank.drop_last()[i]).wf() by {
                assert(bank[i].wf());
            }
        }
        lemma_wf_bank_is_live(bank.drop_last());
        assert(bank.last().wf());
        assert(bank.drop_last().push(bank.last()) =~= bank);
    }
}

/// Evaluates every clause of the bank on `literals`, with `rayon`: `par_iter`
/// over the clauses, `map` with `Clause::vote`, and `collect` into a vector.
///
/// Trusted: collecting the map of a slice's parallel iterator yields one
/// result for each item, in the order of the slice.
#[verifier::external_body]
pub(crate) fn par_votes(clauses: &Vec<Clause>, literals: &Vec<bool>) -> (out: Vec<i32>)
    ensures
        out@ == votes(bank_view(clauses@), literals@),
{
    clauses.par_iter().map(|clause| clause.vote(literals)).collect()
}

/// Trains every clause of the bank that has an outcome, with `rayon`:
/// `par_iter_mut` over the clauses, `zip` with the outcomes, and `for_each`
/// with `Clause::train`.
///
/// Trusted: `zip` pairs the items by their position and stops with the shorter
/// side, and `for_each` runs `Clause::train` once on each pair, so that each
/// paired clause ends as that function leaves it and the others are not
/// touched.
#[verifier::external_body]
pub(crate) fn par_train(
    clauses: &mut Vec<Clause>,
    outcomes: &Vec<i32>,
    kind: FeedbackType,
    s: Ratio,
    p: Ratio,
    literals: &Vec<bool>,
)
    requires
        bank_wf(bank_view(old(clauses)@)),
        s.is_positive(),
        p.wf(),
    ensures
        bank_trained(bank_view(old(clauses)@), bank_view(final(clauses)@), kind, s, p, literals@, outcomes@),
{
    clauses.par_iter_mut().zip(outcomes.par_iter()).for_each(
        |(clause, outcome)| clause.train(kind, s, p, literals, *outcome),
    );
}

} // verus!
