use rsetlin::automaton::Automaton;
use rsetlin::clause::Clause;
use rsetlin::feedback::FeedbackType;
use rsetlin::random::hits;
use rsetlin::ratio::Ratio;

fn automaton(state: i32) -> Automaton {
    Automaton {
        max_activation: 12,
        state,
    }
}

fn decisions(clause: &Clause) -> Vec<bool> {
    clause.automata().iter().map(|a| a.output()).collect()
}

fn is_fresh(clause: &Clause, feature_count: usize, max_activation: i32) -> bool {
    clause.automata().len() == 2 * feature_count
        && clause.automata().iter().all(|a| {
            a.max_activation == max_activation
                && (a.state == max_activation - 1 || a.state == max_activation)
        })
}

#[test]
fn new_clause_holds_two_automata_for_each_feature() {
    for _ in 0..200 {
        let c = Clause::new(3, 30);
        assert_eq!(c.feature_count(), 3);
        assert_eq!(c.max_activation(), 30);
        assert!(is_fresh(&c, 3, 30));
        assert_eq!(c.cached_output(), &decisions(&c));
        assert!(c.cached_output().iter().any(|x| *x));
        assert!(c.has_live_automaton());
    }
}

#[test]
fn new_clause_over_one_feature_is_never_dead() {
    // A quarter of the draws for one feature come out dead and are drawn again.
    for _ in 0..500 {
        let c = Clause::new(1, 5);
        assert_eq!(c.automata().len(), 2);
        assert!(c.cached_output().iter().any(|x| *x));
    }
}

#[test]
fn from_automata_keeps_a_live_family() {
    let family = vec![automaton(13), automaton(3), automaton(12), automaton(11)];
    let c = Clause::from_automata(2, 12, family.clone()).unwrap();
    assert_eq!(c.automata(), &family);
    assert_eq!(c.cached_output(), &vec![true, false, true, false]);
    assert_eq!(c.feature_count(), 2);
    assert_eq!(c.max_activation(), 12);
}

#[test]
fn from_automata_replaces_a_dead_family() {
    for _ in 0..100 {
        let c = Clause::from_automata(2, 12, vec![automaton(0), automaton(11), automaton(5)]).unwrap();
        assert!(is_fresh(&c, 2, 12));
        assert!(c.cached_output().iter().any(|x| *x));
        assert_eq!(c.cached_output(), &decisions(&c));
    }
    let c = Clause::from_automata(1, 12, vec![]).unwrap();
    assert!(is_fresh(&c, 1, 12));
    assert!(c.has_live_automaton());
}

#[test]
fn from_automata_refuses_what_is_not_a_clause() {
    assert!(Clause::from_automata(0, 12, vec![automaton(13)]).is_none());
    assert!(Clause::from_automata(usize::MAX / 2 + 1, 12, vec![automaton(13)]).is_none());
    assert!(Clause::from_automata(1, 0, vec![]).is_none());
    assert!(Clause::from_automata(1, i32::MAX / 2 + 1, vec![]).is_none());
    // an automaton of another max_activation
    assert!(Clause::from_automata(1, 10, vec![automaton(10)]).is_none());
    // an automaton outside its range
    assert!(Clause::from_automata(1, 12, vec![automaton(13), automaton(25)]).is_none());
    assert!(Clause::from_automata(1, 12, vec![automaton(-1)]).is_none());
    assert!(Clause::from_automata(usize::MAX / 2, i32::MAX / 2, vec![Automaton {
        max_activation: i32::MAX / 2,
        state: i32::MAX - 1
    }])
    .is_some());
}

#[test]
fn output_renews_the_decisions_and_keeps_a_live_clause() {
    let family = vec![automaton(13), automaton(3)];
    let mut c = Clause::from_automata(1, 12, family.clone()).unwrap();
    let before = c.clone();
    c.output();
    assert_eq!(c, before);
}

#[test]
fn apply_is_false_only_on_a_false_literal_that_takes_part() {
    let c = Clause::from_automata(2, 12, vec![automaton(13), automaton(3), automaton(12), automaton(11)])
        .unwrap();
    assert!(c.apply(&vec![true, false, true, false]));
    assert!(c.apply(&vec![true, true, true, true]));
    assert!(!c.apply(&vec![false, true, true, true]));
    assert!(!c.apply(&vec![true, true, false, true]));
    assert!(!c.apply(&vec![false, false, false, false]));
}

#[test]
fn apply_leaves_out_what_only_one_side_has() {
    let c = Clause::from_automata(2, 12, vec![automaton(13), automaton(3), automaton(12), automaton(11)])
        .unwrap();
    // the literal of the third automaton is missing
    assert!(c.apply(&vec![true, false]));
    assert!(c.apply(&vec![true]));
    assert!(c.apply(&vec![]));
    assert!(!c.apply(&vec![false]));
    // literals beyond the automata are not looked at
    assert!(c.apply(&vec![true, false, true, false, false, false]));
    assert!(!c.apply(&vec![true, false, false, false, true, true]));
}

#[test]
fn vote_is_one_or_zero() {
    let c = Clause::from_automata(1, 12, vec![automaton(13), automaton(3)]).unwrap();
    assert_eq!(c.vote(&vec![true, false]), 1);
    assert_eq!(c.vote(&vec![false, true]), 0);
}

#[test]
fn train_with_probability_zero_changes_nothing() {
    let mut c = Clause::from_automata(1, 12, vec![automaton(13), automaton(3)]).unwrap();
    let before = c.clone();
    for kind in [FeedbackType::TypeI, FeedbackType::TypeII] {
        for _ in 0..50 {
            c.train(kind, Ratio::whole(4), Ratio { numer: 0, denom: 60 }, &vec![false, true], 1);
            assert_eq!(c, before);
        }
    }
}

#[test]
fn train_with_probability_one_gives_type_ii_feedback() {
    let mut c = Clause::from_automata(2, 12, vec![automaton(13), automaton(11), automaton(12), automaton(3)])
        .unwrap();
    c.train(
        FeedbackType::TypeII,
        Ratio::whole(4),
        Ratio { numer: 60, denom: 60 },
        &vec![true, false, true, false],
        1,
    );
    assert_eq!(
        c.automata(),
        &vec![automaton(13), automaton(12), automaton(12), automaton(4)]
    );
    assert_eq!(c.cached_output(), &vec![true, true, true, false]);

    // a clause that gave no vote gets nothing from Type II feedback
    let before = c.clone();
    c.train(
        FeedbackType::TypeII,
        Ratio::whole(4),
        Ratio { numer: 60, denom: 60 },
        &vec![true, false, true, false],
        0,
    );
    assert_eq!(c, before);
}

#[test]
fn train_counts_only_the_vote_one_as_fired() {
    let mut c = Clause::from_automata(1, 12, vec![automaton(13), automaton(11)]).unwrap();
    let before = c.clone();
    c.train(FeedbackType::TypeII, Ratio::whole(4), Ratio::whole(1), &vec![true, false], 2);
    assert_eq!(c, before);
    c.train(FeedbackType::TypeII, Ratio::whole(4), Ratio::whole(1), &vec![true, false], 1);
    assert_eq!(c.automata(), &vec![automaton(13), automaton(12)]);
}

#[test]
fn train_with_type_i_feedback_on_the_rare_branch() {
    // s = 1 takes the rare branch every time.
    let mut c = Clause::from_automata(2, 12, vec![automaton(13), automaton(11), automaton(14), automaton(3)])
        .unwrap();
    c.train(
        FeedbackType::TypeI,
        Ratio::whole(1),
        Ratio::whole(1),
        &vec![true, false, false, true],
        1,
    );
    assert_eq!(
        c.automata(),
        &vec![automaton(13), automaton(10), automaton(15), automaton(3)]
    );
    assert_eq!(c.cached_output(), &vec![true, false, true, false]);
}

#[test]
fn a_clause_driven_dead_by_feedback_is_replaced() {
    for _ in 0..100 {
        let mut c = Clause::from_automata(2, 12, vec![automaton(12), automaton(3)]).unwrap();
        // The rare branch on a clause that did not fire penalizes the one
        // automaton that takes part: it crosses the boundary.
        c.train(FeedbackType::TypeI, Ratio::whole(1), Ratio::whole(1), &vec![false, true], 0);
        assert!(is_fresh(&c, 2, 12));
        assert!(c.cached_output().iter().any(|x| *x));
        assert_eq!(c.cached_output(), &decisions(&c));
        assert_eq!(c.feature_count(), 2);
        assert_eq!(c.max_activation(), 12);
    }
}

#[test]
fn decisions_follow_the_automata_after_any_training() {
    let mut c = Clause::new(3, 5);
    let literals = vec![true, false, false, true, true, false];
    for round in 0..2000 {
        let kind = if round % 3 == 0 {
            FeedbackType::TypeII
        } else {
            FeedbackType::TypeI
        };
        let outcome = c.vote(&literals);
        c.train(kind, Ratio::whole(4), Ratio { numer: 1, denom: 2 }, &literals, outcome);
        assert_eq!(c.cached_output(), &decisions(&c));
        assert!(c.cached_output().iter().any(|x| *x));
        assert_eq!(c.automata().len(), 6);
        assert!(c.automata().iter().all(|a| a.max_activation == 5 && 0 <= a.state && a.state <= 10));
    }
}

#[test]
fn train_on_a_miss_changes_nothing() {
    let mut c = Clause::from_automata(2, 12, vec![automaton(13), automaton(11), automaton(12), automaton(3)])
        .unwrap();
    let before = c.clone();
    for kind in [FeedbackType::TypeI, FeedbackType::TypeII] {
        for outcome in [0, 1] {
            c.train_on(false, kind, Ratio::whole(4), &vec![true, false, true, false], outcome);
            assert_eq!(c, before);
        }
    }
}

#[test]
fn train_on_a_hit_gives_one_round_of_feedback() {
    let mut c = Clause::from_automata(2, 12, vec![automaton(13), automaton(11), automaton(12), automaton(3)])
        .unwrap();
    c.train_on(true, FeedbackType::TypeII, Ratio::whole(4), &vec![true, false, true, false], 1);
    assert_eq!(
        c.automata(),
        &vec![automaton(13), automaton(12), automaton(12), automaton(4)]
    );
    assert_eq!(c.cached_output(), &vec![true, true, true, false]);

    // s = 1 takes the rare branch of Type I feedback every time.
    let mut c = Clause::from_automata(2, 12, vec![automaton(13), automaton(11), automaton(14), automaton(3)])
        .unwrap();
    c.train_on(true, FeedbackType::TypeI, Ratio::whole(1), &vec![true, false, false, true], 1);
    assert_eq!(
        c.automata(),
        &vec![automaton(13), automaton(10), automaton(15), automaton(3)]
    );
}

#[test]
fn train_on_the_outcome_of_a_draw() {
    // The draw 29 of 0..60 hits the probability 30 / 60, the draw 30 misses.
    let p = Ratio { numer: 30, denom: 60 };
    let start = Clause::from_automata(1, 12, vec![automaton(13), automaton(11)]).unwrap();
    let literals = vec![true, false];

    let mut c = start.clone();
    c.train_on(hits(p, 29), FeedbackType::TypeII, Ratio::whole(4), &literals, 1);
    assert_eq!(c.automata(), &vec![automaton(13), automaton(12)]);

    let mut c = start.clone();
    c.train_on(hits(p, 30), FeedbackType::TypeII, Ratio::whole(4), &literals, 1);
    assert_eq!(c, start);
}

#[test]
fn train_on_a_hit_replaces_a_clause_driven_dead() {
    for _ in 0..100 {
        let mut c = Clause::from_automata(2, 12, vec![automaton(12), automaton(3)]).unwrap();
        c.train_on(true, FeedbackType::TypeI, Ratio::whole(1), &vec![false, true], 0);
        assert!(is_fresh(&c, 2, 12));
        assert!(c.is_valid());
    }
}

#[test]
fn is_valid_holds_of_every_clause_that_can_be_made() {
    assert!(Clause::new(3, 30).is_valid());
    assert!(Clause::from_automata(1, 12, vec![automaton(13)]).unwrap().is_valid());
    let mut c = Clause::from_automata(2, 12, vec![automaton(0), automaton(1)]).unwrap();
    assert!(c.is_valid());
    c.train(FeedbackType::TypeI, Ratio::whole(4), Ratio::whole(1), &vec![true, false, true, false], 1);
    assert!(c.is_valid());
}
