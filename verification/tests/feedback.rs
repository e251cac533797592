use rsetlin::automaton::{Automaton, FeedBack};
use rsetlin::feedback::{
    give_type_i_feedback, give_type_ii_feedback, sample_type_i_feedback, sample_type_ii_feedback,
    type_i_feedback,
};
use rsetlin::ratio::Ratio;

fn automaton(state: i32) -> Automaton {
    Automaton {
        max_activation: 10,
        state,
    }
}

#[test]
fn type_i_on_a_true_clause_and_a_true_literal() {
    assert_eq!(type_i_feedback(true, true, true, true), FeedBack::Reward);
    assert_eq!(type_i_feedback(true, false, true, true), FeedBack::Penalty);
    assert_eq!(type_i_feedback(false, true, true, true), FeedBack::Inaction);
    assert_eq!(type_i_feedback(false, false, true, true), FeedBack::Inaction);
}

#[test]
fn type_i_on_a_true_clause_and_a_false_literal() {
    assert_eq!(type_i_feedback(true, true, false, true), FeedBack::Inaction);
    assert_eq!(type_i_feedback(true, false, false, true), FeedBack::Inaction);
    assert_eq!(type_i_feedback(false, true, false, true), FeedBack::Reward);
    assert_eq!(type_i_feedback(false, false, false, true), FeedBack::Reward);
}

#[test]
fn type_i_on_a_false_clause() {
    for literal in [true, false] {
        assert_eq!(type_i_feedback(true, true, literal, false), FeedBack::Inaction);
        assert_eq!(type_i_feedback(true, false, literal, false), FeedBack::Inaction);
        assert_eq!(type_i_feedback(false, true, literal, false), FeedBack::Penalty);
        assert_eq!(type_i_feedback(false, false, literal, false), FeedBack::Reward);
    }
}

#[test]
fn type_ii_penalizes_only_the_left_out_false_literal_of_a_true_clause() {
    for action in [true, false] {
        for literal in [true, false] {
            for clause in [true, false] {
                let expected = if clause && !literal && !action {
                    FeedBack::Penalty
                } else {
                    FeedBack::Inaction
                };
                assert_eq!(sample_type_ii_feedback(action, literal, clause), expected);
            }
        }
    }
    assert_eq!(sample_type_ii_feedback(false, false, true), FeedBack::Penalty);
    assert_eq!(sample_type_ii_feedback(true, false, true), FeedBack::Inaction);
}

#[test]
fn sampled_type_i_is_the_rare_branch_when_s_is_at_most_one() {
    for s in [Ratio::whole(1), Ratio { numer: 1, denom: 2 }] {
        for _ in 0..50 {
            for action in [true, false] {
                for literal in [true, false] {
                    for clause in [true, false] {
                        assert_eq!(
                            sample_type_i_feedback(s, action, literal, clause),
                            type_i_feedback(false, action, literal, clause)
                        );
                    }
                }
            }
        }
    }
}

#[test]
fn sampled_type_i_takes_either_branch() {
    let s = Ratio::whole(4);
    let mut rare = 0;
    let mut normal = 0;
    for _ in 0..2000 {
        match sample_type_i_feedback(s, true, true, true) {
            FeedBack::Reward => normal += 1,
            FeedBack::Inaction => rare += 1,
            FeedBack::Penalty => panic!("no branch gives a penalty here"),
        }
    }
    assert!(rare > 0 && normal > 0);
    assert!(normal > rare, "normal {} rare {}", normal, rare);
}

#[test]
fn type_ii_feedback_over_a_family() {
    let mut family = vec![automaton(9), automaton(12), automaton(9), automaton(0)];
    give_type_ii_feedback(&vec![false, false, true, false], true, &mut family);
    assert_eq!(family, vec![automaton(10), automaton(12), automaton(9), automaton(1)]);
}

#[test]
fn type_ii_feedback_on_a_false_clause_changes_nothing() {
    let mut family = vec![automaton(9), automaton(12), automaton(9)];
    give_type_ii_feedback(&vec![false, false, false], false, &mut family);
    assert_eq!(family, vec![automaton(9), automaton(12), automaton(9)]);
}

#[test]
fn feedback_stops_with_the_shorter_of_input_and_family() {
    let mut family = vec![automaton(9), automaton(9), automaton(9)];
    give_type_ii_feedback(&vec![false], true, &mut family);
    assert_eq!(family, vec![automaton(10), automaton(9), automaton(9)]);

    let mut family = vec![automaton(9)];
    give_type_ii_feedback(&vec![false, false, false], true, &mut family);
    assert_eq!(family, vec![automaton(10)]);

    let mut family = vec![automaton(9), automaton(9)];
    give_type_i_feedback(Ratio::whole(1), &vec![false], true, &mut family);
    assert_eq!(family, vec![automaton(8), automaton(9)]);

    let mut family: Vec<Automaton> = vec![];
    give_type_i_feedback(Ratio::whole(4), &vec![true, false], true, &mut family);
    assert!(family.is_empty());
}

#[test]
fn type_i_feedback_over_a_family_on_the_rare_branch() {
    // With s = 1 the rare branch is taken every time.
    let s = Ratio::whole(1);
    let mut family = vec![automaton(12), automaton(9), automaton(12), automaton(9)];
    give_type_i_feedback(s, &vec![true, true, false, false], true, &mut family);
    assert_eq!(family, vec![automaton(12), automaton(9), automaton(13), automaton(8)]);

    let mut family = vec![automaton(12), automaton(9), automaton(10), automaton(0)];
    give_type_i_feedback(s, &vec![true, false, true, false], false, &mut family);
    assert_eq!(family, vec![automaton(11), automaton(8), automaton(9), automaton(0)]);
}

#[test]
fn type_i_feedback_over_a_family_moves_each_automaton_one_step_at_most() {
    let s = Ratio::whole(4);
    for _ in 0..200 {
        let mut family = vec![automaton(12), automaton(9)];
        give_type_i_feedback(s, &vec![true, true], true, &mut family);
        assert!(family[0].state == 12 || family[0].state == 13);
        assert!(family[1].state == 9 || family[1].state == 10);
        assert_eq!(family[0].max_activation, 10);
    }
}
