use rand::{thread_rng, Rng};
use rsetlin::automaton::{Automaton, FeedBack};
use rsetlin::clause::Clause;
use rsetlin::ratio::Ratio;
use rsetlin::tsetlin_machine::TsetlinMachine;

fn all_examples() -> Vec<Vec<bool>> {
    let mut testset = vec![];
    for first in vec![true, false] {
        for second in vec![true, false] {
            for third in vec![true, false] {
                testset.push(vec![first, second, third])
            }
        }
    }
    testset
}

fn clean_signal() -> i32 {
    let mut tm = TsetlinMachine::new(50, 30, Ratio::whole(4), Ratio::whole(30), 3);
    let mut correct = 0;
    for _ in 0..200 {
        let data: [bool; 3] = thread_rng().gen();
        tm.fit(data.into(), data[1]);
    }
    for test in all_examples() {
        let output = tm.predict(&test);
        if output == test[1] {
            correct += 1;
        }
    }
    correct
}

fn noisy_signal() -> i32 {
    let mut tm = TsetlinMachine::new(100, 30, Ratio::whole(4), Ratio::whole(60), 3);
    let mut correct = 0;
    for _ in 0..500 {
        let data: [bool; 3] = thread_rng().gen();
        tm.fit(
            data.into(),
            if thread_rng().gen_range(0.0..1.0) < 0.1 {
                !data[1]
            } else {
                data[1]
            },
        );
    }
    for test in all_examples() {
        let output = tm.predict(&test);
        if output == test[1] {
            correct += 1;
        }
    }
    correct
}

fn transition_sequence() {
    let mut a = Automaton {
        max_activation: 10,
        state: 12,
    };
    a.transition(FeedBack::Reward);
    assert!(a.state == 13);
    a.transition(FeedBack::Inaction);
    assert!(a.state == 13);
    a.transition(FeedBack::Penalty);
    assert!(a.state == 12);
    a.transition(FeedBack::Penalty);
    assert!(a.state == 11);
    a.transition(FeedBack::Penalty);
    assert!(a.state == 10);
    a.transition(FeedBack::Reward);
    assert!(a.state == 11);
}

#[test]
fn tsetlin_machine_test_tm_clean_signal() {
    let correct = clean_signal();
    assert!(correct == 8);
}

#[test]
fn tsetlin_machine_test_tm_noisy_signal() {
    let correct = noisy_signal();
    assert!(correct == 8, "Correct: {}", correct);
}

#[test]
fn tsetlin_machine_test_transition() {
    transition_sequence();
}

#[test]
fn tsetlin_machine_test_clause() {
    let mut c = Clause::from_automata(
        1,
        12,
        vec![Automaton {
            state: 13,
            max_activation: 12,
        }],
    )
    .unwrap();
    c.output();
    assert!(c.apply(&vec![true]) == true);

    let mut c = Clause::from_automata(
        2,
        12,
        vec![
            Automaton {
                state: 13,
                max_activation: 12,
            },
            Automaton {
                state: 12,
                max_activation: 12,
            },
        ],
    )
    .unwrap();
    c.output();
    assert!(c.apply(&vec![false, true]) == false);
}

#[test]
fn tselin_machine_test_tm_clean_signal() {
    let correct = clean_signal();
    assert!(correct == 8);
}

#[test]
fn tselin_machine_test_tm_noisy_signal() {
    let correct = noisy_signal();
    assert!(correct == 8, "Correct: {}", correct);
}

#[test]
fn tselin_machine_test_transition() {
    transition_sequence();
}

#[test]
fn tselin_machine_test_clause() {
    let c = Clause::from_automata(
        1,
        12,
        vec![Automaton {
            state: 13,
            max_activation: 12,
        }],
    )
    .unwrap();
    assert!(c.apply(&vec![true]) == true);

    let c = Clause::from_automata(
        1,
        12,
        vec![
            Automaton {
                state: 13,
                max_activation: 12,
            },
            Automaton {
                state: 12,
                max_activation: 12,
            },
        ],
    )
    .unwrap();
    assert!(c.apply(&vec![false, true]) == false);
}
