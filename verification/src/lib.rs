//! A Tsetlin machine: a binary classifier made of two-action learning automata
//! grouped into conjunctive clauses and trained by stochastic reinforcement.
//!
//! The modules, from the leaves up:
//!
//! - `ratio`: the rational numbers in which the hyperparameters and the
//!   probabilities are written;
//! - `random`: the one call into the random number generator, and events of a
//!   given probability;
//! - `automaton`: the learning automaton and its transition;
//! - `feedback`: Type I and Type II feedback, for one automaton and for a
//!   family;
//! - `clause`: the clause, its evaluation, and the replacement of dead clauses;
//! - `literals`: the literals of an example;
//! - `bank`: the clauses of one polarity, evaluated and trained in parallel;
//! - `tsetlin_machine`: the machine with `new`, `predict` and `fit`;
//! - `vectorizer`: presence vectors of tokenized text over a vocabulary.
//!
//! Every function is verified against its contract, with these exceptions,
//! whose contracts are taken on trust: `random::uniform_below` (the `rand`
//! crate), and `literals::par_expand`, `bank::par_votes` and
//! `bank::par_train` (parallel iteration of the `rayon` crate).
//!
//! What is drawn at random is not part of any contract. Where a function
//! draws, its contract names the outcomes that are possible, and a function
//! beside it takes what was drawn as an argument and is exact.

pub mod automaton;
pub mod bank;
pub mod clause;
pub mod feedback;
pub mod literals;
pub mod random;
pub mod ratio;
pub mod tsetlin_machine;
pub mod vectorizer;
