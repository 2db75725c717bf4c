//! Production rules: a finite map from a symbol to the sequence that replaces it.

use crate::symbol::TurtleStep;
use std::collections::HashMap;
use vstd::prelude::*;

verus! {

broadcast use vstd::std_specs::hash::group_hash_axioms;

/// First key reserved for `Node` letters; every `char` lies below it.
const NODE_BASE: u64 = 0x20_0000;

/// First key of the symbols that carry no letter.
const PLAIN_BASE: u64 = 0x40_0000;

/// The number that stands for a symbol in the hash table.
///
/// It covers the variant and the letter, so different symbols get different
/// numbers (`lemma_key_injective`).
pub closed spec fn key_of(step: TurtleStep) -> u64 {
    match step {
        TurtleStep::Forward(c) => c as u64,
        TurtleStep::Node(c) => (NODE_BASE + c as u64) as u64,
        TurtleStep::ForwardNoLine => PLAIN_BASE,
        TurtleStep::TurnLeft => (PLAIN_BASE + 1) as u64,
        TurtleStep::TurnRight => (PLAIN_BASE + 2) as u64,
        TurtleStep::Push => (PLAIN_BASE + 3) as u64,
        TurtleStep::Pop => (PLAIN_BASE + 4) as u64,
        TurtleStep::Reset => (PLAIN_BASE + 5) as u64,
    }
}

/// Different symbols never share a key.
pub proof fn lemma_key_injective(a: TurtleStep, b: TurtleStep)
    ensures
        key_of(a) == key_of(b) <==> a == b,
{
}

fn key(step: &TurtleStep) -> (k: u64)
    ensures
        k == key_of(*step),
{
    match step {
        TurtleStep::Forward(c) => *c as u64,
        TurtleStep::Node(c) => NODE_BASE + *c as u64,
        TurtleStep::ForwardNoLine => PLAIN_BASE,
        TurtleStep::TurnLeft => PLAIN_BASE + 1,
        TurtleStep::TurnRight => PLAIN_BASE + 2,
        TurtleStep::Push => PLAIN_BASE + 3,
        TurtleStep::Pop => PLAIN_BASE + 4,
        TurtleStep::Reset => PLAIN_BASE + 5,
    }
}

/// The production rules of an L-system.
///
/// Its view is the map from each symbol that has a rule to its replacement.
/// A symbol without a rule is rewritten to itself.
#[derive(Debug, PartialEq)]
pub struct RuleSet {
    table: HashMap<u64, Vec<TurtleStep>>,
}

impl View for RuleSet {
    type V = Map<TurtleStep, Seq<TurtleStep>>;

    closed spec fn view(&self) -> Map<TurtleStep, Seq<TurtleStep>> {
        Map::new(
            |s: TurtleStep| self.table@.contains_key(key_of(s)),
            |s: TurtleStep| self.table@[key_of(s)]@,
        )
    }
}

impl Clone for RuleSet {
    /// A copy with the same rules.
    fn clone(&self) -> (copy: RuleSet)
        ensures
            copy@ == self@,
    {
        RuleSet { table: self.table.clone() }
    }
}

impl RuleSet {
    /// A rule set without rules: every symbol rewrites to itself.
    pub fn new() -> (rules: RuleSet)
        ensures
            rules@ == Map::<TurtleStep, Seq<TurtleStep>>::empty(),
    {
        let rules = RuleSet { table: HashMap::new() };
        assert(rules@ =~= Map::<TurtleStep, Seq<TurtleStep>>::empty());
        rules
    }

    /// Defines the rule for `from`; a rule given earlier for the same symbol
    /// is replaced.
    pub fn insert(&mut self, from: TurtleStep, to: Vec<TurtleStep>)
        ensures
            final(self)@ == old(self)@.insert(from, to@),
    {
        let k = key(&from);
        self.table.insert(k, to);
        proof {
            assert forall|s: TurtleStep| key_of(s) == k <==> s == from by {
                lemma_key_injective(s, from);
            }
            assert(self@ =~= old(self)@.insert(from, to@));
        }
    }

    /// The replacement for `step`, if it has a rule.
    pub fn get(&self, step: &TurtleStep) -> (found: Option<&Vec<TurtleStep>>)
        ensures
            match found {
                Some(to) => self@.contains_key(*step) && to@ == self@[*step],
                None => !self@.contains_key(*step),
            },
    {
        let k = key(step);
        self.table.get(&k)
    }

    /// Whether `step` has a rule.
    pub fn contains(&self, step: &TurtleStep) -> (b: bool)
        ensures
            b == self@.contains_key(*step),
    {
        let k = key(step);
        self.table.contains_key(&k)
    }
}

} // verus!
