//! An L-system instance: the definition read from text, the sequence that
//! its generations produce, and a cursor that replays the sequence for ever.

use crate::brackets::{
    is_well_bracketed, lemma_generations_keep_brackets, rules_keep_brackets, well_bracketed,
};
use crate::grammar::{parse_rewrite_rules, parse_steps, rules_of_text, steps_of_text, ParseError};
use crate::rewrite::{rewrite, rewrite_n, rewrite_once, Rules};
use crate::rules::RuleSet;
use crate::symbol::TurtleStep;
use vstd::prelude::*;
use vstd::string::StringExecFns;

verus! {

/// What an instance holds, as mathematical values.
pub struct KochView {
    /// The label of the system.
    pub name: Seq<char>,
    /// The sequence before any rewriting.
    pub initial: Seq<TurtleStep>,
    /// The production rules.
    pub rules: Rules,
    /// The number of generations asked for at construction.
    pub generations: nat,
    /// The sequence that the cursor walks.
    pub sequence: Seq<TurtleStep>,
    /// The turn angle in radians, as the bits of an IEEE 754 single.
    pub delta: u32,
    /// The position of the cursor in `sequence`.
    pub cursor: nat,
}

impl KochView {
    /// Whether the cursor has passed the last symbol.
    pub open spec fn at_end(self) -> bool {
        self.cursor >= self.sequence.len()
    }

    /// The symbol that the next step hands out: the one under the cursor,
    /// or `Reset` once the sequence is used up.
    pub open spec fn upcoming(self) -> TurtleStep {
        if self.at_end() {
            TurtleStep::Reset
        } else {
            self.sequence[self.cursor as int]
        }
    }

    /// The instance after one step: the cursor moves on by one, or back to
    /// the start when it was at the end.
    pub open spec fn advance(self) -> KochView {
        KochView { cursor: if self.at_end() { 0 } else { self.cursor + 1 }, ..self }
    }

    /// The instance after `count` steps.
    pub open spec fn advance_by(self, count: nat) -> KochView
        decreases count,
    {
        if count == 0 {
            self
        } else {
            self.advance_by((count - 1) as nat).advance()
        }
    }

    /// The instance after one more generation: the sequence is rewritten
    /// once and the cursor returns to the start.
    pub open spec fn next_generation(self) -> KochView {
        KochView {
            sequence: rewrite(self.rules, self.sequence),
            cursor: 0,
            ..self
        }
    }
}

/// The instance that `Koch::from` builds from its arguments: the parsed
/// axiom rewritten `n` times, with the cursor at the start. The axiom is
/// read first, so its error comes before one in the rules.
pub open spec fn constructed(
    name: Seq<char>,
    initial_state: Seq<char>,
    rewrite_rules: Seq<char>,
    n: nat,
    delta: u32,
) -> Result<KochView, ParseError> {
    match steps_of_text(initial_state) {
        Err(e) => Err(e),
        Ok(initial) => match rules_of_text(rewrite_rules) {
            Err(e) => Err(e),
            Ok(rules) => Ok(
                KochView {
                    name,
                    initial,
                    rules,
                    generations: n,
                    sequence: rewrite_n(rules, initial, n),
                    delta,
                    cursor: 0,
                },
            ),
        },
    }
}

/// Whether two texts define a system that a turtle can draw for ever: the
/// sequence to start from is well bracketed, and the rules keep brackets.
pub open spec fn keeps_brackets(initial_state: Seq<char>, rewrite_rules: Seq<char>) -> bool {
    &&& steps_of_text(initial_state) matches Ok(initial)
    &&& well_bracketed(initial)
    &&& rules_of_text(rewrite_rules) matches Ok(rules)
    &&& rules_keep_brackets(rules)
}

/// An L-system with its sequence rewritten and ready to be walked.
#[derive(Debug, PartialEq)]
pub struct Koch {
    name: String,
    initial_state: Vec<TurtleStep>,
    rewrite_rules: RuleSet,
    n: usize,
    state: Vec<TurtleStep>,
    delta: u32,
    step: usize,
}

impl View for Koch {
    type V = KochView;

    closed spec fn view(&self) -> KochView {
        KochView {
            name: self.name@,
            initial: self.initial_state@,
            rules: self.rewrite_rules@,
            generations: self.n as nat,
            sequence: self.state@,
            delta: self.delta,
            cursor: self.step as nat,
        }
    }
}

impl Koch {
    /// The cursor never passes the end of the sequence.
    #[verifier::type_invariant]
    spec fn cursor_in_range(self) -> bool {
        self.step <= self.state@.len()
    }
}

impl Clone for Koch {
    /// A copy that holds the same values, the cursor included.
    fn clone(&self) -> (copy: Koch)
        ensures
            copy@ == self@,
    {
        proof {
            use_type_invariant(self);
        }
        Koch {
            name: self.name.clone(),
            initial_state: self.initial_state.clone(),
            rewrite_rules: self.rewrite_rules.clone(),
            n: self.n,
            state: self.state.clone(),
            delta: self.delta,
            step: self.step,
        }
    }
}

impl Koch {
    /// Builds an instance from text.
    ///
    /// Both texts are read once; then the axiom is rewritten `n` times, each
    /// generation from the one before. With `n == 0` the sequence is the
    /// axiom. `delta` is the turn angle in radians as the bits of a single;
    /// it is kept as given. A text in error gives that error and no instance.
    pub fn from(name: &str, initial_state: &str, rewrite_rules: &str, n: usize, delta: u32) -> (koch:
        Result<Koch, ParseError>)
        ensures
            match koch {
                Ok(k) => constructed(name@, initial_state@, rewrite_rules@, n as nat, delta) == Ok::<
                    KochView,
                    ParseError,
                >(k@),
                Err(e) => constructed(name@, initial_state@, rewrite_rules@, n as nat, delta)
                    == Err::<KochView, ParseError>(e),
            },
    {
        let initial_state = match parse_steps(initial_state) {
            Ok(steps) => steps,
            Err(e) => {
                return Err(e);
            },
        };
        let rewrite_rules = match parse_rewrite_rules(rewrite_rules) {
            Ok(rules) => rules,
            Err(e) => {
                return Err(e);
            },
        };
        let state = initial_state.clone();
        let mut koch = Koch {
            name: String::from_str(name),
            initial_state,
            rewrite_rules,
            n,
            state,
            delta,
            step: 0,
        };
        let ghost start = koch@;
        let mut i: usize = 0;
        while i < n
            invariant
                i <= n,
                start.cursor == 0,
                koch@ == (KochView {
                    sequence: rewrite_n(start.rules, start.initial, i as nat),
                    ..start
                }),
            decreases n - i,
        {
            koch.next_iteration();
            i += 1;
        }
        Ok(koch)
    }

    /// The label of the system.
    pub fn get_name(&self) -> (name: &str)
        ensures
            name@ == self@.name,
    {
        self.name.as_str()
    }

    /// The turn angle in radians, as the bits of an IEEE 754 single.
    pub fn get_delta(&self) -> (delta: u32)
        ensures
            delta == self@.delta,
    {
        self.delta
    }

    /// The number of generations asked for at construction.
    pub fn generations(&self) -> (n: usize)
        ensures
            n == self@.generations,
    {
        self.n
    }

    /// The sequence before any rewriting.
    pub fn initial_state(&self) -> (initial: &Vec<TurtleStep>)
        ensures
            initial@ == self@.initial,
    {
        &self.initial_state
    }

    /// The production rules.
    pub fn rewrite_rules(&self) -> (rules: &RuleSet)
        ensures
            rules@ == self@.rules,
    {
        &self.rewrite_rules
    }

    /// The sequence that the cursor walks.
    pub fn state(&self) -> (sequence: &Vec<TurtleStep>)
        ensures
            sequence@ == self@.sequence,
    {
        &self.state
    }

    /// The position of the cursor in the sequence: at most its length.
    pub fn cursor(&self) -> (at: usize)
        ensures
            at == self@.cursor,
            at <= self@.sequence.len(),
    {
        proof {
            use_type_invariant(self);
        }
        self.step
    }

    /// Tells whether the sequence is well bracketed, so that a turtle can
    /// walk it from its start without ever popping the base frame.
    pub fn is_well_bracketed(&self) -> (good: bool)
        ensures
            good == well_bracketed(self@.sequence),
    {
        is_well_bracketed(&self.state)
    }

    /// The symbol that `next_step` would hand out, without moving the cursor.
    pub fn upcoming(&self) -> (step: TurtleStep)
        ensures
            step == self@.upcoming(),
    {
        if self.step >= self.state.len() {
            TurtleStep::Reset
        } else {
            self.state[self.step]
        }
    }

    /// Hands out the symbol under the cursor and moves the cursor on.
    ///
    /// At the end of the sequence it hands out `Reset` and returns the cursor
    /// to the start, so the sequence is replayed for ever.
    pub fn next_step(&mut self) -> (step: TurtleStep)
        ensures
            step == old(self)@.upcoming(),
            final(self)@ == old(self)@.advance(),
    {
        if self.step >= self.state.len() {
            self.step = 0;
            return TurtleStep::Reset;
        }
        let s = self.state[self.step];
        self.step += 1;
        s
    }

    /// Replaces the sequence by its next generation and returns the cursor to
    /// the start.
    pub fn next_iteration(&mut self)
        ensures
            final(self)@ == old(self)@.next_generation(),
    {
        let new_state = rewrite_once(&self.state, &self.rewrite_rules);
        self.step = 0;
        self.state = new_state;
    }
}

/// Construction is a function of its arguments: two instances built from
/// the same texts, generation count and angle hold the same values, and in
/// particular the same sequence.
pub proof fn lemma_construct_deterministic(
    first: Koch,
    second: Koch,
    name: Seq<char>,
    initial_state: Seq<char>,
    rewrite_rules: Seq<char>,
    n: nat,
    delta: u32,
)
    requires
        constructed(name, initial_state, rewrite_rules, n, delta) == Ok::<KochView, ParseError>(
            first@,
        ),
        constructed(name, initial_state, rewrite_rules, n, delta) == Ok::<KochView, ParseError>(
            second@,
        ),
    ensures
        first@ == second@,
        first@.sequence == second@.sequence,
{
}

/// A definition that keeps brackets gives a well-bracketed sequence, after
/// any number of generations.
pub proof fn lemma_construction_keeps_brackets(
    name: Seq<char>,
    initial_state: Seq<char>,
    rewrite_rules: Seq<char>,
    n: nat,
    delta: u32,
)
    requires
        keeps_brackets(initial_state, rewrite_rules),
    ensures
        constructed(name, initial_state, rewrite_rules, n, delta) matches Ok(koch)
            && well_bracketed(koch.sequence),
{
    lemma_generations_keep_brackets(
        rules_of_text(rewrite_rules).unwrap(),
        steps_of_text(initial_state).unwrap(),
        n,
    );
}

/// Walking a sequence hands out its symbols in order, one per step: after
/// `i` steps the cursor has moved on by `i`, as long as the sequence lasts.
pub proof fn lemma_steps_in_order(koch: KochView, i: nat)
    requires
        koch.cursor + i <= koch.sequence.len(),
    ensures
        koch.advance_by(i) == (KochView { cursor: koch.cursor + i, ..koch }),
        koch.cursor + i < koch.sequence.len() ==> koch.advance_by(i).upcoming()
            == koch.sequence[(koch.cursor + i) as int],
    decreases i,
{
    if i > 0 {
        lemma_steps_in_order(koch, (i - 1) as nat);
    }
}

/// The cursor wraps around: after as many steps as the sequence is long, the
/// next step hands out `Reset` and leaves the cursor at the start again.
pub proof fn lemma_cursor_wraps_around(koch: KochView)
    requires
        koch.cursor == 0,
    ensures
        koch.advance_by(koch.sequence.len()).upcoming() == TurtleStep::Reset,
        koch.advance_by(koch.sequence.len() + 1) == koch,
        koch.advance_by(koch.sequence.len() + 1).cursor == 0,
{
    lemma_steps_in_order(koch, koch.sequence.len());
}

} // verus!
