//! The rewriting engine: one generation replaces every symbol by the
//! right-hand side of its rule, all at once and in order.

use crate::rules::RuleSet;
use crate::symbol::TurtleStep;
use vstd::prelude::*;

verus! {

/// The rules as a map from a symbol to its replacement.
pub type Rules = Map<TurtleStep, Seq<TurtleStep>>;

/// What one symbol becomes in the next generation: the right-hand side of
/// its rule, or the symbol itself when it has none.
pub open spec fn expand(rules: Rules, step: TurtleStep) -> Seq<TurtleStep> {
    if rules.contains_key(step) {
        rules[step]
    } else {
        seq![step]
    }
}

/// `expand` with the rules fixed, as a function of the symbol.
pub open spec fn expander(rules: Rules) -> spec_fn(TurtleStep) -> Seq<TurtleStep> {
    |step: TurtleStep| expand(rules, step)
}

/// One generation: the expansions of all symbols, concatenated in order.
pub open spec fn rewrite(rules: Rules, sequence: Seq<TurtleStep>) -> Seq<TurtleStep> {
    sequence.flat_map(expander(rules))
}

/// `n` generations, each built from the one before it.
pub open spec fn rewrite_n(rules: Rules, sequence: Seq<TurtleStep>, n: nat) -> Seq<TurtleStep>
    decreases n,
{
    if n == 0 {
        sequence
    } else {
        rewrite(rules, rewrite_n(rules, sequence, (n - 1) as nat))
    }
}

/// Rewriting the empty sequence gives the empty sequence.
pub proof fn lemma_rewrite_empty(rules: Rules)
    ensures
        rewrite(rules, Seq::empty()) == Seq::<TurtleStep>::empty(),
{
    assert(Seq::<TurtleStep>::empty().map_values(expander(rules)) =~= Seq::<
        Seq<TurtleStep>,
    >::empty());
}

/// Rewriting a sequence extended by one symbol appends that symbol's
/// expansion.
pub proof fn lemma_rewrite_push(rules: Rules, sequence: Seq<TurtleStep>, step: TurtleStep)
    ensures
        rewrite(rules, sequence.push(step)) == rewrite(rules, sequence) + expand(rules, step),
{
    sequence.lemma_flat_map_push(expander(rules), step);
}

/// Rewriting works symbol by symbol, so it distributes over concatenation.
pub proof fn lemma_rewrite_concat(rules: Rules, left: Seq<TurtleStep>, right: Seq<TurtleStep>)
    ensures
        rewrite(rules, left + right) == rewrite(rules, left) + rewrite(rules, right),
    decreases right.len(),
{
    if right.len() == 0 {
        lemma_rewrite_empty(rules);
        assert(right =~= Seq::empty());
        assert(left + right =~= left);
        assert(rewrite(rules, left) + Seq::<TurtleStep>::empty() =~= rewrite(rules, left));
    } else {
        let front = right.drop_last();
        let last = right.last();
        lemma_rewrite_concat(rules, left, front);
        assert(right =~= front.push(last));
        assert(left + right =~= (left + front).push(last));
        lemma_rewrite_push(rules, left + front, last);
        lemma_rewrite_push(rules, front, last);
        assert((rewrite(rules, left) + rewrite(rules, front)) + expand(rules, last) =~= rewrite(
            rules,
            left,
        ) + (rewrite(rules, front) + expand(rules, last)));
    }
}

/// A symbol without a rule is kept, so without any rule a generation changes
/// nothing.
pub proof fn lemma_rewrite_without_rules(sequence: Seq<TurtleStep>)
    ensures
        rewrite(Map::empty(), sequence) == sequence,
    decreases sequence.len(),
{
    let rules = Rules::empty();
    if sequence.len() == 0 {
        lemma_rewrite_empty(rules);
        assert(sequence =~= Seq::empty());
    } else {
        lemma_rewrite_without_rules(sequence.drop_last());
        assert(sequence =~= sequence.drop_last().push(sequence.last()));
        lemma_rewrite_push(rules, sequence.drop_last(), sequence.last());
    }
}

/// Generations compose: `a + b` generations are `a` generations followed by
/// `b` more, however the total is split.
pub proof fn lemma_generations_compose(rules: Rules, sequence: Seq<TurtleStep>, a: nat, b: nat)
    ensures
        rewrite_n(rules, sequence, a + b) == rewrite_n(rules, rewrite_n(rules, sequence, a), b),
    decreases b,
{
    if b > 0 {
        lemma_generations_compose(rules, sequence, a, (b - 1) as nat);
        assert((a + b - 1) as nat == a + (b - 1) as nat);
    }
}

/// One more generation may be taken first or last.
pub proof fn lemma_generation_first_or_last(rules: Rules, sequence: Seq<TurtleStep>, n: nat)
    ensures
        rewrite_n(rules, sequence, n + 1) == rewrite_n(rules, rewrite(rules, sequence), n),
{
    lemma_generations_compose(rules, sequence, 1, n);
    assert(rewrite_n(rules, sequence, 1) == rewrite(rules, rewrite_n(rules, sequence, 0)));
}

/// Appends a copy of `items` to `out`.
fn append_all(out: &mut Vec<TurtleStep>, items: &Vec<TurtleStep>)
    ensures
        final(out)@ == old(out)@ + items@,
{
    let mut i: usize = 0;
    while i < items.len()
        invariant
            i <= items.len(),
            out@ == old(out)@ + items@.take(i as int),
        decreases items.len() - i,
    {
        out.push(items[i]);
        i += 1;
    }
    assert(items@.take(items.len() as int) =~= items@);
}

/// Builds the next generation of `sequence` under `rules`.
///
/// Every symbol is replaced, in order, by the right-hand side of its rule, or
/// kept when it has none. The input is left as it is; the work is linear in
/// the length of the result.
pub fn rewrite_once(sequence: &Vec<TurtleStep>, rules: &RuleSet) -> (next: Vec<TurtleStep>)
    ensures
        next@ == rewrite(rules@, sequence@),
{
    let mut next: Vec<TurtleStep> = Vec::new();
    let mut i: usize = 0;
    proof {
        lemma_rewrite_empty(rules@);
        assert(sequence@.take(0) =~= Seq::empty());
    }
    while i < sequence.len()
        invariant
            i <= sequence.len(),
            next@ == rewrite(rules@, sequence@.take(i as int)),
        decreases sequence.len() - i,
    {
        let step = sequence[i];
        proof {
            assert(sequence@.take(i + 1) =~= sequence@.take(i as int).push(step));
            lemma_rewrite_push(rules@, sequence@.take(i as int), step);
        }
        match rules.get(&step) {
            Some(to) => append_all(&mut next, to),
            None => next.push(step),
        }
        i += 1;
    }
    assert(sequence@.take(sequence.len() as int) =~= sequence@);
    next
}

} // verus!
