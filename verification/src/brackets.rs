//! Brackets: how `Push` and `Pop` nest in a sequence.
//!
//! A turtle may only pop a pose that was pushed before. A sequence in which
//! no `Pop` comes before its `Push` is called well bracketed here; rewriting
//! keeps a sequence well bracketed as long as the right-hand side of every
//! rule is well bracketed and balanced.

use crate::rewrite::{
    expand, lemma_rewrite_empty, lemma_rewrite_push, rewrite, rewrite_n, Rules,
};
use crate::symbol::TurtleStep;
use vstd::prelude::*;

verus! {

/// How often `step` occurs in `sequence`.
pub open spec fn occurrences(sequence: Seq<TurtleStep>, step: TurtleStep) -> nat
    decreases sequence.len(),
{
    if sequence.len() == 0 {
        0
    } else {
        occurrences(sequence.drop_last(), step) + if sequence.last() == step {
            1nat
        } else {
            0nat
        }
    }
}

/// By how many frames a sequence raises the stack: its pushes less its pops.
pub open spec fn net_depth(sequence: Seq<TurtleStep>) -> int {
    occurrences(sequence, TurtleStep::Push) - occurrences(sequence, TurtleStep::Pop)
}

/// Whether no part of `sequence` read from its start pops more than it has
/// pushed, and no `Reset` stands in it.
pub open spec fn well_bracketed(sequence: Seq<TurtleStep>) -> bool {
    &&& forall|k: int| 0 <= k <= sequence.len() ==> net_depth(#[trigger] sequence.take(k)) >= 0
    &&& forall|i: int| 0 <= i < sequence.len() ==> !(#[trigger] sequence[i] is Reset)
}

/// Whether rewriting with `rules` keeps sequences well bracketed: no rule
/// replaces a bracket or a `Reset`, and every right-hand side is well
/// bracketed and pops all that it pushes.
pub open spec fn rules_keep_brackets(rules: Rules) -> bool {
    forall|from: TurtleStep| #[trigger]
        rules.contains_key(from) ==> {
            &&& !(from is Push)
            &&& !(from is Pop)
            &&& !(from is Reset)
            &&& well_bracketed(rules[from])
            &&& net_depth(rules[from]) == 0
        }
}

/// One more symbol at the end changes the net depth by what that symbol does.
pub proof fn lemma_net_depth_push(sequence: Seq<TurtleStep>, step: TurtleStep)
    ensures
        net_depth(sequence.push(step)) == net_depth(sequence) + if step is Push {
            1int
        } else if step is Pop {
            -1int
        } else {
            0int
        },
{
    assert(sequence.push(step).drop_last() =~= sequence);
}

/// The net depth of two sequences in a row is the sum of theirs.
pub proof fn lemma_net_depth_concat(left: Seq<TurtleStep>, right: Seq<TurtleStep>)
    ensures
        net_depth(left + right) == net_depth(left) + net_depth(right),
    decreases right.len(),
{
    if right.len() == 0 {
        assert(left + right =~= left);
    } else {
        lemma_net_depth_concat(left, right.drop_last());
        assert((left + right).drop_last() =~= left + right.drop_last());
    }
}

/// The start of a well-bracketed sequence is well bracketed.
pub proof fn lemma_well_bracketed_prefix(sequence: Seq<TurtleStep>, n: int)
    requires
        well_bracketed(sequence),
        0 <= n <= sequence.len(),
    ensures
        well_bracketed(sequence.take(n)),
{
    let start = sequence.take(n);
    assert forall|k: int| 0 <= k <= start.len() implies net_depth(#[trigger] start.take(k))
        >= 0 by {
        assert(start.take(k) =~= sequence.take(k));
    }
    assert forall|i: int| 0 <= i < start.len() implies !(#[trigger] start[i] is Reset) by {
        assert(start[i] == sequence[i]);
    }
}

/// A well-bracketed sequence never ends below where it started.
pub proof fn lemma_well_bracketed_ends_above(sequence: Seq<TurtleStep>)
    requires
        well_bracketed(sequence),
    ensures
        net_depth(sequence) >= 0,
{
    assert(sequence.take(sequence.len() as int) =~= sequence);
}

/// A well-bracketed sequence stays so with one more symbol at its end, if
/// that symbol is no `Reset` and pops nothing but what was pushed.
pub proof fn lemma_well_bracketed_push(sequence: Seq<TurtleStep>, step: TurtleStep)
    requires
        well_bracketed(sequence),
        !(step is Reset),
        net_depth(sequence.push(step)) >= 0,
    ensures
        well_bracketed(sequence.push(step)),
{
    let longer = sequence.push(step);
    assert forall|k: int| 0 <= k <= longer.len() implies net_depth(#[trigger] longer.take(k))
        >= 0 by {
        if k == longer.len() {
            assert(longer.take(k) =~= longer);
        } else {
            assert(longer.take(k) =~= sequence.take(k));
        }
    }
    assert forall|i: int| 0 <= i < longer.len() implies !(#[trigger] longer[i] is Reset) by {
        if i < sequence.len() {
            assert(longer[i] == sequence[i]);
        }
    }
}

/// A sequence without brackets and without `Reset` is well bracketed and
/// leaves the stack as high as it was.
pub proof fn lemma_without_brackets(sequence: Seq<TurtleStep>)
    requires
        forall|i: int|
            0 <= i < sequence.len() ==> !(#[trigger] sequence[i] is Push) && !(sequence[i] is Pop)
                && !(sequence[i] is Reset),
    ensures
        well_bracketed(sequence),
        net_depth(sequence) == 0,
    decreases sequence.len(),
{
    if sequence.len() > 0 {
        let front = sequence.drop_last();
        let last = sequence.last();
        assert(sequence =~= front.push(last));
        assert(!(last is Push) && !(last is Pop) && !(last is Reset)) by {
            assert(sequence[sequence.len() - 1] == last);
        }
        lemma_without_brackets(front);
        lemma_net_depth_push(front, last);
        lemma_well_bracketed_push(front, last);
    } else {
        assert(sequence.take(0) =~= sequence);
    }
}

/// Two sequences in a row are well bracketed if the first is, and the second
/// never pops more than the first has left on the stack.
pub proof fn lemma_well_bracketed_concat(left: Seq<TurtleStep>, right: Seq<TurtleStep>)
    requires
        well_bracketed(left),
        forall|j: int|
            0 <= j <= right.len() ==> net_depth(left) + net_depth(#[trigger] right.take(j)) >= 0,
        forall|i: int| 0 <= i < right.len() ==> !(#[trigger] right[i] is Reset),
    ensures
        well_bracketed(left + right),
{
    let both = left + right;
    assert forall|k: int| 0 <= k <= both.len() implies net_depth(#[trigger] both.take(k))
        >= 0 by {
        if k <= left.len() {
            assert(both.take(k) =~= left.take(k));
        } else {
            let j = k - left.len();
            assert(both.take(k) =~= left + right.take(j));
            lemma_net_depth_concat(left, right.take(j));
        }
    }
    assert forall|i: int| 0 <= i < both.len() implies !(#[trigger] both[i] is Reset) by {
        if i < left.len() {
            assert(both[i] == left[i]);
        } else {
            assert(both[i] == right[i - left.len()]);
        }
    }
}

/// Whether a walk through `sequence` from position `from`, with `depth` frames
/// on top of the base frame, meets no `Reset`, never pops the base frame, and
/// ends with `ends` frames on top of it.
pub open spec fn walk_is_safe(sequence: Seq<TurtleStep>, from: int, depth: int, ends: int) -> bool
    decreases sequence.len() - from,
{
    if from < 0 {
        false
    } else if from >= sequence.len() {
        depth == ends
    } else {
        match sequence[from] {
            TurtleStep::Push => walk_is_safe(sequence, from + 1, depth + 1, ends),
            TurtleStep::Pop => depth >= 1 && walk_is_safe(sequence, from + 1, depth - 1, ends),
            TurtleStep::Reset => false,
            _ => walk_is_safe(sequence, from + 1, depth, ends),
        }
    }
}

/// A safe walk from the middle of a sequence whose start is well bracketed
/// shows that all of it is.
pub proof fn lemma_safe_walk_from(sequence: Seq<TurtleStep>, from: int, ends: int)
    requires
        0 <= from <= sequence.len(),
        well_bracketed(sequence.take(from)),
        walk_is_safe(sequence, from, net_depth(sequence.take(from)), ends),
    ensures
        well_bracketed(sequence),
        net_depth(sequence) == ends,
    decreases sequence.len() - from,
{
    if from >= sequence.len() {
        assert(sequence.take(from) =~= sequence);
    } else {
        let seen = sequence.take(from);
        let step = sequence[from];
        let now = sequence.take(from + 1);
        assert(now =~= seen.push(step));
        lemma_net_depth_push(seen, step);
        lemma_well_bracketed_ends_above(seen);
        lemma_well_bracketed_push(seen, step);
        lemma_safe_walk_from(sequence, from + 1, ends);
    }
}

/// A sequence that can be walked safely from its start is well bracketed.
pub proof fn lemma_safe_walk(sequence: Seq<TurtleStep>, ends: int)
    requires
        walk_is_safe(sequence, 0, 0, ends),
    ensures
        well_bracketed(sequence),
        net_depth(sequence) == ends,
{
    assert(sequence.take(0) =~= Seq::empty());
    lemma_without_brackets(Seq::empty());
    lemma_safe_walk_from(sequence, 0, ends);
}

/// Rules keep brackets when one more rule is added that does: a rule for a
/// symbol that is no bracket and no `Reset`, with a well-bracketed and
/// balanced right-hand side.
pub proof fn lemma_rule_keeps_brackets(rules: Rules, from: TurtleStep, to: Seq<TurtleStep>)
    requires
        rules_keep_brackets(rules),
        !(from is Push),
        !(from is Pop),
        !(from is Reset),
        well_bracketed(to),
        net_depth(to) == 0,
    ensures
        rules_keep_brackets(rules.insert(from, to)),
{
    let grown = rules.insert(from, to);
    assert forall|key: TurtleStep| #[trigger] grown.contains_key(key) implies {
        &&& !(key is Push)
        &&& !(key is Pop)
        &&& !(key is Reset)
        &&& well_bracketed(grown[key])
        &&& net_depth(grown[key]) == 0
    } by {
        if key != from {
            assert(rules.contains_key(key));
        }
    }
}

/// One generation keeps a sequence well bracketed and as deep as it was,
/// where the rules keep brackets.
pub proof fn lemma_rewrite_keeps_brackets(rules: Rules, sequence: Seq<TurtleStep>)
    requires
        rules_keep_brackets(rules),
        well_bracketed(sequence),
    ensures
        well_bracketed(rewrite(rules, sequence)),
        net_depth(rewrite(rules, sequence)) == net_depth(sequence),
    decreases sequence.len(),
{
    if sequence.len() == 0 {
        lemma_rewrite_empty(rules);
        assert(sequence =~= Seq::empty());
        lemma_without_brackets(Seq::empty());
    } else {
        let front = sequence.drop_last();
        let last = sequence.last();
        let grown = rewrite(rules, front);
        let more = expand(rules, last);
        assert(sequence =~= front.push(last));
        assert(front =~= sequence.take(sequence.len() - 1));
        lemma_well_bracketed_prefix(sequence, sequence.len() - 1);
        lemma_rewrite_keeps_brackets(rules, front);
        lemma_rewrite_push(rules, front, last);
        lemma_net_depth_push(front, last);
        lemma_well_bracketed_ends_above(front);
        lemma_well_bracketed_ends_above(sequence);
        assert(!(last is Reset)) by {
            assert(sequence[sequence.len() - 1] == last);
        }
        if rules.contains_key(last) {
            assert(more == rules[last]);
        } else {
            assert(more == seq![last]);
            assert forall|j: int| 0 <= j <= more.len() implies net_depth(grown) + net_depth(
                #[trigger] more.take(j),
            ) >= 0 by {
                if j == 0 {
                    assert(more.take(0) =~= Seq::empty());
                } else {
                    assert(more.take(j) =~= Seq::<TurtleStep>::empty().push(last));
                    lemma_net_depth_push(Seq::empty(), last);
                }
            }
            assert(more =~= Seq::<TurtleStep>::empty().push(last));
            lemma_net_depth_push(Seq::empty(), last);
        }
        lemma_well_bracketed_concat(grown, more);
        lemma_net_depth_concat(grown, more);
    }
}

/// Any number of generations keeps a sequence well bracketed, where the
/// rules keep brackets.
pub proof fn lemma_generations_keep_brackets(rules: Rules, sequence: Seq<TurtleStep>, n: nat)
    requires
        rules_keep_brackets(rules),
        well_bracketed(sequence),
    ensures
        well_bracketed(rewrite_n(rules, sequence, n)),
        net_depth(rewrite_n(rules, sequence, n)) == net_depth(sequence),
    decreases n,
{
    if n > 0 {
        lemma_generations_keep_brackets(rules, sequence, (n - 1) as nat);
        lemma_rewrite_keeps_brackets(rules, rewrite_n(rules, sequence, (n - 1) as nat));
    }
}

/// Tells whether `sequence` is well bracketed, in one pass.
pub fn is_well_bracketed(sequence: &Vec<TurtleStep>) -> (good: bool)
    ensures
        good == well_bracketed(sequence@),
{
    let mut depth: usize = 0;
    let mut i: usize = 0;
    assert(sequence@.take(0) =~= Seq::empty());
    while i < sequence.len()
        invariant
            i <= sequence.len(),
            depth <= i,
            depth == net_depth(sequence@.take(i as int)),
            well_bracketed(sequence@.take(i as int)),
        decreases sequence.len() - i,
    {
        let step = sequence[i];
        let ghost seen = sequence@.take(i as int);
        let ghost now = sequence@.take(i + 1);
        proof {
            assert(now =~= seen.push(step));
            lemma_net_depth_push(seen, step);
        }
        match step {
            TurtleStep::Push => {
                depth += 1;
            },
            TurtleStep::Pop => {
                if depth == 0 {
                    assert(net_depth(sequence@.take(i + 1)) < 0);
                    return false;
                }
                depth -= 1;
            },
            TurtleStep::Reset => {
                assert(sequence@[i as int] is Reset);
                return false;
            },
            _ => {},
        }
        proof {
            lemma_well_bracketed_push(seen, step);
        }
        i += 1;
    }
    assert(sequence@.take(sequence.len() as int) =~= sequence@);
    true
}

} // verus!
