//! The turtle: a state machine that is driven one symbol per tick and keeps
//! a position, a heading, a stack of saved poses and the list of steps taken
//! since the last reset.
//!
//! The turtle does no geometry of its own. Its position has type `X` and its
//! heading type `A`, both chosen by the host, which hands in on every tick
//! where one step ahead would lead and what the heading would be after a
//! turn to the left or to the right. Which of the three is used, if any, and
//! everything about the stack and the record, is decided here.

use crate::brackets::{lemma_net_depth_push, net_depth, occurrences, well_bracketed};
use crate::koch::{Koch, KochView};
use crate::symbol::TurtleStep;
use vstd::prelude::*;

verus! {

/// What the host computes for a tick, from the turtle's position and heading
/// before it.
#[derive(Debug)]
pub struct Moves<X, A> {
    /// The position one step ahead in the current heading.
    pub ahead: X,
    /// The heading after a turn to the left.
    pub left: A,
    /// The heading after a turn to the right.
    pub right: A,
}

/// The turtle as mathematical values.
pub struct TurtleView<X, A> {
    /// The current position.
    pub xy: X,
    /// The current heading.
    pub angle: A,
    /// The system that is being drawn, with its cursor.
    pub koch: KochView,
    /// The saved poses, the base frame first.
    pub stack: Seq<(X, A)>,
    /// Every step taken since the last reset, with the position after it.
    pub steps: Seq<(TurtleStep, X)>,
}

impl<X, A> TurtleView<X, A> {
    /// The stack is never empty.
    pub open spec fn wf(self) -> bool {
        self.stack.len() >= 1
    }

    /// A turtle as it is created: at the given pose, with that pose as its
    /// only frame and nothing recorded.
    pub open spec fn fresh(xy: X, angle: A, koch: KochView) -> TurtleView<X, A> {
        TurtleView { xy, angle, koch, stack: seq![(xy, angle)], steps: Seq::empty() }
    }

    /// Whether `step` may be applied: a `Pop` needs a frame above the base
    /// frame.
    pub open spec fn accepts(self, step: TurtleStep) -> bool {
        step is Pop ==> self.stack.len() >= 2
    }

    /// The turtle after a reset: all frames are dropped, the current pose
    /// becomes the only frame, and the record is cleared. The pose stays.
    pub open spec fn reset(self) -> TurtleView<X, A> {
        TurtleView { stack: seq![(self.xy, self.angle)], steps: Seq::empty(), ..self }
    }

    /// The turtle after `step` has been applied, before it is recorded.
    pub open spec fn apply(self, step: TurtleStep, moves: Moves<X, A>) -> TurtleView<X, A> {
        match step {
            TurtleStep::Forward(_) => TurtleView { xy: moves.ahead, ..self },
            TurtleStep::ForwardNoLine => TurtleView { xy: moves.ahead, ..self },
            TurtleStep::TurnLeft => TurtleView { angle: moves.left, ..self },
            TurtleStep::TurnRight => TurtleView { angle: moves.right, ..self },
            TurtleStep::Push => TurtleView {
                stack: self.stack.push((self.xy, self.angle)),
                ..self
            },
            TurtleStep::Pop => TurtleView {
                xy: self.stack.last().0,
                angle: self.stack.last().1,
                stack: self.stack.drop_last(),
                ..self
            },
            TurtleStep::Reset => self.reset(),
            TurtleStep::Node(_) => self,
        }
    }

    /// The turtle after `step` has been noted with the position reached.
    pub open spec fn record(self, step: TurtleStep) -> TurtleView<X, A> {
        TurtleView { steps: self.steps.push((step, self.xy)), ..self }
    }

    /// The position recorded last, or the current one while nothing is
    /// recorded: where a line drawn by the next step starts.
    pub open spec fn last_recorded(self) -> X {
        if self.steps.len() > 0 {
            self.steps.last().1
        } else {
            self.xy
        }
    }

    /// Whether a tick is allowed now.
    pub open spec fn can_tick(self) -> bool {
        self.accepts(self.koch.upcoming())
    }

    /// The turtle after one tick: the system hands out its next symbol, the
    /// symbol is applied, and the step is recorded.
    pub open spec fn tick(self, moves: Moves<X, A>) -> TurtleView<X, A> {
        let step = self.koch.upcoming();
        (TurtleView { koch: self.koch.advance(), ..self }).apply(step, moves).record(step)
    }

    /// The line that a tick gives the host to draw: from the position
    /// recorded last to the new one, and only for a `Forward`.
    pub open spec fn emitted(self, moves: Moves<X, A>) -> Option<(X, X)> {
        if self.koch.upcoming() is Forward {
            Some((self.last_recorded(), moves.ahead))
        } else {
            None
        }
    }

    /// The turtle after one tick for each entry of `moves`, in order.
    pub open spec fn run(self, moves: Seq<Moves<X, A>>) -> TurtleView<X, A>
        decreases moves.len(),
    {
        if moves.len() == 0 {
            self
        } else {
            self.run(moves.drop_last()).tick(moves.last())
        }
    }

    /// Whether the stack is as high as the brackets walked so far have made
    /// it: one frame, and one more for every `Push` not yet popped.
    pub open spec fn in_step(self) -> bool {
        &&& self.koch.cursor <= self.koch.sequence.len()
        &&& self.stack.len() == 1 + net_depth(self.koch.sequence.take(self.koch.cursor as int))
    }

    /// Whether every tick of `run(moves)` is allowed when its turn comes.
    pub open spec fn runs(self, moves: Seq<Moves<X, A>>) -> bool
        decreases moves.len(),
    {
        moves.len() == 0 || (self.runs(moves.drop_last()) && self.run(
            moves.drop_last(),
        ).can_tick())
    }
}

/// The lines of a record, in order: one for each `Forward`, from the position
/// recorded before it to the position recorded with it. The first entry of
/// the record has `start` before it.
pub open spec fn lines_of_record<X>(steps: Seq<(TurtleStep, X)>, start: X) -> Seq<(X, X)>
    decreases steps.len(),
{
    if steps.len() == 0 {
        Seq::empty()
    } else {
        let earlier = lines_of_record(steps.drop_last(), start);
        let from = if steps.len() == 1 {
            start
        } else {
            steps[steps.len() - 2].1
        };
        if steps.last().0 is Forward {
            earlier.push((from, steps.last().1))
        } else {
            earlier
        }
    }
}

/// A tick keeps the base frame: it never leaves the stack empty.
pub proof fn lemma_tick_keeps_base_frame<X, A>(turtle: TurtleView<X, A>, moves: Moves<X, A>)
    requires
        turtle.wf(),
        turtle.can_tick(),
    ensures
        turtle.tick(moves).wf(),
{
}

/// However long a turtle runs, its stack is never empty.
pub proof fn lemma_run_keeps_base_frame<X, A>(turtle: TurtleView<X, A>, moves: Seq<Moves<X, A>>)
    requires
        turtle.wf(),
        turtle.runs(moves),
    ensures
        turtle.run(moves).wf(),
    decreases moves.len(),
{
    if moves.len() > 0 {
        lemma_run_keeps_base_frame(turtle, moves.drop_last());
        lemma_tick_keeps_base_frame(turtle.run(moves.drop_last()), moves.last());
    }
}

/// The record is cleared by a `Reset` and by nothing else: after a tick it
/// holds that one step alone, or one step more than before.
pub proof fn lemma_record_grows_or_restarts<X, A>(turtle: TurtleView<X, A>, moves: Moves<X, A>)
    ensures
        turtle.koch.upcoming() is Reset ==> turtle.tick(moves).steps == seq![
            (TurtleStep::Reset, turtle.xy),
        ],
        !(turtle.koch.upcoming() is Reset) ==> turtle.tick(moves).steps.drop_last()
            == turtle.steps && turtle.tick(moves).steps.last().0 == turtle.koch.upcoming(),
{
    let step = turtle.koch.upcoming();
    let after = turtle.tick(moves);
    if step is Reset {
        assert(after.steps =~= seq![(TurtleStep::Reset, turtle.xy)]);
    } else {
        assert(after.steps.drop_last() =~= turtle.steps);
    }
}

/// The line that a tick hands out is the line that the record gains by it.
/// While nothing is recorded, a line starts where the turtle stands.
pub proof fn lemma_emitted_line_is_recorded<X, A>(
    turtle: TurtleView<X, A>,
    moves: Moves<X, A>,
    start: X,
)
    requires
        turtle.steps.len() == 0 ==> start == turtle.xy,
        !(turtle.koch.upcoming() is Reset),
    ensures
        lines_of_record(turtle.tick(moves).steps, start) == match turtle.emitted(moves) {
            Some(line) => lines_of_record(turtle.steps, start).push(line),
            None => lines_of_record(turtle.steps, start),
        },
{
    let after = turtle.tick(moves).steps;
    assert(after.drop_last() =~= turtle.steps);
}

/// Right after a reset nothing is recorded, and the stack holds exactly one
/// frame: the pose that the turtle had before the reset, and still has.
pub proof fn lemma_reset_clears_history<X, A>(turtle: TurtleView<X, A>)
    ensures
        turtle.reset().steps.len() == 0,
        turtle.reset().stack.len() == 1,
        turtle.reset().stack[0] == (turtle.xy, turtle.angle),
        turtle.reset().xy == turtle.xy,
        turtle.reset().angle == turtle.angle,
        turtle.reset().wf(),
{
}

/// Walking a sequence from its start with one frame on the stack: after
/// `moves.len()` ticks the cursor has moved that far, and the frames above
/// the base frame are at most the pushes seen less the pops seen.
pub proof fn lemma_frames_follow_brackets<X, A>(turtle: TurtleView<X, A>, moves: Seq<Moves<X, A>>)
    requires
        turtle.stack.len() == 1,
        turtle.koch.cursor == 0,
        moves.len() <= turtle.koch.sequence.len(),
        turtle.runs(moves),
    ensures
        turtle.run(moves).koch == (KochView { cursor: moves.len(), ..turtle.koch }),
        turtle.run(moves).stack.len() >= 1,
        turtle.run(moves).stack.len() - 1 <= net_depth(
            turtle.koch.sequence.take(moves.len() as int),
        ),
    decreases moves.len(),
{
    if moves.len() > 0 {
        let k = moves.len() as int;
        lemma_frames_follow_brackets(turtle, moves.drop_last());
        let seen = turtle.koch.sequence.take(k);
        assert(seen.drop_last() =~= turtle.koch.sequence.take(k - 1));
        assert(seen.last() == turtle.koch.sequence[k - 1]);
    }
}

/// Stack balance: where a sequence holds as many `Push` as `Pop`, walking all
/// of it from its start with one frame on the stack leaves exactly one frame,
/// and the next symbol handed out is the `Reset` that ends the walk.
pub proof fn lemma_balanced_replay_leaves_one_frame<X, A>(
    turtle: TurtleView<X, A>,
    moves: Seq<Moves<X, A>>,
)
    requires
        turtle.stack.len() == 1,
        turtle.koch.cursor == 0,
        moves.len() == turtle.koch.sequence.len(),
        turtle.runs(moves),
        occurrences(turtle.koch.sequence, TurtleStep::Push) == occurrences(
            turtle.koch.sequence,
            TurtleStep::Pop,
        ),
    ensures
        turtle.run(moves).stack.len() == 1,
        turtle.run(moves).koch.upcoming() == TurtleStep::Reset,
{
    lemma_frames_follow_brackets(turtle, moves);
    assert(turtle.koch.sequence.take(moves.len() as int) =~= turtle.koch.sequence);
}

/// A newly created turtle is in step with its sequence.
pub proof fn lemma_fresh_is_in_step<X, A>(xy: X, angle: A, koch: KochView)
    requires
        koch.cursor == 0,
    ensures
        TurtleView::fresh(xy, angle, koch).in_step(),
{
    assert(koch.sequence.take(0) =~= Seq::empty());
}

/// On a well-bracketed sequence a turtle that is in step may always tick,
/// and stays in step.
pub proof fn lemma_tick_stays_in_step<X, A>(turtle: TurtleView<X, A>, moves: Moves<X, A>)
    requires
        turtle.in_step(),
        well_bracketed(turtle.koch.sequence),
    ensures
        turtle.can_tick(),
        turtle.tick(moves).in_step(),
        turtle.tick(moves).koch.sequence == turtle.koch.sequence,
{
    let sequence = turtle.koch.sequence;
    let at = turtle.koch.cursor as int;
    if at < sequence.len() {
        let step = sequence[at];
        assert(sequence.take(at + 1) =~= sequence.take(at).push(step));
        lemma_net_depth_push(sequence.take(at), step);
    } else {
        assert(sequence.take(0) =~= Seq::empty());
    }
}

/// On a well-bracketed sequence a turtle that is in step never runs out of
/// frames to pop, however long it runs.
pub proof fn lemma_well_bracketed_runs_on<X, A>(turtle: TurtleView<X, A>, moves: Seq<Moves<X, A>>)
    requires
        turtle.in_step(),
        well_bracketed(turtle.koch.sequence),
    ensures
        turtle.runs(moves),
        turtle.run(moves).in_step(),
        turtle.run(moves).koch.sequence == turtle.koch.sequence,
    decreases moves.len(),
{
    if moves.len() > 0 {
        lemma_well_bracketed_runs_on(turtle, moves.drop_last());
        lemma_tick_stays_in_step(turtle.run(moves.drop_last()), moves.last());
    }
}

/// A turtle that draws one L-system.
#[derive(Debug)]
pub struct Turtle<X, A> {
    xy: X,
    angle: A,
    koch: Koch,
    /// The bottom frame of the stack, which is always there.
    base: (X, A),
    /// The frames above the base frame.
    saved: Vec<(X, A)>,
    steps: Vec<(TurtleStep, X)>,
}

impl<X, A> View for Turtle<X, A> {
    type V = TurtleView<X, A>;

    closed spec fn view(&self) -> TurtleView<X, A> {
        TurtleView {
            xy: self.xy,
            angle: self.angle,
            koch: self.koch@,
            stack: seq![self.base] + self.saved@,
            steps: self.steps@,
        }
    }
}

impl<X, A> Turtle<X, A> {
    /// The stack of a turtle is never empty.
    pub proof fn lemma_has_base_frame(&self)
        ensures
            self@.wf(),
    {
    }
}

impl<X: Copy, A: Copy> Turtle<X, A> {
    /// A turtle at the given pose, about to draw `koch`.
    pub fn new(xy: X, angle: A, koch: Koch) -> (turtle: Turtle<X, A>)
        ensures
            turtle@ == TurtleView::fresh(xy, angle, koch@),
            turtle@.wf(),
    {
        let turtle = Turtle {
            xy,
            angle,
            koch,
            base: (xy, angle),
            saved: Vec::new(),
            steps: Vec::new(),
        };
        assert(turtle@.stack =~= seq![(xy, angle)]);
        turtle
    }

    /// Switches to another system. Nothing of the old state is kept: the
    /// turtle is as if newly created at the given pose.
    pub fn set_koch(&mut self, koch: Koch, xy: X, angle: A)
        ensures
            final(self)@ == TurtleView::fresh(xy, angle, koch@),
            final(self)@.wf(),
    {
        *self = Turtle::new(xy, angle, koch);
    }

    /// The current position.
    pub fn position(&self) -> (xy: X)
        ensures
            xy == self@.xy,
    {
        self.xy
    }

    /// The current heading.
    pub fn heading(&self) -> (angle: A)
        ensures
            angle == self@.angle,
    {
        self.angle
    }

    /// The system that is being drawn.
    pub fn koch(&self) -> (koch: &Koch)
        ensures
            koch@ == self@.koch,
    {
        &self.koch
    }

    /// The turn angle of the system that is being drawn.
    pub fn get_delta(&self) -> (delta: u32)
        ensures
            delta == self@.koch.delta,
    {
        self.koch.get_delta()
    }

    /// The number of frames above the base frame: one less than the height
    /// of the stack.
    pub fn saved_frames(&self) -> (frames: usize)
        ensures
            frames + 1 == self@.stack.len(),
    {
        self.saved.len()
    }

    /// Every step taken since the last reset, with the position after it.
    pub fn recorded(&self) -> (steps: &Vec<(TurtleStep, X)>)
        ensures
            steps@ == self@.steps,
    {
        &self.steps
    }

    /// Whether `update` may be called now: it may unless the next symbol is
    /// a `Pop` and only the base frame is left.
    pub fn can_update(&self) -> (ok: bool)
        ensures
            ok == self@.can_tick(),
    {
        match self.koch.upcoming() {
            TurtleStep::Pop => self.saved.len() >= 1,
            _ => true,
        }
    }

    fn forward_no_line(&mut self, ahead: X)
        ensures
            final(self)@ == (TurtleView { xy: ahead, ..old(self)@ }),
    {
        self.xy = ahead;
    }

    fn turn_left(&mut self, left: A)
        ensures
            final(self)@ == (TurtleView { angle: left, ..old(self)@ }),
    {
        self.angle = left;
    }

    fn turn_right(&mut self, right: A)
        ensures
            final(self)@ == (TurtleView { angle: right, ..old(self)@ }),
    {
        self.angle = right;
    }

    fn push(&mut self)
        ensures
            final(self)@ == (TurtleView {
                stack: old(self)@.stack.push((old(self)@.xy, old(self)@.angle)),
                ..old(self)@
            }),
    {
        self.saved.push((self.xy, self.angle));
        assert(self@.stack =~= old(self)@.stack.push((old(self)@.xy, old(self)@.angle)));
    }

    fn pop(&mut self)
        requires
            old(self)@.stack.len() >= 2,
        ensures
            final(self)@ == (TurtleView {
                xy: old(self)@.stack.last().0,
                angle: old(self)@.stack.last().1,
                stack: old(self)@.stack.drop_last(),
                ..old(self)@
            }),
    {
        let (xy, angle) = self.saved[self.saved.len() - 1];
        self.saved.truncate(self.saved.len() - 1);
        self.xy = xy;
        self.angle = angle;
        assert(self@.stack =~= old(self)@.stack.drop_last());
    }

    /// Starts over where the turtle stands: every frame is dropped, the
    /// current pose becomes the only frame, and the record is cleared.
    pub fn reset(&mut self)
        ensures
            final(self)@ == old(self)@.reset(),
            final(self)@.steps.len() == 0,
            final(self)@.stack == seq![(old(self)@.xy, old(self)@.angle)],
            final(self)@.xy == old(self)@.xy,
            final(self)@.angle == old(self)@.angle,
            final(self)@.wf(),
    {
        self.base = (self.xy, self.angle);
        self.saved.clear();
        self.steps.clear();
        assert(self@.stack =~= seq![(old(self)@.xy, old(self)@.angle)]);
    }

    /// One tick: takes the next symbol of the system, applies it and records
    /// the step.
    ///
    /// `moves` is what the host computed from the pose before the tick. The
    /// result is the line to draw, if the step draws one.
    pub fn update(&mut self, moves: Moves<X, A>) -> (line: Option<(X, X)>)
        requires
            old(self)@.can_tick(),
        ensures
            final(self)@ == old(self)@.tick(moves),
            line == old(self)@.emitted(moves),
            final(self)@.wf(),
    {
        let from = if self.steps.len() > 0 {
            self.steps[self.steps.len() - 1].1
        } else {
            self.xy
        };
        let step = self.koch.next_step();
        match step {
            TurtleStep::Forward(_) => self.forward_no_line(moves.ahead),
            TurtleStep::ForwardNoLine => self.forward_no_line(moves.ahead),
            TurtleStep::TurnLeft => self.turn_left(moves.left),
            TurtleStep::TurnRight => self.turn_right(moves.right),
            TurtleStep::Push => self.push(),
            TurtleStep::Pop => self.pop(),
            TurtleStep::Reset => self.reset(),
            TurtleStep::Node(_) => {},
        }
        self.steps.push((step, self.xy));
        match step {
            TurtleStep::Forward(_) => Some((from, self.xy)),
            _ => None,
        }
    }

    /// The lines of the whole record, for drawing all of it again. `start`
    /// is where the line of a first recorded `Forward` begins.
    pub fn recorded_lines(&self, start: X) -> (lines: Vec<(X, X)>)
        ensures
            lines@ == lines_of_record(self@.steps, start),
    {
        let mut lines: Vec<(X, X)> = Vec::new();
        let mut from = start;
        let mut i: usize = 0;
        assert(self.steps@.take(0) =~= Seq::empty());
        while i < self.steps.len()
            invariant
                i <= self.steps.len(),
                lines@ == lines_of_record(self.steps@.take(i as int), start),
                from == if i == 0 {
                    start
                } else {
                    self.steps@[i - 1].1
                },
            decreases self.steps.len() - i,
        {
            let (step, to) = self.steps[i];
            proof {
                let now = self.steps@.take(i + 1);
                assert(now.drop_last() =~= self.steps@.take(i as int));
                assert(now.last() == self.steps@[i as int]);
            }
            if step.draws() {
                lines.push((from, to));
            }
            from = to;
            i += 1;
        }
        assert(self.steps@.take(self.steps.len() as int) =~= self.steps@);
        lines
    }
}

} // verus!
