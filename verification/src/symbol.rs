//! The alphabet of turtle instructions.

use vstd::prelude::*;

verus! {

/// One instruction for the turtle.
///
/// Two steps are equal exactly when they are the same variant with the same
/// letter, so `Forward('F')` and `Forward('G')` are different rule keys.
#[derive(Debug, Clone, Copy, Hash, Eq, PartialEq, Structural)]
pub enum TurtleStep {
    /// Move one step ahead and draw the line travelled; the letter names the
    /// symbol in the grammar.
    Forward(char),
    /// Move one step ahead without drawing.
    ForwardNoLine,
    /// Turn left by the system's angle.
    TurnLeft,
    /// Turn right by the system's angle.
    TurnRight,
    /// Save the current pose.
    Push,
    /// Return to the pose saved last.
    Pop,
    /// Start over: emitted when a sequence has been walked to its end.
    Reset,
    /// An inert marker that the turtle ignores.
    Node(char),
}

impl TurtleStep {
    /// Whether the turtle changes place on this step.
    pub open spec fn spec_moves(&self) -> bool {
        self is Forward || self is ForwardNoLine
    }

    /// Whether the step leaves a visible line behind.
    pub open spec fn spec_draws(&self) -> bool {
        self is Forward
    }

    /// Whether the turtle changes place on this step.
    #[verifier::when_used_as_spec(spec_moves)]
    pub fn moves(&self) -> (b: bool)
        ensures
            b == self.spec_moves(),
    {
        match self {
            TurtleStep::Forward(_) => true,
            TurtleStep::ForwardNoLine => true,
            _ => false,
        }
    }

    /// Whether the step leaves a visible line behind.
    #[verifier::when_used_as_spec(spec_draws)]
    pub fn draws(&self) -> (b: bool)
        ensures
            b == self.spec_draws(),
    {
        match self {
            TurtleStep::Forward(_) => true,
            _ => false,
        }
    }
}

} // verus!
