use lsystem::koch::Koch;
use lsystem::turtle::{Moves, Turtle};
use lsystem::TurtleStep;

type Point = (i32, i32);

// A host on the integer grid: the heading counts quarter turns.
fn moves(turtle: &Turtle<Point, i32>) -> Moves<Point, i32> {
    let (x, y) = turtle.position();
    let heading = turtle.heading();
    let ahead = match heading.rem_euclid(4) {
        0 => (x + 1, y),
        1 => (x, y + 1),
        2 => (x - 1, y),
        _ => (x, y - 1),
    };
    Moves { ahead, left: heading + 1, right: heading - 1 }
}

fn turtle_for(sequence: &str) -> Turtle<Point, i32> {
    let koch = Koch::from("t", sequence, "", 0, 0).unwrap();
    Turtle::new((0, 0), 0, koch)
}

fn tick(turtle: &mut Turtle<Point, i32>) -> Option<(Point, Point)> {
    assert!(turtle.can_update());
    let m = moves(turtle);
    turtle.update(m)
}

#[test]
fn a_new_turtle() {
    let turtle = turtle_for("F");
    assert_eq!(turtle.position(), (0, 0));
    assert_eq!(turtle.heading(), 0);
    assert_eq!(turtle.saved_frames(), 0);
    assert!(turtle.recorded().is_empty());
    assert_eq!(turtle.koch().get_name(), "t");
    assert_eq!(turtle.get_delta(), 0);
}

#[test]
fn forward_moves_and_draws() {
    let mut turtle = turtle_for("FF");
    assert_eq!(tick(&mut turtle), Some(((0, 0), (1, 0))));
    assert_eq!(tick(&mut turtle), Some(((1, 0), (2, 0))));
    assert_eq!(turtle.position(), (2, 0));
    assert_eq!(turtle.heading(), 0);
    assert_eq!(
        turtle.recorded(),
        &vec![(TurtleStep::Forward('F'), (1, 0)), (TurtleStep::Forward('F'), (2, 0))]
    );
}

#[test]
fn forward_without_line_moves_and_draws_nothing() {
    let mut turtle = turtle_for("fF");
    assert_eq!(tick(&mut turtle), None);
    assert_eq!(turtle.position(), (1, 0));
    assert_eq!(tick(&mut turtle), Some(((1, 0), (2, 0))));
    assert_eq!(turtle.recorded_lines((0, 0)), vec![((1, 0), (2, 0))]);
}

#[test]
fn turns_change_the_heading_only() {
    let mut turtle = turtle_for("+F--F");
    assert_eq!(tick(&mut turtle), None);
    assert_eq!(turtle.heading(), 1);
    assert_eq!(turtle.position(), (0, 0));
    assert_eq!(tick(&mut turtle), Some(((0, 0), (0, 1))));
    assert_eq!(tick(&mut turtle), None);
    assert_eq!(tick(&mut turtle), None);
    assert_eq!(turtle.heading(), -1);
    assert_eq!(tick(&mut turtle), Some(((0, 1), (0, 0))));
    assert_eq!(turtle.position(), (0, 0));
}

#[test]
fn push_and_pop_save_and_restore_the_pose() {
    let mut turtle = turtle_for("F[+F]F");
    tick(&mut turtle);
    tick(&mut turtle);
    assert_eq!(turtle.saved_frames(), 1);
    tick(&mut turtle);
    tick(&mut turtle);
    assert_eq!(turtle.position(), (1, 1));
    assert_eq!(turtle.heading(), 1);
    assert_eq!(tick(&mut turtle), None);
    assert_eq!(turtle.saved_frames(), 0);
    assert_eq!(turtle.position(), (1, 0));
    assert_eq!(turtle.heading(), 0);
    assert_eq!(tick(&mut turtle), Some(((1, 0), (2, 0))));
    assert_eq!(
        turtle.recorded(),
        &vec![
            (TurtleStep::Forward('F'), (1, 0)),
            (TurtleStep::Push, (1, 0)),
            (TurtleStep::TurnLeft, (1, 0)),
            (TurtleStep::Forward('F'), (1, 1)),
            (TurtleStep::Pop, (1, 0)),
            (TurtleStep::Forward('F'), (2, 0)),
        ]
    );
    assert_eq!(
        turtle.recorded_lines((0, 0)),
        vec![((0, 0), (1, 0)), ((1, 0), (1, 1)), ((1, 0), (2, 0))]
    );
}

#[test]
fn a_pop_of_the_base_frame_is_refused() {
    let mut turtle = turtle_for("]");
    assert!(!turtle.can_update());
    let mut turtle = turtle_for("[]]");
    tick(&mut turtle);
    tick(&mut turtle);
    assert_eq!(turtle.saved_frames(), 0);
    assert!(!turtle.can_update());
}

#[test]
fn the_end_of_the_sequence_resets() {
    let mut turtle = turtle_for("F[+F");
    for _ in 0..4 {
        tick(&mut turtle);
    }
    assert_eq!(turtle.saved_frames(), 1);
    assert_eq!(turtle.recorded().len(), 4);
    assert_eq!(tick(&mut turtle), None);
    assert_eq!(turtle.saved_frames(), 0);
    assert_eq!(turtle.position(), (1, 1));
    assert_eq!(turtle.heading(), 1);
    assert_eq!(turtle.recorded(), &vec![(TurtleStep::Reset, (1, 1))]);
    assert_eq!(turtle.koch().cursor(), 0);
    assert_eq!(tick(&mut turtle), Some(((1, 1), (1, 2))));
}

#[test]
fn reset_clears_history() {
    let mut turtle = turtle_for("F[+F[F");
    for _ in 0..6 {
        tick(&mut turtle);
    }
    assert_eq!(turtle.saved_frames(), 2);
    assert_eq!(turtle.recorded().len(), 6);
    let position = turtle.position();
    let heading = turtle.heading();
    turtle.reset();
    assert!(turtle.recorded().is_empty());
    assert_eq!(turtle.saved_frames(), 0);
    assert_eq!(turtle.position(), position);
    assert_eq!(turtle.heading(), heading);
    // The single frame is the pose at the reset: a push and a pop return to it.
    let mut turtle = turtle_for("[F]");
    turtle.reset();
    tick(&mut turtle);
    tick(&mut turtle);
    tick(&mut turtle);
    assert_eq!(turtle.position(), (0, 0));
}

#[test]
fn a_balanced_sequence_leaves_one_frame() {
    let koch = Koch::tree_f();
    let len = koch.state().len();
    assert_eq!(len, 6263);
    let mut turtle: Turtle<Point, i32> = Turtle::new((0, 0), 0, koch);
    let mut deepest = 0;
    for _ in 0..len {
        tick(&mut turtle);
        deepest = deepest.max(turtle.saved_frames());
    }
    assert!(deepest > 0);
    assert_eq!(turtle.saved_frames(), 0);
    assert_eq!(turtle.recorded().len(), len);
    assert_eq!(turtle.koch().upcoming(), TurtleStep::Reset);
}

#[test]
fn the_record_grows_by_one_step_a_tick() {
    let mut turtle = turtle_for("F+F-[f]");
    for n in 1..=7 {
        tick(&mut turtle);
        assert_eq!(turtle.recorded().len(), n);
    }
    tick(&mut turtle);
    assert_eq!(turtle.recorded().len(), 1);
}

#[test]
fn lines_of_a_record_start_where_asked() {
    let mut turtle = turtle_for("FfF");
    for _ in 0..3 {
        tick(&mut turtle);
    }
    assert_eq!(
        turtle.recorded_lines((9, 9)),
        vec![((9, 9), (1, 0)), ((2, 0), (3, 0))]
    );
    let empty = turtle_for("");
    assert_eq!(empty.recorded_lines((9, 9)), vec![]);
}

#[test]
fn switching_systems_starts_afresh() {
    let mut turtle = turtle_for("F[+F");
    for _ in 0..4 {
        tick(&mut turtle);
    }
    let next = Koch::from("next", "-F", "", 0, 5).unwrap();
    turtle.set_koch(next, (3, 4), 2);
    assert_eq!(turtle.position(), (3, 4));
    assert_eq!(turtle.heading(), 2);
    assert_eq!(turtle.saved_frames(), 0);
    assert!(turtle.recorded().is_empty());
    assert_eq!(turtle.koch().get_name(), "next");
    assert_eq!(turtle.get_delta(), 5);
    assert_eq!(tick(&mut turtle), None);
    assert_eq!(turtle.heading(), 1);
    assert_eq!(tick(&mut turtle), Some(((3, 4), (3, 5))));
}

#[test]
fn symbols_that_move_and_draw() {
    assert!(TurtleStep::Forward('F').moves());
    assert!(TurtleStep::Forward('F').draws());
    assert!(TurtleStep::ForwardNoLine.moves());
    assert!(!TurtleStep::ForwardNoLine.draws());
    for step in [
        TurtleStep::TurnLeft,
        TurtleStep::TurnRight,
        TurtleStep::Push,
        TurtleStep::Pop,
        TurtleStep::Reset,
        TurtleStep::Node('N'),
    ] {
        assert!(!step.moves());
        assert!(!step.draws());
    }
}
