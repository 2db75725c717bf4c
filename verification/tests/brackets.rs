use lsystem::brackets::is_well_bracketed;
use lsystem::catalog::KochModel;
use lsystem::grammar::parse_steps;
use lsystem::koch::Koch;
use lsystem::turtle::{Moves, Turtle};
use lsystem::TurtleStep;

fn good(text: &str) -> bool {
    is_well_bracketed(&parse_steps(text).unwrap())
}

#[test]
fn sequences_without_brackets_are_well_bracketed() {
    assert!(good(""));
    assert!(good("F"));
    assert!(good("F+F-f"));
}

#[test]
fn nested_and_open_brackets_are_well_bracketed() {
    assert!(good("[]"));
    assert!(good("F[+F]F[-F]F"));
    assert!(good("F-[[X]+X]+F[+FX]-X"));
    assert!(good("[[F"));
    assert!(good("[F][F]["));
}

#[test]
fn a_pop_before_its_push_is_not_well_bracketed() {
    assert!(!good("]"));
    assert!(!good("]["));
    assert!(!good("F]"));
    assert!(!good("[F]]"));
    assert!(!good("[]][[]"));
}

#[test]
fn a_reset_in_a_sequence_is_not_well_bracketed() {
    assert!(!is_well_bracketed(&vec![TurtleStep::Reset]));
    assert!(!is_well_bracketed(&vec![
        TurtleStep::Push,
        TurtleStep::Reset,
        TurtleStep::Pop
    ]));
    assert!(is_well_bracketed(&vec![
        TurtleStep::Push,
        TurtleStep::Node('n'),
        TurtleStep::Pop
    ]));
}

#[test]
fn every_built_in_system_is_well_bracketed() {
    for i in 0..19 {
        let model = KochModel::from_index(i).unwrap();
        assert!(Koch::model(model).is_well_bracketed());
    }
}

#[test]
fn rewriting_can_break_brackets_when_a_rule_does() {
    let koch = Koch::from("open", "F", "F => ]F[", 1, 0).unwrap();
    assert!(!koch.is_well_bracketed());
    let koch = Koch::from("open", "F", "F => [F", 3, 0).unwrap();
    assert!(koch.is_well_bracketed());
    let koch = Koch::from("closed", "[F]", "F => F[+F]F", 4, 0).unwrap();
    assert!(koch.is_well_bracketed());
}

#[test]
fn a_well_bracketed_system_can_be_drawn_for_ever() {
    let koch = Koch::tree_a();
    let len = koch.state().len();
    let mut turtle: Turtle<u32, u32> = Turtle::new(0, 0, koch);
    for tick in 0..3 * (len + 1) {
        assert!(turtle.can_update());
        let at = turtle.position();
        turtle.update(Moves { ahead: at + 1, left: 0, right: 0 });
        if tick % (len + 1) == len {
            assert_eq!(turtle.saved_frames(), 0);
            assert_eq!(turtle.recorded().len(), 1);
        }
    }
}
