use lsystem::grammar::ParseError;
use lsystem::koch::Koch;
use lsystem::rules::RuleSet;
use lsystem::TurtleStep;
use std::f32::consts::FRAC_PI_2;

fn sample(n: usize) -> Koch {
    Koch::from("test", "F", "F => F+F-", n, FRAC_PI_2.to_bits()).unwrap()
}

#[test]
fn constructor() {
    let koch = Koch::from("test", "F", "F => F+F-", 0, FRAC_PI_2.to_bits()).unwrap();
    assert_eq!(koch.initial_state(), &vec![TurtleStep::Forward('F')]);
    let mut expected = RuleSet::new();
    expected.insert(
        TurtleStep::Forward('F'),
        vec![
            TurtleStep::Forward('F'),
            TurtleStep::TurnLeft,
            TurtleStep::Forward('F'),
            TurtleStep::TurnRight,
        ],
    );
    assert_eq!(koch.rewrite_rules(), &expected);
}

#[test]
fn dragon() {
    let dragon = Koch::dragon();
    assert_eq!(dragon.initial_state(), &vec![TurtleStep::Forward('L')]);
}

#[test]
fn quad_gosper() {
    let quad_gosper = Koch::quad_gosper();
    assert_eq!(
        quad_gosper.initial_state(),
        &vec![TurtleStep::TurnRight, TurtleStep::Forward('R')]
    );
}

#[test]
fn step() {
    let mut koch = Koch::from("test", "F", "F => F+F-", 0, FRAC_PI_2.to_bits()).unwrap();
    koch.next_iteration();
    assert_eq!(
        koch.state(),
        &vec![
            TurtleStep::Forward('F'),
            TurtleStep::TurnLeft,
            TurtleStep::Forward('F'),
            TurtleStep::TurnRight
        ]
    );
    koch.next_iteration();
    assert_eq!(
        koch.state(),
        &vec![
            TurtleStep::Forward('F'),
            TurtleStep::TurnLeft,
            TurtleStep::Forward('F'),
            TurtleStep::TurnRight,
            TurtleStep::TurnLeft,
            TurtleStep::Forward('F'),
            TurtleStep::TurnLeft,
            TurtleStep::Forward('F'),
            TurtleStep::TurnRight,
            TurtleStep::TurnRight,
        ]
    );
}

#[test]
fn zero_generations_keep_the_axiom() {
    let koch = sample(0);
    assert_eq!(koch.state(), &vec![TurtleStep::Forward('F')]);
    assert_eq!(koch.cursor(), 0);
    assert_eq!(koch.generations(), 0);
}

#[test]
fn one_generation() {
    let koch = sample(1);
    assert_eq!(
        koch.state(),
        &vec![
            TurtleStep::Forward('F'),
            TurtleStep::TurnLeft,
            TurtleStep::Forward('F'),
            TurtleStep::TurnRight,
        ]
    );
    assert_eq!(koch.state().len(), 4);
}

#[test]
fn two_generations() {
    let koch = sample(2);
    assert_eq!(koch.state().len(), 10);
    assert_eq!(
        koch.state(),
        &vec![
            TurtleStep::Forward('F'),
            TurtleStep::TurnLeft,
            TurtleStep::Forward('F'),
            TurtleStep::TurnRight,
            TurtleStep::TurnLeft,
            TurtleStep::Forward('F'),
            TurtleStep::TurnLeft,
            TurtleStep::Forward('F'),
            TurtleStep::TurnRight,
            TurtleStep::TurnRight,
        ]
    );
}

#[test]
fn dragon_curve_doubles_its_segments() {
    let koch = Koch::from("dragon", "L", "L => L+R+\nR => -L-R", 10, FRAC_PI_2.to_bits()).unwrap();
    let forwards = koch
        .state()
        .iter()
        .filter(|s| matches!(s, TurtleStep::Forward(_)))
        .count();
    assert_eq!(forwards, 1024);
    assert_eq!(koch.state().len(), 3070);
}

#[test]
fn construction_is_deterministic() {
    let a = Koch::from("k", "F-F", "F => F[+F]f\nf => ff", 5, 7).unwrap();
    let b = Koch::from("k", "F-F", "F => F[+F]f\nf => ff", 5, 7).unwrap();
    assert_eq!(a.state(), b.state());
    assert_eq!(a, b);
}

#[test]
fn construction_keeps_name_and_angle() {
    let koch = sample(3);
    assert_eq!(koch.get_name(), "test");
    assert_eq!(koch.get_delta(), FRAC_PI_2.to_bits());
    assert_eq!(f32::from_bits(koch.get_delta()), FRAC_PI_2);
    assert_eq!(koch.generations(), 3);
}

#[test]
fn construction_rewrites_from_the_previous_generation() {
    let built = sample(4);
    let mut stepped = sample(0);
    for _ in 0..4 {
        stepped.next_iteration();
    }
    assert_eq!(built.state(), stepped.state());
    assert_eq!(built.state().len(), 46);
}

#[test]
fn construction_fails_on_a_bad_axiom() {
    let koch = Koch::from("bad", "Fx", "F => F", 1, 0);
    assert_eq!(koch.err(), Some(ParseError::UnknownToken));
}

#[test]
fn construction_fails_on_a_missing_replacement() {
    let koch = Koch::from("bad", "F", "F => ", 1, 0);
    assert_eq!(koch.err(), Some(ParseError::UnterminatedRule));
}

#[test]
fn construction_reports_the_axiom_first() {
    let koch = Koch::from("bad", "a", "FF => F", 1, 0);
    assert_eq!(koch.err(), Some(ParseError::UnknownToken));
    let koch = Koch::from("bad", "F", "FF => F", 1, 0);
    assert_eq!(koch.err(), Some(ParseError::MalformedPredecessor));
}

#[test]
fn next_step_walks_the_sequence_in_order() {
    let mut koch = sample(1);
    assert_eq!(koch.upcoming(), TurtleStep::Forward('F'));
    assert_eq!(koch.next_step(), TurtleStep::Forward('F'));
    assert_eq!(koch.cursor(), 1);
    assert_eq!(koch.next_step(), TurtleStep::TurnLeft);
    assert_eq!(koch.next_step(), TurtleStep::Forward('F'));
    assert_eq!(koch.next_step(), TurtleStep::TurnRight);
    assert_eq!(koch.cursor(), 4);
}

#[test]
fn cursor_wraps_around() {
    let mut koch = sample(2);
    let len = koch.state().len();
    for i in 0..len {
        let expected = koch.state()[i];
        assert_eq!(koch.next_step(), expected);
    }
    assert_eq!(koch.cursor(), len);
    assert_eq!(koch.upcoming(), TurtleStep::Reset);
    assert_eq!(koch.next_step(), TurtleStep::Reset);
    assert_eq!(koch.cursor(), 0);
    assert_eq!(koch.next_step(), TurtleStep::Forward('F'));
}

#[test]
fn empty_sequence_only_resets() {
    let mut koch = Koch::from("empty", "", "F => FF", 3, 0).unwrap();
    assert_eq!(koch.state().len(), 0);
    assert_eq!(koch.next_step(), TurtleStep::Reset);
    assert_eq!(koch.cursor(), 0);
    assert_eq!(koch.next_step(), TurtleStep::Reset);
}

#[test]
fn next_iteration_returns_the_cursor() {
    let mut koch = sample(1);
    koch.next_step();
    koch.next_step();
    assert_eq!(koch.cursor(), 2);
    koch.next_iteration();
    assert_eq!(koch.cursor(), 0);
    assert_eq!(koch.state().len(), 10);
    assert_eq!(koch.initial_state(), &vec![TurtleStep::Forward('F')]);
}

#[test]
fn a_clone_holds_the_same_values() {
    let mut koch = sample(2);
    koch.next_step();
    let copy = koch.clone();
    assert_eq!(copy, koch);
    assert_eq!(copy.cursor(), 1);
}
