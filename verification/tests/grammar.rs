use lsystem::grammar::{parse_rewrite_rules, parse_step, parse_steps, ParseError};
use lsystem::rules::RuleSet;
use lsystem::TurtleStep;

#[test]
fn every_character_of_the_alphabet() {
    assert_eq!(parse_step('F'), Ok(TurtleStep::Forward('F')));
    assert_eq!(parse_step('A'), Ok(TurtleStep::Forward('A')));
    assert_eq!(parse_step('Z'), Ok(TurtleStep::Forward('Z')));
    assert_eq!(parse_step('X'), Ok(TurtleStep::Forward('X')));
    assert_eq!(parse_step('f'), Ok(TurtleStep::ForwardNoLine));
    assert_eq!(parse_step('+'), Ok(TurtleStep::TurnLeft));
    assert_eq!(parse_step('-'), Ok(TurtleStep::TurnRight));
    assert_eq!(parse_step('['), Ok(TurtleStep::Push));
    assert_eq!(parse_step(']'), Ok(TurtleStep::Pop));
}

#[test]
fn characters_outside_the_alphabet() {
    for c in ['a', 'g', 'z', '@', '`', '{', ' ', '\n', '=', '>', '0', '*', 'é', 'Ω'] {
        assert_eq!(parse_step(c), Err(ParseError::UnknownToken));
    }
}

#[test]
fn forward_letters_are_distinct_symbols() {
    assert_ne!(parse_step('F'), parse_step('G'));
    assert_ne!(TurtleStep::Forward('F'), TurtleStep::Node('F'));
}

#[test]
fn a_sequence_is_read_in_order() {
    assert_eq!(
        parse_steps("-F[+f]R"),
        Ok(vec![
            TurtleStep::TurnRight,
            TurtleStep::Forward('F'),
            TurtleStep::Push,
            TurtleStep::TurnLeft,
            TurtleStep::ForwardNoLine,
            TurtleStep::Pop,
            TurtleStep::Forward('R'),
        ])
    );
}

#[test]
fn the_empty_sequence() {
    assert_eq!(parse_steps(""), Ok(vec![]));
}

#[test]
fn a_sequence_is_not_trimmed() {
    assert_eq!(parse_steps(" F"), Err(ParseError::UnknownToken));
    assert_eq!(parse_steps("F "), Err(ParseError::UnknownToken));
    assert_eq!(parse_steps("F F"), Err(ParseError::UnknownToken));
    assert_eq!(parse_steps("F\n"), Err(ParseError::UnknownToken));
}

#[test]
fn an_unknown_character_fails_the_sequence() {
    assert_eq!(parse_steps("FF+x-F"), Err(ParseError::UnknownToken));
    assert_eq!(parse_steps("F=>F"), Err(ParseError::UnknownToken));
    assert_eq!(parse_steps("Fé"), Err(ParseError::UnknownToken));
}

fn rules_of(pairs: Vec<(TurtleStep, Vec<TurtleStep>)>) -> RuleSet {
    let mut rules = RuleSet::new();
    for (from, to) in pairs {
        rules.insert(from, to);
    }
    rules
}

#[test]
fn one_rule() {
    let rules = parse_rewrite_rules("F => F+F-").unwrap();
    let expected = rules_of(vec![(
        TurtleStep::Forward('F'),
        vec![
            TurtleStep::Forward('F'),
            TurtleStep::TurnLeft,
            TurtleStep::Forward('F'),
            TurtleStep::TurnRight,
        ],
    )]);
    assert_eq!(rules, expected);
    assert!(rules.contains(&TurtleStep::Forward('F')));
    assert!(!rules.contains(&TurtleStep::Forward('G')));
    assert!(!rules.contains(&TurtleStep::ForwardNoLine));
}

#[test]
fn two_rules_on_two_lines() {
    let rules = parse_rewrite_rules("L => L+R+\nR => -L-R").unwrap();
    let expected = rules_of(vec![
        (
            TurtleStep::Forward('L'),
            vec![
                TurtleStep::Forward('L'),
                TurtleStep::TurnLeft,
                TurtleStep::Forward('R'),
                TurtleStep::TurnLeft,
            ],
        ),
        (
            TurtleStep::Forward('R'),
            vec![
                TurtleStep::TurnRight,
                TurtleStep::Forward('L'),
                TurtleStep::TurnRight,
                TurtleStep::Forward('R'),
            ],
        ),
    ]);
    assert_eq!(rules, expected);
}

#[test]
fn a_rule_for_the_move_without_line() {
    let rules = parse_rewrite_rules("f => ff").unwrap();
    assert_eq!(
        rules.get(&TurtleStep::ForwardNoLine),
        Some(&vec![TurtleStep::ForwardNoLine, TurtleStep::ForwardNoLine])
    );
    assert_eq!(rules.get(&TurtleStep::Forward('F')), None);
}

#[test]
fn nested_brackets_on_the_right() {
    let rules = parse_rewrite_rules("X => F-[[X]+X]").unwrap();
    assert_eq!(
        rules.get(&TurtleStep::Forward('X')),
        Some(&vec![
            TurtleStep::Forward('F'),
            TurtleStep::TurnRight,
            TurtleStep::Push,
            TurtleStep::Push,
            TurtleStep::Forward('X'),
            TurtleStep::Pop,
            TurtleStep::TurnLeft,
            TurtleStep::Forward('X'),
            TurtleStep::Pop,
        ])
    );
}

#[test]
fn blank_lines_and_blanks_around_a_rule() {
    let plain = parse_rewrite_rules("F => FF\nX => F").unwrap();
    let spaced = parse_rewrite_rules("\n  F => FF  \r\n\n\t X=>F\t\n   \n").unwrap();
    assert_eq!(plain, spaced);
    let tight = parse_rewrite_rules("F=>FF\nX   =>     F").unwrap();
    assert_eq!(plain, tight);
}

#[test]
fn no_rules_at_all() {
    assert_eq!(parse_rewrite_rules(""), Ok(RuleSet::new()));
    assert_eq!(parse_rewrite_rules("\n\n  \n"), Ok(RuleSet::new()));
}

#[test]
fn the_last_rule_for_a_letter_counts() {
    let rules = parse_rewrite_rules("F => FF\nF => F+").unwrap();
    assert_eq!(
        rules.get(&TurtleStep::Forward('F')),
        Some(&vec![TurtleStep::Forward('F'), TurtleStep::TurnLeft])
    );
    assert_eq!(rules, parse_rewrite_rules("F => F+").unwrap());
}

#[test]
fn a_missing_replacement_is_unterminated() {
    assert_eq!(parse_rewrite_rules("F => "), Err(ParseError::UnterminatedRule));
    assert_eq!(parse_rewrite_rules("F =>"), Err(ParseError::UnterminatedRule));
    assert_eq!(parse_rewrite_rules("F => FF\nX =>\n"), Err(ParseError::UnterminatedRule));
}

#[test]
fn a_missing_arrow_is_unterminated() {
    assert_eq!(parse_rewrite_rules("F"), Err(ParseError::UnterminatedRule));
    assert_eq!(parse_rewrite_rules("F FF"), Err(ParseError::UnterminatedRule));
    assert_eq!(parse_rewrite_rules("F = > FF"), Err(ParseError::UnterminatedRule));
    assert_eq!(parse_rewrite_rules("F -> FF"), Err(ParseError::UnterminatedRule));
    assert_eq!(parse_rewrite_rules("hello"), Err(ParseError::UnterminatedRule));
}

#[test]
fn the_left_side_must_be_one_letter() {
    assert_eq!(parse_rewrite_rules("FF => F"), Err(ParseError::MalformedPredecessor));
    assert_eq!(parse_rewrite_rules(" => F"), Err(ParseError::MalformedPredecessor));
    assert_eq!(parse_rewrite_rules("=> F"), Err(ParseError::MalformedPredecessor));
    assert_eq!(parse_rewrite_rules("+ => F"), Err(ParseError::MalformedPredecessor));
    assert_eq!(parse_rewrite_rules("[ => F"), Err(ParseError::MalformedPredecessor));
    assert_eq!(parse_rewrite_rules("F+ => F"), Err(ParseError::MalformedPredecessor));
}

#[test]
fn the_left_side_is_checked_before_the_right() {
    assert_eq!(parse_rewrite_rules("FF => "), Err(ParseError::MalformedPredecessor));
    assert_eq!(parse_rewrite_rules("FF => x"), Err(ParseError::MalformedPredecessor));
    assert_eq!(parse_rewrite_rules("x => "), Err(ParseError::UnknownToken));
}

#[test]
fn unknown_characters_in_a_rule() {
    assert_eq!(parse_rewrite_rules("a => F"), Err(ParseError::UnknownToken));
    assert_eq!(parse_rewrite_rules("F => Fx"), Err(ParseError::UnknownToken));
    assert_eq!(parse_rewrite_rules("F => F F"), Err(ParseError::UnknownToken));
    assert_eq!(parse_rewrite_rules("F F => F"), Err(ParseError::UnknownToken));
    assert_eq!(parse_rewrite_rules("F => F => F"), Err(ParseError::UnknownToken));
}

#[test]
fn the_first_line_in_error_decides() {
    assert_eq!(
        parse_rewrite_rules("F => FF\nFF => F\nX =>"),
        Err(ParseError::MalformedPredecessor)
    );
    assert_eq!(
        parse_rewrite_rules("F => FF\nX =>\nFF => F"),
        Err(ParseError::UnterminatedRule)
    );
    assert_eq!(
        parse_rewrite_rules("F => F?\nX =>\nFF => F"),
        Err(ParseError::UnknownToken)
    );
}
