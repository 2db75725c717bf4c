//! The textual grammar of axioms and production rules.
//!
//! A sequence of symbols is written as a bare string over the alphabet
//! `A`–`Z`, `f`, `+`, `-`, `[`, `]`. Rules are written one per line as
//! `<letter> => <sequence>`. Blank lines, and blanks around a line and around
//! either side of the arrow, are ignored; anything else outside the alphabet
//! is an error.

use crate::rewrite::Rules;
use crate::rules::RuleSet;
use crate::symbol::TurtleStep;
use vstd::prelude::*;

verus! {

/// Why a text was rejected.
#[derive(Debug, Clone, Copy, PartialEq, Eq, Structural)]
pub enum ParseError {
    /// A character that is not part of the alphabet.
    UnknownToken,
    /// The left-hand side of a rule is not exactly one letter.
    MalformedPredecessor,
    /// A rule without an arrow, or with nothing after it.
    UnterminatedRule,
}

/// The symbol that a character of the alphabet stands for.
pub open spec fn symbol_of(c: char) -> Option<TurtleStep> {
    if 'A' <= c && c <= 'Z' {
        Some(TurtleStep::Forward(c))
    } else if c == 'f' {
        Some(TurtleStep::ForwardNoLine)
    } else if c == '+' {
        Some(TurtleStep::TurnLeft)
    } else if c == '-' {
        Some(TurtleStep::TurnRight)
    } else if c == '[' {
        Some(TurtleStep::Push)
    } else if c == ']' {
        Some(TurtleStep::Pop)
    } else {
        None
    }
}

/// Whether every character of `text` belongs to the alphabet.
pub open spec fn all_known(text: Seq<char>) -> bool {
    forall|i: int| 0 <= i < text.len() ==> symbol_of(#[trigger] text[i]) is Some
}

/// The symbols that the characters of `text` stand for, one per character.
pub open spec fn symbols_of(text: Seq<char>) -> Seq<TurtleStep> {
    Seq::new(text.len(), |i: int| symbol_of(text[i]).unwrap())
}

/// What a bare sequence text means: its symbols, or `UnknownToken` as soon
/// as one character is outside the alphabet.
pub open spec fn steps_of_text(text: Seq<char>) -> Result<Seq<TurtleStep>, ParseError> {
    if all_known(text) {
        Ok(symbols_of(text))
    } else {
        Err(ParseError::UnknownToken)
    }
}

/// Blanks that may surround a rule and the two sides of its arrow.
pub open spec fn is_blank(c: char) -> bool {
    c == ' ' || c == '\t' || c == '\r'
}

/// `text` without its leading blanks.
pub open spec fn trim_start(text: Seq<char>) -> Seq<char>
    decreases text.len(),
{
    if text.len() > 0 && is_blank(text.first()) {
        trim_start(text.drop_first())
    } else {
        text
    }
}

/// `text` without its trailing blanks.
pub open spec fn trim_end(text: Seq<char>) -> Seq<char>
    decreases text.len(),
{
    if text.len() > 0 && is_blank(text.last()) {
        trim_end(text.drop_last())
    } else {
        text
    }
}

/// `text` without the blanks at either end.
pub open spec fn trim(text: Seq<char>) -> Seq<char> {
    trim_end(trim_start(text))
}

/// Whether the arrow `=>` starts at position `i` of `line`.
pub open spec fn arrow_at(line: Seq<char>, i: int) -> bool {
    0 <= i && i + 1 < line.len() && line[i] == '=' && line[i + 1] == '>'
}

/// Whether `line` holds an arrow.
pub open spec fn has_arrow(line: Seq<char>) -> bool {
    exists|i: int| arrow_at(line, i)
}

/// Whether `i` is where the first arrow of `line` starts.
pub open spec fn is_first_arrow(line: Seq<char>, i: int) -> bool {
    arrow_at(line, i) && forall|j: int| 0 <= j < i ==> !arrow_at(line, j)
}

/// Where the first arrow of `line` starts.
pub open spec fn first_arrow(line: Seq<char>) -> int {
    choose|i: int| is_first_arrow(line, i)
}

/// Whether a symbol may stand on the left of a rule: only letters may.
pub open spec fn is_letter(step: TurtleStep) -> bool {
    step is Forward || step is ForwardNoLine
}

/// What one line of a rule text means: nothing when it is blank, otherwise
/// the rule `from => to` that it states.
///
/// The line is read from left to right. Without an arrow it is
/// unterminated. The left-hand side must be a single letter; a character
/// outside the alphabet in it is reported as such. The right-hand side must
/// not be empty and must be a sequence text.
pub open spec fn rule_of_line(line: Seq<char>) -> Result<
    Option<(TurtleStep, Seq<TurtleStep>)>,
    ParseError,
> {
    let body = trim(line);
    if body.len() == 0 {
        Ok(None)
    } else if !has_arrow(body) {
        Err(ParseError::UnterminatedRule)
    } else {
        let at = first_arrow(body);
        let lhs = trim(body.take(at));
        let rhs = trim(body.skip(at + 2));
        if !all_known(lhs) {
            Err(ParseError::UnknownToken)
        } else if lhs.len() != 1 || !is_letter(symbol_of(lhs[0]).unwrap()) {
            Err(ParseError::MalformedPredecessor)
        } else if rhs.len() == 0 {
            Err(ParseError::UnterminatedRule)
        } else if !all_known(rhs) {
            Err(ParseError::UnknownToken)
        } else {
            Ok(Some((symbol_of(lhs[0]).unwrap(), symbols_of(rhs))))
        }
    }
}

/// The length of the first line of `text`: the number of characters before
/// its first newline, or all of them.
pub open spec fn line_len(text: Seq<char>) -> nat
    decreases text.len(),
{
    if text.len() == 0 || text.first() == '\n' {
        0
    } else {
        1 + line_len(text.drop_first())
    }
}

/// The lines of `text`, without their newlines. A text without a newline is
/// one line, so the empty text is one empty line.
pub open spec fn lines_of(text: Seq<char>) -> Seq<Seq<char>>
    decreases text.len(),
{
    let n = line_len(text) as int;
    if n >= text.len() {
        seq![text]
    } else {
        seq![text.take(n)] + lines_of(text.skip(n + 1))
    }
}

/// The rules that a list of lines states, read in order. A later rule for
/// the same letter replaces an earlier one; the first line in error gives
/// the error.
pub open spec fn rules_of_lines(lines: Seq<Seq<char>>) -> Result<Rules, ParseError>
    decreases lines.len(),
{
    if lines.len() == 0 {
        Ok(Map::empty())
    } else {
        match rules_of_lines(lines.drop_last()) {
            Err(e) => Err(e),
            Ok(rules) => match rule_of_line(lines.last()) {
                Err(e) => Err(e),
                Ok(None) => Ok(rules),
                Ok(Some((from, to))) => Ok(rules.insert(from, to)),
            },
        }
    }
}

/// What a rule text means: the rules of its lines.
pub open spec fn rules_of_text(text: Seq<char>) -> Result<Rules, ParseError> {
    rules_of_lines(lines_of(text))
}

/// Once a line is in error, lines after it change nothing.
pub proof fn lemma_first_error_wins(lines: Seq<Seq<char>>, more: Seq<Seq<char>>)
    requires
        rules_of_lines(lines) is Err,
    ensures
        rules_of_lines(lines + more) == rules_of_lines(lines),
    decreases more.len(),
{
    if more.len() == 0 {
        assert(lines + more =~= lines);
    } else {
        lemma_first_error_wins(lines, more.drop_last());
        assert((lines + more).drop_last() =~= lines + more.drop_last());
    }
}

/// A character of the alphabet is no blank, no newline and no part of an
/// arrow.
pub proof fn lemma_symbols_are_plain(c: char)
    requires
        symbol_of(c) is Some,
    ensures
        !is_blank(c),
        c != '\n',
        c != '=',
        c != '>',
{
}

/// Trimming leaves alone a text that neither starts nor ends with a blank.
pub proof fn lemma_trim_keeps_tight_text(text: Seq<char>)
    requires
        text.len() > 0 ==> !is_blank(text.first()) && !is_blank(text.last()),
    ensures
        trim(text) == text,
{
}

/// The first line ends at the first newline, or with the text.
pub proof fn lemma_line_ends_at_first_newline(text: Seq<char>, n: int)
    requires
        0 <= n <= text.len(),
        forall|i: int| 0 <= i < n ==> text[i] != '\n',
        n < text.len() ==> text[n] == '\n',
    ensures
        line_len(text) == n,
    decreases n,
{
    if n > 0 {
        let rest = text.drop_first();
        assert forall|i: int| 0 <= i < n - 1 implies rest[i] != '\n' by {
            assert(rest[i] == text[i + 1]);
        }
        lemma_line_ends_at_first_newline(rest, n - 1);
    }
}

/// Whether `line` is a rule in its plain form: a letter, the arrow with one
/// space on either side, and a sequence text that is not empty.
pub open spec fn is_plain_rule(line: Seq<char>) -> bool {
    &&& line.len() >= 6
    &&& symbol_of(line[0]) is Some
    &&& is_letter(symbol_of(line[0]).unwrap())
    &&& line[1] == ' '
    &&& line[2] == '='
    &&& line[3] == '>'
    &&& line[4] == ' '
    &&& all_known(line.skip(5))
}

/// A rule in plain form is read as the rule that it shows.
pub proof fn lemma_plain_rule_is_read(line: Seq<char>)
    requires
        is_plain_rule(line),
    ensures
        rule_of_line(line) == Ok::<Option<(TurtleStep, Seq<TurtleStep>)>, ParseError>(
            Some((symbol_of(line[0]).unwrap(), symbols_of(line.skip(5)))),
        ),
{
    let to = line.skip(5);
    assert(to[0] == line[5]);
    assert(to.last() == line.last());
    lemma_symbols_are_plain(line[0]);
    lemma_symbols_are_plain(to[0]);
    lemma_symbols_are_plain(to.last());
    lemma_trim_keeps_tight_text(line);
    lemma_trim_keeps_tight_text(to);
    assert(is_first_arrow(line, 2));
    assert(first_arrow(line) == 2) by {
        assert(is_first_arrow(line, first_arrow(line)));
    }
    let lhs = line.take(2);
    assert(lhs.drop_last() =~= seq![line[0]]);
    assert(trim_start(lhs) == lhs);
    assert(trim_end(lhs) == seq![line[0]]) by {
        reveal_with_fuel(trim_end, 2);
    }
    let after = line.skip(4);
    assert(after.drop_first() =~= to);
    assert(trim_start(after) == to) by {
        reveal_with_fuel(trim_start, 2);
    }
}

/// The letter on the left of a rule in plain form.
pub open spec fn plain_rule_from(line: Seq<char>) -> TurtleStep {
    symbol_of(line[0]).unwrap()
}

/// The sequence on the right of a rule in plain form.
pub open spec fn plain_rule_to(line: Seq<char>) -> Seq<TurtleStep> {
    symbols_of(line.skip(5))
}

/// A rule in plain form holds no newline.
pub proof fn lemma_plain_rule_is_one_line(line: Seq<char>)
    requires
        is_plain_rule(line),
    ensures
        forall|i: int| 0 <= i < line.len() ==> line[i] != '\n',
        line_len(line) == line.len(),
        lines_of(line) == seq![line],
{
    assert forall|i: int| 0 <= i < line.len() implies line[i] != '\n' by {
        if i >= 5 {
            assert(line.skip(5)[i - 5] == line[i]);
            lemma_symbols_are_plain(line[i]);
        } else if i == 0 {
            lemma_symbols_are_plain(line[0]);
        }
    }
    lemma_line_ends_at_first_newline(line, line.len() as int);
}

/// A text that is one rule in plain form states that rule and no other.
pub proof fn lemma_one_plain_rule(text: Seq<char>)
    requires
        is_plain_rule(text),
    ensures
        rules_of_text(text) == Ok::<Rules, ParseError>(
            Map::empty().insert(plain_rule_from(text), plain_rule_to(text)),
        ),
{
    lemma_plain_rule_is_one_line(text);
    lemma_plain_rule_is_read(text);
    assert(seq![text].drop_last() =~= Seq::<Seq<char>>::empty());
    assert(rules_of_lines(seq![text]) == Ok::<Rules, ParseError>(
        Map::empty().insert(plain_rule_from(text), plain_rule_to(text)),
    )) by {
        reveal_with_fuel(rules_of_lines, 2);
    }
}

/// A text of two lines, each a rule in plain form, states these two rules,
/// the second after the first. The newline between them stands at `n`.
pub proof fn lemma_two_plain_rules(text: Seq<char>, n: int)
    requires
        0 <= n < text.len(),
        text[n] == '\n',
        is_plain_rule(text.take(n)),
        is_plain_rule(text.skip(n + 1)),
    ensures
        rules_of_text(text) == Ok::<Rules, ParseError>(
            Map::empty().insert(
                plain_rule_from(text.take(n)),
                plain_rule_to(text.take(n)),
            ).insert(plain_rule_from(text.skip(n + 1)), plain_rule_to(text.skip(n + 1))),
        ),
{
    let first = text.take(n);
    let second = text.skip(n + 1);
    lemma_plain_rule_is_one_line(first);
    lemma_plain_rule_is_one_line(second);
    assert forall|i: int| 0 <= i < n implies text[i] != '\n' by {
        assert(first[i] == text[i]);
    }
    lemma_line_ends_at_first_newline(text, n);
    assert(lines_of(text) =~= seq![first, second]);
    lemma_plain_rule_is_read(first);
    lemma_plain_rule_is_read(second);
    let lines = seq![first, second];
    assert(lines.drop_last() =~= seq![first]);
    assert(seq![first].drop_last() =~= Seq::<Seq<char>>::empty());
    assert(rules_of_lines(seq![first]) == Ok::<Rules, ParseError>(
        Map::empty().insert(plain_rule_from(first), plain_rule_to(first)),
    )) by {
        reveal_with_fuel(rules_of_lines, 2);
    }
}

/// The symbols of a text are never a `Reset` or a `Node`, and are brackets
/// only where the text has them.
pub proof fn lemma_symbols_of_plain_text(text: Seq<char>)
    requires
        all_known(text),
    ensures
        forall|i: int|
            0 <= i < text.len() ==> {
                &&& !(#[trigger] symbols_of(text)[i] is Reset)
                &&& !(symbols_of(text)[i] is Node)
                &&& (symbols_of(text)[i] is Push <==> text[i] == '[')
                &&& (symbols_of(text)[i] is Pop <==> text[i] == ']')
            },
{
    assert forall|i: int| 0 <= i < text.len() implies {
        &&& !(#[trigger] symbols_of(text)[i] is Reset)
        &&& !(symbols_of(text)[i] is Node)
        &&& (symbols_of(text)[i] is Push <==> text[i] == '[')
        &&& (symbols_of(text)[i] is Pop <==> text[i] == ']')
    } by {
        assert(symbol_of(text[i]) is Some);
    }
}

/// Reads one character of the alphabet.
pub fn parse_step(c: char) -> (step: Result<TurtleStep, ParseError>)
    ensures
        step == match symbol_of(c) {
            Some(s) => Ok::<TurtleStep, ParseError>(s),
            None => Err(ParseError::UnknownToken),
        },
{
    if 'A' <= c && c <= 'Z' {
        Ok(TurtleStep::Forward(c))
    } else if c == 'f' {
        Ok(TurtleStep::ForwardNoLine)
    } else if c == '+' {
        Ok(TurtleStep::TurnLeft)
    } else if c == '-' {
        Ok(TurtleStep::TurnRight)
    } else if c == '[' {
        Ok(TurtleStep::Push)
    } else if c == ']' {
        Ok(TurtleStep::Pop)
    } else {
        Err(ParseError::UnknownToken)
    }
}

/// The characters of `text`, in order.
fn chars_of(text: &str) -> (chars: Vec<char>)
    ensures
        chars@ == text@,
{
    let mut chars: Vec<char> = Vec::new();
    for c in it: text.chars()
        invariant
            it.seq() == text@,
            chars@ == text@.take(it.index()),
    {
        chars.push(c);
        assert(text@.take(it.index() + 1) =~= text@.take(it.index()).push(c));
    }
    assert(text@.take(text@.len() as int) =~= text@);
    chars
}

fn blank(c: char) -> (b: bool)
    ensures
        b == is_blank(c),
{
    c == ' ' || c == '\t' || c == '\r'
}

/// Reads the symbols of `chars[lo..hi]`.
fn steps_in(chars: &Vec<char>, lo: usize, hi: usize) -> (steps: Result<
    Vec<TurtleStep>,
    ParseError,
>)
    requires
        lo <= hi <= chars.len(),
    ensures
        match steps {
            Ok(v) => steps_of_text(chars@.subrange(lo as int, hi as int)) == Ok::<
                Seq<TurtleStep>,
                ParseError,
            >(v@),
            Err(e) => steps_of_text(chars@.subrange(lo as int, hi as int)) == Err::<
                Seq<TurtleStep>,
                ParseError,
            >(e),
        },
{
    let ghost text = chars@.subrange(lo as int, hi as int);
    let mut steps: Vec<TurtleStep> = Vec::new();
    let mut i: usize = lo;
    while i < hi
        invariant
            lo <= i <= hi <= chars.len(),
            text == chars@.subrange(lo as int, hi as int),
            steps@ == symbols_of(text.take(i - lo)),
            all_known(text.take(i - lo)),
        decreases hi - i,
    {
        assert(text[i - lo] == chars@[i as int]);
        match parse_step(chars[i]) {
            Ok(step) => {
                steps.push(step);
                assert(text.take(i + 1 - lo) =~= text.take(i - lo).push(chars@[i as int]));
                assert(steps@ =~= symbols_of(text.take(i + 1 - lo)));
            },
            Err(e) => {
                return Err(e);
            },
        }
        i += 1;
    }
    assert(text.take(hi - lo) =~= text);
    Ok(steps)
}

/// The first position in `chars[lo..hi]` that holds no blank, or `hi`.
fn skip_blanks(chars: &Vec<char>, lo: usize, hi: usize) -> (at: usize)
    requires
        lo <= hi <= chars.len(),
    ensures
        lo <= at <= hi,
        chars@.subrange(at as int, hi as int) == trim_start(chars@.subrange(lo as int, hi as int)),
{
    let mut at: usize = lo;
    while at < hi && blank(chars[at])
        invariant
            lo <= at <= hi <= chars.len(),
            trim_start(chars@.subrange(at as int, hi as int)) == trim_start(
                chars@.subrange(lo as int, hi as int),
            ),
        decreases hi - at,
    {
        assert(chars@.subrange(at as int, hi as int).drop_first() =~= chars@.subrange(
            at + 1,
            hi as int,
        ));
        at += 1;
    }
    at
}

/// The end of `chars[lo..hi]` once its trailing blanks are dropped.
fn drop_blanks(chars: &Vec<char>, lo: usize, hi: usize) -> (end: usize)
    requires
        lo <= hi <= chars.len(),
    ensures
        lo <= end <= hi,
        chars@.subrange(lo as int, end as int) == trim_end(chars@.subrange(lo as int, hi as int)),
{
    let mut end: usize = hi;
    while lo < end && blank(chars[end - 1])
        invariant
            lo <= end <= hi <= chars.len(),
            trim_end(chars@.subrange(lo as int, end as int)) == trim_end(
                chars@.subrange(lo as int, hi as int),
            ),
        decreases end - lo,
    {
        assert(chars@.subrange(lo as int, end as int).drop_last() =~= chars@.subrange(
            lo as int,
            end - 1,
        ));
        end -= 1;
    }
    end
}

/// Where the first arrow of `chars[lo..hi]` starts, if it has one.
fn find_arrow(chars: &Vec<char>, lo: usize, hi: usize) -> (found: Option<usize>)
    requires
        lo <= hi <= chars.len(),
    ensures
        match found {
            Some(at) => lo <= at && at + 2 <= hi && has_arrow(
                chars@.subrange(lo as int, hi as int),
            ) && first_arrow(chars@.subrange(lo as int, hi as int)) == at - lo,
            None => !has_arrow(chars@.subrange(lo as int, hi as int)),
        },
{
    let ghost line = chars@.subrange(lo as int, hi as int);
    let mut at: usize = lo;
    while hi - at >= 2
        invariant
            lo <= at <= hi <= chars.len(),
            line == chars@.subrange(lo as int, hi as int),
            forall|j: int| 0 <= j < at - lo ==> !arrow_at(line, j),
        decreases hi - at,
    {
        if chars[at] == '=' && chars[at + 1] == '>' {
            assert(is_first_arrow(line, at - lo));
            assert(first_arrow(line) == at - lo) by {
                let other = first_arrow(line);
                assert(is_first_arrow(line, other));
            }
            return Some(at);
        }
        at += 1;
    }
    None
}

/// Reads the line `chars[lo..hi]` of a rule text.
fn rule_in(chars: &Vec<char>, lo: usize, hi: usize) -> (rule: Result<
    Option<(TurtleStep, Vec<TurtleStep>)>,
    ParseError,
>)
    requires
        lo <= hi <= chars.len(),
    ensures
        match rule {
            Ok(None) => rule_of_line(chars@.subrange(lo as int, hi as int)) == Ok::<
                Option<(TurtleStep, Seq<TurtleStep>)>,
                ParseError,
            >(None),
            Ok(Some((from, to))) => rule_of_line(chars@.subrange(lo as int, hi as int)) == Ok::<
                Option<(TurtleStep, Seq<TurtleStep>)>,
                ParseError,
            >(Some((from, to@))),
            Err(e) => rule_of_line(chars@.subrange(lo as int, hi as int)) == Err::<
                Option<(TurtleStep, Seq<TurtleStep>)>,
                ParseError,
            >(e),
        },
{
    let start = skip_blanks(chars, lo, hi);
    let end = drop_blanks(chars, start, hi);
    let ghost body = chars@.subrange(start as int, end as int);
    assert(body == trim(chars@.subrange(lo as int, hi as int)));
    if start == end {
        return Ok(None);
    }
    let at = match find_arrow(chars, start, end) {
        Some(at) => at,
        None => {
            return Err(ParseError::UnterminatedRule);
        },
    };
    assert(body.take(at - start) =~= chars@.subrange(start as int, at as int));
    assert(body.skip(at - start + 2) =~= chars@.subrange(at + 2, end as int));
    let lhs_start = skip_blanks(chars, start, at);
    let lhs_end = drop_blanks(chars, lhs_start, at);
    let rhs_start = skip_blanks(chars, at + 2, end);
    let rhs_end = drop_blanks(chars, rhs_start, end);
    let ghost lhs = chars@.subrange(lhs_start as int, lhs_end as int);
    let ghost rhs = chars@.subrange(rhs_start as int, rhs_end as int);
    assert(lhs == trim(body.take(first_arrow(body))));
    assert(rhs == trim(body.skip(first_arrow(body) + 2)));
    let from = match steps_in(chars, lhs_start, lhs_end) {
        Ok(steps) => {
            if steps.len() != 1 {
                return Err(ParseError::MalformedPredecessor);
            }
            steps[0]
        },
        Err(e) => {
            return Err(e);
        },
    };
    match from {
        TurtleStep::Forward(_) => {},
        TurtleStep::ForwardNoLine => {},
        _ => {
            return Err(ParseError::MalformedPredecessor);
        },
    }
    if rhs_start == rhs_end {
        return Err(ParseError::UnterminatedRule);
    }
    match steps_in(chars, rhs_start, rhs_end) {
        Ok(to) => Ok(Some((from, to))),
        Err(e) => Err(e),
    }
}

/// The end of the line that starts at `from`: the position of the next
/// newline, or the end of the text.
fn line_end(chars: &Vec<char>, from: usize) -> (end: usize)
    requires
        from <= chars.len(),
    ensures
        from <= end <= chars.len(),
        end - from == line_len(chars@.skip(from as int)),
{
    let mut end: usize = from;
    while end < chars.len() && chars[end] != '\n'
        invariant
            from <= end <= chars.len(),
            line_len(chars@.skip(from as int)) == (end - from) + line_len(chars@.skip(end as int)),
        decreases chars.len() - end,
    {
        assert(chars@.skip(end as int).drop_first() =~= chars@.skip(end + 1));
        end += 1;
    }
    end
}

/// Reads a bare sequence of symbols, such as an axiom.
///
/// Every character must belong to the alphabet; the text is not trimmed.
pub fn parse_steps(s: &str) -> (steps: Result<Vec<TurtleStep>, ParseError>)
    ensures
        match steps {
            Ok(v) => steps_of_text(s@) == Ok::<Seq<TurtleStep>, ParseError>(v@),
            Err(e) => steps_of_text(s@) == Err::<Seq<TurtleStep>, ParseError>(e),
        },
{
    let chars = chars_of(s);
    assert(chars@.subrange(0, chars.len() as int) =~= s@);
    steps_in(&chars, 0, chars.len())
}

/// Reads a rule text: one rule per line, each `<letter> => <sequence>`.
///
/// Blank lines are skipped. Where a letter has several rules, the last one
/// counts. The first line in error decides the error.
pub fn parse_rewrite_rules(s: &str) -> (rules: Result<RuleSet, ParseError>)
    ensures
        match rules {
            Ok(r) => rules_of_text(s@) == Ok::<Rules, ParseError>(r@),
            Err(e) => rules_of_text(s@) == Err::<Rules, ParseError>(e),
        },
{
    let chars = chars_of(s);
    let mut rules = RuleSet::new();
    let mut pos: usize = 0;
    let ghost mut done: Seq<Seq<char>> = Seq::empty();
    assert(chars@.skip(0) =~= chars@);
    loop
        invariant
            pos <= chars.len(),
            chars@ == s@,
            lines_of(chars@) == done + lines_of(chars@.skip(pos as int)),
            rules_of_lines(done) == Ok::<Rules, ParseError>(rules@),
        decreases chars.len() - pos,
    {
        let end = line_end(&chars, pos);
        let ghost rest = chars@.skip(pos as int);
        let ghost line = chars@.subrange(pos as int, end as int);
        proof {
            assert(rest.take(end - pos) =~= line);
            if end < chars.len() {
                assert(rest.skip(end - pos + 1) =~= chars@.skip(end + 1));
            }
            assert(done.push(line).drop_last() =~= done);
        }
        match rule_in(&chars, pos, end) {
            Ok(None) => {},
            Ok(Some((from, to))) => {
                rules.insert(from, to);
            },
            Err(e) => {
                proof {
                    assert(rules_of_lines(done.push(line)) == Err::<Rules, ParseError>(e));
                    if end < chars.len() {
                        lemma_first_error_wins(done.push(line), lines_of(chars@.skip(end + 1)));
                        assert(done + (seq![line] + lines_of(chars@.skip(end + 1))) =~= done.push(
                            line,
                        ) + lines_of(chars@.skip(end + 1)));
                    } else {
                        assert(done + seq![line] =~= done.push(line));
                    }
                }
                return Err(e);
            },
        }
        proof {
            if end < chars.len() {
                assert(done + (seq![line] + lines_of(chars@.skip(end + 1))) =~= done.push(line)
                    + lines_of(chars@.skip(end + 1)));
            } else {
                assert(done + seq![line] =~= done.push(line));
            }
            done = done.push(line);
        }
        if end >= chars.len() {
            return Ok(rules);
        }
        pos = end + 1;
    }
}

} // verus!
