//! The roll expression grammar. Every parser reads characters from a position
//! and returns what it recognised and the position after it; its spec twin
//! says what that is. The public functions take a `&str` and return the
//! unread rest with the value.

use vstd::prelude::*;
use vstd::string::StrSliceExecFns;
use crate::dice_types::{
    Dice, DiceType, Expression, Filter, FilteredDice, LabeledExpression, Operation, SelectedDice,
    Selector, Term,
};
use crate::text::{chars_of, is_whitespace, string_of, unicode_whitespace};

verus! {

/// The input did not match the grammar.
#[derive(Debug, Clone, Copy, PartialEq, Eq, Structural)]
pub struct ParseError;

pub open spec fn is_digit(c: char) -> bool {
    '0' <= c <= '9'
}

/// The whitespace the grammar skips between tokens.
pub open spec fn is_space(c: char) -> bool {
    c == ' ' || c == '\t' || c == '\r' || c == '\n'
}

pub open spec fn digit_value(c: char) -> int {
    (c as int) - ('0' as int)
}

/// The number written by a run of decimal digits.
pub open spec fn digits_value(s: Seq<char>) -> nat
    decreases s.len(),
{
    if s.len() == 0 {
        0
    } else {
        (digits_value(s.drop_last()) * 10 + digit_value(s.last())) as nat
    }
}

/// End of the run of digits that starts at `pos`.
pub open spec fn digits_end(s: Seq<char>, pos: int) -> int
    decreases s.len() - pos,
{
    if 0 <= pos < s.len() && is_digit(s[pos]) {
        digits_end(s, pos + 1)
    } else {
        pos
    }
}

/// End of the whitespace that starts at `pos`.
pub open spec fn spaces_end(s: Seq<char>, pos: int) -> int
    decreases s.len() - pos,
{
    if 0 <= pos < s.len() && is_space(s[pos]) {
        spaces_end(s, pos + 1)
    } else {
        pos
    }
}

/// A number from 1 to `u32::MAX`, written with at least one digit.
pub open spec fn spec_u32(s: Seq<char>, pos: int) -> Option<(u32, int)> {
    let end = digits_end(s, pos);
    if end == pos {
        None
    } else {
        let v = digits_value(s.subrange(pos, end));
        if 1 <= v <= u32::MAX {
            Some((v as u32, end))
        } else {
            None
        }
    }
}

/// A signed integer: an optional `+` or `-`, then at least one digit.
pub open spec fn spec_i64(s: Seq<char>, pos: int) -> Option<(i64, int)> {
    let start = if 0 <= pos < s.len() && (s[pos] == '+' || s[pos] == '-') {
        pos + 1
    } else {
        pos
    };
    let end = digits_end(s, start);
    if end == start {
        None
    } else {
        let v = digits_value(s.subrange(start, end));
        if start > pos && s[pos] == '-' {
            if v <= 0x8000_0000_0000_0000 {
                Some(((-v) as i64, end))
            } else {
                None
            }
        } else if v <= i64::MAX {
            Some((v as i64, end))
        } else {
            None
        }
    }
}

proof fn lemma_digits_end_bounds(s: Seq<char>, pos: int)
    requires
        0 <= pos <= s.len(),
    ensures
        pos <= digits_end(s, pos) <= s.len(),
        forall|j: int| pos <= j < digits_end(s, pos) ==> is_digit(#[trigger] s[j]),
    decreases s.len() - pos,
{
    if pos < s.len() && is_digit(s[pos]) {
        lemma_digits_end_bounds(s, pos + 1);
    }
}

proof fn lemma_spaces_end_bounds(s: Seq<char>, pos: int)
    requires
        0 <= pos <= s.len(),
    ensures
        pos <= spaces_end(s, pos) <= s.len(),
    decreases s.len() - pos,
{
    if pos < s.len() && is_space(s[pos]) {
        lemma_spaces_end_bounds(s, pos + 1);
    }
}

/// More digits never give a smaller number.
proof fn lemma_digits_value_grows(s: Seq<char>, i: int, j: int)
    requires
        0 <= i <= j <= s.len(),
        forall|k: int| 0 <= k < s.len() ==> is_digit(#[trigger] s[k]),
    ensures
        digits_value(s.take(i)) <= digits_value(s.take(j)),
    decreases j - i,
{
    if i < j {
        lemma_digits_value_grows(s, i, j - 1);
        assert(s.take(j).drop_last() =~= s.take(j - 1));
    }
}

fn is_digit_char(c: char) -> (r: bool)
    ensures
        r == is_digit(c),
{
    '0' <= c && c <= '9'
}

fn is_space_char(c: char) -> (r: bool)
    ensures
        r == is_space(c),
{
    c == ' ' || c == '\t' || c == '\r' || c == '\n'
}

/// Skips whitespace.
pub fn skip_spaces(s: &Vec<char>, pos: usize) -> (r: usize)
    requires
        pos <= s.len(),
    ensures
        r == spaces_end(s@, pos as int),
        pos <= r <= s.len(),
    decreases s.len() - pos,
{
    if pos < s.len() && is_space_char(s[pos]) {
        skip_spaces(s, pos + 1)
    } else {
        pos
    }
}

/// Reads a run of digits as a number no larger than `limit`; `None` when the
/// run is empty or its number is larger.
fn digits_upto(s: &Vec<char>, pos: usize, limit: u64) -> (r: Option<(u64, usize)>)
    requires
        pos <= s.len(),
        limit >= 9,
    ensures
        match r {
            Some((v, end)) => end == digits_end(s@, pos as int) && end > pos && v as int
                == digits_value(s@.subrange(pos as int, end as int)) && v <= limit,
            None => digits_end(s@, pos as int) == pos || digits_value(
                s@.subrange(pos as int, digits_end(s@, pos as int)),
            ) > limit,
        },
{
    proof {
        lemma_digits_end_bounds(s@, pos as int);
    }
    let ghost end = digits_end(s@, pos as int);
    let mut i: usize = pos;
    let mut v: u64 = 0;
    while i < s.len() && is_digit_char(s[i])
        invariant
            pos <= i <= end,
            end <= s.len(),
            end == digits_end(s@, pos as int),
            forall|j: int| pos <= j < end ==> is_digit(#[trigger] s@[j]),
            digits_end(s@, i as int) == end,
            v as int == digits_value(s@.subrange(pos as int, i as int)),
            v <= limit,
            limit >= 9,
        decreases s.len() - i,
    {
        let d = (s[i] as u32 - '0' as u32) as u64;
        assert(s@.subrange(pos as int, i + 1int).drop_last() =~= s@.subrange(pos as int, i as int));
        proof {
            lemma_digits_end_bounds(s@, i + 1int);
        }
        if v > (limit - d) / 10 {
            proof {
                let run = s@.subrange(pos as int, end);
                assert forall|k: int| 0 <= k < run.len() implies is_digit(#[trigger] run[k]) by {
                    assert(run[k] == s@[pos + k]);
                }
                lemma_digits_value_grows(run, i + 1 - pos, run.len() as int);
                assert(run.take(i + 1 - pos) =~= s@.subrange(pos as int, i + 1int));
                assert(run.take(run.len() as int) =~= run);
                assert(v * 10 + d > limit) by (nonlinear_arith)
                    requires
                        v > (limit - d) / 10,
                        d <= limit || d > limit,
                        d <= 9,
                ;
            }
            return None;
        }
        v = v * 10 + d;
        i = i + 1;
    }
    if i == pos {
        None
    } else {
        Some((v, i))
    }
}

/// See `spec_u32`.
pub fn p_u32(s: &Vec<char>, pos: usize) -> (r: Option<(u32, usize)>)
    requires
        pos <= s.len(),
    ensures
        match spec_u32(s@, pos as int) {
            Some((v, e)) => r == Some((v, e as usize)) && pos < e <= s.len(),
            None => r is None,
        },
{
    proof {
        lemma_digits_end_bounds(s@, pos as int);
    }
    match digits_upto(s, pos, 0xFFFF_FFFF) {
        Some((v, end)) => {
            if v == 0 {
                None
            } else {
                Some((v as u32, end))
            }
        },
        None => None,
    }
}

/// See `spec_i64`.
pub fn p_i64(s: &Vec<char>, pos: usize) -> (r: Option<(i64, usize)>)
    requires
        pos <= s.len(),
    ensures
        match spec_i64(s@, pos as int) {
            Some((v, e)) => r == Some((v, e as usize)) && pos < e <= s.len(),
            None => r is None,
        },
{
    let negative = pos < s.len() && s[pos] == '-';
    let start = if pos < s.len() && (s[pos] == '+' || s[pos] == '-') {
        pos + 1
    } else {
        pos
    };
    proof {
        lemma_digits_end_bounds(s@, start as int);
    }
    if negative {
        match digits_upto(s, start, 0x8000_0000_0000_0000) {
            Some((v, end)) => {
                let m: i128 = -(v as i128);
                Some((m as i64, end))
            },
            None => None,
        }
    } else {
        match digits_upto(s, start, 0x7FFF_FFFF_FFFF_FFFF) {
            Some((v, end)) => Some((v as i64, end)),
            None => None,
        }
    }
}

pub fn parse_u32(input: &str) -> (r: Result<(&str, u32), ParseError>)
    ensures
        match spec_u32(input@, 0) {
            Some((v, e)) => r matches Ok((rest, w)) && w == v && rest@ == input@.skip(e),
            None => r is Err,
        },
{
    let chars = chars_of(input);
    match p_u32(&chars, 0) {
        Some((v, end)) => {
            assert(input@.skip(end as int) =~= input@.subrange(end as int, chars.len() as int));
            Ok((input.substring_char(end, chars.len()), v))
        },
        None => Err(ParseError),
    }
}

pub fn parse_i64(input: &str) -> (r: Result<(&str, i64), ParseError>)
    ensures
        match spec_i64(input@, 0) {
            Some((v, e)) => r matches Ok((rest, w)) && w == v && rest@ == input@.skip(e),
            None => r is Err,
        },
{
    let chars = chars_of(input);
    match p_i64(&chars, 0) {
        Some((v, end)) => {
            assert(input@.skip(end as int) =~= input@.subrange(end as int, chars.len() as int));
            Ok((input.substring_char(end, chars.len()), v))
        },
        None => Err(ParseError),
    }
}

/// An exec parser's result is its spec twin's, with an end no smaller than
/// the start and inside the input.
pub open spec fn lifted<T>(r: Option<(T, usize)>, sp: Option<(T, int)>, pos: int, len: int) -> bool {
    match sp {
        Some((v, e)) => r == Some((v, e as usize)) && pos <= e <= len,
        None => r is None,
    }
}

pub open spec fn char_at(s: Seq<char>, pos: int, c: char) -> bool {
    0 <= pos < s.len() && s[pos] == c
}

/// `s[pos]` is one of two characters (a letter in either case).
pub open spec fn either_at(s: Seq<char>, pos: int, a: char, b: char) -> bool {
    0 <= pos < s.len() && (s[pos] == a || s[pos] == b)
}

pub open spec fn spec_dice_digit(s: Seq<char>, pos: int) -> Option<(char, int)> {
    if either_at(s, pos, 'd', 'D') || either_at(s, pos, 'w', 'W') {
        Some((s[pos], pos + 1))
    } else {
        None
    }
}

pub open spec fn spec_dice_type(s: Seq<char>, pos: int) -> Option<(DiceType, int)> {
    match spec_u32(s, pos) {
        Some((n, e)) => {
            let a = spaces_end(s, e);
            if either_at(s, a, 'x', 'X') {
                Some((DiceType::Multiply(n), a + 1))
            } else {
                Some((DiceType::Number(n), e))
            }
        },
        None => if either_at(s, pos, 'f', 'F') {
            Some((DiceType::Fudge, pos + 1))
        } else if char_at(s, pos, '%') {
            Some((DiceType::Number(100), pos + 1))
        } else {
            None
        },
    }
}

/// Throws (1 when absent), the die letter, and the kind of die.
pub open spec fn spec_dice(s: Seq<char>, pos: int) -> Option<(Dice, int)> {
    let (t, after_throws) = match spec_u32(s, pos) {
        Some((n, e)) => (n, e),
        None => (1u32, pos),
    };
    let letter_at = spaces_end(s, after_throws);
    match spec_dice_digit(s, letter_at) {
        Some((_, after_letter)) => match spec_dice_type(s, spaces_end(s, after_letter)) {
            Some((k, e)) => Some((Dice { throws: t, dice: k }, e)),
            None => None,
        },
        None => None,
    }
}

pub open spec fn spec_filter(s: Seq<char>, pos: int) -> Option<(Filter, int)> {
    if char_at(s, pos, '>') && char_at(s, pos + 1, '=') {
        Some((Filter::BiggerEq, pos + 2))
    } else if char_at(s, pos, '>') {
        Some((Filter::Bigger, pos + 1))
    } else if char_at(s, pos, '<') && char_at(s, pos + 1, '=') {
        Some((Filter::SmallerEq, pos + 2))
    } else if char_at(s, pos, '<') {
        Some((Filter::Smaller, pos + 1))
    } else if char_at(s, pos, '!') && char_at(s, pos + 1, '=') {
        Some((Filter::NotEq, pos + 2))
    } else {
        None
    }
}

pub open spec fn spec_filtered_dice(s: Seq<char>, pos: int) -> Option<(FilteredDice, int)> {
    match spec_dice(s, pos) {
        Some((d, e)) => match spec_filter(s, spaces_end(s, e)) {
            Some((f, b)) => match spec_u32(s, spaces_end(s, b)) {
                Some((n, e2)) => Some((FilteredDice::Filtered(d, f, n), e2)),
                None => Some((FilteredDice::Simple(d), e)),
            },
            None => Some((FilteredDice::Simple(d), e)),
        },
        None => None,
    }
}

pub open spec fn spec_selector(s: Seq<char>, pos: int) -> Option<(Selector, int)> {
    if either_at(s, pos, 'h', 'H') || either_at(s, pos, 'k', 'K') {
        Some((Selector::Higher, pos + 1))
    } else if either_at(s, pos, 'l', 'L') {
        Some((Selector::Lower, pos + 1))
    } else {
        None
    }
}

pub open spec fn spec_selected_dice(s: Seq<char>, pos: int) -> Option<(SelectedDice, int)> {
    match spec_filtered_dice(s, pos) {
        Some((f, e)) => match spec_selector(s, spaces_end(s, e)) {
            Some((sel, b)) => match spec_u32(s, spaces_end(s, b)) {
                Some((n, e2)) => Some((SelectedDice::Selected(f, sel, n), e2)),
                None => Some((SelectedDice::Unchanged(f), e)),
            },
            None => Some((SelectedDice::Unchanged(f), e)),
        },
        None => None,
    }
}

pub open spec fn spec_operator(s: Seq<char>, pos: int) -> Option<(Operation, int)> {
    if char_at(s, pos, '+') {
        Some((Operation::Add, pos + 1))
    } else if char_at(s, pos, '-') {
        Some((Operation::Sub, pos + 1))
    } else if char_at(s, pos, '*') {
        Some((Operation::Mul, pos + 1))
    } else if char_at(s, pos, '/') {
        Some((Operation::Div, pos + 1))
    } else {
        None
    }
}

/// One operand: dice, a constant, or a term in parentheses (tried in that
/// order).
pub open spec fn spec_primary(s: Seq<char>, pos: int) -> Option<(Term, int)>
    decreases s.len() - pos, 0int,
{
    if !(0 <= pos <= s.len()) {
        None
    } else {
        match spec_selected_dice(s, pos) {
            Some((d, e)) => Some((Term::DiceThrow(d), e)),
            None => match spec_i64(s, pos) {
                Some((c, e)) => Some((Term::Constant(c), e)),
                None => if char_at(s, pos, '(') {
                    let a = spaces_end(s, pos + 1);
                    if pos < a <= s.len() {
                        match spec_term(s, a) {
                            Some((t, e)) => {
                                let b = spaces_end(s, e);
                                if char_at(s, b, ')') {
                                    Some((Term::SubTerm(Box::new(t)), b + 1))
                                } else {
                                    None
                                }
                            },
                            None => None,
                        }
                    } else {
                        None
                    }
                } else {
                    None
                },
            },
        }
    }
}

/// An operand, optionally followed by an operator and a term: operators
/// group to the right as written.
pub open spec fn spec_term(s: Seq<char>, pos: int) -> Option<(Term, int)>
    decreases s.len() - pos, 1int,
{
    if !(0 <= pos <= s.len()) {
        None
    } else {
        match spec_primary(s, pos) {
            Some((p, e)) => match spec_operator(s, spaces_end(s, e)) {
                Some((op, b)) => {
                    let c = spaces_end(s, b);
                    if pos < c <= s.len() {
                        match spec_term(s, c) {
                            Some((r, e2)) => Some((Term::Calculation(Box::new(p), op, Box::new(r)), e2)),
                            None => Some((p, e)),
                        }
                    } else {
                        Some((p, e))
                    }
                },
                None => Some((p, e)),
            },
            None => None,
        }
    }
}

/// A product or quotient whose right operand is itself a calculation is
/// turned so that the product binds first; the rest of the chain is
/// rearranged the same way, and so is the inside of parentheses.
pub open spec fn rearrange(t: Term) -> Term
    decreases t,
{
    match t {
        Term::Calculation(l, op, r) => if op == Operation::Mul || op == Operation::Div {
            match *r {
                Term::Calculation(l2, op2, r2) => Term::Calculation(
                    Box::new(Term::Calculation(l, op, l2)),
                    op2,
                    Box::new(rearrange(*r2)),
                ),
                _ => Term::Calculation(l, op, Box::new(rearrange(*r))),
            }
        } else {
            Term::Calculation(l, op, Box::new(rearrange(*r)))
        },
        Term::SubTerm(x) => Term::SubTerm(Box::new(rearrange(*x))),
        _ => t,
    }
}

pub open spec fn spec_expression(s: Seq<char>, pos: int) -> Option<(Expression, int)> {
    let list = match spec_u32(s, pos) {
        Some((n, e)) => {
            let a = spaces_end(s, e);
            if char_at(s, a, '{') {
                match spec_term(s, spaces_end(s, a + 1)) {
                    Some((t, e2)) => {
                        let c = spaces_end(s, e2);
                        if char_at(s, c, '}') {
                            Some((Expression::List(n, rearrange(t)), c + 1))
                        } else {
                            None
                        }
                    },
                    None => None,
                }
            } else {
                None
            }
        },
        None => None,
    };
    match list {
        Some(x) => Some(x),
        None => match spec_term(s, pos) {
            Some((t, e)) => Some((Expression::Simple(rearrange(t)), e)),
            None => None,
        },
    }
}

fn at(s: &Vec<char>, pos: usize, c: char) -> (r: bool)
    ensures
        r == char_at(s@, pos as int, c),
{
    pos < s.len() && s[pos] == c
}

fn either(s: &Vec<char>, pos: usize, a: char, b: char) -> (r: bool)
    ensures
        r == either_at(s@, pos as int, a, b),
{
    pos < s.len() && (s[pos] == a || s[pos] == b)
}

pub fn p_dice_digit(s: &Vec<char>, pos: usize) -> (r: Option<(char, usize)>)
    requires
        pos <= s.len(),
    ensures
        lifted(r, spec_dice_digit(s@, pos as int), pos as int, s.len() as int),
{
    if either(s, pos, 'd', 'D') || either(s, pos, 'w', 'W') {
        Some((s[pos], pos + 1))
    } else {
        None
    }
}

pub fn p_dice_type(s: &Vec<char>, pos: usize) -> (r: Option<(DiceType, usize)>)
    requires
        pos <= s.len(),
    ensures
        lifted(r, spec_dice_type(s@, pos as int), pos as int, s.len() as int),
{
    match p_u32(s, pos) {
        Some((n, e)) => {
            let a = skip_spaces(s, e);
            if either(s, a, 'x', 'X') {
                Some((DiceType::Multiply(n), a + 1))
            } else {
                Some((DiceType::Number(n), e))
            }
        },
        None => {
            if either(s, pos, 'f', 'F') {
                Some((DiceType::Fudge, pos + 1))
            } else if at(s, pos, '%') {
                Some((DiceType::Number(100), pos + 1))
            } else {
                None
            }
        },
    }
}

pub fn p_dice(s: &Vec<char>, pos: usize) -> (r: Option<(Dice, usize)>)
    requires
        pos <= s.len(),
    ensures
        lifted(r, spec_dice(s@, pos as int), pos as int, s.len() as int),
{
    let (t, after_throws) = match p_u32(s, pos) {
        Some((n, e)) => (n, e),
        None => (1u32, pos),
    };
    let letter_at = skip_spaces(s, after_throws);
    match p_dice_digit(s, letter_at) {
        Some((_, after_letter)) => {
            let kind_at = skip_spaces(s, after_letter);
            match p_dice_type(s, kind_at) {
                Some((k, e)) => Some((Dice { throws: t, dice: k }, e)),
                None => None,
            }
        },
        None => None,
    }
}

pub fn p_filter(s: &Vec<char>, pos: usize) -> (r: Option<(Filter, usize)>)
    requires
        pos <= s.len(),
    ensures
        lifted(r, spec_filter(s@, pos as int), pos as int, s.len() as int),
{
    if at(s, pos, '>') && at(s, pos + 1, '=') {
        Some((Filter::BiggerEq, pos + 2))
    } else if at(s, pos, '>') {
        Some((Filter::Bigger, pos + 1))
    } else if at(s, pos, '<') && at(s, pos + 1, '=') {
        Some((Filter::SmallerEq, pos + 2))
    } else if at(s, pos, '<') {
        Some((Filter::Smaller, pos + 1))
    } else if at(s, pos, '!') && at(s, pos + 1, '=') {
        Some((Filter::NotEq, pos + 2))
    } else {
        None
    }
}

pub fn p_filtered_dice(s: &Vec<char>, pos: usize) -> (r: Option<(FilteredDice, usize)>)
    requires
        pos <= s.len(),
    ensures
        lifted(r, spec_filtered_dice(s@, pos as int), pos as int, s.len() as int),
{
    match p_dice(s, pos) {
        Some((d, e)) => {
            let a = skip_spaces(s, e);
            match p_filter(s, a) {
                Some((f, b)) => {
                    let c = skip_spaces(s, b);
                    match p_u32(s, c) {
                        Some((n, e2)) => Some((FilteredDice::Filtered(d, f, n), e2)),
                        None => Some((FilteredDice::Simple(d), e)),
                    }
                },
                None => Some((FilteredDice::Simple(d), e)),
            }
        },
        None => None,
    }
}

pub fn p_selector(s: &Vec<char>, pos: usize) -> (r: Option<(Selector, usize)>)
    requires
        pos <= s.len(),
    ensures
        lifted(r, spec_selector(s@, pos as int), pos as int, s.len() as int),
{
    if either(s, pos, 'h', 'H') || either(s, pos, 'k', 'K') {
        Some((Selector::Higher, pos + 1))
    } else if either(s, pos, 'l', 'L') {
        Some((Selector::Lower, pos + 1))
    } else {
        None
    }
}

pub fn p_selected_dice(s: &Vec<char>, pos: usize) -> (r: Option<(SelectedDice, usize)>)
    requires
        pos <= s.len(),
    ensures
        lifted(r, spec_selected_dice(s@, pos as int), pos as int, s.len() as int),
{
    match p_filtered_dice(s, pos) {
        Some((f, e)) => {
            let a = skip_spaces(s, e);
            match p_selector(s, a) {
                Some((sel, b)) => {
                    let c = skip_spaces(s, b);
                    match p_u32(s, c) {
                        Some((n, e2)) => Some((SelectedDice::Selected(f, sel, n), e2)),
                        None => Some((SelectedDice::Unchanged(f), e)),
                    }
                },
                None => Some((SelectedDice::Unchanged(f), e)),
            }
        },
        None => None,
    }
}

pub fn p_operator(s: &Vec<char>, pos: usize) -> (r: Option<(Operation, usize)>)
    requires
        pos <= s.len(),
    ensures
        lifted(r, spec_operator(s@, pos as int), pos as int, s.len() as int),
{
    if at(s, pos, '+') {
        Some((Operation::Add, pos + 1))
    } else if at(s, pos, '-') {
        Some((Operation::Sub, pos + 1))
    } else if at(s, pos, '*') {
        Some((Operation::Mul, pos + 1))
    } else if at(s, pos, '/') {
        Some((Operation::Div, pos + 1))
    } else {
        None
    }
}

pub fn p_primary(s: &Vec<char>, pos: usize) -> (r: Option<(Term, usize)>)
    requires
        pos <= s.len(),
    ensures
        lifted(r, spec_primary(s@, pos as int), pos as int, s.len() as int),
    decreases s.len() - pos, 0int,
{
    match p_selected_dice(s, pos) {
        Some((d, e)) => Some((Term::DiceThrow(d), e)),
        None => match p_i64(s, pos) {
            Some((c, e)) => Some((Term::Constant(c), e)),
            None => {
                if at(s, pos, '(') {
                    let a = skip_spaces(s, pos + 1);
                    match p_term(s, a) {
                        Some((t, e)) => {
                            let b = skip_spaces(s, e);
                            if at(s, b, ')') {
                                Some((Term::SubTerm(Box::new(t)), b + 1))
                            } else {
                                None
                            }
                        },
                        None => None,
                    }
                } else {
                    None
                }
            },
        },
    }
}

pub fn p_term(s: &Vec<char>, pos: usize) -> (r: Option<(Term, usize)>)
    requires
        pos <= s.len(),
    ensures
        lifted(r, spec_term(s@, pos as int), pos as int, s.len() as int),
    decreases s.len() - pos, 1int,
{
    match p_primary(s, pos) {
        Some((p, e)) => {
            let a = skip_spaces(s, e);
            match p_operator(s, a) {
                Some((op, b)) => {
                    let c = skip_spaces(s, b);
                    if pos < c {
                        match p_term(s, c) {
                            Some((r, e2)) => Some((Term::Calculation(Box::new(p), op, Box::new(r)), e2)),
                            None => Some((p, e)),
                        }
                    } else {
                        Some((p, e))
                    }
                },
                None => Some((p, e)),
            }
        },
        None => None,
    }
}

pub fn rearange_term(t: Term) -> (r: Term)
    ensures
        r == rearrange(t),
    decreases t,
{
    match t {
        Term::Calculation(l, op, r) => {
            if op == Operation::Mul || op == Operation::Div {
                match *r {
                    Term::Calculation(l2, op2, r2) => Term::Calculation(
                        Box::new(Term::Calculation(l, op, l2)),
                        op2,
                        Box::new(rearange_term(*r2)),
                    ),
                    other => Term::Calculation(l, op, Box::new(rearange_term(other))),
                }
            } else {
                Term::Calculation(l, op, Box::new(rearange_term(*r)))
            }
        },
        Term::SubTerm(x) => Term::SubTerm(Box::new(rearange_term(*x))),
        other => other,
    }
}

pub fn p_expression(s: &Vec<char>, pos: usize) -> (r: Option<(Expression, usize)>)
    requires
        pos <= s.len(),
    ensures
        lifted(r, spec_expression(s@, pos as int), pos as int, s.len() as int),
{
    if let Some((n, e)) = p_u32(s, pos) {
        let a = skip_spaces(s, e);
        if at(s, a, '{') {
            let b = skip_spaces(s, a + 1);
            if let Some((t, e2)) = p_term(s, b) {
                let c = skip_spaces(s, e2);
                if at(s, c, '}') {
                    return Some((Expression::List(n, rearange_term(t)), c + 1));
                }
            }
        }
    }
    match p_term(s, pos) {
        Some((t, e)) => Some((Expression::Simple(rearange_term(t)), e)),
        None => None,
    }
}

/// End of the run of non-whitespace characters that starts at `pos`.
pub open spec fn word_end(s: Seq<char>, pos: int) -> int
    decreases s.len() - pos,
{
    if 0 <= pos < s.len() && !unicode_whitespace(s[pos]) {
        word_end(s, pos + 1)
    } else {
        pos
    }
}

/// The words from `pos` on, each followed by optional whitespace, joined by
/// single spaces; and where they end.
pub open spec fn spec_label(s: Seq<char>, pos: int) -> (Seq<char>, int)
    decreases s.len() - pos,
{
    if !(0 <= pos <= s.len()) {
        (Seq::empty(), pos)
    } else {
        let w = word_end(s, pos);
        let n = spaces_end(s, w);
        if pos < w && w <= n <= s.len() {
            let (rest, e) = spec_label(s, n);
            if rest.len() == 0 {
                (s.subrange(pos, w), e)
            } else {
                (s.subrange(pos, w) + seq![' '] + rest, e)
            }
        } else {
            (Seq::empty(), pos)
        }
    }
}

/// An expression with an optional label after `#`.
pub open spec fn spec_labeled(s: Seq<char>, pos: int) -> Option<(Expression, Option<Seq<char>>, int)> {
    match spec_expression(s, pos) {
        Some((e, p)) => if char_at(s, p, '#') {
            let (l, end) = spec_label(s, spaces_end(s, p + 1));
            Some((e, Some(l), end))
        } else {
            Some((e, None, p))
        },
        None => None,
    }
}

/// The expression and the label's characters.
pub open spec fn labeled_parts(le: LabeledExpression) -> (Expression, Option<Seq<char>>) {
    match le {
        LabeledExpression::Unlabeled(e) => (e, None),
        LabeledExpression::Labeled(e, l) => (e, Some(l@)),
    }
}

proof fn lemma_word_end_bounds(s: Seq<char>, pos: int)
    requires
        0 <= pos <= s.len(),
    ensures
        pos <= word_end(s, pos) <= s.len(),
    decreases s.len() - pos,
{
    if pos < s.len() && !unicode_whitespace(s[pos]) {
        lemma_word_end_bounds(s, pos + 1);
    }
}

fn skip_word(s: &Vec<char>, pos: usize) -> (r: usize)
    requires
        pos <= s.len(),
    ensures
        r == word_end(s@, pos as int),
        pos <= r <= s.len(),
    decreases s.len() - pos,
{
    if pos < s.len() && !is_whitespace(s[pos]) {
        skip_word(s, pos + 1)
    } else {
        pos
    }
}

fn p_label(s: &Vec<char>, pos: usize) -> (r: (Vec<char>, usize))
    requires
        pos <= s.len(),
    ensures
        (r.0@, r.1 as int) == spec_label(s@, pos as int),
        pos <= r.1 <= s.len(),
    decreases s.len() - pos,
{
    let w = skip_word(s, pos);
    let n = skip_spaces(s, w);
    if pos < w {
        let (mut rest, e) = p_label(s, n);
        let mut out: Vec<char> = Vec::new();
        let mut i: usize = pos;
        while i < w
            invariant
                pos <= i <= w,
                w <= s.len(),
                out@ == s@.subrange(pos as int, i as int),
            decreases w - i,
        {
            out.push(s[i]);
            i = i + 1;
            assert(out@ =~= s@.subrange(pos as int, i as int));
        }
        if rest.len() > 0 {
            let ghost word = out@;
            let ghost tail = rest@;
            out.push(' ');
            out.append(&mut rest);
            assert(out@ =~= word + seq![' '] + tail);
        }
        (out, e)
    } else {
        (Vec::new(), pos)
    }
}

pub fn p_labeled(s: &Vec<char>, pos: usize) -> (r: Option<(LabeledExpression, usize)>)
    requires
        pos <= s.len(),
    ensures
        match spec_labeled(s@, pos as int) {
            Some((e, l, end)) => r matches Some((le, x)) && labeled_parts(le) == (e, l) && x == end
                && pos <= end <= s.len(),
            None => r is None,
        },
{
    match p_expression(s, pos) {
        Some((e, p)) => {
            if at(s, p, '#') {
                let a = skip_spaces(s, p + 1);
                let (l, end) = p_label(s, a);
                Some((LabeledExpression::Labeled(e, string_of(&l)), end))
            } else {
                Some((LabeledExpression::Unlabeled(e), p))
            }
        },
        None => None,
    }
}

/// The rest of `input` from `end` on.
fn rest_of<'a>(input: &'a str, chars: &Vec<char>, end: usize) -> (r: &'a str)
    requires
        chars@ == input@,
        end <= chars.len(),
    ensures
        r@ == input@.skip(end as int),
{
    assert(input@.skip(end as int) =~= input@.subrange(end as int, chars.len() as int));
    input.substring_char(end, chars.len())
}

/// What a public parser returns for a spec result.
pub open spec fn parsed<T>(input: Seq<char>, r: Result<(&str, T), ParseError>, sp: Option<(T, int)>) -> bool {
    match sp {
        Some((v, e)) => r matches Ok((rest, w)) && w == v && rest@ == input.skip(e),
        None => r is Err,
    }
}

/// A die letter: `d` or `w`, in either case; returns the letter as written.
pub fn parse_dice_digit(input: &str) -> (r: Result<(&str, &str), ParseError>)
    ensures
        match spec_dice_digit(input@, 0) {
            Some((c, e)) => r matches Ok((rest, w)) && w@ == seq![c] && rest@ == input@.skip(e),
            None => r is Err,
        },
{
    let chars = chars_of(input);
    match p_dice_digit(&chars, 0) {
        Some((_, end)) => Ok((rest_of(input, &chars, end), input.substring_char(0, 1))),
        None => Err(ParseError),
    }
}

pub fn parse_dice_type(input: &str) -> (r: Result<(&str, DiceType), ParseError>)
    ensures
        parsed(input@, r, spec_dice_type(input@, 0)),
{
    let chars = chars_of(input);
    match p_dice_type(&chars, 0) {
        Some((v, end)) => Ok((rest_of(input, &chars, end), v)),
        None => Err(ParseError),
    }
}

pub fn parse_dice(input: &str) -> (r: Result<(&str, Dice), ParseError>)
    ensures
        parsed(input@, r, spec_dice(input@, 0)),
{
    let chars = chars_of(input);
    match p_dice(&chars, 0) {
        Some((v, end)) => Ok((rest_of(input, &chars, end), v)),
        None => Err(ParseError),
    }
}

pub fn parse_filter(input: &str) -> (r: Result<(&str, Filter), ParseError>)
    ensures
        parsed(input@, r, spec_filter(input@, 0)),
{
    let chars = chars_of(input);
    match p_filter(&chars, 0) {
        Some((v, end)) => Ok((rest_of(input, &chars, end), v)),
        None => Err(ParseError),
    }
}

pub fn parse_filtered_dice(input: &str) -> (r: Result<(&str, FilteredDice), ParseError>)
    ensures
        parsed(input@, r, spec_filtered_dice(input@, 0)),
{
    let chars = chars_of(input);
    match p_filtered_dice(&chars, 0) {
        Some((v, end)) => Ok((rest_of(input, &chars, end), v)),
        None => Err(ParseError),
    }
}

pub fn parse_selector(input: &str) -> (r: Result<(&str, Selector), ParseError>)
    ensures
        parsed(input@, r, spec_selector(input@, 0)),
{
    let chars = chars_of(input);
    match p_selector(&chars, 0) {
        Some((v, end)) => Ok((rest_of(input, &chars, end), v)),
        None => Err(ParseError),
    }
}

pub fn parse_selected_dice(input: &str) -> (r: Result<(&str, SelectedDice), ParseError>)
    ensures
        parsed(input@, r, spec_selected_dice(input@, 0)),
{
    let chars = chars_of(input);
    match p_selected_dice(&chars, 0) {
        Some((v, end)) => Ok((rest_of(input, &chars, end), v)),
        None => Err(ParseError),
    }
}

pub fn parse_operator(input: &str) -> (r: Result<(&str, Operation), ParseError>)
    ensures
        parsed(input@, r, spec_operator(input@, 0)),
{
    let chars = chars_of(input);
    match p_operator(&chars, 0) {
        Some((v, end)) => Ok((rest_of(input, &chars, end), v)),
        None => Err(ParseError),
    }
}

/// A term as written: operators group to the right.
pub fn parse_term(input: &str) -> (r: Result<(&str, Term), ParseError>)
    ensures
        parsed(input@, r, spec_term(input@, 0)),
{
    let chars = chars_of(input);
    match p_term(&chars, 0) {
        Some((v, end)) => Ok((rest_of(input, &chars, end), v)),
        None => Err(ParseError),
    }
}

pub fn parse_term_constant(input: &str) -> (r: Result<(&str, Term), ParseError>)
    ensures
        parsed(
            input@,
            r,
            match spec_i64(input@, 0) {
                Some((c, e)) => Some((Term::Constant(c), e)),
                None => None,
            },
        ),
{
    let chars = chars_of(input);
    match p_i64(&chars, 0) {
        Some((v, end)) => Ok((rest_of(input, &chars, end), Term::Constant(v))),
        None => Err(ParseError),
    }
}

pub fn parse_term_roll(input: &str) -> (r: Result<(&str, Term), ParseError>)
    ensures
        parsed(
            input@,
            r,
            match spec_selected_dice(input@, 0) {
                Some((d, e)) => Some((Term::DiceThrow(d), e)),
                None => None,
            },
        ),
{
    let chars = chars_of(input);
    match p_selected_dice(&chars, 0) {
        Some((v, end)) => Ok((rest_of(input, &chars, end), Term::DiceThrow(v))),
        None => Err(ParseError),
    }
}

/// A term in parentheses.
pub fn parse_term_subterm(input: &str) -> (r: Result<(&str, Term), ParseError>)
    ensures
        parsed(
            input@,
            r,
            if char_at(input@, 0, '(') {
                spec_primary(input@, 0)
            } else {
                None
            },
        ),
{
    let chars = chars_of(input);
    if at(&chars, 0, '(') {
        match p_primary(&chars, 0) {
            Some((v, end)) => Ok((rest_of(input, &chars, end), v)),
            None => Err(ParseError),
        }
    } else {
        Err(ParseError)
    }
}

/// An operand, an operator and a term: fails where no operator follows.
pub fn parse_term_calculation(input: &str) -> (r: Result<(&str, Term), ParseError>)
    ensures
        parsed(
            input@,
            r,
            match spec_term(input@, 0) {
                Some((t, e)) => if t is Calculation {
                    Some((t, e))
                } else {
                    None
                },
                None => None,
            },
        ),
{
    let chars = chars_of(input);
    match p_term(&chars, 0) {
        Some((v, end)) => {
            if matches!(v, Term::Calculation(..)) {
                Ok((rest_of(input, &chars, end), v))
            } else {
                Err(ParseError)
            }
        },
        None => Err(ParseError),
    }
}

/// A term with products and quotients turned to bind first.
pub fn parse_rearanged_term(input: &str) -> (r: Result<(&str, Term), ParseError>)
    ensures
        parsed(
            input@,
            r,
            match spec_term(input@, 0) {
                Some((t, e)) => Some((rearrange(t), e)),
                None => None,
            },
        ),
{
    let chars = chars_of(input);
    match p_term(&chars, 0) {
        Some((v, end)) => Ok((rest_of(input, &chars, end), rearange_term(v))),
        None => Err(ParseError),
    }
}

/// `n{term}` for a list of `n` evaluations, or a term.
pub fn parse_expression(input: &str) -> (r: Result<(&str, Expression), ParseError>)
    ensures
        parsed(input@, r, spec_expression(input@, 0)),
{
    let chars = chars_of(input);
    match p_expression(&chars, 0) {
        Some((v, end)) => Ok((rest_of(input, &chars, end), v)),
        None => Err(ParseError),
    }
}

/// An expression, then optionally `#` and a label.
pub fn parse_labeled(input: &str) -> (r: Result<(&str, LabeledExpression), ParseError>)
    ensures
        match spec_labeled(input@, 0) {
            Some((e, l, end)) => r matches Ok((rest, le)) && labeled_parts(le) == (e, l) && rest@
                == input@.skip(end),
            None => r is Err,
        },
{
    let chars = chars_of(input);
    match p_labeled(&chars, 0) {
        Some((v, end)) => Ok((rest_of(input, &chars, end), v)),
        None => Err(ParseError),
    }
}

} // verus!
