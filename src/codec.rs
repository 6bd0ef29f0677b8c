//! Serialization of stored roll expressions.
//!
//! The encoding is a prefix form: one tag character per node, numbers in
//! decimal closed by `;`. The first character names the version: `1` for the
//! legacy unlabeled form, `2` for an unlabeled and `3` for a labeled
//! expression, whose label is the rest of the text. Writers produce the
//! labeled versions; readers accept all three.

use vstd::prelude::*;
use vstd::string::StrSliceExecFns;
use crate::dice_types::{
    op_char, selector_char, Dice, DiceType, Expression, Filter, FilteredDice, LabeledExpression,
    Operation, SelectedDice, Selector, Term, VersionedRollExpr,
};
use crate::parser::{char_at, digits_end, digits_value, is_digit, lifted};
use crate::text::digit_char;
use crate::text::{int_text, nat_text, push_int, push_nat, chars_of, string_of};

verus! {

pub open spec fn num_code(n: nat) -> Seq<char> {
    nat_text(n) + seq![';']
}

pub open spec fn filter_code(f: Filter) -> char {
    match f {
        Filter::Bigger => '>',
        Filter::BiggerEq => 'g',
        Filter::Smaller => '<',
        Filter::SmallerEq => 'l',
        Filter::NotEq => '!',
    }
}

pub open spec fn dice_code(d: Dice) -> Seq<char> {
    num_code(d.throws as nat) + match d.dice {
        DiceType::Number(n) => seq!['n'] + num_code(n as nat),
        DiceType::Fudge => seq!['f'],
        DiceType::Multiply(n) => seq!['m'] + num_code(n as nat),
    }
}

pub open spec fn filtered_code(f: FilteredDice) -> Seq<char> {
    match f {
        FilteredDice::Simple(d) => seq!['n'] + dice_code(d),
        FilteredDice::Filtered(d, fil, n) => seq!['f', filter_code(fil)] + dice_code(d) + num_code(n as nat),
    }
}

pub open spec fn selected_code(s: SelectedDice) -> Seq<char> {
    match s {
        SelectedDice::Unchanged(f) => seq!['u'] + filtered_code(f),
        SelectedDice::Selected(f, sel, n) => seq!['s', selector_char(sel)] + filtered_code(f) + num_code(n as nat),
    }
}

pub open spec fn term_code(t: Term) -> Seq<char>
    decreases t,
{
    match t {
        Term::Constant(c) => seq!['c'] + int_text(c as int) + seq![';'],
        Term::DiceThrow(d) => seq!['d'] + selected_code(d),
        Term::Calculation(l, op, r) => seq!['o', op_char(op)] + term_code(*l) + term_code(*r),
        Term::SubTerm(x) => seq!['p'] + term_code(*x),
    }
}

pub open spec fn expression_code(e: Expression) -> Seq<char> {
    match e {
        Expression::Simple(t) => seq!['s'] + term_code(t),
        Expression::List(n, t) => seq!['l'] + num_code(n as nat) + term_code(t),
    }
}

/// The serialized form of a stored expression.
pub open spec fn versioned_code(e: VersionedRollExpr) -> Seq<char> {
    match e {
        VersionedRollExpr::V1(x) => seq!['1'] + expression_code(x),
        VersionedRollExpr::V2(LabeledExpression::Unlabeled(x)) => seq!['2'] + expression_code(x),
        VersionedRollExpr::V2(LabeledExpression::Labeled(x, l)) => seq!['3'] + expression_code(x) + l@,
    }
}

/// A decimal number closed by `;`, no larger than `limit`.
pub open spec fn dec_num(s: Seq<char>, pos: int, limit: nat) -> Option<(nat, int)> {
    let end = digits_end(s, pos);
    if end > pos && char_at(s, end, ';') && digits_value(s.subrange(pos, end)) <= limit {
        Some((digits_value(s.subrange(pos, end)), end + 1))
    } else {
        None
    }
}

pub open spec fn dec_u32(s: Seq<char>, pos: int) -> Option<(u32, int)> {
    match dec_num(s, pos, u32::MAX as nat) {
        Some((v, e)) => Some((v as u32, e)),
        None => None,
    }
}

pub open spec fn dec_i64(s: Seq<char>, pos: int) -> Option<(i64, int)> {
    if char_at(s, pos, '-') {
        match dec_num(s, pos + 1, 0x8000_0000_0000_0000) {
            Some((v, e)) => if v > 0 {
                Some(((-v) as i64, e))
            } else {
                None
            },
            None => None,
        }
    } else {
        match dec_num(s, pos, i64::MAX as nat) {
            Some((v, e)) => Some((v as i64, e)),
            None => None,
        }
    }
}

pub open spec fn dec_dice(s: Seq<char>, pos: int) -> Option<(Dice, int)> {
    match dec_u32(s, pos) {
        Some((t, p)) => if char_at(s, p, 'n') {
            match dec_u32(s, p + 1) {
                Some((n, e)) => Some((Dice { throws: t, dice: DiceType::Number(n) }, e)),
                None => None,
            }
        } else if char_at(s, p, 'f') {
            Some((Dice { throws: t, dice: DiceType::Fudge }, p + 1))
        } else if char_at(s, p, 'm') {
            match dec_u32(s, p + 1) {
                Some((n, e)) => Some((Dice { throws: t, dice: DiceType::Multiply(n) }, e)),
                None => None,
            }
        } else {
            None
        },
        None => None,
    }
}

pub open spec fn dec_filter(c: char) -> Option<Filter> {
    if c == '>' {
        Some(Filter::Bigger)
    } else if c == 'g' {
        Some(Filter::BiggerEq)
    } else if c == '<' {
        Some(Filter::Smaller)
    } else if c == 'l' {
        Some(Filter::SmallerEq)
    } else if c == '!' {
        Some(Filter::NotEq)
    } else {
        None
    }
}

pub open spec fn dec_filtered(s: Seq<char>, pos: int) -> Option<(FilteredDice, int)> {
    if char_at(s, pos, 'n') {
        match dec_dice(s, pos + 1) {
            Some((d, e)) => Some((FilteredDice::Simple(d), e)),
            None => None,
        }
    } else if char_at(s, pos, 'f') && 0 <= pos + 1 < s.len() {
        match dec_filter(s[pos + 1]) {
            Some(f) => match dec_dice(s, pos + 2) {
                Some((d, p)) => match dec_u32(s, p) {
                    Some((n, e)) => Some((FilteredDice::Filtered(d, f, n), e)),
                    None => None,
                },
                None => None,
            },
            None => None,
        }
    } else {
        None
    }
}

pub open spec fn dec_selected(s: Seq<char>, pos: int) -> Option<(SelectedDice, int)> {
    if char_at(s, pos, 'u') {
        match dec_filtered(s, pos + 1) {
            Some((f, e)) => Some((SelectedDice::Unchanged(f), e)),
            None => None,
        }
    } else if char_at(s, pos, 's') && 0 <= pos + 1 < s.len() && (s[pos + 1] == 'h' || s[pos + 1] == 'l') {
        let sel = if s[pos + 1] == 'h' {
            Selector::Higher
        } else {
            Selector::Lower
        };
        match dec_filtered(s, pos + 2) {
            Some((f, p)) => match dec_u32(s, p) {
                Some((n, e)) => Some((SelectedDice::Selected(f, sel, n), e)),
                None => None,
            },
            None => None,
        }
    } else {
        None
    }
}

pub open spec fn dec_op(c: char) -> Option<Operation> {
    if c == '*' {
        Some(Operation::Mul)
    } else if c == '/' {
        Some(Operation::Div)
    } else if c == '+' {
        Some(Operation::Add)
    } else if c == '-' {
        Some(Operation::Sub)
    } else {
        None
    }
}

pub open spec fn dec_term(s: Seq<char>, pos: int) -> Option<(Term, int)>
    decreases s.len() - pos,
{
    if !(0 <= pos < s.len()) {
        None
    } else if s[pos] == 'c' {
        match dec_i64(s, pos + 1) {
            Some((c, e)) => Some((Term::Constant(c), e)),
            None => None,
        }
    } else if s[pos] == 'd' {
        match dec_selected(s, pos + 1) {
            Some((d, e)) => Some((Term::DiceThrow(d), e)),
            None => None,
        }
    } else if s[pos] == 'p' {
        match dec_term(s, pos + 1) {
            Some((t, e)) => Some((Term::SubTerm(Box::new(t)), e)),
            None => None,
        }
    } else if s[pos] == 'o' && pos + 1 < s.len() {
        match dec_op(s[pos + 1]) {
            Some(op) => match dec_term(s, pos + 2) {
                Some((l, p)) => if pos < p <= s.len() {
                    match dec_term(s, p) {
                        Some((r, e)) => Some((Term::Calculation(Box::new(l), op, Box::new(r)), e)),
                        None => None,
                    }
                } else {
                    None
                },
                None => None,
            },
            None => None,
        }
    } else {
        None
    }
}

pub open spec fn dec_expression(s: Seq<char>, pos: int) -> Option<(Expression, int)> {
    if char_at(s, pos, 's') {
        match dec_term(s, pos + 1) {
            Some((t, e)) => Some((Expression::Simple(t), e)),
            None => None,
        }
    } else if char_at(s, pos, 'l') {
        match dec_u32(s, pos + 1) {
            Some((n, p)) => match dec_term(s, p) {
                Some((t, e)) => Some((Expression::List(n, t), e)),
                None => None,
            },
            None => None,
        }
    } else {
        None
    }
}

/// What a serialized expression holds: its version, expression and label.
pub open spec fn dec_versioned(s: Seq<char>) -> Option<(int, Expression, Seq<char>)> {
    if s.len() > 0 && (s[0] == '1' || s[0] == '2' || s[0] == '3') {
        match dec_expression(s, 1) {
            Some((x, e)) => if s[0] == '3' {
                Some((3, x, s.subrange(e, s.len() as int)))
            } else if e == s.len() {
                Some((if s[0] == '1' { 1int } else { 2int }, x, Seq::empty()))
            } else {
                None
            },
            None => None,
        }
    } else {
        None
    }
}

/// Version, expression and label of a stored expression.
pub open spec fn versioned_parts(e: VersionedRollExpr) -> (int, Expression, Seq<char>) {
    match e {
        VersionedRollExpr::V1(x) => (1, x, Seq::empty()),
        VersionedRollExpr::V2(LabeledExpression::Unlabeled(x)) => (2, x, Seq::empty()),
        VersionedRollExpr::V2(LabeledExpression::Labeled(x, l)) => (3, x, l@),
    }
}

fn write_num(out: &mut Vec<char>, n: u64)
    ensures
        final(out)@ == old(out)@ + num_code(n as nat),
{
    push_nat(out, n);
    out.push(';');
    assert(final(out)@ =~= old(out)@ + num_code(n as nat));
}

fn filter_char(f: Filter) -> (c: char)
    ensures
        c == filter_code(f),
{
    match f {
        Filter::Bigger => '>',
        Filter::BiggerEq => 'g',
        Filter::Smaller => '<',
        Filter::SmallerEq => 'l',
        Filter::NotEq => '!',
    }
}

fn write_dice(out: &mut Vec<char>, d: Dice)
    ensures
        final(out)@ == old(out)@ + dice_code(d),
{
    write_num(out, d.throws as u64);
    match d.dice {
        DiceType::Number(n) => {
            out.push('n');
            write_num(out, n as u64);
        },
        DiceType::Fudge => {
            out.push('f');
        },
        DiceType::Multiply(n) => {
            out.push('m');
            write_num(out, n as u64);
        },
    }
    assert(final(out)@ =~= old(out)@ + dice_code(d));
}

fn write_filtered(out: &mut Vec<char>, f: FilteredDice)
    ensures
        final(out)@ == old(out)@ + filtered_code(f),
{
    match f {
        FilteredDice::Simple(d) => {
            out.push('n');
            write_dice(out, d);
        },
        FilteredDice::Filtered(d, fil, n) => {
            out.push('f');
            out.push(filter_char(fil));
            write_dice(out, d);
            write_num(out, n as u64);
        },
    }
    assert(final(out)@ =~= old(out)@ + filtered_code(f));
}

fn write_selected(out: &mut Vec<char>, s: SelectedDice)
    ensures
        final(out)@ == old(out)@ + selected_code(s),
{
    match s {
        SelectedDice::Unchanged(f) => {
            out.push('u');
            write_filtered(out, f);
        },
        SelectedDice::Selected(f, sel, n) => {
            out.push('s');
            out.push(sel.to_char());
            write_filtered(out, f);
            write_num(out, n as u64);
        },
    }
    assert(final(out)@ =~= old(out)@ + selected_code(s));
}

fn write_term(out: &mut Vec<char>, t: &Term)
    ensures
        final(out)@ == old(out)@ + term_code(*t),
    decreases t,
{
    match t {
        Term::Constant(c) => {
            out.push('c');
            push_int(out, *c);
            out.push(';');
        },
        Term::DiceThrow(d) => {
            out.push('d');
            write_selected(out, *d);
        },
        Term::Calculation(l, op, r) => {
            out.push('o');
            out.push(op.to_char());
            write_term(out, l);
            write_term(out, r);
        },
        Term::SubTerm(x) => {
            out.push('p');
            write_term(out, x);
        },
    }
    assert(final(out)@ =~= old(out)@ + term_code(*t));
}

fn write_expression(out: &mut Vec<char>, e: &Expression)
    ensures
        final(out)@ == old(out)@ + expression_code(*e),
{
    match e {
        Expression::Simple(t) => {
            out.push('s');
            write_term(out, t);
        },
        Expression::List(n, t) => {
            out.push('l');
            write_num(out, *n as u64);
            write_term(out, t);
        },
    }
    assert(final(out)@ =~= old(out)@ + expression_code(*e));
}

/// The serialized form of an expression.
pub fn serialize(e: &VersionedRollExpr) -> (r: String)
    ensures
        r@ == versioned_code(*e),
{
    let mut out: Vec<char> = Vec::new();
    match e {
        VersionedRollExpr::V1(x) => {
            out.push('1');
            write_expression(&mut out, x);
        },
        VersionedRollExpr::V2(LabeledExpression::Unlabeled(x)) => {
            out.push('2');
            write_expression(&mut out, x);
        },
        VersionedRollExpr::V2(LabeledExpression::Labeled(x, l)) => {
            out.push('3');
            write_expression(&mut out, x);
            let mut label = chars_of(l.as_str());
            out.append(&mut label);
        },
    }
    assert(out@ =~= versioned_code(*e));
    string_of(&out)
}

fn at(s: &Vec<char>, pos: usize, c: char) -> (r: bool)
    ensures
        r == char_at(s@, pos as int, c),
{
    pos < s.len() && s[pos] == c
}

proof fn lemma_digits_end_le(s: Seq<char>, pos: int)
    requires
        0 <= pos <= s.len(),
    ensures
        pos <= digits_end(s, pos) <= s.len(),
    decreases s.len() - pos,
{
    if pos < s.len() && crate::parser::is_digit(s[pos]) {
        lemma_digits_end_le(s, pos + 1);
    }
}

fn read_num(s: &Vec<char>, pos: usize, limit: u64) -> (r: Option<(u64, usize)>)
    requires
        pos <= s.len(),
        limit >= 9,
    ensures
        match dec_num(s@, pos as int, limit as nat) {
            Some((v, e)) => r == Some((v as u64, e as usize)) && pos < e <= s.len(),
            None => r is None,
        },
{
    let mut i: usize = pos;
    let mut v: u64 = 0;
    proof {
        lemma_digits_end_le(s@, pos as int);
    }
    let ghost end = digits_end(s@, pos as int);
    while i < s.len() && '0' <= s[i] && s[i] <= '9'
        invariant
            pos <= i <= end,
            end <= s.len(),
            end == digits_end(s@, pos as int),
            digits_end(s@, i as int) == end,
            v as int == digits_value(s@.subrange(pos as int, i as int)),
            v <= limit,
            limit >= 9,
        decreases s.len() - i,
    {
        let d = (s[i] as u32 - '0' as u32) as u64;
        assert(s@.subrange(pos as int, i + 1int).drop_last() =~= s@.subrange(pos as int, i as int));
        proof {
            lemma_digits_end_le(s@, i + 1int);
        }
        if v > (limit - d) / 10 {
            proof {
                lemma_num_too_big(s@, pos as int, i as int, limit as nat);
            }
            return None;
        }
        v = v * 10 + d;
        i = i + 1;
    }
    if i > pos && at(s, i, ';') {
        Some((v, i + 1))
    } else {
        None
    }
}

/// A run of digits whose prefix already exceeds the limit exceeds it.
proof fn lemma_num_too_big(s: Seq<char>, pos: int, i: int, limit: nat)
    requires
        0 <= pos <= i < digits_end(s, pos),
        digits_end(s, pos) <= s.len(),
        digits_end(s, i) == digits_end(s, pos),
        digits_value(s.subrange(pos, i)) * 10 + digit_value_at(s, i) > limit,
    ensures
        digits_value(s.subrange(pos, digits_end(s, pos))) > limit,
    decreases digits_end(s, pos) - i,
{
    let end = digits_end(s, pos);
    assert(s.subrange(pos, i + 1).drop_last() =~= s.subrange(pos, i));
    if i + 1 < end {
        assert(digits_end(s, i + 1) == end);
        lemma_digits_positive_step(s, pos, i + 1);
        lemma_num_too_big(s, pos, i + 1, limit);
    }
}

pub open spec fn digit_value_at(s: Seq<char>, i: int) -> int {
    (s[i] as int) - ('0' as int)
}

proof fn lemma_digits_positive_step(s: Seq<char>, pos: int, i: int)
    requires
        0 <= pos <= i < s.len(),
        crate::parser::is_digit(s[i]),
    ensures
        digits_value(s.subrange(pos, i + 1)) >= digits_value(s.subrange(pos, i)) * 10,
{
    assert(s.subrange(pos, i + 1).drop_last() =~= s.subrange(pos, i));
}

fn read_u32(s: &Vec<char>, pos: usize) -> (r: Option<(u32, usize)>)
    requires
        pos <= s.len(),
    ensures
        lifted(r, dec_u32(s@, pos as int), pos as int, s.len() as int),
{
    match read_num(s, pos, 0xFFFF_FFFF) {
        Some((v, e)) => Some((v as u32, e)),
        None => None,
    }
}

fn read_i64(s: &Vec<char>, pos: usize) -> (r: Option<(i64, usize)>)
    requires
        pos <= s.len(),
    ensures
        lifted(r, dec_i64(s@, pos as int), pos as int, s.len() as int),
{
    if at(s, pos, '-') {
        match read_num(s, pos + 1, 0x8000_0000_0000_0000) {
            Some((v, e)) => {
                if v > 0 {
                    let m: i128 = -(v as i128);
                    Some((m as i64, e))
                } else {
                    None
                }
            },
            None => None,
        }
    } else {
        match read_num(s, pos, 0x7FFF_FFFF_FFFF_FFFF) {
            Some((v, e)) => Some((v as i64, e)),
            None => None,
        }
    }
}

fn read_dice(s: &Vec<char>, pos: usize) -> (r: Option<(Dice, usize)>)
    requires
        pos <= s.len(),
    ensures
        lifted(r, dec_dice(s@, pos as int), pos as int, s.len() as int),
{
    match read_u32(s, pos) {
        Some((t, p)) => {
            if at(s, p, 'n') {
                match read_u32(s, p + 1) {
                    Some((n, e)) => Some((Dice { throws: t, dice: DiceType::Number(n) }, e)),
                    None => None,
                }
            } else if at(s, p, 'f') {
                Some((Dice { throws: t, dice: DiceType::Fudge }, p + 1))
            } else if at(s, p, 'm') {
                match read_u32(s, p + 1) {
                    Some((n, e)) => Some((Dice { throws: t, dice: DiceType::Multiply(n) }, e)),
                    None => None,
                }
            } else {
                None
            }
        },
        None => None,
    }
}

fn read_filter(c: char) -> (r: Option<Filter>)
    ensures
        r == dec_filter(c),
{
    if c == '>' {
        Some(Filter::Bigger)
    } else if c == 'g' {
        Some(Filter::BiggerEq)
    } else if c == '<' {
        Some(Filter::Smaller)
    } else if c == 'l' {
        Some(Filter::SmallerEq)
    } else if c == '!' {
        Some(Filter::NotEq)
    } else {
        None
    }
}

fn read_filtered(s: &Vec<char>, pos: usize) -> (r: Option<(FilteredDice, usize)>)
    requires
        pos <= s.len(),
    ensures
        lifted(r, dec_filtered(s@, pos as int), pos as int, s.len() as int),
{
    if at(s, pos, 'n') {
        match read_dice(s, pos + 1) {
            Some((d, e)) => Some((FilteredDice::Simple(d), e)),
            None => None,
        }
    } else if at(s, pos, 'f') && pos + 1 < s.len() {
        match read_filter(s[pos + 1]) {
            Some(f) => match read_dice(s, pos + 2) {
                Some((d, p)) => match read_u32(s, p) {
                    Some((n, e)) => Some((FilteredDice::Filtered(d, f, n), e)),
                    None => None,
                },
                None => None,
            },
            None => None,
        }
    } else {
        None
    }
}

fn read_selected(s: &Vec<char>, pos: usize) -> (r: Option<(SelectedDice, usize)>)
    requires
        pos <= s.len(),
    ensures
        lifted(r, dec_selected(s@, pos as int), pos as int, s.len() as int),
{
    if at(s, pos, 'u') {
        match read_filtered(s, pos + 1) {
            Some((f, e)) => Some((SelectedDice::Unchanged(f), e)),
            None => None,
        }
    } else if at(s, pos, 's') && pos + 1 < s.len() && (s[pos + 1] == 'h' || s[pos + 1] == 'l') {
        let sel = if s[pos + 1] == 'h' {
            Selector::Higher
        } else {
            Selector::Lower
        };
        match read_filtered(s, pos + 2) {
            Some((f, p)) => match read_u32(s, p) {
                Some((n, e)) => Some((SelectedDice::Selected(f, sel, n), e)),
                None => None,
            },
            None => None,
        }
    } else {
        None
    }
}

fn read_op(c: char) -> (r: Option<Operation>)
    ensures
        r == dec_op(c),
{
    if c == '*' {
        Some(Operation::Mul)
    } else if c == '/' {
        Some(Operation::Div)
    } else if c == '+' {
        Some(Operation::Add)
    } else if c == '-' {
        Some(Operation::Sub)
    } else {
        None
    }
}

fn read_term(s: &Vec<char>, pos: usize) -> (r: Option<(Term, usize)>)
    requires
        pos <= s.len(),
    ensures
        lifted(r, dec_term(s@, pos as int), pos as int, s.len() as int),
    decreases s.len() - pos,
{
    if pos >= s.len() {
        None
    } else if s[pos] == 'c' {
        match read_i64(s, pos + 1) {
            Some((c, e)) => Some((Term::Constant(c), e)),
            None => None,
        }
    } else if s[pos] == 'd' {
        match read_selected(s, pos + 1) {
            Some((d, e)) => Some((Term::DiceThrow(d), e)),
            None => None,
        }
    } else if s[pos] == 'p' {
        match read_term(s, pos + 1) {
            Some((t, e)) => Some((Term::SubTerm(Box::new(t)), e)),
            None => None,
        }
    } else if s[pos] == 'o' && pos + 1 < s.len() {
        match read_op(s[pos + 1]) {
            Some(op) => match read_term(s, pos + 2) {
                Some((l, p)) => {
                    if pos < p {
                        match read_term(s, p) {
                            Some((r, e)) => Some((Term::Calculation(Box::new(l), op, Box::new(r)), e)),
                            None => None,
                        }
                    } else {
                        None
                    }
                },
                None => None,
            },
            None => None,
        }
    } else {
        None
    }
}

fn read_expression(s: &Vec<char>, pos: usize) -> (r: Option<(Expression, usize)>)
    requires
        pos <= s.len(),
    ensures
        lifted(r, dec_expression(s@, pos as int), pos as int, s.len() as int),
{
    if at(s, pos, 's') {
        match read_term(s, pos + 1) {
            Some((t, e)) => Some((Expression::Simple(t), e)),
            None => None,
        }
    } else if at(s, pos, 'l') {
        match read_u32(s, pos + 1) {
            Some((n, p)) => match read_term(s, p) {
                Some((t, e)) => Some((Expression::List(n, t), e)),
                None => None,
            },
            None => None,
        }
    } else {
        None
    }
}

/// Reads a serialized expression; `None` when the text is not one.
pub fn deserialize(text: &str) -> (r: Option<VersionedRollExpr>)
    ensures
        match dec_versioned(text@) {
            Some(parts) => r matches Some(e) && versioned_parts(e) == parts,
            None => r is None,
        },
{
    let s = chars_of(text);
    if s.len() == 0 || !(s[0] == '1' || s[0] == '2' || s[0] == '3') {
        return None;
    }
    match read_expression(&s, 1) {
        Some((x, e)) => {
            if s[0] == '3' {
                let label = text.substring_char(e, s.len());
                Some(VersionedRollExpr::V2(LabeledExpression::Labeled(x, label.to_owned())))
            } else if e == s.len() {
                if s[0] == '1' {
                    Some(VersionedRollExpr::V1(x))
                } else {
                    Some(VersionedRollExpr::V2(LabeledExpression::Unlabeled(x)))
                }
            } else {
                None
            }
        },
        None => None,
    }
}

/// `s` holds `c` from `pos` on.
pub open spec fn at_code(s: Seq<char>, pos: int, c: Seq<char>) -> bool {
    0 <= pos && pos + c.len() <= s.len() && s.subrange(pos, pos + c.len()) == c
}

pub(crate) proof fn lemma_at_code_split(s: Seq<char>, pos: int, a: Seq<char>, b: Seq<char>)
    requires
        at_code(s, pos, a + b),
    ensures
        at_code(s, pos, a),
        at_code(s, pos + a.len(), b),
{
    let whole = s.subrange(pos, pos + a.len() + b.len());
    assert(whole == a + b);
    assert forall|i: int| 0 <= i < a.len() implies #[trigger] s.subrange(pos, pos + a.len())[i] == a[i] by {
        assert(whole[i] == s[pos + i]);
        assert((a + b)[i] == a[i]);
    }
    assert forall|i: int| 0 <= i < b.len() implies #[trigger] s.subrange(pos + a.len(), pos + a.len() + b.len())[i] == b[i] by {
        assert(whole[a.len() + i] == s[pos + a.len() + i]);
        assert((a + b)[a.len() + i] == b[i]);
    }
    assert(s.subrange(pos, pos + a.len()) =~= a);
    assert(s.subrange(pos + a.len(), pos + a.len() + b.len()) =~= b);
}

pub(crate) proof fn lemma_at_code_char(s: Seq<char>, pos: int, c: Seq<char>, i: int)
    requires
        at_code(s, pos, c),
        0 <= i < c.len(),
    ensures
        s[pos + i] == c[i],
{
    assert(s.subrange(pos, pos + c.len())[i] == s[pos + i]);
}

proof fn lemma_digit_char(d: nat)
    requires
        d < 10,
    ensures
        is_digit(digit_char(d)),
        (digit_char(d) as int) - ('0' as int) == d,
{
}

/// The decimal digits of `n` are digits, and read back as `n`.
pub(crate) proof fn lemma_nat_text(n: nat)
    ensures
        nat_text(n).len() >= 1,
        forall|i: int| 0 <= i < nat_text(n).len() ==> is_digit(#[trigger] nat_text(n)[i]),
        digits_value(nat_text(n)) == n,
    decreases n,
{
    if n < 10 {
        lemma_digit_char(n);
        assert(seq![digit_char(n)].drop_last() =~= Seq::<char>::empty());
        assert(seq![digit_char(n)].last() == digit_char(n));
        assert(digits_value(Seq::<char>::empty()) == 0);
    } else {
        lemma_nat_text(n / 10);
        lemma_digit_char(n % 10);
        assert(nat_text(n).drop_last() =~= nat_text(n / 10));
        assert(nat_text(n).last() == digit_char(n % 10));
        assert((n / 10) * 10 + n % 10 == n) by (nonlinear_arith);
        assert forall|i: int| 0 <= i < nat_text(n).len() implies is_digit(#[trigger] nat_text(n)[i]) by {
            if i < nat_text(n / 10).len() {
                assert(nat_text(n)[i] == nat_text(n / 10)[i]);
            }
        }
    }
}

/// Digits from `pos` up to a non-digit end there.
proof fn lemma_digits_end_run(s: Seq<char>, pos: int, end: int)
    requires
        0 <= pos <= end < s.len(),
        forall|i: int| pos <= i < end ==> is_digit(#[trigger] s[i]),
        !is_digit(s[end]),
    ensures
        digits_end(s, pos) == end,
    decreases end - pos,
{
    if pos < end {
        lemma_digits_end_run(s, pos + 1, end);
    }
}

proof fn lemma_dec_num(s: Seq<char>, pos: int, n: nat, limit: nat)
    requires
        at_code(s, pos, num_code(n)),
        n <= limit,
    ensures
        dec_num(s, pos, limit) == Some((n, pos + num_code(n).len())),
{
    lemma_nat_text(n);
    let t = nat_text(n);
    lemma_at_code_split(s, pos, t, seq![';']);
    lemma_at_code_char(s, pos + t.len(), seq![';'], 0);
    assert forall|i: int| pos <= i < pos + t.len() implies is_digit(#[trigger] s[i]) by {
        lemma_at_code_char(s, pos, t, i - pos);
    }
    lemma_digits_end_run(s, pos, pos + t.len());
}

proof fn lemma_dec_u32(s: Seq<char>, pos: int, n: u32)
    requires
        at_code(s, pos, num_code(n as nat)),
    ensures
        dec_u32(s, pos) == Some((n, pos + num_code(n as nat).len())),
{
    lemma_dec_num(s, pos, n as nat, u32::MAX as nat);
}

proof fn lemma_dec_i64(s: Seq<char>, pos: int, c: i64)
    requires
        at_code(s, pos, int_text(c as int) + seq![';']),
    ensures
        dec_i64(s, pos) == Some((c, pos + int_text(c as int).len() + 1)),
{
    if c < 0 {
        let m = (-c) as nat;
        assert(int_text(c as int) + seq![';'] =~= seq!['-'] + num_code(m));
        lemma_at_code_split(s, pos, seq!['-'], num_code(m));
        lemma_at_code_char(s, pos, seq!['-'], 0);
        lemma_dec_num(s, pos + 1, m, 0x8000_0000_0000_0000);
    } else {
        lemma_nat_text(c as nat);
        lemma_at_code_char(s, pos, int_text(c as int) + seq![';'], 0);
        assert((int_text(c as int) + seq![';'])[0] == nat_text(c as nat)[0]);
        lemma_dec_num(s, pos, c as nat, i64::MAX as nat);
    }
}

proof fn lemma_dec_dice(s: Seq<char>, pos: int, d: Dice)
    requires
        at_code(s, pos, dice_code(d)),
    ensures
        dec_dice(s, pos) == Some((d, pos + dice_code(d).len())),
{
    let t = num_code(d.throws as nat);
    let k = dice_code(d).subrange(t.len() as int, dice_code(d).len() as int);
    assert(dice_code(d) =~= t + k);
    lemma_at_code_split(s, pos, t, k);
    lemma_dec_u32(s, pos, d.throws);
    let p = pos + t.len();
    match d.dice {
        DiceType::Number(n) => {
            assert(k =~= seq!['n'] + num_code(n as nat));
            lemma_at_code_split(s, p, seq!['n'], num_code(n as nat));
            lemma_at_code_char(s, p, seq!['n'], 0);
            lemma_dec_u32(s, p + 1, n);
        },
        DiceType::Fudge => {
            assert(k =~= seq!['f']);
            lemma_at_code_char(s, p, seq!['f'], 0);
        },
        DiceType::Multiply(n) => {
            assert(k =~= seq!['m'] + num_code(n as nat));
            lemma_at_code_split(s, p, seq!['m'], num_code(n as nat));
            lemma_at_code_char(s, p, seq!['m'], 0);
            lemma_dec_u32(s, p + 1, n);
        },
    }
}

proof fn lemma_dec_filtered(s: Seq<char>, pos: int, f: FilteredDice)
    requires
        at_code(s, pos, filtered_code(f)),
    ensures
        dec_filtered(s, pos) == Some((f, pos + filtered_code(f).len())),
{
    match f {
        FilteredDice::Simple(d) => {
            lemma_at_code_split(s, pos, seq!['n'], dice_code(d));
            lemma_at_code_char(s, pos, seq!['n'], 0);
            lemma_dec_dice(s, pos + 1, d);
        },
        FilteredDice::Filtered(d, fil, n) => {
            let head = seq!['f', filter_code(fil)];
            assert(filtered_code(f) =~= head + (dice_code(d) + num_code(n as nat)));
            lemma_at_code_split(s, pos, head, dice_code(d) + num_code(n as nat));
            lemma_at_code_char(s, pos, head, 0);
            lemma_at_code_char(s, pos, head, 1);
            lemma_at_code_split(s, pos + 2, dice_code(d), num_code(n as nat));
            lemma_dec_dice(s, pos + 2, d);
            lemma_dec_u32(s, pos + 2 + dice_code(d).len(), n);
        },
    }
}

proof fn lemma_dec_selected(s: Seq<char>, pos: int, x: SelectedDice)
    requires
        at_code(s, pos, selected_code(x)),
    ensures
        dec_selected(s, pos) == Some((x, pos + selected_code(x).len())),
{
    match x {
        SelectedDice::Unchanged(f) => {
            lemma_at_code_split(s, pos, seq!['u'], filtered_code(f));
            lemma_at_code_char(s, pos, seq!['u'], 0);
            lemma_dec_filtered(s, pos + 1, f);
        },
        SelectedDice::Selected(f, sel, n) => {
            let head = seq!['s', selector_char(sel)];
            assert(selected_code(x) =~= head + (filtered_code(f) + num_code(n as nat)));
            lemma_at_code_split(s, pos, head, filtered_code(f) + num_code(n as nat));
            lemma_at_code_char(s, pos, head, 0);
            lemma_at_code_char(s, pos, head, 1);
            lemma_at_code_split(s, pos + 2, filtered_code(f), num_code(n as nat));
            lemma_dec_filtered(s, pos + 2, f);
            lemma_dec_u32(s, pos + 2 + filtered_code(f).len(), n);
        },
    }
}

proof fn lemma_dec_term(s: Seq<char>, pos: int, t: Term)
    requires
        at_code(s, pos, term_code(t)),
    ensures
        dec_term(s, pos) == Some((t, pos + term_code(t).len())),
    decreases t,
{
    match t {
        Term::Constant(c) => {
            let body = int_text(c as int) + seq![';'];
            assert(term_code(t) =~= seq!['c'] + body);
            lemma_at_code_split(s, pos, seq!['c'], body);
            lemma_at_code_char(s, pos, seq!['c'], 0);
            lemma_dec_i64(s, pos + 1, c);
        },
        Term::DiceThrow(d) => {
            lemma_at_code_split(s, pos, seq!['d'], selected_code(d));
            lemma_at_code_char(s, pos, seq!['d'], 0);
            lemma_dec_selected(s, pos + 1, d);
        },
        Term::SubTerm(x) => {
            lemma_at_code_split(s, pos, seq!['p'], term_code(*x));
            lemma_at_code_char(s, pos, seq!['p'], 0);
            lemma_dec_term(s, pos + 1, *x);
        },
        Term::Calculation(l, op, r) => {
            let head = seq!['o', op_char(op)];
            assert(term_code(t) =~= head + (term_code(*l) + term_code(*r)));
            lemma_at_code_split(s, pos, head, term_code(*l) + term_code(*r));
            lemma_at_code_char(s, pos, head, 0);
            lemma_at_code_char(s, pos, head, 1);
            lemma_at_code_split(s, pos + 2, term_code(*l), term_code(*r));
            lemma_dec_term(s, pos + 2, *l);
            lemma_dec_term(s, pos + 2 + term_code(*l).len(), *r);
        },
    }
}

proof fn lemma_dec_expression(s: Seq<char>, pos: int, e: Expression)
    requires
        at_code(s, pos, expression_code(e)),
    ensures
        dec_expression(s, pos) == Some((e, pos + expression_code(e).len())),
{
    match e {
        Expression::Simple(t) => {
            lemma_at_code_split(s, pos, seq!['s'], term_code(t));
            lemma_at_code_char(s, pos, seq!['s'], 0);
            lemma_dec_term(s, pos + 1, t);
        },
        Expression::List(n, t) => {
            assert(expression_code(e) =~= seq!['l'] + (num_code(n as nat) + term_code(t)));
            lemma_at_code_split(s, pos, seq!['l'], num_code(n as nat) + term_code(t));
            lemma_at_code_char(s, pos, seq!['l'], 0);
            lemma_at_code_split(s, pos + 1, num_code(n as nat), term_code(t));
            lemma_dec_u32(s, pos + 1, n);
            lemma_dec_term(s, pos + 1 + num_code(n as nat).len(), t);
        },
    }
}

/// Reading back a serialized expression gives its version, expression and
/// label.
pub proof fn law_serialization_round_trip(e: VersionedRollExpr)
    ensures
        dec_versioned(versioned_code(e)) == Some(versioned_parts(e)),
{
    let s = versioned_code(e);
    let (v, x, l) = versioned_parts(e);
    let tag = s.subrange(0, 1);
    assert(s =~= tag + (expression_code(x) + l));
    assert(at_code(s, 0, s)) by {
        assert(s.subrange(0, s.len() as int) =~= s);
    }
    lemma_at_code_split(s, 0, tag, expression_code(x) + l);
    lemma_at_code_split(s, 1, expression_code(x), l);
    lemma_dec_expression(s, 1, x);
    assert(s.subrange(1 + expression_code(x).len() as int, s.len() as int) =~= l);
}

} // verus!
