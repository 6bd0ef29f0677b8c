//! Syntax tree of roll expressions and its textual rendering.

use vstd::prelude::*;
use crate::text::{int_text, nat_text, push_int, push_nat, string_of};

verus! {

/// What one die shows.
#[derive(Debug, Clone, Copy, PartialEq, Eq, Structural)]
pub enum DiceType {
    /// Faces numbered 1 to n.
    Number(u32),
    /// Faces -1, 0 and 1.
    Fudge,
    /// The product of two throws of a die with faces 1 to n.
    Multiply(u32),
}

/// A number of throws of one kind of die.
#[derive(Debug, Clone, Copy, PartialEq, Eq, Structural)]
pub struct Dice {
    pub throws: u32,
    pub dice: DiceType,
}

/// Comparison against a target that decides which dice are kept.
#[derive(Debug, Clone, Copy, PartialEq, Eq, Structural)]
pub enum Filter {
    Bigger,
    BiggerEq,
    Smaller,
    SmallerEq,
    NotEq,
}

#[derive(Debug, Clone, Copy, PartialEq, Eq, Structural)]
pub enum FilteredDice {
    Simple(Dice),
    Filtered(Dice, Filter, u32),
}

/// Which end of the sorted dice a selection keeps.
#[derive(Debug, Clone, Copy, PartialEq, Eq, Structural)]
pub enum Selector {
    Higher,
    Lower,
}

#[derive(Debug, Clone, Copy, PartialEq, Eq, Structural)]
pub enum SelectedDice {
    Unchanged(FilteredDice),
    Selected(FilteredDice, Selector, u32),
}

#[derive(Debug, Clone, Copy, PartialEq, Eq, Structural)]
pub enum Operation {
    Mul,
    Div,
    Add,
    Sub,
}

#[derive(Debug, PartialEq, Eq)]
pub enum Term {
    Constant(i64),
    DiceThrow(SelectedDice),
    Calculation(Box<Term>, Operation, Box<Term>),
    SubTerm(Box<Term>),
}

#[derive(Debug, PartialEq, Eq)]
pub enum Expression {
    Simple(Term),
    List(u32, Term),
}

#[derive(Debug, PartialEq, Eq)]
pub enum LabeledExpression {
    Unlabeled(Expression),
    Labeled(Expression, String),
}

/// A stored roll expression: the unlabeled legacy form or the labeled one.
#[derive(Debug, PartialEq, Eq)]
pub enum VersionedRollExpr {
    V1(Expression),
    V2(LabeledExpression),
}

/// A die has at least one face.
pub open spec fn kind_valid(k: DiceType) -> bool {
    match k {
        DiceType::Number(n) => n >= 1,
        DiceType::Fudge => true,
        DiceType::Multiply(n) => n >= 1,
    }
}

pub open spec fn filtered_dice(f: FilteredDice) -> Dice {
    match f {
        FilteredDice::Simple(d) => d,
        FilteredDice::Filtered(d, _, _) => d,
    }
}

pub open spec fn selected_dice(s: SelectedDice) -> Dice {
    match s {
        SelectedDice::Unchanged(f) => filtered_dice(f),
        SelectedDice::Selected(f, _, _) => filtered_dice(f),
    }
}

/// Every die of the term has at least one face: what evaluation needs.
pub open spec fn term_faces_valid(t: Term) -> bool
    decreases t,
{
    match t {
        Term::Constant(_) => true,
        Term::DiceThrow(d) => kind_valid(selected_dice(d).dice),
        Term::Calculation(l, _, r) => term_faces_valid(*l) && term_faces_valid(*r),
        Term::SubTerm(s) => term_faces_valid(*s),
    }
}

pub open spec fn expression_faces_valid(e: Expression) -> bool {
    match e {
        Expression::Simple(t) => term_faces_valid(t),
        Expression::List(_, t) => term_faces_valid(t),
    }
}

/// Every count-like number is at least one: throws, faces, filter targets
/// and selection sizes, as the grammar produces them.
pub open spec fn dice_wf(d: Dice) -> bool {
    d.throws >= 1 && kind_valid(d.dice)
}

pub open spec fn filtered_wf(f: FilteredDice) -> bool {
    match f {
        FilteredDice::Simple(d) => dice_wf(d),
        FilteredDice::Filtered(d, _, n) => dice_wf(d) && n >= 1,
    }
}

pub open spec fn selected_wf(s: SelectedDice) -> bool {
    match s {
        SelectedDice::Unchanged(f) => filtered_wf(f),
        SelectedDice::Selected(f, _, n) => filtered_wf(f) && n >= 1,
    }
}

pub open spec fn labeled_expression(e: LabeledExpression) -> Expression {
    match e {
        LabeledExpression::Unlabeled(x) => x,
        LabeledExpression::Labeled(x, _) => x,
    }
}

pub open spec fn versioned_expression(e: VersionedRollExpr) -> Expression {
    match e {
        VersionedRollExpr::V1(x) => x,
        VersionedRollExpr::V2(x) => labeled_expression(x),
    }
}

pub open spec fn dice_type_text(d: DiceType) -> Seq<char> {
    match d {
        DiceType::Number(n) => seq!['d'] + nat_text(n as nat),
        DiceType::Fudge => seq!['d', 'F'],
        DiceType::Multiply(n) => seq!['d'] + nat_text(n as nat) + seq!['x'],
    }
}

pub open spec fn dice_text(d: Dice) -> Seq<char> {
    nat_text(d.throws as nat) + dice_type_text(d.dice)
}

pub open spec fn filter_text(f: Filter) -> Seq<char> {
    match f {
        Filter::Bigger => seq!['>'],
        Filter::BiggerEq => seq!['>', '='],
        Filter::Smaller => seq!['<'],
        Filter::SmallerEq => seq!['<', '='],
        Filter::NotEq => seq!['!', '='],
    }
}

pub open spec fn filtered_text(f: FilteredDice) -> Seq<char> {
    match f {
        FilteredDice::Simple(d) => dice_text(d),
        FilteredDice::Filtered(d, fil, n) => dice_text(d) + filter_text(fil) + nat_text(n as nat),
    }
}

pub open spec fn selector_char(s: Selector) -> char {
    match s {
        Selector::Higher => 'h',
        Selector::Lower => 'l',
    }
}

pub open spec fn selected_text(s: SelectedDice) -> Seq<char> {
    match s {
        SelectedDice::Unchanged(f) => filtered_text(f),
        SelectedDice::Selected(f, sel, n) => filtered_text(f) + seq![selector_char(sel)] + nat_text(
            n as nat,
        ),
    }
}

pub open spec fn op_char(op: Operation) -> char {
    match op {
        Operation::Mul => '*',
        Operation::Div => '/',
        Operation::Add => '+',
        Operation::Sub => '-',
    }
}

/// Rendering of a term: operands joined by ` op `, sub-terms in parentheses.
pub open spec fn term_text(t: Term) -> Seq<char>
    decreases t,
{
    match t {
        Term::Constant(c) => int_text(c as int),
        Term::DiceThrow(d) => selected_text(d),
        Term::Calculation(l, op, r) => term_text(*l) + seq![' ', op_char(op), ' '] + term_text(*r),
        Term::SubTerm(s) => seq!['('] + term_text(*s) + seq![')'],
    }
}

pub open spec fn expression_text(e: Expression) -> Seq<char> {
    match e {
        Expression::Simple(t) => term_text(t),
        Expression::List(n, t) => nat_text(n as nat) + seq!['{'] + term_text(t) + seq!['}'],
    }
}

/// The label is not part of the rendering.
pub open spec fn labeled_text(e: LabeledExpression) -> Seq<char> {
    match e {
        LabeledExpression::Unlabeled(x) => expression_text(x),
        LabeledExpression::Labeled(x, _) => expression_text(x),
    }
}

pub open spec fn versioned_text(e: VersionedRollExpr) -> Seq<char> {
    match e {
        VersionedRollExpr::V1(x) => expression_text(x),
        VersionedRollExpr::V2(x) => labeled_text(x),
    }
}

impl DiceType {
    pub fn write_to(&self, out: &mut Vec<char>)
        ensures
            final(out)@ == old(out)@ + dice_type_text(*self),
    {
        out.push('d');
        match self {
            DiceType::Number(n) => {
                push_nat(out, *n as u64);
            },
            DiceType::Fudge => {
                out.push('F');
            },
            DiceType::Multiply(n) => {
                push_nat(out, *n as u64);
                out.push('x');
            },
        }
        assert(final(out)@ =~= old(out)@ + dice_type_text(*self));
    }

    pub fn to_string(&self) -> (s: String)
        ensures
            s@ == dice_type_text(*self),
    {
        let mut v: Vec<char> = Vec::new();
        self.write_to(&mut v);
        assert(v@ =~= dice_type_text(*self));
        string_of(&v)
    }
}

impl Dice {
    pub fn write_to(&self, out: &mut Vec<char>)
        ensures
            final(out)@ == old(out)@ + dice_text(*self),
    {
        push_nat(out, self.throws as u64);
        self.dice.write_to(out);
        assert(final(out)@ =~= old(out)@ + dice_text(*self));
    }

    pub fn to_string(&self) -> (s: String)
        ensures
            s@ == dice_text(*self),
    {
        let mut v: Vec<char> = Vec::new();
        self.write_to(&mut v);
        assert(v@ =~= dice_text(*self));
        string_of(&v)
    }
}

impl Filter {
    pub fn write_to(&self, out: &mut Vec<char>)
        ensures
            final(out)@ == old(out)@ + filter_text(*self),
    {
        match self {
            Filter::Bigger => {
                out.push('>');
            },
            Filter::BiggerEq => {
                out.push('>');
                out.push('=');
            },
            Filter::Smaller => {
                out.push('<');
            },
            Filter::SmallerEq => {
                out.push('<');
                out.push('=');
            },
            Filter::NotEq => {
                out.push('!');
                out.push('=');
            },
        }
        assert(final(out)@ =~= old(out)@ + filter_text(*self));
    }

    pub fn to_string(&self) -> (s: String)
        ensures
            s@ == filter_text(*self),
    {
        let mut v: Vec<char> = Vec::new();
        self.write_to(&mut v);
        assert(v@ =~= filter_text(*self));
        string_of(&v)
    }
}

impl FilteredDice {
    pub fn write_to(&self, out: &mut Vec<char>)
        ensures
            final(out)@ == old(out)@ + filtered_text(*self),
    {
        match self {
            FilteredDice::Simple(d) => {
                d.write_to(out);
            },
            FilteredDice::Filtered(d, f, n) => {
                d.write_to(out);
                f.write_to(out);
                push_nat(out, *n as u64);
            },
        }
        assert(final(out)@ =~= old(out)@ + filtered_text(*self));
    }

    pub fn to_string(&self) -> (s: String)
        ensures
            s@ == filtered_text(*self),
    {
        let mut v: Vec<char> = Vec::new();
        self.write_to(&mut v);
        assert(v@ =~= filtered_text(*self));
        string_of(&v)
    }
}

impl Selector {
    pub fn to_char(&self) -> (c: char)
        ensures
            c == selector_char(*self),
    {
        match self {
            Selector::Higher => 'h',
            Selector::Lower => 'l',
        }
    }

    pub fn to_string(&self) -> (s: String)
        ensures
            s@ == seq![selector_char(*self)],
    {
        let mut v: Vec<char> = Vec::new();
        v.push(self.to_char());
        string_of(&v)
    }
}

impl SelectedDice {
    pub fn write_to(&self, out: &mut Vec<char>)
        ensures
            final(out)@ == old(out)@ + selected_text(*self),
    {
        match self {
            SelectedDice::Unchanged(f) => {
                f.write_to(out);
            },
            SelectedDice::Selected(f, s, n) => {
                f.write_to(out);
                out.push(s.to_char());
                push_nat(out, *n as u64);
            },
        }
        assert(final(out)@ =~= old(out)@ + selected_text(*self));
    }

    pub fn to_string(&self) -> (s: String)
        ensures
            s@ == selected_text(*self),
    {
        let mut v: Vec<char> = Vec::new();
        self.write_to(&mut v);
        assert(v@ =~= selected_text(*self));
        string_of(&v)
    }
}

impl Operation {
    pub fn to_char(&self) -> (c: char)
        ensures
            c == op_char(*self),
    {
        match self {
            Operation::Mul => '*',
            Operation::Div => '/',
            Operation::Add => '+',
            Operation::Sub => '-',
        }
    }

    pub fn to_string(&self) -> (s: String)
        ensures
            s@ == seq![op_char(*self)],
    {
        let mut v: Vec<char> = Vec::new();
        v.push(self.to_char());
        string_of(&v)
    }
}

impl Term {
    pub fn write_to(&self, out: &mut Vec<char>)
        ensures
            final(out)@ == old(out)@ + term_text(*self),
        decreases self,
    {
        match self {
            Term::Constant(c) => {
                push_int(out, *c);
            },
            Term::DiceThrow(d) => {
                d.write_to(out);
            },
            Term::Calculation(l, op, r) => {
                l.write_to(out);
                out.push(' ');
                out.push(op.to_char());
                out.push(' ');
                r.write_to(out);
            },
            Term::SubTerm(s) => {
                out.push('(');
                s.write_to(out);
                out.push(')');
            },
        }
        assert(final(out)@ =~= old(out)@ + term_text(*self));
    }

    pub fn to_string(&self) -> (s: String)
        ensures
            s@ == term_text(*self),
    {
        let mut v: Vec<char> = Vec::new();
        self.write_to(&mut v);
        assert(v@ =~= term_text(*self));
        string_of(&v)
    }

    /// A structurally equal copy.
    pub fn copy(&self) -> (r: Term)
        ensures
            r == *self,
        decreases self,
    {
        match self {
            Term::Constant(c) => Term::Constant(*c),
            Term::DiceThrow(d) => Term::DiceThrow(*d),
            Term::Calculation(l, op, r) => Term::Calculation(
                Box::new(l.copy()),
                *op,
                Box::new(r.copy()),
            ),
            Term::SubTerm(s) => Term::SubTerm(Box::new(s.copy())),
        }
    }

    /// Structural equality.
    pub fn same_as(&self, other: &Term) -> (r: bool)
        ensures
            r == (*self == *other),
        decreases self,
    {
        match (self, other) {
            (Term::Constant(a), Term::Constant(b)) => *a == *b,
            (Term::DiceThrow(a), Term::DiceThrow(b)) => *a == *b,
            (Term::Calculation(l1, o1, r1), Term::Calculation(l2, o2, r2)) => {
                *o1 == *o2 && l1.same_as(l2) && r1.same_as(r2)
            },
            (Term::SubTerm(a), Term::SubTerm(b)) => a.same_as(b),
            _ => false,
        }
    }
}

impl Expression {
    pub fn write_to(&self, out: &mut Vec<char>)
        ensures
            final(out)@ == old(out)@ + expression_text(*self),
    {
        match self {
            Expression::Simple(t) => {
                t.write_to(out);
            },
            Expression::List(n, t) => {
                push_nat(out, *n as u64);
                out.push('{');
                t.write_to(out);
                out.push('}');
            },
        }
        assert(final(out)@ =~= old(out)@ + expression_text(*self));
    }

    pub fn to_string(&self) -> (s: String)
        ensures
            s@ == expression_text(*self),
    {
        let mut v: Vec<char> = Vec::new();
        self.write_to(&mut v);
        assert(v@ =~= expression_text(*self));
        string_of(&v)
    }

    pub fn copy(&self) -> (r: Expression)
        ensures
            r == *self,
    {
        match self {
            Expression::Simple(t) => Expression::Simple(t.copy()),
            Expression::List(n, t) => Expression::List(*n, t.copy()),
        }
    }

    pub fn same_as(&self, other: &Expression) -> (r: bool)
        ensures
            r == (*self == *other),
    {
        match (self, other) {
            (Expression::Simple(a), Expression::Simple(b)) => a.same_as(b),
            (Expression::List(n, a), Expression::List(m, b)) => *n == *m && a.same_as(b),
            _ => false,
        }
    }
}

/// Equality of labeled expressions, labels compared by their characters.
pub open spec fn same_labeled(a: LabeledExpression, b: LabeledExpression) -> bool {
    match (a, b) {
        (LabeledExpression::Unlabeled(x), LabeledExpression::Unlabeled(y)) => x == y,
        (LabeledExpression::Labeled(x, l), LabeledExpression::Labeled(y, m)) => x == y && l@ == m@,
        _ => false,
    }
}

pub open spec fn same_versioned(a: VersionedRollExpr, b: VersionedRollExpr) -> bool {
    match (a, b) {
        (VersionedRollExpr::V1(x), VersionedRollExpr::V1(y)) => x == y,
        (VersionedRollExpr::V2(x), VersionedRollExpr::V2(y)) => same_labeled(x, y),
        _ => false,
    }
}

impl LabeledExpression {
    pub fn to_string(&self) -> (s: String)
        ensures
            s@ == labeled_text(*self),
    {
        match self {
            LabeledExpression::Unlabeled(e) => e.to_string(),
            LabeledExpression::Labeled(e, _) => e.to_string(),
        }
    }

    pub fn copy(&self) -> (r: LabeledExpression)
        ensures
            r == *self,
    {
        match self {
            LabeledExpression::Unlabeled(e) => LabeledExpression::Unlabeled(e.copy()),
            LabeledExpression::Labeled(e, l) => LabeledExpression::Labeled(e.copy(), l.clone()),
        }
    }

    pub fn same_as(&self, other: &LabeledExpression) -> (r: bool)
        ensures
            r == same_labeled(*self, *other),
    {
        match (self, other) {
            (LabeledExpression::Unlabeled(a), LabeledExpression::Unlabeled(b)) => a.same_as(b),
            (LabeledExpression::Labeled(a, l), LabeledExpression::Labeled(b, m)) => {
                a.same_as(b) && *l == *m
            },
            _ => false,
        }
    }
}

impl VersionedRollExpr {
    pub fn to_string(&self) -> (s: String)
        ensures
            s@ == versioned_text(*self),
    {
        match self {
            VersionedRollExpr::V1(e) => e.to_string(),
            VersionedRollExpr::V2(e) => e.to_string(),
        }
    }

    pub fn copy(&self) -> (r: VersionedRollExpr)
        ensures
            r == *self,
    {
        match self {
            VersionedRollExpr::V1(e) => VersionedRollExpr::V1(e.copy()),
            VersionedRollExpr::V2(e) => VersionedRollExpr::V2(e.copy()),
        }
    }

    pub fn same_as(&self, other: &VersionedRollExpr) -> (r: bool)
        ensures
            r == same_versioned(*self, *other),
    {
        match (self, other) {
            (VersionedRollExpr::V1(a), VersionedRollExpr::V1(b)) => a.same_as(b),
            (VersionedRollExpr::V2(a), VersionedRollExpr::V2(b)) => a.same_as(b),
            _ => false,
        }
    }
}

} // verus!
