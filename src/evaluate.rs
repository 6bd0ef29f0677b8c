//! Evaluation of roll expressions.
//!
//! Dice values come from a [`RollSource`]. The meaning of every expression is
//! given by spec functions over the sequence of values drawn from the source;
//! each of them returns the outcome together with the number of draws it used
//! up to the point where the outcome was decided.

use vstd::prelude::*;
use crate::dice_types::{expression_faces_valid, filtered_dice, kind_valid, selected_dice, term_faces_valid, Dice, DiceType, Expression, Filter, FilteredDice, Operation, SelectedDice, Selector, Term};

verus! {

#[derive(Debug, Clone, Copy, PartialEq, Eq, Structural)]
pub enum EvaluationErrors {
    DivideByZero,
    Timeout,
    Overflow,
}

/// Where dice values come from, and whether the time for a roll is up.
pub trait RollSource {
    /// Every value drawn so far, oldest first.
    spec fn drawn(&self) -> Seq<i64>;

    /// Whether a call of `timed_out` has answered `true`.
    spec fn expired(&self) -> bool;

    /// For each call of `timed_out` so far, how many values had been drawn
    /// when it was made.
    spec fn checks(&self) -> Seq<nat>;

    /// Asks whether evaluation has to stop. Once it answers `true` it keeps
    /// doing so.
    fn timed_out(&mut self) -> (r: bool)
        ensures
            final(self).drawn() == old(self).drawn(),
            r == final(self).expired(),
            old(self).expired() ==> final(self).expired(),
            final(self).checks() == old(self).checks().push(old(self).drawn().len()),
    ;

    /// A value between `low` and `high`, both included.
    fn draw(&mut self, low: i64, high: i64) -> (r: i64)
        requires
            low <= high,
        ensures
            low <= r <= high,
            final(self).drawn() == old(self).drawn().push(r),
            final(self).expired() == old(self).expired(),
            final(self).checks() == old(self).checks(),
    ;
}

/// Whether evaluating the term rolls any dice.
pub open spec fn term_rolls_dice(t: Term) -> bool
    decreases t,
{
    match t {
        Term::Constant(_) => false,
        Term::DiceThrow(_) => true,
        Term::Calculation(l, _, r) => term_rolls_dice(*l) || term_rolls_dice(*r),
        Term::SubTerm(x) => term_rolls_dice(*x),
    }
}

pub open spec fn expression_rolls_dice(e: Expression) -> bool {
    match e {
        Expression::Simple(t) => term_rolls_dice(t),
        Expression::List(_, t) => term_rolls_dice(t),
    }
}

/// Every value drawn lies between the lowest and highest face of the die.
pub open spec fn draws_in_range(kind: DiceType, d: Seq<i64>) -> bool {
    forall|i: int| 0 <= i < d.len() ==> face_range(kind).0 <= #[trigger] d[i] <= face_range(kind).1
}

/// Whether `v` lies in the face range of one of the term's dice.
pub open spec fn face_of(t: Term, v: i64) -> bool
    decreases t,
{
    match t {
        Term::Constant(_) => false,
        Term::DiceThrow(d) => face_range(selected_dice(d).dice).0 <= v <= face_range(selected_dice(d).dice).1,
        Term::Calculation(l, _, r) => face_of(*l, v) || face_of(*r, v),
        Term::SubTerm(x) => face_of(*x, v),
    }
}

/// Every value drawn lies in the face range of one of the term's dice.
pub open spec fn draws_allowed(t: Term, d: Seq<i64>) -> bool {
    forall|i: int| 0 <= i < d.len() ==> face_of(t, #[trigger] d[i])
}

pub open spec fn expression_term(e: Expression) -> Term {
    match e {
        Expression::Simple(t) => t,
        Expression::List(_, t) => t,
    }
}

/// Draws allowed in two runs are allowed in the run of both.
proof fn lemma_allowed_join(t: Term, first: Seq<i64>, second: Seq<i64>, all: Seq<i64>)
    requires
        draws_allowed(t, first),
        draws_allowed(t, second),
        all.len() == first.len() + second.len(),
        all.take(first.len() as int) == first,
        all.skip(first.len() as int) == second,
    ensures
        draws_allowed(t, all),
{
    assert forall|i: int| 0 <= i < all.len() implies face_of(t, #[trigger] all[i]) by {
        if i < first.len() {
            assert(all.take(first.len() as int)[i] == all[i]);
        } else {
            assert(all.skip(first.len() as int)[i - first.len()] == all[i]);
        }
    }
}

/// Draws allowed by an operand are allowed by the calculation.
proof fn lemma_allowed_in_calc(t: Term, part: Term, d: Seq<i64>)
    requires
        t matches Term::Calculation(l, _, r) && (*l == part || *r == part),
        draws_allowed(part, d),
    ensures
        draws_allowed(t, d),
{
    assert forall|i: int| 0 <= i < d.len() implies face_of(t, #[trigger] d[i]) by {
        assert(face_of(part, d[i]));
    }
}

/// Values drawn per throw of a die.
pub open spec fn draws_per_throw(kind: DiceType) -> nat {
    match kind {
        DiceType::Multiply(_) => 2,
        _ => 1,
    }
}

/// Timeout checks made by a roll of `i` throws: one at its start, and one
/// before every 256th throw.
pub open spec fn checks_before(i: nat) -> nat {
    if i == 0 {
        1
    } else {
        1 + (i - 1) as nat / 256
    }
}

/// The checks made from `before` on were made at the start of the roll and
/// before throws 256, 512, ...: after `256 * j` throws of `per_throw` draws.
pub open spec fn checks_every_256(before: Seq<nat>, after: Seq<nat>, start: nat, per_throw: nat) -> bool {
    &&& before.len() < after.len()
    &&& after.take(before.len() as int) == before
    &&& forall|j: int| 0 <= j < after.len() - before.len() ==> #[trigger] after[before.len() + j] == start + j * 256 * per_throw
}

proof fn lemma_checks_step(i: nat)
    ensures
        (i > 0 && i % 256 == 0) ==> checks_before(i + 1) == checks_before(i) + 1 && checks_before(i) == i / 256 && (i / 256) * 256 == i,
        !(i > 0 && i % 256 == 0) ==> checks_before(i + 1) == checks_before(i),
{
}

/// `after` continues `before`.
pub open spec fn extends(before: Seq<i64>, after: Seq<i64>) -> bool {
    before.len() <= after.len() && after.take(before.len() as int) == before
}

/// The values drawn between two states of a source.
pub open spec fn draws_between(before: Seq<i64>, after: Seq<i64>) -> Seq<i64> {
    after.skip(before.len() as int)
}

/// The lowest and highest face of a die.
pub open spec fn face_range(kind: DiceType) -> (int, int) {
    match kind {
        DiceType::Number(n) => (1, n as int),
        DiceType::Fudge => (-1, 1),
        DiceType::Multiply(n) => (1, n as int),
    }
}

/// The values of `t` throws read from `draws`: one draw per throw, two (and
/// their product) for a multiplying die.
pub open spec fn roll_values(kind: DiceType, t: nat, draws: Seq<i64>) -> (Result<Seq<i64>, EvaluationErrors>, nat)
    decreases t,
{
    if t == 0 {
        (Ok(Seq::empty()), 0)
    } else {
        let (prev, used) = roll_values(kind, (t - 1) as nat, draws);
        match prev {
            Err(e) => (Err(e), used),
            Ok(rolls) => match kind {
                DiceType::Multiply(_) => match draws[used as int].checked_mul(draws[used + 1int]) {
                    Some(p) => (Ok(rolls.push(p)), used + 2),
                    None => (Err(EvaluationErrors::Overflow), used + 2),
                },
                _ => (Ok(rolls.push(draws[used as int])), used + 1),
            },
        }
    }
}

pub open spec fn dice_eval(d: Dice, draws: Seq<i64>) -> (Result<Seq<i64>, EvaluationErrors>, nat) {
    roll_values(d.dice, d.throws as nat, draws)
}

/// Whether a filter keeps a value. `BiggerEq` compares strictly, like `Bigger`.
pub open spec fn keeps(f: Filter, target: u32, x: i64) -> bool {
    match f {
        Filter::Bigger => x > target,
        Filter::BiggerEq => x > target,
        Filter::Smaller => x < target,
        Filter::SmallerEq => x <= target,
        Filter::NotEq => x != target,
    }
}

pub open spec fn kept(f: Filter, target: u32, s: Seq<i64>) -> Seq<i64>
    decreases s.len(),
{
    if s.len() == 0 {
        s
    } else if keeps(f, target, s.last()) {
        kept(f, target, s.drop_last()).push(s.last())
    } else {
        kept(f, target, s.drop_last())
    }
}

/// The surviving values and all values rolled.
pub open spec fn filtered_eval(fd: FilteredDice, draws: Seq<i64>) -> (Result<(Seq<i64>, Seq<i64>), EvaluationErrors>, nat) {
    match fd {
        FilteredDice::Simple(d) => {
            let (r, u) = dice_eval(d, draws);
            match r {
                Ok(rolls) => (Ok((rolls, rolls)), u),
                Err(e) => (Err(e), u),
            }
        },
        FilteredDice::Filtered(d, f, target) => {
            let (r, u) = dice_eval(d, draws);
            match r {
                Ok(rolls) => (Ok((kept(f, target, rolls), rolls)), u),
                Err(e) => (Err(e), u),
            }
        },
    }
}

/// `s` with `x` placed before its first element that is not smaller than `x`.
pub open spec fn insert_sorted(s: Seq<i64>, x: i64) -> Seq<i64>
    decreases s.len(),
{
    if s.len() == 0 {
        seq![x]
    } else if x <= s[0] {
        seq![x] + s
    } else {
        seq![s[0]] + insert_sorted(s.drop_first(), x)
    }
}

/// `s` in ascending order.
pub open spec fn sort_rolls(s: Seq<i64>) -> Seq<i64>
    decreases s.len(),
{
    if s.len() == 0 {
        s
    } else {
        insert_sorted(sort_rolls(s.drop_last()), s.last())
    }
}

/// The `k` highest or lowest values, in ascending order; all values, as they
/// are, when there are no more than `k`.
pub open spec fn select(sel: Selector, k: u32, s: Seq<i64>) -> Seq<i64> {
    if s.len() > k {
        let sorted = sort_rolls(s);
        match sel {
            Selector::Higher => sorted.subrange(s.len() - k, s.len() as int),
            Selector::Lower => sorted.subrange(0, k as int),
        }
    } else {
        s
    }
}

pub open spec fn selected_eval(sd: SelectedDice, draws: Seq<i64>) -> (Result<(Seq<i64>, Seq<i64>), EvaluationErrors>, nat) {
    match sd {
        SelectedDice::Unchanged(fd) => filtered_eval(fd, draws),
        SelectedDice::Selected(fd, sel, k) => {
            let (r, u) = filtered_eval(fd, draws);
            match r {
                Ok((kept_rolls, all)) => (Ok((select(sel, k, kept_rolls), all)), u),
                Err(e) => (Err(e), u),
            }
        },
    }
}

/// Sum of the values; `None` when a partial sum leaves `i64`.
pub open spec fn checked_sum(s: Seq<i64>) -> Option<i64>
    decreases s.len(),
{
    if s.len() == 0 {
        Some(0)
    } else {
        match checked_sum(s.drop_last()) {
            Some(p) => p.checked_add(s.last()),
            None => None,
        }
    }
}

/// Checked arithmetic of one operation: division by zero is a division
/// error, a result out of range an overflow.
pub open spec fn apply_op(op: Operation, l: i64, r: i64) -> Result<i64, EvaluationErrors> {
    match op {
        Operation::Add => match l.checked_add(r) {
            Some(v) => Ok(v),
            None => Err(EvaluationErrors::Overflow),
        },
        Operation::Sub => match l.checked_sub(r) {
            Some(v) => Ok(v),
            None => Err(EvaluationErrors::Overflow),
        },
        Operation::Mul => match l.checked_mul(r) {
            Some(v) => Ok(v),
            None => Err(EvaluationErrors::Overflow),
        },
        Operation::Div => if r == 0 {
            Err(EvaluationErrors::DivideByZero)
        } else {
            match l.checked_div(r) {
                Some(v) => Ok(v),
                None => Err(EvaluationErrors::Overflow),
            }
        },
    }
}

/// The total of a term and every die rolled for it, left operand first.
pub open spec fn term_eval(t: Term, draws: Seq<i64>) -> (Result<(i64, Seq<i64>), EvaluationErrors>, nat)
    decreases t,
{
    match t {
        Term::Constant(c) => (Ok((c, Seq::empty())), 0),
        Term::DiceThrow(sd) => {
            let (r, u) = selected_eval(sd, draws);
            match r {
                Ok((kept_rolls, all)) => match checked_sum(kept_rolls) {
                    Some(total) => (Ok((total, all)), u),
                    None => (Err(EvaluationErrors::Overflow), u),
                },
                Err(e) => (Err(e), u),
            }
        },
        Term::SubTerm(s) => term_eval(*s, draws),
        Term::Calculation(l, op, r) => {
            let (lr, lu) = term_eval(*l, draws);
            match lr {
                Err(e) => (Err(e), lu),
                Ok((lv, lrolls)) => {
                    let (rr, ru) = term_eval(*r, draws.skip(lu as int));
                    match rr {
                        Err(e) => (Err(e), lu + ru),
                        Ok((rv, rrolls)) => match apply_op(op, lv, rv) {
                            Ok(v) => (Ok((v, lrolls + rrolls)), lu + ru),
                            Err(e) => (Err(e), lu + ru),
                        },
                    }
                },
            }
        },
    }
}

/// `n` independent evaluations of a term, in order.
pub open spec fn repeat_eval(t: Term, n: nat, draws: Seq<i64>) -> (Result<Seq<(i64, Seq<i64>)>, EvaluationErrors>, nat)
    decreases n,
{
    if n == 0 {
        (Ok(Seq::empty()), 0)
    } else {
        let (prev, used) = repeat_eval(t, (n - 1) as nat, draws);
        match prev {
            Err(e) => (Err(e), used),
            Ok(results) => {
                let (r, u) = term_eval(t, draws.skip(used as int));
                match r {
                    Ok(one) => (Ok(results.push(one)), used + u),
                    Err(e) => (Err(e), used + u),
                }
            },
        }
    }
}

pub open spec fn expression_eval(e: Expression, draws: Seq<i64>) -> (Result<Seq<(i64, Seq<i64>)>, EvaluationErrors>, nat) {
    match e {
        Expression::Simple(t) => {
            let (r, u) = term_eval(t, draws);
            match r {
                Ok(one) => (Ok(seq![one]), u),
                Err(e) => (Err(e), u),
            }
        },
        Expression::List(n, t) => repeat_eval(t, n as nat, draws),
    }
}

pub open spec fn pair_view(r: (Vec<i64>, Vec<i64>)) -> (Seq<i64>, Seq<i64>) {
    (r.0@, r.1@)
}

pub open spec fn results_view(v: Vec<(i64, Vec<i64>)>) -> Seq<(i64, Seq<i64>)> {
    v@.map_values(|x: (i64, Vec<i64>)| (x.0, x.1@))
}

/// What an evaluation that was not stopped returns: the spec outcome, with the
/// draws it used being exactly the draws made.
pub open spec fn matches_outcome<V, W>(r: Result<V, EvaluationErrors>, view: spec_fn(V) -> W, spec: (Result<W, EvaluationErrors>, nat), made: Seq<i64>) -> bool {
    &&& made.len() == spec.1
    &&& match (r, spec.0) {
        (Ok(v), Ok(w)) => view(v) == w,
        (Err(e), Err(f)) => e == f,
        _ => false,
    }
}

pub open spec fn is_timeout<V>(r: Result<V, EvaluationErrors>) -> bool {
    r matches Err(EvaluationErrors::Timeout)
}

/// Whether a rolled value lies in the range a die can produce.
pub open spec fn in_face_range(kind: DiceType, v: i64) -> bool {
    match kind {
        DiceType::Number(n) => 1 <= v <= n,
        DiceType::Fudge => -1 <= v <= 1,
        DiceType::Multiply(n) => 1 <= v <= n * n,
    }
}

pub proof fn lemma_roll_values_used(kind: DiceType, t: nat, draws: Seq<i64>)
    ensures
        roll_values(kind, t, draws).0 is Ok ==> roll_values(kind, t, draws).0->Ok_0.len() == t,
    decreases t,
{
    if t > 0 {
        lemma_roll_values_used(kind, (t - 1) as nat, draws);
    }
}

/// Once a throw fails, rolling more throws fails the same way.
pub proof fn lemma_roll_values_err_stable(kind: DiceType, m: nat, t: nat, draws: Seq<i64>)
    requires
        m <= t,
        roll_values(kind, m, draws).0 is Err,
    ensures
        roll_values(kind, t, draws) == roll_values(kind, m, draws),
    decreases t - m,
{
    if m < t {
        lemma_roll_values_err_stable(kind, m, (t - 1) as nat, draws);
    }
}

/// The outcome of rolling depends only on the draws it used.
pub proof fn lemma_roll_values_prefix(kind: DiceType, t: nat, d1: Seq<i64>, d2: Seq<i64>)
    requires
        roll_values(kind, t, d1).1 <= d1.len(),
        d1.len() <= d2.len(),
        d2.take(d1.len() as int) == d1,
    ensures
        roll_values(kind, t, d2) == roll_values(kind, t, d1),
    decreases t,
{
    if t > 0 {
        lemma_roll_values_prefix(kind, (t - 1) as nat, d1, d2);
        let used = roll_values(kind, (t - 1) as nat, d1).1;
        if roll_values(kind, (t - 1) as nat, d1).0 is Ok {
            assert(d2[used as int] == d1[used as int]) by {
                assert(d2.take(d1.len() as int)[used as int] == d2[used as int]);
            }
            if kind is Multiply {
                assert(d2[used + 1int] == d1[used + 1int]) by {
                    assert(d2.take(d1.len() as int)[used + 1int] == d2[used + 1int]);
                }
            }
        }
    }
}

pub proof fn lemma_filtered_prefix(fd: FilteredDice, d1: Seq<i64>, d2: Seq<i64>)
    requires
        filtered_eval(fd, d1).1 <= d1.len(),
        d1.len() <= d2.len(),
        d2.take(d1.len() as int) == d1,
    ensures
        filtered_eval(fd, d2) == filtered_eval(fd, d1),
{
    match fd {
        FilteredDice::Simple(d) => lemma_roll_values_prefix(d.dice, d.throws as nat, d1, d2),
        FilteredDice::Filtered(d, _, _) => lemma_roll_values_prefix(d.dice, d.throws as nat, d1, d2),
    }
}

pub proof fn lemma_selected_prefix(sd: SelectedDice, d1: Seq<i64>, d2: Seq<i64>)
    requires
        selected_eval(sd, d1).1 <= d1.len(),
        d1.len() <= d2.len(),
        d2.take(d1.len() as int) == d1,
    ensures
        selected_eval(sd, d2) == selected_eval(sd, d1),
{
    match sd {
        SelectedDice::Unchanged(fd) => lemma_filtered_prefix(fd, d1, d2),
        SelectedDice::Selected(fd, _, _) => lemma_filtered_prefix(fd, d1, d2),
    }
}

pub proof fn lemma_term_prefix(t: Term, d1: Seq<i64>, d2: Seq<i64>)
    requires
        term_eval(t, d1).1 <= d1.len(),
        d1.len() <= d2.len(),
        d2.take(d1.len() as int) == d1,
    ensures
        term_eval(t, d2) == term_eval(t, d1),
    decreases t,
{
    match t {
        Term::Constant(_) => {},
        Term::DiceThrow(sd) => lemma_selected_prefix(sd, d1, d2),
        Term::SubTerm(s) => lemma_term_prefix(*s, d1, d2),
        Term::Calculation(l, _, r) => {
            lemma_term_prefix(*l, d1, d2);
            let lu = term_eval(*l, d1).1;
            if term_eval(*l, d1).0 is Ok {
                let e1 = d1.skip(lu as int);
                let e2 = d2.skip(lu as int);
                assert(e2.take(e1.len() as int) =~= e1);
                lemma_term_prefix(*r, e1, e2);
            }
        },
    }
}

pub proof fn lemma_repeat_prefix(t: Term, n: nat, d1: Seq<i64>, d2: Seq<i64>)
    requires
        repeat_eval(t, n, d1).1 <= d1.len(),
        d1.len() <= d2.len(),
        d2.take(d1.len() as int) == d1,
    ensures
        repeat_eval(t, n, d2) == repeat_eval(t, n, d1),
    decreases n,
{
    if n > 0 {
        lemma_repeat_prefix(t, (n - 1) as nat, d1, d2);
        let used = repeat_eval(t, (n - 1) as nat, d1).1;
        if repeat_eval(t, (n - 1) as nat, d1).0 is Ok {
            let e1 = d1.skip(used as int);
            let e2 = d2.skip(used as int);
            assert(e2.take(e1.len() as int) =~= e1);
            lemma_term_prefix(t, e1, e2);
        }
    }
}

/// Draws made in two steps, as seen from the first step.
proof fn lemma_draws_split(a: Seq<i64>, b: Seq<i64>, c: Seq<i64>)
    requires
        extends(a, b),
        extends(b, c),
    ensures
        extends(a, c),
        draws_between(a, c).take(draws_between(a, b).len() as int) == draws_between(a, b),
        draws_between(a, c).skip(draws_between(a, b).len() as int) == draws_between(b, c),
        draws_between(a, c).len() == draws_between(a, b).len() + draws_between(b, c).len(),
{
    assert(c.take(a.len() as int) =~= c.take(b.len() as int).take(a.len() as int));
    assert(c.take(b.len() as int) == b);
    assert(draws_between(a, c).take(draws_between(a, b).len() as int) =~= draws_between(a, b)) by {
        assert(c.take(b.len() as int) == b);
        assert forall|i: int| 0 <= i < b.len() - a.len() implies #[trigger] c.skip(a.len() as int)[i] == b.skip(a.len() as int)[i] by {
            assert(c.take(b.len() as int)[i + a.len()] == c[i + a.len()]);
        }
    }
    assert(draws_between(a, c).skip(draws_between(a, b).len() as int) =~= draws_between(b, c));
}

impl Dice {
    /// Rolls the dice: the values rolled, twice (all of them, and the ones
    /// still to be filtered).
    pub fn evaluate<S: RollSource>(&self, src: &mut S) -> (r: Result<(Vec<i64>, Vec<i64>), EvaluationErrors>)
        requires
            kind_valid(self.dice),
        ensures
            extends(old(src).drawn(), final(src).drawn()),
            is_timeout(r) ==> final(src).expired(),
            !is_timeout(r) ==> matches_outcome(
                r,
                |p: (Vec<i64>, Vec<i64>)| p.0@,
                dice_eval(*self, draws_between(old(src).drawn(), final(src).drawn())),
                draws_between(old(src).drawn(), final(src).drawn()),
            ),
            r matches Ok(p) ==> p.0@ == p.1@ && p.0.len() == self.throws && forall|j: int|
                0 <= j < p.0.len() ==> in_face_range(self.dice, #[trigger] p.0[j]),
            !old(src).expired() ==> (is_timeout(r) <==> final(src).expired()),
            !is_timeout(r) ==> final(src).expired() == old(src).expired(),
            old(src).expired() ==> is_timeout(r) && final(src).drawn() == old(src).drawn(),
            checks_every_256(old(src).checks(), final(src).checks(), old(src).drawn().len(), draws_per_throw(self.dice)),
            r is Ok ==> final(src).checks().len() == old(src).checks().len() + checks_before(self.throws as nat),
            is_timeout(r) ==> final(src).checks().last() == final(src).drawn().len(),
            !(self.dice is Multiply) && !is_timeout(r) ==> r is Ok,
            draws_in_range(self.dice, draws_between(old(src).drawn(), final(src).drawn())),
            (self.dice matches DiceType::Multiply(n) && (n as int) * (n as int) <= i64::MAX) && !is_timeout(r) ==> r is Ok,
    {
        let ghost start = src.drawn();
        let ghost checks0 = src.checks();
        let ghost w = draws_per_throw(self.dice);
        if src.timed_out() {
            assert(src.drawn().take(start.len() as int) =~= start);
            assert(src.checks().take(checks0.len() as int) =~= checks0);
            return Err(EvaluationErrors::Timeout);
        }
        assert(src.checks().take(checks0.len() as int) =~= checks0);
        let (low, high): (i64, i64) = match self.dice {
            DiceType::Number(n) => (1, n as i64),
            DiceType::Fudge => (-1, 1),
            DiceType::Multiply(n) => (1, n as i64),
        };
        let mut rolls: Vec<i64> = Vec::new();
        let mut i: u32 = 0;
        assert(draws_between(start, src.drawn()) =~= Seq::<i64>::empty());
        assert(src.drawn().take(start.len() as int) =~= start);
        while i < self.throws
            invariant
                i <= self.throws,
                start == old(src).drawn(),
                rolls.len() == i,
                extends(start, src.drawn()),
                !src.expired(),
                low <= high,
                face_range(self.dice) == (low as int, high as int),
                roll_values(self.dice, i as nat, draws_between(start, src.drawn())) == (
                    Ok::<Seq<i64>, EvaluationErrors>(rolls@),
                    draws_between(start, src.drawn()).len(),
                ),
                forall|j: int| 0 <= j < rolls.len() ==> in_face_range(self.dice, #[trigger] rolls[j]),
                !old(src).expired(),
                checks0 == old(src).checks(),
                w == draws_per_throw(self.dice),
                src.drawn().len() == start.len() + i * w,
                checks_every_256(checks0, src.checks(), start.len(), w),
                src.checks().len() == checks0.len() + checks_before(i as nat),
                draws_in_range(self.dice, draws_between(start, src.drawn())),
            decreases self.throws - i,
        {
            proof {
                lemma_checks_step(i as nat);
            }
            if i > 0 && i % 256 == 0 {
                let ghost cks = src.checks();
                let timed = src.timed_out();
                proof {
                    let k = checks_before(i as nat) as int;
                    assert(src.checks()[checks0.len() + k] == start.len() + i * w);
                    assert(start.len() + i * w == start.len() + k * 256 * w) by (nonlinear_arith)
                        requires
                            k * 256 == i,
                    ;
                    assert(src.checks().take(checks0.len() as int) =~= checks0) by {
                        assert(cks.take(checks0.len() as int) == checks0);
                    }
                    assert forall|j: int| 0 <= j < src.checks().len() - checks0.len() implies #[trigger] src.checks()[checks0.len() + j] == start.len() + j * 256 * w by {
                        if j < k {
                            assert(src.checks()[checks0.len() + j] == cks[checks0.len() + j]);
                        }
                    }
                }
                if timed {
                    assert(extends(start, src.drawn()));
                    return Err(EvaluationErrors::Timeout);
                }
            }
            let ghost before = src.drawn();
            let ghost cur = draws_between(start, before);
            match self.dice {
                DiceType::Multiply(n) => {
                    let a = src.draw(low, high);
                    let b = src.draw(low, high);
                    assert(src.drawn().len() == start.len() + (i + 1) * w) by (nonlinear_arith)
                        requires
                            src.drawn().len() == start.len() + i * w + 2,
                            w == 2,
                    ;
                    let ghost made = draws_between(start, src.drawn());
                    assert(made =~= cur.push(a).push(b));
                    assert(made.take(cur.len() as int) =~= cur);
                    proof { lemma_roll_values_prefix(self.dice, i as nat, cur, made); }
                    assert(made[cur.len() as int] == a && made[cur.len() + 1int] == b);
                    assert(src.drawn().take(start.len() as int) =~= start);
                    proof {
                        if (n as int) * (n as int) <= i64::MAX {
                            assert(a * b <= (n as int) * (n as int)) by (nonlinear_arith)
                                requires
                                    1 <= a <= n,
                                    1 <= b <= n,
                            ;
                        }
                    }
                    match a.checked_mul(b) {
                        Some(p) => {
                            assert(1 <= p <= n * n) by (nonlinear_arith)
                                requires
                                    1 <= a <= n,
                                    1 <= b <= n,
                                    p == a * b,
                            ;
                            rolls.push(p);
                        },
                        None => {
                            proof {
                                assert(roll_values(self.dice, (i + 1) as nat, made).0 is Err);
                                lemma_roll_values_err_stable(self.dice, (i + 1) as nat, self.throws as nat, made);
                            }
                            assert(extends(start, src.drawn()));
                            return Err(EvaluationErrors::Overflow);
                        },
                    }
                },
                _ => {
                    let v = src.draw(low, high);
                    assert(src.drawn().len() == start.len() + (i + 1) * w) by (nonlinear_arith)
                        requires
                            src.drawn().len() == start.len() + i * w + 1,
                            w == 1,
                    ;
                    let ghost made = draws_between(start, src.drawn());
                    assert(made =~= cur.push(v));
                    assert(made.take(cur.len() as int) =~= cur);
                    proof { lemma_roll_values_prefix(self.dice, i as nat, cur, made); }
                    assert(made[cur.len() as int] == v);
                    assert(src.drawn().take(start.len() as int) =~= start);
                    rolls.push(v);
                },
            }
            i = i + 1;
        }
        let copy = rolls.clone();
        assert(copy@ =~= rolls@);
        Ok((rolls, copy))
    }
}

impl FilteredDice {
    /// Rolls the dice and keeps those that pass the filter: the kept values,
    /// and all values rolled.
    pub fn evaluate<S: RollSource>(&self, src: &mut S) -> (r: Result<(Vec<i64>, Vec<i64>), EvaluationErrors>)
        requires
            kind_valid(filtered_dice(*self).dice),
        ensures
            extends(old(src).drawn(), final(src).drawn()),
            is_timeout(r) ==> final(src).expired(),
            !is_timeout(r) ==> matches_outcome(
                r,
                |p: (Vec<i64>, Vec<i64>)| pair_view(p),
                filtered_eval(*self, draws_between(old(src).drawn(), final(src).drawn())),
                draws_between(old(src).drawn(), final(src).drawn()),
            ),
            !old(src).expired() ==> (is_timeout(r) <==> final(src).expired()),
            !is_timeout(r) ==> final(src).expired() == old(src).expired(),
            old(src).expired() ==> is_timeout(r) && final(src).drawn() == old(src).drawn(),
            checks_every_256(old(src).checks(), final(src).checks(), old(src).drawn().len(), draws_per_throw(filtered_dice(*self).dice)),
            r is Ok ==> final(src).checks().len() == old(src).checks().len() + checks_before(filtered_dice(*self).throws as nat),
            is_timeout(r) ==> final(src).checks().last() == final(src).drawn().len(),
            draws_in_range(filtered_dice(*self).dice, draws_between(old(src).drawn(), final(src).drawn())),
            (filtered_dice(*self).dice matches DiceType::Multiply(n) && (n as int) * (n as int) <= i64::MAX) && !is_timeout(r) ==> r is Ok,
            !(filtered_dice(*self).dice is Multiply) && !is_timeout(r) ==> r is Ok,
    {
        match self {
            FilteredDice::Simple(d) => d.evaluate(src),
            FilteredDice::Filtered(d, f, target) => {
                match d.evaluate(src) {
                    Err(e) => Err(e),
                    Ok((rolls, all)) => {
                        let mut out: Vec<i64> = Vec::new();
                        let mut i: usize = 0;
                        while i < rolls.len()
                            invariant
                                i <= rolls.len(),
                                out@ == kept(*f, *target, rolls@.take(i as int)),
                            decreases rolls.len() - i,
                        {
                            let x = rolls[i];
                            assert(rolls@.take(i + 1int).drop_last() =~= rolls@.take(i as int));
                            let keep = match f {
                                Filter::Bigger => x > *target as i64,
                                Filter::BiggerEq => x > *target as i64,
                                Filter::Smaller => x < *target as i64,
                                Filter::SmallerEq => x <= *target as i64,
                                Filter::NotEq => x != *target as i64,
                            };
                            if keep {
                                out.push(x);
                            }
                            i = i + 1;
                        }
                        assert(rolls@.take(rolls.len() as int) =~= rolls@);
                        Ok((out, all))
                    },
                }
            },
        }
    }
}

/// `insert_sorted` places `x` at the first position whose value is not smaller.
proof fn lemma_insert_sorted_at(s: Seq<i64>, x: i64, p: int)
    requires
        0 <= p <= s.len(),
        forall|j: int| 0 <= j < p ==> s[j] < x,
        p == s.len() || x <= s[p],
    ensures
        insert_sorted(s, x) == s.insert(p, x),
    decreases s.len(),
{
    if s.len() == 0 {
        assert(s.insert(p, x) =~= seq![x]);
    } else if p == 0 {
        assert(s.insert(p, x) =~= seq![x] + s);
    } else {
        let t = s.drop_first();
        lemma_insert_sorted_at(t, x, p - 1);
        assert(s.insert(p, x) =~= seq![s[0]] + t.insert(p - 1, x));
    }
}

proof fn lemma_sort_len(s: Seq<i64>)
    ensures
        sort_rolls(s).len() == s.len(),
    decreases s.len(),
{
    if s.len() > 0 {
        lemma_sort_len(s.drop_last());
        lemma_insert_len(sort_rolls(s.drop_last()), s.last());
    }
}

proof fn lemma_insert_len(s: Seq<i64>, x: i64)
    ensures
        insert_sorted(s, x).len() == s.len() + 1,
    decreases s.len(),
{
    if s.len() > 0 {
        lemma_insert_len(s.drop_first(), x);
    }
}

/// Sorts by insertion.
fn sorted_copy(v: &Vec<i64>) -> (r: Vec<i64>)
    ensures
        r@ == sort_rolls(v@),
{
    let mut out: Vec<i64> = Vec::new();
    let mut i: usize = 0;
    while i < v.len()
        invariant
            i <= v.len(),
            out@ == sort_rolls(v@.take(i as int)),
        decreases v.len() - i,
    {
        let x = v[i];
        let mut p: usize = 0;
        while p < out.len() && out[p] < x
            invariant
                p <= out.len(),
                forall|j: int| 0 <= j < p ==> out[j] < x,
            decreases out.len() - p,
        {
            p = p + 1;
        }
        proof {
            lemma_insert_sorted_at(out@, x, p as int);
            assert(v@.take(i + 1int).drop_last() =~= v@.take(i as int));
        }
        out.insert(p, x);
        i = i + 1;
    }
    assert(v@.take(v.len() as int) =~= v@);
    out
}

fn copy_range(v: &Vec<i64>, from: usize, to: usize) -> (r: Vec<i64>)
    requires
        from <= to <= v.len(),
    ensures
        r@ == v@.subrange(from as int, to as int),
{
    let mut out: Vec<i64> = Vec::new();
    let mut i: usize = from;
    while i < to
        invariant
            from <= i <= to,
            to <= v.len(),
            out@ == v@.subrange(from as int, i as int),
        decreases to - i,
    {
        out.push(v[i]);
        i = i + 1;
        assert(out@ =~= v@.subrange(from as int, i as int));
    }
    out
}

impl SelectedDice {
    /// Rolls, filters and selects: the selected values, and all values rolled.
    pub fn evaluate<S: RollSource>(&self, src: &mut S) -> (r: Result<(Vec<i64>, Vec<i64>), EvaluationErrors>)
        requires
            kind_valid(selected_dice(*self).dice),
        ensures
            extends(old(src).drawn(), final(src).drawn()),
            is_timeout(r) ==> final(src).expired(),
            !is_timeout(r) ==> matches_outcome(
                r,
                |p: (Vec<i64>, Vec<i64>)| pair_view(p),
                selected_eval(*self, draws_between(old(src).drawn(), final(src).drawn())),
                draws_between(old(src).drawn(), final(src).drawn()),
            ),
            !old(src).expired() ==> (is_timeout(r) <==> final(src).expired()),
            !is_timeout(r) ==> final(src).expired() == old(src).expired(),
            old(src).expired() ==> is_timeout(r) && final(src).drawn() == old(src).drawn(),
            checks_every_256(old(src).checks(), final(src).checks(), old(src).drawn().len(), draws_per_throw(selected_dice(*self).dice)),
            r is Ok ==> final(src).checks().len() == old(src).checks().len() + checks_before(selected_dice(*self).throws as nat),
            is_timeout(r) ==> final(src).checks().last() == final(src).drawn().len(),
            draws_in_range(selected_dice(*self).dice, draws_between(old(src).drawn(), final(src).drawn())),
            (selected_dice(*self).dice matches DiceType::Multiply(n) && (n as int) * (n as int) <= i64::MAX) && !is_timeout(r) ==> r is Ok,
            !(selected_dice(*self).dice is Multiply) && !is_timeout(r) ==> r is Ok,
    {
        match self {
            SelectedDice::Unchanged(fd) => fd.evaluate(src),
            SelectedDice::Selected(fd, sel, k) => {
                match fd.evaluate(src) {
                    Err(e) => Err(e),
                    Ok((rolls, all)) => {
                        let k = *k as usize;
                        if rolls.len() > k {
                            let sorted = sorted_copy(&rolls);
                            proof {
                                lemma_sort_len(rolls@);
                            }
                            let n = rolls.len();
                            let chosen = match sel {
                                Selector::Higher => copy_range(&sorted, n - k, n),
                                Selector::Lower => copy_range(&sorted, 0, k),
                            };
                            Ok((chosen, all))
                        } else {
                            Ok((rolls, all))
                        }
                    },
                }
            },
        }
    }
}

/// Sum of the values, or `None` once a partial sum leaves `i64`.
fn sum_checked(v: &Vec<i64>) -> (r: Option<i64>)
    ensures
        r == checked_sum(v@),
{
    let mut total: i64 = 0;
    let mut i: usize = 0;
    while i < v.len()
        invariant
            i <= v.len(),
            checked_sum(v@.take(i as int)) == Some(total),
        decreases v.len() - i,
    {
        assert(v@.take(i + 1int).drop_last() =~= v@.take(i as int));
        match total.checked_add(v[i]) {
            Some(t) => {
                total = t;
            },
            None => {
                proof {
                    lemma_checked_sum_none(v@, (i + 1) as nat);
                }
                return None;
            },
        }
        i = i + 1;
    }
    assert(v@.take(v.len() as int) =~= v@);
    Some(total)
}

/// A partial sum out of range makes the whole sum fail.
proof fn lemma_checked_sum_none(s: Seq<i64>, m: nat)
    requires
        m <= s.len(),
        checked_sum(s.take(m as int)) is None,
    ensures
        checked_sum(s) is None,
    decreases s.len() - m,
{
    if m < s.len() {
        assert(s.take(m + 1int).drop_last() =~= s.take(m as int));
        lemma_checked_sum_none(s, m + 1);
    } else {
        assert(s.take(m as int) =~= s);
    }
}

impl Term {
    /// The total of the term and every die rolled for it.
    pub fn evaluate<S: RollSource>(&self, src: &mut S) -> (r: Result<(i64, Vec<i64>), EvaluationErrors>)
        requires
            term_faces_valid(*self),
        ensures
            extends(old(src).drawn(), final(src).drawn()),
            is_timeout(r) ==> final(src).expired(),
            !is_timeout(r) ==> matches_outcome(
                r,
                |p: (i64, Vec<i64>)| (p.0, p.1@),
                term_eval(*self, draws_between(old(src).drawn(), final(src).drawn())),
                draws_between(old(src).drawn(), final(src).drawn()),
            ),
            !old(src).expired() ==> (is_timeout(r) <==> final(src).expired()),
            !is_timeout(r) ==> final(src).expired() == old(src).expired(),
            !term_rolls_dice(*self) ==> !is_timeout(r) && final(src).drawn() == old(src).drawn()
                && final(src).checks() == old(src).checks(),
            draws_allowed(*self, draws_between(old(src).drawn(), final(src).drawn())),
        decreases self,
    {
        let ghost start = src.drawn();
        match self {
            Term::Constant(c) => {
                assert(src.drawn().take(start.len() as int) =~= start);
                assert(draws_between(start, src.drawn()) =~= Seq::<i64>::empty());
                Ok((*c, Vec::new()))
            },
            Term::DiceThrow(d) => {
                let res = d.evaluate(src);
                proof {
                    let made = draws_between(start, src.drawn());
                    assert forall|i: int| 0 <= i < made.len() implies face_of(*self, #[trigger] made[i]) by {
                        assert(face_range(selected_dice(*d).dice).0 <= made[i] <= face_range(selected_dice(*d).dice).1);
                    }
                }
                match res {
                    Err(e) => Err(e),
                    Ok((kept_rolls, all)) => {
                        match sum_checked(&kept_rolls) {
                            Some(total) => Ok((total, all)),
                            None => Err(EvaluationErrors::Overflow),
                        }
                    },
                }
            },
            Term::SubTerm(t) => {
                let res = t.evaluate(src);
                proof {
                    let made = draws_between(start, src.drawn());
                    assert forall|i: int| 0 <= i < made.len() implies face_of(*self, #[trigger] made[i]) by {
                        assert(face_of(**t, made[i]));
                    }
                }
                res
            },
            Term::Calculation(l, op, r) => {
                let left = l.evaluate(src);
                proof {
                    lemma_allowed_in_calc(*self, **l, draws_between(start, src.drawn()));
                }
                match left {
                    Err(e) => Err(e),
                    Ok((lv, lrolls)) => {
                        let ghost mid = src.drawn();
                        let right = r.evaluate(src);
                        proof {
                            lemma_draws_split(start, mid, src.drawn());
                            let all = draws_between(start, src.drawn());
                            let first = draws_between(start, mid);
                            lemma_term_prefix(**l, first, all);
                            lemma_allowed_in_calc(*self, **r, draws_between(mid, src.drawn()));
                            lemma_allowed_join(*self, first, draws_between(mid, src.drawn()), all);
                        }
                        match right {
                            Err(e) => Err(e),
                            Ok((rv, rrolls)) => {
                                let v = match op {
                                    Operation::Add => match lv.checked_add(rv) {
                                        Some(v) => Ok(v),
                                        None => Err(EvaluationErrors::Overflow),
                                    },
                                    Operation::Sub => match lv.checked_sub(rv) {
                                        Some(v) => Ok(v),
                                        None => Err(EvaluationErrors::Overflow),
                                    },
                                    Operation::Mul => match lv.checked_mul(rv) {
                                        Some(v) => Ok(v),
                                        None => Err(EvaluationErrors::Overflow),
                                    },
                                    Operation::Div => if rv == 0 {
                                        Err(EvaluationErrors::DivideByZero)
                                    } else {
                                        match lv.checked_div(rv) {
                                            Some(v) => Ok(v),
                                            None => Err(EvaluationErrors::Overflow),
                                        }
                                    },
                                };
                                match v {
                                    Err(e) => Err(e),
                                    Ok(v) => {
                                        let mut rolls = lrolls;
                                        let mut more = rrolls;
                                        let ghost lseq = rolls@;
                                        let ghost rseq = more@;
                                        rolls.append(&mut more);
                                        assert(rolls@ =~= lseq + rseq);
                                        Ok((v, rolls))
                                    },
                                }
                            },
                        }
                    },
                }
            },
        }
    }
}

impl Expression {
    /// One `(total, rolls)` for a simple expression, `n` of them for a list.
    pub fn evaluate<S: RollSource>(&self, src: &mut S) -> (r: Result<Vec<(i64, Vec<i64>)>, EvaluationErrors>)
        requires
            expression_faces_valid(*self),
        ensures
            extends(old(src).drawn(), final(src).drawn()),
            is_timeout(r) ==> final(src).expired(),
            !is_timeout(r) ==> matches_outcome(
                r,
                |v: Vec<(i64, Vec<i64>)>| results_view(v),
                expression_eval(*self, draws_between(old(src).drawn(), final(src).drawn())),
                draws_between(old(src).drawn(), final(src).drawn()),
            ),
            !old(src).expired() ==> (is_timeout(r) <==> final(src).expired()),
            !is_timeout(r) ==> final(src).expired() == old(src).expired(),
            !expression_rolls_dice(*self) ==> !is_timeout(r) && final(src).drawn() == old(src).drawn()
                && final(src).checks() == old(src).checks(),
            draws_allowed(expression_term(*self), draws_between(old(src).drawn(), final(src).drawn())),
    {
        let ghost start = src.drawn();
        match self {
            Expression::Simple(t) => {
                match t.evaluate(src) {
                    Err(e) => Err(e),
                    Ok(one) => {
                        let mut v: Vec<(i64, Vec<i64>)> = Vec::new();
                        v.push(one);
                        assert(results_view(v) =~= seq![(one.0, one.1@)]);
                        Ok(v)
                    },
                }
            },
            Expression::List(n, t) => {
                let mut results: Vec<(i64, Vec<i64>)> = Vec::new();
                let mut i: u32 = 0;
                assert(src.drawn().take(start.len() as int) =~= start);
                assert(draws_between(start, src.drawn()) =~= Seq::<i64>::empty());
                assert(results_view(results) =~= Seq::<(i64, Seq<i64>)>::empty());
                while i < *n
                    invariant
                        i <= *n,
                        *self == Expression::List(*n, *t),
                        start == old(src).drawn(),
                        src.expired() == old(src).expired(),
                        !term_rolls_dice(*t) ==> src.drawn() == start && src.checks() == old(src).checks(),
                        draws_allowed(*t, draws_between(start, src.drawn())),
                        term_faces_valid(*t),
                        extends(start, src.drawn()),
                        repeat_eval(*t, i as nat, draws_between(start, src.drawn())) == (
                            Ok::<Seq<(i64, Seq<i64>)>, EvaluationErrors>(results_view(results)),
                            draws_between(start, src.drawn()).len(),
                        ),
                    decreases *n - i,
                {
                    let ghost mid = src.drawn();
                    let one = t.evaluate(src);
                    proof {
                        lemma_draws_split(start, mid, src.drawn());
                        let all = draws_between(start, src.drawn());
                        let first = draws_between(start, mid);
                        lemma_repeat_prefix(*t, i as nat, first, all);
                        lemma_allowed_join(*t, first, draws_between(mid, src.drawn()), all);
                    }
                    match one {
                        Err(e) => {
                            proof {
                                if !is_timeout(one) {
                                    let all = draws_between(start, src.drawn());
                                    let first = draws_between(start, mid);
                                    assert(all.skip(first.len() as int) == draws_between(mid, src.drawn()));
                                    assert(repeat_eval(*t, (i + 1) as nat, all).0 is Err);
                                    lemma_repeat_err_stable(*t, (i + 1) as nat, *n as nat, all);
                                    assert(repeat_eval(*t, (i + 1) as nat, all) == (
                                        Err::<Seq<(i64, Seq<i64>)>, EvaluationErrors>(e),
                                        all.len(),
                                    ));
                                }
                            }
                            return Err(e);
                        },
                        Ok(x) => {
                            let ghost before = results_view(results);
                            results.push(x);
                            assert(results_view(results) =~= before.push((x.0, x.1@)));
                        },
                    }
                    i = i + 1;
                }
                Ok(results)
            },
        }
    }
}

/// Once one evaluation of a list fails, the list fails the same way.
pub proof fn lemma_repeat_err_stable(t: Term, m: nat, n: nat, draws: Seq<i64>)
    requires
        m <= n,
        repeat_eval(t, m, draws).0 is Err,
    ensures
        repeat_eval(t, n, draws) == repeat_eval(t, m, draws),
    decreases n - m,
{
    if m < n {
        lemma_repeat_err_stable(t, m, (n - 1) as nat, draws);
    }
}

} // verus!
