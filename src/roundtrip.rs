//! Parsing the rendering of a parsed expression gives the expression back.

use vstd::prelude::*;
use crate::codec::{at_code, lemma_at_code_char, lemma_at_code_split, lemma_nat_text};
use crate::dice_types::{
    filtered_wf, dice_wf, dice_text, dice_type_text, expression_text, filter_text, filtered_text, op_char, selected_text,
    selected_wf, selector_char, term_text, Dice, DiceType, Expression, Filter, FilteredDice,
    Operation, SelectedDice, Selector, Term,
};
use crate::parser::{
    char_at, digits_end, digits_value, either_at, is_digit, is_space, rearrange, spaces_end,
    spec_dice, spec_dice_digit, spec_dice_type, spec_expression, spec_filter, spec_filtered_dice,
    spec_i64, spec_operator, spec_primary, spec_selected_dice, spec_selector, spec_term, spec_u32,
};
use crate::text::{int_text, nat_text};

verus! {

/// Rearranging a term does not change its rendering.
pub proof fn lemma_render_rearranged(t: Term)
    ensures
        term_text(rearrange(t)) == term_text(t),
    decreases t,
{
    match t {
        Term::Calculation(l, op, r) => {
            if op == Operation::Mul || op == Operation::Div {
                match *r {
                    Term::Calculation(l2, op2, r2) => {
                        lemma_render_rearranged(*r2);
                        let inner = Term::Calculation(l, op, l2);
                        assert(rearrange(t) == Term::Calculation(Box::new(inner), op2, Box::new(rearrange(*r2))));
                        assert(term_text(inner) == term_text(*l) + seq![' ', op_char(op), ' '] + term_text(*l2));
                        assert(term_text(*r) == term_text(*l2) + seq![' ', op_char(op2), ' '] + term_text(*r2));
                        assert(term_text(rearrange(t)) == term_text(inner) + seq![' ', op_char(op2), ' '] + term_text(rearrange(*r2)));
                        assert(term_text(t) == term_text(*l) + seq![' ', op_char(op), ' '] + term_text(*r));
                        assert(term_text(rearrange(t)) =~= term_text(t));
                    },
                    _ => {
                        lemma_render_rearranged(*r);
                    },
                }
            } else {
                lemma_render_rearranged(*r);
            }
        },
        Term::SubTerm(x) => {
            lemma_render_rearranged(*x);
        },
        _ => {},
    }
}

/// Terms as the grammar builds them before rearrangement: a left operand is
/// never a calculation, and every count is at least one.
pub open spec fn raw_term(t: Term) -> bool
    decreases t,
{
    match t {
        Term::Constant(_) => true,
        Term::DiceThrow(d) => selected_wf(d),
        Term::SubTerm(x) => raw_term(*x),
        Term::Calculation(l, _, r) => !(*l is Calculation) && raw_term(*l) && raw_term(*r),
    }
}

proof fn lemma_u32_positive(s: Seq<char>, pos: int)
    ensures
        spec_u32(s, pos) matches Some((n, _)) ==> n >= 1,
{
}

proof fn lemma_dice_wf(s: Seq<char>, pos: int)
    ensures
        spec_dice(s, pos) matches Some((d, _)) ==> crate::dice_types::dice_wf(d),
{
    lemma_u32_positive(s, pos);
}

proof fn lemma_selected_out_wf(s: Seq<char>, pos: int)
    ensures
        spec_selected_dice(s, pos) matches Some((d, _)) ==> selected_wf(d),
{
    lemma_dice_wf(s, pos);
    if let Some((d, e)) = spec_dice(s, pos) {
        if let Some((f, b)) = spec_filter(s, spaces_end(s, e)) {
            lemma_u32_positive(s, spaces_end(s, b));
        }
    }
    if let Some((f, e)) = spec_filtered_dice(s, pos) {
        if let Some((sel, b)) = spec_selector(s, spaces_end(s, e)) {
            lemma_u32_positive(s, spaces_end(s, b));
        }
    }
}

/// What the grammar builds is raw; an operand is no calculation.
pub proof fn lemma_primary_raw(s: Seq<char>, pos: int)
    ensures
        spec_primary(s, pos) matches Some((t, _)) ==> raw_term(t) && !(t is Calculation),
    decreases s.len() - pos, 0int,
{
    if 0 <= pos <= s.len() {
        lemma_selected_out_wf(s, pos);
        if spec_selected_dice(s, pos) is None && spec_i64(s, pos) is None && char_at(s, pos, '(') {
            let a = spaces_end(s, pos + 1);
            if pos < a <= s.len() {
                lemma_term_raw(s, a);
            }
        }
    }
}

pub proof fn lemma_term_raw(s: Seq<char>, pos: int)
    ensures
        spec_term(s, pos) matches Some((t, _)) ==> raw_term(t),
    decreases s.len() - pos, 1int,
{
    if 0 <= pos <= s.len() {
        lemma_primary_raw(s, pos);
        if let Some((p, e)) = spec_primary(s, pos) {
            if let Some((op, b)) = spec_operator(s, spaces_end(s, e)) {
                let c = spaces_end(s, b);
                if pos < c <= s.len() {
                    lemma_term_raw(s, c);
                }
            }
        }
    }
}

pub open spec fn is_op_char(c: char) -> bool {
    c == '+' || c == '-' || c == '*' || c == '/'
}

/// Where a rendered term may end: at the end, or before a closing bracket.
pub open spec fn term_stop(s: Seq<char>, e: int) -> bool {
    e == s.len() || char_at(s, e, ')') || char_at(s, e, '}')
}

/// Where a rendered operand may end: where a term may, or before ` op`.
pub open spec fn operand_stop(s: Seq<char>, e: int) -> bool {
    term_stop(s, e) || (char_at(s, e, ' ') && 0 <= e + 1 < s.len() && is_op_char(s[e + 1]))
}

/// Where rendered filtered dice may end: where an operand may, or before a
/// selector.
pub open spec fn filtered_stop(s: Seq<char>, e: int) -> bool {
    operand_stop(s, e) || char_at(s, e, 'h') || char_at(s, e, 'l')
}

/// Where rendered dice may end: also before a filter.
pub open spec fn dice_stop(s: Seq<char>, e: int) -> bool {
    filtered_stop(s, e) || char_at(s, e, '>') || char_at(s, e, '<') || char_at(s, e, '!')
}

proof fn lemma_no_space(s: Seq<char>, e: int)
    requires
        0 <= e <= s.len(),
        e == s.len() || !is_space(s[e]),
    ensures
        spaces_end(s, e) == e,
{
}

proof fn lemma_stop_spaces(s: Seq<char>, e: int)
    requires
        0 <= e <= s.len(),
        dice_stop(s, e),
    ensures
        char_at(s, e, ' ') ==> spaces_end(s, e) == e + 1 && is_op_char(s[e + 1]),
        !char_at(s, e, ' ') ==> spaces_end(s, e) == e,
        e < s.len() ==> !is_digit(s[e]),
{
    if char_at(s, e, ' ') {
        lemma_no_space(s, e + 1);
    }
}

proof fn lemma_digits_run(s: Seq<char>, pos: int, end: int)
    requires
        0 <= pos <= end <= s.len(),
        forall|i: int| pos <= i < end ==> is_digit(#[trigger] s[i]),
        end == s.len() || !is_digit(s[end]),
    ensures
        digits_end(s, pos) == end,
    decreases end - pos,
{
    if pos < end {
        lemma_digits_run(s, pos + 1, end);
    }
}

/// The digits of `n` read back as `n`, up to the next non-digit.
proof fn lemma_read_nat(s: Seq<char>, pos: int, n: nat)
    requires
        at_code(s, pos, nat_text(n)),
        pos + nat_text(n).len() == s.len() || !is_digit(s[pos + nat_text(n).len()]),
    ensures
        digits_end(s, pos) == pos + nat_text(n).len(),
        digits_value(s.subrange(pos, pos + nat_text(n).len())) == n,
        nat_text(n).len() >= 1,
        is_digit(s[pos]),
{
    lemma_nat_text(n);
    assert forall|i: int| pos <= i < pos + nat_text(n).len() implies is_digit(#[trigger] s[i]) by {
        lemma_at_code_char(s, pos, nat_text(n), i - pos);
    }
    lemma_digits_run(s, pos, pos + nat_text(n).len());
}

proof fn lemma_read_u32(s: Seq<char>, pos: int, n: u32)
    requires
        n >= 1,
        at_code(s, pos, nat_text(n as nat)),
        pos + nat_text(n as nat).len() == s.len() || !is_digit(s[pos + nat_text(n as nat).len()]),
    ensures
        spec_u32(s, pos) == Some((n, pos + nat_text(n as nat).len())),
        is_digit(s[pos]),
{
    lemma_read_nat(s, pos, n as nat);
}

proof fn lemma_read_i64(s: Seq<char>, pos: int, c: i64)
    requires
        at_code(s, pos, int_text(c as int)),
        pos + int_text(c as int).len() == s.len() || !is_digit(s[pos + int_text(c as int).len()]),
    ensures
        spec_i64(s, pos) == Some((c, pos + int_text(c as int).len())),
        s[pos] == '-' || is_digit(s[pos]),
        c <= 0 ==> spec_u32(s, pos) is None,
        c > 0 ==> spec_u32(s, pos) == Some((c as u32, pos + int_text(c as int).len())) || spec_u32(s, pos) is None,
        c > 0 ==> digits_end(s, pos) == pos + int_text(c as int).len(),
{
    if c < 0 {
        let m = (-c) as nat;
        lemma_at_code_split(s, pos, seq!['-'], nat_text(m));
        lemma_at_code_char(s, pos, seq!['-'], 0);
        lemma_read_nat(s, pos + 1, m);
    } else {
        lemma_read_nat(s, pos, c as nat);
    }
}

proof fn lemma_read_dice(s: Seq<char>, pos: int, d: Dice)
    requires
        crate::dice_types::dice_wf(d),
        at_code(s, pos, dice_text(d)),
        dice_stop(s, pos + dice_text(d).len()),
    ensures
        spec_dice(s, pos) == Some((d, pos + dice_text(d).len())),
        is_digit(s[pos]),
{
    let t = nat_text(d.throws as nat);
    let k = dice_type_text(d.dice);
    let e = pos + dice_text(d).len();
    lemma_at_code_split(s, pos, t, k);
    lemma_at_code_char(s, pos + t.len(), k, 0);
    lemma_read_u32(s, pos, d.throws);
    let after_throws = pos + t.len();
    lemma_no_space(s, after_throws);
    lemma_stop_spaces(s, e);
    match d.dice {
        DiceType::Number(n) => {
            assert(k =~= seq!['d'] + nat_text(n as nat));
            lemma_at_code_split(s, after_throws, seq!['d'], nat_text(n as nat));
            lemma_read_u32(s, after_throws + 1, n);
            lemma_no_space(s, after_throws + 1);
        },
        DiceType::Fudge => {
            lemma_at_code_char(s, after_throws, k, 1);
            lemma_no_space(s, after_throws + 1);
            assert(!is_digit(s[after_throws + 1]));
        },
        DiceType::Multiply(n) => {
            assert(k =~= seq!['d'] + nat_text(n as nat) + seq!['x']);
            lemma_at_code_split(s, after_throws, seq!['d'] + nat_text(n as nat), seq!['x']);
            lemma_at_code_split(s, after_throws, seq!['d'], nat_text(n as nat));
            lemma_at_code_char(s, e - 1, seq!['x'], 0);
            lemma_read_u32(s, after_throws + 1, n);
            lemma_no_space(s, after_throws + 1);
            lemma_no_space(s, e - 1);
        },
    }
}

proof fn lemma_read_filter(s: Seq<char>, pos: int, f: Filter)
    requires
        at_code(s, pos, filter_text(f)),
        pos + filter_text(f).len() < s.len(),
        is_digit(s[pos + filter_text(f).len()]),
    ensures
        spec_filter(s, pos) == Some((f, pos + filter_text(f).len())),
{
    lemma_at_code_char(s, pos, filter_text(f), 0);
    if filter_text(f).len() > 1 {
        lemma_at_code_char(s, pos, filter_text(f), 1);
    }
}

proof fn lemma_read_filtered(s: Seq<char>, pos: int, f: FilteredDice)
    requires
        crate::dice_types::filtered_wf(f),
        at_code(s, pos, filtered_text(f)),
        filtered_stop(s, pos + filtered_text(f).len()),
    ensures
        spec_filtered_dice(s, pos) == Some((f, pos + filtered_text(f).len())),
        is_digit(s[pos]),
{
    let e = pos + filtered_text(f).len();
    match f {
        FilteredDice::Simple(d) => {
            lemma_read_dice(s, pos, d);
            lemma_stop_spaces(s, e);
        },
        FilteredDice::Filtered(d, fil, n) => {
            let dt = dice_text(d);
            let ft = filter_text(fil);
            let nt = nat_text(n as nat);
            lemma_at_code_split(s, pos, dt + ft, nt);
            lemma_at_code_split(s, pos, dt, ft);
            lemma_at_code_char(s, pos + dt.len(), ft, 0);
            lemma_read_nat(s, pos + dt.len() + ft.len(), n as nat);
            lemma_read_dice(s, pos, d);
            lemma_no_space(s, pos + dt.len());
            lemma_read_filter(s, pos + dt.len(), fil);
            lemma_no_space(s, pos + dt.len() + ft.len());
            lemma_stop_spaces(s, e);
            lemma_read_u32(s, pos + dt.len() + ft.len(), n);
        },
    }
}

pub proof fn lemma_read_selected(s: Seq<char>, pos: int, d: SelectedDice)
    requires
        selected_wf(d),
        at_code(s, pos, selected_text(d)),
        operand_stop(s, pos + selected_text(d).len()),
    ensures
        spec_selected_dice(s, pos) == Some((d, pos + selected_text(d).len())),
        is_digit(s[pos]),
{
    let e = pos + selected_text(d).len();
    match d {
        SelectedDice::Unchanged(f) => {
            lemma_read_filtered(s, pos, f);
            lemma_stop_spaces(s, e);
        },
        SelectedDice::Selected(f, sel, n) => {
            let ft = filtered_text(f);
            let st = seq![selector_char(sel)];
            let nt = nat_text(n as nat);
            lemma_at_code_split(s, pos, ft + st, nt);
            lemma_at_code_split(s, pos, ft, st);
            lemma_at_code_char(s, pos + ft.len(), st, 0);
            lemma_read_filtered(s, pos, f);
            lemma_no_space(s, pos + ft.len());
            lemma_read_nat(s, pos + ft.len() + 1, n as nat);
            lemma_no_space(s, pos + ft.len() + 1);
            lemma_stop_spaces(s, e);
            lemma_read_u32(s, pos + ft.len() + 1, n);
        },
    }
}

/// A rendered term starts with a digit, a minus sign or a parenthesis.
proof fn lemma_term_first(t: Term)
    ensures
        term_text(t).len() > 0,
        is_digit(term_text(t)[0]) || term_text(t)[0] == '-' || term_text(t)[0] == '(',
    decreases t,
{
    match t {
        Term::Constant(c) => {
            if c < 0 {
            } else {
                lemma_nat_text(c as nat);
            }
        },
        Term::DiceThrow(d) => {
            let x = selected_dice_of(d);
            lemma_nat_text(x.throws as nat);
            lemma_selected_prefix(d);
        },
        Term::SubTerm(_) => {},
        Term::Calculation(l, _, _) => {
            lemma_term_first(*l);
        },
    }
}

pub open spec fn selected_dice_of(d: SelectedDice) -> Dice {
    crate::dice_types::selected_dice(d)
}

/// Rendered dice start with the number of throws.
proof fn lemma_selected_prefix(d: SelectedDice)
    ensures
        selected_text(d).len() >= nat_text(selected_dice_of(d).throws as nat).len(),
        selected_text(d).subrange(0, nat_text(selected_dice_of(d).throws as nat).len() as int)
            == nat_text(selected_dice_of(d).throws as nat),
{
    let x = selected_dice_of(d);
    let t = nat_text(x.throws as nat);
    let f = match d {
        SelectedDice::Unchanged(f) => f,
        SelectedDice::Selected(f, _, _) => f,
    };
    let rest_f = filtered_text(f).subrange(dice_text(x).len() as int, filtered_text(f).len() as int);
    assert(filtered_text(f) =~= dice_text(x) + rest_f);
    let rest_s = selected_text(d).subrange(filtered_text(f).len() as int, selected_text(d).len() as int);
    assert(selected_text(d) =~= filtered_text(f) + rest_s);
    assert(selected_text(d).subrange(0, t.len() as int) =~= t);
}

proof fn lemma_read_operator(s: Seq<char>, pos: int, op: Operation)
    requires
        char_at(s, pos, op_char(op)),
    ensures
        spec_operator(s, pos) == Some((op, pos + 1)),
{
}

/// An operand reads back from its rendering.
pub proof fn lemma_read_primary(s: Seq<char>, pos: int, t: Term)
    requires
        raw_term(t),
        !(t is Calculation),
        at_code(s, pos, term_text(t)),
        operand_stop(s, pos + term_text(t).len()),
    ensures
        spec_primary(s, pos) == Some((t, pos + term_text(t).len())),
    decreases t, 0int,
{
    let e = pos + term_text(t).len();
    lemma_stop_spaces(s, e);
    match t {
        Term::DiceThrow(d) => {
            lemma_read_selected(s, pos, d);
        },
        Term::Constant(c) => {
            lemma_read_i64(s, pos, c);
            lemma_no_space(s, pos);
            if c > 0 {
                if let Some((n, e1)) = spec_u32(s, pos) {
                    assert(e1 == e);
                }
            }
            assert(spec_dice_digit(s, spaces_end(s, match spec_u32(s, pos) {
                Some((n, e1)) => e1,
                None => pos,
            })) is None);
            assert(spec_dice(s, pos) is None);
        },
        Term::SubTerm(x) => {
            let inner = term_text(*x);
            assert(term_text(t) =~= seq!['('] + inner + seq![')']);
            lemma_at_code_split(s, pos, seq!['('] + inner, seq![')']);
            lemma_at_code_split(s, pos, seq!['('], inner);
            lemma_at_code_char(s, pos, seq!['('], 0);
            lemma_at_code_char(s, e - 1, seq![')'], 0);
            lemma_no_space(s, pos);
            assert(digits_end(s, pos) == pos);
            assert(spec_dice(s, pos) is None);
            lemma_term_first(*x);
            lemma_at_code_char(s, pos + 1, inner, 0);
            lemma_no_space(s, pos + 1);
            lemma_read_term(s, pos + 1, *x);
            lemma_no_space(s, e - 1);
        },
        Term::Calculation(..) => {},
    }
}

/// A raw term reads back from its rendering.
pub proof fn lemma_read_term(s: Seq<char>, pos: int, t: Term)
    requires
        raw_term(t),
        at_code(s, pos, term_text(t)),
        term_stop(s, pos + term_text(t).len()),
    ensures
        spec_term(s, pos) == Some((t, pos + term_text(t).len())),
    decreases t, 1int,
{
    let e = pos + term_text(t).len();
    match t {
        Term::Calculation(l, op, r) => {
            let lt = term_text(*l);
            let mid = seq![' ', op_char(op), ' '];
            let rt = term_text(*r);
            lemma_at_code_split(s, pos, lt + mid, rt);
            lemma_at_code_split(s, pos, lt, mid);
            lemma_at_code_char(s, pos + lt.len(), mid, 0);
            lemma_at_code_char(s, pos + lt.len(), mid, 1);
            lemma_at_code_char(s, pos + lt.len(), mid, 2);
            lemma_read_primary(s, pos, *l);
            lemma_no_space(s, pos + lt.len() + 1);
            lemma_read_operator(s, pos + lt.len() + 1, op);
            lemma_term_first(*r);
            lemma_at_code_char(s, pos + lt.len() + 3, rt, 0);
            lemma_no_space(s, pos + lt.len() + 3);
            assert(spaces_end(s, pos + lt.len() + 2) == pos + lt.len() + 3);
            lemma_read_term(s, pos + lt.len() + 3, *r);
        },
        _ => {
            lemma_read_primary(s, pos, t);
            lemma_no_space(s, e);
        },
    }
}

/// What the grammar builds for a whole expression: a raw term, rearranged,
/// in a list of at least one.
pub open spec fn built_expression(e: Expression) -> bool {
    match e {
        Expression::Simple(r) => exists|t: Term| raw_term(t) && r == rearrange(t),
        Expression::List(n, r) => n >= 1 && exists|t: Term| raw_term(t) && r == rearrange(t),
    }
}

proof fn lemma_expression_built(s: Seq<char>, pos: int)
    ensures
        spec_expression(s, pos) matches Some((e, _)) ==> built_expression(e),
{
    lemma_u32_positive(s, pos);
    if let Some((n, e)) = spec_u32(s, pos) {
        let a = spaces_end(s, e);
        lemma_term_raw(s, spaces_end(s, a + 1));
    }
    lemma_term_raw(s, pos);
}

/// The rendering of a parsed expression parses back to it, to its end.
pub proof fn law_parse_render_round_trip(s: Seq<char>, e: Expression, end: int)
    requires
        spec_expression(s, 0) == Some((e, end)),
    ensures
        spec_expression(expression_text(e), 0) == Some((e, expression_text(e).len() as int)),
{
    lemma_expression_built(s, 0);
    let x = expression_text(e);
    assert(at_code(x, 0, x)) by {
        assert(x.subrange(0, x.len() as int) =~= x);
    }
    match e {
        Expression::Simple(r) => {
            let t = choose|t: Term| raw_term(t) && r == rearrange(t);
            lemma_render_rearranged(t);
            lemma_read_term(x, 0, t);
            lemma_term_first(t);
            lemma_term_no_brace(t);
        },
        Expression::List(n, r) => {
            let t = choose|t: Term| raw_term(t) && r == rearrange(t);
            lemma_render_rearranged(t);
            let nt = nat_text(n as nat);
            let tt = term_text(t);
            assert(x =~= nt + seq!['{'] + tt + seq!['}']);
            lemma_at_code_split(x, 0, nt + seq!['{'] + tt, seq!['}']);
            lemma_at_code_split(x, 0, nt + seq!['{'], tt);
            lemma_at_code_split(x, 0, nt, seq!['{']);
            lemma_at_code_char(x, nt.len() as int, seq!['{'], 0);
            lemma_at_code_char(x, x.len() - 1, seq!['}'], 0);
            lemma_read_u32(x, 0, n);
            lemma_no_space(x, nt.len() as int);
            lemma_term_first(t);
            lemma_at_code_char(x, nt.len() + 1int, tt, 0);
            lemma_no_space(x, nt.len() + 1int);
            lemma_read_term(x, nt.len() + 1int, t);
            lemma_no_space(x, x.len() - 1);
        },
    }
}

pub open spec fn no_brace(x: Seq<char>) -> bool {
    forall|i: int| 0 <= i < x.len() ==> x[i] != '{'
}

proof fn lemma_no_brace_concat(a: Seq<char>, b: Seq<char>)
    requires
        no_brace(a),
        no_brace(b),
    ensures
        no_brace(a + b),
{
    assert forall|i: int| 0 <= i < (a + b).len() implies (a + b)[i] != '{' by {
        if i < a.len() {
            assert((a + b)[i] == a[i]);
        } else {
            assert((a + b)[i] == b[i - a.len()]);
        }
    }
}

proof fn lemma_nat_no_brace(n: nat)
    ensures
        no_brace(nat_text(n)),
{
    lemma_nat_text(n);
}

proof fn lemma_selected_no_brace(d: SelectedDice)
    ensures
        no_brace(selected_text(d)),
{
    let x = selected_dice_of(d);
    lemma_nat_no_brace(x.throws as nat);
    match x.dice {
        DiceType::Number(n) => {
            lemma_nat_no_brace(n as nat);
            lemma_no_brace_concat(seq!['d'], nat_text(n as nat));
        },
        DiceType::Multiply(n) => {
            lemma_nat_no_brace(n as nat);
            lemma_no_brace_concat(seq!['d'], nat_text(n as nat));
            lemma_no_brace_concat(seq!['d'] + nat_text(n as nat), seq!['x']);
        },
        DiceType::Fudge => {},
    }
    lemma_no_brace_concat(nat_text(x.throws as nat), dice_type_text(x.dice));
    let f = match d {
        SelectedDice::Unchanged(f) => f,
        SelectedDice::Selected(f, _, _) => f,
    };
    match f {
        FilteredDice::Filtered(dd, fil, n) => {
            lemma_nat_no_brace(n as nat);
            lemma_no_brace_concat(dice_text(dd), filter_text(fil));
            lemma_no_brace_concat(dice_text(dd) + filter_text(fil), nat_text(n as nat));
        },
        _ => {},
    }
    match d {
        SelectedDice::Selected(ff, sel, n) => {
            lemma_nat_no_brace(n as nat);
            lemma_no_brace_concat(filtered_text(ff), seq![selector_char(sel)]);
            lemma_no_brace_concat(filtered_text(ff) + seq![selector_char(sel)], nat_text(n as nat));
        },
        _ => {},
    }
}

/// No rendered term holds `{`.
proof fn lemma_term_no_brace(t: Term)
    ensures
        no_brace(term_text(t)),
    decreases t,
{
    match t {
        Term::Constant(c) => {
            if c < 0 {
                lemma_nat_no_brace((-c) as nat);
                lemma_no_brace_concat(seq!['-'], nat_text((-c) as nat));
            } else {
                lemma_nat_no_brace(c as nat);
            }
        },
        Term::DiceThrow(d) => lemma_selected_no_brace(d),
        Term::SubTerm(x) => {
            lemma_term_no_brace(*x);
            lemma_no_brace_concat(seq!['('], term_text(*x));
            lemma_no_brace_concat(seq!['('] + term_text(*x), seq![')']);
        },
        Term::Calculation(l, op, r) => {
            lemma_term_no_brace(*l);
            lemma_term_no_brace(*r);
            lemma_no_brace_concat(term_text(*l), seq![' ', op_char(op), ' ']);
            lemma_no_brace_concat(term_text(*l) + seq![' ', op_char(op), ' '], term_text(*r));
        },
    }
}

} // verus!
