use rollbot::settings::{ClientUtilsConfig, Setting, Settings};
use rollbot::codec::{deserialize, serialize};
use rollbot::dice_types::{
    Dice, DiceType, Expression, Filter, FilteredDice, LabeledExpression, Operation, SelectedDice,
    Selector, Term, VersionedRollExpr,
};
use rollbot::evaluate::EvaluationErrors;
use rollbot::limits::DiceLimits;
use rollbot::parser::{parse_expression, parse_labeled, parse_rearanged_term, parse_term_calculation, rearange_term};
use rollbot::roller::{ReplayRolls, SeededRolls};
use std::sync::atomic::AtomicBool;
use std::sync::Arc;


fn dice(throws: u32, kind: DiceType) -> Dice {
    Dice { throws, dice: kind }
}

fn roll(t: Term) -> Box<Term> {
    Box::new(t)
}

fn flag() -> Arc<AtomicBool> {
    Arc::new(AtomicBool::new(false))
}

#[test]
fn parse_render_round_trip() {
    for text in [
        "d 3 + 66DF * 4d3x - 1",
        "2 * 3 * 4 + 5 / -6",
        "6{4d6k3}",
        "(1d20 + 2) * 3d8>=2l2 - 10",
        "3w10x!=4h1 / (2 - 1)",
        "-9223372036854775808 - 1",
        "2 * (3 * 4 + 5) * 6",
    ] {
        let (_, e) = parse_expression(text).unwrap();
        let rendered = e.to_string();
        let (rest, again) = parse_expression(&rendered).unwrap();
        assert_eq!(rest, "");
        assert_eq!(again, e, "{}", rendered);
    }
}

#[test]
fn rearrangement_binds_products_first() {
    let (_, t) = parse_rearanged_term("1 * 2 + 3").unwrap();
    assert_eq!(
        t,
        Term::Calculation(
            roll(Term::Calculation(roll(Term::Constant(1)), Operation::Mul, roll(Term::Constant(2)))),
            Operation::Add,
            roll(Term::Constant(3))
        )
    );
    let (_, t) = parse_rearanged_term("1 - 2 - 3").unwrap();
    assert_eq!(
        t,
        Term::Calculation(
            roll(Term::Constant(1)),
            Operation::Sub,
            roll(Term::Calculation(roll(Term::Constant(2)), Operation::Sub, roll(Term::Constant(3))))
        )
    );
    let raw = Term::Calculation(
        roll(Term::Constant(8)),
        Operation::Div,
        roll(Term::Calculation(roll(Term::Constant(4)), Operation::Div, roll(Term::Constant(2)))),
    );
    let (_, parsed) = parse_term_calculation("8 / 4 / 2").unwrap();
    assert_eq!(parsed, raw);
    assert_eq!(
        rearange_term(raw),
        Term::Calculation(
            roll(Term::Calculation(roll(Term::Constant(8)), Operation::Div, roll(Term::Constant(4)))),
            Operation::Div,
            roll(Term::Constant(2))
        )
    );
    assert!(parse_term_calculation("8").is_err());
}

#[test]
fn labels_join_words() {
    let (rest, e) = parse_labeled("2d6#  fire   damage ").unwrap();
    assert_eq!(rest, "");
    let (rest, _) = parse_labeled("2d6 #label").unwrap();
    assert_eq!(rest, " #label");
    assert_eq!(
        e,
        LabeledExpression::Labeled(
            Expression::Simple(Term::DiceThrow(SelectedDice::Unchanged(FilteredDice::Simple(dice(
                2,
                DiceType::Number(6)
            ))))),
            "fire damage".to_string()
        )
    );
}

#[test]
fn serialization_round_trip() {
    let (_, e) = parse_expression("6{(4d6k3 + -2) * 3w10x!=4l1 / 1dF}").unwrap();
    let (_, f) = parse_expression("1d20>=3").unwrap();
    for v in [
        VersionedRollExpr::V1(e.copy()),
        VersionedRollExpr::V2(LabeledExpression::Unlabeled(e.copy())),
        VersionedRollExpr::V2(LabeledExpression::Labeled(e.copy(), "stats; #1 {x}".to_string())),
        VersionedRollExpr::V1(f.copy()),
        VersionedRollExpr::V2(LabeledExpression::Labeled(f.copy(), String::new())),
    ] {
        let text = serialize(&v);
        assert_eq!(deserialize(&text), Some(v));
    }
    assert_eq!(serialize(&VersionedRollExpr::V1(Expression::Simple(Term::Constant(-5)))), "1sc-5;");
    assert_eq!(deserialize("2sx"), None);
    assert_eq!(deserialize("1sc5;extra"), None);
    assert_eq!(deserialize(""), None);
}

#[test]
fn evaluation_is_fixed_by_the_seed() {
    let (_, e) = parse_expression("10{4d6k3 + 2d10x - 1dF}").unwrap();
    let a = e.evaluate(&mut SeededRolls::new([3; 32], flag()));
    let b = e.evaluate(&mut SeededRolls::new([3; 32], flag()));
    assert!(a.is_ok());
    assert_eq!(a, b);
}

#[test]
fn rolls_stay_within_the_faces() {
    let mut src = SeededRolls::new([11; 32], flag());
    let (all, _) = dice(500, DiceType::Number(6)).evaluate(&mut src).unwrap();
    assert_eq!(all.len(), 500);
    assert!(all.iter().all(|v| (1..=6).contains(v)));
    assert!(all.contains(&1) && all.contains(&6));
    let (all, _) = dice(300, DiceType::Fudge).evaluate(&mut src).unwrap();
    assert!(all.iter().all(|v| (-1..=1).contains(v)));
    let (all, _) = dice(300, DiceType::Multiply(4)).evaluate(&mut src).unwrap();
    assert!(all.iter().all(|v| (1..=16).contains(v)));
    let big = dice(2, DiceType::Multiply(u32::MAX));
    let mut src = ReplayRolls::new(vec![i64::from(u32::MAX); 4]);
    assert_eq!(big.evaluate(&mut src), Err(EvaluationErrors::Overflow));
}

#[test]
fn selecting_no_fewer_than_thrown_keeps_all() {
    let base = FilteredDice::Simple(dice(3, DiceType::Number(6)));
    let values = vec![5, 1, 3];
    let unchanged = SelectedDice::Unchanged(base).evaluate(&mut ReplayRolls::new(values.clone()));
    for k in [3, 4, 100] {
        for sel in [Selector::Higher, Selector::Lower] {
            let selected = SelectedDice::Selected(base, sel, k).evaluate(&mut ReplayRolls::new(values.clone()));
            assert_eq!(selected, unchanged);
        }
    }
    let high = SelectedDice::Selected(base, Selector::Higher, 2).evaluate(&mut ReplayRolls::new(values.clone()));
    assert_eq!(high, Ok((vec![3, 5], vec![5, 1, 3])));
    let low = SelectedDice::Selected(base, Selector::Lower, 1).evaluate(&mut ReplayRolls::new(values));
    assert_eq!(low, Ok((vec![1], vec![5, 1, 3])));
}

#[test]
fn filters_compare_with_the_target() {
    let values = vec![1, 2, 3, 4];
    let cases = [
        (Filter::Bigger, vec![3, 4]),
        (Filter::BiggerEq, vec![3, 4]),
        (Filter::Smaller, vec![1]),
        (Filter::SmallerEq, vec![1, 2]),
        (Filter::NotEq, vec![1, 3, 4]),
    ];
    for (f, kept) in cases {
        let fd = FilteredDice::Filtered(dice(4, DiceType::Number(4)), f, 2);
        assert_eq!(fd.evaluate(&mut ReplayRolls::new(values.clone())), Ok((kept, values.clone())));
    }
}

#[test]
fn arithmetic_errors() {
    let (_, e) = parse_expression("1 / 0").unwrap();
    assert_eq!(e.evaluate(&mut ReplayRolls::new(vec![])), Err(EvaluationErrors::DivideByZero));
    let (_, e) = parse_expression("-9223372036854775808 / -1").unwrap();
    assert_eq!(e.evaluate(&mut ReplayRolls::new(vec![])), Err(EvaluationErrors::Overflow));
    let (_, e) = parse_expression("-7 / 2").unwrap();
    assert_eq!(e.evaluate(&mut ReplayRolls::new(vec![])), Ok(vec![(-3, vec![])]));
    let (_, e) = parse_expression("3 * 4 - 5 * 2").unwrap();
    assert_eq!(e.evaluate(&mut ReplayRolls::new(vec![])), Ok(vec![(2, vec![])]));
    let (_, e) = parse_expression("2 * 3 - 4").unwrap();
    assert_eq!(e.evaluate(&mut ReplayRolls::new(vec![])), Ok(vec![(2, vec![])]));
    let (_, e) = parse_expression("10 - 2 - 3").unwrap();
    assert_eq!(e.evaluate(&mut ReplayRolls::new(vec![])), Ok(vec![(11, vec![])]));
    let (_, e) = parse_expression("2d6>6").unwrap();
    assert_eq!(e.evaluate(&mut ReplayRolls::new(vec![3, 4])), Ok(vec![(0, vec![3, 4])]));
}

#[test]
fn limits_of_dice() {
    assert_eq!(DiceType::Number(6).min(), 1);
    assert_eq!(DiceType::Number(6).max(), 6);
    assert_eq!(DiceType::Fudge.min(), -1);
    assert_eq!(DiceType::Multiply(u32::MAX).max(), 18446744065119617025);
    assert_eq!(dice(4, DiceType::Fudge).min(), -4);
    assert_eq!(dice(3, DiceType::Number(6)).max(), 18);
    let sel = SelectedDice::Selected(FilteredDice::Simple(dice(4, DiceType::Number(6))), Selector::Higher, 3);
    assert_eq!(sel.min(), 3);
    assert_eq!(sel.max(), 18);
    assert_eq!(FilteredDice::Filtered(dice(2, DiceType::Number(10)), Filter::Bigger, 5).max(), 20);
}

#[test]
fn rendering() {
    let t = Term::Calculation(
        roll(Term::SubTerm(roll(Term::Constant(-4)))),
        Operation::Mul,
        roll(Term::DiceThrow(SelectedDice::Selected(
            FilteredDice::Filtered(dice(10, DiceType::Multiply(12)), Filter::SmallerEq, 7),
            Selector::Lower,
            2,
        ))),
    );
    assert_eq!(t.to_string(), "(-4) * 10d12x<=7l2");
    assert_eq!(Expression::List(3, Term::Constant(0)).to_string(), "3{0}");
    assert_eq!(dice(1, DiceType::Fudge).to_string(), "1dF");
    assert_eq!(Filter::NotEq.to_string(), "!=");
    assert_eq!(Operation::Div.to_string(), "/");
    assert_eq!(Selector::Higher.to_string(), "h");
    assert_eq!(
        LabeledExpression::Labeled(Expression::Simple(Term::Constant(i64::MIN)), "x".to_string()).to_string(),
        "-9223372036854775808"
    );
}

#[test]
fn settings_take_defaults() {
    let s = Settings::from_values(None, Some(10), Some(-1), Some(8));
    assert_eq!(s.db_queue_size, Setting { value: 64, rewrite: true });
    assert_eq!(s.roll_timeout_ms, Setting { value: 10, rewrite: false });
    assert_eq!(s.rng_reseed_s, Setting { value: 300, rewrite: true });
    assert_eq!(s.rng_workers, Setting { value: 8, rewrite: false });
    let s = Settings::from_values(Some(1), None, None, Some(1 << 40));
    assert_eq!(s.roll_timeout_ms, Setting { value: 2000, rewrite: true });
    assert_eq!(s.rng_workers, Setting { value: 4, rewrite: true });
    let (c, q, k) = ClientUtilsConfig::from_values("dm".to_string(), Some(16), None);
    assert_eq!((c.channel_size, c.cache_size, c.client_type.as_str(), q, k), (16, 1024, "dm", false, true));
}

#[test]
fn raised_flag_stops_only_dice() {
    let raised = Arc::new(AtomicBool::new(true));
    let (_, constants) = parse_expression("1 + 2 * 3").unwrap();
    let mut src = SeededRolls::new([1; 32], raised.clone());
    assert_eq!(constants.evaluate(&mut src), Ok(vec![(7, vec![])]));
    let (_, dice) = parse_expression("1 + 1d6").unwrap();
    assert_eq!(dice.evaluate(&mut src), Err(EvaluationErrors::Timeout));
}
