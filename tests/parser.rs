use rollbot::dice_types::{
    Dice, DiceType, Filter, FilteredDice, Operation, SelectedDice, Selector, Term,
};
use rollbot::parser::{
    parse_dice, parse_dice_digit, parse_dice_type, parse_filter, parse_filtered_dice, parse_i64,
    parse_selected_dice, parse_selector, parse_term, parse_u32,
};

#[test]
fn parser_test_parse_dice_digit() {
    assert_eq!(parse_dice_digit("d"), Ok(("", "d")));
    assert_eq!(parse_dice_digit("D"), Ok(("", "D")));
    assert_eq!(parse_dice_digit("w"), Ok(("", "w")));
    assert_eq!(parse_dice_digit("W"), Ok(("", "W")));
    assert_eq!(parse_dice_digit("dd"), Ok(("d", "d")));
    assert_eq!(parse_dice_digit("d%"), Ok(("%", "d")));
    assert!(parse_dice_digit("l").is_err());
    assert!(parse_dice_digit("%").is_err());
    assert!(parse_dice_digit("").is_err());
}

#[test]
fn parser_test_parse_u32() {
    assert_eq!(parse_u32("1"), Ok(("", 1)));
    assert_eq!(parse_u32("6969"), Ok(("", 6969)));
    assert_eq!(parse_u32("4294967295"), Ok(("", 4294967295)));
    assert!(parse_u32("4294967296").is_err());
    assert!(parse_u32("-1").is_err());
    assert!(parse_u32("").is_err());
    assert!(parse_u32("0").is_err());
}

#[test]
fn parser_test_parse_i64() {
    assert_eq!(parse_i64("0"), Ok(("", 0)));
    assert_eq!(parse_i64("1"), Ok(("", 1)));
    assert_eq!(parse_i64("+1"), Ok(("", 1)));
    assert_eq!(parse_i64("-1"), Ok(("", -1)));
    assert_eq!(parse_i64("6969"), Ok(("", 6969)));
    assert_eq!(parse_i64("+6969"), Ok(("", 6969)));
    assert_eq!(parse_i64("-1337"), Ok(("", -1337)));
    assert_eq!(
        parse_i64("-9223372036854775808"),
        Ok(("", -9223372036854775808))
    );
    assert_eq!(
        parse_i64("9223372036854775807"),
        Ok(("", 9223372036854775807))
    );
    assert_eq!(
        parse_i64("+9223372036854775807"),
        Ok(("", 9223372036854775807))
    );
    assert_eq!(parse_i64("0k"), Ok(("k", 0)));
    assert!(parse_i64("k").is_err());
    assert!(parse_i64("").is_err());
}

#[test]
fn parser_test_parse_dice_type() {
    assert_eq!(parse_dice_type("1"), Ok(("", DiceType::Number(1))));
    assert_eq!(parse_dice_type("1337"), Ok(("", DiceType::Number(1337))));
    assert_eq!(parse_dice_type("%"), Ok(("", DiceType::Number(100))));
    assert_eq!(parse_dice_type("f"), Ok(("", DiceType::Fudge)));
    assert_eq!(parse_dice_type("F"), Ok(("", DiceType::Fudge)));
    assert_eq!(parse_dice_type("1x"), Ok(("", DiceType::Multiply(1))));
    assert_eq!(parse_dice_type("6969X"), Ok(("", DiceType::Multiply(6969))));
    assert_eq!(
        parse_dice_type("1337 x"),
        Ok(("", DiceType::Multiply(1337)))
    );
    assert!(parse_dice_type("x").is_err());
    assert!(parse_dice_type("").is_err());
}

#[test]
fn parser_test_parse_dice() {
    assert_eq!(
        parse_dice("d1"),
        Ok((
            "",
            Dice {
                throws: 1,
                dice: DiceType::Number(1)
            }
        ))
    );
    assert_eq!(
        parse_dice("1D %"),
        Ok((
            "",
            Dice {
                throws: 1,
                dice: DiceType::Number(100)
            }
        ))
    );
    assert_eq!(
        parse_dice("20w  \t3\tX"),
        Ok((
            "",
            Dice {
                throws: 20,
                dice: DiceType::Multiply(3)
            }
        ))
    );
}

#[test]
fn parser_test_parse_filter() {
    assert_eq!(parse_filter("<"), Ok(("", Filter::Smaller)));
    assert_eq!(parse_filter("<="), Ok(("", Filter::SmallerEq)));
    assert_eq!(parse_filter(">"), Ok(("", Filter::Bigger)));
    assert_eq!(parse_filter(">="), Ok(("", Filter::BiggerEq)));
    assert_eq!(parse_filter("!="), Ok(("", Filter::NotEq)));
    assert_eq!(parse_filter("!=3"), Ok(("3", Filter::NotEq)));
    assert!(parse_filter("==").is_err());
    assert!(parse_filter("").is_err());
}

#[test]
fn parser_test_parse_filtered_dice() {
    assert_eq!(
        parse_filtered_dice("d4"),
        Ok((
            "",
            FilteredDice::Simple(Dice {
                throws: 1,
                dice: DiceType::Number(4)
            })
        ))
    );
    assert_eq!(
        parse_filtered_dice("2d2!=2"),
        Ok((
            "",
            FilteredDice::Filtered(
                Dice {
                    throws: 2,
                    dice: DiceType::Number(2)
                },
                Filter::NotEq,
                2
            )
        ))
    );
    assert_eq!(
        parse_filtered_dice("10   w  10  \t x \t  < \t 75"),
        Ok((
            "",
            FilteredDice::Filtered(
                Dice {
                    throws: 10,
                    dice: DiceType::Multiply(10)
                },
                Filter::Smaller,
                75
            )
        ))
    );
    assert_eq!(
        parse_filtered_dice("69d69>"),
        Ok((
            ">",
            FilteredDice::Simple(Dice {
                throws: 69,
                dice: DiceType::Number(69)
            })
        ))
    );
    assert!(parse_filtered_dice("").is_err());
}

#[test]
fn parser_test_parse_selector() {
    assert_eq!(parse_selector("h"), Ok(("", Selector::Higher)));
    assert_eq!(parse_selector("H"), Ok(("", Selector::Higher)));
    assert_eq!(parse_selector("k"), Ok(("", Selector::Higher)));
    assert_eq!(parse_selector("K"), Ok(("", Selector::Higher)));
    assert_eq!(parse_selector("l"), Ok(("", Selector::Lower)));
    assert_eq!(parse_selector("L"), Ok(("", Selector::Lower)));
    assert_eq!(parse_selector("hl"), Ok(("l", Selector::Higher)));
    assert!(parse_selector("").is_err());
}

#[test]
fn parser_test_parse_selected_dice() {
    assert_eq!(
        parse_selected_dice("d3"),
        Ok((
            "",
            SelectedDice::Unchanged(FilteredDice::Simple(Dice {
                throws: 1,
                dice: DiceType::Number(3)
            }))
        ))
    );
    assert_eq!(
        parse_selected_dice("4W10X>50k2"),
        Ok((
            "",
            SelectedDice::Selected(
                FilteredDice::Filtered(
                    Dice {
                        throws: 4,
                        dice: DiceType::Multiply(10)
                    },
                    Filter::Bigger,
                    50
                ),
                Selector::Higher,
                2
            )
        ))
    );
    assert_eq!(
        parse_selected_dice("4\t  W \t 10  \tX\t  >\t  50\t  k \t 2"),
        Ok((
            "",
            SelectedDice::Selected(
                FilteredDice::Filtered(
                    Dice {
                        throws: 4,
                        dice: DiceType::Multiply(10)
                    },
                    Filter::Bigger,
                    50
                ),
                Selector::Higher,
                2
            )
        ))
    );
    assert!(parse_selected_dice("").is_err());
}

#[test]
fn parser_test_parse_term() {
    assert!(parse_term("d 3 + d f + d % + 1337 d 69 x * 4 d 100 / ( 3 w 10 - 2 )").is_ok());
    assert_eq!(
        parse_term("d 3 + 66DF * 4d3x - 1"),
        Ok((
            "",
            Term::Calculation(
                Box::new(Term::DiceThrow(SelectedDice::Unchanged(
                    FilteredDice::Simple(Dice {
                        throws: 1,
                        dice: DiceType::Number(3)
                    })
                ))),
                Operation::Add,
                Box::new(Term::Calculation(
                    Box::new(Term::DiceThrow(SelectedDice::Unchanged(
                        FilteredDice::Simple(Dice {
                            throws: 66,
                            dice: DiceType::Fudge
                        })
                    ))),
                    Operation::Mul,
                    Box::new(Term::Calculation(
                        Box::new(Term::DiceThrow(SelectedDice::Unchanged(
                            FilteredDice::Simple(Dice {
                                throws: 4,
                                dice: DiceType::Multiply(3)
                            })
                        ))),
                        Operation::Sub,
                        Box::new(Term::Constant(1))
                    ))
                ))
            )
        ))
    );
    assert!(parse_term("").is_err())
}

