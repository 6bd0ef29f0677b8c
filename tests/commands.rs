use rollbot::commands::{chars_set, parse_command, Command};
use rollbot::dice_types::{
    Dice, DiceType, Expression, FilteredDice, LabeledExpression, SelectedDice, Term,
    VersionedRollExpr,
};

#[test]
fn commands_test_parse_command() {
    assert_eq!(
        parse_command("! roll 1", "!"),
        Ok((
            "",
            Command::Roll(VersionedRollExpr::V2(LabeledExpression::Unlabeled(
                Expression::Simple(Term::Constant(1))
            )))
        ))
    );
    assert_eq!(
        parse_command("!cp set !", "!"),
        Ok(("", Command::SetCommandPrefix("!".to_string())))
    );
    assert_eq!(
        parse_command("ü rp add ä", "ü"),
        Ok(("", Command::AddRollPrefix("ä".to_string())))
    );

    assert_eq!(
        parse_command("! r 1d4#label", "!"),
        Ok((
            "",
            Command::Roll(VersionedRollExpr::V2(LabeledExpression::Labeled(
                Expression::Simple(Term::DiceThrow(SelectedDice::Unchanged(
                    FilteredDice::Simple(Dice {
                        throws: 1,
                        dice: DiceType::Number(4)
                    })
                ))),
                "label".to_string()
            )))
        ))
    );
}

#[test]
fn commands_test_chars_set() {
    assert_eq!(chars_set("ä"), Ok(("", 'ä')));
    assert_eq!(chars_set(":"), Ok(("", ':')));
    assert_eq!(chars_set("%"), Ok(("", '%')));
    assert_eq!(chars_set("✅"), Ok(("", '✅')));
}
