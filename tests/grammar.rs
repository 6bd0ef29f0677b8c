use rollbot::commands::{alias_candidates, chars_set, parse_command, parse_extra_aliases, parse_roll, Command};
use rollbot::config::{StorageOp, StorageReply};
use rollbot::dice_types::{
    Dice, DiceType, Expression, FilteredDice, LabeledExpression, Operation, SelectedDice, Term,
    VersionedRollExpr,
};
use rollbot::parser::{parse_operator, parse_term_constant, parse_term_roll, parse_term_subterm};
use rollbot::storage::{entry_from_row, Handled, StorageActor, StoredRow};

fn d(throws: u32, faces: u32) -> Term {
    Term::DiceThrow(SelectedDice::Unchanged(FilteredDice::Simple(Dice {
        throws,
        dice: DiceType::Number(faces),
    })))
}

#[test]
fn operands_and_operators() {
    assert_eq!(parse_operator("*2"), Ok(("2", Operation::Mul)));
    assert!(parse_operator("x").is_err());
    assert_eq!(parse_term_constant("-12 + 1"), Ok((" + 1", Term::Constant(-12))));
    assert!(parse_term_constant("d6").is_err());
    assert_eq!(parse_term_roll("2d6 + 1"), Ok((" + 1", d(2, 6))));
    assert!(parse_term_roll("12").is_err());
    assert_eq!(
        parse_term_subterm("( 1d4 )x"),
        Ok(("x", Term::SubTerm(Box::new(d(1, 4)))))
    );
    assert!(parse_term_subterm("1d4").is_err());
    assert!(parse_term_subterm("(1d4").is_err());
}

#[test]
fn roll_prefix_messages() {
    assert_eq!(
        parse_roll("?? 2d6  ", "??"),
        Ok((
            "",
            Command::Roll(VersionedRollExpr::V2(LabeledExpression::Unlabeled(Expression::Simple(d(2, 6)))))
        ))
    );
    assert!(parse_roll("?? 2d6 y", "??").is_err());
    assert!(parse_roll("! 2d6", "??").is_err());
}

#[test]
fn commands_and_help_fallback() {
    assert_eq!(parse_command("!help", "!"), Ok(("", Command::Help)));
    assert_eq!(parse_command("!info", "!"), Ok(("", Command::Info)));
    assert_eq!(parse_command("!Roll-Help", "!"), Ok(("", Command::RollHelp)));
    assert_eq!(parse_command("!cp g", "!"), Ok(("", Command::GetCommandPrefix)));
    assert_eq!(parse_command("!ri set 0", "!"), Ok(("", Command::SetRollInfo(false))));
    assert_eq!(parse_command("!roll_info get", "!"), Ok(("", Command::GetRollInfo)));
    assert_eq!(parse_command("!a l", "!"), Ok(("", Command::ListAliases)));
    assert_eq!(parse_command("!alias remove x", "!"), Ok(("", Command::RemoveAlias("x".to_string()))));
    assert_eq!(parse_command("!rp remove", "!"), Ok(("", Command::RemoveRollPrefix(String::new()))));
    assert_eq!(parse_command("!i 5", "!"), Ok(("i 5", Command::Help)));
    assert_eq!(parse_command("!what", "!"), Ok(("what", Command::Help)));
    assert!(parse_command("?help", "!").is_err());
    assert!(parse_command("HELP", "help").is_err());
}

#[test]
fn unicode_classes() {
    assert!(chars_set("\u{2028}").is_err());
    assert!(chars_set("\u{200B}").is_err());
    assert!(chars_set(" ").is_err());
    assert!(chars_set("$").is_err());
    assert!(chars_set("\u{00A0}").is_err());
    assert_eq!(chars_set("é!"), Ok(("!", 'é')));
    assert_eq!(parse_command("!cp set a\u{00A0}b", "!"), Ok(("cp set a\u{00A0}b", Command::Help)));
}

#[test]
fn alias_names_in_messages() {
    assert_eq!(parse_extra_aliases("roll $a and $bb, $"), vec!["a".to_string(), "bb,".to_string()]);
    assert_eq!(parse_extra_aliases("$$x"), Vec::<String>::new());
    assert_eq!(
        alias_candidates("\u{3000} $atk \t"),
        vec!["atk".to_string(), "$atk".to_string()]
    );
    assert_eq!(alias_candidates("   "), vec![String::new()]);
}

#[test]
fn stored_prefixes_lose_repeats() {
    let row = StoredRow {
        id: "1".to_string(),
        command_prefix: "rrb!".to_string(),
        roll_prefix: "[\"a\",\"b\",\"a\"]".to_string(),
        aliases: "{\"z\":\"2sc4;\",\"y\":\"3sd u n1;n6;label\"}".to_string(),
        roll_info: false,
    };
    let mut e = entry_from_row(&row);
    assert_eq!(e.config.roll_prefixes, vec!["a".to_string(), "b".to_string()]);
    assert!(e.dirty.roll_prefixes);
    assert_eq!(e.config.aliases.len(), 0);
    assert!(e.dirty.aliases);
    let cs = e.take_changeset();
    assert_eq!(cs.roll_prefix, Some("[\"a\",\"b\"]".to_string()));
    assert_eq!(cs.aliases, Some("{}".to_string()));
    assert_eq!(cs.command_prefix, None);
    assert!(!e.dirty.roll_prefixes && !e.dirty.aliases);
}

#[test]
fn full_cache_drops_the_oldest_tenant() {
    let mut actor = StorageActor::new(1);
    for id in [1u64, 2] {
        assert!(matches!(actor.handle(id, StorageOp::GetRollInfo), Handled::Load));
        let (replies, _, _) = actor.loaded(id, entry_from_row(&StoredRow::new(id.to_string())));
        assert!(matches!(replies[0], StorageReply::RollInfo(false)));
    }
    assert!(matches!(actor.handle(2, StorageOp::GetRollInfo), Handled::Reply(StorageReply::RollInfo(false), None)));
    assert!(matches!(actor.handle(1, StorageOp::GetRollInfo), Handled::Load));
}

fn broken_row(id: u64) -> StoredRow {
    StoredRow {
        id: id.to_string(),
        command_prefix: "rrb!".to_string(),
        roll_prefix: "not json".to_string(),
        aliases: "{}".to_string(),
        roll_info: false,
    }
}

#[test]
fn repairs_wait_for_the_next_change() {
    let mut actor = StorageActor::new(4);
    assert!(matches!(actor.handle(20, StorageOp::GetRollPrefixes), Handled::Load));
    assert!(actor.is_loading(20));
    let (replies, changes, evicted) = actor.loaded(20, entry_from_row(&broken_row(20)));
    assert_eq!(replies.len(), 1);
    assert!(changes.is_none());
    assert!(evicted.is_none());
    assert!(!actor.is_loading(20));
    match actor.handle(20, StorageOp::SetRollInfo(true)) {
        Handled::Reply(StorageReply::Done, Some(cs)) => {
            assert_eq!(cs.roll_info, Some(true));
            assert_eq!(cs.roll_prefix, Some("[]".to_string()));
            assert_eq!(cs.command_prefix, None);
        }
        _ => panic!("a change is written with the repaired field"),
    }
    assert!(matches!(actor.handle(20, StorageOp::SetRollInfo(false)), Handled::Reply(StorageReply::Done, Some(_))));
}

#[test]
fn evicting_a_dirty_entry_writes_it() {
    let mut actor = StorageActor::new(1);
    assert!(matches!(actor.handle(21, StorageOp::GetRollInfo), Handled::Load));
    let (_, changes, evicted) = actor.loaded(21, entry_from_row(&broken_row(21)));
    assert!(changes.is_none() && evicted.is_none());
    assert!(matches!(actor.handle(22, StorageOp::GetRollInfo), Handled::Load));
    let (_, _, evicted) = actor.loaded(22, entry_from_row(&StoredRow::new("22".to_string())));
    match evicted {
        Some((21, cs)) => assert_eq!(cs.roll_prefix, Some("[]".to_string())),
        _ => panic!("the dirty entry of 21 leaves with its write"),
    }
    assert!(matches!(actor.handle(22, StorageOp::GetRollInfo), Handled::Load) == false);
}
