use rollbot::commands::{alias_candidates, parse, Command};
use rollbot::config::{Bundle, StorageOp, StorageReply};
use rollbot::dice_types::{Dice, DiceType, Filter, FilteredDice, VersionedRollExpr};
use rollbot::dispatch::{after_permission, complete, plan, roll_expression, CommandResult, Plan};
use rollbot::evaluate::EvaluationErrors;
use rollbot::roller::{ReplayRolls, SeededRolls};
use rollbot::storage::{entry_from_row, Handled, StorageActor, StoredRow};
use std::sync::atomic::{AtomicBool, Ordering};
use std::sync::Arc;
use std::time::{Duration, Instant};


/// Runs one storage operation, loading the tenant's row on first sight.
fn store(actor: &mut StorageActor, id: u64, op: StorageOp) -> StorageReply {
    match actor.handle(id, op) {
        Handled::Reply(r, _) => r,
        Handled::Load => {
            let entry = entry_from_row(&StoredRow::new(format!("{{\"client_id\":{}}}", id)));
            let (mut replies, _, _) = actor.loaded(id, entry);
            assert_eq!(replies.len(), 1);
            replies.remove(0)
        }
        Handled::Queued => panic!("no load is under way"),
    }
}

/// Parses a message with its tenant's bundle, and runs the command with the
/// permission granted; rolls draw from `source`.
fn message(
    actor: &mut StorageActor,
    id: u64,
    text: &str,
    source: &mut ReplayRolls,
) -> Option<CommandResult> {
    let bundle = match store(actor, id, StorageOp::GetBundle(alias_candidates(text))) {
        StorageReply::Bundle(b) => b,
        _ => panic!("a bundle read answers with a bundle"),
    };
    let (command, prefix, verbose) = parse(text, bundle)?;
    Some(match plan(command, prefix, verbose) {
        Plan::Reply(r) => r,
        Plan::Store { op, then, .. } => {
            let (op, then) = match after_permission(true, op, then) {
                Ok(x) => x,
                Err(r) => return Some(r),
            };
            complete(then, store(actor, id, op))
        }
        Plan::Roll(exprs, verbose) => CommandResult::Roll(
            exprs.iter().map(|e| roll_expression(e, source)).collect(),
            verbose,
        ),
    })
}

#[test]
fn default_help() {
    let mut actor = StorageActor::new(8);
    let mut src = ReplayRolls::new(vec![]);
    assert_eq!(
        message(&mut actor, 1, "rrb!", &mut src),
        Some(CommandResult::Help("rrb!".to_string()))
    );
}

#[test]
fn prefix_change() {
    let mut actor = StorageActor::new(8);
    let mut src = ReplayRolls::new(vec![]);
    assert_eq!(
        message(&mut actor, 2, "rrb!cp set !!", &mut src),
        Some(CommandResult::SetCommandPrefix("!!".to_string()))
    );
    assert_eq!(
        message(&mut actor, 2, "!!h", &mut src),
        Some(CommandResult::Help("!!".to_string()))
    );
    assert_eq!(
        message(&mut actor, 2, "rrb!h", &mut src),
        None
    );
}

#[test]
fn simple_roll() {
    let mut actor = StorageActor::new(8);
    let mut src = ReplayRolls::new(vec![4, 2, 6]);
    match message(&mut actor, 3, "rrb!r 3d6", &mut src) {
        Some(CommandResult::Roll(results, verbose)) => {
            assert!(!verbose);
            assert_eq!(results.len(), 1);
            assert_eq!(results[0].roll, Ok(vec![(12, vec![4, 2, 6])]));
            assert_eq!(results[0].text, "3d6");
            assert_eq!(results[0].label, None);
        }
        other => panic!("expected a roll, got {:?}", other),
    }
}

#[test]
fn filter_quirk() {
    let mut actor = StorageActor::new(8);
    let mut src = ReplayRolls::new(vec![2, 3, 3, 5]);
    match message(&mut actor, 4, "rrb!r 4d6>=3", &mut src) {
        Some(CommandResult::Roll(results, _)) => {
            assert_eq!(results[0].roll, Ok(vec![(5, vec![2, 3, 3, 5])]));
        }
        other => panic!("expected a roll, got {:?}", other),
    }
    let fd = FilteredDice::Filtered(Dice { throws: 4, dice: DiceType::Number(6) }, Filter::BiggerEq, 3);
    let mut src = ReplayRolls::new(vec![2, 3, 3, 5]);
    assert_eq!(fd.evaluate(&mut src), Ok((vec![5], vec![2, 3, 3, 5])));
}

#[test]
fn alias_round_trip() {
    let mut actor = StorageActor::new(8);
    let mut src = ReplayRolls::new(vec![]);
    assert_eq!(
        message(&mut actor, 5, "rrb!a add stats 6{4d6k3}", &mut src),
        Some(CommandResult::AddAlias(Ok(())))
    );
    let rolls: Vec<i64> = (0..24).map(|i| (i % 6) + 1).collect();
    let mut src = ReplayRolls::new(rolls.clone());
    match message(&mut actor, 5, "$stats", &mut src) {
        Some(CommandResult::Roll(results, _)) => {
            assert_eq!(results.len(), 1);
            assert_eq!(results[0].text, "6{4d6h3}");
            let outcome = results[0].roll.as_ref().unwrap();
            assert_eq!(outcome.len(), 6);
            for (i, (total, dice)) in outcome.iter().enumerate() {
                let mut four: Vec<i64> = rolls[4 * i..4 * i + 4].to_vec();
                assert_eq!(dice, &four);
                four.sort();
                assert_eq!(*total, four[1] + four[2] + four[3]);
            }
        }
        other => panic!("expected an alias roll, got {:?}", other),
    }
}

#[test]
fn overflow() {
    let mut actor = StorageActor::new(8);
    let mut src = ReplayRolls::new(vec![]);
    match message(&mut actor, 6, "rrb!r 9223372036854775807+1", &mut src) {
        Some(CommandResult::Roll(results, _)) => {
            assert_eq!(results[0].roll, Err(EvaluationErrors::Overflow));
        }
        other => panic!("expected a roll, got {:?}", other),
    }
}

#[test]
fn timeout() {
    let expr = match rollbot::parser::parse_labeled("1000000d1000000") {
        Ok((_, e)) => VersionedRollExpr::V2(e),
        Err(_) => panic!("the expression parses"),
    };
    let runtime = tokio::runtime::Runtime::new().unwrap();
    let stop = Arc::new(AtomicBool::new(false));
    let timer = stop.clone();
    let start = Instant::now();
    runtime.spawn(async move {
        tokio::time::sleep(Duration::from_millis(10)).await;
        timer.store(true, Ordering::Relaxed);
    });
    let mut src = SeededRolls::new([7; 32], stop);
    let mut result = roll_expression(&expr, &mut src);
    while result.roll.is_ok() && start.elapsed() < Duration::from_millis(40) {
        result = roll_expression(&expr, &mut src);
    }
    assert_eq!(result.roll, Err(EvaluationErrors::Timeout));
    assert!(start.elapsed() < Duration::from_millis(50));
}

#[test]
fn insufficient_permission() {
    let mut actor = StorageActor::new(8);
    let bundle = match store(&mut actor, 9, StorageOp::GetBundle(alias_candidates("rrb!ri set true"))) {
        StorageReply::Bundle(b) => b,
        _ => panic!("bundle"),
    };
    let (command, prefix, verbose) = parse("rrb!ri set true", bundle).unwrap();
    assert_eq!(command, Command::SetRollInfo(true));
    match plan(command, prefix, verbose) {
        Plan::Store { op, needs_permission, then } => {
            assert!(needs_permission);
            assert!(matches!(
                after_permission(false, op, then),
                Err(CommandResult::InsufficentPermission)
            ));
        }
        _ => panic!("a change is stored"),
    }
}

#[test]
fn roll_prefix_and_verbose_flag() {
    let mut actor = StorageActor::new(8);
    let mut src = ReplayRolls::new(vec![1, 2, 3]);
    assert_eq!(
        message(&mut actor, 10, "rrb!rp add !r", &mut src),
        Some(CommandResult::AddRollPrefix(Ok(())))
    );
    assert_eq!(
        message(&mut actor, 10, "rrb!rp add !r", &mut src),
        Some(CommandResult::AddRollPrefix(Err(())))
    );
    assert_eq!(
        message(&mut actor, 10, "rrb!ri set t", &mut src),
        Some(CommandResult::SetRollInfo)
    );
    assert_eq!(
        message(&mut actor, 10, "rrb!ri get", &mut src),
        Some(CommandResult::GetRollInfo(true))
    );
    match message(&mut actor, 10, "!r 3d6# three dice", &mut src) {
        Some(CommandResult::Roll(results, verbose)) => {
            assert!(verbose);
            assert_eq!(results[0].roll, Ok(vec![(6, vec![1, 2, 3])]));
            assert_eq!(results[0].label, Some("three dice".to_string()));
        }
        other => panic!("expected a roll, got {:?}", other),
    }
    assert_eq!(
        message(&mut actor, 10, "rrb!rp list", &mut src),
        Some(CommandResult::ListRollPrefix(vec!["!r".to_string()]))
    );
    assert_eq!(
        message(&mut actor, 10, "rrb!rp remove !r", &mut src),
        Some(CommandResult::RemoveRollPrefix(Ok(())))
    );
    assert_eq!(
        message(&mut actor, 10, "rrb!rp remove !r", &mut src),
        Some(CommandResult::RemoveRollPrefix(Err(())))
    );
    assert_eq!(message(&mut actor, 10, "hello", &mut src), None);
}

#[test]
fn alias_listing_and_removal() {
    let mut actor = StorageActor::new(8);
    let mut src = ReplayRolls::new(vec![]);
    assert_eq!(
        message(&mut actor, 11, "rrb!a add atk 1d20+5", &mut src),
        Some(CommandResult::AddAlias(Ok(())))
    );
    assert_eq!(
        message(&mut actor, 11, "rrb!a add atk 1d20+5", &mut src),
        Some(CommandResult::AddAlias(Err(())))
    );
    assert_eq!(
        message(&mut actor, 11, "rrb!a list", &mut src),
        Some(CommandResult::ListAliases(vec![("atk".to_string(), "1d20 + 5".to_string())]))
    );
    assert_eq!(
        message(&mut actor, 11, "rrb!a remove atk", &mut src),
        Some(CommandResult::RemoveAlias(Ok(())))
    );
    assert_eq!(
        message(&mut actor, 11, "rrb!a remove atk", &mut src),
        Some(CommandResult::RemoveAlias(Err(())))
    );
}

#[test]
fn queued_ops_replay_like_cold_start() {
    let mut actor = StorageActor::new(8);
    assert!(matches!(actor.handle(12, StorageOp::SetCommandPrefix("x!".to_string())), Handled::Load));
    assert!(matches!(actor.handle(12, StorageOp::GetCommandPrefix), Handled::Queued));
    assert!(matches!(actor.handle(12, StorageOp::AddRollPrefix("?".to_string())), Handled::Queued));
    let entry = entry_from_row(&StoredRow::new("12".to_string()));
    let (replies, changes, _) = actor.loaded(12, entry);
    assert_eq!(replies.len(), 3);
    assert!(matches!(replies[0], StorageReply::Done));
    match &replies[1] {
        StorageReply::CommandPrefix(p) => assert_eq!(p, "x!"),
        _ => panic!("prefix"),
    }
    assert!(matches!(replies[2], StorageReply::Outcome(Ok(()))));
    let cs = changes.expect("the queue changed the configuration");
    assert_eq!(cs.command_prefix, Some("x!".to_string()));
    assert_eq!(cs.roll_prefix, Some("[\"?\"]".to_string()));
    assert_eq!(cs.aliases, None);
    match actor.handle(12, StorageOp::GetRollPrefixes) {
        Handled::Reply(StorageReply::RollPrefixes(v), None) => assert_eq!(v, vec!["?".to_string()]),
        _ => panic!("cached read"),
    }
}

#[test]
fn load_idempotence_and_defaults() {
    let row = StoredRow::new("13".to_string());
    let a = entry_from_row(&row);
    let b = entry_from_row(&row);
    assert_eq!(a.config.command_prefix, "rrb!");
    assert_eq!(a.config.command_prefix, b.config.command_prefix);
    assert!(a.config.roll_prefixes.is_empty() && b.config.roll_prefixes.is_empty());
    assert!(a.config.aliases.is_empty() && b.config.aliases.is_empty());
    assert!(!a.config.roll_info);
    assert!(!a.dirty.roll_prefixes && !a.dirty.aliases);
    let broken = StoredRow {
        id: "14".to_string(),
        command_prefix: "!".to_string(),
        roll_prefix: "not json".to_string(),
        aliases: "{\"a\":\"2s c1;\"}".to_string(),
        roll_info: true,
    };
    let c = entry_from_row(&broken);
    assert!(c.config.roll_prefixes.is_empty());
    assert!(c.dirty.roll_prefixes);
    assert_eq!(c.config.aliases.len(), 0);
    assert!(c.dirty.aliases);
    assert!(c.config.roll_info);
}

#[test]
fn bundle_sees_every_write() {
    let mut actor = StorageActor::new(1);
    let mut src = ReplayRolls::new(vec![]);
    message(&mut actor, 15, "rrb!a add d 2d4", &mut src);
    message(&mut actor, 15, "rrb!cp set ?", &mut src);
    match store(&mut actor, 15, StorageOp::GetBundle(vec!["d".to_string(), "e".to_string()])) {
        StorageReply::Bundle(Bundle { command_prefix, roll_prefixes, aliases, roll_info }) => {
            assert_eq!(command_prefix, "?");
            assert!(roll_prefixes.is_empty());
            assert_eq!(aliases.len(), 1);
            assert_eq!(aliases[0].to_string(), "2d4");
            assert!(!roll_info);
        }
        _ => panic!("bundle"),
    }
}
