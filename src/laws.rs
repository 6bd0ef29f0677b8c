//! Properties that relate several operations of the library.

use vstd::prelude::*;
use crate::config::{aliases_view, op_step, resolve_aliases, strings_view, ConfigView, Dirty, ReplyView, StorageOp, StorageReply};
use crate::dice_types::{filtered_dice, VersionedRollExpr, Expression, FilteredDice, SelectedDice, Selector};
use crate::entry::CachedEntry;
use crate::evaluate::{
    expression_eval, filtered_eval, is_timeout, kept, lemma_roll_values_used, matches_outcome,
    results_view, selected_eval, EvaluationErrors,
};
use crate::storage::{all_decode, decodes_aliases, json_string_map, loads_from, run_ops, StoredRow};
use crate::codec::{dec_versioned, versioned_parts};

verus! {

/// Evaluations of one expression that draw the same values have the same
/// outcome. Generators seeded alike draw alike, so rolls with the same seed
/// agree.
pub proof fn law_evaluation_deterministic(
    e: Expression,
    r1: Result<Vec<(i64, Vec<i64>)>, EvaluationErrors>,
    r2: Result<Vec<(i64, Vec<i64>)>, EvaluationErrors>,
    drawn1: Seq<i64>,
    drawn2: Seq<i64>,
)
    requires
        !is_timeout(r1),
        !is_timeout(r2),
        matches_outcome(r1, |v: Vec<(i64, Vec<i64>)>| results_view(v), expression_eval(e, drawn1), drawn1),
        matches_outcome(r2, |v: Vec<(i64, Vec<i64>)>| results_view(v), expression_eval(e, drawn2), drawn2),
        drawn1 == drawn2,
    ensures
        r1 is Ok <==> r2 is Ok,
        r1 is Ok ==> results_view(r1->Ok_0) == results_view(r2->Ok_0),
        r1 is Err ==> r1->Err_0 == r2->Err_0,
{
}

proof fn lemma_kept_len(f: crate::dice_types::Filter, target: u32, s: Seq<i64>)
    ensures
        kept(f, target, s).len() <= s.len(),
    decreases s.len(),
{
    if s.len() > 0 {
        lemma_kept_len(f, target, s.drop_last());
    }
}

/// Selecting `k` dice out of no more than `k` keeps every die: the outcome
/// is that of the unselected dice.
pub proof fn law_selection_of_few(fd: FilteredDice, sel: Selector, k: u32, draws: Seq<i64>)
    requires
        filtered_dice(fd).throws <= k,
    ensures
        selected_eval(SelectedDice::Selected(fd, sel, k), draws) == selected_eval(SelectedDice::Unchanged(fd), draws),
{
    let d = filtered_dice(fd);
    lemma_roll_values_used(d.dice, d.throws as nat, draws);
    match filtered_eval(fd, draws).0 {
        Ok((kept_rolls, all)) => {
            match fd {
                FilteredDice::Filtered(_, f, t) => lemma_kept_len(f, t, all),
                _ => {},
            }
        },
        Err(_) => {},
    }
}

/// After any operations on a tenant, a bundle read sees all of them: the
/// configuration they produced.
pub proof fn law_write_through(c: ConfigView, d: Dirty, ops: Seq<StorageOp>, names: Vec<String>)
    ensures
        ({
            let after = run_ops(c, d, ops).0;
            run_ops(c, d, ops.push(StorageOp::GetBundle(names))).2.last() == ReplyView::Bundle(
                after.command_prefix,
                after.roll_prefixes,
                resolve_aliases(after.aliases, strings_view(names@)),
                after.roll_info,
            )
        }),
        run_ops(c, d, ops.push(StorageOp::GetBundle(names))).0 == run_ops(c, d, ops).0,
{
    assert(ops.push(StorageOp::GetBundle(names)).drop_last() =~= ops);
}

/// Operations queued during a load and replayed, followed by operations on
/// the cached entry, answer exactly as the whole sequence applied in order
/// from the loaded configuration.
pub proof fn law_coalescing(c: ConfigView, d: Dirty, queued: Seq<StorageOp>, later: Seq<StorageOp>)
    ensures
        ({
            let (cq, dq, rq) = run_ops(c, d, queued);
            let (cl, dl, rl) = run_ops(cq, dq, later);
            run_ops(c, d, queued + later) == (cl, dl, rq + rl)
        }),
    decreases later.len(),
{
    if later.len() == 0 {
        assert(queued + later =~= queued);
        assert(run_ops(c, d, queued).2 + Seq::<ReplyView>::empty() =~= run_ops(c, d, queued).2);
    } else {
        law_coalescing(c, d, queued, later.drop_last());
        assert((queued + later).drop_last() =~= queued + later.drop_last());
        assert((queued + later).last() == later.last());
        let (cq, dq, rq) = run_ops(c, d, queued);
        let rl = run_ops(cq, dq, later.drop_last()).2;
        let step = op_step(run_ops(cq, dq, later.drop_last()).0, later.last()).1;
        assert(rq + rl.push(step) =~= (rq + rl).push(step));
    }
}

/// An alias's name, with the version, expression and label it holds.
pub open spec fn alias_parts(a: (Seq<char>, VersionedRollExpr)) -> (Seq<char>, (int, Expression, Seq<char>)) {
    (a.0, versioned_parts(a.1))
}

/// Two readings of the same stored aliases agree on names and contents.
pub proof fn lemma_decodes_unique(
    o1: Seq<(Seq<char>, VersionedRollExpr)>,
    o2: Seq<(Seq<char>, VersionedRollExpr)>,
    pairs: Seq<(Seq<char>, Seq<char>)>,
)
    requires
        decodes_aliases(o1, pairs),
        decodes_aliases(o2, pairs),
    ensures
        o1.map_values(|a| alias_parts(a)) == o2.map_values(|a| alias_parts(a)),
    decreases pairs.len(),
{
    if pairs.len() > 0 {
        match dec_versioned(pairs.last().1) {
            Some(_) => {
                lemma_decodes_unique(o1.drop_last(), o2.drop_last(), pairs.drop_last());
                assert(o1.map_values(|a| alias_parts(a)) =~= o1.drop_last().map_values(|a| alias_parts(a)).push(alias_parts(o1.last())));
                assert(o2.map_values(|a| alias_parts(a)) =~= o2.drop_last().map_values(|a| alias_parts(a)).push(alias_parts(o2.last())));
            },
            None => lemma_decodes_unique(o1, o2, pairs.drop_last()),
        }
    } else {
        assert(o1.map_values(|a| alias_parts(a)) =~= o2.map_values(|a| alias_parts(a)));
    }
}

/// Loading the same row twice gives the same configuration.
pub proof fn law_load_idempotent(row: StoredRow, e1: CachedEntry, e2: CachedEntry)
    requires
        loads_from(e1, row),
        loads_from(e2, row),
    ensures
        e1.config.command_prefix@ == e2.config.command_prefix@,
        strings_view(e1.config.roll_prefixes@) == strings_view(e2.config.roll_prefixes@),
        e1.config.roll_info == e2.config.roll_info,
        e1.dirty == e2.dirty,
        aliases_view(e1.config.aliases@).map_values(|a| alias_parts(a)) == aliases_view(e2.config.aliases@).map_values(|a| alias_parts(a)),
{
    match json_string_map(row.aliases@) {
        Some(m) => if !all_decode(m) {
            assert(aliases_view(e1.config.aliases@).map_values(|a| alias_parts(a)) =~= aliases_view(e2.config.aliases@).map_values(|a| alias_parts(a)));
        } else {
            lemma_decodes_unique(aliases_view(e1.config.aliases@), aliases_view(e2.config.aliases@), m);
            assert(aliases_view(e1.config.aliases@).map_values(|a| alias_parts(a)).len() == e1.config.aliases@.len());
            assert(aliases_view(e2.config.aliases@).map_values(|a| alias_parts(a)).len() == e2.config.aliases@.len());
        },
        None => {
            assert(aliases_view(e1.config.aliases@).map_values(|a| alias_parts(a)) =~= aliases_view(e2.config.aliases@).map_values(|a| alias_parts(a)));
        },
    }
}

} // verus!
