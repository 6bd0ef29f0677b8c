//! What the service does with a parsed command: the storage operation it
//! needs (behind a permission check when it changes the configuration), the
//! rolls it makes, and the result it answers with.

use vstd::prelude::*;
use crate::commands::Command;
use crate::config::{aliases_view, strings_view, StorageOp, StorageReply};
use crate::dice_types::{
    expression_faces_valid, term_faces_valid, versioned_expression, versioned_text, DiceType,
    Expression, LabeledExpression, SelectedDice, FilteredDice, Term, VersionedRollExpr,
};
use crate::evaluate::{
    draws_allowed, expression_eval, expression_rolls_dice, expression_term, extends, draws_between, is_timeout, matches_outcome, results_view,
    EvaluationErrors, RollSource,
};

verus! {

/// One evaluated expression: its outcome, its rendering and its label.
#[derive(Debug, PartialEq, Eq)]
pub struct RollExprResult {
    pub roll: Result<Vec<(i64, Vec<i64>)>, EvaluationErrors>,
    pub text: String,
    pub label: Option<String>,
}

#[derive(Debug, PartialEq, Eq)]
pub enum CommandResult {
    Help(String),
    RollHelp,
    Info,
    SetCommandPrefix(String),
    GetCommandPrefix(String),
    AddRollPrefix(Result<(), ()>),
    RemoveRollPrefix(Result<(), ()>),
    ListRollPrefix(Vec<String>),
    AddAlias(Result<(), ()>),
    RemoveAlias(Result<(), ()>),
    ListAliases(Vec<(String, String)>),
    Roll(Vec<RollExprResult>, bool),
    GetRollInfo(bool),
    SetRollInfo,
    InsufficentPermission,
}

/// The storage answer a command waits for, and how it becomes a result.
pub enum Pending {
    SetCommandPrefix(String),
    AddRollPrefix,
    RemoveRollPrefix,
    ListRollPrefix,
    AddAlias,
    RemoveAlias,
    ListAliases,
    SetRollInfo,
}

/// The next thing to do for a command.
pub enum Plan {
    /// Answer at once.
    Reply(CommandResult),
    /// Run a storage operation, after a permission check when
    /// `needs_permission` holds, then `complete` with its reply.
    Store { op: StorageOp, needs_permission: bool, then: Pending },
    /// Roll each expression, then answer with the results and the flag.
    Roll(Vec<VersionedRollExpr>, bool),
}

/// Whether every die of the expression has a face.
pub fn expression_rollable(e: &Expression) -> (r: bool)
    ensures
        r == expression_faces_valid(*e),
{
    match e {
        Expression::Simple(t) => term_rollable(t),
        Expression::List(_, t) => term_rollable(t),
    }
}

fn term_rollable(t: &Term) -> (r: bool)
    ensures
        r == term_faces_valid(*t),
    decreases t,
{
    match t {
        Term::Constant(_) => true,
        Term::DiceThrow(d) => {
            let f = match d {
                SelectedDice::Unchanged(f) => f,
                SelectedDice::Selected(f, _, _) => f,
            };
            let dice = match f {
                FilteredDice::Simple(x) => x,
                FilteredDice::Filtered(x, _, _) => x,
            };
            match dice.dice {
                DiceType::Number(n) => n >= 1,
                DiceType::Fudge => true,
                DiceType::Multiply(n) => n >= 1,
            }
        },
        Term::Calculation(l, _, r) => term_rollable(l) && term_rollable(r),
        Term::SubTerm(s) => term_rollable(s),
    }
}

impl VersionedRollExpr {
    /// Whether the expression can be rolled: every die has a face.
    pub fn is_rollable(&self) -> (r: bool)
        ensures
            r == expression_faces_valid(versioned_expression(*self)),
    {
        match self {
            VersionedRollExpr::V1(e) => expression_rollable(e),
            VersionedRollExpr::V2(LabeledExpression::Unlabeled(e)) => expression_rollable(e),
            VersionedRollExpr::V2(LabeledExpression::Labeled(e, _)) => expression_rollable(e),
        }
    }
}

pub open spec fn label_of(e: VersionedRollExpr) -> Option<Seq<char>> {
    match e {
        VersionedRollExpr::V2(LabeledExpression::Labeled(_, l)) => Some(l@),
        _ => None,
    }
}

/// Rolls one expression: its evaluation against the source, its rendering,
/// and its label.
pub fn roll_expression<S: RollSource>(expr: &VersionedRollExpr, src: &mut S) -> (r: RollExprResult)
    requires
        expression_faces_valid(versioned_expression(*expr)),
    ensures
        r.text@ == versioned_text(*expr),
        match r.label {
            Some(l) => label_of(*expr) == Some(l@),
            None => label_of(*expr) is None,
        },
        extends(old(src).drawn(), final(src).drawn()),
        is_timeout(r.roll) ==> final(src).expired(),
        !is_timeout(r.roll) ==> matches_outcome(
            r.roll,
            |v: Vec<(i64, Vec<i64>)>| results_view(v),
            expression_eval(
                versioned_expression(*expr),
                draws_between(old(src).drawn(), final(src).drawn()),
            ),
            draws_between(old(src).drawn(), final(src).drawn()),
        ),
        !old(src).expired() ==> (is_timeout(r.roll) <==> final(src).expired()),
        !is_timeout(r.roll) ==> final(src).expired() == old(src).expired(),
        !expression_rolls_dice(versioned_expression(*expr)) ==> !is_timeout(r.roll) && final(src).drawn()
            == old(src).drawn() && final(src).checks() == old(src).checks(),
        draws_allowed(expression_term(versioned_expression(*expr)), draws_between(old(src).drawn(), final(src).drawn())),
{
    let text = expr.to_string();
    match expr {
        VersionedRollExpr::V1(e) => RollExprResult { roll: e.evaluate(src), text, label: None },
        VersionedRollExpr::V2(LabeledExpression::Unlabeled(e)) => RollExprResult {
            roll: e.evaluate(src),
            text,
            label: None,
        },
        VersionedRollExpr::V2(LabeledExpression::Labeled(e, l)) => RollExprResult {
            roll: e.evaluate(src),
            text,
            label: Some(l.clone()),
        },
    }
}

/// The plan for each command.
pub open spec fn planned(command: Command, prefix: Seq<char>, roll_info: bool, r: Plan) -> bool {
    match command {
        Command::Help => r matches Plan::Reply(CommandResult::Help(p)) && p@ == prefix,
        Command::RollHelp => r matches Plan::Reply(CommandResult::RollHelp),
        Command::Info => r matches Plan::Reply(CommandResult::Info),
        Command::GetCommandPrefix => r matches Plan::Reply(CommandResult::GetCommandPrefix(p)) && p@ == prefix,
        Command::GetRollInfo => r matches Plan::Reply(CommandResult::GetRollInfo(b)) && b == roll_info,
        Command::SetCommandPrefix(p) => r matches Plan::Store {
            op: StorageOp::SetCommandPrefix(q),
            needs_permission: true,
            then: Pending::SetCommandPrefix(t),
        } && q@ == p@ && t@ == p@,
        Command::AddRollPrefix(p) => r matches Plan::Store {
            op: StorageOp::AddRollPrefix(q),
            needs_permission: true,
            then: Pending::AddRollPrefix,
        } && q == p,
        Command::RemoveRollPrefix(p) => r matches Plan::Store {
            op: StorageOp::RemoveRollPrefix(q),
            needs_permission: true,
            then: Pending::RemoveRollPrefix,
        } && q == p,
        Command::AddAlias(n, e) => r matches Plan::Store {
            op: StorageOp::AddAlias(m, f),
            needs_permission: true,
            then: Pending::AddAlias,
        } && m == n && f == e,
        Command::RemoveAlias(n) => r matches Plan::Store {
            op: StorageOp::RemoveAlias(m),
            needs_permission: true,
            then: Pending::RemoveAlias,
        } && m == n,
        Command::SetRollInfo(b) => r matches Plan::Store {
            op: StorageOp::SetRollInfo(c),
            needs_permission: true,
            then: Pending::SetRollInfo,
        } && c == b,
        Command::ListRollPrefix => r matches Plan::Store {
            op: StorageOp::GetRollPrefixes,
            needs_permission: false,
            then: Pending::ListRollPrefix,
        },
        Command::ListAliases => r matches Plan::Store {
            op: StorageOp::GetAllAliases,
            needs_permission: false,
            then: Pending::ListAliases,
        },
        Command::Roll(e) => r matches Plan::Roll(v, b) && v@ == seq![e] && b == roll_info,
        Command::AliasRoll(es) => r matches Plan::Roll(v, b) && v@ == es@ && b == roll_info,
    }
}

/// The plan for a command: help, info and the two flags known from the
/// message's bundle are answered at once; lists are read from storage;
/// changes are written after a permission check; rolls are rolled.
pub fn plan(command: Command, prefix: String, roll_info: bool) -> (r: Plan)
    ensures
        planned(command, prefix@, roll_info, r),
{
    match command {
        Command::Help => Plan::Reply(CommandResult::Help(prefix)),
        Command::RollHelp => Plan::Reply(CommandResult::RollHelp),
        Command::Info => Plan::Reply(CommandResult::Info),
        Command::GetCommandPrefix => Plan::Reply(CommandResult::GetCommandPrefix(prefix)),
        Command::GetRollInfo => Plan::Reply(CommandResult::GetRollInfo(roll_info)),
        Command::SetCommandPrefix(p) => Plan::Store {
            op: StorageOp::SetCommandPrefix(p.clone()),
            needs_permission: true,
            then: Pending::SetCommandPrefix(p),
        },
        Command::AddRollPrefix(p) => Plan::Store {
            op: StorageOp::AddRollPrefix(p),
            needs_permission: true,
            then: Pending::AddRollPrefix,
        },
        Command::RemoveRollPrefix(p) => Plan::Store {
            op: StorageOp::RemoveRollPrefix(p),
            needs_permission: true,
            then: Pending::RemoveRollPrefix,
        },
        Command::AddAlias(n, e) => Plan::Store {
            op: StorageOp::AddAlias(n, e),
            needs_permission: true,
            then: Pending::AddAlias,
        },
        Command::RemoveAlias(n) => Plan::Store {
            op: StorageOp::RemoveAlias(n),
            needs_permission: true,
            then: Pending::RemoveAlias,
        },
        Command::SetRollInfo(b) => Plan::Store {
            op: StorageOp::SetRollInfo(b),
            needs_permission: true,
            then: Pending::SetRollInfo,
        },
        Command::ListRollPrefix => Plan::Store {
            op: StorageOp::GetRollPrefixes,
            needs_permission: false,
            then: Pending::ListRollPrefix,
        },
        Command::ListAliases => Plan::Store {
            op: StorageOp::GetAllAliases,
            needs_permission: false,
            then: Pending::ListAliases,
        },
        Command::Roll(e) => {
            let mut v: Vec<VersionedRollExpr> = Vec::new();
            v.push(e);
            Plan::Roll(v, roll_info)
        },
        Command::AliasRoll(es) => Plan::Roll(es, roll_info),
    }
}

/// Each name with its expression's text, in the same order.
pub open spec fn renders_aliases(w: Seq<(String, String)>, v: Seq<(String, VersionedRollExpr)>) -> bool {
    &&& w.len() == v.len()
    &&& forall|j: int| 0 <= j < v.len() ==> (#[trigger] w[j]).0@ == v[j].0@ && w[j].1@ == versioned_text(v[j].1)
}

fn render_aliases(v: Vec<(String, VersionedRollExpr)>) -> (r: Vec<(String, String)>)
    ensures
        renders_aliases(r@, v@),
{
    let mut out: Vec<(String, String)> = Vec::new();
    let mut i: usize = 0;
    while i < v.len()
        invariant
            i <= v.len(),
            out.len() == i,
            forall|j: int| 0 <= j < i ==> (#[trigger] out@[j]).0@ == v@[j].0@ && out@[j].1@ == versioned_text(v@[j].1),
        decreases v.len() - i,
    {
        let name = v[i].0.clone();
        let text = v[i].1.to_string();
        out.push((name, text));
        i = i + 1;
    }
    out
}

/// The result for each pending command and reply.
pub open spec fn completed(then: Pending, reply: StorageReply, r: CommandResult) -> bool {
    match (then, reply) {
        (Pending::SetCommandPrefix(p), _) => r matches CommandResult::SetCommandPrefix(q) && q@ == p@,
        (Pending::SetRollInfo, _) => r is SetRollInfo,
        (Pending::AddRollPrefix, StorageReply::Outcome(o)) => r == CommandResult::AddRollPrefix(o),
        (Pending::RemoveRollPrefix, StorageReply::Outcome(o)) => r == CommandResult::RemoveRollPrefix(o),
        (Pending::AddAlias, StorageReply::Outcome(o)) => r == CommandResult::AddAlias(o),
        (Pending::RemoveAlias, StorageReply::Outcome(o)) => r == CommandResult::RemoveAlias(o),
        (Pending::ListRollPrefix, StorageReply::RollPrefixes(v)) => r matches CommandResult::ListRollPrefix(w) && w@ == v@,
        (Pending::ListAliases, StorageReply::AllAliases(v)) => r matches CommandResult::ListAliases(w)
            && renders_aliases(w@, v@),
        (Pending::AddRollPrefix, _) => r == CommandResult::AddRollPrefix(Err(())),
        (Pending::RemoveRollPrefix, _) => r == CommandResult::RemoveRollPrefix(Err(())),
        (Pending::AddAlias, _) => r == CommandResult::AddAlias(Err(())),
        (Pending::RemoveAlias, _) => r == CommandResult::RemoveAlias(Err(())),
        (Pending::ListRollPrefix, _) => r matches CommandResult::ListRollPrefix(w) && w@.len() == 0,
        (Pending::ListAliases, _) => r matches CommandResult::ListAliases(w) && w@.len() == 0,
    }
}

/// The result of a command once storage has answered. A reply of another
/// shape than the operation gives is answered with help for the prefix.
pub fn complete(then: Pending, reply: StorageReply) -> (r: CommandResult)
    ensures
        completed(then, reply, r),
{
    match (then, reply) {
        (Pending::SetCommandPrefix(p), _) => CommandResult::SetCommandPrefix(p),
        (Pending::SetRollInfo, _) => CommandResult::SetRollInfo,
        (Pending::AddRollPrefix, StorageReply::Outcome(o)) => CommandResult::AddRollPrefix(o),
        (Pending::RemoveRollPrefix, StorageReply::Outcome(o)) => CommandResult::RemoveRollPrefix(o),
        (Pending::AddAlias, StorageReply::Outcome(o)) => CommandResult::AddAlias(o),
        (Pending::RemoveAlias, StorageReply::Outcome(o)) => CommandResult::RemoveAlias(o),
        (Pending::ListRollPrefix, StorageReply::RollPrefixes(v)) => CommandResult::ListRollPrefix(v),
        (Pending::ListAliases, StorageReply::AllAliases(v)) => CommandResult::ListAliases(render_aliases(v)),
        (Pending::AddRollPrefix, _) => CommandResult::AddRollPrefix(Err(())),
        (Pending::RemoveRollPrefix, _) => CommandResult::RemoveRollPrefix(Err(())),
        (Pending::AddAlias, _) => CommandResult::AddAlias(Err(())),
        (Pending::RemoveAlias, _) => CommandResult::RemoveAlias(Err(())),
        (Pending::ListRollPrefix, _) => CommandResult::ListRollPrefix(Vec::new()),
        (Pending::ListAliases, _) => CommandResult::ListAliases(Vec::new()),
    }
}

/// The answer to a permission check for a planned change.
pub fn after_permission(granted: bool, op: StorageOp, then: Pending) -> (r: Result<(StorageOp, Pending), CommandResult>)
    ensures
        granted ==> r == Ok::<(StorageOp, Pending), CommandResult>((op, then)),
        !granted ==> r == Err::<(StorageOp, Pending), CommandResult>(CommandResult::InsufficentPermission),
{
    if granted {
        Ok((op, then))
    } else {
        Err(CommandResult::InsufficentPermission)
    }
}

} // verus!
