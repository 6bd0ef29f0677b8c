//! Per-tenant configuration and the operations on it.

use vstd::prelude::*;
use crate::dice_types::{same_versioned, VersionedRollExpr};

verus! {

/// The default command prefix of a tenant.
pub open spec fn default_prefix() -> Seq<char> {
    seq!['r', 'r', 'b', '!']
}

/// The configuration of one tenant.
pub struct TenantConfig {
    pub command_prefix: String,
    /// Ordered, without duplicates.
    pub roll_prefixes: Vec<String>,
    /// Alias name and expression, in order of insertion, names unique.
    pub aliases: Vec<(String, VersionedRollExpr)>,
    pub roll_info: bool,
}

/// What a tenant configuration holds.
pub struct ConfigView {
    pub command_prefix: Seq<char>,
    pub roll_prefixes: Seq<Seq<char>>,
    pub aliases: Seq<(Seq<char>, VersionedRollExpr)>,
    pub roll_info: bool,
}

pub open spec fn strings_view(v: Seq<String>) -> Seq<Seq<char>> {
    v.map_values(|s: String| s@)
}

pub open spec fn aliases_view(v: Seq<(String, VersionedRollExpr)>) -> Seq<(Seq<char>, VersionedRollExpr)> {
    v.map_values(|a: (String, VersionedRollExpr)| (a.0@, a.1))
}

pub open spec fn no_duplicates(s: Seq<Seq<char>>) -> bool {
    forall|i: int, j: int| 0 <= i < s.len() && 0 <= j < s.len() && i != j ==> s[i] != s[j]
}

pub open spec fn unique_names(a: Seq<(Seq<char>, VersionedRollExpr)>) -> bool {
    forall|i: int, j: int| 0 <= i < a.len() && 0 <= j < a.len() && i != j ==> a[i].0 != a[j].0
}

pub open spec fn config_wf(c: ConfigView) -> bool {
    no_duplicates(c.roll_prefixes) && unique_names(c.aliases)
}

impl TenantConfig {
    pub open spec fn view(&self) -> ConfigView {
        ConfigView {
            command_prefix: self.command_prefix@,
            roll_prefixes: strings_view(self.roll_prefixes@),
            aliases: aliases_view(self.aliases@),
            roll_info: self.roll_info,
        }
    }

    pub open spec fn wf(&self) -> bool {
        config_wf(self.view())
    }
}

/// The configuration of a tenant seen for the first time.
pub open spec fn default_config() -> ConfigView {
    ConfigView {
        command_prefix: default_prefix(),
        roll_prefixes: Seq::empty(),
        aliases: Seq::empty(),
        roll_info: false,
    }
}

/// The expression stored under a name.
pub open spec fn alias_lookup(a: Seq<(Seq<char>, VersionedRollExpr)>, name: Seq<char>) -> Option<VersionedRollExpr> {
    if exists|i: int| 0 <= i < a.len() && a[i].0 == name {
        let i = choose|i: int| 0 <= i < a.len() && a[i].0 == name;
        Some(a[i].1)
    } else {
        None
    }
}

pub open spec fn alias_index(a: Seq<(Seq<char>, VersionedRollExpr)>, name: Seq<char>) -> int {
    choose|i: int| 0 <= i < a.len() && a[i].0 == name
}

pub open spec fn prefix_index(s: Seq<Seq<char>>, x: Seq<char>) -> int {
    choose|i: int| 0 <= i < s.len() && s[i] == x
}

/// The expressions stored under the given names, in the order of the names;
/// names without an alias are skipped.
pub open spec fn resolve_aliases(a: Seq<(Seq<char>, VersionedRollExpr)>, names: Seq<Seq<char>>) -> Seq<VersionedRollExpr>
    decreases names.len(),
{
    if names.len() == 0 {
        Seq::empty()
    } else {
        let prev = resolve_aliases(a, names.drop_last());
        match alias_lookup(a, names.last()) {
            Some(e) => prev.push(e),
            None => prev,
        }
    }
}

/// An operation on one tenant's configuration.
pub enum StorageOp {
    GetCommandPrefix,
    SetCommandPrefix(String),
    GetRollPrefixes,
    AddRollPrefix(String),
    RemoveRollPrefix(String),
    GetAllAliases,
    GetAlias(String),
    AddAlias(String, VersionedRollExpr),
    RemoveAlias(String),
    GetRollInfo,
    SetRollInfo(bool),
    /// Command prefix, roll prefixes, the aliases among the given names, and
    /// the verbosity flag, in one read.
    GetBundle(Vec<String>),
}

/// Everything one message needs to know about its tenant.
pub struct Bundle {
    pub command_prefix: String,
    pub roll_prefixes: Vec<String>,
    pub aliases: Vec<VersionedRollExpr>,
    pub roll_info: bool,
}

/// The answer to an operation.
pub enum StorageReply {
    CommandPrefix(String),
    Done,
    RollPrefixes(Vec<String>),
    /// `Err(())` when an added roll prefix or alias was already there, or a
    /// removed one was not.
    Outcome(Result<(), ()>),
    AllAliases(Vec<(String, VersionedRollExpr)>),
    Alias(Option<VersionedRollExpr>),
    RollInfo(bool),
    Bundle(Bundle),
}

/// What a reply holds.
pub enum ReplyView {
    CommandPrefix(Seq<char>),
    Done,
    RollPrefixes(Seq<Seq<char>>),
    Outcome(bool),
    AllAliases(Seq<(Seq<char>, VersionedRollExpr)>),
    Alias(Option<VersionedRollExpr>),
    RollInfo(bool),
    Bundle(Seq<char>, Seq<Seq<char>>, Seq<VersionedRollExpr>, bool),
}

impl StorageReply {
    pub open spec fn view(&self) -> ReplyView {
        match self {
            StorageReply::CommandPrefix(s) => ReplyView::CommandPrefix(s@),
            StorageReply::Done => ReplyView::Done,
            StorageReply::RollPrefixes(v) => ReplyView::RollPrefixes(strings_view(v@)),
            StorageReply::Outcome(r) => ReplyView::Outcome(r is Ok),
            StorageReply::AllAliases(v) => ReplyView::AllAliases(aliases_view(v@)),
            StorageReply::Alias(a) => ReplyView::Alias(*a),
            StorageReply::RollInfo(b) => ReplyView::RollInfo(*b),
            StorageReply::Bundle(b) => ReplyView::Bundle(
                b.command_prefix@,
                strings_view(b.roll_prefixes@),
                b.aliases@,
                b.roll_info,
            ),
        }
    }
}

/// Which fields of the configuration an operation changed.
pub struct Dirty {
    pub command_prefix: bool,
    pub roll_prefixes: bool,
    pub aliases: bool,
    pub roll_info: bool,
}

/// An operation's effect: the configuration after it, its reply, and the
/// field it changed, if any (0 command prefix, 1 roll prefixes, 2 aliases,
/// 3 verbosity).
pub open spec fn op_step(c: ConfigView, op: StorageOp) -> (ConfigView, ReplyView, Option<int>) {
    match op {
        StorageOp::GetCommandPrefix => (c, ReplyView::CommandPrefix(c.command_prefix), None),
        StorageOp::SetCommandPrefix(p) => (
            ConfigView { command_prefix: p@, ..c },
            ReplyView::Done,
            Some(0),
        ),
        StorageOp::GetRollPrefixes => (c, ReplyView::RollPrefixes(c.roll_prefixes), None),
        StorageOp::AddRollPrefix(p) => if c.roll_prefixes.contains(p@) {
            (c, ReplyView::Outcome(false), None)
        } else {
            (
                ConfigView { roll_prefixes: c.roll_prefixes.push(p@), ..c },
                ReplyView::Outcome(true),
                Some(1),
            )
        },
        StorageOp::RemoveRollPrefix(p) => if c.roll_prefixes.contains(p@) {
            (
                ConfigView {
                    roll_prefixes: c.roll_prefixes.remove(prefix_index(c.roll_prefixes, p@)),
                    ..c
                },
                ReplyView::Outcome(true),
                Some(1),
            )
        } else {
            (c, ReplyView::Outcome(false), None)
        },
        StorageOp::GetAllAliases => (c, ReplyView::AllAliases(c.aliases), None),
        StorageOp::GetAlias(n) => (c, ReplyView::Alias(alias_lookup(c.aliases, n@)), None),
        StorageOp::AddAlias(n, e) => match alias_lookup(c.aliases, n@) {
            Some(prev) => if same_versioned(prev, e) {
                (c, ReplyView::Outcome(false), None)
            } else {
                (
                    ConfigView {
                        aliases: c.aliases.update(alias_index(c.aliases, n@), (n@, e)),
                        ..c
                    },
                    ReplyView::Outcome(true),
                    Some(2),
                )
            },
            None => (
                ConfigView { aliases: c.aliases.push((n@, e)), ..c },
                ReplyView::Outcome(true),
                Some(2),
            ),
        },
        StorageOp::RemoveAlias(n) => match alias_lookup(c.aliases, n@) {
            Some(_) => (
                ConfigView { aliases: c.aliases.remove(alias_index(c.aliases, n@)), ..c },
                ReplyView::Outcome(true),
                Some(2),
            ),
            None => (c, ReplyView::Outcome(false), None),
        },
        StorageOp::GetRollInfo => (c, ReplyView::RollInfo(c.roll_info), None),
        StorageOp::SetRollInfo(b) => (ConfigView { roll_info: b, ..c }, ReplyView::Done, Some(3)),
        StorageOp::GetBundle(names) => (
            c,
            ReplyView::Bundle(
                c.command_prefix,
                c.roll_prefixes,
                resolve_aliases(c.aliases, strings_view(names@)),
                c.roll_info,
            ),
            None,
        ),
    }
}

} // verus!
