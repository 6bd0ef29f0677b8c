//! A cached tenant configuration with one dirty flag per field, and the
//! interpreter of storage operations on it.

use vstd::prelude::*;
use crate::config::{
    alias_index, alias_lookup, aliases_view, config_wf, op_step, prefix_index, resolve_aliases,
    strings_view, Bundle, ConfigView, Dirty, StorageOp, StorageReply, TenantConfig,
};
use crate::dice_types::VersionedRollExpr;

verus! {

/// A tenant configuration and the fields changed since it was last written.
pub struct CachedEntry {
    pub config: TenantConfig,
    pub dirty: Dirty,
}

/// `d` with the flag of `field` raised.
pub open spec fn mark(d: Dirty, field: Option<int>) -> Dirty {
    match field {
        Some(f) => if f == 0 {
            Dirty { command_prefix: true, ..d }
        } else if f == 1 {
            Dirty { roll_prefixes: true, ..d }
        } else if f == 2 {
            Dirty { aliases: true, ..d }
        } else {
            Dirty { roll_info: true, ..d }
        },
        None => d,
    }
}

pub open spec fn is_clean(d: Dirty) -> bool {
    !d.command_prefix && !d.roll_prefixes && !d.aliases && !d.roll_info
}

pub(crate) fn find_string(v: &Vec<String>, x: &String) -> (r: Option<usize>)
    ensures
        match r {
            Some(p) => p < v.len() && v[p as int]@ == x@,
            None => !strings_view(v@).contains(x@),
        },
{
    let mut i: usize = 0;
    while i < v.len()
        invariant
            i <= v.len(),
            forall|j: int| 0 <= j < i ==> v[j]@ != x@,
        decreases v.len() - i,
    {
        if v[i] == *x {
            return Some(i);
        }
        i = i + 1;
    }
    proof {
        if strings_view(v@).contains(x@) {
            let j = choose|j: int| 0 <= j < strings_view(v@).len() && strings_view(v@)[j] == x@;
            assert(v[j]@ == x@);
        }
    }
    None
}

fn find_alias(v: &Vec<(String, VersionedRollExpr)>, n: &String) -> (r: Option<usize>)
    ensures
        match r {
            Some(p) => p < v.len() && v[p as int].0@ == n@,
            None => forall|j: int| 0 <= j < v.len() ==> v[j].0@ != n@,
        },
{
    let mut i: usize = 0;
    while i < v.len()
        invariant
            i <= v.len(),
            forall|j: int| 0 <= j < i ==> v[j].0@ != n@,
        decreases v.len() - i,
    {
        if v[i].0 == *n {
            return Some(i);
        }
        i = i + 1;
    }
    None
}

proof fn lemma_lookup_at(a: Seq<(Seq<char>, VersionedRollExpr)>, n: Seq<char>, p: int)
    requires
        crate::config::unique_names(a),
        0 <= p < a.len(),
        a[p].0 == n,
    ensures
        alias_lookup(a, n) == Some(a[p].1),
        alias_index(a, n) == p,
{
}

proof fn lemma_lookup_none(a: Seq<(Seq<char>, VersionedRollExpr)>, n: Seq<char>)
    requires
        forall|j: int| 0 <= j < a.len() ==> a[j].0 != n,
    ensures
        alias_lookup(a, n) is None,
{
}

fn copy_strings(v: &Vec<String>) -> (r: Vec<String>)
    ensures
        r@ == v@,
{
    let mut out: Vec<String> = Vec::new();
    let mut i: usize = 0;
    while i < v.len()
        invariant
            i <= v.len(),
            out@ == v@.take(i as int),
        decreases v.len() - i,
    {
        out.push(v[i].clone());
        i = i + 1;
        assert(out@ =~= v@.take(i as int));
    }
    assert(v@.take(v.len() as int) =~= v@);
    out
}

fn copy_aliases(v: &Vec<(String, VersionedRollExpr)>) -> (r: Vec<(String, VersionedRollExpr)>)
    ensures
        r@ == v@,
{
    let mut out: Vec<(String, VersionedRollExpr)> = Vec::new();
    let mut i: usize = 0;
    while i < v.len()
        invariant
            i <= v.len(),
            out@ == v@.take(i as int),
        decreases v.len() - i,
    {
        out.push((v[i].0.clone(), v[i].1.copy()));
        i = i + 1;
        assert(out@ =~= v@.take(i as int));
    }
    assert(v@.take(v.len() as int) =~= v@);
    out
}

/// The expressions of the aliases named, in the order of the names.
fn resolve(aliases: &Vec<(String, VersionedRollExpr)>, names: &Vec<String>) -> (r: Vec<VersionedRollExpr>)
    requires
        crate::config::unique_names(aliases_view(aliases@)),
    ensures
        r@ == resolve_aliases(aliases_view(aliases@), strings_view(names@)),
{
    let ghost a = aliases_view(aliases@);
    let mut out: Vec<VersionedRollExpr> = Vec::new();
    let mut i: usize = 0;
    while i < names.len()
        invariant
            i <= names.len(),
            a == aliases_view(aliases@),
            crate::config::unique_names(a),
            out@ == resolve_aliases(a, strings_view(names@).take(i as int)),
        decreases names.len() - i,
    {
        assert(strings_view(names@).take(i + 1int).drop_last() =~= strings_view(names@).take(i as int));
        match find_alias(aliases, &names[i]) {
            Some(p) => {
                proof {
                    lemma_lookup_at(a, names[i as int]@, p as int);
                }
                out.push(aliases[p].1.copy());
            },
            None => {
                proof {
                    lemma_lookup_none(a, names[i as int]@);
                }
            },
        }
        i = i + 1;
    }
    assert(strings_view(names@).take(names.len() as int) =~= strings_view(names@));
    out
}

impl CachedEntry {
    pub open spec fn wf(&self) -> bool {
        self.config.wf()
    }

    /// Applies one operation: the configuration changes as `op_step` says,
    /// the reply is the one it gives, and the changed field is marked dirty;
    /// the flag tells whether a field changed.
    pub fn apply(&mut self, op: StorageOp) -> (r: (StorageReply, bool))
        requires
            old(self).wf(),
        ensures
            final(self).wf(),
            final(self).config.view() == op_step(old(self).config.view(), op).0,
            r.0.view() == op_step(old(self).config.view(), op).1,
            final(self).dirty == mark(old(self).dirty, op_step(old(self).config.view(), op).2),
            r.1 == op_step(old(self).config.view(), op).2 is Some,
    {
        let kind: u8 = match &op {
            StorageOp::SetCommandPrefix(_) | StorageOp::SetRollInfo(_) => 1,
            StorageOp::AddRollPrefix(_) | StorageOp::RemoveRollPrefix(_) | StorageOp::AddAlias(_, _)
            | StorageOp::RemoveAlias(_) => 2,
            _ => 0,
        };
        let reply = self.apply_op(op);
        let changed = if kind == 0 {
            false
        } else if kind == 1 {
            true
        } else {
            matches!(reply, StorageReply::Outcome(Ok(())))
        };
        (reply, changed)
    }

    fn apply_op(&mut self, op: StorageOp) -> (r: StorageReply)
        requires
            old(self).wf(),
        ensures
            final(self).wf(),
            final(self).config.view() == op_step(old(self).config.view(), op).0,
            r.view() == op_step(old(self).config.view(), op).1,
            final(self).dirty == mark(old(self).dirty, op_step(old(self).config.view(), op).2),
    {
        let ghost c = self.config.view();
        match op {
            StorageOp::GetCommandPrefix => StorageReply::CommandPrefix(self.config.command_prefix.clone()),
            StorageOp::SetCommandPrefix(p) => {
                self.config.command_prefix = p;
                self.dirty.command_prefix = true;
                StorageReply::Done
            },
            StorageOp::GetRollPrefixes => StorageReply::RollPrefixes(copy_strings(&self.config.roll_prefixes)),
            StorageOp::AddRollPrefix(p) => {
                match find_string(&self.config.roll_prefixes, &p) {
                    Some(i) => {
                        assert(c.roll_prefixes[i as int] == p@);
                        StorageReply::Outcome(Err(()))
                    },
                    None => {
                        let ghost pv = p@;
                        self.config.roll_prefixes.push(p);
                        self.dirty.roll_prefixes = true;
                        assert(strings_view(self.config.roll_prefixes@) =~= c.roll_prefixes.push(pv));
                        StorageReply::Outcome(Ok(()))
                    },
                }
            },
            StorageOp::RemoveRollPrefix(p) => {
                match find_string(&self.config.roll_prefixes, &p) {
                    Some(i) => {
                        assert(c.roll_prefixes[i as int] == p@);
                        assert(prefix_index(c.roll_prefixes, p@) == i);
                        self.config.roll_prefixes.remove(i);
                        self.dirty.roll_prefixes = true;
                        assert(strings_view(self.config.roll_prefixes@) =~= c.roll_prefixes.remove(i as int));
                        StorageReply::Outcome(Ok(()))
                    },
                    None => StorageReply::Outcome(Err(())),
                }
            },
            StorageOp::GetAllAliases => StorageReply::AllAliases(copy_aliases(&self.config.aliases)),
            StorageOp::GetAlias(n) => {
                match find_alias(&self.config.aliases, &n) {
                    Some(i) => {
                        proof {
                            lemma_lookup_at(c.aliases, n@, i as int);
                        }
                        StorageReply::Alias(Some(self.config.aliases[i].1.copy()))
                    },
                    None => {
                        proof {
                            lemma_lookup_none(c.aliases, n@);
                        }
                        StorageReply::Alias(None)
                    },
                }
            },
            StorageOp::AddAlias(n, e) => {
                match find_alias(&self.config.aliases, &n) {
                    Some(i) => {
                        proof {
                            lemma_lookup_at(c.aliases, n@, i as int);
                        }
                        if self.config.aliases[i].1.same_as(&e) {
                            StorageReply::Outcome(Err(()))
                        } else {
                            let ghost entry = (n@, e);
                            self.config.aliases.set(i, (n, e));
                            self.dirty.aliases = true;
                            assert(aliases_view(self.config.aliases@) =~= c.aliases.update(i as int, entry));
                            StorageReply::Outcome(Ok(()))
                        }
                    },
                    None => {
                        proof {
                            lemma_lookup_none(c.aliases, n@);
                        }
                        let ghost entry = (n@, e);
                        self.config.aliases.push((n, e));
                        self.dirty.aliases = true;
                        assert(aliases_view(self.config.aliases@) =~= c.aliases.push(entry));
                        StorageReply::Outcome(Ok(()))
                    },
                }
            },
            StorageOp::RemoveAlias(n) => {
                match find_alias(&self.config.aliases, &n) {
                    Some(i) => {
                        proof {
                            lemma_lookup_at(c.aliases, n@, i as int);
                        }
                        self.config.aliases.remove(i);
                        self.dirty.aliases = true;
                        assert(aliases_view(self.config.aliases@) =~= c.aliases.remove(i as int));
                        StorageReply::Outcome(Ok(()))
                    },
                    None => {
                        proof {
                            lemma_lookup_none(c.aliases, n@);
                        }
                        StorageReply::Outcome(Err(()))
                    },
                }
            },
            StorageOp::GetRollInfo => StorageReply::RollInfo(self.config.roll_info),
            StorageOp::SetRollInfo(b) => {
                self.config.roll_info = b;
                self.dirty.roll_info = true;
                StorageReply::Done
            },
            StorageOp::GetBundle(names) => {
                let aliases = resolve(&self.config.aliases, &names);
                StorageReply::Bundle(
                    Bundle {
                        command_prefix: self.config.command_prefix.clone(),
                        roll_prefixes: copy_strings(&self.config.roll_prefixes),
                        aliases,
                        roll_info: self.config.roll_info,
                    },
                )
            },
        }
    }
}

} // verus!
