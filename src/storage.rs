//! The per-tenant storage actor: a cache of tenant configurations, a queue
//! of operations that arrive while a tenant's row is being loaded, and the
//! conversion between stored rows and cached entries.
//!
//! The actor makes decisions only: the caller performs the loads and writes
//! it asks for, and hands loaded rows back.

use vstd::prelude::*;
use std::collections::{BTreeMap, HashMap};
use cached::{Cached, SizedCache};
use crate::codec::{deserialize, dec_versioned, serialize, versioned_code, versioned_parts};
use crate::config::{
    aliases_view, config_wf, default_config, op_step, strings_view, unique_names, no_duplicates,
    ConfigView, Dirty, ReplyView, StorageOp, StorageReply, TenantConfig,
};
use crate::dice_types::VersionedRollExpr;
use crate::entry::{find_string, is_clean, mark, CachedEntry};

verus! {

broadcast use vstd::std_specs::hash::group_hash_axioms;

/// A row of the `client_config` table.
pub struct StoredRow {
    pub id: String,
    pub command_prefix: String,
    /// JSON array of strings.
    pub roll_prefix: String,
    /// JSON object from alias name to serialized expression.
    pub aliases: String,
    pub roll_info: bool,
}

/// The fields of a row to update; `None` leaves a field as it is.
pub struct Changeset {
    pub command_prefix: Option<String>,
    pub roll_prefix: Option<String>,
    pub aliases: Option<String>,
    pub roll_info: Option<bool>,
}

impl StoredRow {
    /// The row inserted for a tenant seen for the first time.
    pub fn new(id: String) -> (r: StoredRow)
        ensures
            r.id == id,
            r.command_prefix@ == crate::config::default_prefix(),
            empty_json_array(r.roll_prefix@),
            empty_json_object(r.aliases@),
            !r.roll_info,
    {
        let mut p: Vec<char> = Vec::new();
        p.push('r');
        p.push('r');
        p.push('b');
        p.push('!');
        let mut a: Vec<char> = Vec::new();
        a.push('[');
        a.push(']');
        let mut m: Vec<char> = Vec::new();
        m.push('{');
        m.push('}');
        proof {
            assert(p@ =~= crate::config::default_prefix());
            assert(a@ =~= seq!['[', ']']);
            assert(m@ =~= seq!['{', '}']);
        }
        StoredRow {
            id,
            command_prefix: crate::text::string_of(&p),
            roll_prefix: crate::text::string_of(&a),
            aliases: crate::text::string_of(&m),
            roll_info: false,
        }
    }
}

/// The strings of a JSON array of strings; `None` for any other text.
pub uninterp spec fn json_strings(s: Seq<char>) -> Option<Seq<Seq<char>>>;

/// The JSON array of the strings.
pub uninterp spec fn json_of_strings(v: Seq<Seq<char>>) -> Seq<char>;

/// The members of a JSON object of strings, ordered by name; `None` for any
/// other text.
pub uninterp spec fn json_string_map(s: Seq<char>) -> Option<Seq<(Seq<char>, Seq<char>)>>;

/// The JSON object of the pairs.
pub uninterp spec fn json_of_string_map(v: Seq<(Seq<char>, Seq<char>)>) -> Seq<char>;

pub open spec fn empty_json_array(s: Seq<char>) -> bool {
    s == seq!['[', ']']
}

pub open spec fn empty_json_object(s: Seq<char>) -> bool {
    s == seq!['{', '}']
}

pub open spec fn distinct_names(v: Seq<(String, String)>) -> bool {
    forall|i: int, j: int| 0 <= i < v.len() && 0 <= j < v.len() && i != j ==> v[i].0@ != v[j].0@
}

pub open spec fn pairs_view(v: Seq<(String, String)>) -> Seq<(Seq<char>, Seq<char>)> {
    v.map_values(|p: (String, String)| (p.0@, p.1@))
}

/// Relies on serde_json's `from_str` into `Vec<String>`: the strings of a JSON
/// array of strings, an error for any other text; `[]` is the empty array.
#[verifier::external_body]
fn read_json_strings(s: &str) -> (r: Option<Vec<String>>)
    ensures
        r is Some == json_strings(s@) is Some,
        r is Some ==> json_strings(s@) == Some(strings_view(r->Some_0@)),
        empty_json_array(s@) ==> r is Some && r->Some_0@.len() == 0,
{
    serde_json::from_str::<Vec<String>>(s).ok()
}

/// Relies on serde_json's `to_string` of a `Vec<String>`, which cannot fail.
#[verifier::external_body]
fn write_json_strings(v: &Vec<String>) -> (r: String)
    ensures
        r@ == json_of_strings(strings_view(v@)),
{
    serde_json::to_string(v).unwrap_or_default()
}

/// Relies on serde_json's `from_str` into a `BTreeMap<String, String>`: the
/// members of a JSON object of strings, in the map's order of names, each name
/// once; an error for any other text; `{}` is the empty object.
#[verifier::external_body]
fn read_json_map(s: &str) -> (r: Option<Vec<(String, String)>>)
    ensures
        r is Some == json_string_map(s@) is Some,
        r is Some ==> json_string_map(s@) == Some(pairs_view(r->Some_0@)),
        r is Some ==> distinct_names(r->Some_0@),
        empty_json_object(s@) ==> r is Some && r->Some_0@.len() == 0,
{
    serde_json::from_str::<BTreeMap<String, String>>(s).ok().map(|m| m.into_iter().collect())
}

/// Relies on serde_json's `to_string` of a `BTreeMap<String, String>`, which
/// cannot fail.
#[verifier::external_body]
fn write_json_map(v: &Vec<(String, String)>) -> (r: String)
    ensures
        r@ == json_of_string_map(pairs_view(v@)),
{
    let m: BTreeMap<String, String> = v.iter().cloned().collect();
    serde_json::to_string(&m).unwrap_or_default()
}

/// The first occurrence of each string, in order.
pub open spec fn dedup(s: Seq<Seq<char>>) -> Seq<Seq<char>>
    decreases s.len(),
{
    if s.len() == 0 {
        s
    } else {
        let prev = dedup(s.drop_last());
        if prev.contains(s.last()) {
            prev
        } else {
            prev.push(s.last())
        }
    }
}

/// The aliases whose serialized expression reads back, in order, with their
/// version, expression and label.
pub open spec fn decodes_aliases(out: Seq<(Seq<char>, VersionedRollExpr)>, pairs: Seq<(Seq<char>, Seq<char>)>) -> bool
    decreases pairs.len(),
{
    if pairs.len() == 0 {
        out.len() == 0
    } else {
        match dec_versioned(pairs.last().1) {
            Some(parts) => out.len() > 0 && out.last().0 == pairs.last().0 && versioned_parts(
                out.last().1,
            ) == parts && decodes_aliases(out.drop_last(), pairs.drop_last()),
            None => decodes_aliases(out, pairs.drop_last()),
        }
    }
}

/// Every serialized expression reads back.
pub open spec fn all_decode(pairs: Seq<(Seq<char>, Seq<char>)>) -> bool {
    forall|i: int| 0 <= i < pairs.len() ==> dec_versioned(#[trigger] pairs[i].1) is Some
}

/// The aliases that read back are all of them exactly when every one does.
proof fn lemma_decodes_count(out: Seq<(Seq<char>, VersionedRollExpr)>, pairs: Seq<(Seq<char>, Seq<char>)>)
    requires
        decodes_aliases(out, pairs),
    ensures
        out.len() <= pairs.len(),
        out.len() == pairs.len() <==> all_decode(pairs),
    decreases pairs.len(),
{
    if pairs.len() > 0 {
        let rest = pairs.drop_last();
        match dec_versioned(pairs.last().1) {
            Some(_) => lemma_decodes_count(out.drop_last(), rest),
            None => {
                lemma_decodes_count(out, rest);
                assert(!all_decode(pairs)) by {
                    assert(dec_versioned(pairs[pairs.len() - 1].1) is None);
                }
            },
        }
        if all_decode(pairs) {
            assert forall|i: int| 0 <= i < rest.len() implies dec_versioned(#[trigger] rest[i].1) is Some by {
                assert(rest[i] == pairs[i]);
            }
            assert(dec_versioned(pairs[pairs.len() - 1].1) is Some);
        } else if dec_versioned(pairs.last().1) is Some {
            let i = choose|i: int| 0 <= i < pairs.len() && !(dec_versioned(#[trigger] pairs[i].1) is Some);
            assert(i < rest.len());
            assert(rest[i] == pairs[i]);
        }
    } else {
        assert(all_decode(pairs));
    }
}

/// How a row loads: roll prefixes without repeats; the aliases when every
/// one of them reads back, none otherwise. A field that does not read back
/// whole is marked dirty.
pub open spec fn loads_from(e: CachedEntry, row: StoredRow) -> bool {
    &&& e.config.command_prefix@ == row.command_prefix@
    &&& e.config.roll_info == row.roll_info
    &&& match json_strings(row.roll_prefix@) {
        Some(v) => strings_view(e.config.roll_prefixes@) == dedup(v) && e.dirty.roll_prefixes == (
        dedup(v).len() != v.len()),
        None => e.config.roll_prefixes@.len() == 0 && e.dirty.roll_prefixes,
    }
    &&& match json_string_map(row.aliases@) {
        Some(m) => if all_decode(m) {
            decodes_aliases(aliases_view(e.config.aliases@), m) && !e.dirty.aliases
        } else {
            e.config.aliases@.len() == 0 && e.dirty.aliases
        },
        None => e.config.aliases@.len() == 0 && e.dirty.aliases,
    }
    &&& !e.dirty.command_prefix
    &&& !e.dirty.roll_info
}

fn dedup_strings(v: &Vec<String>) -> (r: Vec<String>)
    ensures
        strings_view(r@) == dedup(strings_view(v@)),
        no_duplicates(strings_view(r@)),
{
    let mut out: Vec<String> = Vec::new();
    let mut i: usize = 0;
    while i < v.len()
        invariant
            i <= v.len(),
            strings_view(out@) == dedup(strings_view(v@).take(i as int)),
            no_duplicates(strings_view(out@)),
        decreases v.len() - i,
    {
        assert(strings_view(v@).take(i + 1int).drop_last() =~= strings_view(v@).take(i as int));
        assert(strings_view(v@).take(i + 1int).last() == v[i as int]@);
        match find_string(&out, &v[i]) {
            Some(p) => {
                assert(strings_view(out@)[p as int] == v[i as int]@);
            },
            None => {
                let ghost before = strings_view(out@);
                out.push(v[i].clone());
                assert(strings_view(out@) =~= before.push(v[i as int]@));
            },
        }
        i = i + 1;
    }
    assert(strings_view(v@).take(v.len() as int) =~= strings_view(v@));
    out
}

fn decode_aliases(pairs: &Vec<(String, String)>) -> (r: Vec<(String, VersionedRollExpr)>)
    requires
        distinct_names(pairs@),
    ensures
        decodes_aliases(aliases_view(r@), pairs_view(pairs@)),
        unique_names(aliases_view(r@)),
{
    let mut out: Vec<(String, VersionedRollExpr)> = Vec::new();
    let mut i: usize = 0;
    while i < pairs.len()
        invariant
            i <= pairs.len(),
            distinct_names(pairs@),
            decodes_aliases(aliases_view(out@), pairs_view(pairs@).take(i as int)),
            unique_names(aliases_view(out@)),
            forall|k: int| 0 <= k < out.len() ==> exists|j: int| 0 <= j < i && (#[trigger] out@[k]).0@ == pairs@[j].0@,
        decreases pairs.len() - i,
    {
        assert(pairs_view(pairs@).take(i + 1int).drop_last() =~= pairs_view(pairs@).take(i as int));
        assert(pairs_view(pairs@).take(i + 1int).last() == (pairs@[i as int].0@, pairs@[i as int].1@));
        match deserialize(pairs[i].1.as_str()) {
            Some(e) => {
                let ghost before = out@;
                out.push((pairs[i].0.clone(), e));
                assert(aliases_view(out@).drop_last() =~= aliases_view(before));
                assert forall|k: int| 0 <= k < out.len() implies exists|j: int| 0 <= j < i + 1 && (#[trigger] out@[k]).0@ == pairs@[j].0@ by {
                    if k < before.len() {
                        assert(out@[k] == before[k]);
                    } else {
                        assert(out@[k].0@ == pairs@[i as int].0@);
                    }
                }
                assert forall|a: int, b: int| 0 <= a < out.len() && 0 <= b < out.len() && a != b implies aliases_view(out@)[a].0 != aliases_view(out@)[b].0 by {
                    if a < before.len() && b < before.len() {
                        assert(out@[a] == before[a] && out@[b] == before[b]);
                        assert(aliases_view(before)[a].0 != aliases_view(before)[b].0);
                    } else if a < before.len() {
                        assert(out@[a] == before[a]);
                        let j = choose|j: int| 0 <= j < i && before[a].0@ == pairs@[j].0@;
                        assert(pairs@[j].0@ != pairs@[i as int].0@);
                    } else if b < before.len() {
                        assert(out@[b] == before[b]);
                        let j = choose|j: int| 0 <= j < i && before[b].0@ == pairs@[j].0@;
                        assert(pairs@[j].0@ != pairs@[i as int].0@);
                    }
                }
            },
            None => {
                assert forall|k: int| 0 <= k < out.len() implies exists|j: int| 0 <= j < i + 1 && (#[trigger] out@[k]).0@ == pairs@[j].0@ by {
                    let j = choose|j: int| 0 <= j < i && out@[k].0@ == pairs@[j].0@;
                }
            },
        }
        i = i + 1;
    }
    assert(pairs_view(pairs@).take(pairs.len() as int) =~= pairs_view(pairs@));
    out
}

/// Loads a stored row into a cache entry.
pub fn entry_from_row(row: &StoredRow) -> (r: CachedEntry)
    ensures
        loads_from(r, *row),
        r.wf(),
{
    let (roll_prefixes, prefixes_dirty) = match read_json_strings(row.roll_prefix.as_str()) {
        Some(v) => {
            let d = dedup_strings(&v);
            let changed = d.len() != v.len();
            (d, changed)
        },
        None => (Vec::new(), true),
    };
    let (aliases, aliases_dirty) = match read_json_map(row.aliases.as_str()) {
        Some(m) => {
            let a = decode_aliases(&m);
            proof {
                lemma_decodes_count(aliases_view(a@), pairs_view(m@));
            }
            if a.len() == m.len() {
                (a, false)
            } else {
                (Vec::new(), true)
            }
        },
        None => (Vec::new(), true),
    };
    let r = CachedEntry {
        config: TenantConfig {
            command_prefix: row.command_prefix.clone(),
            roll_prefixes,
            aliases,
            roll_info: row.roll_info,
        },
        dirty: Dirty {
            command_prefix: false,
            roll_prefixes: prefixes_dirty,
            aliases: aliases_dirty,
            roll_info: false,
        },
    };
    proof {
        if r.config.roll_prefixes@.len() == 0 {
            assert(strings_view(r.config.roll_prefixes@) =~= Seq::<Seq<char>>::empty());
        }
        if r.config.aliases@.len() == 0 {
            assert(aliases_view(r.config.aliases@) =~= Seq::<(Seq<char>, VersionedRollExpr)>::empty());
        }
    }
    r
}

/// Each alias name with its serialized expression.
pub open spec fn encoded_aliases(a: Seq<(Seq<char>, VersionedRollExpr)>) -> Seq<(Seq<char>, Seq<char>)> {
    a.map_values(|p: (Seq<char>, VersionedRollExpr)| (p.0, versioned_code(p.1)))
}

fn encode_aliases(v: &Vec<(String, VersionedRollExpr)>) -> (r: Vec<(String, String)>)
    ensures
        pairs_view(r@) == encoded_aliases(aliases_view(v@)),
{
    let mut out: Vec<(String, String)> = Vec::new();
    let mut i: usize = 0;
    while i < v.len()
        invariant
            i <= v.len(),
            out.len() == i,
            forall|j: int| 0 <= j < i ==> (#[trigger] out@[j]).0@ == v@[j].0@ && out@[j].1@ == versioned_code(v@[j].1),
        decreases v.len() - i,
    {
        let name = v[i].0.clone();
        let code = serialize(&v[i].1);
        out.push((name, code));
        i = i + 1;
    }
    assert(pairs_view(out@) =~= encoded_aliases(aliases_view(v@)));
    out
}

/// What a changeset writes for an entry: exactly its dirty fields, in their
/// stored form.
pub open spec fn writes_dirty(c: Changeset, config: ConfigView, d: Dirty) -> bool {
    &&& (c.command_prefix is Some <==> d.command_prefix)
    &&& (c.roll_prefix is Some <==> d.roll_prefixes)
    &&& (c.aliases is Some <==> d.aliases)
    &&& (c.roll_info is Some <==> d.roll_info)
    &&& (c.command_prefix matches Some(p) ==> p@ == config.command_prefix)
    &&& (c.roll_prefix matches Some(p) ==> p@ == json_of_strings(config.roll_prefixes))
    &&& (c.aliases matches Some(a) ==> a@ == json_of_string_map(encoded_aliases(config.aliases)))
    &&& (c.roll_info matches Some(b) ==> b == config.roll_info)
}

impl CachedEntry {
    /// The fields changed since the last write, in their stored form; the
    /// entry is clean afterwards.
    pub fn take_changeset(&mut self) -> (r: Changeset)
        ensures
            final(self).config == old(self).config,
            is_clean(final(self).dirty),
            writes_dirty(r, old(self).config.view(), old(self).dirty),
    {
        let r = Changeset {
            command_prefix: if self.dirty.command_prefix {
                Some(self.config.command_prefix.clone())
            } else {
                None
            },
            roll_prefix: if self.dirty.roll_prefixes {
                Some(write_json_strings(&self.config.roll_prefixes))
            } else {
                None
            },
            aliases: if self.dirty.aliases {
                Some(write_json_map(&encode_aliases(&self.config.aliases)))
            } else {
                None
            },
            roll_info: if self.dirty.roll_info {
                Some(self.config.roll_info)
            } else {
                None
            },
        };
        self.dirty = Dirty { command_prefix: false, roll_prefixes: false, aliases: false, roll_info: false };
        r
    }
}

#[verifier::external_type_specification]
#[verifier::external_body]
#[verifier::reject_recursive_types(K)]
#[verifier::reject_recursive_types(V)]
pub struct ExSizedCache<K, V>(SizedCache<K, V>);

/// What a cache holds: each tenant's configuration and dirty flags.
pub uninterp spec fn cache_entries(c: SizedCache<u64, CachedEntry>) -> Map<u64, (ConfigView, Dirty)>;

/// The number of entries a cache keeps.
pub uninterp spec fn cache_capacity(c: SizedCache<u64, CachedEntry>) -> nat;

pub open spec fn entry_view(e: CachedEntry) -> (ConfigView, Dirty) {
    (e.config.view(), e.dirty)
}

/// Every key of `after` but `id` was in `before`, with the same value.
pub open spec fn others_kept(before: Map<u64, (ConfigView, Dirty)>, after: Map<u64, (ConfigView, Dirty)>, id: u64) -> bool {
    forall|k: u64| k != id && #[trigger] after.contains_key(k) ==> before.contains_key(k) && after[k] == before[k]
}

/// Relies on cached's `SizedCache::with_size`: an empty cache of that
/// capacity; it panics on 0.
#[verifier::external_body]
fn cache_with_size(size: usize) -> (r: SizedCache<u64, CachedEntry>)
    requires
        size > 0,
    ensures
        cache_entries(r).dom() == Set::<u64>::empty(),
        cache_capacity(r) == size,
{
    SizedCache::with_size(size)
}

/// Relies on cached's `Cached::cache_size`: the number of entries.
#[verifier::external_body]
fn cache_len(c: &SizedCache<u64, CachedEntry>) -> (r: usize)
    ensures
        r == cache_entries(*c).dom().len(),
{
    c.cache_size()
}

/// Relies on cached's `SizedCache::key_order`, which lists the keys from the
/// most to the least recently used: the last of them, if any.
#[verifier::external_body]
fn cache_oldest(c: &SizedCache<u64, CachedEntry>) -> (r: Option<u64>)
    ensures
        r is Some ==> cache_entries(*c).contains_key(r->Some_0),
        r is None ==> cache_entries(*c).dom() == Set::<u64>::empty(),
{
    c.key_order().last().copied()
}

/// Relies on cached's `Cached::cache_remove`: takes the entry of `id` out.
#[verifier::external_body]
fn cache_take(c: &mut SizedCache<u64, CachedEntry>, id: u64) -> (r: Option<CachedEntry>)
    ensures
        r is Some == cache_entries(*old(c)).contains_key(id),
        r is Some ==> entry_view(r->Some_0) == cache_entries(*old(c))[id],
        cache_entries(*final(c)) == cache_entries(*old(c)).remove(id),
        cache_capacity(*final(c)) == cache_capacity(*old(c)),
{
    c.cache_remove(&id)
}

/// Relies on cached's `Cached::cache_set`: stores the entry of `id`; when the
/// cache is full it first drops the least recently used entry, and only then.
#[verifier::external_body]
fn cache_put(c: &mut SizedCache<u64, CachedEntry>, id: u64, e: CachedEntry) -> (r: Option<CachedEntry>)
    ensures
        r is Some ==> cache_entries(*old(c)).contains_key(id),
        cache_entries(*old(c)).dom().len() < cache_capacity(*old(c)) ==> cache_entries(*final(c))
            == cache_entries(*old(c)).insert(id, entry_view(e)),
        cache_entries(*final(c)).contains_key(id),
        cache_entries(*final(c))[id] == entry_view(e),
        others_kept(cache_entries(*old(c)), cache_entries(*final(c)), id),
        cache_capacity(*final(c)) == cache_capacity(*old(c)),
{
    c.cache_set(id, e)
}

/// Operations applied in order: the configuration and dirty flags after
/// them, and their replies.
pub open spec fn run_ops(c: ConfigView, d: Dirty, ops: Seq<StorageOp>) -> (ConfigView, Dirty, Seq<ReplyView>)
    decreases ops.len(),
{
    if ops.len() == 0 {
        (c, d, Seq::empty())
    } else {
        let (c1, d1, replies) = run_ops(c, d, ops.drop_last());
        let (c2, reply, field) = op_step(c1, ops.last());
        (c2, mark(d1, field), replies.push(reply))
    }
}

pub open spec fn replies_view(v: Seq<StorageReply>) -> Seq<ReplyView> {
    v.map_values(|r: StorageReply| r.view())
}

/// What the actor answers for an operation.
pub enum Handled {
    /// The reply, and the write to make when the operation changed something.
    Reply(StorageReply, Option<Changeset>),
    /// Queued behind the load already under way for the tenant.
    Queued,
    /// The tenant's row has to be loaded (or inserted with defaults) and
    /// handed to `loaded`; the operation waits for it.
    Load,
}

/// Whether one of the operations changes the configuration.
pub open spec fn changes(c: ConfigView, d: Dirty, ops: Seq<StorageOp>) -> bool
    decreases ops.len(),
{
    if ops.len() == 0 {
        false
    } else {
        changes(c, d, ops.drop_last()) || op_step(run_ops(c, d, ops.drop_last()).0, ops.last()).2 is Some
    }
}

pub open spec fn evicted_key(evicted: Option<(u64, Changeset)>) -> Option<u64> {
    match evicted {
        Some((j, _)) => Some(j),
        None => None,
    }
}

/// Every entry that left the cache, other than `id`'s, was clean or is the
/// one written back as `evicted`.
pub open spec fn flushed_on_eviction(
    before: Map<u64, (ConfigView, Dirty)>,
    after: Map<u64, (ConfigView, Dirty)>,
    id: u64,
    evicted: Option<(u64, Changeset)>,
) -> bool {
    &&& forall|k: u64| k != id && #[trigger] before.contains_key(k) && !after.contains_key(k) && !is_clean(before[k].1)
        ==> evicted_key(evicted) == Some(k)
    &&& evicted matches Some((j, cs)) ==> before.contains_key(j) && !after.contains_key(j) && j != id
        && writes_dirty(cs, before[j].0, before[j].1)
}

/// The storage actor of one client type.
pub struct StorageActor {
    cache: SizedCache<u64, CachedEntry>,
    capacity: usize,
    pending: HashMap<u64, Vec<StorageOp>>,
}

impl StorageActor {
    /// Configuration and dirty flags of each cached tenant.
    pub closed spec fn cached(&self) -> Map<u64, (ConfigView, Dirty)> {
        cache_entries(self.cache)
    }

    /// Operations waiting for each tenant whose row is being loaded.
    pub closed spec fn queued(&self) -> Map<u64, Seq<StorageOp>> {
        self.pending@.map_values(|v: Vec<StorageOp>| v@)
    }

    /// The number of tenants the cache keeps.
    pub closed spec fn capacity(&self) -> nat {
        self.capacity as nat
    }

    /// Cached configurations are well formed, the cache holds no more than
    /// its capacity, and a tenant being loaded is not cached.
    pub open spec fn wf(&self) -> bool {
        &&& forall|k: u64| #[trigger] self.cached().contains_key(k) ==> config_wf(self.cached()[k].0)
        &&& forall|k: u64| #[trigger] self.queued().contains_key(k) ==> !self.cached().contains_key(k)
        &&& self.cached().dom().finite()
        &&& self.cached().dom().len() <= self.capacity()
        &&& self.capacity() > 0
        &&& self.sized()
    }

    /// The capacity kept beside the cache is the cache's own.
    pub closed spec fn sized(&self) -> bool {
        self.capacity == cache_capacity(self.cache)
    }

    /// An actor with an empty cache of the given capacity.
    pub fn new(cache_size: usize) -> (r: StorageActor)
        requires
            cache_size > 0,
        ensures
            r.wf(),
            r.cached().dom() == Set::<u64>::empty(),
            r.queued() == Map::<u64, Seq<StorageOp>>::empty(),
            r.capacity() == cache_size,
    {
        let r = StorageActor { cache: cache_with_size(cache_size), capacity: cache_size, pending: HashMap::new() };
        assert(r.queued() =~= Map::<u64, Seq<StorageOp>>::empty());
        r
    }

    /// Whether the row of tenant `id` is being loaded.
    pub fn is_loading(&self, id: u64) -> (r: bool)
        ensures
            r == self.queued().contains_key(id),
    {
        self.pending.contains_key(&id)
    }

    /// Makes room for one more entry: when the cache is full, its least
    /// recently used entry leaves it, with its changeset when it is dirty.
    fn make_room(&mut self) -> (r: Option<(u64, Changeset)>)
        requires
            old(self).wf(),
        ensures
            final(self).wf(),
            final(self).cached().dom().len() < final(self).capacity(),
            final(self).queued() == old(self).queued(),
            final(self).capacity() == old(self).capacity(),
            forall|k: u64| #[trigger] final(self).cached().contains_key(k) ==> old(self).cached().contains_key(k)
                && final(self).cached()[k] == old(self).cached()[k],
            forall|k: u64| #[trigger] old(self).cached().contains_key(k) && !final(self).cached().contains_key(k)
                && !is_clean(old(self).cached()[k].1) ==> evicted_key(r) == Some(k),
            r matches Some((j, cs)) ==> old(self).cached().contains_key(j) && !final(self).cached().contains_key(j)
                && writes_dirty(cs, old(self).cached()[j].0, old(self).cached()[j].1),
    {
        if cache_len(&self.cache) < self.capacity {
            return None;
        }
        match cache_oldest(&self.cache) {
            Some(k) => {
                let taken = cache_take(&mut self.cache, k);
                proof {
                    assert(self.cached() == old(self).cached().remove(k));
                    assert(old(self).cached().dom().remove(k).len() == old(self).cached().dom().len() - 1);
                    assert(self.cached().dom() =~= old(self).cached().dom().remove(k));
                    assert forall|j: u64| #[trigger] self.cached().contains_key(j) implies config_wf(self.cached()[j].0) by {
                        assert(old(self).cached().contains_key(j));
                    }
                    assert forall|j: u64| #[trigger] self.queued().contains_key(j) implies !self.cached().contains_key(j) by {
                        assert(old(self).queued().contains_key(j));
                    }
                    assert(self.sized());
                }
                match taken {
                    Some(mut e) => {
                        if e.dirty.command_prefix || e.dirty.roll_prefixes || e.dirty.aliases || e.dirty.roll_info {
                            Some((k, e.take_changeset()))
                        } else {
                            None
                        }
                    },
                    None => None,
                }
            },
            None => None,
        }
    }

    /// Completes the load of tenant `id` with the entry read from its row:
    /// the operations that waited are applied in order of arrival, and when
    /// one of them changed something, every dirty field is written back
    /// (fields repaired while loading included). When the cache is full, its
    /// least recently used entry leaves it, with its own write when dirty.
    pub fn loaded(&mut self, id: u64, entry: CachedEntry) -> (r: (Vec<StorageReply>, Option<Changeset>, Option<(u64, Changeset)>))
        requires
            old(self).wf(),
            entry.wf(),
            old(self).queued().contains_key(id),
        ensures
            final(self).wf(),
            ({
                let ops = old(self).queued()[id];
                let (c, d, replies) = run_ops(entry.config.view(), entry.dirty, ops);
                &&& replies_view(r.0@) == replies
                &&& final(self).cached().contains_key(id)
                &&& final(self).cached()[id].0 == c
                &&& (r.1 is Some <==> changes(entry.config.view(), entry.dirty, ops))
                &&& (r.1 matches Some(cs) ==> writes_dirty(cs, c, d) && is_clean(final(self).cached()[id].1))
                &&& (r.1 is None ==> final(self).cached()[id].1 == d)
            }),
            final(self).queued() == old(self).queued().remove(id),
            others_kept(old(self).cached(), final(self).cached(), id),
            flushed_on_eviction(old(self).cached(), final(self).cached(), id, r.2),
    {
        let mut e = entry;
        let mut ops: Vec<StorageOp> = match self.pending.remove(&id) {
            Some(q) => q,
            None => Vec::new(),
        };
        let ghost all = ops@;
        assert(all.len() == ops.len());
        let ghost c0 = e.config.view();
        let ghost d0 = e.dirty;
        proof {
            assert(all == old(self).queued()[id]);
            assert(all.take(0) =~= Seq::<StorageOp>::empty());
            assert(all.skip(0) =~= all);
        }
        let mut replies: Vec<StorageReply> = Vec::new();
        let mut changed = false;
        let mut k: usize = 0;
        while ops.len() > 0
            invariant
                e.wf(),
                k <= all.len(),
                all.len() == k + ops.len(),
                all.len() <= usize::MAX,
                ops@ == all.skip(k as int),
                run_ops(c0, d0, all.take(k as int)).0 == e.config.view(),
                run_ops(c0, d0, all.take(k as int)).1 == e.dirty,
                run_ops(c0, d0, all.take(k as int)).2 == replies_view(replies@),
                changes(c0, d0, all.take(k as int)) == changed,
            decreases ops.len(),
        {
            let op = ops.remove(0);
            proof {
                assert(all.take(k + 1int).drop_last() =~= all.take(k as int));
                assert(all.take(k + 1int).last() == op);
            }
            let ghost before = replies_view(replies@);
            let (reply, ch) = e.apply(op);
            replies.push(reply);
            assert(replies_view(replies@) =~= before.push(reply.view()));
            changed = changed || ch;
            k = k + 1;
            assert(ops@ =~= all.skip(k as int));
        }
        assert(all.take(k as int) =~= all);
        let cs = if changed {
            Some(e.take_changeset())
        } else {
            None
        };
        let ghost mid = self.cached();
        proof {
            assert(self.cached() == old(self).cached());
            assert forall|j: u64| #[trigger] self.queued().contains_key(j) implies !self.cached().contains_key(j) by {
                assert(old(self).queued().contains_key(j));
            }
        }
        let evicted = self.make_room();
        proof {
            assert(!self.cached().contains_key(id));
        }
        let _ = cache_put(&mut self.cache, id, e);
        proof {
            assert(self.queued() =~= old(self).queued().remove(id));
        }
        (replies, cs, evicted)
    }

    /// Handles one operation on tenant `id`. A cached tenant's operation is
    /// applied at once, and a change is written back with every dirty field;
    /// otherwise the operation waits for the tenant's row.
    pub fn handle(&mut self, id: u64, op: StorageOp) -> (r: Handled)
        requires
            old(self).wf(),
        ensures
            final(self).wf(),
            old(self).cached().contains_key(id) ==> ({
                let (c, d) = old(self).cached()[id];
                let (c2, reply, field) = op_step(c, op);
                &&& r matches Handled::Reply(rep, cs) && rep.view() == reply
                &&& final(self).cached().contains_key(id)
                &&& final(self).cached()[id].0 == c2
                &&& (r->Reply_1 is Some <==> field is Some)
                &&& (r->Reply_1 matches Some(cs) ==> writes_dirty(cs, c2, mark(d, field)) && is_clean(final(self).cached()[id].1))
                &&& (field is None ==> final(self).cached()[id].1 == d)
                &&& final(self).queued() == old(self).queued()
            }),
            !old(self).cached().contains_key(id) && old(self).queued().contains_key(id) ==> r is Queued
                && final(self).queued() == old(self).queued().insert(id, old(self).queued()[id].push(op))
                && final(self).cached() == old(self).cached(),
            !old(self).cached().contains_key(id) && !old(self).queued().contains_key(id) ==> r is Load
                && final(self).queued() == old(self).queued().insert(id, seq![op])
                && final(self).cached() == old(self).cached(),
            others_kept(old(self).cached(), final(self).cached(), id),
    {
        match cache_take(&mut self.cache, id) {
            Some(mut e) => {
                let ghost c = e.config.view();
                let ghost d = e.dirty;
                let ghost field = op_step(c, op).2;
                proof {
                    assert(old(self).cached().contains_key(id));
                }
                let (reply, changed) = e.apply(op);
                let cs = if changed {
                    Some(e.take_changeset())
                } else {
                    None
                };
                let _ = cache_put(&mut self.cache, id, e);
                proof {
                    assert(self.queued() == old(self).queued());
                }
                Handled::Reply(reply, cs)
            },
            None => {
                match self.pending.remove(&id) {
                    Some(mut q) => {
                        q.push(op);
                        self.pending.insert(id, q);
                        proof {
                            assert(self.queued() =~= old(self).queued().insert(id, old(self).queued()[id].push(op)));
                        }
                        Handled::Queued
                    },
                    None => {
                        let mut q: Vec<StorageOp> = Vec::new();
                        q.push(op);
                        self.pending.insert(id, q);
                        proof {
                            assert(self.queued() =~= old(self).queued().insert(id, seq![op]));
                        }
                        Handled::Load
                    },
                }
            },
        }
    }
}

} // verus!
