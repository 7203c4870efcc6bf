//! The client's local state: the staging area, the vaults it knows, and the
//! trust records that anchor every later verification.
//!
//! The state is an explicit value. Whoever owns it decides where it is kept
//! between runs; nothing here touches a file.

use crate::error::VaultError;
use vstd::prelude::*;

verus! {

/// The root committed for one vault.
struct TrustRecord {
    vault_id: String,
    root_hash: String,
}

/// The local state of a client.
pub struct Config {
    staged: Vec<String>,
    vaults: Vec<String>,
    records: Vec<TrustRecord>,
}

/// The texts held by a vector of strings.
pub open spec fn texts_of(items: Seq<String>) -> Seq<Seq<char>> {
    Seq::new(items.len(), |i: int| items[i]@)
}

/// The predicate that holds of the texts that are not in `list`.
pub open spec fn absent_from(list: Seq<Seq<char>>) -> spec_fn(Seq<char>) -> bool {
    |text: Seq<char>| !list.contains(text)
}

/// The predicate that holds of the texts other than `one`.
pub open spec fn other_than(one: Seq<char>) -> spec_fn(Seq<char>) -> bool {
    |text: Seq<char>| text != one
}

/// The map that a list of records stands for: a later record for a vault
/// replaces an earlier one.
spec fn records_map(records: Seq<TrustRecord>) -> Map<Seq<char>, Seq<char>>
    decreases records.len(),
{
    if records.len() == 0 {
        Map::empty()
    } else {
        records_map(records.drop_last()).insert(
            records.last().vault_id@,
            records.last().root_hash@,
        )
    }
}

/// Appending a record to a list inserts it into the map.
proof fn lemma_records_map_push(records: Seq<TrustRecord>, record: TrustRecord)
    ensures
        records_map(records.push(record)) == records_map(records).insert(
            record.vault_id@,
            record.root_hash@,
        ),
{
    assert(records.push(record).drop_last() =~= records);
}

impl Config {
    /// The staged files, in staging order.
    pub closed spec fn staged(&self) -> Seq<Seq<char>> {
        texts_of(self.staged@)
    }

    /// The vaults that have been committed, oldest first.
    pub closed spec fn vaults(&self) -> Seq<Seq<char>> {
        texts_of(self.vaults@)
    }

    /// The committed root of each vault that has one.
    pub closed spec fn trusted_roots(&self) -> Map<Seq<char>, Seq<char>> {
        records_map(self.records@)
    }

    /// A state with the given staging area and vaults, and no trust record.
    pub fn new(staged: Vec<String>, vaults: Vec<String>) -> (config: Self)
        ensures
            config.staged() == texts_of(staged@),
            config.vaults() == texts_of(vaults@),
            config.trusted_roots() == Map::<Seq<char>, Seq<char>>::empty(),
    {
        Config { staged, vaults, records: Vec::new() }
    }
}

/// Copies a list of strings.
fn copy_texts(items: &Vec<String>) -> (copy: Vec<String>)
    ensures
        texts_of(copy@) == texts_of(items@),
{
    let mut copy: Vec<String> = Vec::new();
    let mut i: usize = 0;
    while i < items.len()
        invariant
            i <= items.len(),
            texts_of(copy@) == texts_of(items@).subrange(0, i as int),
        decreases items.len() - i,
    {
        let ghost before = texts_of(copy@);
        copy.push(items[i].clone());
        assert(texts_of(copy@) =~= before.push(items@[i as int]@));
        i += 1;
    }
    copy
}

/// Tells whether `list` holds `text`.
fn holds(list: &Vec<String>, text: &String) -> (found: bool)
    ensures
        found == texts_of(list@).contains(text@),
{
    let mut i: usize = 0;
    while i < list.len()
        invariant
            i <= list.len(),
            forall|j: int| 0 <= j < i ==> texts_of(list@)[j] != text@,
        decreases list.len() - i,
    {
        if list[i] == *text {
            assert(texts_of(list@)[i as int] == text@);
            return true;
        }
        i += 1;
    }
    false
}

/// The vaults that have been committed, oldest first.
pub fn get_all_vaults(config: &Config) -> (vaults: Vec<String>)
    ensures
        texts_of(vaults@) == config.vaults(),
{
    copy_texts(&config.vaults)
}

/// The staged files, in staging order.
pub fn get_staged_files(config: &Config) -> (files: Vec<String>)
    ensures
        texts_of(files@) == config.staged(),
{
    copy_texts(&config.staged)
}

/// The committed root of the vault `vault_id`.
///
/// Fails with `UntrustedContainer` where no root was ever committed for the
/// vault, and in no other case.
pub fn get_root_hash_for_vault(config: &Config, vault_id: &String) -> (result: Result<
    String,
    VaultError,
>)
    ensures
        match result {
            Ok(root) => config.trusted_roots().contains_key(vault_id@)
                && root@ == config.trusted_roots()[vault_id@],
            Err(e) => !config.trusted_roots().contains_key(vault_id@) && e
                == VaultError::UntrustedContainer,
        },
{
    let ghost all = config.records@;
    let mut i: usize = config.records.len();
    assert(all.subrange(0, i as int) =~= all);
    while i > 0
        invariant
            i <= config.records.len(),
            all == config.records@,
            records_map(all).contains_key(vault_id@) == records_map(
                all.subrange(0, i as int),
            ).contains_key(vault_id@),
            records_map(all).contains_key(vault_id@) ==> records_map(all)[vault_id@]
                == records_map(all.subrange(0, i as int))[vault_id@],
        decreases i,
    {
        i -= 1;
        let record = &config.records[i];
        proof {
            assert(all.subrange(0, i + 1).drop_last() =~= all.subrange(0, i as int));
        }
        if record.vault_id == *vault_id {
            return Ok(record.root_hash.clone());
        }
    }
    Err(VaultError::UntrustedContainer)
}

/// Records `hash` as the committed root of the vault `vault_id`, in place of
/// any root recorded for it before.
pub fn save_vault_root_hash(config: &mut Config, vault_id: &String, hash: &String)
    ensures
        final(config).trusted_roots() == old(config).trusted_roots().insert(vault_id@, hash@),
        final(config).staged() == old(config).staged(),
        final(config).vaults() == old(config).vaults(),
{
    let record = TrustRecord { vault_id: vault_id.clone(), root_hash: hash.clone() };
    proof {
        lemma_records_map_push(config.records@, record);
    }
    config.records.push(record);
}

/// Adds `vault_id` to the vaults that are known, unless it is among them.
pub fn remember_vault(config: &mut Config, vault_id: &String)
    ensures
        final(config).vaults() == if old(config).vaults().contains(vault_id@) {
            old(config).vaults()
        } else {
            old(config).vaults().push(vault_id@)
        },
        final(config).staged() == old(config).staged(),
        final(config).trusted_roots() == old(config).trusted_roots(),
{
    if !holds(&config.vaults, vault_id) {
        config.vaults.push(vault_id.clone());
    }
}

/// Empties the staging area.
pub fn clear_staging(config: &mut Config)
    ensures
        final(config).staged() == Seq::<Seq<char>>::empty(),
        final(config).vaults() == old(config).vaults(),
        final(config).trusted_roots() == old(config).trusted_roots(),
{
    config.staged = Vec::new();
}

/// Empties the staging area.
pub fn clear(config: &mut Config)
    ensures
        final(config).staged() == Seq::<Seq<char>>::empty(),
        final(config).vaults() == old(config).vaults(),
        final(config).trusted_roots() == old(config).trusted_roots(),
{
    clear_staging(config);
}

/// The items of `items` that are not in `excluded`, in their order.
fn without(items: &Vec<String>, excluded: &Vec<String>) -> (kept: Vec<String>)
    ensures
        texts_of(kept@) == texts_of(items@).filter(absent_from(texts_of(excluded@))),
{
    let ghost keep = absent_from(texts_of(excluded@));
    let ghost all = texts_of(items@);
    let mut kept: Vec<String> = Vec::new();
    let mut i: usize = 0;
    proof {
        reveal(Seq::filter);
    }
    while i < items.len()
        invariant
            i <= items.len(),
            all == texts_of(items@),
            keep == absent_from(texts_of(excluded@)),
            texts_of(kept@) == all.subrange(0, i as int).filter(keep),
        decreases items.len() - i,
    {
        proof {
            reveal(Seq::filter);
            assert(all.subrange(0, i + 1).drop_last() =~= all.subrange(0, i as int));
        }
        if !holds(excluded, &items[i]) {
            kept.push(items[i].clone());
        }
        i += 1;
    }
    assert(all.subrange(0, items.len() as int) =~= all);
    kept
}

/// Stages those of `files` that are not staged yet, behind the files that
/// are, and returns how many were added.
pub fn add(config: &mut Config, files: &Vec<String>) -> (added: usize)
    ensures
        final(config).staged() == old(config).staged() + texts_of(files@).filter(
            absent_from(old(config).staged()),
        ),
        added == final(config).staged().len() - old(config).staged().len(),
        final(config).vaults() == old(config).vaults(),
        final(config).trusted_roots() == old(config).trusted_roots(),
{
    let mut fresh = without(files, &config.staged);
    let added: usize = fresh.len();
    config.staged.append(&mut fresh);
    added
}

/// Takes `files` out of the staging area. The files that stay keep their
/// order.
pub fn remove(config: &mut Config, files: &Vec<String>)
    ensures
        final(config).staged() == old(config).staged().filter(absent_from(texts_of(files@))),
        final(config).vaults() == old(config).vaults(),
        final(config).trusted_roots() == old(config).trusted_roots(),
{
    let kept = without(&config.staged, files);
    config.staged = kept;
}

/// Forgets the vault `vault_id`: its trust record and its entry among the
/// known vaults.
pub fn delete_vault_local(config: &mut Config, vault_id: &String)
    ensures
        final(config).trusted_roots() == old(config).trusted_roots().remove(vault_id@),
        final(config).vaults() == old(config).vaults().filter(other_than(vault_id@)),
        final(config).staged() == old(config).staged(),
{
    let ghost keep = other_than(vault_id@);
    let ghost names = texts_of(config.vaults@);
    let mut vaults: Vec<String> = Vec::new();
    let mut i: usize = 0;
    proof {
        reveal(Seq::filter);
    }
    while i < config.vaults.len()
        invariant
            i <= config.vaults.len(),
            names == texts_of(config.vaults@),
            keep == other_than(vault_id@),
            texts_of(vaults@) == names.subrange(0, i as int).filter(keep),
        decreases config.vaults.len() - i,
    {
        proof {
            reveal(Seq::filter);
            assert(names.subrange(0, i + 1).drop_last() =~= names.subrange(0, i as int));
        }
        if config.vaults[i] != *vault_id {
            vaults.push(config.vaults[i].clone());
        }
        i += 1;
    }
    assert(names.subrange(0, config.vaults.len() as int) =~= names);

    let ghost all = config.records@;
    let mut records: Vec<TrustRecord> = Vec::new();
    let mut k: usize = 0;
    while k < config.records.len()
        invariant
            k <= config.records.len(),
            all == config.records@,
            records_map(records@) == records_map(all.subrange(0, k as int)).remove(vault_id@),
        decreases config.records.len() - k,
    {
        let record = &config.records[k];
        proof {
            assert(all.subrange(0, k + 1).drop_last() =~= all.subrange(0, k as int));
        }
        if record.vault_id != *vault_id {
            let copy = TrustRecord {
                vault_id: record.vault_id.clone(),
                root_hash: record.root_hash.clone(),
            };
            proof {
                lemma_records_map_push(records@, copy);
            }
            records.push(copy);
        }
        k += 1;
    }
    assert(all.subrange(0, config.records.len() as int) =~= all);
    config.vaults = vaults;
    config.records = records;
}

} // verus!
