//! The account database's cache, and the plan for executing transactions.
use crate::account::{Account, AccountView, AccountWrite, WriteView};
use crate::block::deploy_tx::upgradeable_loader;
use crate::ids::{Id, Pubkey};
use crate::text::join;
use vstd::prelude::*;
use vstd::string::*;

verus! {

/// The account database: where its file lies, and the accounts that were
/// written or read since it was opened. A write goes to the file and here; a
/// read goes to the file only for an account that is not here.
pub struct EscobarDB {
    path: String,
    cache: Vec<AccountWrite>,
}

/// Some entry is of this address.
spec fn has_entry(entries: Seq<AccountWrite>, key: Seq<u8>) -> bool {
    exists|i: int| 0 <= i < entries.len() && #[trigger] entries[i].key@ == key
}

/// An entry of this address.
spec fn entry_index(entries: Seq<AccountWrite>, key: Seq<u8>) -> int {
    choose|i: int| 0 <= i < entries.len() && #[trigger] entries[i].key@ == key
}

/// The accounts that the entries hold, by address.
spec fn accounts_in(entries: Seq<AccountWrite>) -> Map<Seq<u8>, AccountView> {
    Map::new(
        |key: Seq<u8>| has_entry(entries, key),
        |key: Seq<u8>| entries[entry_index(entries, key)].account@,
    )
}

/// No address has two entries.
spec fn distinct(entries: Seq<AccountWrite>) -> bool {
    forall|i: int, j: int|
        0 <= i < j < entries.len() ==> (#[trigger] entries[i]).key@ != (#[trigger] entries[j]).key@
}

/// What is read of an address: the cached account, or else the one in the file.
pub open spec fn read_of(
    cached: Map<Seq<u8>, AccountView>,
    key: Seq<u8>,
    stored: Option<AccountView>,
) -> AccountView {
    if cached.contains_key(key) {
        cached[key]
    } else {
        stored->0
    }
}

/// The place of the first owner that is `owner`, if there is one.
pub open spec fn is_first_owner(owners: Seq<Pubkey>, owner: Seq<u8>, at: Option<usize>) -> bool {
    match at {
        Some(i) => {
            &&& i < owners.len()
            &&& owners[i as int]@ == owner
            &&& forall|j: int| 0 <= j < i ==> (#[trigger] owners[j])@ != owner
        },
        None => forall|j: int| 0 <= j < owners.len() ==> (#[trigger] owners[j])@ != owner,
    }
}

/// Finds an owner in a list: the place of the first that is `owner`.
pub fn first_owner(owner: &Pubkey, owners: &[Pubkey]) -> (r: Option<usize>)
    ensures
        is_first_owner(owners@, owner@, r),
        r matches Some(i) ==> i < owners@.len() && owners@[i as int].0@ == owner.0@,
        forall|j: int|
            0 <= j < owners@.len() && (r matches Some(i) ==> j < i) ==> (#[trigger] owners@[j]).0@
                != owner.0@,
{
    let mut i: usize = 0;
    while i < owners.len()
        invariant
            i <= owners@.len(),
            forall|j: int| 0 <= j < i ==> (#[trigger] owners@[j])@ != owner@,
        decreases owners@.len() - i,
    {
        if owner.same(&owners[i]) {
            return Some(i);
        }
        i = i + 1;
    }
    None
}

impl View for EscobarDB {
    type V = Map<Seq<u8>, AccountView>;

    closed spec fn view(&self) -> Map<Seq<u8>, AccountView> {
        accounts_in(self.cache@)
    }
}

impl EscobarDB {
    /// No address is cached twice.
    pub closed spec fn wf(&self) -> bool {
        distinct(self.cache@)
    }

    /// Where the database's file lies.
    pub closed spec fn file(&self) -> Seq<char> {
        self.path@
    }

    /// The database with its file in a directory, with nothing cached.
    pub fn new(data_dir: String) -> (r: Self)
        ensures
            r.wf(),
            r.file() == data_dir@ + "/state.db"@,
            r@ == Map::<Seq<u8>, AccountView>::empty(),
    {
        let r = EscobarDB { path: join(data_dir.as_str(), "/state.db"), cache: Vec::new() };
        assert(r@ =~= Map::<Seq<u8>, AccountView>::empty());
        r
    }

    /// Where the database's file lies.
    pub fn path(&self) -> (r: &str)
        ensures
            r@ == self.file(),
    {
        self.path.as_str()
    }

    fn find(&self, key: &Pubkey) -> (r: Option<usize>)
        requires
            self.wf(),
        ensures
            r matches Some(i) ==> i < self.cache@.len() && self.cache@[i as int].key@ == key@
                && self@.contains_key(key@) && self@[key@] == self.cache@[i as int].account@,
            r is None ==> !self@.contains_key(key@),
    {
        let mut i: usize = 0;
        while i < self.cache.len()
            invariant
                i <= self.cache@.len(),
                self.wf(),
                forall|j: int| 0 <= j < i ==> (#[trigger] self.cache@[j]).key@ != key@,
            decreases self.cache@.len() - i,
        {
            if self.cache[i].key.same(key) {
                assert(has_entry(self.cache@, key@));
                assert(entry_index(self.cache@, key@) == i);
                return Some(i);
            }
            i = i + 1;
        }
        None
    }

    /// The account that is cached for an address.
    pub fn cached(&self, pubkey: &Pubkey) -> (r: Option<Account>)
        requires
            self.wf(),
        ensures
            (r is Some) == self@.contains_key(pubkey@),
            r matches Some(a) ==> a@ == self@[pubkey@],
    {
        match self.find(pubkey) {
            Some(i) => Some(self.cache[i].account.clone()),
            None => None,
        }
    }

    /// Takes in an account that has been written to the file.
    pub fn write(&mut self, key: Pubkey, value: Account)
        requires
            old(self).wf(),
        ensures
            final(self).wf(),
            final(self).file() == old(self).file(),
            final(self)@ == old(self)@.insert(key@, value@),
    {
        match self.find(&key) {
            Some(i) => {
                self.cache[i] = AccountWrite { key, account: value };
                proof {
                    let before = old(self).cache@;
                    let after = self.cache@;
                    assert forall|k: Seq<u8>| has_entry(before, k) == #[trigger] has_entry(
                        after,
                        k,
                    ) by {
                        if has_entry(before, k) {
                            let j = entry_index(before, k);
                            assert(after[j].key@ == k);
                        }
                        if has_entry(after, k) {
                            let j = entry_index(after, k);
                            assert(before[j].key@ == k);
                        }
                    }
                    assert(distinct(after)) by {
                        assert forall|a: int, b: int| 0 <= a < b < after.len() implies (
                        #[trigger] after[a]).key@ != (#[trigger] after[b]).key@ by {
                            assert(before[a].key@ != before[b].key@);
                        }
                    }
                    lemma_entry(after, i as int);
                    assert forall|k: Seq<u8>| has_entry(after, k) && k != key@ implies (
                    #[trigger] accounts_in(after)[k]) == accounts_in(before)[k] by {
                        let j = entry_index(before, k);
                        assert(after[j].key@ == k);
                        lemma_entry(after, j);
                        lemma_entry(before, j);
                    }
                    assert(final(self)@ =~= old(self)@.insert(key@, value@));
                }
            },
            None => {
                self.cache.push(AccountWrite { key, account: value });
                proof {
                    let before = old(self).cache@;
                    let after = self.cache@;
                    let n = before.len() as int;
                    assert forall|j: int| 0 <= j < n implies (#[trigger] after[j]).key@
                        != key@ by {
                        assert(after[j] == before[j]);
                        if before[j].key@ == key@ {
                            assert(has_entry(before, key@));
                        }
                    }
                    assert(distinct(after)) by {
                        assert forall|a: int, b: int| 0 <= a < b < after.len() implies (
                        #[trigger] after[a]).key@ != (#[trigger] after[b]).key@ by {
                            if b < n {
                                assert(before[a].key@ != before[b].key@);
                            }
                        }
                    }
                    lemma_entry(after, n);
                    assert forall|k: Seq<u8>| k != key@ implies #[trigger] has_entry(after, k)
                        == has_entry(before, k) by {
                        if has_entry(after, k) {
                            let j = entry_index(after, k);
                            assert(before[j].key@ == k);
                        }
                        if has_entry(before, k) {
                            let j = entry_index(before, k);
                            assert(after[j].key@ == k);
                        }
                    }
                    assert forall|k: Seq<u8>| has_entry(before, k) implies (
                    #[trigger] accounts_in(after)[k]) == accounts_in(before)[k] by {
                        let j = entry_index(before, k);
                        assert(after[j].key@ == k);
                        lemma_entry(after, j);
                        lemma_entry(before, j);
                    }
                    assert(final(self)@ =~= old(self)@.insert(key@, value@));
                }
            },
        }
    }

    /// Takes in accounts that have been written to the file, in order.
    pub fn write_batch(&mut self, accounts: &Vec<AccountWrite>)
        requires
            old(self).wf(),
        ensures
            final(self).wf(),
            final(self).file() == old(self).file(),
            final(self)@ == crate::account::written(
                old(self)@,
                crate::account::writes_of(accounts@),
            ),
    {
        let mut i: usize = 0;
        let ghost all = crate::account::writes_of(accounts@);
        assert(all.take(0) =~= Seq::empty());
        while i < accounts.len()
            invariant
                i <= accounts@.len(),
                all == crate::account::writes_of(accounts@),
                self.wf(),
                self.file() == old(self).file(),
                self@ == crate::account::written(old(self)@, all.take(i as int)),
            decreases accounts@.len() - i,
        {
            self.write(accounts[i].key, accounts[i].account.clone());
            proof {
                assert(all.take(i + 1).drop_last() =~= all.take(i as int));
                assert(all.take(i + 1).last() == accounts@[i as int]@);
            }
            i = i + 1;
        }
        assert(all.take(i as int) =~= all);
    }

    /// Reads an account. `stored` is what the file holds at the address; it
    /// counts only where the account is not cached, and is then cached.
    pub fn get(&mut self, pubkey: &Pubkey, stored: Option<Account>) -> (r: Option<Account>)
        requires
            old(self).wf(),
            old(self)@.contains_key(pubkey@) || stored is Some,
        ensures
            final(self).wf(),
            final(self).file() == old(self).file(),
            crate::account::account_of(r) == Some(
                read_of(old(self)@, pubkey@, crate::account::account_of(stored)),
            ),
            final(self)@ == old(self)@.insert(
                pubkey@,
                read_of(old(self)@, pubkey@, crate::account::account_of(stored)),
            ),
            old(self)@.contains_key(pubkey@) ==> {
                &&& crate::account::account_of(r) == Some(old(self)@[pubkey@])
                &&& final(self)@ == old(self)@
            },
            !old(self)@.contains_key(pubkey@) ==> {
                &&& r is Some
                &&& r->0@ == stored->0@
                &&& final(self)@ == old(self)@.insert(pubkey@, stored->0@)
            },
    {
        match self.cached(pubkey) {
            Some(account) => {
                assert(old(self)@ =~= old(self)@.insert(pubkey@, old(self)@[pubkey@]));
                Some(account)
            },
            None => {
                match stored {
                    Some(account) => {
                        self.write(*pubkey, account.clone());
                        Some(account)
                    },
                    None => None,
                }
            },
        }
    }

    /// Reads an account for the transaction processor.
    pub fn get_account_shared_data(&mut self, pubkey: &Pubkey, stored: Option<Account>) -> (r:
        Option<Account>)
        requires
            old(self).wf(),
            old(self)@.contains_key(pubkey@) || stored is Some,
        ensures
            final(self).wf(),
            final(self).file() == old(self).file(),
            crate::account::account_of(r) == Some(
                read_of(old(self)@, pubkey@, crate::account::account_of(stored)),
            ),
            final(self)@ == old(self)@.insert(
                pubkey@,
                read_of(old(self)@, pubkey@, crate::account::account_of(stored)),
            ),
            old(self)@.contains_key(pubkey@) ==> {
                &&& crate::account::account_of(r) == Some(old(self)@[pubkey@])
                &&& final(self)@ == old(self)@
            },
            !old(self)@.contains_key(pubkey@) ==> {
                &&& r is Some
                &&& r->0@ == stored->0@
                &&& final(self)@ == old(self)@.insert(pubkey@, stored->0@)
            },
    {
        self.get(pubkey, stored)
    }

    /// Reads an account and finds its owner among `owners`: the place of the
    /// first that is the account's owner.
    pub fn account_matches_owners(
        &mut self,
        account: &Pubkey,
        owners: &[Pubkey],
        stored: Option<Account>,
    ) -> (r: Option<usize>)
        requires
            old(self).wf(),
            old(self)@.contains_key(account@) || stored is Some,
        ensures
            final(self).wf(),
            final(self).file() == old(self).file(),
            final(self)@ == old(self)@.insert(
                account@,
                read_of(old(self)@, account@, crate::account::account_of(stored)),
            ),
            is_first_owner(
                owners@,
                read_of(old(self)@, account@, crate::account::account_of(stored)).owner,
                r,
            ),
            ({
                let owner = if old(self)@.contains_key(account@) {
                    old(self)@[account@].owner
                } else {
                    stored->0.owner.0@
                };
                match r {
                    Some(i) => i < owners@.len() && owners@[i as int].0@ == owner && forall|j: int|
                        0 <= j < i ==> (#[trigger] owners@[j]).0@ != owner,
                    None => forall|j: int|
                        0 <= j < owners@.len() ==> (#[trigger] owners@[j]).0@ != owner,
                }
            }),
    {
        let found = self.get_account_shared_data(account, stored);
        match found {
            Some(held) => first_owner(&held.owner, owners),
            None => None,
        }
    }

    /// The key under which the file holds the account of an address.
    pub fn storage_key(pubkey: &Pubkey) -> (r: String)
        ensures
            r@ == crate::ids::pubkey_text(pubkey@),
            r@ == crate::ids::pubkey_text(pubkey.0@),
            forall|other: Seq<u8>|
                other.len() == 32 && #[trigger] crate::ids::pubkey_text(other) == r@ ==> other
                    == pubkey@,
    {
        pubkey.show()
    }
}

impl Default for EscobarDB {
    /// The database with its file in the working directory.
    fn default() -> (r: Self)
        ensures
            r.wf(),
            r.file() == "state.db"@,
            r@ == Map::<Seq<u8>, AccountView>::empty(),
    {
        let r = EscobarDB { path: "state.db".to_owned(), cache: Vec::new() };
        assert(r@ =~= Map::<Seq<u8>, AccountView>::empty());
        r
    }
}

/// Every cached account is the one in the file.
pub open spec fn coherent(
    cached: Map<Seq<u8>, AccountView>,
    stored: Map<Seq<u8>, AccountView>,
) -> bool {
    forall|key: Seq<u8>| #[trigger]
        cached.contains_key(key) ==> stored.contains_key(key) && stored[key] == cached[key]
}

/// What the file holds at an address.
pub open spec fn stored_at(stored: Map<Seq<u8>, AccountView>, key: Seq<u8>) -> Option<AccountView> {
    if stored.contains_key(key) {
        Some(stored[key])
    } else {
        None
    }
}

/// A write that goes to the file and to the cache leaves the two in agreement.
pub proof fn write_keeps_coherence(
    cached: Map<Seq<u8>, AccountView>,
    stored: Map<Seq<u8>, AccountView>,
    key: Seq<u8>,
    account: AccountView,
)
    requires
        coherent(cached, stored),
    ensures
        coherent(cached.insert(key, account), stored.insert(key, account)),
{
}

/// Writes that go to the file and to the cache, in the same order, leave the two in
/// agreement.
pub proof fn writes_keep_coherence(
    cached: Map<Seq<u8>, AccountView>,
    stored: Map<Seq<u8>, AccountView>,
    writes: Seq<WriteView>,
)
    requires
        coherent(cached, stored),
    ensures
        coherent(
            crate::account::written(cached, writes),
            crate::account::written(stored, writes),
        ),
    decreases writes.len(),
{
    if writes.len() > 0 {
        writes_keep_coherence(cached, stored, writes.drop_last());
        write_keeps_coherence(
            crate::account::written(cached, writes.drop_last()),
            crate::account::written(stored, writes.drop_last()),
            writes.last().key,
            writes.last().account,
        );
    }
}

/// A read leaves cache and file in agreement, and gives what the file holds.
pub proof fn read_gives_what_is_stored(
    cached: Map<Seq<u8>, AccountView>,
    stored: Map<Seq<u8>, AccountView>,
    key: Seq<u8>,
)
    requires
        coherent(cached, stored),
        stored.contains_key(key),
    ensures
        read_of(cached, key, stored_at(stored, key)) == stored[key],
        coherent(cached.insert(key, read_of(cached, key, stored_at(stored, key))), stored),
{
}

/// What is read of an address after a write to it is what was written,
/// whatever the file is said to hold; every other address reads as before.
pub proof fn read_gives_back_what_was_written(
    cached: Map<Seq<u8>, AccountView>,
    key: Seq<u8>,
    account: AccountView,
    other: Seq<u8>,
    stored: Option<AccountView>,
)
    ensures
        read_of(cached.insert(key, account), key, stored) == account,
        other != key ==> read_of(cached.insert(key, account), other, stored) == read_of(
            cached,
            other,
            stored,
        ),
{
}

/// A second read of an address gives what the first gave.
pub proof fn reads_agree(
    cached: Map<Seq<u8>, AccountView>,
    key: Seq<u8>,
    first: Option<AccountView>,
    second: Option<AccountView>,
)
    ensures
        read_of(cached.insert(key, read_of(cached, key, first)), key, second) == read_of(
            cached,
            key,
            first,
        ),
{
}

/// The entry at a place is what the entries hold for its address.
proof fn lemma_entry(entries: Seq<AccountWrite>, at: int)
    requires
        distinct(entries),
        0 <= at < entries.len(),
    ensures
        accounts_in(entries).contains_key(entries[at].key@),
        accounts_in(entries)[entries[at].key@] == entries[at].account@,
{
    let key = entries[at].key@;
    assert(has_entry(entries, key));
    let i = entry_index(entries, key);
    assert(entries[i].key@ == key);
}

/// Which code runs a builtin program.
#[derive(Clone, Copy, Debug, PartialEq, Eq, Structural)]
pub enum Entrypoint {
    /// The system program.
    System,
    /// The loader of compiled programs.
    BpfLoader,
}

/// A program that is built in: its address, its name, since when it is there, how
/// long its account is, and the code that runs it.
#[derive(Debug)]
pub struct Builtin {
    pub program_id: Pubkey,
    pub name: String,
    pub deployment_slot: u64,
    pub account_size: usize,
    pub entrypoint: Entrypoint,
}

/// A setting of the transaction processor whose value is not chosen here.
#[derive(Clone, Copy, Debug, PartialEq, Eq, Structural)]
pub enum Setting {
    /// There is none.
    LeftOut,
    /// It is the processor's default.
    AsDefault,
}

/// How the blocks of two slots are related.
#[derive(Clone, Copy, Debug, PartialEq, Eq, Structural)]
pub enum BlockRelation {
    Ancestor,
    Equal,
    Descendant,
    Unrelated,
    Unknown,
}

/// The forks of the chain. Snowman consensus leaves none standing.
#[derive(Debug)]
pub struct EscobarForkGraph {}

impl EscobarForkGraph {
    /// How the blocks of two slots are related: that is never known.
    pub fn relationship(&self, _a: u64, _b: u64) -> (r: BlockRelation)
        ensures
            r == BlockRelation::Unknown,
    {
        BlockRelation::Unknown
    }
}

/// A processor of transactions: its slot and epoch, the features and the budget under
/// which programs run, how it treats programs, and what is built in.
#[derive(Debug)]
pub struct BatchProcessor {
    pub slot: u64,
    pub epoch: u64,
    pub all_features_enabled: bool,
    pub compute_budget: Setting,
    pub reject_deployment_of_broken_elfs: bool,
    pub debugging_features: bool,
    pub builtins: Vec<Builtin>,
}

/// A builtin of this address, name and code: it is there from the first slot, and
/// its account is as long as its name.
pub open spec fn is_builtin(
    builtin: Builtin,
    program_id: Seq<u8>,
    name: Seq<char>,
    entrypoint: Entrypoint,
) -> bool {
    &&& builtin.program_id@ == program_id
    &&& builtin.name@ == name
    &&& builtin.deployment_slot == 0
    &&& builtin.account_size == name.len()
    &&& builtin.entrypoint == entrypoint
}

/// The processor for a slot, which is its epoch too, with these features and this
/// budget: the system program and both loaders of compiled programs are built in.
pub open spec fn is_batch_processor(
    processor: BatchProcessor,
    all_features_enabled: bool,
    compute_budget: Setting,
    slot: u64,
) -> bool {
    &&& processor.slot == slot
    &&& processor.epoch == slot
    &&& processor.all_features_enabled == all_features_enabled
    &&& processor.compute_budget == compute_budget
    &&& !processor.reject_deployment_of_broken_elfs
    &&& !processor.debugging_features
    &&& processor.builtins@.len() == 3
    &&& is_builtin(
        processor.builtins@[0],
        crate::ids::zeros32(),
        "system_program"@,
        Entrypoint::System,
    )
    &&& is_builtin(
        processor.builtins@[1],
        loader_address(),
        "solana_bpf_loader_program"@,
        Entrypoint::BpfLoader,
    )
    &&& is_builtin(
        processor.builtins@[2],
        crate::block::deploy_tx::upgradeable_loader_address(),
        "solana_bpf_loader_upgradeable_program"@,
        Entrypoint::BpfLoader,
    )
}

/// The address of the loader, `BPFLoader2111111111111111111111111111111111`.
pub open spec fn loader_address() -> Seq<u8> {
    seq![
        2u8, 168u8, 246u8, 145u8, 78u8, 136u8, 161u8, 110u8,
        57u8, 90u8, 225u8, 40u8, 148u8, 143u8, 250u8, 105u8,
        86u8, 147u8, 55u8, 104u8, 24u8, 221u8, 71u8, 67u8,
        82u8, 33u8, 243u8, 198u8, 0u8, 0u8, 0u8, 0u8,
    ]
}

/// `solana_sdk_ids::system_program::id`, whose bytes are all zero.
#[verifier::external_body]
fn system_program() -> (r: Pubkey)
    ensures
        r@ == crate::ids::zeros32(),
{
    Pubkey(solana_sdk_ids::system_program::id().to_bytes())
}

/// `solana_sdk_ids::bpf_loader::id`, whose bytes are `loader_address`.
#[verifier::external_body]
fn loader() -> (r: Pubkey)
    ensures
        r@ == loader_address(),
{
    Pubkey(solana_sdk_ids::bpf_loader::id().to_bytes())
}

/// The fee of one signature in `solana_fee_structure::FeeStructure::default`,
/// which is 5000.
#[verifier::external_body]
fn default_lamports_per_signature() -> (r: u64)
    ensures
        r == 5000,
{
    solana_fee_structure::FeeStructure::default().lamports_per_signature
}

fn builtin(program_id: Pubkey, name: &str, entrypoint: Entrypoint) -> (r: Builtin)
    requires
        name.is_ascii(),
    ensures
        is_builtin(r, program_id@, name@, entrypoint),
{
    broadcast use vstd::string::is_ascii_spec_bytes;

    Builtin {
        program_id,
        name: name.to_owned(),
        deployment_slot: 0,
        account_size: name.as_bytes().len(),
        entrypoint,
    }
}

/// Plans the processor for a slot, with these features and this budget.
pub fn create_transaction_batch_processor(
    all_features_enabled: bool,
    compute_budget: Setting,
    slot: u64,
) -> (r: BatchProcessor)
    ensures
        is_batch_processor(r, all_features_enabled, compute_budget, slot),
        r.slot == slot,
        r.epoch == slot,
        r.all_features_enabled == all_features_enabled,
        r.compute_budget == compute_budget,
        !r.reject_deployment_of_broken_elfs,
        !r.debugging_features,
        r.builtins@.len() == 3,
        r.builtins@[0].program_id.0@ == Seq::new(32, |i: int| 0u8),
        r.builtins@[1].program_id.0@ == loader_address(),
        r.builtins@[2].program_id.0@ == crate::block::deploy_tx::upgradeable_loader_address(),
        r.builtins@[0].name@ == "system_program"@,
        r.builtins@[1].name@ == "solana_bpf_loader_program"@,
        r.builtins@[2].name@ == "solana_bpf_loader_upgradeable_program"@,
        forall|i: int|
            0 <= i < 3 ==> {
                &&& (#[trigger] r.builtins@[i]).deployment_slot == 0
                &&& r.builtins@[i].account_size == r.builtins@[i].name@.len()
                &&& (r.builtins@[i].entrypoint == Entrypoint::System) == (
                r.builtins@[i].program_id.0@ == Seq::new(32, |j: int| 0u8))
            },
{
    proof {
        reveal_strlit("system_program");
        reveal_strlit("solana_bpf_loader_program");
        reveal_strlit("solana_bpf_loader_upgradeable_program");
    }
    let mut builtins: Vec<Builtin> = Vec::new();
    builtins.push(builtin(system_program(), "system_program", Entrypoint::System));
    builtins.push(builtin(loader(), "solana_bpf_loader_program", Entrypoint::BpfLoader));
    builtins.push(
        builtin(
            upgradeable_loader(),
            "solana_bpf_loader_upgradeable_program",
            Entrypoint::BpfLoader,
        ),
    );
    assert(loader_address()[0] == 2u8);
    assert(crate::block::deploy_tx::upgradeable_loader_address()[0] == 2u8);
    assert(crate::ids::zeros32() =~= Seq::new(32, |i: int| 0u8));
    assert(Seq::new(32, |i: int| 0u8)[0] == 0u8);
    BatchProcessor {
        slot,
        epoch: slot,
        all_features_enabled,
        compute_budget,
        reject_deployment_of_broken_elfs: false,
        debugging_features: false,
        builtins,
    }
}

/// What the check of a transaction found: the account of its nonce, if it has
/// one, and the fee of one signature.
#[derive(Clone, Copy, Debug)]
pub struct CheckedTransactionDetails {
    pub nonce: Option<Pubkey>,
    pub lamports_per_signature: u64,
}

/// The results of checking `len` transactions, all of which pass: signatures are
/// verified elsewhere.
pub fn get_transaction_check_results(len: usize, lamports_per_signature: u64) -> (r: Vec<
    CheckedTransactionDetails,
>)
    ensures
        r@ == Seq::new(
            len as nat,
            |i: int| CheckedTransactionDetails { nonce: None, lamports_per_signature },
        ),
{
    let mut results: Vec<CheckedTransactionDetails> = Vec::new();
    let mut i: usize = 0;
    while i < len
        invariant
            i <= len,
            results@.len() == i,
            forall|j: int|
                0 <= j < i ==> #[trigger] results@[j] == (CheckedTransactionDetails {
                    nonce: None,
                    lamports_per_signature,
                }),
        decreases len - i,
    {
        results.push(CheckedTransactionDetails { nonce: None, lamports_per_signature });
        i = i + 1;
    }
    results
}

/// How a batch of transactions is to be executed: by which processor, in which
/// environment, with which configuration, and with which results of their check.
#[derive(Debug)]
pub struct ExecutionPlan {
    pub processor: BatchProcessor,
    pub environment: ProcessingEnvironment,
    pub config: ProcessingConfig,
    pub check_results: Vec<CheckedTransactionDetails>,
}

/// The environment in which transactions are executed.
#[derive(Debug)]
pub struct ProcessingEnvironment {
    pub blockhash: [u8; 32],
    pub epoch_total_stake: Setting,
    pub epoch_vote_accounts: Setting,
    pub all_features_enabled: bool,
    pub fee_structure: Setting,
    pub lamports_per_signature: u64,
    pub rent_collector: Setting,
}

/// With which configuration transactions are executed.
#[derive(Debug)]
pub struct ProcessingConfig {
    pub compute_budget: Setting,
    pub enable_log_recording: bool,
    pub enable_return_data_recording: bool,
    pub enable_cpi_recording: bool,
    /// Everything else that can be configured.
    pub other: Setting,
}

/// The environment of every batch: an empty blockhash, no stakes, all features, and
/// the default fees and rent.
pub open spec fn is_environment(environment: ProcessingEnvironment) -> bool {
    &&& environment.blockhash@ == crate::ids::zeros32()
    &&& environment.epoch_total_stake == Setting::LeftOut
    &&& environment.epoch_vote_accounts == Setting::LeftOut
    &&& environment.all_features_enabled
    &&& environment.fee_structure == Setting::AsDefault
    &&& environment.lamports_per_signature == 5000
    &&& environment.rent_collector == Setting::AsDefault
}

/// The configuration of every batch: the default budget, and logs and return data are
/// recorded, but not inner instructions.
pub open spec fn is_config(config: ProcessingConfig) -> bool {
    &&& config.compute_budget == Setting::AsDefault
    &&& config.enable_log_recording
    &&& config.enable_return_data_recording
    &&& !config.enable_cpi_recording
    &&& config.other == Setting::AsDefault
}

/// Plans the execution of `len` transactions in a slot.
pub fn execute_transactions(slot: u64, len: usize) -> (r: ExecutionPlan)
    ensures
        is_batch_processor(r.processor, true, Setting::AsDefault, slot),
        is_environment(r.environment),
        is_config(r.config),
        r.processor.slot == slot,
        r.processor.epoch == slot,
        r.processor.all_features_enabled,
        r.processor.compute_budget == Setting::AsDefault,
        r.environment.all_features_enabled,
        forall|i: int| 0 <= i < 32 ==> r.environment.blockhash@[i] == 0,
        r.environment.epoch_total_stake == Setting::LeftOut,
        r.environment.epoch_vote_accounts == Setting::LeftOut,
        r.environment.fee_structure == Setting::AsDefault,
        r.environment.lamports_per_signature == 5000,
        r.environment.rent_collector == Setting::AsDefault,
        r.config.compute_budget == Setting::AsDefault,
        r.config.enable_log_recording,
        r.config.enable_return_data_recording,
        !r.config.enable_cpi_recording,
        r.config.other == Setting::AsDefault,
        r.check_results@ == Seq::new(
            len as nat,
            |i: int| CheckedTransactionDetails { nonce: None, lamports_per_signature: 5000 },
        ),
{
    let compute_budget = Setting::AsDefault;
    let all_features_enabled = true;
    let lamports_per_signature: u64 = default_lamports_per_signature();
    ExecutionPlan {
        processor: create_transaction_batch_processor(all_features_enabled, compute_budget, slot),
        environment: ProcessingEnvironment {
            blockhash: Id::empty().0,
            epoch_total_stake: Setting::LeftOut,
            epoch_vote_accounts: Setting::LeftOut,
            all_features_enabled,
            fee_structure: Setting::AsDefault,
            lamports_per_signature,
            rent_collector: Setting::AsDefault,
        },
        config: ProcessingConfig {
            compute_budget,
            enable_log_recording: true,
            enable_return_data_recording: true,
            enable_cpi_recording: false,
            other: Setting::AsDefault,
        },
        check_results: get_transaction_check_results(len, lamports_per_signature),
    }
}

/// Every builtin is run by its own code: only the system program, whose address is all
/// zeros, is run by the system program's code, and both loaders are run by the code of
/// the loader. No two builtins have one address or one name, each is there from the
/// first slot, and the account of each is as long as its name.
pub proof fn builtins_are_run_by_their_own_code(
    processor: BatchProcessor,
    all_features_enabled: bool,
    compute_budget: Setting,
    slot: u64,
    i: int,
    j: int,
)
    requires
        is_batch_processor(processor, all_features_enabled, compute_budget, slot),
        0 <= i < processor.builtins@.len(),
        0 <= j < processor.builtins@.len(),
    ensures
        ({
            let (a, b) = (processor.builtins@[i], processor.builtins@[j]);
            let system = forall|k: int| 0 <= k < 32 ==> #[trigger] a.program_id.0@[k] == 0;
            &&& (a.entrypoint == Entrypoint::System) <==> system
            &&& (a.entrypoint == Entrypoint::BpfLoader) <==> !system
            &&& i != j ==> a.program_id.0@ != b.program_id.0@
            &&& i != j ==> a.name@ != b.name@
            &&& a.deployment_slot == 0
            &&& a.account_size == a.name@.len()
        }),
{
    reveal_strlit("system_program");
    reveal_strlit("solana_bpf_loader_program");
    reveal_strlit("solana_bpf_loader_upgradeable_program");
    assert(loader_address()[0] == 2u8);
    assert(loader_address()[7] == 110u8);
    assert(crate::block::deploy_tx::upgradeable_loader_address()[0] == 2u8);
    assert(crate::block::deploy_tx::upgradeable_loader_address()[7] == 176u8);
    let a = processor.builtins@[i];
    assert(a.program_id.0@.len() == 32);
    assert(i == 0 || i == 1 || i == 2);
    assert(j == 0 || j == 1 || j == 2);
    if i != 0 {
        assert(a.program_id.0@[0] == 2u8);
    }
}

/// The owner of a deployed program is a builtin of every processor, and the loader's
/// code runs it: so does it run the programs that are deployed. What is not deployed
/// is owned by the system program.
pub proof fn deployed_programs_are_run_by_the_loader(
    processor: BatchProcessor,
    all_features_enabled: bool,
    compute_budget: Setting,
    slot: u64,
    data_address: Seq<u8>,
)
    requires
        is_batch_processor(processor, all_features_enabled, compute_budget, slot),
    ensures
        exists|i: int|
            0 <= i < processor.builtins@.len() && (#[trigger] processor.builtins@[i]).program_id@
                == crate::block::deploy_tx::program_account(data_address).owner
                && processor.builtins@[i].entrypoint == Entrypoint::BpfLoader,
        exists|i: int|
            0 <= i < processor.builtins@.len() && (#[trigger] processor.builtins@[i]).program_id@
                == crate::account::blank_account().owner && processor.builtins@[i].entrypoint
                == Entrypoint::System,
{
    assert(processor.builtins@[2].program_id@ == crate::block::deploy_tx::program_account(
        data_address,
    ).owner);
    assert(processor.builtins@[0].program_id@ == crate::account::blank_account().owner);
}

/// A processor is the one that was asked for: two that satisfy the same wish have the
/// same slot, which is their epoch, the same features and budget, and the same builtins
/// under the same addresses, in the same order.
pub proof fn processors_differ_by_what_was_asked(
    one: BatchProcessor,
    two: BatchProcessor,
    features_one: bool,
    features_two: bool,
    budget_one: Setting,
    budget_two: Setting,
    slot_one: u64,
    slot_two: u64,
    i: int,
)
    requires
        is_batch_processor(one, features_one, budget_one, slot_one),
        is_batch_processor(two, features_two, budget_two, slot_two),
        0 <= i < one.builtins@.len(),
    ensures
        one.slot == two.slot <==> slot_one == slot_two,
        one.slot == slot_one && one.epoch == one.slot,
        one.all_features_enabled == features_one,
        one.compute_budget == budget_one,
        !one.reject_deployment_of_broken_elfs && !one.debugging_features,
        one.builtins@.len() == 3 && two.builtins@.len() == 3,
        one.builtins@[i].program_id@ == two.builtins@[i].program_id@,
        one.builtins@[i].name@ == two.builtins@[i].name@,
        one.builtins@[i].entrypoint == two.builtins@[i].entrypoint,
{
    assert(i == 0 || i == 1 || i == 2);
}

/// Transactions run under the settings under which programs were loaded: the budget and
/// the features are the same in the processor, the environment and the configuration,
/// and the fee of a signature is that of the environment for every transaction. Nothing
/// is staked, and what is said and returned is recorded, but not who calls whom.
pub proof fn plans_agree_with_themselves(
    processor: BatchProcessor,
    environment: ProcessingEnvironment,
    config: ProcessingConfig,
    slot: u64,
)
    requires
        is_batch_processor(processor, true, Setting::AsDefault, slot),
        is_environment(environment),
        is_config(config),
    ensures
        processor.compute_budget == config.compute_budget,
        processor.all_features_enabled == environment.all_features_enabled,
        environment.all_features_enabled,
        config.compute_budget == Setting::AsDefault && config.other == Setting::AsDefault,
        environment.lamports_per_signature == 5000,
        environment.fee_structure == Setting::AsDefault,
        environment.rent_collector == Setting::AsDefault,
        environment.epoch_total_stake == Setting::LeftOut,
        environment.epoch_vote_accounts == Setting::LeftOut,
        forall|i: int| 0 <= i < 32 ==> #[trigger] environment.blockhash@[i] == 0,
        config.enable_log_recording && config.enable_return_data_recording,
        !config.enable_cpi_recording,
{
    assert forall|i: int| 0 <= i < 32 implies #[trigger] environment.blockhash@[i] == 0 by {
        assert(crate::ids::zeros32()[i] == 0);
    }
}

/// There is one first owner: where an owner is found, it is the account's owner, and it
/// is found at the place where the list of all addresses first has it; it is not found
/// exactly if the list does not have it.
pub proof fn the_first_owner_is_the_first(owners: Seq<Pubkey>, owner: Seq<u8>, at: Option<usize>)
    requires
        is_first_owner(owners, owner, at),
    ensures
        ({
            let addresses = Seq::new(owners.len(), |i: int| owners[i].0@);
            match at {
                Some(i) => addresses.index_of_first(owner) == Some(i as int),
                None => !addresses.contains(owner),
            }
        }),
{
    let addresses = Seq::new(owners.len(), |i: int| owners[i].0@);
    addresses.index_of_first_ensures(owner);
    match at {
        Some(i) => {
            assert(addresses[i as int] == owner);
            assert(addresses.contains(owner));
            let first = addresses.index_of_first(owner)->0;
            if first < i {
                assert(owners[first]@ != owner);
            }
        },
        None => {
            assert forall|i: int| 0 <= i < addresses.len() implies addresses[i] != owner by {
                assert(owners[i]@ != owner);
            }
        },
    }
}

/// A read gives the cached account where there is one, whatever the file holds, and
/// the file's account where there is none.
pub proof fn reads_prefer_the_cache(
    cached: Map<Seq<u8>, AccountView>,
    key: Seq<u8>,
    stored: AccountView,
)
    ensures
        cached.contains_key(key) ==> read_of(cached, key, Some(stored)) == cached[key],
        cached.contains_key(key) ==> read_of(cached, key, None) == cached[key],
        !cached.contains_key(key) ==> read_of(cached, key, Some(stored)) == stored,
{
}

} // verus!
