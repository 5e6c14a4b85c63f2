//! Deployment of programs.
use crate::account::{Account, AccountView, AccountWrite, WriteView};
use crate::ids::Pubkey;
use crate::processor::EscobarDB;
use vstd::prelude::*;
use vstd::slice::*;
use vstd::string::*;

verus! {

/// A transaction that deploys a program in a slot.
#[derive(Debug, PartialEq, Eq)]
pub struct DeployTx {
    pub program_data: Vec<u8>,
    pub deployment_slot: u64,
}

/// What a deployment holds.
#[verifier::ext_equal]
pub struct DeployTxView {
    pub program_data: Seq<u8>,
    pub deployment_slot: u64,
}

impl View for DeployTx {
    type V = DeployTxView;

    open spec fn view(&self) -> DeployTxView {
        DeployTxView { program_data: self.program_data@, deployment_slot: self.deployment_slot }
    }
}

impl Clone for DeployTx {
    fn clone(&self) -> (r: Self)
        ensures
            r@ == self@,
            r.program_data@ == self.program_data@,
            r.deployment_slot == self.deployment_slot,
    {
        DeployTx {
            program_data: slice_to_vec(self.program_data.as_slice()),
            deployment_slot: self.deployment_slot,
        }
    }
}

/// The deployments, in order.
pub open spec fn deployments_of(txs: Seq<DeployTx>) -> Seq<DeployTxView> {
    txs.map_values(|tx: DeployTx| tx@)
}

/// What an account of the loader says of itself.
#[derive(Debug)]
pub enum LoaderState {
    /// A program, and the address of the account that holds its code.
    Program { programdata_address: Pubkey },
    /// The code of a program: when it was deployed, and who may change it.
    ProgramData { slot: u64, upgrade_authority_address: Option<Pubkey> },
}

/// The bytes of a program's state: the number of the variant in four bytes, then
/// the address of its code.
pub open spec fn program_state_bytes(data_address: Seq<u8>) -> Seq<u8> {
    seq![2u8, 0u8, 0u8, 0u8] + data_address
}

/// The bytes of a code account's state: the number of the variant in four bytes,
/// the slot little-endian, then a byte that is zero, or a byte that is one and
/// the authority.
pub open spec fn program_data_state_bytes(slot: u64, authority: Option<Seq<u8>>) -> Seq<u8> {
    seq![3u8, 0u8, 0u8, 0u8] + vstd::bytes::spec_u64_to_le_bytes(slot) + match authority {
        Some(address) => seq![1u8] + address,
        None => seq![0u8],
    }
}

/// The bytes of a loader state.
pub open spec fn loader_state_bytes(state: LoaderState) -> Seq<u8> {
    match state {
        LoaderState::Program { programdata_address } => program_state_bytes(programdata_address@),
        LoaderState::ProgramData { slot, upgrade_authority_address } => program_data_state_bytes(
            slot,
            match upgrade_authority_address {
                Some(authority) => Some(authority@),
                None => None,
            },
        ),
    }
}

/// The address of the upgradeable loader,
/// `BPFLoaderUpgradeab1e11111111111111111111111`.
pub open spec fn upgradeable_loader_address() -> Seq<u8> {
    seq![
        2u8, 168u8, 246u8, 145u8, 78u8, 136u8, 161u8, 176u8,
        226u8, 16u8, 21u8, 62u8, 247u8, 99u8, 174u8, 43u8,
        0u8, 194u8, 185u8, 61u8, 22u8, 193u8, 36u8, 210u8,
        192u8, 83u8, 122u8, 16u8, 4u8, 128u8, 0u8, 0u8,
    ]
}

/// How long the metadata in front of a program's code is.
pub open spec fn metadata_len() -> nat {
    45
}

/// The SHA-256 digest of bytes.
pub uninterp spec fn sha256_digest(data: Seq<u8>) -> Seq<u8>;

/// The address that a program derives from one seed; none where the derived
/// bytes could be a public key.
pub uninterp spec fn derived_address(seed: Seq<u8>, program: Seq<u8>) -> Option<Seq<u8>>;

/// The longest input of which a SHA-256 digest can be taken, plus one: the
/// number of bits fits in 64 bits.
pub open spec fn digest_limit() -> nat {
    0x2000_0000_0000_0000
}

/// `avalanche_types::hash::sha256`. The digest depends on the data alone and has
/// 32 bytes. Data whose length in bits does not fit in 64 bits is not digested.
#[verifier::external_body]
fn sha256(data: &[u8]) -> (r: Vec<u8>)
    requires
        data@.len() < digest_limit(),
    ensures
        r@ == sha256_digest(data@),
        r@.len() == 32,
{
    avalanche_types::hash::sha256(data)
}

/// `solana_pubkey::Pubkey::create_program_address` with one seed. Whether there
/// is an address, and which, depends on the seed and the program alone.
#[verifier::external_body]
fn create_program_address(seed: &[u8], program: &Pubkey) -> (r: Option<Pubkey>)
    ensures
        (r is Some) == (derived_address(seed@, program@) is Some),
        r matches Some(address) ==> derived_address(seed@, program@) == Some(address@),
{
    let program = solana_pubkey::Pubkey::from(program.0);
    solana_pubkey::Pubkey::create_program_address(&[seed], &program)
        .ok()
        .map(|address| Pubkey(address.to_bytes()))
}

/// `bincode::serialize` of a
/// `solana_loader_v3_interface::state::UpgradeableLoaderState`. The variant is
/// written as its place in the enum, in four bytes; numbers are little-endian;
/// an option is a byte that is zero or one, then the value; an address is its 32
/// bytes.
#[verifier::external_body]
fn serialize_state(state: &LoaderState) -> (r: Vec<u8>)
    ensures
        r@ == loader_state_bytes(*state),
{
    let state = match state {
        LoaderState::Program { programdata_address } => {
            solana_loader_v3_interface::state::UpgradeableLoaderState::Program {
                programdata_address: solana_pubkey::Pubkey::from(programdata_address.0),
            }
        },
        LoaderState::ProgramData { slot, upgrade_authority_address } => {
            solana_loader_v3_interface::state::UpgradeableLoaderState::ProgramData {
                slot: *slot,
                upgrade_authority_address: upgrade_authority_address
                    .map(|authority| solana_pubkey::Pubkey::from(authority.0)),
            }
        },
    };
    bincode::serialize(&state).unwrap()
}

/// `UpgradeableLoaderState::size_of_programdata_metadata`, which is 45.
#[verifier::external_body]
fn programdata_metadata_len() -> (r: usize)
    ensures
        r == metadata_len(),
{
    solana_loader_v3_interface::state::UpgradeableLoaderState::size_of_programdata_metadata()
}

/// `solana_sdk_ids::bpf_loader_upgradeable::id`, whose bytes are
/// `upgradeable_loader_address`.
#[verifier::external_body]
pub(crate) fn upgradeable_loader() -> (r: Pubkey)
    ensures
        r@ == upgradeable_loader_address(),
{
    Pubkey(solana_sdk_ids::bpf_loader_upgradeable::id().to_bytes())
}

/// The seed of a program's address.
pub open spec fn program_seed() -> Seq<u8> {
    vstd::utf8::encode_utf8("program"@)
}

/// The seed of the address of a program's code.
pub open spec fn program_data_seed() -> Seq<u8> {
    vstd::utf8::encode_utf8("program_data"@)
}

/// The address of the program with this code, if it has one.
pub open spec fn program_address(code: Seq<u8>) -> Option<Seq<u8>> {
    derived_address(program_seed(), sha256_digest(code))
}

/// The address of the account that holds a program's code, if it has one.
pub open spec fn program_data_address(program: Seq<u8>) -> Option<Seq<u8>> {
    derived_address(program_data_seed(), program)
}

/// The account of a program whose code is at `data_address`.
pub open spec fn program_account(data_address: Seq<u8>) -> AccountView {
    AccountView {
        lamports: 25,
        data: program_state_bytes(data_address),
        owner: upgradeable_loader_address(),
        ..crate::account::blank_account()
    }
}

/// The metadata in front of a program's code, filled up with zeros.
pub open spec fn programdata_header(slot: u64) -> Seq<u8> {
    let state = program_data_state_bytes(slot, None);
    state + Seq::new((metadata_len() - state.len()) as nat, |i: int| 0u8)
}

/// The account that holds a program's code.
pub open spec fn program_data_account(tx: DeployTxView) -> AccountView {
    AccountView {
        data: programdata_header(tx.deployment_slot) + tx.program_data,
        ..crate::account::blank_account()
    }
}

impl DeployTx {
    /// Makes the deployment of a program in a slot.
    pub fn new(program_data: Vec<u8>, deployment_slot: u64) -> (r: Self)
        ensures
            r.program_data == program_data,
            r.deployment_slot == deployment_slot,
    {
        DeployTx { program_data, deployment_slot }
    }

    /// The address of the program: what its code's digest derives from the seed
    /// `program`.
    pub fn get_prog_pubkey(&self) -> (r: Pubkey)
        requires
            self@.program_data.len() < digest_limit(),
            program_address(self@.program_data) is Some,
        ensures
            Some(r@) == program_address(self@.program_data),
            Some(r.0@) == derived_address(
                vstd::utf8::encode_utf8("program"@),
                sha256_digest(self.program_data@),
            ),
    {
        let hash = sha256(self.program_data.as_slice());
        let pubkey = Pubkey::from_vec(&hash).unwrap();
        create_program_address("program".as_bytes(), &pubkey).unwrap()
    }

    /// The address of the program, if it has one.
    pub fn try_prog_pubkey(&self) -> (r: Option<Pubkey>)
        ensures
            (r is Some) == (self@.program_data.len() < digest_limit() && program_address(
                self@.program_data,
            ) is Some),
            r matches Some(address) ==> program_address(self@.program_data) == Some(address@),
            match r {
                Some(address) => Some(address.0@) == derived_address(
                    vstd::utf8::encode_utf8("program"@),
                    sha256_digest(self.program_data@),
                ),
                None => self.program_data@.len() >= 0x2000_0000_0000_0000 || derived_address(
                    vstd::utf8::encode_utf8("program"@),
                    sha256_digest(self.program_data@),
                ) is None,
            },
    {
        if self.program_data.len() as u64 >= 0x2000_0000_0000_0000 {
            return None;
        }
        let hash = sha256(self.program_data.as_slice());
        let pubkey = Pubkey::from_vec(&hash).unwrap();
        if create_program_address("program".as_bytes(), &pubkey).is_none() {
            return None;
        }
        Some(self.get_prog_pubkey())
    }

    /// The two accounts of the deployment can be addressed.
    pub fn is_deployable(&self) -> (r: bool)
        ensures
            r == deployable(self@),
            r == ({
                let program = derived_address(
                    vstd::utf8::encode_utf8("program"@),
                    sha256_digest(self.program_data@),
                );
                &&& self.program_data@.len() < 0x2000_0000_0000_0000
                &&& program is Some
                &&& derived_address(vstd::utf8::encode_utf8("program_data"@), program->0) is Some
            }),
    {
        match self.try_prog_pubkey() {
            Some(program) => create_program_address("program_data".as_bytes(), &program).is_some(),
            None => false,
        }
    }
}

/// Makes the account of a program whose code is at `data_address`.
pub fn make_program_account(data_address: &Pubkey) -> (r: Account)
    ensures
        r@ == program_account(data_address@),
        r.lamports == 25,
        r.data@ == seq![2u8, 0u8, 0u8, 0u8] + data_address.0@,
        r.owner.0@ == upgradeable_loader_address(),
        !r.executable,
        r.rent_epoch == 0,
{
    let mut account = Account::default();
    account.data = serialize_state(&LoaderState::Program { programdata_address: *data_address });
    account.lamports = 25;
    account.owner = upgradeable_loader();
    account
}

/// Makes the account that holds a program's code.
pub fn make_program_data_account(tx: &DeployTx) -> (r: Account)
    ensures
        r@ == program_data_account(tx@),
        r.lamports == 0,
        r.data@.len() == 45 + tx.program_data@.len(),
        r.data@.subrange(0, 4) == seq![3u8, 0u8, 0u8, 0u8],
        r.data@.subrange(4, 12) == vstd::bytes::spec_u64_to_le_bytes(tx.deployment_slot),
        forall|i: int| 12 <= i < 45 ==> r.data@[i] == 0,
        r.data@.skip(45) == tx.program_data@,
        forall|i: int| 0 <= i < 32 ==> r.owner.0@[i] == 0,
        !r.executable,
        r.rent_epoch == 0,
{
    let mut header = serialize_state(
        &LoaderState::ProgramData { slot: tx.deployment_slot, upgrade_authority_address: None },
    );
    let len: usize = header.len();
    let mut complement: Vec<u8> = vec![0u8; programdata_metadata_len().saturating_sub(len)];
    proof {
        vstd::bytes::lemma_auto_spec_u64_to_from_le_bytes();
        assert(header@ + complement@ =~= programdata_header(tx.deployment_slot));
    }
    header.append(&mut complement);
    let mut code = slice_to_vec(tx.program_data.as_slice());
    header.append(&mut code);
    let mut account = Account::default();
    account.data = header;
    proof {
        let data = account.data@;
        assert(data.subrange(0, 4) =~= seq![3u8, 0u8, 0u8, 0u8]);
        assert(data.subrange(4, 12) =~= vstd::bytes::spec_u64_to_le_bytes(tx.deployment_slot));
        assert(data.skip(45) =~= tx.program_data@);
    }
    account
}

/// The two accounts of a deployment can be addressed.
pub open spec fn deployable(tx: DeployTxView) -> bool {
    &&& tx.program_data.len() < digest_limit()
    &&& program_address(tx.program_data) is Some
    &&& program_data_address(program_address(tx.program_data)->0) is Some
}

/// The writes that deploy a program at an address, with its code at another.
pub open spec fn program_writes(
    tx: DeployTxView,
    program: Seq<u8>,
    program_data: Seq<u8>,
) -> Seq<WriteView> {
    seq![
        WriteView { key: program, account: program_account(program_data) },
        WriteView { key: program_data, account: program_data_account(tx) },
    ]
}

/// The writes that deploy a program.
pub open spec fn deploy_writes(tx: DeployTxView) -> Seq<WriteView> {
    let program = program_address(tx.program_data)->0;
    program_writes(tx, program, program_data_address(program)->0)
}

/// The writes that deploy programs, in order.
pub open spec fn all_deploy_writes(txs: Seq<DeployTxView>) -> Seq<WriteView>
    decreases txs.len(),
{
    if txs.len() == 0 {
        Seq::empty()
    } else {
        all_deploy_writes(txs.drop_last()) + deploy_writes(txs.last())
    }
}

/// Makes the writes that deploy a program at an address, with its code at another.
pub fn make_program_writes(tx: &DeployTx, program: &Pubkey, program_data: &Pubkey) -> (r: Vec<
    AccountWrite,
>)
    ensures
        crate::account::writes_of(r@) == program_writes(tx@, program@, program_data@),
        r@.len() == 2,
        r@[0].key.0@ == program.0@,
        r@[0].account.data@ == seq![2u8, 0u8, 0u8, 0u8] + program_data.0@,
        r@[1].key.0@ == program_data.0@,
        r@[1].account.data@.skip(45) == tx.program_data@,
{
    let mut writes: Vec<AccountWrite> = Vec::new();
    writes.push(AccountWrite { key: *program, account: make_program_account(program_data) });
    writes.push(AccountWrite { key: *program_data, account: make_program_data_account(tx) });
    assert(crate::account::writes_of(writes@) =~= program_writes(
        tx@,
        program@,
        program_data@,
    ));
    writes
}

impl DeployTx {
    /// The writes that deploy the program: its account, then that of its code.
    pub fn writes(&self) -> (r: Vec<AccountWrite>)
        requires
            deployable(self@),
        ensures
            crate::account::writes_of(r@) == deploy_writes(self@),
            r@.len() == 2,
            Some(r@[0].key.0@) == derived_address(
                vstd::utf8::encode_utf8("program"@),
                sha256_digest(self.program_data@),
            ),
            Some(r@[1].key.0@) == derived_address(
                vstd::utf8::encode_utf8("program_data"@),
                r@[0].key.0@,
            ),
            r@[0].account.data@ == seq![2u8, 0u8, 0u8, 0u8] + r@[1].key.0@,
            r@[1].account.data@.skip(45) == self.program_data@,
    {
        let program = self.get_prog_pubkey();
        let program_data = create_program_address("program_data".as_bytes(), &program).unwrap();
        make_program_writes(self, &program, &program_data)
    }
}

/// Deploys programs, in order: for each, the account of the program and then
/// that of its code. The database takes the accounts in; the writes that are
/// owed to its file are handed back.
pub fn deploy_program(deploy_txs: &[DeployTx], db: &mut EscobarDB) -> (r: Vec<AccountWrite>)
    requires
        old(db).wf(),
        forall|i: int| 0 <= i < deploy_txs@.len() ==> deployable((#[trigger] deploy_txs@[i])@),
    ensures
        final(db).wf(),
        final(db).file() == old(db).file(),
        crate::account::writes_of(r@) == all_deploy_writes(deployments_of(deploy_txs@)),
        final(db)@ == crate::account::written(
            old(db)@,
            all_deploy_writes(deployments_of(deploy_txs@)),
        ),
        final(db)@ == crate::account::written(old(db)@, crate::account::writes_of(r@)),
        r@.len() == 2 * deploy_txs@.len(),
        forall|j: int|
            0 <= j < deploy_txs@.len() ==> {
                let tx = #[trigger] deploy_txs@[j];
                &&& Some(r@[2 * j].key.0@) == derived_address(
                    vstd::utf8::encode_utf8("program"@),
                    sha256_digest(tx.program_data@),
                )
                &&& Some(r@[2 * j + 1].key.0@) == derived_address(
                    vstd::utf8::encode_utf8("program_data"@),
                    r@[2 * j].key.0@,
                )
                &&& r@[2 * j].account.data@ == seq![2u8, 0u8, 0u8, 0u8] + r@[2 * j
                    + 1].key.0@
                &&& r@[2 * j + 1].account.data@.skip(45) == tx.program_data@
            },
{
    let mut writes: Vec<AccountWrite> = Vec::new();
    let mut i: usize = 0;
    let ghost all = deployments_of(deploy_txs@);
    assert(all.take(0) =~= Seq::empty());
    assert(crate::account::writes_of(writes@) =~= Seq::empty());
    while i < deploy_txs.len()
        invariant
            i <= deploy_txs@.len(),
            all == deployments_of(deploy_txs@),
            forall|j: int| 0 <= j < deploy_txs@.len() ==> deployable((#[trigger] deploy_txs@[j])@),
            db.wf(),
            db.file() == old(db).file(),
            crate::account::writes_of(writes@) == all_deploy_writes(all.take(i as int)),
            writes@.len() == 2 * i,
            forall|j: int|
                0 <= j < i ==> {
                    let tx = #[trigger] deploy_txs@[j];
                    &&& Some(writes@[2 * j].key.0@) == derived_address(
                        vstd::utf8::encode_utf8("program"@),
                        sha256_digest(tx.program_data@),
                    )
                    &&& Some(writes@[2 * j + 1].key.0@) == derived_address(
                        vstd::utf8::encode_utf8("program_data"@),
                        writes@[2 * j].key.0@,
                    )
                    &&& writes@[2 * j].account.data@ == seq![2u8, 0u8, 0u8, 0u8] + writes@[2 * j
                        + 1].key.0@
                    &&& writes@[2 * j + 1].account.data@.skip(45) == tx.program_data@
                },
            db@ == crate::account::written(old(db)@, all_deploy_writes(all.take(i as int))),
        decreases deploy_txs@.len() - i,
    {
        let tx = &deploy_txs[i];
        let mut pair = tx.writes();
        db.write_batch(&pair);
        proof {
            assert(all.take(i + 1).drop_last() =~= all.take(i as int));
            assert(all.take(i + 1).last() == tx@);
            assert(crate::account::writes_of(pair@) == deploy_writes(tx@));
            assert(crate::account::writes_of(writes@ + pair@) =~= crate::account::writes_of(
                writes@,
            ) + crate::account::writes_of(pair@));
            crate::account::written_in_parts(
                old(db)@,
                all_deploy_writes(all.take(i as int)),
                deploy_writes(tx@),
            );
        }
        let ghost before = writes@;
        let ghost added = pair@;
        writes.append(&mut pair);
        proof {
            assert(writes@[2 * i as int] == added[0]);
            assert(writes@[2 * i + 1] == added[1]);
            assert forall|j: int| 0 <= j < i implies #[trigger] before[2 * j] == writes@[2 * j]
                && before[2 * j + 1] == writes@[2 * j + 1] by {}
        }
        i = i + 1;
    }
    assert(all.take(i as int) =~= all);
    writes
}

/// Deploys programs if every one of them can be addressed; otherwise does nothing.
pub fn try_deploy_program(deploy_txs: &[DeployTx], db: &mut EscobarDB) -> (r: Option<
    Vec<AccountWrite>,
>)
    requires
        old(db).wf(),
    ensures
        final(db).wf(),
        final(db).file() == old(db).file(),
        (r is Some) == (forall|i: int|
            0 <= i < deploy_txs@.len() ==> deployable((#[trigger] deploy_txs@[i])@)),
        r matches Some(writes) ==> crate::account::writes_of(writes@) == all_deploy_writes(
            deployments_of(deploy_txs@),
        ) && final(db)@ == crate::account::written(
            old(db)@,
            all_deploy_writes(deployments_of(deploy_txs@)),
        ),
        r is None ==> final(db)@ == old(db)@,
        r matches Some(writes) ==> {
            &&& writes@.len() == 2 * deploy_txs@.len()
            &&& final(db)@ == crate::account::written(
                old(db)@,
                crate::account::writes_of(writes@),
            )
            &&& forall|j: int|
                0 <= j < deploy_txs@.len() ==> {
                    let tx = #[trigger] deploy_txs@[j];
                    &&& Some(writes@[2 * j].key.0@) == derived_address(
                        vstd::utf8::encode_utf8("program"@),
                        sha256_digest(tx.program_data@),
                    )
                    &&& Some(writes@[2 * j + 1].key.0@) == derived_address(
                        vstd::utf8::encode_utf8("program_data"@),
                        writes@[2 * j].key.0@,
                    )
                    &&& writes@[2 * j + 1].account.data@.skip(45) == tx.program_data@
                }
        },
{
    let mut i: usize = 0;
    while i < deploy_txs.len()
        invariant
            i <= deploy_txs@.len(),
            db.wf(),
            *db == *old(db),
            forall|j: int| 0 <= j < i ==> deployable((#[trigger] deploy_txs@[j])@),
        decreases deploy_txs@.len() - i,
    {
        if !deploy_txs[i].is_deployable() {
            return None;
        }
        i = i + 1;
    }
    Some(deploy_program(deploy_txs, db))
}

/// The code of a deployed program is what follows the metadata in its code account.
pub proof fn code_is_kept(tx: DeployTxView)
    ensures
        program_data_account(tx).data.len() == metadata_len() + tx.program_data.len(),
        program_data_account(tx).data.skip(metadata_len() as int) == tx.program_data,
{
    vstd::bytes::lemma_auto_spec_u64_to_from_le_bytes();
    assert(programdata_header(tx.deployment_slot).len() == metadata_len());
    assert(program_data_account(tx).data.skip(metadata_len() as int) =~= tx.program_data);
}

/// The slot of a deployment can be read back from the metadata of its code account.
pub proof fn slot_is_kept(tx: DeployTxView)
    ensures
        vstd::bytes::spec_u64_from_le_bytes(program_data_account(tx).data.subrange(4, 12))
            == tx.deployment_slot,
{
    vstd::bytes::lemma_auto_spec_u64_to_from_le_bytes();
    assert(program_data_account(tx).data.subrange(4, 12)
        =~= vstd::bytes::spec_u64_to_le_bytes(tx.deployment_slot));
}

/// The account of a program names the address of its code.
pub proof fn program_names_its_code(data_address: Seq<u8>)
    ensures
        program_account(data_address).data.skip(4) == data_address,
{
    assert(program_account(data_address).data.skip(4) =~= data_address);
}

/// A program's addresses depend on its code alone: two deployments of the same
/// code, in whatever slots, go to the same two accounts.
pub proof fn same_code_same_addresses(a: DeployTxView, b: DeployTxView)
    requires
        a.program_data == b.program_data,
    ensures
        deployable(a) == deployable(b),
        deploy_writes(a)[0].key == deploy_writes(b)[0].key,
        deploy_writes(a)[1].key == deploy_writes(b)[1].key,
{
}

/// Deployments in two parts come to the same writes as all of them in order.
pub proof fn deployed_in_parts(first: Seq<DeployTxView>, second: Seq<DeployTxView>)
    ensures
        all_deploy_writes(first + second) == all_deploy_writes(first) + all_deploy_writes(second),
    decreases second.len(),
{
    if second.len() == 0 {
        assert(first + second =~= first);
        assert(all_deploy_writes(first) + all_deploy_writes(second) =~= all_deploy_writes(first));
    } else {
        let init = second.drop_last();
        assert((first + second).drop_last() =~= first + init);
        assert((first + second).last() == second.last());
        deployed_in_parts(first, init);
        assert(all_deploy_writes(first + second) =~= all_deploy_writes(first) + all_deploy_writes(
            second,
        ));
    }
}

/// Deploying programs in two parts leaves the accounts that deploying all of them in
/// order leaves.
pub proof fn accounts_after_parts(
    accounts: Map<Seq<u8>, AccountView>,
    first: Seq<DeployTxView>,
    second: Seq<DeployTxView>,
)
    ensures
        crate::account::written(accounts, all_deploy_writes(first + second))
            == crate::account::written(
            crate::account::written(accounts, all_deploy_writes(first)),
            all_deploy_writes(second),
        ),
{
    deployed_in_parts(first, second);
    crate::account::written_in_parts(
        accounts,
        all_deploy_writes(first),
        all_deploy_writes(second),
    );
}

/// An address that is neither that of a deployed program nor that of its code keeps
/// its account.
pub proof fn undeployed_is_unchanged(
    accounts: Map<Seq<u8>, AccountView>,
    txs: Seq<DeployTxView>,
    key: Seq<u8>,
)
    requires
        forall|i: int|
            0 <= i < txs.len() ==> deploy_writes(#[trigger] txs[i])[0].key != key && deploy_writes(
                txs[i],
            )[1].key != key,
    ensures
        ({
            let after = crate::account::written(accounts, all_deploy_writes(txs));
            &&& after.contains_key(key) == accounts.contains_key(key)
            &&& accounts.contains_key(key) ==> after[key] == accounts[key]
        }),
    decreases txs.len(),
{
    if txs.len() > 0 {
        let init = txs.drop_last();
        let writes = deploy_writes(txs.last());
        assert forall|i: int| 0 <= i < init.len() implies deploy_writes(#[trigger] init[i])[0].key
            != key && deploy_writes(init[i])[1].key != key by {
            assert(init[i] == txs[i]);
        }
        undeployed_is_unchanged(accounts, init, key);
        crate::account::written_in_parts(accounts, all_deploy_writes(init), writes);
        assert(txs[txs.len() - 1] == txs.last());
        assert forall|i: int| 0 <= i < writes.len() implies (#[trigger] writes[i]).key != key by {
            assert(i == 0 || i == 1);
        }
        crate::account::unwritten_is_unchanged(
            crate::account::written(accounts, all_deploy_writes(init)),
            writes,
            key,
        );
    }
}

/// After a deployment the program's address reads as the program's account,
/// which names the code's address, and that one reads as the code, unless the
/// two addresses are one.
pub proof fn deployment_can_be_read(accounts: Map<Seq<u8>, AccountView>, tx: DeployTxView)
    requires
        deployable(tx),
        program_address(tx.program_data) != program_data_address(
            program_address(tx.program_data)->0,
        ),
    ensures
        ({
            let program = program_address(tx.program_data)->0;
            let program_data = program_data_address(program)->0;
            let after = crate::account::written(accounts, deploy_writes(tx));
            &&& after.contains_key(program)
            &&& after[program] == program_account(program_data)
            &&& after.contains_key(program_data)
            &&& after[program_data] == program_data_account(tx)
        }),
{
    let writes = deploy_writes(tx);
    assert(writes.len() == 2);
    crate::account::last_write_wins(accounts, writes, 0);
    crate::account::last_write_wins(accounts, writes, 1);
}

/// After deployments in order the address of each program reads as the program's
/// account, which names its code's address, also where the program is deployed again;
/// unless that address is the one of some code that is deployed with it or later.
pub proof fn deployed_program_can_be_read(
    accounts: Map<Seq<u8>, AccountView>,
    txs: Seq<DeployTxView>,
    at: int,
)
    requires
        0 <= at < txs.len(),
        forall|j: int|
            at <= j < txs.len() ==> deploy_writes(#[trigger] txs[j])[1].key != deploy_writes(
                txs[at],
            )[0].key,
    ensures
        ({
            let program = program_address(txs[at].program_data)->0;
            let after = crate::account::written(accounts, all_deploy_writes(txs));
            &&& after.contains_key(program)
            &&& after[program] == program_account(program_data_address(program)->0)
        }),
    decreases txs.len(),
{
    let init = txs.drop_last();
    let last = txs[txs.len() - 1];
    let writes = deploy_writes(last);
    let program = program_address(txs[at].program_data)->0;
    let before = crate::account::written(accounts, all_deploy_writes(init));
    crate::account::written_in_parts(accounts, all_deploy_writes(init), writes);
    assert(writes.len() == 2);
    assert(writes[1].key != program);
    if writes[0].key == program {
        crate::account::last_write_wins(before, writes, 0);
    } else {
        assert(init[at] == txs[at]);
        assert forall|j: int| at <= j < init.len() implies deploy_writes(#[trigger] init[j])[1].key
            != deploy_writes(init[at])[0].key by {
            assert(init[j] == txs[j]);
        }
        deployed_program_can_be_read(accounts, init, at);
        assert forall|i: int| 0 <= i < writes.len() implies (#[trigger] writes[i]).key
            != program by {
            assert(i == 0 || i == 1);
        }
        crate::account::unwritten_is_unchanged(before, writes, program);
    }
}

/// After deployments in order the address of a program's code reads as the account
/// of the last deployment that writes there, with its code and its slot.
pub proof fn deployed_code_can_be_read(
    accounts: Map<Seq<u8>, AccountView>,
    txs: Seq<DeployTxView>,
    at: int,
)
    requires
        0 <= at < txs.len(),
        forall|j: int|
            at < j < txs.len() ==> deploy_writes(#[trigger] txs[j])[0].key != deploy_writes(
                txs[at],
            )[1].key && deploy_writes(txs[j])[1].key != deploy_writes(txs[at])[1].key,
    ensures
        ({
            let program = program_address(txs[at].program_data)->0;
            let program_data = program_data_address(program)->0;
            let after = crate::account::written(accounts, all_deploy_writes(txs));
            &&& after.contains_key(program_data)
            &&& after[program_data] == program_data_account(txs[at])
        }),
    decreases txs.len(),
{
    let init = txs.drop_last();
    let last = txs[txs.len() - 1];
    let writes = deploy_writes(last);
    let program_data = deploy_writes(txs[at])[1].key;
    let before = crate::account::written(accounts, all_deploy_writes(init));
    crate::account::written_in_parts(accounts, all_deploy_writes(init), writes);
    assert(writes.len() == 2);
    if at == txs.len() - 1 {
        crate::account::last_write_wins(before, writes, 1);
    } else {
        assert(init[at] == txs[at]);
        assert forall|j: int| at < j < init.len() implies deploy_writes(#[trigger] init[j])[0].key
            != deploy_writes(init[at])[1].key && deploy_writes(init[j])[1].key != deploy_writes(
            init[at],
        )[1].key by {
            assert(init[j] == txs[j]);
        }
        deployed_code_can_be_read(accounts, init, at);
        assert forall|i: int| 0 <= i < writes.len() implies (#[trigger] writes[i]).key
            != program_data by {
            assert(i == 0 || i == 1);
        }
        crate::account::unwritten_is_unchanged(before, writes, program_data);
    }
}

/// A deployment is its code and its slot, and deployments are taken one by one, in
/// order.
pub proof fn deployments_are_what_they_hold(tx: DeployTx, txs: Seq<DeployTx>, at: int)
    requires
        0 <= at < txs.len(),
    ensures
        tx@.program_data == tx.program_data@,
        tx@.deployment_slot == tx.deployment_slot,
        deployments_of(txs).len() == txs.len(),
        deployments_of(txs)[at] == txs[at]@,
{
}

/// The program's address depends on the whole code: where the two digests tell the two
/// codes apart, and the derivation tells the two digests apart, different codes have
/// different addresses.
pub proof fn different_codes_have_different_addresses(code: Seq<u8>, other: Seq<u8>)
    requires
        code != other,
        sha256_digest(code) == sha256_digest(other) ==> code == other,
        ({
            let seed = vstd::utf8::encode_utf8("program"@);
            let (a, b) = (sha256_digest(code), sha256_digest(other));
            derived_address(seed, a) == derived_address(seed, b) && derived_address(seed, a) is Some
                ==> a == b
        }),
        program_address(code) is Some,
    ensures
        program_address(code) != program_address(other),
{
}

/// The code's address depends on the program's: where the derivation tells two programs
/// apart, their codes have different addresses. It has a seed of its own: where the
/// derivation tells the two seeds apart, the address of a program's code is not the
/// address that the seed of programs gives.
pub proof fn different_programs_have_different_code_addresses(program: Seq<u8>, other: Seq<u8>)
    requires
        program_data_address(program) is Some,
    ensures
        ({
            let seed = vstd::utf8::encode_utf8("program_data"@);
            (derived_address(seed, program) == derived_address(seed, other) ==> program == other)
                && program != other ==> program_data_address(program) != program_data_address(other)
        }),
        ({
            let code_seed = vstd::utf8::encode_utf8("program_data"@);
            let seed = vstd::utf8::encode_utf8("program"@);
            derived_address(code_seed, program) != derived_address(seed, program)
                ==> program_data_address(program) != derived_address(seed, program)
        }),
{
}

/// Deploying goes wrong exactly if an address is missing, or if the code is too long
/// for a digest; the slot has no part in it.
pub proof fn deployable_if_both_addresses_exist(tx: DeployTxView, slot: u64)
    ensures
        deployable(tx) == deployable(DeployTxView { deployment_slot: slot, ..tx }),
        deployable(tx) ==> program_address(tx.program_data) is Some,
        deployable(tx) ==> program_data_address(program_address(tx.program_data)->0) is Some,
        deployable(tx) ==> tx.program_data.len() < 0x2000_0000_0000_0000,
        tx.program_data.len() < 0x2000_0000_0000_0000 && program_address(tx.program_data) is Some
            && program_data_address(program_address(tx.program_data)->0) is Some ==> deployable(
            tx,
        ),
{
}

/// The account of a program holds a little money, belongs to the upgradeable loader and
/// is 36 bytes long: it says that it is a program, and where its code is. Accounts that
/// say the same name the same code.
pub proof fn program_account_is_the_loaders(data_address: Seq<u8>, other: Seq<u8>)
    requires
        data_address.len() == 32,
    ensures
        program_account(data_address).lamports == 25,
        program_account(data_address).owner == upgradeable_loader_address(),
        !program_account(data_address).executable,
        program_account(data_address).rent_epoch == 0,
        program_account(data_address).data.len() == 36,
        program_account(data_address).data.take(4) == seq![2u8, 0u8, 0u8, 0u8],
        program_account(data_address).data.skip(4) == data_address,
        program_account(data_address) == program_account(other) ==> data_address == other,
{
    program_names_its_code(data_address);
    program_names_its_code(other);
    assert(program_account(data_address).data.take(4) =~= seq![2u8, 0u8, 0u8, 0u8]);
}

/// The account of a program's code holds no money and belongs to nobody. It says that
/// it is code, when it was deployed, and that nobody may change it; the code follows
/// after 45 bytes. Accounts that say the same are of the same deployment.
pub proof fn code_account_is_code(tx: DeployTxView, other: DeployTxView)
    ensures
        program_data_account(tx).lamports == 0,
        program_data_account(tx).owner == Seq::new(32, |i: int| 0u8),
        !program_data_account(tx).executable,
        program_data_account(tx).rent_epoch == 0,
        program_data_account(tx).data.len() == 45 + tx.program_data.len(),
        program_data_account(tx).data.take(4) == seq![3u8, 0u8, 0u8, 0u8],
        vstd::bytes::spec_u64_from_le_bytes(program_data_account(tx).data.subrange(4, 12))
            == tx.deployment_slot,
        forall|i: int| 12 <= i < 45 ==> #[trigger] program_data_account(tx).data[i] == 0,
        program_data_account(tx).data.skip(45) == tx.program_data,
        program_data_account(tx) == program_data_account(other) ==> tx == other,
{
    code_is_kept(tx);
    code_is_kept(other);
    slot_is_kept(tx);
    slot_is_kept(other);
    vstd::bytes::lemma_auto_spec_u64_to_from_le_bytes();
    assert(program_data_account(tx).data.take(4) =~= seq![3u8, 0u8, 0u8, 0u8]);
    assert(crate::account::blank_account().owner =~= Seq::new(32, |i: int| 0u8));
    if program_data_account(tx) == program_data_account(other) {
        assert(tx =~= other);
    }
}

/// A deployment makes two writes: the program's account at the program's address, which
/// names the second, and the code's account at the code's address.
pub proof fn a_deployment_is_two_writes(tx: DeployTxView)
    ensures
        deploy_writes(tx).len() == 2,
        deploy_writes(tx)[0].key == program_address(tx.program_data)->0,
        deploy_writes(tx)[1].key == program_data_address(deploy_writes(tx)[0].key)->0,
        deploy_writes(tx)[0].account.data.skip(4) == deploy_writes(tx)[1].key,
        deploy_writes(tx)[0].account == program_account(deploy_writes(tx)[1].key),
        deploy_writes(tx)[1].account == program_data_account(tx),
{
    program_names_its_code(deploy_writes(tx)[1].key);
}

proof fn lemma_two_writes_each(txs: Seq<DeployTxView>)
    ensures
        all_deploy_writes(txs).len() == 2 * txs.len(),
    decreases txs.len(),
{
    if txs.len() > 0 {
        lemma_two_writes_each(txs.drop_last());
        assert(deploy_writes(txs.last()).len() == 2);
    }
}

/// Every deployment makes its two writes, at its place.
pub proof fn writes_stand_in_order(txs: Seq<DeployTxView>, at: int)
    requires
        0 <= at < txs.len(),
    ensures
        all_deploy_writes(txs).len() == 2 * txs.len(),
        all_deploy_writes(txs)[2 * at] == deploy_writes(txs[at])[0],
        all_deploy_writes(txs)[2 * at + 1] == deploy_writes(txs[at])[1],
    decreases txs.len(),
{
    let init = txs.drop_last();
    let (before, pair) = (all_deploy_writes(init), deploy_writes(txs.last()));
    lemma_two_writes_each(txs);
    lemma_two_writes_each(init);
    assert(all_deploy_writes(txs) == before + pair);
    assert(before.len() == 2 * (txs.len() - 1));
    assert(pair.len() == 2);
    if at < txs.len() - 1 {
        writes_stand_in_order(init, at);
        assert(init[at] == txs[at]);
        assert((before + pair)[2 * at] == before[2 * at]);
        assert((before + pair)[2 * at + 1] == before[2 * at + 1]);
    } else {
        assert(txs.last() == txs[at]);
        assert((before + pair)[2 * at] == pair[0]);
        assert((before + pair)[2 * at + 1] == pair[1]);
    }
}

} // verus!
