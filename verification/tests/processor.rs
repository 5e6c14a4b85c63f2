use pickledb::{PickleDb, PickleDbDumpPolicy, SerializationMethod};
use solana_account::{AccountSharedData, ReadableAccount};
use timestampvm::account::{Account, AccountWrite};
use timestampvm::ids::Pubkey;
use timestampvm::processor::{
    create_transaction_batch_processor, execute_transactions, first_owner,
    get_transaction_check_results, BlockRelation, Entrypoint, EscobarDB, EscobarForkGraph, Setting,
};

fn sample() -> Account {
    Account {
        lamports: 1000,
        data: vec![1, 2, 3],
        owner: Pubkey([4; 32]),
        executable: true,
        rent_epoch: 1,
    }
}

fn shared(account: &Account) -> AccountSharedData {
    AccountSharedData::from(solana_account::Account {
        lamports: account.lamports,
        data: account.data.clone(),
        owner: solana_pubkey::Pubkey::from(account.owner.0),
        executable: account.executable,
        rent_epoch: account.rent_epoch,
    })
}

fn plain(account: &AccountSharedData) -> Account {
    Account {
        lamports: account.lamports(),
        data: account.data().to_vec(),
        owner: Pubkey(account.owner().to_bytes()),
        executable: account.executable(),
        rent_epoch: account.rent_epoch(),
    }
}

fn assert_same(a: &Account, b: &Account) {
    assert_eq!(a.lamports, b.lamports);
    assert_eq!(a.data, b.data);
    assert_eq!(a.owner.0, b.owner.0);
    assert_eq!(a.executable, b.executable);
    assert_eq!(a.rent_epoch, b.rent_epoch);
}

#[test]
fn test_serialize_and_deserialize_account_shared_data_to_db() {
    let mut db = EscobarDB::default();
    let account = sample();
    let key = Pubkey([9; 32]);
    let mut file = PickleDb::new(
        db.path(),
        PickleDbDumpPolicy::NeverDump,
        SerializationMethod::Json,
    );
    let storage_key = EscobarDB::storage_key(&key);
    file.set(&storage_key, &shared(&account)).unwrap();
    db.write(key, account.clone());
    let account2 = db.get(&key, None).unwrap();
    assert_same(&account, &account2);

    // read back through the file, with nothing cached
    let mut cold = EscobarDB::default();
    let stored: AccountSharedData = file.get(&storage_key).unwrap();
    let account3 = cold.get(&key, Some(plain(&stored))).unwrap();
    assert_same(&account, &account3);
}

#[test]
fn file_lies_in_the_data_directory() {
    assert_eq!(EscobarDB::new("/var/chain".to_string()).path(), "/var/chain/state.db");
    assert_eq!(EscobarDB::default().path(), "state.db");
}

#[test]
fn storage_key_is_base58() {
    let mut bytes = [0u8; 32];
    for i in 0..32 {
        bytes[i] = i as u8 + 1;
    }
    assert_eq!(
        EscobarDB::storage_key(&Pubkey(bytes)),
        "4wBqpZM9xaSheZzJSMawUKKwhdpChKbZ5eu5ky4Vigw"
    );
    assert_eq!(
        EscobarDB::storage_key(&Pubkey([0; 32])),
        "11111111111111111111111111111111"
    );
}

#[test]
fn a_write_replaces_and_leaves_others() {
    let mut db = EscobarDB::default();
    let a = Pubkey([1; 32]);
    let b = Pubkey([2; 32]);
    db.write(a, sample());
    let mut other = sample();
    other.lamports = 7;
    db.write(b, other);
    let mut newer = sample();
    newer.lamports = 8;
    db.write(a, newer);
    assert_eq!(db.cached(&a).unwrap().lamports, 8);
    assert_eq!(db.cached(&b).unwrap().lamports, 7);
    assert!(db.cached(&Pubkey([3; 32])).is_none());
}

#[test]
fn the_cache_wins_over_the_file() {
    let mut db = EscobarDB::default();
    let key = Pubkey([1; 32]);
    let mut stale = sample();
    stale.lamports = 3;
    db.write(key, sample());
    assert_eq!(db.get(&key, Some(stale)).unwrap().lamports, 1000);
}

#[test]
fn a_read_is_cached() {
    let mut db = EscobarDB::default();
    let key = Pubkey([1; 32]);
    assert_eq!(db.get_account_shared_data(&key, Some(sample())).unwrap().lamports, 1000);
    assert_eq!(db.get(&key, None).unwrap().lamports, 1000);
}

#[test]
fn in_a_batch_the_last_write_wins() {
    let mut db = EscobarDB::default();
    let key = Pubkey([1; 32]);
    let mut second = sample();
    second.lamports = 2;
    db.write_batch(&vec![
        AccountWrite { key, account: sample() },
        AccountWrite { key: Pubkey([2; 32]), account: sample() },
        AccountWrite { key, account: second },
    ]);
    assert_eq!(db.cached(&key).unwrap().lamports, 2);
    assert_eq!(db.cached(&Pubkey([2; 32])).unwrap().lamports, 1000);
}

#[test]
fn owners_are_matched_in_order() {
    let mut db = EscobarDB::default();
    let key = Pubkey([1; 32]);
    db.write(key, sample());
    let owners = vec![Pubkey([5; 32]), Pubkey([4; 32]), Pubkey([4; 32])];
    assert_eq!(db.account_matches_owners(&key, &owners, None), Some(1));
    assert_eq!(db.account_matches_owners(&key, &owners[..1], None), None);
    assert_eq!(first_owner(&Pubkey([5; 32]), &owners), Some(0));
    assert_eq!(first_owner(&Pubkey([6; 32]), &owners), None);
}

#[test]
fn blank_account_is_the_default_shared_one() {
    assert_same(&Account::default(), &plain(&AccountSharedData::default()));
}

#[test]
fn processor_has_three_builtins() {
    let processor = create_transaction_batch_processor(true, Setting::AsDefault, 12);
    assert_eq!(processor.slot, 12);
    assert_eq!(processor.epoch, 12);
    assert!(processor.all_features_enabled);
    assert_eq!(processor.compute_budget, Setting::AsDefault);
    assert!(!processor.reject_deployment_of_broken_elfs);
    assert!(!processor.debugging_features);
    let builtins = &processor.builtins;
    assert_eq!(builtins.len(), 3);
    assert_eq!(builtins[0].name, "system_program");
    assert_eq!(builtins[0].program_id.show(), "11111111111111111111111111111111");
    assert_eq!(builtins[0].account_size, 14);
    assert_eq!(builtins[0].entrypoint, Entrypoint::System);
    assert_eq!(builtins[1].name, "solana_bpf_loader_program");
    assert_eq!(
        builtins[1].program_id.show(),
        "BPFLoader2111111111111111111111111111111111"
    );
    assert_eq!(builtins[1].account_size, 25);
    assert_eq!(builtins[1].entrypoint, Entrypoint::BpfLoader);
    assert_eq!(builtins[2].name, "solana_bpf_loader_upgradeable_program");
    assert_eq!(
        builtins[2].program_id.show(),
        "BPFLoaderUpgradeab1e11111111111111111111111"
    );
    assert_eq!(builtins[2].account_size, 37);
    assert_eq!(builtins[2].deployment_slot, 0);
}

#[test]
fn all_transactions_pass_the_check() {
    let results = get_transaction_check_results(3, 42);
    assert_eq!(results.len(), 3);
    for result in results {
        assert!(result.nonce.is_none());
        assert_eq!(result.lamports_per_signature, 42);
    }
    assert!(get_transaction_check_results(0, 42).is_empty());
}

#[test]
fn a_processor_takes_its_features_and_budget() {
    let processor = create_transaction_batch_processor(false, Setting::LeftOut, 1);
    assert!(!processor.all_features_enabled);
    assert_eq!(processor.compute_budget, Setting::LeftOut);
}

#[test]
fn execution_records_logs_and_return_data() {
    let plan = execute_transactions(7, 2);
    assert_eq!(plan.processor.slot, 7);
    assert!(plan.processor.all_features_enabled);
    assert_eq!(plan.processor.compute_budget, Setting::AsDefault);
    assert!(plan.environment.all_features_enabled);
    assert_eq!(plan.environment.blockhash, [0; 32]);
    assert_eq!(plan.environment.lamports_per_signature, 5000);
    assert_eq!(plan.environment.epoch_total_stake, Setting::LeftOut);
    assert_eq!(plan.environment.epoch_vote_accounts, Setting::LeftOut);
    assert_eq!(plan.environment.fee_structure, Setting::AsDefault);
    assert_eq!(plan.environment.rent_collector, Setting::AsDefault);
    assert_eq!(plan.config.compute_budget, Setting::AsDefault);
    assert!(plan.config.enable_log_recording);
    assert!(plan.config.enable_return_data_recording);
    assert!(!plan.config.enable_cpi_recording);
    assert_eq!(plan.config.other, Setting::AsDefault);
    assert_eq!(plan.check_results.len(), 2);
    assert_eq!(plan.check_results[1].lamports_per_signature, 5000);
}

#[test]
fn no_relation_of_blocks_is_known() {
    let graph = EscobarForkGraph {};
    assert_eq!(graph.relationship(1, 1), BlockRelation::Unknown);
    assert_eq!(graph.relationship(1, 2), BlockRelation::Unknown);
}

#[test]
fn a_batch_leaves_cache_and_file_in_agreement() {
    let mut db = EscobarDB::default();
    let mut file = PickleDb::new(
        db.path(),
        PickleDbDumpPolicy::NeverDump,
        SerializationMethod::Json,
    );
    let mut second = sample();
    second.lamports = 2;
    let writes = vec![
        AccountWrite { key: Pubkey([1; 32]), account: sample() },
        AccountWrite { key: Pubkey([2; 32]), account: sample() },
        AccountWrite { key: Pubkey([1; 32]), account: second },
    ];
    for write in &writes {
        file.set(&EscobarDB::storage_key(&write.key), &shared(&write.account)).unwrap();
    }
    db.write_batch(&writes);
    for key in [Pubkey([1; 32]), Pubkey([2; 32])] {
        let stored: AccountSharedData = file.get(&EscobarDB::storage_key(&key)).unwrap();
        assert_same(&plain(&stored), &db.cached(&key).unwrap());
    }
}
