use timestampvm::block::deploy_tx::{
    deploy_program, make_program_account, make_program_data_account, make_program_writes,
    try_deploy_program, DeployTx,
};
use timestampvm::ids::Pubkey;
use timestampvm::processor::EscobarDB;

const LOADER: &str = "BPFLoaderUpgradeab1e11111111111111111111111";

#[test]
fn test_deploy_tx() {
    let deploy_tx = DeployTx::new(vec![1, 2, 3], 0);
    println!("{:?}", deploy_tx.get_prog_pubkey());
    assert_eq!(
        deploy_tx.get_prog_pubkey().show(),
        "7oSzy2CS7qPX8h3JVuEocF5yMYvvA8jwXE61Twrh3Pzz"
    );
}

#[test]
fn new_keeps_code_and_slot() {
    let tx = DeployTx::new(vec![9, 8], 77);
    assert_eq!(tx.program_data, vec![9, 8]);
    assert_eq!(tx.deployment_slot, 77);
    assert_eq!(tx.clone(), tx);
}

#[test]
fn a_program_without_an_address_is_not_found() {
    let tx = DeployTx::new(vec![1], 0);
    assert!(tx.try_prog_pubkey().is_none());
    assert!(!tx.is_deployable());
    let tx = DeployTx::new(vec![1, 2, 3], 0);
    assert_eq!(tx.try_prog_pubkey().unwrap().0, tx.get_prog_pubkey().0);
    assert!(tx.is_deployable());
}

#[test]
fn a_program_whose_code_has_no_address_is_not_deployable() {
    let tx = DeployTx::new(vec![9], 0);
    assert!(tx.try_prog_pubkey().is_some());
    assert!(!tx.is_deployable());
}

#[test]
fn address_depends_on_code_alone() {
    let a = DeployTx::new(vec![1, 2, 3], 1);
    let b = DeployTx::new(vec![1, 2, 3], 2);
    let c = DeployTx::new(vec![], 1);
    assert_eq!(a.get_prog_pubkey().0, b.get_prog_pubkey().0);
    assert_ne!(a.get_prog_pubkey().0, c.get_prog_pubkey().0);
}

#[test]
fn program_account_names_its_code() {
    let data_address = Pubkey([7; 32]);
    let account = make_program_account(&data_address);
    let mut expected = vec![2, 0, 0, 0];
    expected.extend_from_slice(&[7; 32]);
    assert_eq!(account.data, expected);
    assert_eq!(account.lamports, 25);
    assert_eq!(account.owner.show(), LOADER);
    assert!(!account.executable);
    assert_eq!(account.rent_epoch, 0);
}

#[test]
fn program_data_account_holds_slot_and_code() {
    let account = make_program_data_account(&DeployTx::new(vec![1, 2, 3], 0x0102));
    assert_eq!(account.data.len(), 48);
    assert_eq!(&account.data[..13], &[3, 0, 0, 0, 2, 1, 0, 0, 0, 0, 0, 0, 0]);
    assert_eq!(&account.data[13..45], &[0; 32]);
    assert_eq!(&account.data[45..], &[1, 2, 3]);
    assert_eq!(account.lamports, 0);
    assert_eq!(account.owner.0, [0; 32]);
}

#[test]
fn writes_come_in_order() {
    let tx = DeployTx::new(vec![5], 3);
    let writes = make_program_writes(&tx, &Pubkey([1; 32]), &Pubkey([2; 32]));
    assert_eq!(writes.len(), 2);
    assert_eq!(writes[0].key.0, [1; 32]);
    assert_eq!(&writes[0].account.data[4..], &[2; 32]);
    assert_eq!(writes[1].key.0, [2; 32]);
    assert_eq!(&writes[1].account.data[45..], &[5]);
}

#[test]
fn deployed_programs_can_be_read() {
    let mut db = EscobarDB::new("/data".to_string());
    let txs = vec![DeployTx::new(vec![1, 2, 3], 4), DeployTx::new(vec![], 5)];
    let writes = deploy_program(&txs, &mut db);
    assert_eq!(writes.len(), 4);
    assert_eq!(
        writes[1].key.show(),
        "AdiHDtimVe5ALwhkJx55f93gLsXGfyjFupj34WzxmC7Y"
    );
    assert_eq!(
        writes[3].key.show(),
        "6M1emSh8iK3mJ4YmyKDFCa7F2hYndcRQ3Z1mhfXmAXFW"
    );
    let program = db.cached(&txs[0].get_prog_pubkey()).unwrap();
    assert_eq!(&program.data[4..], &writes[1].key.0);
    let code = db.cached(&writes[1].key).unwrap();
    assert_eq!(&code.data[45..], &[1, 2, 3]);
    assert_eq!(code.data[4], 4);
    let code = db.cached(&writes[3].key).unwrap();
    assert_eq!(code.data.len(), 45);
    assert_eq!(code.data[4], 5);
}

#[test]
fn redeployment_overwrites() {
    let mut db = EscobarDB::default();
    let txs = vec![
        DeployTx::new(vec![1, 2, 3], 4),
        DeployTx::new(vec![1, 2, 3], 9),
    ];
    let writes = deploy_program(&txs, &mut db);
    assert_eq!(writes[0].key.0, writes[2].key.0);
    assert_eq!(writes[1].key.0, writes[3].key.0);
    assert_eq!(db.cached(&writes[1].key).unwrap().data[4], 9);
}

#[test]
fn an_undeployable_program_stops_all() {
    let mut db = EscobarDB::default();
    let txs = vec![DeployTx::new(vec![1, 2, 3], 4), DeployTx::new(vec![1], 5)];
    assert!(try_deploy_program(&txs, &mut db).is_none());
    assert!(db.cached(&txs[0].get_prog_pubkey()).is_none());
    let writes = try_deploy_program(&txs[..1], &mut db).unwrap();
    assert_eq!(writes.len(), 2);
    assert!(db.cached(&writes[0].key).is_some());
}

#[test]
fn deploying_in_parts_is_deploying_all() {
    let txs = vec![
        DeployTx::new(vec![1, 2, 3], 4),
        DeployTx::new(vec![], 5),
        DeployTx::new(vec![1, 2, 3], 6),
    ];
    let mut all = EscobarDB::default();
    let writes = deploy_program(&txs, &mut all);
    let mut parts = EscobarDB::default();
    let mut pieces = deploy_program(&txs[..1], &mut parts);
    pieces.extend(deploy_program(&txs[1..], &mut parts));
    assert_eq!(writes.len(), pieces.len());
    for (a, b) in writes.iter().zip(&pieces) {
        assert_eq!(a.key.0, b.key.0);
        assert_eq!(a.account.data, b.account.data);
        let (x, y) = (all.cached(&a.key).unwrap(), parts.cached(&a.key).unwrap());
        assert_eq!(x.data, y.data);
    }
    assert_eq!(txs[1].writes()[0].key.0, writes[2].key.0);
}

#[test]
fn other_accounts_stay_as_they_are() {
    let mut db = EscobarDB::default();
    let mut account = make_program_account(&Pubkey([1; 32]));
    account.lamports = 77;
    db.write(Pubkey([3; 32]), account);
    deploy_program(&[DeployTx::new(vec![1, 2, 3], 4)], &mut db);
    assert_eq!(db.cached(&Pubkey([3; 32])).unwrap().lamports, 77);
    assert!(db.cached(&Pubkey([4; 32])).is_none());
}

#[test]
fn a_program_that_is_deployed_again_can_be_read() {
    let mut db = EscobarDB::default();
    let txs = vec![
        DeployTx::new(vec![1, 2, 3], 4),
        DeployTx::new(vec![], 5),
        DeployTx::new(vec![1, 2, 3], 6),
    ];
    let writes = deploy_program(&txs, &mut db);
    let program = db.cached(&txs[0].get_prog_pubkey()).unwrap();
    assert_eq!(program.lamports, 25);
    assert_eq!(&program.data[4..], &writes[1].key.0);
    let code = db.cached(&writes[1].key).unwrap();
    assert_eq!(code.data[4], 6);
    assert_eq!(&code.data[45..], &[1, 2, 3]);
    let code = db.cached(&writes[3].key).unwrap();
    assert_eq!(code.data[4], 5);
}
