use timestampvm::account::Account;
use timestampvm::block::deploy_tx::DeployTx;
use timestampvm::block::{Block, Status};
use timestampvm::error::{Error, ErrorKind};
use timestampvm::ids::Id;
use timestampvm::state::{block_with_status_key, last_accepted_block_key, State};
use timestampvm::vm::api::LockOptions;
use timestampvm::vm::init::{InitAction, InitEvent};
use timestampvm::vm::{
    Context, InitPhase, Message, SnowState, Version, Vm, PROPOSE_LIMIT_BYTES, VERSION,
};

type TestVm = Vm<u8, &'static str>;

fn ready() -> TestVm {
    let mut vm = TestVm::new();
    vm.state.state = Some(State::default());
    vm.state.to_engine = true;
    vm.state.preferred = Id([6; 32]);
    vm
}

fn parent(height: u64) -> Block {
    Block {
        parent_id: Id::empty(),
        height,
        timestamp: 5,
        bytes: vec![1],
        id: Id([6; 32]),
        status: Status::Accepted,
    }
}

fn start(genesis: Result<Vec<u8>, Error>) -> InitEvent<u8> {
    InitEvent::Start {
        ctx: Some(Context { chain_data_dir: "/chain".to_string() }),
        genesis,
    }
}

fn begun() -> TestVm {
    let mut vm = TestVm::new();
    let action = vm.initialize(start(Ok(vec![1]))).unwrap();
    assert!(matches!(action, InitAction::WriteGenesis { data_dir } if data_dir == "/chain"));
    let action = vm
        .initialize(InitEvent::GenesisWritten { reply: Ok(()), app_sender: 3 })
        .unwrap();
    assert!(matches!(action, InitAction::AskLastAccepted));
    vm
}

#[test]
fn a_new_vm_is_empty() {
    let vm = TestVm::default();
    assert!(vm.state.ctx.is_none());
    assert_eq!(vm.state.version.major, 0);
    assert!(vm.state.genesis.is_empty());
    assert!(vm.state.state.is_none());
    assert_eq!(vm.state.preferred.0, [0; 32]);
    assert!(!vm.is_bootstrapped());
    assert!(vm.app_sender.is_none());
    assert!(vm.mempool.is_empty());
    assert!(vm.deploy_mempool.is_empty());
    assert_eq!(vm.notify_block_ready(), None);
}

#[test]
fn a_deployment_over_the_limit_is_refused() {
    let mut vm = ready();
    let d = DeployTx::new(vec![0; 1048586], 0);
    let e = vm.propose_block_with_deploy_program(&d).unwrap_err();
    assert_eq!(e.kind, ErrorKind::InvalidInput);
    assert_eq!(e.message, "data 1048586-byte exceeds the limit 1048576-byte");
    assert!(vm.deploy_mempool.is_empty());
    let d = DeployTx::new(vec![0; PROPOSE_LIMIT_BYTES], 0);
    assert_eq!(
        vm.propose_block_with_deploy_program(&d).unwrap(),
        Some(Message::PendingTxs)
    );
    assert_eq!(vm.deploy_mempool.len(), 1);
}

#[test]
fn proposals_wait_in_order() {
    let mut vm = TestVm::new();
    assert_eq!(vm.propose_block_with_multi_txs(vec!["a", "b"]).unwrap(), None);
    vm.state.to_engine = true;
    assert_eq!(
        vm.propose_block_with_multi_txs(vec!["c"]).unwrap(),
        Some(Message::PendingTxs)
    );
    assert_eq!(vm.mempool, vec!["a", "b", "c"]);
    vm.propose_block_with_deploy_program(&DeployTx::new(vec![1], 4)).unwrap();
    vm.propose_block_with_deploy_program(&DeployTx::new(vec![2], 5)).unwrap();
    assert_eq!(vm.deploy_mempool[0].deployment_slot, 4);
    assert_eq!(vm.deploy_mempool[1].program_data, vec![2]);
    assert_eq!(vm.mempool.len(), 3);
}

#[test]
fn only_normal_operation_is_bootstrapped() {
    let mut vm = TestVm::new();
    vm.set_state(SnowState::NormalOp).unwrap();
    assert!(vm.is_bootstrapped());
    let e = vm.set_state(SnowState::StateSyncing).unwrap_err();
    assert_eq!(e.kind, ErrorKind::Other);
    assert_eq!(e.message, "state sync is not supported");
    assert!(vm.is_bootstrapped());
    vm.set_state(SnowState::Bootstrapping).unwrap();
    assert!(!vm.is_bootstrapped());
    vm.set_state(SnowState::NormalOp).unwrap();
    vm.set_state(SnowState::Initializing).unwrap();
    assert!(!vm.is_bootstrapped());
}

#[test]
fn nothing_pending_builds_no_block() {
    let e = ready().build_block().unwrap_err();
    assert_eq!(e.kind, ErrorKind::Other);
    assert_eq!(e.message, "no pending txs in mempool");
    let e = TestVm::new().build_block().unwrap_err();
    assert_eq!(e.message, "no pending txs in mempool");
}

#[test]
fn without_a_state_no_block_is_built() {
    let mut vm = TestVm::new();
    vm.propose_block_with_multi_txs(vec!["a"]).unwrap();
    let e = vm.build_block().unwrap_err();
    assert_eq!(e.kind, ErrorKind::NotFound);
    assert_eq!(e.message, "state manager not found");
}

#[test]
fn a_block_takes_the_newest_of_each() {
    let mut vm = ready();
    vm.propose_block_with_multi_txs(vec!["a", "b"]).unwrap();
    vm.propose_block_with_deploy_program(&DeployTx::new(vec![1], 4)).unwrap();
    let request = vm.build_block().unwrap();
    assert_eq!(request.notify, Some(Message::PendingTxs));
    assert_eq!(request.parent.0, [6; 32]);
    let block = vm.build_on_parent(Ok(parent(9)), 77).unwrap();
    assert_eq!(block.parent_id.0, [6; 32]);
    assert_eq!(block.height, 10);
    assert_eq!(block.timestamp, 77);
    assert_eq!(block.txs, vec!["b"]);
    assert_eq!(block.deploy_txs.len(), 1);
    assert!(matches!(block.status, Status::Processing));
    assert_eq!(vm.mempool, vec!["a"]);
    assert!(vm.deploy_mempool.is_empty());
    assert!(vm.build_block().is_ok());
    let block = vm.build_on_parent(Ok(parent(10)), 78).unwrap();
    assert_eq!(block.txs, vec!["a"]);
    assert!(block.deploy_txs.is_empty());
    assert!(vm.build_block().is_err());
}

#[test]
fn without_a_parent_nothing_is_taken() {
    let mut vm = ready();
    vm.propose_block_with_multi_txs(vec!["a"]).unwrap();
    let e = vm
        .build_on_parent(Err(Error::new(ErrorKind::NotFound, "not found")), -1)
        .unwrap_err();
    assert_eq!(e.message, "not found");
    assert_eq!(vm.mempool.len(), 1);
}

#[test]
fn a_preference_is_kept() {
    let mut vm = ready();
    vm.set_preference(Id([8; 32]));
    assert_eq!(vm.state.preferred.0, [8; 32]);
}

#[test]
fn calls_need_a_state() {
    let vm = TestVm::new();
    let message = "state manager not found";
    assert_eq!(vm.last_accepted().unwrap_err().message, message);
    assert_eq!(vm.get_block(&Id::empty()).unwrap_err().message, message);
    assert_eq!(
        vm.get_account_from_state(Ok(Account::default())).unwrap_err().message,
        message
    );
    let e = vm.parse_block(Ok(parent(1))).unwrap_err();
    assert_eq!(e.message, message);
    assert_eq!(e.kind, ErrorKind::NotFound);

    let vm = ready();
    assert_eq!(vm.last_accepted().unwrap(), last_accepted_block_key());
    assert_eq!(
        vm.get_block(&Id([1; 32])).unwrap(),
        block_with_status_key(&Id([1; 32]))
    );
    assert!(vm.get_account_from_state(Ok(Account::default())).is_ok());
    let e = vm.get_account_from_state(Err(Error::new(ErrorKind::Other, "x")));
    assert_eq!(e.unwrap_err().message, "x");
}

#[test]
fn a_parsed_block_is_processing_unless_it_is_stored() {
    let vm = ready();
    let e = vm.parse_block(Err(Error::new(ErrorKind::Other, "bad"))).unwrap_err();
    assert_eq!(e.message, "bad");
    let block = vm.parse_block(Ok(parent(3))).unwrap();
    assert!(matches!(block.status, Status::Processing));
    assert_eq!(block.height, 3);
    let missing = Err(Error::new(ErrorKind::NotFound, "not found"));
    let block = TestVm::parsed_or_stored(block, missing);
    assert!(matches!(block.status, Status::Processing));
    let block = TestVm::parsed_or_stored(block, Ok(parent(3)));
    assert!(matches!(block.status, Status::Accepted));
}

#[test]
fn initialization_prefers_the_last_accepted_block() {
    let mut vm = begun();
    vm.propose_block_with_multi_txs(vec!["a"]).unwrap();
    vm.propose_block_with_deploy_program(&DeployTx::new(vec![1], 4)).unwrap();
    let action = vm.initialize(InitEvent::HasLastAccepted { reply: Ok(true) }).unwrap();
    assert!(matches!(action, InitAction::ReadLastAccepted));
    let action = vm
        .initialize(InitEvent::LastAccepted { reply: Ok(vec![7; 32]) })
        .unwrap();
    assert!(matches!(action, InitAction::Finished));
    assert_eq!(vm.state.preferred.0, [7; 32]);
    assert!(vm.mempool.is_empty());
    assert_eq!(vm.deploy_mempool.len(), 1);
    assert_eq!(vm.init, InitPhase::Ready);
    assert_eq!(vm.app_sender, Some(3));
    assert!(vm.state.to_engine);
    assert_eq!(vm.state.genesis, vec![1]);
    assert_eq!(vm.state.state.unwrap().data_dir.unwrap(), "/chain");
    assert_eq!(vm.state.version.minor, 1);
    assert_eq!(vm.state.version.major, 0);
    assert_eq!(vm.state.version.patch, 0);
    assert_eq!(vm.state.version.pre, "");
}

#[test]
fn initialization_accepts_the_genesis_block() {
    let mut vm = begun();
    let action = vm.initialize(InitEvent::HasLastAccepted { reply: Ok(false) }).unwrap();
    match action {
        InitAction::AcceptGenesis { block } => {
            assert_eq!(block.parent_id.0, [0; 32]);
            assert_eq!(block.height, 0);
            assert_eq!(block.timestamp, 0);
            assert!(block.txs.is_empty());
            assert!(block.deploy_txs.is_empty());
            assert!(matches!(block.status, Status::Unknown(s) if s == "default"));
        }
        other => panic!("{:?}", other),
    }
    vm.initialize(InitEvent::GenesisAccepted { reply: Ok(Id([2; 32])) }).unwrap();
    assert_eq!(vm.state.preferred.0, [2; 32]);
    assert_eq!(vm.init, InitPhase::Ready);
}

#[test]
fn initialization_ends_with_the_first_error() {
    let mut vm = TestVm::new();
    let e = vm
        .initialize(start(Err(Error::new(ErrorKind::InvalidData, "no genesis"))))
        .unwrap_err();
    assert_eq!(e.message, "no genesis");
    assert_eq!(vm.state.version.minor, 1);
    assert!(vm.state.genesis.is_empty());
    assert_eq!(vm.init, InitPhase::Idle);

    vm.initialize(start(Ok(vec![1]))).unwrap();
    let full = Error::new(ErrorKind::Other, "disk full");
    let e = vm
        .initialize(InitEvent::GenesisWritten { reply: Err(full), app_sender: 1 })
        .unwrap_err();
    assert_eq!(e.message, "disk full");
    assert!(vm.state.state.is_none());
    assert!(vm.app_sender.is_none());

    let mut vm = begun();
    let e = vm
        .initialize(InitEvent::HasLastAccepted { reply: Err("io".to_string()) })
        .unwrap_err();
    assert_eq!(e.message, "failed to load last accepted block io");

    let mut vm = begun();
    vm.initialize(InitEvent::HasLastAccepted { reply: Ok(true) }).unwrap();
    let closed = Error::new(ErrorKind::Other, "database closed");
    let e = vm.initialize(InitEvent::LastAccepted { reply: Err(closed) }).unwrap_err();
    assert_eq!(e.message, "database closed");
    assert_eq!(vm.init, InitPhase::Idle);

    let mut vm = begun();
    vm.initialize(InitEvent::HasLastAccepted { reply: Ok(false) }).unwrap();
    let rejected = Error::new(ErrorKind::Other, "rejected");
    let e = vm.initialize(InitEvent::GenesisAccepted { reply: Err(rejected) }).unwrap_err();
    assert_eq!(e.message, "rejected");
    assert_eq!(vm.state.preferred.0, [0; 32]);
}

#[test]
fn a_bad_version_ends_the_beginning() {
    let mut vm = TestVm::new();
    let e = vm.begin(None, Err("no version".to_string()), Ok(vec![1])).unwrap_err();
    assert_eq!(e.kind, ErrorKind::Other);
    assert_eq!(e.message, "no version");
    let version = Version {
        major: 1,
        minor: 2,
        patch: 3,
        pre: "rc".to_string(),
        build: "b".to_string(),
    };
    let ctx = Some(Context { chain_data_dir: "/d".to_string() });
    vm.begin(ctx, Ok(version), Ok(vec![1])).unwrap();
    assert_eq!(vm.state.version.pre, "rc");
    assert_eq!(vm.init, InitPhase::WritingGenesis);
}

#[test]
fn fixed_answers() {
    assert_eq!(TestVm::version(), VERSION);
    let handlers = TestVm::create_static_handlers();
    assert_eq!(handlers.len(), 1);
    assert_eq!(handlers[0].path, "/static");
    assert_eq!(handlers[0].lock_option, LockOptions::WriteLock);
    assert!(handlers[0].server_addr.is_none());
    let handlers = TestVm::create_handlers();
    assert_eq!(handlers[0].path, "/rpc");
    assert_eq!(TestVm::issue_tx().message, "issue_tx not implemented");
    assert_eq!(TestVm::issue_tx().kind, ErrorKind::Unsupported);
    assert_eq!(TestVm::get_block_id_at_height(1).message, "block id not found");
    assert_eq!(TestVm::get_block_id_at_height(1).kind, ErrorKind::NotFound);
    assert!(!TestVm::state_sync_enabled());
    assert_eq!(TestVm::get_ancestors().message, "get_ancestors not implemented");
    assert_eq!(
        TestVm::batched_parse_block().message,
        "batched_parse_block not implemented"
    );
    assert_eq!(TestVm::health_check(), b"200".to_vec());
}
