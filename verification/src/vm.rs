//! The virtual machine: its state, its mempools, and what it does when the
//! consensus engine calls it.
pub mod api;
pub mod init;

use crate::account::Account;
use crate::block::deploy_tx::{DeployTx, DeployTxView};
use crate::block::{Block, BlockView, NewBlock, NewBlockView, Status, StatusView};
use crate::error::{Error, ErrorKind, ErrorView};
use crate::ids::Id;
use crate::state;
use crate::text::{decimal_text, join};
use std::collections::VecDeque;
use vstd::prelude::*;
use vstd::string::*;

verus! {

/// The version of the virtual machine.
pub const VERSION: &'static str = "0.1.0";

/// Limits how much data a user can propose.
pub const PROPOSE_LIMIT_BYTES: usize = 1048576;

/// What the virtual machine reads of the context in which its chain runs.
#[derive(Debug)]
pub struct Context {
    pub chain_data_dir: String,
}

/// A semantic version.
#[derive(Debug)]
pub struct Version {
    pub major: u64,
    pub minor: u64,
    pub patch: u64,
    pub pre: String,
    pub build: String,
}

impl View for Version {
    type V = (u64, u64, u64, Seq<char>, Seq<char>);

    open spec fn view(&self) -> (u64, u64, u64, Seq<char>, Seq<char>) {
        (self.major, self.minor, self.patch, self.pre@, self.build@)
    }
}

/// A message to the consensus engine.
#[derive(Clone, Copy, Debug, PartialEq, Eq, Structural)]
pub enum Message {
    /// There is something to build a block of.
    PendingTxs,
}

/// The phases of a chain that the consensus engine announces.
#[derive(Clone, Copy, Debug, PartialEq, Eq, Structural)]
pub enum SnowState {
    Initializing,
    StateSyncing,
    Bootstrapping,
    NormalOp,
}

/// Represents VM-specific states.
#[derive(Debug)]
pub struct State {
    pub ctx: Option<Context>,
    pub version: Version,
    pub genesis: Vec<u8>,
    /// Represents persistent Vm state.
    pub state: Option<state::State>,
    /// Currently preferred block Id.
    pub preferred: Id,
    /// There is a channel to the snowman consensus engine.
    pub to_engine: bool,
    /// Set "true" to indicate that the Vm has finished bootstrapping
    /// for the chain.
    pub bootstrapped: bool,
}

/// How far the initialization of the virtual machine is.
#[derive(Clone, Copy, Debug, PartialEq, Eq, Structural)]
pub enum InitPhase {
    /// Not begun, or ended with an error.
    Idle,
    /// The genesis is being written.
    WritingGenesis,
    /// The database is asked whether a block was accepted.
    AskingLastAccepted,
    /// The id of the block that was accepted last is being read.
    ReadingLastAccepted,
    /// The genesis block is being made and accepted.
    AcceptingGenesis,
    /// Done.
    Ready,
}

/// The virtual machine of a chain whose transactions are `T`s.
#[derive(Debug)]
pub struct Vm<A, T> {
    /// Maintains the Vm-specific states.
    pub state: State,
    pub app_sender: Option<A>,
    /// Transactions that have not been put into a block yet.
    pub mempool: VecDeque<T>,
    /// Deployments that have not been put into a block yet.
    pub deploy_mempool: VecDeque<DeployTx>,
    /// How far the initialization is.
    pub init: InitPhase,
}

/// What a virtual machine holds.
#[verifier::ext_equal]
pub struct VmView<A, T> {
    pub chain_data_dir: Option<Seq<char>>,
    pub version: (u64, u64, u64, Seq<char>, Seq<char>),
    pub genesis: Seq<u8>,
    /// The persistent state, if there is one: where it lies.
    pub store: Option<Option<Seq<char>>>,
    pub preferred: Seq<u8>,
    pub to_engine: bool,
    pub bootstrapped: bool,
    pub app_sender: Option<A>,
    pub mempool: Seq<T>,
    pub deploy_mempool: Seq<DeployTxView>,
    pub init: InitPhase,
}

impl<A, T> View for Vm<A, T> {
    type V = VmView<A, T>;

    open spec fn view(&self) -> VmView<A, T> {
        VmView {
            chain_data_dir: match self.state.ctx {
                Some(ctx) => Some(ctx.chain_data_dir@),
                None => None,
            },
            version: self.state.version@,
            genesis: self.state.genesis@,
            store: match self.state.state {
                Some(store) => Some(state::dir_of(store)),
                None => None,
            },
            preferred: self.state.preferred@,
            to_engine: self.state.to_engine,
            bootstrapped: self.state.bootstrapped,
            app_sender: self.app_sender,
            mempool: self.mempool@,
            deploy_mempool: crate::block::deploy_tx::deployments_of(self.deploy_mempool@),
            init: self.init,
        }
    }
}

/// The virtual machine before it is initialized.
pub open spec fn fresh<A, T>() -> VmView<A, T> {
    VmView {
        chain_data_dir: None,
        version: (0, 0, 0, Seq::empty(), Seq::empty()),
        genesis: Seq::empty(),
        store: None,
        preferred: crate::ids::zeros32(),
        to_engine: false,
        bootstrapped: false,
        app_sender: None,
        mempool: Seq::empty(),
        deploy_mempool: Seq::empty(),
        init: InitPhase::Idle,
    }
}

/// The error where there is no persistent state.
pub open spec fn no_store() -> ErrorView {
    crate::error::error_of(ErrorKind::NotFound, "state manager not found"@)
}

/// The message by which the engine hears that a block can be built.
pub open spec fn notice<A, T>(vm: VmView<A, T>) -> Option<Message> {
    if vm.to_engine {
        Some(Message::PendingTxs)
    } else {
        None
    }
}

/// The error of a proposal that is too large.
pub open spec fn over_limit(len: nat) -> ErrorView {
    crate::error::error_of(
        ErrorKind::InvalidInput,
        "data "@ + crate::text::decimal(len) + "-byte exceeds the limit "@
            + crate::text::decimal(PROPOSE_LIMIT_BYTES as nat) + "-byte"@,
    )
}

/// The last of a sequence, alone; nothing of an empty one.
pub open spec fn last_of<T>(s: Seq<T>) -> Seq<T> {
    if s.len() == 0 {
        Seq::empty()
    } else {
        seq![s.last()]
    }
}

/// A sequence without its last; an empty one as it is.
pub open spec fn but_last<T>(s: Seq<T>) -> Seq<T> {
    if s.len() == 0 {
        s
    } else {
        s.drop_last()
    }
}

/// The virtual machine after a deployment was proposed.
pub open spec fn with_deployment<A, T>(vm: VmView<A, T>, tx: DeployTxView) -> VmView<A, T> {
    VmView { deploy_mempool: vm.deploy_mempool.push(tx), ..vm }
}

/// The virtual machine after transactions were proposed.
pub open spec fn with_txs<A, T>(vm: VmView<A, T>, txs: Seq<T>) -> VmView<A, T> {
    VmView { mempool: vm.mempool + txs, ..vm }
}

/// The virtual machine after a block was built.
pub open spec fn built<A, T>(vm: VmView<A, T>) -> VmView<A, T> {
    VmView {
        mempool: but_last(vm.mempool),
        deploy_mempool: but_last(vm.deploy_mempool),
        ..vm
    }
}

/// The virtual machine after the engine announced a phase of the chain.
pub open spec fn told<A, T>(vm: VmView<A, T>, snow_state: SnowState) -> VmView<A, T> {
    if snow_state == SnowState::StateSyncing {
        vm
    } else {
        VmView { bootstrapped: snow_state == SnowState::NormalOp, ..vm }
    }
}

impl Default for State {
    fn default() -> (r: Self)
        ensures
            r.ctx is None,
            r.version@ == (0u64, 0u64, 0u64, Seq::<char>::empty(), Seq::<char>::empty()),
            r.genesis@ == Seq::<u8>::empty(),
            r.state is None,
            r.preferred@ == crate::ids::zeros32(),
            forall|i: int| 0 <= i < 32 ==> r.preferred.0@[i] == 0,
            !r.to_engine,
            !r.bootstrapped,
    {
        State {
            ctx: None,
            version: Version {
                major: 0,
                minor: 0,
                patch: 0,
                pre: String::new(),
                build: String::new(),
            },
            genesis: Vec::new(),
            state: None,
            preferred: Id::empty(),
            to_engine: false,
            bootstrapped: false,
        }
    }
}

impl<A, T> Default for Vm<A, T> {
    fn default() -> (r: Self)
        ensures
            r@ == fresh::<A, T>(),
            r.mempool@.len() == 0,
            r.deploy_mempool@.len() == 0,
            r.app_sender is None,
            !r.state.to_engine,
            !r.state.bootstrapped,
            r.state.state is None,
            r.state.ctx is None,
            r.init == InitPhase::Idle,
    {
        Self::new()
    }
}

/// What the engine is to be told, and the block on which a new one is built.
#[derive(Debug)]
pub struct BuildRequest {
    pub notify: Option<Message>,
    pub parent: Id,
}

impl<A, T> Vm<A, T> {
    /// Makes a virtual machine that is not initialized.
    #[must_use]
    pub fn new() -> (r: Self)
        ensures
            r@ == fresh::<A, T>(),
            r.mempool@.len() == 0,
            r.deploy_mempool@.len() == 0,
            r.app_sender is None,
            !r.state.to_engine,
            !r.state.bootstrapped,
            r.state.state is None,
            r.state.ctx is None,
            r.state.genesis@.len() == 0,
            forall|i: int| 0 <= i < 32 ==> r.state.preferred.0@[i] == 0,
            r.init == InitPhase::Idle,
    {
        let r = Vm {
            state: State::default(),
            app_sender: None,
            mempool: VecDeque::with_capacity(100),
            deploy_mempool: VecDeque::with_capacity(100),
            init: InitPhase::Idle,
        };
        assert(r@.deploy_mempool =~= Seq::empty());
        r
    }

    /// The virtual machine has finished bootstrapping.
    pub fn is_bootstrapped(&self) -> (r: bool)
        ensures
            r == self@.bootstrapped,
            r == self.state.bootstrapped,
    {
        self.state.bootstrapped
    }

    /// Signals the consensus engine that a new block is ready to be created: what
    /// is to be sent to it, if there is a channel to it.
    pub fn notify_block_ready(&self) -> (r: Option<Message>)
        ensures
            r == notice(self@),
            r is Some <==> self.state.to_engine,
            r matches Some(message) ==> message == Message::PendingTxs,
    {
        if self.state.to_engine {
            Some(Message::PendingTxs)
        } else {
            None
        }
    }

    /// Proposes a deployment to the mempool, and says what the engine is to be told.
    /// # Errors
    /// Fails if the program is longer than `PROPOSE_LIMIT_BYTES`.
    pub fn propose_block_with_deploy_program(&mut self, d: &DeployTx) -> (r: Result<
        Option<Message>,
        Error,
    >)
        ensures
            d@.program_data.len() <= PROPOSE_LIMIT_BYTES ==> {
                &&& r == Ok::<Option<Message>, Error>(notice(old(self)@))
                &&& final(self)@ == with_deployment(old(self)@, d@)
            },
            d@.program_data.len() > PROPOSE_LIMIT_BYTES ==> {
                &&& r matches Err(e)
                &&& e@ == over_limit(d@.program_data.len())
                &&& final(self)@ == old(self)@
            },
            d.program_data@.len() <= 1048576 ==> {
                &&& r == Ok::<Option<Message>, Error>(
                    if old(self).state.to_engine {
                        Some(Message::PendingTxs)
                    } else {
                        None
                    },
                )
                &&& final(self).deploy_mempool@.len() == old(self).deploy_mempool@.len() + 1
                &&& final(self).deploy_mempool@.drop_last() == old(self).deploy_mempool@
                &&& final(self).deploy_mempool@.last().program_data@ == d.program_data@
                &&& final(self).deploy_mempool@.last().deployment_slot == d.deployment_slot
            },
            d.program_data@.len() > 1048576 ==> {
                &&& r matches Err(e)
                &&& e.kind == ErrorKind::InvalidInput
                &&& e.message@ == "data "@ + crate::text::decimal(d.program_data@.len())
                    + "-byte exceeds the limit "@ + crate::text::decimal(1048576) + "-byte"@
                &&& final(self).deploy_mempool == old(self).deploy_mempool
            },
            final(self).mempool == old(self).mempool,
            final(self).state == old(self).state,
            final(self).app_sender == old(self).app_sender,
            final(self).init == old(self).init,
    {
        let len: usize = d.program_data.len();
        if len > PROPOSE_LIMIT_BYTES {
            let size = join("data ", decimal_text(len).as_str());
            let limit = join("-byte exceeds the limit ", decimal_text(PROPOSE_LIMIT_BYTES).as_str());
            let message = size.concat(limit.as_str()).concat("-byte");
            proof {
                let a = "data "@;
                let b = crate::text::decimal(len as nat);
                let c = "-byte exceeds the limit "@;
                let e = crate::text::decimal(PROPOSE_LIMIT_BYTES as nat);
                assert(a + b + (c + e) =~= a + b + c + e);
            }
            return Err(Error::new(ErrorKind::InvalidInput, message.as_str()));
        }
        self.deploy_mempool.push_back(d.clone());
        assert(self@.deploy_mempool =~= old(self)@.deploy_mempool.push(d@));
        assert(self.deploy_mempool@.drop_last() =~= old(self).deploy_mempool@);
        Ok(self.notify_block_ready())
    }

    /// Proposes transactions to the mempool, in order, and says what the engine is
    /// to be told.
    pub fn propose_block_with_multi_txs(&mut self, txs: Vec<T>) -> (r: Result<
        Option<Message>,
        Error,
    >)
        ensures
            r == Ok::<Option<Message>, Error>(notice(old(self)@)),
            final(self)@ == with_txs(old(self)@, txs@),
            r == Ok::<Option<Message>, Error>(
                if old(self).state.to_engine {
                    Some(Message::PendingTxs)
                } else {
                    None
                },
            ),
            final(self).mempool@ == old(self).mempool@ + txs@,
            final(self).deploy_mempool == old(self).deploy_mempool,
            final(self).state == old(self).state,
            final(self).app_sender == old(self).app_sender,
            final(self).init == old(self).init,
    {
        let ghost all = txs@;
        for tx in iter: txs
            invariant
                iter.seq() == all,
                self.state == old(self).state,
                self.app_sender == old(self).app_sender,
                self.deploy_mempool == old(self).deploy_mempool,
                self.init == old(self).init,
                self.mempool@ == old(self).mempool@ + all.take(iter.index() as int),
        {
            self.mempool.push_back(tx);
            assert(self.mempool@ =~= old(self).mempool@ + all.take(iter.index() + 1));
        }
        assert(all.take(all.len() as int) =~= all);
        Ok(self.notify_block_ready())
    }

    /// Sets the state of the Vm.
    /// # Errors
    /// Will fail if the chain is syncing its state.
    pub fn set_state(&mut self, snow_state: SnowState) -> (r: Result<(), Error>)
        ensures
            match snow_state {
                SnowState::StateSyncing => {
                    &&& r matches Err(e)
                    &&& e@ == crate::error::error_of(
                        ErrorKind::Other,
                        "state sync is not supported"@,
                    )
                    &&& final(self)@ == old(self)@
                },
                _ => {
                    &&& r is Ok
                    &&& final(self)@ == told(old(self)@, snow_state)
                },
            },
            r is Err <==> snow_state == SnowState::StateSyncing,
            r matches Err(e) ==> e.kind == ErrorKind::Other && e.message@
                == "state sync is not supported"@,
            final(self).state.bootstrapped == match snow_state {
                SnowState::NormalOp => true,
                SnowState::StateSyncing => old(self).state.bootstrapped,
                _ => false,
            },
            final(self).state == (State {
                bootstrapped: final(self).state.bootstrapped,
                ..old(self).state
            }),
            final(self).mempool == old(self).mempool,
            final(self).deploy_mempool == old(self).deploy_mempool,
            final(self).app_sender == old(self).app_sender,
            final(self).init == old(self).init,
    {
        match snow_state {
            // called by chains manager when it is creating the chain.
            SnowState::Initializing => {
                self.state.bootstrapped = false;
                Ok(())
            },
            SnowState::StateSyncing => Err(
                Error::new(ErrorKind::Other, "state sync is not supported"),
            ),
            // called by the bootstrapper to signal bootstrapping has started.
            SnowState::Bootstrapping => {
                self.state.bootstrapped = false;
                Ok(())
            },
            // called when consensus has started signalling bootstrap phase is complete.
            SnowState::NormalOp => {
                self.state.bootstrapped = true;
                Ok(())
            },
        }
    }
}

impl<A, T> Vm<A, T> {
    /// Builds a block from mempool data: says what the engine is to be told, and
    /// the block on which the new one is built, which is to be read.
    pub fn build_block(&self) -> (r: Result<BuildRequest, Error>)
        ensures
            match r {
                Err(e) => {
                    ||| self@.mempool.len() == 0 && self@.deploy_mempool.len() == 0 && e@
                        == crate::error::error_of(
                        ErrorKind::Other,
                        "no pending txs in mempool"@,
                    )
                    ||| (self@.mempool.len() > 0 || self@.deploy_mempool.len() > 0)
                        && self@.store is None && e@ == no_store()
                },
                Ok(request) => {
                    &&& self@.mempool.len() > 0 || self@.deploy_mempool.len() > 0
                    &&& self@.store is Some
                    &&& request.notify == notice(self@)
                    &&& request.parent@ == self@.preferred
                },
            },
            r is Ok <==> self.state.state is Some && (self.mempool@.len() > 0
                || self.deploy_mempool@.len() > 0),
            r matches Ok(request) ==> request.parent.0@ == self.state.preferred.0@
                && request.notify == if self.state.to_engine {
                Some(Message::PendingTxs)
            } else {
                None
            },
            r matches Err(e) ==> if self.mempool@.len() == 0 && self.deploy_mempool@.len() == 0 {
                e.kind == ErrorKind::Other && e.message@ == "no pending txs in mempool"@
            } else {
                e.kind == ErrorKind::NotFound && e.message@ == "state manager not found"@
            },
    {
        // check both the mempools.
        if self.mempool.len() == 0 && self.deploy_mempool.len() == 0 {
            return Err(Error::new(ErrorKind::Other, "no pending txs in mempool"));
        }
        if self.state.state.is_none() {
            return Err(Error::new(ErrorKind::NotFound, "state manager not found"));
        }
        Ok(BuildRequest { notify: self.notify_block_ready(), parent: self.state.preferred })
    }

    /// Goes on with the building of a block, given its parent and the time: takes
    /// the last transaction and the last deployment out of the mempools and says
    /// which block is to be made of them.
    pub fn build_on_parent(&mut self, parent: Result<Block, Error>, unix_now: i64) -> (r: Result<
        NewBlock<T>,
        Error,
    >)
        requires
            parent matches Ok(block) ==> unix_now >= 0 && block@.height < u64::MAX,
        ensures
            match parent {
                Err(e) => r matches Err(f) && f@ == e@ && final(self)@ == old(self)@,
                Ok(block) => {
                    &&& r matches Ok(new_block)
                    &&& new_block@ == (NewBlockView {
                        parent_id: block@.id,
                        height: (block@.height + 1) as u64,
                        timestamp: unix_now as u64,
                        txs: last_of(old(self)@.mempool),
                        deploy_txs: last_of(old(self)@.deploy_mempool),
                        status: StatusView::Processing,
                    })
                    &&& final(self)@ == built(old(self)@)
                },
            },
            match parent {
                Err(e) => r == Err::<NewBlock<T>, Error>(e) && *final(self) == *old(self),
                Ok(block) => {
                    &&& r matches Ok(new_block)
                    &&& new_block.parent_id.0@ == block.id.0@
                    &&& new_block.height == block.height + 1
                    &&& new_block.timestamp == unix_now
                    &&& new_block.status is Processing
                    &&& if old(self).mempool@.len() > 0 {
                        &&& new_block.txs@ == seq![old(self).mempool@.last()]
                        &&& final(self).mempool@ == old(self).mempool@.drop_last()
                    } else {
                        &&& new_block.txs@.len() == 0
                        &&& final(self).mempool@.len() == 0
                    }
                    &&& if old(self).deploy_mempool@.len() > 0 {
                        &&& new_block.deploy_txs@ == seq![old(self).deploy_mempool@.last()]
                        &&& final(self).deploy_mempool@ == old(self).deploy_mempool@.drop_last()
                    } else {
                        &&& new_block.deploy_txs@.len() == 0
                        &&& final(self).deploy_mempool@.len() == 0
                    }
                },
            },
            final(self).state == old(self).state,
            final(self).app_sender == old(self).app_sender,
            final(self).init == old(self).init,
    {
        match parent {
            Err(e) => Err(e),
            Ok(prnt_blk) => {
                let mut txs: Vec<T> = Vec::new();
                if let Some(tx) = self.mempool.pop_back() {
                    txs.push(tx);
                }
                let mut deploy_txs: Vec<DeployTx> = Vec::new();
                if let Some(tx) = self.deploy_mempool.pop_back() {
                    deploy_txs.push(tx);
                }
                let new_block = NewBlock {
                    parent_id: prnt_blk.id,
                    height: prnt_blk.height + 1,
                    timestamp: unix_now as u64,
                    txs,
                    deploy_txs,
                    status: Status::Processing,
                };
                proof {
                    assert(self@.mempool =~= but_last(old(self)@.mempool));
                    assert(self@.deploy_mempool =~= but_last(old(self)@.deploy_mempool));
                    assert(new_block@.txs =~= last_of(old(self)@.mempool));
                    assert(new_block@.deploy_txs =~= last_of(old(self)@.deploy_mempool));
                }
                Ok(new_block)
            },
        }
    }

    /// Prefers a block.
    pub fn set_preference(&mut self, id: Id)
        ensures
            final(self)@ == (VmView { preferred: id@, ..old(self)@ }),
            *final(self) == (Vm { state: State { preferred: id, ..old(self).state }, ..*old(self) }),
    {
        self.state.preferred = id;
    }

    /// The persistent state, which most calls need.
    fn store(&self) -> (r: Result<&state::State, Error>)
        ensures
            (r is Ok) == (self@.store is Some),
            (r is Ok) == (self.state.state is Some),
            r matches Err(e) ==> e@ == no_store(),
            r matches Err(e) ==> e.kind == ErrorKind::NotFound && e.message@
                == "state manager not found"@,
    {
        match &self.state.state {
            Some(store) => Ok(store),
            None => Err(Error::new(ErrorKind::NotFound, "state manager not found")),
        }
    }

    /// Returns the last accepted block Id: first the key under which the database
    /// has it.
    /// # Errors
    /// Will fail if there's no state.
    pub fn last_accepted(&self) -> (r: Result<Vec<u8>, Error>)
        ensures
            crate::error::outcome(r) == if self@.store is Some {
                Ok::<Seq<u8>, ErrorView>(state::last_accepted_key())
            } else {
                Err(no_store())
            },
            if self.state.state is Some {
                r matches Ok(key) && key@ == vstd::utf8::encode_utf8("last_accepted_block"@)
            } else {
                r matches Err(e) && e.kind == ErrorKind::NotFound && e.message@
                    == "state manager not found"@
            },
    {
        match self.store() {
            Ok(_) => Ok(state::last_accepted_block_key()),
            Err(e) => Err(e),
        }
    }

    /// Returns an account of the persistent state, given what was found there.
    /// # Errors
    /// Will fail if there's no state, or as the search for the account did.
    pub fn get_account_from_state(&self, found: Result<Account, Error>) -> (r: Result<
        Account,
        Error,
    >)
        ensures
            crate::error::outcome(r) == if self@.store is Some {
                crate::error::outcome(found)
            } else {
                Err(no_store())
            },
            if self.state.state is Some {
                r == found
            } else {
                r matches Err(e) && e.kind == ErrorKind::NotFound && e.message@
                    == "state manager not found"@
            },
    {
        match self.store() {
            Ok(_) => found,
            Err(e) => Err(e),
        }
    }

    /// Returns a block: first the key under which the database has it.
    /// # Errors
    /// Will fail if there's no state.
    pub fn get_block(&self, blk_id: &Id) -> (r: Result<Vec<u8>, Error>)
        ensures
            crate::error::outcome(r) == if self@.store is Some {
                Ok::<Seq<u8>, ErrorView>(state::block_key(blk_id@))
            } else {
                Err(no_store())
            },
            if self.state.state is Some {
                r matches Ok(key) && key@ == seq![0u8, 47u8] + blk_id.0@
            } else {
                r matches Err(e) && e.kind == ErrorKind::NotFound && e.message@
                    == "state manager not found"@
            },
    {
        match self.store() {
            Ok(_) => Ok(state::block_with_status_key(blk_id)),
            Err(e) => Err(e),
        }
    }

    /// Parses a block, given what its bytes stand for: the block as it is processed,
    /// which is to be looked up by its id.
    /// # Errors
    /// Will fail if there's no state, or if the bytes are no block.
    pub fn parse_block(&self, parsed: Result<Block, Error>) -> (r: Result<Block, Error>)
        ensures
            crate::error::outcome(r) == if self@.store is None {
                Err(no_store())
            } else {
                match parsed {
                    Err(e) => Err(e@),
                    Ok(block) => Ok::<BlockView, ErrorView>(
                        BlockView { status: StatusView::Processing, ..block@ },
                    ),
                }
            },
            if self.state.state is Some {
                match parsed {
                    Err(e) => r == Err::<Block, Error>(e),
                    Ok(block) => r == Ok::<Block, Error>(
                        Block { status: Status::Processing, ..block },
                    ),
                }
            } else {
                r matches Err(e) && e.kind == ErrorKind::NotFound && e.message@
                    == "state manager not found"@
            },
    {
        match self.store() {
            Err(e) => Err(e),
            Ok(_) => {
                match parsed {
                    Err(e) => Err(e),
                    Ok(block) => {
                        let mut new_block = block;
                        new_block.set_status(Status::Processing);
                        Ok(new_block)
                    },
                }
            },
        }
    }

    /// Goes on with the parsing of a block: one that is stored under its id is
    /// returned in its place.
    pub fn parsed_or_stored(new_block: Block, stored: Result<Block, Error>) -> (r: Block)
        ensures
            r@ == match stored {
                Ok(prev) => prev@,
                Err(_) => new_block@,
            },
            r == match stored {
                Ok(prev) => prev,
                Err(_) => new_block,
            },
    {
        match stored {
            Ok(prev) => prev,
            Err(_) => new_block,
        }
    }
}

/// What a block is built of is what leaves the mempools: put back at their ends, it
/// restores them.
pub proof fn building_loses_nothing<A, T>(vm: VmView<A, T>)
    ensures
        built(vm).mempool + last_of(vm.mempool) == vm.mempool,
        built(vm).deploy_mempool + last_of(vm.deploy_mempool) == vm.deploy_mempool,
{
    assert(built(vm).mempool + last_of(vm.mempool) =~= vm.mempool);
    assert(built(vm).deploy_mempool + last_of(vm.deploy_mempool) =~= vm.deploy_mempool);
}

/// The deployment that was proposed last is in the next block, and the others wait
/// as they did before it was proposed.
pub proof fn newest_deployment_is_built_next<A, T>(vm: VmView<A, T>, tx: DeployTxView)
    ensures
        last_of(with_deployment(vm, tx).deploy_mempool) == seq![tx],
        built(with_deployment(vm, tx)).deploy_mempool == vm.deploy_mempool,
{
    assert(built(with_deployment(vm, tx)).deploy_mempool =~= vm.deploy_mempool);
}

/// The last of the transactions that were proposed last is in the next block, and
/// the others wait in their order.
pub proof fn newest_transaction_is_built_next<A, T>(vm: VmView<A, T>, txs: Seq<T>)
    requires
        txs.len() > 0,
    ensures
        last_of(with_txs(vm, txs).mempool) == seq![txs.last()],
        built(with_txs(vm, txs)).mempool == vm.mempool + txs.drop_last(),
{
    assert(built(with_txs(vm, txs)).mempool =~= vm.mempool + txs.drop_last());
}

/// Transactions that are proposed one after the other wait as if they had been
/// proposed together.
pub proof fn proposals_add_up<A, T>(vm: VmView<A, T>, first: Seq<T>, second: Seq<T>)
    ensures
        with_txs(with_txs(vm, first), second) == with_txs(vm, first + second),
{
    assert(with_txs(with_txs(vm, first), second) =~= with_txs(vm, first + second));
}

/// The virtual machine after `n` blocks were built.
pub open spec fn built_times<A, T>(vm: VmView<A, T>, n: nat) -> VmView<A, T>
    decreases n,
{
    if n == 0 {
        vm
    } else {
        built(built_times(vm, (n - 1) as nat))
    }
}

/// Every block takes one transaction and one deployment while there are any, from
/// the newest to the oldest: after `n` blocks the `n` newest of each are gone, and
/// what is left is as it was.
pub proof fn building_drains<A, T>(vm: VmView<A, T>, n: nat)
    ensures
        built_times(vm, n).mempool == vm.mempool.take(
            if n <= vm.mempool.len() {
                vm.mempool.len() - n
            } else {
                0
            },
        ),
        built_times(vm, n).deploy_mempool == vm.deploy_mempool.take(
            if n <= vm.deploy_mempool.len() {
                vm.deploy_mempool.len() - n
            } else {
                0
            },
        ),
    decreases n,
{
    if n == 0 {
        assert(vm.mempool.take(vm.mempool.len() as int) =~= vm.mempool);
        assert(vm.deploy_mempool.take(vm.deploy_mempool.len() as int) =~= vm.deploy_mempool);
    } else {
        building_drains(vm, (n - 1) as nat);
        let before = built_times(vm, (n - 1) as nat);
        assert(but_last(before.mempool) =~= vm.mempool.take(
            if n <= vm.mempool.len() {
                vm.mempool.len() - n
            } else {
                0
            },
        ));
        assert(but_last(before.deploy_mempool) =~= vm.deploy_mempool.take(
            if n <= vm.deploy_mempool.len() {
                vm.deploy_mempool.len() - n
            } else {
                0
            },
        ));
    }
}

/// The virtual machine after the engine announced phases of the chain, in order.
pub open spec fn told_all<A, T>(vm: VmView<A, T>, states: Seq<SnowState>) -> VmView<A, T>
    decreases states.len(),
{
    if states.len() == 0 {
        vm
    } else {
        told(told_all(vm, states.drop_last()), states.last())
    }
}

/// The virtual machine is bootstrapped exactly if the last phase that was announced,
/// but for the refused ones, is normal operation. Nothing else changes.
pub proof fn bootstrapped_in_normal_operation<A, T>(
    vm: VmView<A, T>,
    states: Seq<SnowState>,
    at: int,
)
    requires
        0 <= at < states.len(),
        states[at] != SnowState::StateSyncing,
        forall|i: int| at < i < states.len() ==> states[i] == SnowState::StateSyncing,
    ensures
        told_all(vm, states) == (VmView {
            bootstrapped: states[at] == SnowState::NormalOp,
            ..vm
        }),
    decreases states.len(),
{
    let init = states.drop_last();
    if at < states.len() - 1 {
        assert(init[at] == states[at]);
        bootstrapped_in_normal_operation(vm, init, at);
        assert(states.last() == SnowState::StateSyncing);
    } else {
        told_changes_only_bootstrapped(vm, init);
    }
}

proof fn told_changes_only_bootstrapped<A, T>(vm: VmView<A, T>, states: Seq<SnowState>)
    ensures
        told_all(vm, states) == (VmView {
            bootstrapped: told_all(vm, states).bootstrapped,
            ..vm
        }),
    decreases states.len(),
{
    if states.len() > 0 {
        told_changes_only_bootstrapped(vm, states.drop_last());
    }
}

/// Proposals, building, announcements and preferences leave an initialization that
/// is under way as far as it is.
pub proof fn initialization_stays_well_formed<A, T>(
    vm: VmView<A, T>,
    txs: Seq<T>,
    tx: DeployTxView,
    snow_state: SnowState,
    preferred: Seq<u8>,
)
    requires
        init::init_wf(vm),
    ensures
        init::init_wf(with_txs(vm, txs)),
        init::init_wf(with_deployment(vm, tx)),
        init::init_wf(built(vm)),
        init::init_wf(told(vm, snow_state)),
        init::init_wf(VmView { preferred, ..vm }),
{
}

/// A fresh virtual machine can be initialized.
pub proof fn fresh_is_well_formed<A, T>()
    ensures
        init::init_wf(fresh::<A, T>()),
{
}

/// A virtual machine is all that it holds: nothing of it is left out of, or changed in,
/// what is said of it.
pub proof fn machines_are_what_they_hold<A, T>(vm: Vm<A, T>)
    ensures
        vm@.chain_data_dir is Some <==> vm.state.ctx is Some,
        vm.state.ctx is Some ==> vm@.chain_data_dir == Some((vm.state.ctx->0).chain_data_dir@),
        vm@.version == (
            vm.state.version.major,
            vm.state.version.minor,
            vm.state.version.patch,
            vm.state.version.pre@,
            vm.state.version.build@,
        ),
        vm@.genesis == vm.state.genesis@,
        vm@.store is Some <==> vm.state.state is Some,
        vm.state.state is Some ==> vm@.store == Some(state::dir_of(vm.state.state->0)),
        vm@.preferred == vm.state.preferred.0@,
        vm@.to_engine == vm.state.to_engine,
        vm@.bootstrapped == vm.state.bootstrapped,
        vm@.app_sender == vm.app_sender,
        vm@.mempool == vm.mempool@,
        vm@.deploy_mempool.len() == vm.deploy_mempool@.len(),
        forall|i: int|
            0 <= i < vm.deploy_mempool@.len() ==> #[trigger] vm@.deploy_mempool[i]
                == vm.deploy_mempool@[i]@,
        vm@.init == vm.init,
{
}

/// Proposing transactions adds them at the end of their own queue and changes nothing
/// else: the deployments that wait go on waiting. Proposing a deployment adds it at the
/// end of its own queue and changes nothing else.
pub proof fn proposals_touch_only_their_queue<A, T>(
    vm: VmView<A, T>,
    txs: Seq<T>,
    tx: DeployTxView,
)
    ensures
        with_txs(vm, txs).deploy_mempool == vm.deploy_mempool,
        with_txs(vm, txs).mempool.take(vm.mempool.len() as int) == vm.mempool,
        with_txs(vm, txs).mempool.skip(vm.mempool.len() as int) == txs,
        with_txs(vm, txs) == (VmView { mempool: with_txs(vm, txs).mempool, ..vm }),
        with_deployment(vm, tx).mempool == vm.mempool,
        with_deployment(vm, tx).deploy_mempool.drop_last() == vm.deploy_mempool,
        with_deployment(vm, tx).deploy_mempool.last() == tx,
        with_deployment(vm, tx) == (VmView {
            deploy_mempool: with_deployment(vm, tx).deploy_mempool,
            ..vm
        }),
        with_txs(with_deployment(vm, tx), txs) == with_deployment(with_txs(vm, txs), tx),
{
    assert(with_txs(vm, txs).mempool.take(vm.mempool.len() as int) =~= vm.mempool);
    assert(with_txs(vm, txs).mempool.skip(vm.mempool.len() as int) =~= txs);
    assert(with_deployment(vm, tx).deploy_mempool.drop_last() =~= vm.deploy_mempool);
}

/// A deployment that was proposed before transactions is in the next block all the
/// same, together with the last of the transactions; and the other way round.
pub proof fn both_kinds_are_in_the_next_block<A, T>(
    vm: VmView<A, T>,
    tx: DeployTxView,
    txs: Seq<T>,
)
    requires
        txs.len() > 0,
    ensures
        last_of(with_txs(with_deployment(vm, tx), txs).deploy_mempool) == seq![tx],
        last_of(with_txs(with_deployment(vm, tx), txs).mempool) == seq![txs.last()],
        last_of(with_deployment(with_txs(vm, txs), tx).deploy_mempool) == seq![tx],
        last_of(with_deployment(with_txs(vm, txs), tx).mempool) == seq![txs.last()],
{
}

/// The engine is told exactly if there is a channel to it, in every phase of the chain,
/// whatever waits and whatever is preferred; and it is told that something waits.
pub proof fn the_engine_is_told_if_there_is_a_channel<A, T>(
    vm: VmView<A, T>,
    other: VmView<A, T>,
    snow_state: SnowState,
    txs: Seq<T>,
    tx: DeployTxView,
)
    ensures
        notice(vm) is Some <==> vm.to_engine,
        vm.to_engine ==> notice(vm) == Some(Message::PendingTxs),
        vm.to_engine == other.to_engine ==> notice(vm) == notice(other),
        notice(told(vm, snow_state)) == notice(vm),
        notice(with_txs(vm, txs)) == notice(vm),
        notice(with_deployment(vm, tx)) == notice(vm),
        notice(built(vm)) == notice(vm),
{
}

/// A virtual machine that is initialized, or that was and went on, answers every
/// proposal by telling the engine, in normal operation as before it.
pub proof fn initialized_machines_tell_the_engine<A, T>(
    vm: VmView<A, T>,
    snow_state: SnowState,
    txs: Seq<T>,
)
    requires
        init::init_wf(vm),
        vm.init == InitPhase::Ready,
    ensures
        notice(vm) == Some(Message::PendingTxs),
        notice(told(vm, snow_state)) == Some(Message::PendingTxs),
        notice(with_txs(told(vm, snow_state), txs)) == Some(Message::PendingTxs),
{
}

/// Building takes at most one of each kind, from the end, and changes nothing else; of
/// a queue in which nothing waits it takes nothing.
pub proof fn building_takes_one_of_each<A, T>(vm: VmView<A, T>)
    ensures
        built(vm).mempool.len() == if vm.mempool.len() > 0 {
            vm.mempool.len() - 1
        } else {
            0
        },
        built(vm).deploy_mempool.len() == if vm.deploy_mempool.len() > 0 {
            vm.deploy_mempool.len() - 1
        } else {
            0
        },
        vm.mempool.len() > 0 ==> last_of(vm.mempool) == seq![vm.mempool[vm.mempool.len() - 1]],
        vm.deploy_mempool.len() > 0 ==> last_of(vm.deploy_mempool)
            == seq![vm.deploy_mempool[vm.deploy_mempool.len() - 1]],
        vm.mempool.len() == 0 ==> last_of(vm.mempool).len() == 0,
        vm.deploy_mempool.len() == 0 ==> last_of(vm.deploy_mempool).len() == 0,
        forall|i: int|
            0 <= i < built(vm).mempool.len() ==> #[trigger] built(vm).mempool[i] == vm.mempool[i],
        forall|i: int|
            0 <= i < built(vm).deploy_mempool.len() ==> #[trigger] built(vm).deploy_mempool[i]
                == vm.deploy_mempool[i],
        built(vm) == (VmView {
            mempool: built(vm).mempool,
            deploy_mempool: built(vm).deploy_mempool,
            ..vm
        }),
{
}

/// An announcement is taken at its word: normal operation, and nothing else, is that
/// the machine is bootstrapped; the one that is refused changes nothing, and none
/// changes anything else.
pub proof fn announcements_decide_bootstrapping<A, T>(vm: VmView<A, T>, snow_state: SnowState)
    ensures
        snow_state == SnowState::NormalOp ==> told(vm, snow_state).bootstrapped,
        snow_state == SnowState::Bootstrapping ==> !told(vm, snow_state).bootstrapped,
        snow_state == SnowState::Initializing ==> !told(vm, snow_state).bootstrapped,
        snow_state == SnowState::StateSyncing ==> told(vm, snow_state) == vm,
        told(vm, snow_state) == (VmView {
            bootstrapped: told(vm, snow_state).bootstrapped,
            ..vm
        }),
        told(told(vm, snow_state), snow_state) == told(vm, snow_state),
{
}

/// A proposal is refused for its size alone, above a mebibyte, with an error that says
/// how large it is: errors of proposals of different sizes differ.
pub proof fn refusals_say_the_size(len: nat, other: nat)
    ensures
        over_limit(len) == over_limit(other) ==> len == other,
        PROPOSE_LIMIT_BYTES == 1024 * 1024,
        over_limit(len).kind == ErrorKind::InvalidInput,
        over_limit(len).message.subrange(
            "data "@.len() as int,
            ("data "@.len() + crate::text::decimal(len).len()) as int,
        ) == crate::text::decimal(len),
        over_limit(len).message == "data "@ + crate::text::decimal(len)
            + "-byte exceeds the limit "@ + crate::text::decimal(1048576) + "-byte"@,
        no_store().kind == ErrorKind::NotFound,
        no_store().message == "state manager not found"@,
{
    let from = "data "@.len() as int;
    let (a, b) = (crate::text::decimal(len), crate::text::decimal(other));
    assert(over_limit(len).message.subrange(from, from + a.len()) =~= a);
    assert(over_limit(other).message.subrange(from, from + b.len()) =~= b);
    if over_limit(len) == over_limit(other) {
        assert(a.len() == b.len());
        crate::text::decimal_tells_the_number(len, other);
    }
}

/// A fresh virtual machine holds nothing, knows no block and no channel, and is not
/// bootstrapped: nothing can be built of it, and nobody is told of a proposal to it.
pub proof fn fresh_machines_hold_nothing<A, T>()
    ensures
        fresh::<A, T>().mempool.len() == 0,
        fresh::<A, T>().deploy_mempool.len() == 0,
        fresh::<A, T>().genesis.len() == 0,
        fresh::<A, T>().chain_data_dir is None,
        fresh::<A, T>().store is None,
        fresh::<A, T>().app_sender is None,
        fresh::<A, T>().version == (0u64, 0u64, 0u64, Seq::<char>::empty(), Seq::<char>::empty()),
        fresh::<A, T>().preferred == Seq::new(32, |i: int| 0u8),
        !fresh::<A, T>().bootstrapped,
        fresh::<A, T>().init == InitPhase::Idle,
        notice(fresh::<A, T>()) is None,
{
    assert(crate::ids::zeros32() =~= Seq::new(32, |i: int| 0u8));
}

} // verus!
