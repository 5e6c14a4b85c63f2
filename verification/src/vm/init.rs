//! The initialization of the virtual machine, step by step.
use crate::block::{NewBlock, NewBlockView, Status, StatusView};
use crate::error::{Error, ErrorKind, ErrorView};
use crate::ids::Id;
use crate::state;
use crate::vm::{Context, InitPhase, Version, Vm, VmView, VERSION};
use std::collections::VecDeque;
use vstd::prelude::*;

verus! {

/// The version that a text stands for, or the words on why it stands for none.
pub uninterp spec fn version_of(text: Seq<char>) -> Result<
    (u64, u64, u64, Seq<char>, Seq<char>),
    Seq<char>,
>;

/// The text of a release: three numbers with dots between them.
pub open spec fn release_text(major: u64, minor: u64, patch: u64) -> Seq<char> {
    crate::text::decimal(major as nat) + "."@ + crate::text::decimal(minor as nat) + "."@
        + crate::text::decimal(patch as nat)
}

/// If a text is that of a release, the outcome is this release, which is no
/// pre-release and has no build metadata.
pub open spec fn releases_are_read(
    text: Seq<char>,
    outcome: Result<(u64, u64, u64, Seq<char>, Seq<char>), Seq<char>>,
) -> bool {
    forall|major: u64, minor: u64, patch: u64|
        text == #[trigger] release_text(major, minor, patch) ==> outcome == Ok::<
            (u64, u64, u64, Seq<char>, Seq<char>),
            Seq<char>,
        >((major, minor, patch, Seq::empty(), Seq::empty()))
}

/// `semver::Version::parse`. The version, or the words of the error, depend on
/// the text alone. The text of a release is read as that release.
#[verifier::external_body]
fn parse_version(text: &str) -> (r: Result<Version, String>)
    ensures
        version_outcome(r) == version_of(text@),
        releases_are_read(text@, version_outcome(r)),
{
    match semver::Version::parse(text) {
        Ok(v) => Ok(Version {
            major: v.major,
            minor: v.minor,
            patch: v.patch,
            pre: v.pre.to_string(),
            build: v.build.to_string(),
        }),
        Err(e) => Err(e.to_string()),
    }
}

/// What the virtual machine is told of its initialization.
#[derive(Debug)]
pub enum InitEvent<A> {
    /// It is to begin: the context of the chain, and the genesis or why it is none.
    Start { ctx: Option<Context>, genesis: Result<Vec<u8>, Error> },
    /// The genesis was written, or not; and how to send to other nodes.
    GenesisWritten { reply: Result<(), Error>, app_sender: A },
    /// What the database answered to the question whether a block was accepted.
    HasLastAccepted { reply: Result<bool, String> },
    /// What the database answered for the id of the block that was accepted last.
    LastAccepted { reply: Result<Vec<u8>, Error> },
    /// The genesis block was made and accepted, with this id, or not.
    GenesisAccepted { reply: Result<Id, Error> },
}

/// What is to be done next for the virtual machine's initialization.
#[derive(Debug)]
pub enum InitAction<T> {
    /// Write the genesis to the persistent state in this directory.
    WriteGenesis { data_dir: String },
    /// Ask the database whether a block was accepted.
    AskLastAccepted,
    /// Read the id of the block that was accepted last.
    ReadLastAccepted,
    /// Make this block and accept it.
    AcceptGenesis { block: NewBlock<T> },
    /// Nothing: the virtual machine is initialized.
    Finished,
}

/// What is to be done next, as views.
pub enum InitActionView<T> {
    WriteGenesis { data_dir: Seq<char> },
    AskLastAccepted,
    ReadLastAccepted,
    AcceptGenesis { block: NewBlockView<T> },
    Finished,
}

impl<T> View for InitAction<T> {
    type V = InitActionView<T>;

    open spec fn view(&self) -> InitActionView<T> {
        match self {
            InitAction::WriteGenesis { data_dir } => InitActionView::WriteGenesis {
                data_dir: data_dir@,
            },
            InitAction::AskLastAccepted => InitActionView::AskLastAccepted,
            InitAction::ReadLastAccepted => InitActionView::ReadLastAccepted,
            InitAction::AcceptGenesis { block } => InitActionView::AcceptGenesis {
                block: block@,
            },
            InitAction::Finished => InitActionView::Finished,
        }
    }
}

/// The genesis block: the first, with nothing before it and nothing in it.
pub open spec fn genesis_block<T>() -> NewBlockView<T> {
    NewBlockView {
        parent_id: crate::ids::zeros32(),
        height: 0,
        timestamp: 0,
        txs: Seq::empty(),
        deploy_txs: Seq::empty(),
        status: StatusView::Unknown("default"@),
    }
}

/// An initialization that has begun knows its directory, and one that has written
/// the genesis has its persistent state there.
pub open spec fn init_wf<A, T>(vm: VmView<A, T>) -> bool {
    match vm.init {
        InitPhase::Idle => true,
        InitPhase::WritingGenesis => vm.chain_data_dir is Some,
        _ => vm.store is Some && vm.to_engine && vm.app_sender is Some,
    }
}

/// The event is one that the virtual machine waits for. It may begin at any time,
/// with a context unless there is no genesis; an id is at most as long as ids are.
pub open spec fn init_awaits<A, T>(vm: VmView<A, T>, event: InitEvent<A>) -> bool {
    match event {
        InitEvent::Start { ctx, genesis } => ctx is Some || genesis is Err,
        InitEvent::GenesisWritten { reply, app_sender } => vm.init == InitPhase::WritingGenesis,
        InitEvent::HasLastAccepted { reply } => vm.init == InitPhase::AskingLastAccepted,
        InitEvent::LastAccepted { reply } => vm.init == InitPhase::ReadingLastAccepted && (
        reply matches Ok(d) ==> d@.len() <= 32),
        InitEvent::GenesisAccepted { reply } => vm.init == InitPhase::AcceptingGenesis,
    }
}

/// The virtual machine whose initialization ended with an error.
pub open spec fn init_failed<A, T>(vm: VmView<A, T>) -> VmView<A, T> {
    VmView { init: InitPhase::Idle, ..vm }
}

/// The virtual machine whose initialization ended, with the block that it prefers.
/// Its transactions are dropped; its deployments stay.
pub open spec fn init_ready<A, T>(vm: VmView<A, T>, preferred: Seq<u8>) -> VmView<A, T> {
    VmView { preferred, mempool: Seq::empty(), init: InitPhase::Ready, ..vm }
}

/// What a version is, or the words on why it is none.
pub open spec fn version_outcome(r: Result<Version, String>) -> Result<
    (u64, u64, u64, Seq<char>, Seq<char>),
    Seq<char>,
> {
    match r {
        Ok(version) => Ok(version@),
        Err(words) => Err(words@),
    }
}

/// The first step of the initialization: the context is taken; then the version,
/// unless there is none; then the genesis, unless there is none.
pub open spec fn init_begin<A, T>(
    vm: VmView<A, T>,
    ctx: Option<Context>,
    version: Result<(u64, u64, u64, Seq<char>, Seq<char>), Seq<char>>,
    genesis: Result<Vec<u8>, Error>,
) -> (VmView<A, T>, Result<InitActionView<T>, ErrorView>) {
    let begun = VmView {
        chain_data_dir: match ctx {
            Some(c) => Some(c.chain_data_dir@),
            None => None,
        },
        ..vm
    };
    match version {
        Err(words) => (
            init_failed(begun),
            Err(crate::error::error_of(ErrorKind::Other, words)),
        ),
        Ok(number) => match genesis {
            Err(e) => (init_failed(VmView { version: number, ..begun }), Err(e@)),
            Ok(document) => (
                VmView {
                    version: number,
                    genesis: document@,
                    init: InitPhase::WritingGenesis,
                    ..begun
                },
                Ok(InitActionView::WriteGenesis { data_dir: (ctx->0).chain_data_dir@ }),
            ),
        },
    }
}

/// One step of the initialization: the virtual machine after an event, and what is
/// to be done next, or the error with which the initialization ends.
pub open spec fn init_step<A, T>(vm: VmView<A, T>, event: InitEvent<A>) -> (
    VmView<A, T>,
    Result<InitActionView<T>, ErrorView>,
) {
    match event {
        InitEvent::Start { ctx, genesis } => init_begin(vm, ctx, version_of(VERSION@), genesis),
        InitEvent::GenesisWritten { reply, app_sender } => match reply {
            Err(e) => (init_failed(vm), Err(e@)),
            Ok(_) => (
                VmView {
                    store: Some(vm.chain_data_dir),
                    to_engine: true,
                    app_sender: Some(app_sender),
                    init: InitPhase::AskingLastAccepted,
                    ..vm
                },
                Ok(InitActionView::AskLastAccepted),
            ),
        },
        InitEvent::HasLastAccepted { reply } => match state::reworded(
            reply,
            "failed to load last accepted block "@,
        ) {
            Err(e) => (init_failed(vm), Err(e)),
            Ok(true) => (
                VmView { init: InitPhase::ReadingLastAccepted, ..vm },
                Ok(InitActionView::ReadLastAccepted),
            ),
            Ok(false) => (
                VmView { init: InitPhase::AcceptingGenesis, ..vm },
                Ok(InitActionView::AcceptGenesis { block: genesis_block() }),
            ),
        },
        InitEvent::LastAccepted { reply } => match state::last_accepted_of(
            crate::error::outcome(reply),
        ) {
            Err(e) => (init_failed(vm), Err(e)),
            Ok(id) => (init_ready(vm, id), Ok(InitActionView::Finished)),
        },
        InitEvent::GenesisAccepted { reply } => match reply {
            Err(e) => (init_failed(vm), Err(e@)),
            Ok(id) => (init_ready(vm, id@), Ok(InitActionView::Finished)),
        },
    }
}

impl<A, T> Vm<A, T> {
    /// Takes one step of the initialization. It begins with the context and the
    /// genesis; after that it is told how what it asked for went. The beginning does
    /// not fail for the version, which is that of a release.
    pub fn initialize(&mut self, event: InitEvent<A>) -> (r: Result<InitAction<T>, Error>)
        requires
            init_wf(old(self)@),
            init_awaits(old(self)@, event),
        ensures
            init_wf(final(self)@),
            (final(self)@, crate::error::outcome(r)) == init_step(old(self)@, event),
            event matches InitEvent::Start { ctx, genesis } ==> (
                final(self)@,
                crate::error::outcome(r),
            ) == init_begin(
                old(self)@,
                ctx,
                Ok((0u64, 1u64, 0u64, Seq::empty(), Seq::empty())),
                genesis,
            ),
            final(self).deploy_mempool == old(self).deploy_mempool,
            final(self).state.bootstrapped == old(self).state.bootstrapped,
            match event {
                InitEvent::Start { ctx, genesis } => {
                    &&& final(self).state.ctx == ctx
                    &&& final(self).state.version.major == 0
                    &&& final(self).state.version.minor == 1
                    &&& final(self).state.version.patch == 0
                    &&& final(self).mempool == old(self).mempool
                    &&& final(self).state.preferred == old(self).state.preferred
                    &&& final(self).state.state == old(self).state.state
                    &&& match genesis {
                        Ok(document) => {
                            &&& r matches Ok(InitAction::WriteGenesis { data_dir })
                            &&& data_dir@ == (ctx->0).chain_data_dir@
                            &&& final(self).state.genesis == document
                            &&& final(self).init == InitPhase::WritingGenesis
                        },
                        Err(e) => {
                            &&& r == Err::<InitAction<T>, Error>(e)
                            &&& final(self).state.genesis == old(self).state.genesis
                            &&& final(self).init == InitPhase::Idle
                        },
                    }
                },
                InitEvent::GenesisWritten { reply, app_sender } => {
                    &&& final(self).mempool == old(self).mempool
                    &&& final(self).state.preferred == old(self).state.preferred
                    &&& final(self).state.genesis == old(self).state.genesis
                    &&& final(self).state.ctx == old(self).state.ctx
                    &&& match reply {
                        Ok(_) => {
                            &&& r matches Ok(InitAction::AskLastAccepted)
                            &&& final(self).state.state matches Some(store)
                            &&& store.data_dir matches Some(dir)
                            &&& dir@ == (old(self).state.ctx->0).chain_data_dir@
                            &&& final(self).state.to_engine
                            &&& final(self).app_sender == Some(app_sender)
                            &&& final(self).init == InitPhase::AskingLastAccepted
                        },
                        Err(e) => {
                            &&& r == Err::<InitAction<T>, Error>(e)
                            &&& final(self).state == old(self).state
                            &&& final(self).app_sender == old(self).app_sender
                            &&& final(self).init == InitPhase::Idle
                        },
                    }
                },
                InitEvent::HasLastAccepted { reply } => {
                    &&& final(self).mempool == old(self).mempool
                    &&& final(self).state == old(self).state
                    &&& final(self).app_sender == old(self).app_sender
                    &&& match reply {
                        Ok(true) => {
                            &&& r matches Ok(InitAction::ReadLastAccepted)
                            &&& final(self).init == InitPhase::ReadingLastAccepted
                        },
                        Ok(false) => {
                            &&& r matches Ok(InitAction::AcceptGenesis { block })
                            &&& forall|i: int| 0 <= i < 32 ==> block.parent_id.0@[i] == 0
                            &&& block.height == 0
                            &&& block.timestamp == 0
                            &&& block.txs@.len() == 0
                            &&& block.deploy_txs@.len() == 0
                            &&& block.status matches Status::Unknown(s)
                            &&& s@ == "default"@
                            &&& final(self).init == InitPhase::AcceptingGenesis
                        },
                        Err(words) => {
                            &&& r matches Err(e)
                            &&& e.kind == ErrorKind::Other
                            &&& e.message@ == "failed to load last accepted block "@ + words@
                            &&& final(self).init == InitPhase::Idle
                        },
                    }
                },
                InitEvent::LastAccepted { reply } => {
                    &&& final(self).app_sender == old(self).app_sender
                    &&& final(self).state == (crate::vm::State {
                        preferred: final(self).state.preferred,
                        ..old(self).state
                    })
                    &&& match reply {
                        Ok(d) => {
                            &&& r matches Ok(InitAction::Finished)
                            &&& forall|i: int|
                                0 <= i < d@.len() ==> final(self).state.preferred.0@[i] == d@[i]
                            &&& forall|i: int|
                                d@.len() <= i < 32 ==> final(self).state.preferred.0@[i] == 0
                            &&& final(self).mempool@.len() == 0
                            &&& final(self).init == InitPhase::Ready
                        },
                        Err(e) => if e.kind == ErrorKind::NotFound && crate::text::contains(
                            e.message@,
                            "not found"@,
                        ) {
                            &&& r matches Ok(InitAction::Finished)
                            &&& forall|i: int|
                                0 <= i < 32 ==> final(self).state.preferred.0@[i] == 0
                            &&& final(self).mempool@.len() == 0
                            &&& final(self).init == InitPhase::Ready
                        } else {
                            &&& r matches Err(f)
                            &&& f.kind == e.kind
                            &&& f.message@ == e.message@
                            &&& final(self).state == old(self).state
                            &&& final(self).mempool == old(self).mempool
                            &&& final(self).init == InitPhase::Idle
                        },
                    }
                },
                InitEvent::GenesisAccepted { reply } => {
                    &&& final(self).app_sender == old(self).app_sender
                    &&& match reply {
                        Ok(id) => {
                            &&& r matches Ok(InitAction::Finished)
                            &&& final(self).state == (crate::vm::State {
                                preferred: id,
                                ..old(self).state
                            })
                            &&& final(self).mempool@.len() == 0
                            &&& final(self).init == InitPhase::Ready
                        },
                        Err(e) => {
                            &&& r == Err::<InitAction<T>, Error>(e)
                            &&& final(self).state == old(self).state
                            &&& final(self).mempool == old(self).mempool
                            &&& final(self).init == InitPhase::Idle
                        },
                    }
                },
            },
    {
        match event {
            InitEvent::Start { ctx, genesis } => {
                proof {
                    reveal_strlit("0.1.0");
                    reveal_strlit(".");
                    assert(VERSION@ =~= release_text(0, 1, 0));
                }
                self.begin(ctx, parse_version(VERSION), genesis)
            },
            InitEvent::GenesisWritten { reply, app_sender } => {
                match reply {
                    Err(e) => {
                        self.init = InitPhase::Idle;
                        Err(e)
                    },
                    Ok(_) => {
                        let data_dir = match &self.state.ctx {
                            Some(ctx) => Some(ctx.chain_data_dir.clone()),
                            None => None,
                        };
                        self.state.state = Some(state::State { data_dir });
                        self.state.to_engine = true;
                        self.app_sender = Some(app_sender);
                        self.init = InitPhase::AskingLastAccepted;
                        Ok(InitAction::AskLastAccepted)
                    },
                }
            },
            InitEvent::HasLastAccepted { reply } => {
                match state::State::has_last_accepted_block(reply) {
                    Err(e) => {
                        self.init = InitPhase::Idle;
                        Err(e)
                    },
                    Ok(true) => {
                        self.init = InitPhase::ReadingLastAccepted;
                        Ok(InitAction::ReadLastAccepted)
                    },
                    Ok(false) => {
                        self.init = InitPhase::AcceptingGenesis;
                        let block = NewBlock {
                            parent_id: Id::empty(),
                            height: 0,
                            timestamp: 0,
                            txs: Vec::new(),
                            deploy_txs: Vec::new(),
                            status: Status::default(),
                        };
                        assert(block@ =~= genesis_block());
                        Ok(InitAction::AcceptGenesis { block })
                    },
                }
            },
            InitEvent::LastAccepted { reply } => {
                match state::State::get_last_accepted_block_id(reply) {
                    Err(e) => {
                        self.init = InitPhase::Idle;
                        Err(e)
                    },
                    Ok(id) => Ok(self.become_ready(id)),
                }
            },
            InitEvent::GenesisAccepted { reply } => {
                match reply {
                    Err(e) => {
                        self.init = InitPhase::Idle;
                        Err(e)
                    },
                    Ok(id) => Ok(self.become_ready(id)),
                }
            },
        }
    }

    /// Takes the first step of the initialization, given the parsed version or the
    /// words on why it is none.
    pub fn begin(
        &mut self,
        ctx: Option<Context>,
        version: Result<Version, String>,
        genesis: Result<Vec<u8>, Error>,
    ) -> (r: Result<InitAction<T>, Error>)
        requires
            ctx is Some || version is Err || genesis is Err,
        ensures
            init_wf(final(self)@),
            (final(self)@, crate::error::outcome(r)) == init_begin(
                old(self)@,
                ctx,
                version_outcome(version),
                genesis,
            ),
            final(self).deploy_mempool == old(self).deploy_mempool,
            final(self).state.bootstrapped == old(self).state.bootstrapped,
            final(self).mempool == old(self).mempool,
            final(self).app_sender == old(self).app_sender,
            final(self).state.ctx == ctx,
            final(self).state.preferred == old(self).state.preferred,
            final(self).state.state == old(self).state.state,
            final(self).state.to_engine == old(self).state.to_engine,
            version matches Ok(number) ==> final(self).state.version == number,
            version is Err ==> final(self).state.version == old(self).state.version,
            version matches Err(words) ==> {
                &&& r matches Err(e)
                &&& e.kind == ErrorKind::Other
                &&& e.message@ == words@
            },
            version is Ok && genesis is Err ==> r is Err && r->Err_0 == genesis->Err_0,
            version is Ok && genesis is Ok ==> {
                &&& r matches Ok(InitAction::WriteGenesis { data_dir })
                &&& data_dir@ == (ctx->0).chain_data_dir@
                &&& final(self).state.genesis == genesis->Ok_0
                &&& final(self).init == InitPhase::WritingGenesis
            },
            version is Err || genesis is Err ==> {
                &&& final(self).state.genesis == old(self).state.genesis
                &&& final(self).init == InitPhase::Idle
            },
    {
        let data_dir = match &ctx {
            Some(c) => c.chain_data_dir.clone(),
            None => String::new(),
        };
        self.state.ctx = ctx;
        match version {
            Err(words) => {
                self.init = InitPhase::Idle;
                Err(Error::new(ErrorKind::Other, words.as_str()))
            },
            Ok(number) => {
                self.state.version = number;
                match genesis {
                    Err(e) => {
                        self.init = InitPhase::Idle;
                        Err(e)
                    },
                    Ok(document) => {
                        self.state.genesis = document;
                        self.init = InitPhase::WritingGenesis;
                        Ok(InitAction::WriteGenesis { data_dir })
                    },
                }
            },
        }
    }

    fn become_ready(&mut self, id: Id) -> (r: InitAction<T>)
        ensures
            final(self)@ == init_ready(old(self)@, id@),
            r@ == InitActionView::<T>::Finished,
            r is Finished,
            final(self).state == (crate::vm::State { preferred: id, ..old(self).state }),
            final(self).mempool@.len() == 0,
            final(self).deploy_mempool == old(self).deploy_mempool,
            final(self).app_sender == old(self).app_sender,
            final(self).init == InitPhase::Ready,
    {
        self.state.preferred = id;
        self.mempool = VecDeque::with_capacity(100);
        self.init = InitPhase::Ready;
        InitAction::Finished
    }
}

/// A virtual machine whose chain has an accepted block prefers it once it is
/// initialized; its persistent state lies in the chain's directory, and it drops
/// its transactions but keeps its deployments.
pub proof fn initialized_on_last_accepted<A, T>(
    vm: VmView<A, T>,
    ctx: Context,
    version: Version,
    genesis: Vec<u8>,
    app_sender: A,
    last: Id,
    reply: Vec<u8>,
)
    requires
        reply@ == last@,
    ensures
        ({
            let begun = init_begin(
                vm,
                Some(ctx),
                version_outcome(Ok(version)),
                Ok(genesis),
            ).0;
            let written = init_step(
                begun,
                InitEvent::GenesisWritten { reply: Ok(()), app_sender },
            ).0;
            let asked = init_step(written, InitEvent::HasLastAccepted { reply: Ok(true) }).0;
            let (after, action) = init_step(asked, InitEvent::LastAccepted { reply: Ok(reply) });
            &&& action == Ok::<InitActionView<T>, ErrorView>(InitActionView::Finished)
            &&& after == (VmView {
                chain_data_dir: Some(ctx.chain_data_dir@),
                version: version@,
                genesis: genesis@,
                store: Some(Some(ctx.chain_data_dir@)),
                preferred: last@,
                to_engine: true,
                app_sender: Some(app_sender),
                mempool: Seq::empty(),
                init: InitPhase::Ready,
                ..vm
            })
        }),
{
    crate::ids::id_bytes_round_trip(last);
}

/// A virtual machine whose chain has no accepted block makes the genesis block,
/// and prefers it once it is accepted.
pub proof fn initialized_on_genesis<A, T>(
    vm: VmView<A, T>,
    ctx: Context,
    version: Version,
    genesis: Vec<u8>,
    app_sender: A,
    genesis_id: Id,
)
    ensures
        ({
            let begun = init_begin(
                vm,
                Some(ctx),
                version_outcome(Ok(version)),
                Ok(genesis),
            ).0;
            let written = init_step(
                begun,
                InitEvent::GenesisWritten { reply: Ok(()), app_sender },
            ).0;
            let (asked, question) = init_step(
                written,
                InitEvent::HasLastAccepted { reply: Ok(false) },
            );
            let (after, action) = init_step(
                asked,
                InitEvent::GenesisAccepted { reply: Ok(genesis_id) },
            );
            &&& question == Ok::<InitActionView<T>, ErrorView>(
                InitActionView::AcceptGenesis { block: genesis_block() },
            )
            &&& action == Ok::<InitActionView<T>, ErrorView>(InitActionView::Finished)
            &&& after.preferred == genesis_id@
            &&& after.store == Some(Some(ctx.chain_data_dir@))
            &&& after.mempool == Seq::<T>::empty()
            &&& after.deploy_mempool == vm.deploy_mempool
            &&& after.init == InitPhase::Ready
        }),
{
}

/// An initialization that ends with an error leaves the mempools and the preferred
/// block as they were; so does every step before the last.
pub proof fn unfinished_initialization_keeps_mempools<A, T>(vm: VmView<A, T>, event: InitEvent<A>)
    requires
        init_awaits(vm, event),
        init_step(vm, event).1 != Ok::<InitActionView<T>, ErrorView>(InitActionView::Finished),
    ensures
        init_step(vm, event).0.mempool == vm.mempool,
        init_step(vm, event).0.deploy_mempool == vm.deploy_mempool,
        init_step(vm, event).0.preferred == vm.preferred,
        init_step(vm, event).0.bootstrapped == vm.bootstrapped,
{
}

/// No step of the initialization drops a deployment or ends the bootstrapping.
pub proof fn initialization_keeps_deployments<A, T>(vm: VmView<A, T>, event: InitEvent<A>)
    requires
        init_awaits(vm, event),
    ensures
        init_step(vm, event).0.deploy_mempool == vm.deploy_mempool,
        init_step(vm, event).0.bootstrapped == vm.bootstrapped,
{
}

/// What is to be done next is what it says: nothing of it is left out of, or changed
/// in, what is said of it.
pub proof fn actions_are_what_they_say<T>(dir: String, block: NewBlock<T>, version: Version)
    ensures
        (InitAction::<T>::WriteGenesis { data_dir: dir })@ == (InitActionView::<T>::WriteGenesis {
            data_dir: dir@,
        }),
        InitAction::<T>::AskLastAccepted@ == InitActionView::<T>::AskLastAccepted,
        InitAction::<T>::ReadLastAccepted@ == InitActionView::<T>::ReadLastAccepted,
        (InitAction::AcceptGenesis { block })@ == (InitActionView::AcceptGenesis {
            block: block@,
        }),
        InitAction::<T>::Finished@ == InitActionView::<T>::Finished,
        version@ == (version.major, version.minor, version.patch, version.pre@, version.build@),
        version_outcome(Ok(version)) == Ok::<(u64, u64, u64, Seq<char>, Seq<char>), Seq<char>>(
            version@,
        ),
{
}

/// The genesis block is the first of its chain: it has no parent, height and time are
/// zero, it holds nothing, and its status is not known.
pub proof fn the_genesis_block_is_the_first<T>()
    ensures
        genesis_block::<T>().parent_id == Seq::new(32, |i: int| 0u8),
        genesis_block::<T>().height == 0,
        genesis_block::<T>().timestamp == 0,
        genesis_block::<T>().txs.len() == 0,
        genesis_block::<T>().deploy_txs.len() == 0,
        genesis_block::<T>().status == StatusView::Unknown("default"@),
{
    assert(crate::ids::zeros32() =~= Seq::new(32, |i: int| 0u8));
}

/// Whatever step fails, the machine is idle again, and the failure is answered with the
/// error that came; no step that succeeds leaves it idle. A failure after the beginning
/// changes nothing but that.
pub proof fn a_failed_step_leaves_the_machine_idle<A, T>(vm: VmView<A, T>, event: InitEvent<A>)
    requires
        init_awaits(vm, event),
    ensures
        ({
            let (after, action) = init_step(vm, event);
            &&& action is Err <==> after.init == InitPhase::Idle
            &&& action is Err && !(event is Start) ==> after == (VmView {
                init: InitPhase::Idle,
                ..vm
            })
            &&& event matches InitEvent::GenesisWritten { reply: Err(e), app_sender } ==> action
                == Err::<InitActionView<T>, ErrorView>(e@)
            &&& event matches InitEvent::GenesisAccepted { reply: Err(e) } ==> action == Err::<
                InitActionView<T>,
                ErrorView,
            >(e@)
        }),
{
}

/// Each step that succeeds asks for the next, and the last asks for nothing: after the
/// beginning the genesis is written, then the database is asked, and then either the
/// last accepted block is read or the genesis block is accepted.
pub proof fn steps_follow_each_other<A, T>(vm: VmView<A, T>, event: InitEvent<A>)
    requires
        init_awaits(vm, event),
        init_step(vm, event).1 is Ok,
    ensures
        ({
            let (after, action) = init_step(vm, event);
            match after.init {
                InitPhase::Idle => false,
                InitPhase::WritingGenesis => event is Start && action->Ok_0 is WriteGenesis,
                InitPhase::AskingLastAccepted => vm.init == InitPhase::WritingGenesis
                    && action->Ok_0 is AskLastAccepted,
                InitPhase::ReadingLastAccepted => vm.init == InitPhase::AskingLastAccepted
                    && action->Ok_0 is ReadLastAccepted,
                InitPhase::AcceptingGenesis => vm.init == InitPhase::AskingLastAccepted
                    && action->Ok_0 is AcceptGenesis,
                InitPhase::Ready => (vm.init == InitPhase::ReadingLastAccepted || vm.init
                    == InitPhase::AcceptingGenesis) && action->Ok_0 is Finished,
            }
        }),
{
}

/// A machine that is ready prefers the block that it was told of, has dropped its
/// transactions, and has kept everything else.
pub proof fn ready_machines_prefer_the_block<A, T>(vm: VmView<A, T>, id: Id, reply: Vec<u8>)
    requires
        reply@ == id.0@,
    ensures
        ({
            let by_genesis = init_step(vm, InitEvent::GenesisAccepted { reply: Ok(id) }).0;
            let by_reading = init_step(vm, InitEvent::LastAccepted { reply: Ok(reply) }).0;
            &&& by_genesis == by_reading
            &&& by_genesis.preferred == id.0@
            &&& by_genesis.mempool.len() == 0
            &&& by_genesis.deploy_mempool == vm.deploy_mempool
            &&& by_genesis == (VmView {
                preferred: id.0@,
                mempool: by_genesis.mempool,
                init: InitPhase::Ready,
                ..vm
            })
        }),
{
    crate::ids::id_bytes_round_trip(id);
}

/// What was asked for is awaited: whatever comes back of an action, good or bad, the
/// machine can take it, as long as an id is no longer than ids are; and it can begin
/// again at any time. It stays well-formed throughout.
pub proof fn what_was_asked_for_is_awaited<A, T>(
    vm: VmView<A, T>,
    event: InitEvent<A>,
    ctx: Context,
    genesis: Result<Vec<u8>, Error>,
    written: Result<(), Error>,
    app_sender: A,
    has: Result<bool, String>,
    last: Result<Vec<u8>, Error>,
    accepted: Result<Id, Error>,
)
    requires
        init_wf(vm),
        init_awaits(vm, event),
        last matches Ok(d) ==> d@.len() <= 32,
    ensures
        ({
            let (after, action) = init_step(vm, event);
            &&& init_wf(after)
            &&& init_awaits(after, InitEvent::<A>::Start { ctx: Some(ctx), genesis })
            &&& action matches Ok(InitActionView::WriteGenesis { data_dir }) ==> init_awaits(
                after,
                InitEvent::GenesisWritten { reply: written, app_sender },
            )
            &&& action matches Ok(InitActionView::AskLastAccepted) ==> init_awaits(
                after,
                InitEvent::<A>::HasLastAccepted { reply: has },
            )
            &&& action matches Ok(InitActionView::ReadLastAccepted) ==> init_awaits(
                after,
                InitEvent::<A>::LastAccepted { reply: last },
            )
            &&& action matches Ok(InitActionView::AcceptGenesis { block }) ==> init_awaits(
                after,
                InitEvent::<A>::GenesisAccepted { reply: accepted },
            )
        }),
{
}

} // verus!
