//! Blocks.
pub mod deploy_tx;

use crate::block::deploy_tx::DeployTx;
use crate::ids::Id;
use vstd::prelude::*;

verus! {

/// What consensus has decided of a block.
#[derive(Debug)]
pub enum Status {
    Processing,
    Rejected,
    Accepted,
    Unknown(String),
}

/// A status, with its text as a sequence.
pub enum StatusView {
    Processing,
    Rejected,
    Accepted,
    Unknown(Seq<char>),
}

impl View for Status {
    type V = StatusView;

    open spec fn view(&self) -> StatusView {
        match self {
            Status::Processing => StatusView::Processing,
            Status::Rejected => StatusView::Rejected,
            Status::Accepted => StatusView::Accepted,
            Status::Unknown(s) => StatusView::Unknown(s@),
        }
    }
}

impl Clone for Status {
    fn clone(&self) -> (r: Self)
        ensures
            r@ == self@,
            (r is Processing) == (self is Processing),
            (r is Rejected) == (self is Rejected),
            (r is Accepted) == (self is Accepted),
            *self matches Status::Unknown(s) ==> r matches Status::Unknown(t) && t@ == s@,
    {
        match self {
            Status::Processing => Status::Processing,
            Status::Rejected => Status::Rejected,
            Status::Accepted => Status::Accepted,
            Status::Unknown(s) => Status::Unknown(s.clone()),
        }
    }
}

impl Default for Status {
    fn default() -> (r: Self)
        ensures
            r@ == StatusView::Unknown("default"@),
            r matches Status::Unknown(s) && s@ == "default"@,
    {
        Status::Unknown("default".to_owned())
    }
}

/// A block: its place in the chain, its serialized form, the id that this form
/// gives it, and its status.
#[derive(Debug)]
pub struct Block {
    pub parent_id: Id,
    pub height: u64,
    pub timestamp: u64,
    pub bytes: Vec<u8>,
    pub id: Id,
    pub status: Status,
}

/// What a block holds.
#[verifier::ext_equal]
pub struct BlockView {
    pub parent_id: Seq<u8>,
    pub height: u64,
    pub timestamp: u64,
    pub bytes: Seq<u8>,
    pub id: Seq<u8>,
    pub status: StatusView,
}

impl View for Block {
    type V = BlockView;

    open spec fn view(&self) -> BlockView {
        BlockView {
            parent_id: self.parent_id@,
            height: self.height,
            timestamp: self.timestamp,
            bytes: self.bytes@,
            id: self.id@,
            status: self.status@,
        }
    }
}

impl Block {
    /// Gives the block a status.
    pub fn set_status(&mut self, status: Status)
        ensures
            final(self)@ == (BlockView { status: status@, ..old(self)@ }),
            *final(self) == (Block { status, ..*old(self) }),
    {
        self.status = status;
    }
}

/// A block that is to be made, out of transactions and deployments.
#[derive(Debug)]
pub struct NewBlock<T> {
    pub parent_id: Id,
    pub height: u64,
    pub timestamp: u64,
    pub txs: Vec<T>,
    pub deploy_txs: Vec<DeployTx>,
    pub status: Status,
}

/// What a block that is to be made holds.
#[verifier::ext_equal]
pub struct NewBlockView<T> {
    pub parent_id: Seq<u8>,
    pub height: u64,
    pub timestamp: u64,
    pub txs: Seq<T>,
    pub deploy_txs: Seq<crate::block::deploy_tx::DeployTxView>,
    pub status: StatusView,
}

impl<T> View for NewBlock<T> {
    type V = NewBlockView<T>;

    open spec fn view(&self) -> NewBlockView<T> {
        NewBlockView {
            parent_id: self.parent_id@,
            height: self.height,
            timestamp: self.timestamp,
            txs: self.txs@,
            deploy_txs: crate::block::deploy_tx::deployments_of(self.deploy_txs@),
            status: self.status@,
        }
    }
}

/// A status, a block, and a block that is to be made are all that they hold: nothing
/// of them is left out of, or changed in, what is said of them.
pub proof fn blocks_are_what_they_hold<T>(block: Block, new_block: NewBlock<T>, text: String)
    ensures
        block@.parent_id == block.parent_id.0@,
        block@.height == block.height,
        block@.timestamp == block.timestamp,
        block@.bytes == block.bytes@,
        block@.id == block.id.0@,
        block@.status == block.status@,
        new_block@.parent_id == new_block.parent_id.0@,
        new_block@.height == new_block.height,
        new_block@.timestamp == new_block.timestamp,
        new_block@.txs == new_block.txs@,
        new_block@.deploy_txs.len() == new_block.deploy_txs@.len(),
        forall|i: int|
            0 <= i < new_block.deploy_txs@.len() ==> #[trigger] new_block@.deploy_txs[i]
                == new_block.deploy_txs@[i]@,
        new_block@.status == new_block.status@,
        Status::Processing@ == StatusView::Processing,
        Status::Rejected@ == StatusView::Rejected,
        Status::Accepted@ == StatusView::Accepted,
        Status::Unknown(text)@ == StatusView::Unknown(text@),
{
}

} // verus!
