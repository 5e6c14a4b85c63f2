//! The block store: what is put into the chain's database, and what is made of
//! what the database answers.
use crate::block::{Block, BlockView, Status, StatusView};
use crate::error::{Error, ErrorKind, ErrorView};
use crate::ids::{Id, LEN};
use crate::text::{contains_text, join};
use vstd::prelude::*;
use vstd::slice::*;
use vstd::string::*;

verus! {

/// Represents persistent block and chain states for Vm: where the database lies,
/// or that it is kept in memory.
#[derive(Debug)]
pub struct State {
    pub data_dir: Option<String>,
}

/// Where the database lies.
pub open spec fn dir_of(state: State) -> Option<Seq<char>> {
    match state.data_dir {
        Some(dir) => Some(dir@),
        None => None,
    }
}

impl Default for State {
    /// The store in memory.
    fn default() -> (r: Self)
        ensures
            dir_of(r) is None,
            r.data_dir is None,
    {
        State { data_dir: None }
    }
}

/// A value that is to be put into the database under a key.
#[derive(Debug)]
pub struct DbPut {
    pub key: Vec<u8>,
    pub value: Vec<u8>,
}

/// What is to be put, and under which key.
#[verifier::ext_equal]
pub struct PutView {
    pub key: Seq<u8>,
    pub value: Seq<u8>,
}

impl View for DbPut {
    type V = PutView;

    open spec fn view(&self) -> PutView {
        PutView { key: self.key@, value: self.value@ }
    }
}

/// The first byte of a block's key.
pub const BLOCK_WITH_STATUS_PREFIX: u8 = 0;

/// The second byte of a block's key: a slash.
pub const DELIMITER: u8 = 47;

/// The key of the id of the block that was accepted last.
pub open spec fn last_accepted_key() -> Seq<u8> {
    vstd::utf8::encode_utf8("last_accepted_block"@)
}

/// The key of a block: the prefix, the delimiter, and the block's id.
pub open spec fn block_key(id: Seq<u8>) -> Seq<u8> {
    seq![BLOCK_WITH_STATUS_PREFIX, DELIMITER] + id
}

/// The key of the id of the block that was accepted last.
pub fn last_accepted_block_key() -> (r: Vec<u8>)
    ensures
        r@ == last_accepted_key(),
        r@ == vstd::utf8::encode_utf8("last_accepted_block"@),
{
    slice_to_vec("last_accepted_block".as_bytes())
}

/// The key of a block.
pub fn block_with_status_key(blk_id: &Id) -> (r: Vec<u8>)
    ensures
        r@ == block_key(blk_id@),
        r@ == seq![0u8, 47u8] + blk_id.0@,
{
    let mut k: Vec<u8> = Vec::with_capacity(LEN + 2);
    k.push(BLOCK_WITH_STATUS_PREFIX);
    k.push(DELIMITER);
    let mut id = blk_id.to_vec();
    k.append(&mut id);
    assert(k@ =~= block_key(blk_id@));
    k
}

/// What is stored of a block: its serialized form and its status.
#[derive(Debug)]
pub struct BlockWithStatus {
    pub block_bytes: Vec<u8>,
    pub status: Status,
}

/// What is stored of a block, as views.
#[verifier::ext_equal]
pub struct RecordView {
    pub block_bytes: Seq<u8>,
    pub status: StatusView,
}

impl View for BlockWithStatus {
    type V = RecordView;

    open spec fn view(&self) -> RecordView {
        RecordView { block_bytes: self.block_bytes@, status: self.status@ }
    }
}

/// What came back of reading a block.
#[derive(Debug)]
pub enum BlockRead {
    /// The database did not give a record.
    NoRecord(Error),
    /// The record could not be decoded, with the decoder's words.
    BadRecord(String),
    /// The block in the record could not be parsed.
    BadBlock(Error),
    /// The parsed block, and the status in the record.
    Found(Block, Status),
}

/// What came back of reading a block, as views.
pub enum BlockReadView {
    NoRecord(ErrorView),
    BadRecord(Seq<char>),
    BadBlock(ErrorView),
    Found(BlockView, StatusView),
}

impl View for BlockRead {
    type V = BlockReadView;

    open spec fn view(&self) -> BlockReadView {
        match self {
            BlockRead::NoRecord(e) => BlockReadView::NoRecord(e@),
            BlockRead::BadRecord(words) => BlockReadView::BadRecord(words@),
            BlockRead::BadBlock(e) => BlockReadView::BadBlock(e@),
            BlockRead::Found(block, status) => BlockReadView::Found(block@, status@),
        }
    }
}

/// The block that was read, or the error that is answered.
pub open spec fn block_read(read: BlockReadView) -> Result<BlockView, ErrorView> {
    match read {
        BlockReadView::NoRecord(e) => Err(e),
        BlockReadView::BadRecord(words) => Err(
            crate::error::error_of(
                ErrorKind::Other,
                "failed to deserialize BlockStatus from JSON "@ + words,
            ),
        ),
        BlockReadView::BadBlock(e) => Err(e),
        BlockReadView::Found(block, status) => Ok(BlockView { status, ..block }),
    }
}

/// What is stored of a block.
pub open spec fn record_of(block: BlockView) -> RecordView {
    RecordView { block_bytes: block.bytes, status: block.status }
}

/// What is put for a block to be stored, given its encoded record; or the error
/// where it could not be encoded, with the encoder's words.
pub open spec fn block_put(block: BlockView, encoded: Result<Seq<u8>, Seq<char>>) -> Result<
    PutView,
    ErrorView,
> {
    match encoded {
        Ok(value) => Ok(PutView { key: block_key(block.id), value }),
        Err(words) => Err(
            crate::error::error_of(
                ErrorKind::Other,
                "failed to serialize BlockStatus to JSON bytes "@ + words,
            ),
        ),
    }
}

/// What is put for a block to be the one that was accepted last.
pub open spec fn accepted_put(id: Seq<u8>) -> PutView {
    PutView { key: last_accepted_key(), value: id }
}

/// What an encoder gave.
pub open spec fn encoder_outcome(encoded: Result<Vec<u8>, String>) -> Result<Seq<u8>, Seq<char>> {
    match encoded {
        Ok(value) => Ok(value@),
        Err(words) => Err(words@),
    }
}

/// The id of the block that was accepted last, from what the database answers:
/// none yet is the empty id.
pub open spec fn last_accepted_of(reply: Result<Seq<u8>, ErrorView>) -> Result<
    Seq<u8>,
    ErrorView,
> {
    match reply {
        Ok(d) => Ok(crate::ids::padded(d)),
        Err(e) => if e.kind == ErrorKind::NotFound && crate::text::contains(
            e.message,
            "not found"@,
        ) {
            Ok(crate::ids::zeros32())
        } else {
            Err(e)
        },
    }
}

/// A reply of the database without a value, with the database's words prefixed
/// where it failed.
pub open spec fn reworded<T>(reply: Result<T, String>, prefix: Seq<char>) -> Result<T, ErrorView> {
    match reply {
        Ok(value) => Ok(value),
        Err(words) => Err(crate::error::error_of(ErrorKind::Other, prefix + words@)),
    }
}

/// Puts a prefix before the words of a failure.
fn reword<T>(reply: Result<T, String>, prefix: &str) -> (r: Result<T, Error>)
    ensures
        match r {
            Ok(value) => reworded(reply, prefix@) == Ok::<T, ErrorView>(value),
            Err(e) => reworded(reply, prefix@) == Err::<T, ErrorView>(e@),
        },
{
    match reply {
        Ok(value) => Ok(value),
        Err(words) => {
            let message = join(prefix, words.as_str());
            Err(Error::new(ErrorKind::Other, message.as_str()))
        },
    }
}

impl State {
    /// The store in a directory.
    pub fn new(data_dir: String) -> (r: Self)
        ensures
            dir_of(r) == Some(data_dir@),
            r.data_dir == Some(data_dir),
    {
        State { data_dir: Some(data_dir) }
    }

    /// What is to be put for a block to be the one that was accepted last.
    pub fn set_last_accepted_block(blk_id: &Id) -> (r: DbPut)
        ensures
            r@ == accepted_put(blk_id@),
            r.key@ == vstd::utf8::encode_utf8("last_accepted_block"@),
            r.value@ == blk_id.0@,
    {
        DbPut { key: last_accepted_block_key(), value: blk_id.to_vec() }
    }

    /// What the database answered to the put of the block that was accepted last.
    pub fn set_last_accepted_block_reply(reply: Result<(), String>) -> (r: Result<(), Error>)
        ensures
            crate::error::outcome(r) == reworded(reply, "failed to put last accepted block: "@),
            match reply {
                Ok(value) => r == Ok::<(), Error>(value),
                Err(words) => r matches Err(e) && e.kind == ErrorKind::Other && e.message@
                    == "failed to put last accepted block: "@ + words@,
            },
    {
        reword(reply, "failed to put last accepted block: ")
    }

    /// Whether a block was accepted: what the database answered to the question
    /// whether it has the key of the last one.
    pub fn has_last_accepted_block(reply: Result<bool, String>) -> (r: Result<bool, Error>)
        ensures
            crate::error::outcome(r) == reworded(reply, "failed to load last accepted block "@),
            match reply {
                Ok(value) => r == Ok::<bool, Error>(value),
                Err(words) => r matches Err(e) && e.kind == ErrorKind::Other && e.message@
                    == "failed to load last accepted block "@ + words@,
            },
    {
        reword(reply, "failed to load last accepted block ")
    }

    /// The id of the block that was accepted last, from what the database answered
    /// for its key.
    pub fn get_last_accepted_block_id(reply: Result<Vec<u8>, Error>) -> (r: Result<
        Id,
        Error,
    >)
        requires
            reply matches Ok(d) ==> d@.len() <= 32,
        ensures
            crate::error::outcome(r) == last_accepted_of(crate::error::outcome(reply)),
            match reply {
                Ok(d) => {
                    &&& r matches Ok(id)
                    &&& forall|i: int| 0 <= i < d@.len() ==> id.0@[i] == d@[i]
                    &&& forall|i: int| d@.len() <= i < 32 ==> id.0@[i] == 0
                },
                Err(e) => if e.kind == ErrorKind::NotFound && crate::text::contains(
                    e.message@,
                    "not found"@,
                ) {
                    r matches Ok(id) && forall|i: int| 0 <= i < 32 ==> id.0@[i] == 0
                } else {
                    r matches Err(f) && f.kind == e.kind && f.message@ == e.message@
                },
            },
    {
        match reply {
            Ok(d) => Ok(Id::from_slice(d.as_slice())),
            Err(e) => {
                if e.kind == ErrorKind::NotFound && contains_text(
                    e.message.as_str(),
                    "not found",
                ) {
                    return Ok(Id::empty());
                }
                Err(e)
            },
        }
    }

    /// What is to be stored of a block.
    pub fn record(block: &Block) -> (r: BlockWithStatus)
        ensures
            r@ == record_of(block@),
            r.block_bytes@ == block.bytes@,
            r.status@ == block.status@,
    {
        BlockWithStatus {
            block_bytes: slice_to_vec(block.bytes.as_slice()),
            status: block.status.clone(),
        }
    }

    /// What is to be put for a block to be stored, given its encoded record or the
    /// encoder's words. How a record is encoded is left to the caller.
    pub fn put_block(block: &Block, encoded: Result<Vec<u8>, String>) -> (r: Result<
        DbPut,
        Error,
    >)
        ensures
            crate::error::outcome(r) == block_put(block@, encoder_outcome(encoded)),
            match encoded {
                Ok(value) => r matches Ok(put) && put.key@ == seq![0u8, 47u8] + block.id.0@
                    && put.value@ == value@,
                Err(words) => r matches Err(e) && e.kind == ErrorKind::Other && e.message@
                    == "failed to serialize BlockStatus to JSON bytes "@ + words@,
            },
    {
        match reword(encoded, "failed to serialize BlockStatus to JSON bytes ") {
            Ok(value) => Ok(DbPut { key: block_with_status_key(&block.id), value }),
            Err(e) => Err(e),
        }
    }

    /// What the database answered to the put of a block.
    pub fn put_block_reply(reply: Result<(), String>) -> (r: Result<(), Error>)
        ensures
            crate::error::outcome(r) == reworded(reply, "failed to put block: "@),
            match reply {
                Ok(value) => r == Ok::<(), Error>(value),
                Err(words) => r matches Err(e) && e.kind == ErrorKind::Other && e.message@
                    == "failed to put block: "@ + words@,
            },
    {
        reword(reply, "failed to put block: ")
    }

    /// The block that was read, with the status that was stored of it. How a record is
    /// decoded, and how a block is parsed, is left to the caller.
    pub fn get_block(read: BlockRead) -> (r: Result<Block, Error>)
        ensures
            crate::error::outcome(r) == block_read(read@),
            match read {
                BlockRead::NoRecord(e) => r == Err::<Block, Error>(e),
                BlockRead::BadRecord(words) => r matches Err(e) && e.kind == ErrorKind::Other
                    && e.message@ == "failed to deserialize BlockStatus from JSON "@ + words@,
                BlockRead::BadBlock(e) => r == Err::<Block, Error>(e),
                BlockRead::Found(block, status) => r == Ok::<Block, Error>(
                    Block { status, ..block },
                ),
            },
    {
        match read {
            BlockRead::NoRecord(e) => Err(e),
            BlockRead::BadRecord(words) => {
                let message = join("failed to deserialize BlockStatus from JSON ", words.as_str());
                Err(Error::new(ErrorKind::Other, message.as_str()))
            },
            BlockRead::BadBlock(e) => Err(e),
            BlockRead::Found(block, status) => {
                let mut blk = block;
                blk.set_status(status);
                Ok(blk)
            },
        }
    }
}

/// What a database with these entries answers for a key.
pub open spec fn answer(db: Map<Seq<u8>, Seq<u8>>, key: Seq<u8>) -> Result<Seq<u8>, ErrorView> {
    if db.contains_key(key) {
        Ok(db[key])
    } else {
        Err(crate::error::error_of(ErrorKind::NotFound, "not found"@))
    }
}

/// The entries of a database after a put.
pub open spec fn after_put(db: Map<Seq<u8>, Seq<u8>>, put: PutView) -> Map<Seq<u8>, Seq<u8>> {
    db.insert(put.key, put.value)
}

/// What comes back of reading a block, from the database's answer: the record is
/// decoded, and the block in it is parsed.
pub open spec fn reading(
    reply: Result<Seq<u8>, ErrorView>,
    decode: spec_fn(Seq<u8>) -> Result<RecordView, Seq<char>>,
    parse: spec_fn(Seq<u8>) -> Result<BlockView, ErrorView>,
) -> BlockReadView {
    match reply {
        Err(e) => BlockReadView::NoRecord(e),
        Ok(d) => match decode(d) {
            Err(words) => BlockReadView::BadRecord(words),
            Ok(record) => match parse(record.block_bytes) {
                Err(e) => BlockReadView::BadBlock(e),
                Ok(block) => BlockReadView::Found(block, record.status),
            },
        },
    }
}

/// The block that a database with these entries holds for an id.
pub open spec fn block_at(
    db: Map<Seq<u8>, Seq<u8>>,
    id: Seq<u8>,
    decode: spec_fn(Seq<u8>) -> Result<RecordView, Seq<char>>,
    parse: spec_fn(Seq<u8>) -> Result<BlockView, ErrorView>,
) -> Result<BlockView, ErrorView> {
    block_read(reading(answer(db, block_key(id)), decode, parse))
}

/// The serialized form of a block is parsed back to it, whatever status the parser
/// gives it.
pub open spec fn parses_back(
    block: BlockView,
    parse: spec_fn(Seq<u8>) -> Result<BlockView, ErrorView>,
) -> bool {
    &&& parse(block.bytes) is Ok
    &&& (BlockView { status: block.status, ..parse(block.bytes)->Ok_0 }) == block
}

/// Blocks with different ids have different keys.
pub proof fn block_keys_differ(a: Seq<u8>, b: Seq<u8>)
    requires
        block_key(a) == block_key(b),
    ensures
        a == b,
{
    assert(block_key(a).skip(2) =~= a);
    assert(block_key(b).skip(2) =~= b);
}

/// No block has the key of the id of the block that was accepted last.
pub proof fn block_key_is_not_last_accepted_key(id: Seq<u8>)
    ensures
        block_key(id) != last_accepted_key(),
{
    reveal_strlit("last_accepted_block");
    vstd::string::is_ascii_spec_bytes("last_accepted_block");
    assert("last_accepted_block".is_ascii());
    assert(last_accepted_key()[0] == 108u8);
    assert(block_key(id)[0] == 0u8);
}

/// What was stored of a block is what is read back: in any database, once a block
/// is put whose record is decoded to what was encoded, and whose serialized form is
/// parsed back to it, its id reads as this block with this status, whatever was
/// stored there before. Every other block reads as before, every other key answers
/// as before, and the block that was accepted last is the one it was. Records are
/// encoded and blocks are parsed outside of this library, so that they come back is
/// taken as given for this block, and for no other.
pub proof fn put_block_reads_back(
    db: Map<Seq<u8>, Seq<u8>>,
    block: BlockView,
    encoded: Seq<u8>,
    decode: spec_fn(Seq<u8>) -> Result<RecordView, Seq<char>>,
    parse: spec_fn(Seq<u8>) -> Result<BlockView, ErrorView>,
)
    requires
        decode(encoded) == Ok::<RecordView, Seq<char>>(record_of(block)),
        parses_back(block, parse),
    ensures
        ({
            let put = block_put(block, Ok(encoded));
            let after = after_put(db, put->Ok_0);
            &&& put is Ok
            &&& block_at(after, block.id, decode, parse) == Ok::<BlockView, ErrorView>(block)
            &&& forall|id: Seq<u8>|
                id != block.id ==> #[trigger] block_at(after, id, decode, parse) == block_at(
                    db,
                    id,
                    decode,
                    parse,
                )
            &&& forall|key: Seq<u8>|
                key != block_key(block.id) ==> #[trigger] answer(after, key) == answer(db, key)
            &&& after.contains_key(last_accepted_key()) == db.contains_key(last_accepted_key())
            &&& last_accepted_of(answer(after, last_accepted_key())) == last_accepted_of(
                answer(db, last_accepted_key()),
            )
        }),
{
    let after = after_put(db, block_put(block, Ok(encoded))->Ok_0);
    block_key_is_not_last_accepted_key(block.id);
    assert forall|id: Seq<u8>| id != block.id implies #[trigger] block_at(after, id, decode, parse)
        == block_at(db, id, decode, parse) by {
        if block_key(id) == block_key(block.id) {
            block_keys_differ(id, block.id);
        }
    }
}

/// Of two blocks that are put under one id, such as a block before and after it was
/// decided, the later one is read back, as if the earlier had not been put.
pub proof fn later_put_wins(
    db: Map<Seq<u8>, Seq<u8>>,
    earlier: BlockView,
    earlier_encoded: Seq<u8>,
    later: BlockView,
    later_encoded: Seq<u8>,
    decode: spec_fn(Seq<u8>) -> Result<RecordView, Seq<char>>,
    parse: spec_fn(Seq<u8>) -> Result<BlockView, ErrorView>,
)
    requires
        earlier.id == later.id,
        decode(later_encoded) == Ok::<RecordView, Seq<char>>(record_of(later)),
        parses_back(later, parse),
    ensures
        ({
            let first = after_put(db, block_put(earlier, Ok(earlier_encoded))->Ok_0);
            let put = block_put(later, Ok(later_encoded))->Ok_0;
            &&& block_at(after_put(first, put), later.id, decode, parse) == Ok::<
                BlockView,
                ErrorView,
            >(later)
            &&& after_put(first, put) == after_put(db, put)
        }),
{
    let first = after_put(db, block_put(earlier, Ok(earlier_encoded))->Ok_0);
    let put = block_put(later, Ok(later_encoded))->Ok_0;
    put_block_reads_back(first, later, later_encoded, decode, parse);
    assert(after_put(first, put) =~= after_put(db, put));
}

/// The id that was set as that of the block accepted last is the one that is read
/// back, and the database then has its key. Every block reads as before.
pub proof fn last_accepted_reads_back(
    db: Map<Seq<u8>, Seq<u8>>,
    id: Id,
    decode: spec_fn(Seq<u8>) -> Result<RecordView, Seq<char>>,
    parse: spec_fn(Seq<u8>) -> Result<BlockView, ErrorView>,
)
    ensures
        ({
            let after = after_put(db, accepted_put(id@));
            &&& after.contains_key(last_accepted_key())
            &&& last_accepted_of(answer(after, last_accepted_key())) == Ok::<Seq<u8>, ErrorView>(
                id@,
            )
            &&& forall|other: Seq<u8>| #[trigger]
                block_at(after, other, decode, parse) == block_at(db, other, decode, parse)
        }),
{
    let after = after_put(db, accepted_put(id@));
    crate::ids::id_bytes_round_trip(id);
    assert forall|other: Seq<u8>| #[trigger]
        block_at(after, other, decode, parse) == block_at(db, other, decode, parse) by {
        block_key_is_not_last_accepted_key(other);
    }
}

/// Where no block was accepted, the id of the last one is the empty id.
pub proof fn none_accepted_is_empty(db: Map<Seq<u8>, Seq<u8>>)
    requires
        !db.contains_key(last_accepted_key()),
    ensures
        last_accepted_of(answer(db, last_accepted_key())) == Ok::<Seq<u8>, ErrorView>(
            crate::ids::zeros32(),
        ),
{
    let s = "not found"@;
    assert(s.subrange(0, 0 + s.len() as int) =~= s);
}

/// Keys say what they are the keys of: a block's key is two bytes and then the block's
/// id, all of it and in order, and no two kinds of key have the same first byte.
pub proof fn keys_say_what_they_are_for(id: Seq<u8>)
    ensures
        block_key(id).len() == id.len() + 2,
        block_key(id)[0] == 0,
        block_key(id)[1] == 47,
        block_key(id).skip(2) == id,
        last_accepted_key() == vstd::utf8::encode_utf8("last_accepted_block"@),
        last_accepted_key()[0] != block_key(id)[0],
{
    assert(block_key(id).skip(2) =~= id);
    reveal_strlit("last_accepted_block");
    vstd::string::is_ascii_spec_bytes("last_accepted_block");
    assert("last_accepted_block".is_ascii());
    assert(last_accepted_key()[0] == 108u8);
}

/// Puts and records are what they hold, and so is what came back of reading a block.
pub proof fn store_values_are_what_they_hold(
    put: DbPut,
    record: BlockWithStatus,
    error: Error,
    words: String,
    block: Block,
    status: Status,
    state: State,
)
    ensures
        put@.key == put.key@,
        put@.value == put.value@,
        record@.block_bytes == record.block_bytes@,
        record@.status == record.status@,
        BlockRead::NoRecord(error)@ == BlockReadView::NoRecord(error@),
        BlockRead::BadRecord(words)@ == BlockReadView::BadRecord(words@),
        BlockRead::BadBlock(error)@ == BlockReadView::BadBlock(error@),
        BlockRead::Found(block, status)@ == BlockReadView::Found(block@, status@),
        dir_of(state) is Some <==> state.data_dir is Some,
        state.data_dir is Some ==> dir_of(state) == Some(state.data_dir->0@),
{
}

/// A record keeps the serialized form and the status of its block, and nothing else:
/// blocks that agree in these have one record, and others have two.
pub proof fn records_keep_form_and_status(block: BlockView, other: BlockView)
    ensures
        record_of(block).block_bytes == block.bytes,
        record_of(block).status == block.status,
        record_of(block) == record_of(other) <==> block.bytes == other.bytes && block.status
            == other.status,
{
}

/// What is put for a block is its record under its own key, as the encoder gave it;
/// what is put for an accepted block is its id. Blocks with different ids are put under
/// different keys, and different records are put as different values.
pub proof fn puts_store_what_they_are_given(
    block: BlockView,
    other: BlockView,
    encoded: Seq<u8>,
    other_encoded: Seq<u8>,
    words: Seq<char>,
)
    ensures
        block_put(block, Ok(encoded)) is Ok,
        (block_put(block, Ok(encoded))->Ok_0).value == encoded,
        (block_put(block, Ok(encoded))->Ok_0).key.skip(2) == block.id,
        block_put(block, Ok(encoded)) == block_put(other, Ok(other_encoded)) <==> block.id
            == other.id && encoded == other_encoded,
        block_put(block, Err(words)) is Err,
        (block_put(block, Err(words))->Err_0).kind == ErrorKind::Other,
        (block_put(block, Err(words))->Err_0).message.skip(
            "failed to serialize BlockStatus to JSON bytes "@.len() as int,
        ) == words,
        accepted_put(block.id).value == block.id,
        accepted_put(block.id).key == last_accepted_key(),
{
    keys_say_what_they_are_for(block.id);
    keys_say_what_they_are_for(other.id);
    assert(("failed to serialize BlockStatus to JSON bytes "@ + words).skip(
        "failed to serialize BlockStatus to JSON bytes "@.len() as int,
    ) =~= words);
}

/// A block that is read is the block that was found, with the status that was stored,
/// whatever status it came with; what was not read is answered with the error that
/// came, or with the decoder's words after a few of the store's own.
pub proof fn reading_gives_what_was_found(
    block: BlockView,
    status: StatusView,
    error: ErrorView,
    words: Seq<char>,
)
    ensures
        block_read(BlockReadView::Found(block, status)) is Ok,
        (block_read(BlockReadView::Found(block, status))->Ok_0).status == status,
        (block_read(BlockReadView::Found(block, status))->Ok_0).id == block.id,
        (block_read(BlockReadView::Found(block, status))->Ok_0).bytes == block.bytes,
        (block_read(BlockReadView::Found(block, status))->Ok_0).height == block.height,
        (block_read(BlockReadView::Found(block, status))->Ok_0).timestamp == block.timestamp,
        (block_read(BlockReadView::Found(block, status))->Ok_0).parent_id == block.parent_id,
        block_read(BlockReadView::NoRecord(error)) == Err::<BlockView, ErrorView>(error),
        block_read(BlockReadView::BadBlock(error)) == Err::<BlockView, ErrorView>(error),
        block_read(BlockReadView::BadRecord(words)) is Err,
        (block_read(BlockReadView::BadRecord(words))->Err_0).kind == ErrorKind::Other,
        (block_read(BlockReadView::BadRecord(words))->Err_0).message.skip(
            "failed to deserialize BlockStatus from JSON "@.len() as int,
        ) == words,
{
    assert(("failed to deserialize BlockStatus from JSON "@ + words).skip(
        "failed to deserialize BlockStatus from JSON "@.len() as int,
    ) =~= words);
}

/// An id of 32 bytes is answered as it is. An error is answered as it is, unless it says
/// that nothing was found, in its kind and in its words: then the empty id is answered.
pub proof fn the_last_accepted_is_answered_as_it_is(id: Seq<u8>, error: ErrorView)
    requires
        id.len() == 32,
    ensures
        last_accepted_of(Ok(id)) == Ok::<Seq<u8>, ErrorView>(id),
        error.kind != ErrorKind::NotFound ==> last_accepted_of(Err(error)) == Err::<
            Seq<u8>,
            ErrorView,
        >(error),
        !crate::text::contains(error.message, "not found"@) ==> last_accepted_of(Err(error))
            == Err::<Seq<u8>, ErrorView>(error),
        error.kind == ErrorKind::NotFound && crate::text::contains(error.message, "not found"@)
            ==> last_accepted_of(Err(error)) == Ok::<Seq<u8>, ErrorView>(
            Seq::new(32, |i: int| 0u8),
        ),
{
    assert(crate::ids::padded(id) =~= id);
    assert(crate::ids::zeros32() =~= Seq::new(32, |i: int| 0u8));
}

/// A reply is handed on: its value as it is, and its words after those of the store, as
/// an error of no special kind.
pub proof fn replies_are_handed_on<T>(value: T, words: String, prefix: Seq<char>)
    ensures
        reworded(Ok(value), prefix) == Ok::<T, ErrorView>(value),
        reworded::<T>(Err(words), prefix) is Err,
        (reworded::<T>(Err(words), prefix)->Err_0).kind == ErrorKind::Other,
        (reworded::<T>(Err(words), prefix)->Err_0).message.take(prefix.len() as int) == prefix,
        (reworded::<T>(Err(words), prefix)->Err_0).message.skip(prefix.len() as int) == words@,
{
    assert((prefix + words@).take(prefix.len() as int) =~= prefix);
    assert((prefix + words@).skip(prefix.len() as int) =~= words@);
}

} // verus!
