use avalanche_types::subnet::rpc::database::{memdb::Database, BoxedDatabase};
use std::io;
use timestampvm::block::{Block, Status};
use timestampvm::error::{Error, ErrorKind};
use timestampvm::ids::Id;
use timestampvm::state::{
    block_with_status_key, last_accepted_block_key, BlockRead, DbPut, State,
};

fn error_of(e: io::Error) -> Error {
    let kind = if e.kind() == io::ErrorKind::NotFound {
        ErrorKind::NotFound
    } else {
        ErrorKind::Other
    };
    Error::new(kind, &e.to_string())
}

fn serialize(parent_id: &Id, height: u64, timestamp: u64, data: &[u8]) -> Vec<u8> {
    serde_json::to_vec(&(parent_id.to_vec(), height, timestamp, data.to_vec())).unwrap()
}

fn new_block(parent_id: Id, height: u64, timestamp: u64, data: &[u8], status: Status) -> Block {
    let bytes = serialize(&parent_id, height, timestamp, data);
    let id = Id::from_slice(avalanche_types::ids::Id::sha256(&bytes).as_ref());
    Block { parent_id, height, timestamp, bytes, id, status }
}

fn parse(bytes: &[u8]) -> Block {
    let (parent, height, timestamp, data): (Vec<u8>, u64, u64, Vec<u8>) =
        serde_json::from_slice(bytes).unwrap();
    new_block(Id::from_slice(&parent), height, timestamp, &data, Status::default())
}

fn status_text(status: &Status) -> String {
    match status {
        Status::Processing => "Processing".to_string(),
        Status::Rejected => "Rejected".to_string(),
        Status::Accepted => "Accepted".to_string(),
        Status::Unknown(s) => s.clone(),
    }
}

fn status_of(text: &str) -> Status {
    match text {
        "Processing" => Status::Processing,
        "Rejected" => Status::Rejected,
        "Accepted" => Status::Accepted,
        other => Status::Unknown(other.to_string()),
    }
}

fn encode(block: &Block) -> Vec<u8> {
    let record = State::record(block);
    let mut m = serde_json::Map::new();
    m.insert("block_bytes".to_string(), serde_json::Value::from(record.block_bytes));
    m.insert(
        "status".to_string(),
        serde_json::Value::from(status_text(&record.status)),
    );
    serde_json::to_vec(&m).unwrap()
}

async fn put(db: &mut BoxedDatabase, put: DbPut) -> Result<(), String> {
    db.put(&put.key, &put.value).await.map_err(|e| format!("{:?}", e))
}

async fn put_block(db: &mut BoxedDatabase, block: &Block) {
    let request = State::put_block(block, Ok(encode(block))).unwrap();
    let reply = put(db, request).await;
    State::put_block_reply(reply).unwrap();
}

async fn has_last_accepted(db: &BoxedDatabase) -> bool {
    let reply = db
        .has(&last_accepted_block_key())
        .await
        .map_err(|e| e.to_string());
    State::has_last_accepted_block(reply).unwrap()
}

async fn get_block(db: &BoxedDatabase, id: &Id) -> Result<Block, Error> {
    let read = match db.get(&block_with_status_key(id)).await {
        Err(e) => BlockRead::NoRecord(error_of(e)),
        Ok(bytes) => {
            let record: serde_json::Value = serde_json::from_slice(&bytes).unwrap();
            let block_bytes: Vec<u8> =
                serde_json::from_value(record["block_bytes"].clone()).unwrap();
            BlockRead::Found(
                parse(&block_bytes),
                status_of(record["status"].as_str().unwrap()),
            )
        }
    };
    State::get_block(read)
}

fn assert_same(a: &Block, b: &Block) {
    assert_eq!(a.parent_id.0, b.parent_id.0);
    assert_eq!(a.height, b.height);
    assert_eq!(a.timestamp, b.timestamp);
    assert_eq!(a.bytes, b.bytes);
    assert_eq!(a.id.0, b.id.0);
    assert_eq!(status_text(&a.status), status_text(&b.status));
}

fn run<F: std::future::Future<Output = ()>>(f: F) {
    tokio::runtime::Builder::new_current_thread()
        .build()
        .unwrap()
        .block_on(f)
}

#[test]
fn test_state() {
    run(async {
        let genesis_blk = new_block(
            Id::empty(),
            0,
            1_700_000_000,
            &[3, 1, 4, 1, 5, 9, 2, 6, 5, 3],
            Status::Accepted,
        );
        let blk1 = new_block(
            genesis_blk.id,
            1,
            genesis_blk.timestamp + 1,
            &[2, 7, 1, 8, 2, 8, 1, 8, 2, 8],
            Status::Accepted,
        );

        let mut db = Database::new_boxed();
        assert!(!has_last_accepted(&db).await);

        put_block(&mut db, &genesis_blk).await;
        assert!(!has_last_accepted(&db).await);

        put_block(&mut db, &blk1).await;
        let reply = put(&mut db, State::set_last_accepted_block(&blk1.id)).await;
        State::set_last_accepted_block_reply(reply).unwrap();
        assert!(has_last_accepted(&db).await);

        let reply = db.get(&last_accepted_block_key()).await.map_err(error_of);
        let last_accepted_blk_id = State::get_last_accepted_block_id(reply).unwrap();
        assert_eq!(last_accepted_blk_id.0, blk1.id.0);

        let read_blk = get_block(&db, &genesis_blk.id).await.unwrap();
        assert_same(&genesis_blk, &read_blk);

        let read_blk = get_block(&db, &blk1.id).await.unwrap();
        assert_same(&blk1, &read_blk);
    });
}

#[test]
fn nothing_accepted_is_the_empty_id() {
    run(async {
        let db = Database::new_boxed();
        let reply = db.get(&last_accepted_block_key()).await.map_err(error_of);
        assert_eq!(State::get_last_accepted_block_id(reply).unwrap().0, [0; 32]);
    });
}

#[test]
fn a_missing_block_is_not_found() {
    run(async {
        let db = Database::new_boxed();
        let e = get_block(&db, &Id::empty()).await.unwrap_err();
        assert_eq!(e.kind, ErrorKind::NotFound);
        assert_eq!(e.message, "not found");
    });
}

#[test]
fn a_block_keeps_the_stored_status() {
    let mut block = new_block(Id::empty(), 0, 1, &[1], Status::Rejected);
    let read = State::get_block(BlockRead::Found(parse(&block.bytes), Status::Rejected)).unwrap();
    assert_same(&block, &read);
    block.set_status(Status::Accepted);
    assert_eq!(status_text(&block.status), "Accepted");
    assert_eq!(status_text(&Status::default()), "default");
}

#[test]
fn the_later_put_of_a_block_wins() {
    run(async {
        let mut db = Database::new_boxed();
        let other = new_block(Id::empty(), 0, 1, &[1], Status::Accepted);
        let mut block = new_block(other.id, 1, 2, &[2], Status::Processing);
        put_block(&mut db, &other).await;
        let reply = put(&mut db, State::set_last_accepted_block(&other.id)).await;
        State::set_last_accepted_block_reply(reply).unwrap();
        put_block(&mut db, &block).await;
        assert_same(&block, &get_block(&db, &block.id).await.unwrap());
        block.set_status(Status::Rejected);
        put_block(&mut db, &block).await;
        assert_same(&block, &get_block(&db, &block.id).await.unwrap());
        assert_same(&other, &get_block(&db, &other.id).await.unwrap());
        let reply = db.get(&last_accepted_block_key()).await.map_err(error_of);
        assert_eq!(State::get_last_accepted_block_id(reply).unwrap().0, other.id.0);
    });
}

#[test]
fn keys_have_their_layout() {
    assert_eq!(last_accepted_block_key(), b"last_accepted_block".to_vec());
    let mut expected = vec![0, b'/'];
    expected.extend_from_slice(&[5; 32]);
    assert_eq!(block_with_status_key(&Id([5; 32])), expected);
}

#[test]
fn last_accepted_errors() {
    let closed = Error::new(ErrorKind::Other, "database closed");
    let e = State::get_last_accepted_block_id(Err(closed)).unwrap_err();
    assert_eq!(e.kind, ErrorKind::Other);
    assert_eq!(e.message, "database closed");
    let e = State::get_last_accepted_block_id(Err(Error::new(ErrorKind::NotFound, "gone")));
    assert_eq!(e.unwrap_err().message, "gone");
    let e = State::get_last_accepted_block_id(Err(Error::new(ErrorKind::Other, "not found")));
    assert_eq!(e.unwrap_err().kind, ErrorKind::Other);
    let wrapped = Error::new(ErrorKind::NotFound, "rpc: key not found!");
    assert_eq!(State::get_last_accepted_block_id(Err(wrapped)).unwrap().0, [0; 32]);
}

#[test]
fn a_short_id_is_filled_up() {
    let id = State::get_last_accepted_block_id(Ok(vec![1, 2])).unwrap();
    assert_eq!(&id.0[..3], &[1, 2, 0]);
    assert_eq!(id.0[31], 0);
}

#[test]
fn failures_are_reworded() {
    let e = State::set_last_accepted_block_reply(Err("io".to_string())).unwrap_err();
    assert_eq!(e.message, "failed to put last accepted block: io");
    let e = State::has_last_accepted_block(Err("io".to_string())).unwrap_err();
    assert_eq!(e.message, "failed to load last accepted block io");
    let e = State::put_block_reply(Err("io".to_string())).unwrap_err();
    assert_eq!(e.message, "failed to put block: io");
    assert_eq!(e.kind, ErrorKind::Other);
    let block = new_block(Id::empty(), 0, 1, &[1], Status::Processing);
    let e = State::put_block(&block, Err("bad".to_string())).unwrap_err();
    assert_eq!(e.message, "failed to serialize BlockStatus to JSON bytes bad");
    let e = State::get_block(BlockRead::BadRecord("bad".to_string())).unwrap_err();
    assert_eq!(e.message, "failed to deserialize BlockStatus from JSON bad");
    let e = State::get_block(BlockRead::BadBlock(Error::new(ErrorKind::InvalidData, "no")));
    assert_eq!(e.unwrap_err().kind, ErrorKind::InvalidData);
}

#[test]
fn stores_lie_in_memory_or_in_a_directory() {
    assert!(State::default().data_dir.is_none());
    assert_eq!(State::new("/d".to_string()).data_dir.unwrap(), "/d");
}
