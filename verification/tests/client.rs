use timestampvm::client::{
    conclude, get_block, get_lamports, last_accepted, ping, propose_block, APIError, Call,
    ProposeBlockResponse,
};
use timestampvm::error::ErrorKind;
use timestampvm::ids::{Id, Pubkey};

#[test]
fn ping_request() {
    assert_eq!(ping(), r#"{"jsonrpc":"2.0","id":1,"method":"timestampvm.ping"}"#);
}

#[test]
fn last_accepted_request() {
    assert_eq!(
        last_accepted(),
        r#"{"jsonrpc":"2.0","id":1,"method":"timestampvm.lastAccepted"}"#
    );
}

#[test]
fn get_block_request() {
    assert_eq!(
        get_block(&Id::empty()),
        r#"{"jsonrpc":"2.0","id":1,"method":"timestampvm.getBlock","params":[{"id":"11111111111111111111111111111111LpoYY"}]}"#
    );
}

#[test]
fn propose_block_request() {
    assert_eq!(
        propose_block(&b"hello, world".to_vec()),
        r#"{"jsonrpc":"2.0","id":1,"method":"timestampvm.proposeBlock","params":[{"data":"aGVsbG8sIHdvcmxk"}]}"#
    );
    assert_eq!(
        propose_block(&vec![0xfb, 0xff]),
        r#"{"jsonrpc":"2.0","id":1,"method":"timestampvm.proposeBlock","params":[{"data":"+/8="}]}"#
    );
    assert_eq!(
        propose_block(&vec![]),
        r#"{"jsonrpc":"2.0","id":1,"method":"timestampvm.proposeBlock","params":[{"data":""}]}"#
    );
}

#[test]
fn get_lamports_request() {
    assert_eq!(
        get_lamports(&Pubkey([0; 32])),
        r#"{"jsonrpc":"2.0","id":1,"method":"timestampvm.getLamports","params":[{"pubkey":"11111111111111111111111111111111"}]}"#
    );
}

#[test]
fn bad_responses_name_their_call() {
    let e = conclude::<u8>(Call::Ping, Err("eof".to_string())).unwrap_err();
    assert_eq!(e.kind, ErrorKind::Other);
    assert_eq!(e.message, "failed ping 'eof'");
    let e = conclude::<u8>(Call::LastAccepted, Err("x".to_string())).unwrap_err();
    assert_eq!(e.message, "failed last_accepted 'x'");
    let e = conclude::<u8>(Call::GetBlock, Err("x".to_string())).unwrap_err();
    assert_eq!(e.message, "failed get_block 'x'");
    let e = conclude::<u8>(Call::ProposeBlock, Err("x".to_string())).unwrap_err();
    assert_eq!(e.message, "failed propose_block 'x'");
    let e = conclude::<u8>(Call::GetLamports, Err("x".to_string())).unwrap_err();
    assert_eq!(e.message, "failed get_lamports 'x'");
}

#[test]
fn good_responses_are_handed_on() {
    let response = ProposeBlockResponse::<bool> {
        jsonrpc: "2.0".to_string(),
        id: 1,
        result: None,
        error: Some(APIError {
            code: -32603,
            message: "data 1048586-byte exceeds the limit 1048576-byte".to_string(),
        }),
    };
    let response = conclude(Call::ProposeBlock, Ok(response)).unwrap();
    assert_eq!(response.error.unwrap().code, -32603);
}

#[test]
fn different_data_are_different_requests() {
    assert_ne!(propose_block(&vec![0]), propose_block(&vec![0, 0]));
    assert_ne!(propose_block(&vec![0, 0]), propose_block(&vec![0, 0, 0]));
    assert_ne!(get_block(&Id::empty()), get_block(&Id([1; 32])));
    assert_ne!(get_lamports(&Pubkey([0; 32])), get_lamports(&Pubkey([1; 32])));
}

#[test]
fn base64_of_every_byte_and_group() {
    let request = propose_block(&(0u8..=255).collect());
    let text = request.split('"').nth(15).unwrap();
    assert_eq!(text.len(), 344);
    assert!(text.starts_with("AAECAwQFBgcICQoL"));
    assert!(text.ends_with("/P3+/w=="));
    assert!(propose_block(&vec![0xff]).contains("\"/w==\""));
    assert!(propose_block(&vec![0xff, 0xff]).contains("\"//8=\""));
    assert!(propose_block(&vec![0xff, 0xff, 0xff]).contains("\"////\""));
}
