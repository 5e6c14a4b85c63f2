//! The requests of the virtual machine's client, and the responses to them.
use crate::encoding::encode_base64;
use crate::error::{Error, ErrorKind, ErrorView};
use crate::ids::{Id, Pubkey};
use crate::text::join;
use vstd::prelude::*;
use vstd::string::*;

verus! {

/// The error (if any) of a call.
#[derive(Debug, Clone)]
pub struct APIError {
    pub code: i32,
    pub message: String,
}

/// The response to `ping`.
#[derive(Debug, Clone)]
pub struct PingResponse<R> {
    pub jsonrpc: String,
    pub id: u32,
    pub result: Option<R>,
    pub error: Option<APIError>,
}

/// The response to `last_accepted`.
#[derive(Debug, Clone)]
pub struct LastAcceptedResponse<R> {
    pub jsonrpc: String,
    pub id: u32,
    pub result: Option<R>,
    pub error: Option<APIError>,
}

/// The response to `get_block`.
#[derive(Debug, Clone)]
pub struct GetBlockResponse<R> {
    pub jsonrpc: String,
    pub id: u32,
    pub result: Option<R>,
    pub error: Option<APIError>,
}

/// The response to `propose_block`.
#[derive(Debug, Clone)]
pub struct ProposeBlockResponse<R> {
    pub jsonrpc: String,
    pub id: u32,
    pub result: Option<R>,
    pub error: Option<APIError>,
}

/// The response to `get_lamports`.
#[derive(Debug, Clone)]
pub struct GetLamportsResponse<R> {
    pub jsonrpc: String,
    pub id: u32,
    pub result: Option<R>,
    pub error: Option<APIError>,
}

/// A character that stands for itself in JSON text.
pub open spec fn is_plain_char(c: char) -> bool {
    c >= ' ' && c != '"' && c != '\\'
}

/// Text that stands for itself in JSON text.
pub open spec fn is_plain(s: Seq<char>) -> bool {
    forall|i: int| 0 <= i < s.len() ==> is_plain_char(#[trigger] s[i])
}

/// The request for a method without parameters.
pub open spec fn request(method: Seq<char>) -> Seq<char> {
    "{\"jsonrpc\":\"2.0\",\"id\":1,\"method\":\""@ + method + "\"}"@
}

/// The request for a method with one named parameter.
pub open spec fn request_with_param(
    method: Seq<char>,
    name: Seq<char>,
    value: Seq<char>,
) -> Seq<char> {
    "{\"jsonrpc\":\"2.0\",\"id\":1,\"method\":\""@ + method + "\",\"params\":[{\""@ + name
        + "\":\""@ + value + "\"}]}"@
}

/// The request for the block with an id.
pub open spec fn block_query(id: Seq<u8>) -> Seq<char> {
    request_with_param("timestampvm.getBlock"@, "id"@, crate::ids::id_text(id))
}

/// The request that proposes data.
pub open spec fn proposal(d: Seq<u8>) -> Seq<char> {
    request_with_param("timestampvm.proposeBlock"@, "data"@, crate::encoding::base64_text(d))
}

/// The request for the balance of an account.
pub open spec fn balance_query(key: Seq<u8>) -> Seq<char> {
    request_with_param("timestampvm.getLamports"@, "pubkey"@, crate::ids::pubkey_text(key))
}

/// Requests for one method and one named parameter that are the same have the same
/// value of it.
pub proof fn request_tells_its_value(
    method: Seq<char>,
    name: Seq<char>,
    value: Seq<char>,
    other: Seq<char>,
)
    requires
        request_with_param(method, name, value) == request_with_param(method, name, other),
    ensures
        value == other,
{
    let head = "{\"jsonrpc\":\"2.0\",\"id\":1,\"method\":\""@ + method + "\",\"params\":[{\""@
        + name + "\":\""@;
    let end = "\"}]}"@;
    let one = request_with_param(method, name, value);
    let two = request_with_param(method, name, other);
    assert(one.len() == head.len() + value.len() + end.len());
    assert(two.len() == head.len() + other.len() + end.len());
    let from = head.len() as int;
    assert(one.subrange(from, from + value.len()) =~= value);
    assert(two.subrange(from, from + other.len()) =~= other);
}

/// The proposed data can be had back from the request: proposals of different data
/// are different requests.
pub proof fn proposal_tells_its_data(d: Seq<u8>, other: Seq<u8>)
    requires
        proposal(d) == proposal(other),
    ensures
        d == other,
{
    request_tells_its_value(
        "timestampvm.proposeBlock"@,
        "data"@,
        crate::encoding::base64_text(d),
        crate::encoding::base64_text(other),
    );
    crate::encoding::base64_is_injective(d, other);
}

/// `encode_json` of an `avalanche_types::jsonrpc::RequestWithParamsArray` that
/// has the default version and number, this method, and no parameters. For a
/// method of plain characters it is the text `request`, and it does not fail.
#[verifier::external_body]
fn encode_request(method: &str) -> (r: String)
    requires
        is_plain(method@),
    ensures
        r@ == request(method@),
{
    let mut data = avalanche_types::jsonrpc::RequestWithParamsArray::default();
    data.method = String::from(method);
    data.encode_json().unwrap()
}

/// `encode_json` of an `avalanche_types::jsonrpc::RequestWithParamsHashMapArray`
/// that has the default version and number, this method, and one map with one
/// entry as parameters. For plain characters it is the text
/// `request_with_param`, and it does not fail.
#[verifier::external_body]
fn encode_request_with_param(method: &str, name: &str, value: &str) -> (r: String)
    requires
        is_plain(method@),
        is_plain(name@),
        is_plain(value@),
    ensures
        r@ == request_with_param(method@, name@, value@),
{
    let mut data = avalanche_types::jsonrpc::RequestWithParamsHashMapArray::default();
    data.method = String::from(method);
    let mut m = std::collections::HashMap::new();
    m.insert(name.to_string(), value.to_string());
    data.params = Some(vec![m]);
    data.encode_json().unwrap()
}

/// The request that pings the virtual machine.
pub fn ping() -> (r: String)
    ensures
        r@ == request("timestampvm.ping"@),
        r@ == "{\"jsonrpc\":\"2.0\",\"id\":1,\"method\":\"timestampvm.ping\"}"@,
{
    proof {
        reveal_strlit("timestampvm.ping");
        reveal_strlit("{\"jsonrpc\":\"2.0\",\"id\":1,\"method\":\"");
        reveal_strlit("\"}");
        reveal_strlit("{\"jsonrpc\":\"2.0\",\"id\":1,\"method\":\"timestampvm.ping\"}");
        assert(request("timestampvm.ping"@) =~= "{\"jsonrpc\":\"2.0\",\"id\":1,\"method\":\"timestampvm.ping\"}"@);
    }
    encode_request("timestampvm.ping")
}

/// The request for the id of the block that was accepted last.
pub fn last_accepted() -> (r: String)
    ensures
        r@ == request("timestampvm.lastAccepted"@),
        r@ == "{\"jsonrpc\":\"2.0\",\"id\":1,\"method\":\"timestampvm.lastAccepted\"}"@,
{
    proof {
        reveal_strlit("timestampvm.lastAccepted");
        reveal_strlit("{\"jsonrpc\":\"2.0\",\"id\":1,\"method\":\"");
        reveal_strlit("\"}");
        reveal_strlit("{\"jsonrpc\":\"2.0\",\"id\":1,\"method\":\"timestampvm.lastAccepted\"}");
        assert(request("timestampvm.lastAccepted"@) =~= "{\"jsonrpc\":\"2.0\",\"id\":1,\"method\":\"timestampvm.lastAccepted\"}"@);
    }
    encode_request("timestampvm.lastAccepted")
}

/// The request for the block with an id, which no other id gives.
pub fn get_block(id: &Id) -> (r: String)
    ensures
        r@ == block_query(id@),
        r@ == "{\"jsonrpc\":\"2.0\",\"id\":1,\"method\":\"timestampvm.getBlock\",\"params\":[{\"id\":\""@
            + crate::ids::id_text(id.0@) + "\"}]}"@,
        forall|other: Seq<u8>|
            other.len() == 32 && #[trigger] block_query(other) == r@ ==> other == id@,
{
    proof {
        reveal_strlit("timestampvm.getBlock");
        reveal_strlit("id");
        reveal_strlit("{\"jsonrpc\":\"2.0\",\"id\":1,\"method\":\"");
        reveal_strlit("\",\"params\":[{\"");
        reveal_strlit("\":\"");
        reveal_strlit("{\"jsonrpc\":\"2.0\",\"id\":1,\"method\":\"timestampvm.getBlock\",\"params\":[{\"id\":\"");
        assert("{\"jsonrpc\":\"2.0\",\"id\":1,\"method\":\"timestampvm.getBlock\",\"params\":[{\"id\":\""@ =~= "{\"jsonrpc\":\"2.0\",\"id\":1,\"method\":\""@
            + "timestampvm.getBlock"@ + "\",\"params\":[{\""@ + "id"@ + "\":\""@);
    }
    let text = id.show();
    proof {
        assert forall|other: Seq<u8>|
            other.len() == 32 && #[trigger] block_query(other) == block_query(id@) implies other
            == id@ by {
            request_tells_its_value(
                "timestampvm.getBlock"@,
                "id"@,
                crate::ids::id_text(other),
                crate::ids::id_text(id@),
            );
        }
    }
    encode_request_with_param("timestampvm.getBlock", "id", text.as_str())
}

/// The request that proposes data.
pub fn propose_block(d: &Vec<u8>) -> (r: String)
    ensures
        r@ == proposal(d@),
        r@ == "{\"jsonrpc\":\"2.0\",\"id\":1,\"method\":\"timestampvm.proposeBlock\",\"params\":[{\"data\":\""@
            + crate::encoding::base64_text(d@) + "\"}]}"@,
{
    proof {
        reveal_strlit("timestampvm.proposeBlock");
        reveal_strlit("data");
        reveal_strlit("{\"jsonrpc\":\"2.0\",\"id\":1,\"method\":\"");
        reveal_strlit("\",\"params\":[{\"");
        reveal_strlit("\":\"");
        reveal_strlit("{\"jsonrpc\":\"2.0\",\"id\":1,\"method\":\"timestampvm.proposeBlock\",\"params\":[{\"data\":\"");
        assert("{\"jsonrpc\":\"2.0\",\"id\":1,\"method\":\"timestampvm.proposeBlock\",\"params\":[{\"data\":\""@ =~= "{\"jsonrpc\":\"2.0\",\"id\":1,\"method\":\""@
            + "timestampvm.proposeBlock"@ + "\",\"params\":[{\""@ + "data"@ + "\":\""@);
        crate::encoding::base64_shape(d@);
    }
    let text = encode_base64(d.as_slice());
    encode_request_with_param("timestampvm.proposeBlock", "data", text.as_str())
}

/// The request for the balance of an account, which no other address gives.
pub fn get_lamports(pubkey: &Pubkey) -> (r: String)
    ensures
        r@ == balance_query(pubkey@),
        r@ == "{\"jsonrpc\":\"2.0\",\"id\":1,\"method\":\"timestampvm.getLamports\",\"params\":[{\"pubkey\":\""@
            + crate::ids::pubkey_text(pubkey.0@) + "\"}]}"@,
        forall|other: Seq<u8>|
            other.len() == 32 && #[trigger] balance_query(other) == r@ ==> other == pubkey@,
{
    proof {
        reveal_strlit("timestampvm.getLamports");
        reveal_strlit("pubkey");
        reveal_strlit("{\"jsonrpc\":\"2.0\",\"id\":1,\"method\":\"");
        reveal_strlit("\",\"params\":[{\"");
        reveal_strlit("\":\"");
        reveal_strlit("{\"jsonrpc\":\"2.0\",\"id\":1,\"method\":\"timestampvm.getLamports\",\"params\":[{\"pubkey\":\"");
        assert("{\"jsonrpc\":\"2.0\",\"id\":1,\"method\":\"timestampvm.getLamports\",\"params\":[{\"pubkey\":\""@ =~= "{\"jsonrpc\":\"2.0\",\"id\":1,\"method\":\""@
            + "timestampvm.getLamports"@ + "\",\"params\":[{\""@ + "pubkey"@ + "\":\""@);
    }
    let text = pubkey.show();
    proof {
        assert forall|other: Seq<u8>|
            other.len() == 32 && #[trigger] balance_query(other) == balance_query(
                pubkey@,
            ) implies other == pubkey@ by {
            request_tells_its_value(
                "timestampvm.getLamports"@,
                "pubkey"@,
                crate::ids::pubkey_text(other),
                crate::ids::pubkey_text(pubkey@),
            );
        }
    }
    encode_request_with_param("timestampvm.getLamports", "pubkey", text.as_str())
}

/// A call of the client.
#[derive(Clone, Copy, Debug, PartialEq, Eq, Structural)]
pub enum Call {
    Ping,
    LastAccepted,
    GetBlock,
    ProposeBlock,
    GetLamports,
}

/// The name of a call.
pub open spec fn call_name(call: Call) -> Seq<char> {
    match call {
        Call::Ping => "ping"@,
        Call::LastAccepted => "last_accepted"@,
        Call::GetBlock => "get_block"@,
        Call::ProposeBlock => "propose_block"@,
        Call::GetLamports => "get_lamports"@,
    }
}

/// The error of a call whose response could not be parsed.
pub open spec fn bad_response(call: Call, words: Seq<char>) -> ErrorView {
    crate::error::error_of(
        ErrorKind::Other,
        "failed "@ + call_name(call) + " '"@ + words + "'"@,
    )
}

/// The response to a call, given what its parser found: the response, or words on
/// why it is none.
pub fn conclude<R>(call: Call, parsed: Result<R, String>) -> (r: Result<R, Error>)
    ensures
        match parsed {
            Ok(response) => r == Ok::<R, Error>(response),
            Err(words) => r matches Err(e) && e@ == bad_response(call, words@),
        },
        parsed matches Err(words) ==> {
            &&& r matches Err(e)
            &&& e.kind == ErrorKind::Other
            &&& e.message@ == match call {
                Call::Ping => "failed ping '"@,
                Call::LastAccepted => "failed last_accepted '"@,
                Call::GetBlock => "failed get_block '"@,
                Call::ProposeBlock => "failed propose_block '"@,
                Call::GetLamports => "failed get_lamports '"@,
            } + words@ + "'"@
        },
{
    match parsed {
        Ok(response) => Ok(response),
        Err(words) => {
            let name = match call {
                Call::Ping => "ping",
                Call::LastAccepted => "last_accepted",
                Call::GetBlock => "get_block",
                Call::ProposeBlock => "propose_block",
                Call::GetLamports => "get_lamports",
            };
            let opened = join("failed ", name).concat(" '");
            proof {
                reveal_strlit("failed ");
                reveal_strlit(" '");
                reveal_strlit("ping");
                reveal_strlit("failed ping '");
                reveal_strlit("last_accepted");
                reveal_strlit("failed last_accepted '");
                reveal_strlit("get_block");
                reveal_strlit("failed get_block '");
                reveal_strlit("propose_block");
                reveal_strlit("failed propose_block '");
                reveal_strlit("get_lamports");
                reveal_strlit("failed get_lamports '");
                assert(opened@ =~= match call {
                    Call::Ping => "failed ping '"@,
                    Call::LastAccepted => "failed last_accepted '"@,
                    Call::GetBlock => "failed get_block '"@,
                    Call::ProposeBlock => "failed propose_block '"@,
                    Call::GetLamports => "failed get_lamports '"@,
                });
            }
            let message = opened.concat(words.as_str()).concat("'");
            Err(Error::new(ErrorKind::Other, message.as_str()))
        },
    }
}

/// A request is an object of its parts, in order: the method and the value are found in
/// it as they are, between texts of fixed length.
pub proof fn requests_hold_method_and_value(method: Seq<char>, name: Seq<char>, value: Seq<char>)
    ensures
        ({
            let whole = request_with_param(method, name, value);
            let from = "{\"jsonrpc\":\"2.0\",\"id\":1,\"method\":\""@.len() as int;
            let at = from + method.len() + "\",\"params\":[{\""@.len() + name.len()
                + "\":\""@.len();
            &&& whole.len() == at + value.len() + "\"}]}"@.len()
            &&& whole.subrange(0, from) == "{\"jsonrpc\":\"2.0\",\"id\":1,\"method\":\""@
            &&& whole.subrange(from, from + method.len()) == method
            &&& whole.subrange(at, at + value.len()) == value
            &&& whole.skip(at + value.len()) == "\"}]}"@
        }),
        ({
            let whole = request(method);
            let from = "{\"jsonrpc\":\"2.0\",\"id\":1,\"method\":\""@.len() as int;
            &&& whole.subrange(0, from) == "{\"jsonrpc\":\"2.0\",\"id\":1,\"method\":\""@
            &&& whole.subrange(from, from + method.len()) == method
            &&& whole.skip(from + method.len()) == "\"}"@
        }),
{
    let head = "{\"jsonrpc\":\"2.0\",\"id\":1,\"method\":\""@;
    let middle = "\",\"params\":[{\""@;
    let colon = "\":\""@;
    let end = "\"}]}"@;
    let whole = request_with_param(method, name, value);
    let from = head.len() as int;
    let at = from + method.len() + middle.len() + name.len() + colon.len();
    assert(whole.subrange(0, from) =~= head);
    assert(whole.subrange(from, from + method.len()) =~= method);
    assert(whole.subrange(at, at + value.len()) =~= value);
    assert(whole.skip(at + value.len()) =~= end);
    let short = request(method);
    assert(short.subrange(0, from) =~= head);
    assert(short.subrange(from, from + method.len()) =~= method);
    assert(short.skip(from + method.len()) =~= "\"}"@);
}

/// Each query asks for what it was made of: the value in it is the text of this very
/// id, of this very address, or of these very bytes, under the name and for the method
/// that belong to it.
pub proof fn queries_ask_for_what_they_were_made_of(id: Seq<u8>, key: Seq<u8>, d: Seq<u8>)
    ensures
        block_query(id) == request_with_param(
            "timestampvm.getBlock"@,
            "id"@,
            crate::ids::id_text(id),
        ),
        balance_query(key) == request_with_param(
            "timestampvm.getLamports"@,
            "pubkey"@,
            crate::ids::pubkey_text(key),
        ),
        proposal(d) == request_with_param(
            "timestampvm.proposeBlock"@,
            "data"@,
            crate::encoding::base64_text(d),
        ),
        forall|text: Seq<char>|
            #[trigger] request_with_param("timestampvm.getBlock"@, "id"@, text) == block_query(id)
                ==> text == crate::ids::id_text(id),
        forall|text: Seq<char>|
            #[trigger] request_with_param("timestampvm.getLamports"@, "pubkey"@, text)
                == balance_query(key) ==> text == crate::ids::pubkey_text(key),
{
    assert forall|text: Seq<char>| #[trigger]
        request_with_param("timestampvm.getBlock"@, "id"@, text) == block_query(id) implies text
        == crate::ids::id_text(id) by {
        request_tells_its_value(
            "timestampvm.getBlock"@,
            "id"@,
            text,
            crate::ids::id_text(id),
        );
    }
    assert forall|text: Seq<char>| #[trigger]
        request_with_param("timestampvm.getLamports"@, "pubkey"@, text) == balance_query(
            key,
        ) implies text == crate::ids::pubkey_text(key) by {
        request_tells_its_value(
            "timestampvm.getLamports"@,
            "pubkey"@,
            text,
            crate::ids::pubkey_text(key),
        );
    }
}

/// The error of a response that could not be parsed names the call that failed, and
/// then has the parser's words, in quotes. Calls have different names, so errors of
/// different calls with the same words differ.
pub proof fn bad_responses_name_the_call(call: Call, other: Call, words: Seq<char>)
    ensures
        bad_response(call, words).kind == ErrorKind::Other,
        ({
            let message = bad_response(call, words).message;
            let at = "failed "@.len() + call_name(call).len() + " '"@.len();
            &&& message.subrange("failed "@.len() as int, ("failed "@.len() + call_name(
                call,
            ).len()) as int) == call_name(call)
            &&& message.subrange(at as int, (at + words.len()) as int) == words
            &&& message.skip((at + words.len()) as int) == "'"@
        }),
        bad_response(call, words).message == match call {
            Call::Ping => "failed ping '"@,
            Call::LastAccepted => "failed last_accepted '"@,
            Call::GetBlock => "failed get_block '"@,
            Call::ProposeBlock => "failed propose_block '"@,
            Call::GetLamports => "failed get_lamports '"@,
        } + words + "'"@,
        call_name(call) == call_name(other) ==> call == other,
{
    reveal_strlit("failed ");
    reveal_strlit(" '");
    reveal_strlit("'");
    reveal_strlit("ping");
    reveal_strlit("last_accepted");
    reveal_strlit("get_block");
    reveal_strlit("propose_block");
    reveal_strlit("get_lamports");
    reveal_strlit("failed ping '");
    reveal_strlit("failed last_accepted '");
    reveal_strlit("failed get_block '");
    reveal_strlit("failed propose_block '");
    reveal_strlit("failed get_lamports '");
    let name = call_name(call);
    assert("failed "@ + name + " '"@ =~= match call {
        Call::Ping => "failed ping '"@,
        Call::LastAccepted => "failed last_accepted '"@,
        Call::GetBlock => "failed get_block '"@,
        Call::ProposeBlock => "failed propose_block '"@,
        Call::GetLamports => "failed get_lamports '"@,
    });
    let message = bad_response(call, words).message;
    let at = ("failed "@.len() + name.len() + " '"@.len()) as int;
    assert(message.subrange("failed "@.len() as int, ("failed "@.len() + name.len()) as int)
        =~= name);
    assert(message.subrange(at, at + words.len()) =~= words);
    assert(message.skip(at + words.len()) =~= "'"@);
    if call != other {
        assert(call_name(call).len() != call_name(other).len() || call_name(call)[0] != call_name(
            other,
        )[0]);
    }
}

} // verus!
