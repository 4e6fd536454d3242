use vstd::prelude::*;
use crate::error::{error_message, KvError};
use crate::value::{Kvpair, KvpairModel, Value, ValueModel};

verus! {

/// Get the value of one key in a table.
#[derive(Clone, Debug, PartialEq)]
pub struct Hget {
    pub table: String,
    pub key: String,
}

/// Get every key/value pair of a table.
#[derive(Clone, Debug, PartialEq)]
pub struct Hgetall {
    pub table: String,
}

/// Get the values of several keys in a table, in the given order.
#[derive(Clone, Debug, PartialEq)]
pub struct Hmget {
    pub table: String,
    pub keys: Vec<String>,
}

/// Store one key/value pair in a table.
#[derive(Clone, Debug, PartialEq)]
pub struct Hset {
    pub table: String,
    pub pair: Option<Kvpair>,
}

/// Store several key/value pairs in a table, in the given order.
#[derive(Clone, Debug, PartialEq)]
pub struct Hmset {
    pub table: String,
    pub pairs: Vec<Kvpair>,
}

/// Remove one key from a table.
#[derive(Clone, Debug, PartialEq)]
pub struct Hdel {
    pub table: String,
    pub key: String,
}

/// Remove several keys from a table, in the given order.
#[derive(Clone, Debug, PartialEq)]
pub struct Hmdel {
    pub table: String,
    pub keys: Vec<String>,
}

/// Ask whether one key currently has a value in a table.
#[derive(Clone, Debug, PartialEq)]
pub struct Hexist {
    pub table: String,
    pub key: String,
}

/// Ask, key by key, whether several keys have a value in a table.
#[derive(Clone, Debug, PartialEq)]
pub struct Hmexists {
    pub table: String,
    pub keys: Vec<String>,
}

/// The closed set of request shapes a caller may issue.
#[derive(Clone, Debug, PartialEq)]
pub enum RequestData {
    Hget(Hget),
    Hgetall(Hgetall),
    Hmget(Hmget),
    Hset(Hset),
    Hmset(Hmset),
    Hdel(Hdel),
    Hmdel(Hmdel),
    Hexist(Hexist),
    Hmexists(Hmexists),
}

/// A request from a client. A request with no populated variant is an
/// error condition, not a no-op.
#[derive(Clone, Debug, PartialEq)]
pub struct CommandRequest {
    pub request_data: Option<RequestData>,
}

/// The uniform response envelope: a numeric status (HTTP-derived), a
/// message for non-success outcomes, and the resulting values. Exactly
/// one of `values`/`pairs` is populated by any given operation.
#[derive(Clone, Debug, PartialEq)]
pub struct CommandResponse {
    pub status: u32,
    pub message: String,
    pub values: Vec<Value>,
    pub pairs: Vec<Kvpair>,
}

/// The model of a response: the same four fields over sequences.
pub struct ResponseModel {
    pub status: u32,
    pub message: Seq<char>,
    pub values: Seq<ValueModel>,
    pub pairs: Seq<KvpairModel>,
}

impl View for CommandResponse {
    type V = ResponseModel;

    open spec fn view(&self) -> ResponseModel {
        ResponseModel {
            status: self.status,
            message: self.message@,
            values: self.values.deep_view(),
            pairs: self.pairs.deep_view(),
        }
    }
}

/// Relies on http::StatusCode::OK and StatusCode::as_u16: the code 200.
#[verifier::external_body]
fn status_ok() -> (r: u16)
    ensures
        r == 200u16,
{
    http::StatusCode::OK.as_u16()
}

/// Relies on http::StatusCode::NOT_FOUND and StatusCode::as_u16: the code 404.
#[verifier::external_body]
fn status_not_found() -> (r: u16)
    ensures
        r == 404u16,
{
    http::StatusCode::NOT_FOUND.as_u16()
}

/// Relies on http::StatusCode::BAD_REQUEST and StatusCode::as_u16: the code 400.
#[verifier::external_body]
fn status_bad_request() -> (r: u16)
    ensures
        r == 400u16,
{
    http::StatusCode::BAD_REQUEST.as_u16()
}

/// Relies on http::StatusCode::INTERNAL_SERVER_ERROR and StatusCode::as_u16: the code 500.
#[verifier::external_body]
fn status_internal_server_error() -> (r: u16)
    ensures
        r == 500u16,
{
    http::StatusCode::INTERNAL_SERVER_ERROR.as_u16()
}

/// The numeric status under which each error travels.
pub open spec fn error_status(e: KvError) -> u32 {
    match e {
        KvError::NotFound(_, _) => 404u32,
        KvError::InvalidCommand(_) => 400u32,
        KvError::BackendFault(_) => 500u32,
    }
}

/// A success response carrying exactly one value and nothing else.
pub open spec fn ok_value_response(r: ResponseModel, v: ValueModel) -> bool {
    &&& r.status == 200u32
    &&& r.message.len() == 0
    &&& r.values == seq![v]
    &&& r.pairs.len() == 0
}

/// A success response carrying exactly the given pairs and nothing else.
pub open spec fn ok_pairs_response(r: ResponseModel, pairs: Seq<KvpairModel>) -> bool {
    &&& r.status == 200u32
    &&& r.message.len() == 0
    &&& r.values.len() == 0
    &&& r.pairs == pairs
}

/// The response an error folds into: its status, its message, no payload.
pub open spec fn error_response(r: ResponseModel, e: KvError) -> bool {
    &&& r.status == error_status(e)
    &&& r.message == error_message(e)
    &&& r.values.len() == 0
    &&& r.pairs.len() == 0
}

/// A response reporting some backend fault: the message is the fault's
/// own description, which no contract pins down.
pub open spec fn backend_fault_response(r: ResponseModel) -> bool {
    &&& r.status == 500u32
    &&& r.values.len() == 0
    &&& r.pairs.len() == 0
}

impl CommandResponse {
    /// A success envelope around a single value.
    pub fn ok_value(v: Value) -> (r: CommandResponse)
        ensures
            ok_value_response(r@, v@),
    {
        let ghost vm = v@;
        let mut values: Vec<Value> = Vec::new();
        values.push(v);
        let r = CommandResponse {
            status: status_ok() as u32,
            message: String::new(),
            values,
            pairs: Vec::new(),
        };
        proof {
            assert(r@.values =~= seq![vm]);
        }
        r
    }

    /// A success envelope around a list of pairs.
    pub fn ok_pairs(pairs: Vec<Kvpair>) -> (r: CommandResponse)
        ensures
            ok_pairs_response(r@, pairs.deep_view()),
    {
        CommandResponse {
            status: status_ok() as u32,
            message: String::new(),
            values: Vec::new(),
            pairs,
        }
    }

    /// Folds an error into the envelope: its status code, its message.
    pub fn from_error(e: KvError) -> (r: CommandResponse)
        ensures
            error_response(r@, e),
    {
        let status: u16 = match &e {
            KvError::NotFound(_, _) => status_not_found(),
            KvError::InvalidCommand(_) => status_bad_request(),
            KvError::BackendFault(_) => status_internal_server_error(),
        };
        CommandResponse {
            status: status as u32,
            message: e.message(),
            values: Vec::new(),
            pairs: Vec::new(),
        }
    }
}

impl CommandRequest {
    /// A single-key store request.
    pub fn new_hset(table: &str, key: &str, value: Value) -> (r: Self)
        ensures
            r.request_data matches Some(RequestData::Hset(c)) && c.table@ == table@
                && (c.pair matches Some(p) && p@ == (KvpairModel { key: key@, value: value@ })),
    {
        CommandRequest {
            request_data: Some(
                RequestData::Hset(Hset { table: table.to_owned(), pair: Some(Kvpair::new(key, value)) }),
            ),
        }
    }

    /// A multi-key store request.
    pub fn new_hmset(table: &str, pairs: Vec<Kvpair>) -> (r: Self)
        ensures
            r.request_data matches Some(RequestData::Hmset(c)) && c.table@ == table@
                && c.pairs.deep_view() == pairs.deep_view(),
    {
        CommandRequest { request_data: Some(RequestData::Hmset(Hmset { table: table.to_owned(), pairs })) }
    }

    /// A single-key lookup request.
    pub fn new_hget(table: &str, key: &str) -> (r: Self)
        ensures
            r.request_data matches Some(RequestData::Hget(c)) && c.table@ == table@
                && c.key@ == key@,
    {
        CommandRequest {
            request_data: Some(RequestData::Hget(Hget { table: table.to_owned(), key: key.to_owned() })),
        }
    }

    /// A whole-table lookup request.
    pub fn new_hgetall(table: &str) -> (r: Self)
        ensures
            r.request_data matches Some(RequestData::Hgetall(c)) && c.table@ == table@,
    {
        CommandRequest { request_data: Some(RequestData::Hgetall(Hgetall { table: table.to_owned() })) }
    }

    /// A multi-key lookup request.
    pub fn new_hmget(table: &str, keys: Vec<String>) -> (r: Self)
        ensures
            r.request_data matches Some(RequestData::Hmget(c)) && c.table@ == table@
                && c.keys.deep_view() == keys.deep_view(),
    {
        CommandRequest { request_data: Some(RequestData::Hmget(Hmget { table: table.to_owned(), keys })) }
    }

    /// A single-key removal request.
    pub fn new_hdel(table: &str, key: &str) -> (r: Self)
        ensures
            r.request_data matches Some(RequestData::Hdel(c)) && c.table@ == table@
                && c.key@ == key@,
    {
        CommandRequest {
            request_data: Some(RequestData::Hdel(Hdel { table: table.to_owned(), key: key.to_owned() })),
        }
    }

    /// A multi-key removal request.
    pub fn new_hmdel(table: &str, keys: Vec<String>) -> (r: Self)
        ensures
            r.request_data matches Some(RequestData::Hmdel(c)) && c.table@ == table@
                && c.keys.deep_view() == keys.deep_view(),
    {
        CommandRequest { request_data: Some(RequestData::Hmdel(Hmdel { table: table.to_owned(), keys })) }
    }

    /// A single-key existence request.
    pub fn new_hexist(table: &str, key: &str) -> (r: Self)
        ensures
            r.request_data matches Some(RequestData::Hexist(c)) && c.table@ == table@
                && c.key@ == key@,
    {
        CommandRequest {
            request_data: Some(RequestData::Hexist(Hexist { table: table.to_owned(), key: key.to_owned() })),
        }
    }

    /// A multi-key existence request.
    pub fn new_hmexist(table: &str, keys: Vec<String>) -> (r: Self)
        ensures
            r.request_data matches Some(RequestData::Hmexists(c)) && c.table@ == table@
                && c.keys.deep_view() == keys.deep_view(),
    {
        CommandRequest {
            request_data: Some(RequestData::Hmexists(Hmexists { table: table.to_owned(), keys })),
        }
    }
}

} // verus!
