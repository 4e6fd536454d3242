//! A pluggable key-value storage engine behind a closed command
//! algebra: table-scoped get, set, delete and existence commands, in
//! single- and multi-key form, answered through one response envelope.
//!
//! The seam of the crate is the [`Storage`] trait: one contract over a
//! mathematical store model that both backends meet, so that the
//! dispatcher behaves identically over the in-memory backend
//! ([`MemTable`], dashmap underneath) and the persistent one
//! ([`SledDb`], sled underneath). The dispatcher, the composite-key
//! encoding and the value codec are verified; the two outside engines
//! are reached through small trusted wrappers whose contracts say what
//! their sources show.

mod codec;
mod command;
mod error;
mod laws;
mod memory;
mod service;
mod sleddb;
mod storage;
mod value;

pub use codec::decode_value;
pub use codec::decoded_value;
pub use codec::encode_value;
pub use codec::encoded_value;
pub use codec::lemma_value_codec_roundtrip;
pub use command::backend_fault_response;
pub use command::error_response;
pub use command::error_status;
pub use command::ok_pairs_response;
pub use command::ok_value_response;
pub use command::CommandRequest;
pub use command::CommandResponse;
pub use command::Hdel;
pub use command::Hexist;
pub use command::Hget;
pub use command::Hgetall;
pub use command::Hmdel;
pub use command::Hmexists;
pub use command::Hmget;
pub use command::Hmset;
pub use command::Hset;
pub use command::RequestData;
pub use command::ResponseModel;
pub use error::error_message;
pub use error::invalid_command_message;
pub use error::not_found_message;
pub use error::KvError;
pub use laws::lemma_distinct_writes_all_persist;
pub use laws::lemma_listing_after_write;
pub use laws::lemma_mget_shape;
pub use laws::lemma_never_written;
pub use laws::lemma_set_del_get;
pub use laws::lemma_set_set_get;
pub use memory::mem_rep;
pub use memory::MemTable;
pub use service::apply_dels;
pub use service::apply_sets;
pub use service::del_priors;
pub use service::dispatch;
pub use service::dispatch_post;
pub use service::exists_listing;
pub use service::invalid_request_response;
pub use service::is_request_wf;
pub use service::mget_listing;
pub use service::request_wf;
pub use service::set_priors;
pub use service::CommandService;
pub use sleddb::full_key_model;
pub use sleddb::lex_lt;
pub use sleddb::sled_rep;
pub use sleddb::table_prefix_model;
pub use sleddb::SledDb;
pub use storage::is_valid_key_name;
pub use storage::is_valid_table_name;
pub use storage::lookup_or_empty;
pub use storage::table_listing;
pub use storage::valid_key_name;
pub use storage::valid_table_name;
pub use storage::Storage;
pub use storage::StoreModel;
pub use value::Kvpair;
pub use value::KvpairModel;
pub use value::Value;
pub use value::ValueModel;
