//! Typed request/reply actions of the metadata service.
//!
//! The engine itself never issues these; they are the shapes the catalog
//! layer uses while a plan is built. Each request names its reply type
//! through the `RequestFor` trait. Serialization of these actions onto the
//! wire lives outside the verified library.

use vstd::prelude::*;

verus! {

/// Ties a request type to the reply type its action returns.
pub trait RequestFor {
    type Reply;
}

/// Reads one key.
#[derive(Debug, Clone)]
pub struct GetKVAction {
    pub key: String,
}

/// The reply to [`GetKVAction`]: the value, if the key exists.
#[derive(Debug, Clone)]
pub struct GetKVActionReply {
    pub value: Option<String>,
}

impl RequestFor for GetKVAction {
    type Reply = GetKVActionReply;
}

/// Reads several keys at once.
#[derive(Debug, Clone)]
pub struct MGetKVAction {
    pub keys: Vec<String>,
}

/// The reply to [`MGetKVAction`]: one optional value per requested key.
#[derive(Debug, Clone)]
pub struct MGetKVActionReply {
    pub values: Vec<Option<String>>,
}

impl RequestFor for MGetKVAction {
    type Reply = MGetKVActionReply;
}

/// Lists every key under a prefix.
#[derive(Debug, Clone)]
pub struct PrefixListReq(pub String);

/// The reply to [`PrefixListReq`]: the matching key/value pairs.
#[derive(Debug, Clone)]
pub struct PrefixListReply {
    pub entries: Vec<(String, String)>,
}

impl RequestFor for PrefixListReq {
    type Reply = PrefixListReply;
}

/// Reads one table's information by its id.
#[derive(Debug, Clone, Copy, PartialEq, Eq, Structural)]
pub struct GetTableExtReq {
    pub tbl_id: u64,
}

/// The reply to [`GetTableExtReq`]: the table's name.
#[derive(Debug, Clone)]
pub struct TableInfoReply {
    pub table_name: String,
}

impl RequestFor for GetTableExtReq {
    type Reply = TableInfoReply;
}

impl GetKVAction {
    /// A request for one key.
    pub fn new(key: String) -> (r: GetKVAction)
        ensures
            r.key == key,
    {
        GetKVAction { key }
    }
}

impl MGetKVAction {
    /// A request for several keys.
    pub fn new(keys: Vec<String>) -> (r: MGetKVAction)
        ensures
            r.keys == keys,
    {
        MGetKVAction { keys }
    }
}

} // verus!
