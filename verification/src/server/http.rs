//! The paths of the HTTP interface and the state its handlers share.

use vstd::prelude::*;
use std::collections::BTreeMap;
use crate::base::text::concat2;

verus! {

pub const ROUTE_ROOT: &'static str = "/index";

pub const ROUTE_ADD_LEARNER: &'static str = "/add-learner";

pub const ROUTE_CHANGE_MEMBERSHIP: &'static str = "/change-membership";

pub const ROUTE_INIT: &'static str = "/init";

pub const ROUTE_METRICS: &'static str = "/metrics";

pub const ROUTE_SET: &'static str = "/set";

pub const ROUTE_GET: &'static str = "/get";

/// The path below version 1 of the interface.
pub fn v1_path(path: &str) -> (r: String)
    ensures
        r@ == "/v1"@ + path@,
{
    concat2("/v1", path)
}

/// The path of the listing of a resource.
pub fn path_list(path: &str) -> (r: String)
    ensures
        r@ == path@ + "/list"@,
{
    concat2(path, "/list")
}

/// The path of the removal of a resource.
pub fn path_delete(path: &str) -> (r: String)
    ensures
        r@ == path@ + "/delete"@,
{
    concat2(path, "/delete")
}

/// The path of the creation of a resource.
pub fn path_create(path: &str) -> (r: String)
    ensures
        r@ == path@ + "/create"@,
{
    concat2(path, "/create")
}

/// The path of the update of a resource.
pub fn path_update(path: &str) -> (r: String)
    ensures
        r@ == path@ + "/update"@,
{
    concat2(path, "/update")
}

/// The path of the index page: the listing of the root, below version 1.
pub fn index_path() -> (r: String)
    ensures
        r@ == "/v1"@ + (ROUTE_ROOT@ + "/list"@),
{
    let list: String = path_list(ROUTE_ROOT);
    v1_path(list.as_str())
}

/// The state that the handlers share.
#[derive(Debug, Clone)]
pub struct HttpServerState {
    pub kvs: BTreeMap<String, String>,
}

impl HttpServerState {
    pub fn new(kvs: BTreeMap<String, String>) -> (state: Self)
        ensures
            state.kvs == kvs,
    {
        Self { kvs }
    }
}

} // verus!
