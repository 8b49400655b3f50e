//! Paths of the administrative HTTP surface.
use vstd::prelude::*;

verus! {

pub const ROUTE_ROOT: &'static str = "/index";

pub const ROUTE_ADD_LEARNER: &'static str = "/add-learner";

pub const ROUTE_CHANGE_MEMBERSHIP: &'static str = "/change-membership";

pub const ROUTE_INIT: &'static str = "/init";

pub const ROUTE_METRICS: &'static str = "/metrics";

/// `path` under the first version of the API.
pub fn v1_path(path: &str) -> (r: String)
    ensures
        r@ == "/v1"@ + path@,
{
    let mut r = String::from_str("/v1");
    r.append(path);
    r
}

/// The creation route of a resource.
pub fn path_create(path: &str) -> (r: String)
    ensures
        r@ == path@ + "/create"@,
{
    let mut r = String::from_str(path);
    r.append("/create");
    r
}

/// The update route of a resource.
pub fn path_update(path: &str) -> (r: String)
    ensures
        r@ == path@ + "/update"@,
{
    let mut r = String::from_str(path);
    r.append("/update");
    r
}

/// The deletion route of a resource.
pub fn path_delete(path: &str) -> (r: String)
    ensures
        r@ == path@ + "/delete"@,
{
    let mut r = String::from_str(path);
    r.append("/delete");
    r
}

/// The listing route of a resource.
pub fn path_list(path: &str) -> (r: String)
    ensures
        r@ == path@ + "/list"@,
{
    let mut r = String::from_str(path);
    r.append("/list");
    r
}

} // verus!
