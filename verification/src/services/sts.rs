//! Identity service operations (endpoint `sts.aliyuncs.com`).

use vstd::prelude::*;

use crate::params::ParamMap;
use crate::services::{base_params, base_params_map};

verus! {

/// Parameters of `GetCallerIdentity`: asks the provider who the holder of
/// the signing credentials is.
pub fn get_caller_identity() -> (r: ParamMap)
    ensures
        r.wf(),
        r@ == base_params_map("GetCallerIdentity"@, "2015-04-01"@),
{
    base_params("GetCallerIdentity", "2015-04-01")
}

} // verus!
