//! Billing service operations (endpoint `business.aliyuncs.com`).

use vstd::prelude::*;

use crate::params::ParamMap;
use crate::services::{base_params, base_params_map};

verus! {

/// Parameters of `QueryAccountBalance`: queries the account balance.
pub fn query_account_balance() -> (r: ParamMap)
    ensures
        r.wf(),
        r@ == base_params_map("QueryAccountBalance"@, "2017-12-14"@),
{
    base_params("QueryAccountBalance", "2017-12-14")
}

} // verus!
