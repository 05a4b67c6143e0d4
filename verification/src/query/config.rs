//! The thread's configuration.

use vstd::prelude::*;

use crate::error::ContractError;
use crate::msg::ConfigResponse;
use crate::state::storage::Storage;
use crate::state::views::ConfigView;

verus! {

/// Shows the kinds of asset that the thread accepts as tips.
pub fn query_config(store: &Storage) -> (r: Result<ConfigResponse, ContractError>)
    ensures
        r is Ok,
        r->Ok_0.0.tip_tokens@ == store@.tip_tokens,
{
    match ConfigView::load(store) {
        Ok(config) => Ok(ConfigResponse(config)),
        Err(e) => Err(e),
    }
}

} // verus!
