//! Configuring: which kinds of asset the thread accepts as tips.

use vstd::prelude::*;

use crate::error::{invalid, missing, refused, ContractError, Fault};
use crate::execute::{ended, silent, Context, Response};
use crate::msg::ConfigUpdateMsg;
use crate::state::models::{MAX_TIP_TOKEN_TYPES, ROOT_ID};
use crate::state::storage::Storage;
use crate::state::thread::Thread;
use crate::state::{is_action_authorized, privileged};
use crate::util::load_node_metadata;

verus! {

/// Why a change of configuration is refused, if it is: the thread has no
/// first node; the sender neither created the thread nor is the account
/// that owns it (the access-control service is not asked); or more than 10
/// kinds of asset are given.
pub open spec fn config_fault(thread: Thread, ctx: Context, updates: ConfigUpdateMsg) -> Option<Fault> {
    if !thread.live(ROOT_ID) {
        Some(missing(ROOT_ID))
    } else if !(thread.meta(ROOT_ID).created_by@ == ctx.info.sender@ || privileged(
        thread,
        ctx.info.sender@,
        false,
    )) {
        Some(refused("You do not own the thread"@))
    } else if updates.tip_tokens is Some && updates.tip_tokens->Some_0@.len() > MAX_TIP_TOKEN_TYPES {
        Some(invalid("Max number of tip token types is 10"@))
    } else {
        None
    }
}

/// The thread after a change of configuration.
pub open spec fn configured(thread: Thread, updates: ConfigUpdateMsg) -> Thread {
    match updates.tip_tokens {
        Some(tokens) => thread.with_tip_tokens(tokens@),
        None => thread,
    }
}

/// Sets which kinds of asset the thread accepts as tips.
pub fn exec_set_config(store: &mut Storage, ctx: &Context, updates: ConfigUpdateMsg) -> (r: Result<
    Response,
    ContractError,
>)
    requires
        old(store).wf(),
    ensures
        final(store).wf(),
        ended(
            config_fault(old(store)@, *ctx, updates),
            final(store)@ == configured(old(store)@, updates) && silent(r->Ok_0, "set_config"@),
            r,
            old(store)@,
            final(store)@,
        ),
{
    let node = match load_node_metadata(store, ROOT_ID, true) {
        Ok(Some(m)) => m,
        Ok(None) => {
            return Err(ContractError::NodeNotFound { node_id: ROOT_ID });
        },
        Err(e) => {
            return Err(e);
        },
    };
    if !(node.created_by == ctx.info.sender || is_action_authorized(
        store,
        &ctx.info.sender,
        false,
    )) {
        return Err(ContractError::not_authorized("You do not own the thread"));
    }
    if let Some(tokens) = updates.tip_tokens {
        if tokens.len() > MAX_TIP_TOKEN_TYPES {
            return Err(ContractError::validation("Max number of tip token types is 10"));
        }
        store.set_tip_tokens(tokens);
    }
    Ok(Response::of("set_config"))
}

} // verus!
