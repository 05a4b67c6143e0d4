//! Flagging: one flag for each account on a node, counted by the node.

use vstd::prelude::*;

use crate::error::{missing, overflow, refused, ContractError, Fault};
use crate::execute::{ended, silent, Context, Response};
use crate::state::models::FlagMetadata;
use crate::state::storage::Storage;
use crate::state::thread::Thread;
use crate::text::join3;

verus! {

/// Why a flag is refused, if it is: the node does not exist; the account
/// has flagged it already; or the node's count of flags is used up.
pub open spec fn flag_fault(thread: Thread, sender: Seq<char>, node_id: u32) -> Option<Fault> {
    if !thread.live(node_id) {
        Some(missing(node_id))
    } else if thread.nodes[node_id].flags.contains_key(sender) {
        Some(refused("Already flagged by "@ + sender))
    } else if thread.meta(node_id).n_flags == u8::MAX {
        Some(overflow())
    } else {
        None
    }
}

/// What a flag that is not refused does: the node holds the sender's
/// flag, with the time and the reason, and counts one flag more.
pub open spec fn flag_done(
    before: Thread,
    ctx: Context,
    node_id: u32,
    maybe_reason: Option<String>,
    resp: Response,
    after: Thread,
) -> bool {
    &&& after == before.flagged(
        node_id,
        ctx.info.sender@,
        FlagMetadata { flagged_at: ctx.env.time, flagged_by: ctx.info.sender, reason: maybe_reason },
    )
    &&& silent(resp, "flag"@)
}

/// Flags a node for the sender, with a reason if one is given.
pub fn exec_flag(store: &mut Storage, ctx: &Context, node_id: u32, maybe_reason: Option<String>) -> (r:
    Result<Response, ContractError>)
    requires
        old(store).wf(),
    ensures
        final(store).wf(),
        ended(
            flag_fault(old(store)@, ctx.info.sender@, node_id),
            flag_done(old(store)@, *ctx, node_id, maybe_reason, r->Ok_0, final(store)@),
            r,
            old(store)@,
            final(store)@,
        ),
{
    let metadata = match store.metadata(node_id) {
        Some(m) => m,
        None => {
            return Err(ContractError::NodeNotFound { node_id });
        },
    };
    if store.has_flag(node_id, &ctx.info.sender) {
        let reason = join3("Already flagged by ", ctx.info.sender.as_str(), "");
        assert(reason@ =~= "Already flagged by "@ + ctx.info.sender@) by {
            reveal_strlit("");
        }
        return Err(ContractError::NotAuthorized { reason });
    }
    if metadata.n_flags == u8::MAX {
        return Err(ContractError::overflow());
    }
    store.add_flag(
        node_id,
        ctx.info.sender.clone(),
        FlagMetadata {
            flagged_at: ctx.env.time,
            flagged_by: ctx.info.sender.clone(),
            reason: maybe_reason,
        },
    );
    Ok(Response::of("flag"))
}

/// Why a flag cannot be taken off, if it cannot: the account holds no flag
/// on the node.
pub open spec fn unflag_fault(thread: Thread, sender: Seq<char>, node_id: u32) -> Option<Fault> {
    if !(thread.live(node_id) && thread.nodes[node_id].flags.contains_key(sender)) {
        Some(refused("Not flagged by "@ + sender))
    } else {
        None
    }
}

/// What taking a flag off does where it is not refused: the node no
/// longer holds the sender's flag, and counts one flag less.
pub open spec fn unflag_done(before: Thread, ctx: Context, node_id: u32, resp: Response, after: Thread) -> bool {
    after == before.unflagged(node_id, ctx.info.sender@) && silent(resp, "unflag"@)
}

/// Takes the sender's flag off a node.
pub fn exec_unflag(store: &mut Storage, ctx: &Context, node_id: u32) -> (r: Result<
    Response,
    ContractError,
>)
    requires
        old(store).wf(),
    ensures
        final(store).wf(),
        ended(
            unflag_fault(old(store)@, ctx.info.sender@, node_id),
            unflag_done(old(store)@, *ctx, node_id, r->Ok_0, final(store)@),
            r,
            old(store)@,
            final(store)@,
        ),
{
    if !(store.has_node(node_id) && store.has_flag(node_id, &ctx.info.sender)) {
        let reason = join3("Not flagged by ", ctx.info.sender.as_str(), "");
        assert(reason@ =~= "Not flagged by "@ + ctx.info.sender@) by {
            reveal_strlit("");
        }
        return Err(ContractError::NotAuthorized { reason });
    }
    store.remove_flag(node_id, &ctx.info.sender);
    Ok(Response::of("unflag"))
}

} // verus!
