//! The thread as a whole.

use vstd::prelude::*;

use crate::error::{missing, ContractError, Fault};
use crate::msg::ThreadInfoResponse;
use crate::state::models::{TokenAmount, ROOT_ID};
use crate::state::storage::Storage;
use crate::state::thread::Thread;
use crate::state::views::{ConfigView, NodeView};

verus! {

/// What has been tipped of each of the first `n` kinds of asset that the
/// thread accepts, for those of which anything has been tipped.
pub open spec fn tips_shown(thread: Thread, n: int) -> Seq<TokenAmount>
    decreases n,
{
    if n <= 0 {
        Seq::empty()
    } else {
        let rest = tips_shown(thread, n - 1);
        let token = thread.tip_tokens[n - 1];
        if thread.tip_totals.contains_key(token.key()) {
            rest.push(TokenAmount { token, amount: thread.tip_totals[token.key()] })
        } else {
            rest
        }
    }
}

/// Why the thread cannot be shown, if it cannot: it has no owner, or no
/// first node.
pub open spec fn info_fault(thread: Thread) -> Option<Fault> {
    if thread.owner is None {
        Some(Fault::Std { reason: "Owner not found"@ })
    } else if !thread.live(ROOT_ID) {
        Some(missing(ROOT_ID))
    } else {
        None
    }
}

/// The response shows the thread: the registry that lists it, its
/// configuration, its owner, its first node, how many replies were ever
/// made, and what has been tipped.
pub open spec fn shows_thread(resp: ThreadInfoResponse, thread: Thread, sender: Option<String>) -> bool {
    &&& resp.table == thread.table
    &&& resp.config.tip_tokens@ == thread.tip_tokens
    &&& Some(resp.owner) == thread.owner
    &&& resp.root.shows(thread, ROOT_ID, sender)
    &&& resp.n_total_replies == thread.counter
    &&& resp.tips@ == tips_shown(thread, thread.tip_tokens.len() as int)
}

/// The answer to the query for the thread as a whole.
pub open spec fn info_answer(
    thread: Thread,
    sender: Option<String>,
    r: Result<ThreadInfoResponse, ContractError>,
) -> bool {
    match info_fault(thread) {
        Some(fault) => r is Err && r->Err_0@ == fault,
        None => r is Ok && shows_thread(r->Ok_0, thread, sender),
    }
}

/// Shows the thread as a whole, and what the asking account, if there is
/// one, has done with the first node.
pub fn query_thread_info(store: &Storage, sender: Option<String>) -> (r: Result<
    ThreadInfoResponse,
    ContractError,
>)
    requires
        store.inv(),
    ensures
        info_answer(store@, sender, r),
{
    let config = match ConfigView::load(store) {
        Ok(c) => c,
        Err(e) => {
            return Err(e);
        },
    };
    let owner = match store.owner() {
        Some(o) => o,
        None => {
            return Err(ContractError::Std { reason: "Owner not found".to_owned() });
        },
    };
    let table_info = store.table();
    let mut tip_token_amounts: Vec<TokenAmount> = Vec::new();
    let mut i: usize = 0;
    while i < config.tip_tokens.len()
        invariant
            store.inv(),
            i <= config.tip_tokens.len(),
            config.tip_tokens@ == store@.tip_tokens,
            tip_token_amounts@ == tips_shown(store@, i as int),
        decreases config.tip_tokens.len() - i,
    {
        let token = &config.tip_tokens[i];
        let key = token.get_key();
        if let Some(amount) = store.tip_total(&key) {
            tip_token_amounts.push(TokenAmount { token: token.dup(), amount });
        }
        i += 1;
    }
    let root = match NodeView::load(store, ROOT_ID, &sender) {
        Ok(v) => v,
        Err(e) => {
            return Err(e);
        },
    };
    Ok(
        ThreadInfoResponse {
            n_total_replies: store.counter(),
            tips: tip_token_amounts,
            root,
            table: table_info,
            config,
            owner,
        },
    )
}

} // verus!
