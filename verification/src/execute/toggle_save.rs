//! Saving: an account's list of the nodes it watches.

use vstd::prelude::*;

use crate::error::ContractError;
use crate::execute::{action, labels, Context, Message, Response};
use crate::state::models::TableMetadata;
use crate::state::storage::Storage;
use crate::state::thread::Thread;
use crate::text::{decimal, decimal_string, join3};
use crate::validation::texts;

verus! {

/// The thread after the first `n` nodes of a list were saved for an
/// account, or taken off its list. A node that does not exist is passed
/// over.
pub open spec fn saves_applied(
    thread: Thread,
    actor: Seq<char>,
    is_saving: bool,
    ids: Seq<u32>,
    n: int,
) -> Thread
    decreases n,
{
    if n <= 0 {
        thread
    } else {
        let before = saves_applied(thread, actor, is_saving, ids, n - 1);
        if !before.live(ids[n - 1]) {
            before
        } else if is_saving {
            Thread { saved: before.saved.insert((actor, ids[n - 1])), ..before }
        } else {
            Thread { saved: before.saved.remove((actor, ids[n - 1])), ..before }
        }
    }
}

/// Those of the first `n` nodes of a list that saving puts on the
/// account's list and that were not on it.
pub open spec fn newly_saved(thread: Thread, actor: Seq<char>, ids: Seq<u32>, n: int) -> Seq<u32>
    decreases n,
{
    if n <= 0 {
        Seq::empty()
    } else {
        let before = saves_applied(thread, actor, true, ids, n - 1);
        let rest = newly_saved(thread, actor, ids, n - 1);
        if before.live(ids[n - 1]) && !before.saved.contains((actor, ids[n - 1])) {
            rest.push(ids[n - 1])
        } else {
            rest
        }
    }
}

/// The name of the relationship between an account and a node that it has
/// saved: `save:` and the node's identifier.
pub open spec fn save_name(id: u32) -> Seq<char> {
    "save:"@ + decimal(id as nat)
}

/// The message tells the registry, for an account, of nodes saved or no
/// longer saved, each by the name of its relationship.
pub open spec fn relates(m: Message, table: String, initiator: String, add: bool, nodes: Seq<u32>) -> bool {
    match m {
        Message::TableRelate { table: t, initiator: i, add: a, names: n } => t == table && i
            == initiator && a == add && texts(n@) == nodes.map_values(|id: u32| save_name(id)),
        _ => false,
    }
}

/// The names of the relationships between an account and the nodes of a
/// list.
fn save_names(ids: &Vec<u32>) -> (names: Vec<String>)
    ensures
        texts(names@) == ids@.map_values(|id: u32| save_name(id)),
{
    let mut names: Vec<String> = Vec::new();
    let mut i: usize = 0;
    while i < ids.len()
        invariant
            i <= ids.len(),
            texts(names@) == ids@.take(i as int).map_values(|id: u32| save_name(id)),
        decreases ids.len() - i,
    {
        let number = decimal_string(ids[i] as u128);
        let name = join3("save:", number.as_str(), "");
        proof {
            reveal_strlit("");
            assert(name@ =~= save_name(ids@[i as int]));
        }
        let ghost before = texts(names@);
        names.push(name);
        proof {
            assert(texts(names@) =~= before.push(name@));
            assert(ids@.take(i + 1).map_values(|id: u32| save_name(id)) =~= ids@.take(
                i as int,
            ).map_values(|id: u32| save_name(id)).push(save_name(ids@[i as int])));
        }
        i += 1;
    }
    assert(ids@.take(i as int) =~= ids@);
    names
}

/// What saving or its reverse tells the registry, where one lists the
/// thread: on saving, the nodes newly saved, if there are any; otherwise
/// all the nodes that the message names.
pub open spec fn save_notices(
    messages: Seq<Message>,
    thread: Thread,
    sender: String,
    is_saving: bool,
    ids: Seq<u32>,
) -> bool {
    let newly = newly_saved(thread, sender@, ids, ids.len() as int);
    match thread.table {
        Some(t) => if is_saving {
            if newly.len() == 0 {
                messages.len() == 0
            } else {
                messages.len() == 1 && relates(messages[0], t.address, sender, true, newly)
            }
        } else {
            messages.len() == 1 && relates(messages[0], t.address, sender, false, ids)
        },
        None => messages.len() == 0,
    }
}

/// What saving, or its reverse, does: the sender's list follows the nodes
/// named, and the registry is told.
pub open spec fn save_done(
    before: Thread,
    ctx: Context,
    is_saving: bool,
    node_ids: Seq<u32>,
    resp: Response,
    after: Thread,
) -> bool {
    &&& after == saves_applied(before, ctx.info.sender@, is_saving, node_ids, node_ids.len() as int)
    &&& labels(resp) == action("save"@)
    &&& resp.node_id is None
    &&& save_notices(resp.messages@, before, ctx.info.sender, is_saving, node_ids)
}

/// Saves the nodes of a list for the sender, or takes them off the
/// sender's list. Nodes that do not exist are passed over without error.
pub fn exec_toggle_save(store: &mut Storage, ctx: &Context, is_saving: bool, node_ids: Vec<u32>) -> (r:
    Result<Response, ContractError>)
    requires
        old(store).wf(),
    ensures
        final(store).wf(),
        r is Ok,
        save_done(old(store)@, *ctx, is_saving, node_ids@, r->Ok_0, final(store)@),
{
    let ghost start = store@;
    let maybe_table_metadata = store.table();
    // The nodes that are newly saved; the others are passed over.
    let mut newly_saved_ids: Vec<u32> = Vec::new();
    let mut i: usize = 0;
    while i < node_ids.len()
        invariant
            i <= node_ids.len(),
            store.wf(),
            store@ == saves_applied(start, ctx.info.sender@, is_saving, node_ids@, i as int),
            is_saving ==> newly_saved_ids@ == newly_saved(
                start,
                ctx.info.sender@,
                node_ids@,
                i as int,
            ),
        decreases node_ids.len() - i,
    {
        let node_id = node_ids[i];
        if store.has_node(node_id) {
            if is_saving {
                let fresh = store.save(&ctx.info.sender, node_id);
                if fresh {
                    newly_saved_ids.push(node_id);
                }
            } else {
                store.unsave(&ctx.info.sender, node_id);
            }
        }
        i += 1;
    }
    let mut resp = Response::of("save");
    if let Some(TableMetadata { address, .. }) = maybe_table_metadata {
        if is_saving {
            if newly_saved_ids.len() > 0 {
                resp.messages.push(
                    Message::TableRelate {
                        table: address,
                        initiator: ctx.info.sender.clone(),
                        add: true,
                        names: save_names(&newly_saved_ids),
                    },
                );
            }
        } else {
            resp.messages.push(
                Message::TableRelate {
                    table: address,
                    initiator: ctx.info.sender.clone(),
                    add: false,
                    names: save_names(&node_ids),
                },
            );
        }
    }
    Ok(resp)
}

} // verus!
