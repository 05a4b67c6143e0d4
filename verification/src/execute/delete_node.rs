//! Deleting: a node goes with all that descends from it; the first node
//! takes the whole thread with it.

use vstd::prelude::*;

use crate::error::{missing, refused, ContractError, Fault};
use crate::execute::{action, ended, labels, Context, Message, Response};
use crate::state::models::{TableMetadata, ROOT_ID};
use crate::state::storage::Storage;
use crate::state::thread::Thread;
use crate::state::{is_action_authorized, privileged};
use crate::util::load_node_metadata;

verus! {

/// A list that holds a node and, with each node of it, that node's replies
/// holds all that descends from the node.
proof fn lemma_closed_list_holds_subtree(thread: Thread, found: Seq<u32>, id: u32, n: u32)
    requires
        thread.wf(),
        found.contains(id),
        forall|m: int, c: u32|
            0 <= m < found.len() && #[trigger] thread.nodes[found[m]].children.contains(c)
                ==> found.contains(c),
        thread.live(n),
        thread.descends(n, id),
    ensures
        found.contains(n),
    decreases thread.nodes[n].meta.depth,
{
    if n != id {
        let p = thread.meta(n).parent_id->Some_0;
        lemma_closed_list_holds_subtree(thread, found, id, p);
        assert(thread.node_linked(n));
        let m = choose|m: int| 0 <= m < found.len() && found[m] == p;
        assert(thread.nodes[found[m]].children.contains(n));
    }
}

/// A list of distinct nodes is no longer than the thread has nodes.
proof fn lemma_distinct_nodes_bounded(thread: Thread, found: Seq<u32>)
    requires
        thread.nodes.dom().finite(),
        found.no_duplicates(),
        forall|k: int| 0 <= k < found.len() ==> thread.live(#[trigger] found[k]),
    ensures
        found.len() <= thread.nodes.dom().len(),
{
    found.unique_seq_to_set();
    assert(found.to_set().subset_of(thread.nodes.dom())) by {
        assert forall|x: u32| found.to_set().contains(x) implies thread.nodes.dom().contains(x) by {
            let k = choose|k: int| 0 <= k < found.len() && found[k] == x;
            assert(thread.live(found[k]));
        }
    }
    vstd::set_lib::lemma_len_subset(found.to_set(), thread.nodes.dom());
}

/// Finds a node and all that descends from it, by walking the replies of
/// each node found, with a work list in place of recursion. Every node
/// stands in the list after its parent.
fn collect_subtree(store: &Storage, id: u32) -> (found: Vec<u32>)
    requires
        store.wf(),
        store@.live(id),
    ensures
        found@.no_duplicates(),
        found@.to_set() == store@.subtree(id),
        found@.len() >= 1,
        found@[0] == id,
{
    let ghost thread = store@;
    let total = store.node_count();
    let mut found: Vec<u32> = Vec::new();
    found.push(id);
    let mut i: usize = 0;
    while i < found.len()
        invariant
            store.wf(),
            thread == store@,
            thread.nodes.dom().finite(),
            total == thread.nodes.dom().len(),
            i <= found.len(),
            found@.len() >= 1,
            found@[0] == id,
            found@.no_duplicates(),
            forall|k: int|
                0 <= k < found@.len() ==> thread.live(#[trigger] found@[k]) && thread.descends(
                    found@[k],
                    id,
                ),
            forall|k: int|
                1 <= k < found@.len() ==> thread.meta(#[trigger] found@[k]).parent_id is Some
                    && found@.take(i as int).contains(thread.meta(found@[k]).parent_id->Some_0),
            forall|m: int, c: u32|
                0 <= m < i && #[trigger] thread.nodes[found@[m]].children.contains(c)
                    ==> found@.contains(c),
        decreases total - i,
    {
        proof {
            lemma_distinct_nodes_bounded(thread, found@);
        }
        let x = found[i];
        let mut kids = store.children_of(x);
        let ghost base = found@;
        let ghost more = kids@;
        found.append(&mut kids);
        proof {
            assert(found@ == base + more);
            assert forall|q: int| 0 <= q < more.len() implies thread.live(#[trigger] more[q])
                && thread.descends(more[q], id) && thread.meta(more[q]).parent_id == Some(x)
                && !base.contains(more[q]) by {
                let c = more[q];
                assert(more.to_set().contains(c));
                thread.lemma_child_descends(x, c, id);
                assert(thread.node_linked(x));
                assert(thread.node_linked(c));
                if base.contains(c) {
                    let k = choose|k: int| 0 <= k < base.len() && base[k] == c;
                    if k == 0 {
                        thread.lemma_descends_depth(x, id);
                    } else {
                        let p = thread.meta(base[k]).parent_id->Some_0;
                        assert(base.take(i as int).contains(p));
                        let m = choose|m: int| 0 <= m < i && base.take(i as int)[m] == p;
                        assert(base[m] == base[i as int]);
                    }
                }
            }
            assert(found@.no_duplicates()) by {
                assert forall|a: int, b: int|
                    0 <= a < found@.len() && 0 <= b < found@.len() && a != b implies found@[a]
                    != found@[b] by {
                    if a < base.len() && b >= base.len() {
                        assert(base.contains(found@[a]));
                    } else if b < base.len() && a >= base.len() {
                        assert(base.contains(found@[b]));
                    }
                }
            }
            assert forall|k: int| 1 <= k < found@.len() implies thread.meta(
                #[trigger] found@[k],
            ).parent_id is Some && found@.take(i + 1).contains(
                thread.meta(found@[k]).parent_id->Some_0,
            ) by {
                if k < base.len() {
                    let p = thread.meta(base[k]).parent_id->Some_0;
                    let m = choose|m: int| 0 <= m < i && base.take(i as int)[m] == p;
                    assert(found@.take(i + 1)[m] == p);
                } else {
                    assert(found@[k] == more[k - base.len()]);
                    assert(found@.take(i + 1)[i as int] == x);
                }
            }
            assert forall|m: int, c: u32|
                0 <= m < i + 1 && #[trigger] thread.nodes[found@[m]].children.contains(
                    c,
                ) implies found@.contains(c) by {
                if m < i {
                    assert(base.contains(c));
                    let k = choose|k: int| 0 <= k < base.len() && base[k] == c;
                    assert(found@[k] == c);
                } else {
                    assert(more.to_set().contains(c));
                    let q = choose|q: int| 0 <= q < more.len() && more[q] == c;
                    assert(found@[base.len() + q] == c);
                }
            }
        }
        i += 1;
    }
    proof {
        assert(found@.contains(id)) by {
            assert(found@[0] == id);
        }
        assert forall|n: u32| found@.to_set().contains(n) <==> thread.subtree(id).contains(n) by {
            if found@.to_set().contains(n) {
                let k = choose|k: int| 0 <= k < found@.len() && found@[k] == n;
                assert(thread.live(found@[k]));
            }
            if thread.subtree(id).contains(n) {
                lemma_closed_list_holds_subtree(thread, found@, id, n);
            }
        }
        assert(found@.to_set() =~= thread.subtree(id));
    }
    found
}

/// How many rows and single values are taken out of the store at a time.
pub const PURGE_BATCH: usize = 20;

/// Removes all that the store holds, in batches of bounded size.
pub fn purge_contract_state(store: &mut Storage)
    requires
        old(store).wf(),
    ensures
        final(store).wf(),
        final(store)@ == Thread::empty(),
{
    loop
        invariant
            store.inv(),
        ensures
            store.inv(),
            store@ == Thread::empty(),
        decreases store.size(),
    {
        let removed = store.remove_batch(PURGE_BATCH);
        if removed == 0 {
            break;
        }
    }
    proof {
        Thread::lemma_empty();
    }
}

/// Removes one node: what is recorded of it, its body and sections, its
/// votes and flags, its place on its parent's list of replies, its entry in
/// the rank index, and its tags and mentions on both sides of their
/// indexes. After it no node lists the node as a reply. The parent's count
/// of replies is left to the caller.
fn delete_child_node(store: &mut Storage, id: u32)
    requires
        old(store).inv(),
        old(store)@.indexes_sound(),
        old(store)@.children_sound(),
        old(store)@.live(id),
    ensures
        final(store).inv(),
        final(store)@.indexes_sound(),
        final(store)@.children_sound(),
        final(store)@ == old(store)@.without_node(id),
        !final(store)@.live(id),
        forall|x: u32| #[trigger]
            final(store)@.live(x) ==> !final(store)@.nodes[x].children.contains(id),
{
    store.remove_node(id);
}

/// Why a deletion is refused, if it is: the node does not exist, or the
/// sender neither created it nor holds the privileged role.
pub open spec fn delete_fault(thread: Thread, ctx: Context, id: u32) -> Option<Fault> {
    if !thread.live(id) {
        Some(missing(id))
    } else if !(thread.meta(id).created_by@ == ctx.info.sender@ || privileged(
        thread,
        ctx.info.sender@,
        ctx.acl_allows,
    )) {
        Some(refused("Not authorized to delete the thread"@))
    } else {
        None
    }
}

/// The thread after a deletion: nothing is left after that of the first
/// node; after that of a reply, the reply and all that descends from it are
/// gone, and its parent counts one reply less.
pub open spec fn after_delete(thread: Thread, id: u32) -> Thread {
    if id == ROOT_ID {
        Thread::empty()
    } else {
        thread.deleted(id)
    }
}

/// What a deletion asks of the registry: to take the thread out, where the
/// first node is deleted and a registry lists the thread.
pub open spec fn delete_notice(table: Option<TableMetadata>, id: u32) -> Seq<Message> {
    match table {
        Some(t) => if id == ROOT_ID {
            seq![Message::TableDelete { table: t.address }]
        } else {
            Seq::empty()
        },
        None => Seq::empty(),
    }
}

/// What a deletion that is not refused does: the thread is without the
/// node and all below it, and the registry is asked to take the thread out
/// where the first node went.
pub open spec fn delete_done(before: Thread, id: u32, resp: Response, after: Thread) -> bool {
    &&& after == after_delete(before, id)
    &&& labels(resp) == action("delete"@)
    &&& resp.node_id is None
    &&& resp.messages@ == delete_notice(before.table, id)
}

/// Deletes a node with all that descends from it, for its creator or for an
/// account with the privileged role.
pub fn exec_delete_node(store: &mut Storage, ctx: &Context, id: u32) -> (r: Result<
    Response,
    ContractError,
>)
    requires
        old(store).wf(),
    ensures
        final(store).wf(),
        ended(
            delete_fault(old(store)@, *ctx, id),
            delete_done(old(store)@, id, r->Ok_0, final(store)@),
            r,
            old(store)@,
            final(store)@,
        ),
{
    let node = match load_node_metadata(store, id, true) {
        Ok(Some(m)) => m,
        Ok(None) => {
            return Err(ContractError::NodeNotFound { node_id: id });
        },
        Err(e) => {
            return Err(e);
        },
    };
    let maybe_table_metadata = store.table();
    let mut resp = Response::of("delete");
    if !(node.created_by == ctx.info.sender || is_action_authorized(
        store,
        &ctx.info.sender,
        ctx.acl_allows,
    )) {
        return Err(ContractError::not_authorized("Not authorized to delete the thread"));
    }
    if id == ROOT_ID {
        purge_contract_state(store);
        if let Some(t) = maybe_table_metadata {
            resp.messages.push(Message::TableDelete { table: t.address });
        }
    } else {
        let ghost start = store@;
        proof {
            assert(start.node_linked(id));
            start.lemma_deleted(id);
            start.lemma_without_none();
            start.lemma_children_sound();
        }
        let parent_id = node.parent_id.unwrap();
        let found = collect_subtree(store, id);
        // The nodes go in the reverse of the order in which they were
        // found, so that each goes before its parent.
        let mut j: usize = found.len();
        proof {
            assert(found@.subrange(j as int, found@.len() as int).to_set() =~= Set::<u32>::empty());
            assert forall|k: int| 0 <= k < found@.len() implies start.live(#[trigger] found@[k]) by {
                assert(found@.to_set().contains(found@[k]));
            }
        }
        while j > 0
            invariant
                j <= found.len(),
                store.inv(),
                store@.indexes_sound(),
                store@.children_sound(),
                found@.no_duplicates(),
                forall|k: int| 0 <= k < found@.len() ==> start.live(#[trigger] found@[k]),
                store@ == start.without_nodes(
                    found@.subrange(j as int, found@.len() as int).to_set(),
                ),
            decreases j,
        {
            j -= 1;
            let ghost gone = found@.subrange(j + 1, found@.len() as int).to_set();
            proof {
                assert(start.live(found@[j as int]));
                assert(!gone.contains(found@[j as int])) by {
                    if gone.contains(found@[j as int]) {
                        let rest = found@.subrange(j + 1, found@.len() as int);
                        let k = choose|k: int| 0 <= k < rest.len() && rest[k] == found@[j as int];
                        assert(found@[j + 1 + k] == found@[j as int]);
                    }
                }
                start.lemma_without_more(gone, found@[j as int]);
                assert(found@.subrange(j as int, found@.len() as int).to_set() =~= gone.insert(
                    found@[j as int],
                )) by {
                    let rest = found@.subrange(j + 1, found@.len() as int);
                    let all = found@.subrange(j as int, found@.len() as int);
                    assert forall|x: u32| all.to_set().contains(x) <==> gone.insert(
                        found@[j as int],
                    ).contains(x) by {
                        if all.contains(x) {
                            let k = choose|k: int| 0 <= k < all.len() && all[k] == x;
                            if k > 0 {
                                assert(rest[k - 1] == x);
                            }
                        }
                        if rest.contains(x) {
                            let k = choose|k: int| 0 <= k < rest.len() && rest[k] == x;
                            assert(all[k + 1] == x);
                        }
                        if x == found@[j as int] {
                            assert(all[0] == x);
                        }
                    }
                }
            }
            delete_child_node(store, found[j]);
        }
        proof {
            assert(found@.subrange(0, found@.len() as int) =~= found@);
            assert(!start.subtree(id).contains(parent_id)) by {
                if start.descends(parent_id, id) {
                    start.lemma_descends_depth(parent_id, id);
                }
            }
        }
        // Only the parent of the node deleted counts one reply less.
        store.count_less(parent_id);
    }
    Ok(resp)
}

} // verus!
