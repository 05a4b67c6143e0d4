//! The registry's hooks: it takes the thread up, and tells it of being
//! taken down, suspended or resumed.

use vstd::prelude::*;

use crate::error::{missing, refused, ContractError, Fault};
use crate::execute::{action, ended, labels, silent, Context, Message, Response};
use crate::msg::{LifecycleArgs, LifecycleSetupArgs};
use crate::state::models::{NodeMetadata, TableMetadata, ROOT_ID};
use crate::state::storage::Storage;
use crate::state::thread::{NodeState, Thread};
use crate::state::views::{load_mentions, load_tags};
use crate::util::load_node_metadata;
use crate::validation::texts;

verus! {

/// Why the registry cannot take the thread up, if it cannot: the thread has
/// no first node, or a registry has taken it up already.
pub open spec fn setup_fault(thread: Thread) -> Option<Fault> {
    if !thread.live(ROOT_ID) {
        Some(missing(ROOT_ID))
    } else if thread.table is Some {
        Some(refused("Already setup"@))
    } else {
        None
    }
}

/// The thread after the registry took it up: the registry is recorded
/// with the thread's name in it, and the account that the registry names
/// counts as the creator of the first node.
pub open spec fn set_up(thread: Thread, table_addr: String, args: LifecycleSetupArgs) -> Thread {
    Thread {
        table: Some(TableMetadata { address: table_addr, id: args.id }),
        ..thread.with_node(
            ROOT_ID,
            NodeState {
                meta: NodeMetadata { created_by: args.initiator, ..thread.meta(ROOT_ID) },
                ..thread.nodes[ROOT_ID]
            },
        )
    }
}

/// The texts list what a node is indexed under: first the accounts that it
/// mentions, then its tags.
pub open spec fn lists_index_texts(list: Seq<String>, thread: Thread, node_id: u32) -> bool {
    exists|k: int|
        0 <= k <= list.len() && #[trigger] texts(list.subrange(0, k)).to_set()
            == thread.nodes[node_id].mention_index && texts(list.subrange(0, k)).no_duplicates()
            && texts(list.subrange(k, list.len() as int)).to_set()
            == thread.nodes[node_id].tag_index && texts(
            list.subrange(k, list.len() as int),
        ).no_duplicates()
}

/// The message gives the thread to the registry.
pub open spec fn gives_thread(m: Message, thread: Thread, table_addr: String, args: LifecycleSetupArgs) -> bool {
    match m {
        Message::TableSetup { table, initiator, creator, rank, activity, tags } => {
            &&& table == table_addr
            &&& initiator == table_addr
            &&& creator == args.initiator
            &&& rank == thread.meta(ROOT_ID).rank
            &&& activity == 0
            &&& lists_index_texts(tags@, thread, ROOT_ID)
        },
        _ => false,
    }
}

/// Records the registry that lists the thread, once.
fn save_table_info(store: &mut Storage, table_addr: &String, contract_id: &String) -> (r: Result<
    (),
    ContractError,
>)
    requires
        old(store).wf(),
    ensures
        final(store).wf(),
        match r {
            Ok(()) => old(store)@.table is None && final(store)@ == (Thread {
                table: Some(TableMetadata { address: *table_addr, id: *contract_id }),
                ..old(store)@
            }),
            Err(e) => old(store)@.table is Some && e@ == refused("Already setup"@) && final(store)@
                == old(store)@,
        },
{
    if store.table().is_some() {
        return Err(ContractError::not_authorized("Already setup"));
    }
    store.set_table(TableMetadata { address: table_addr.clone(), id: contract_id.clone() });
    Ok(())
}

/// What a node is indexed under, for the registry: the accounts that it
/// mentions, then its tags.
fn prepare_tag_updates(store: &Storage, node_id: u32) -> (r: Vec<String>)
    requires
        store.inv(),
        store@.live(node_id),
    ensures
        lists_index_texts(r@, store@, node_id),
{
    let mut tag_updates_to_add = match load_mentions(store, node_id) {
        Ok(v) => v,
        Err(_) => Vec::new(),
    };
    let mut tags = match load_tags(store, node_id) {
        Ok(v) => v,
        Err(_) => Vec::new(),
    };
    let ghost first = tag_updates_to_add@;
    let ghost second = tags@;
    tag_updates_to_add.append(&mut tags);
    proof {
        let all = tag_updates_to_add@;
        let k = first.len() as int;
        assert(all.subrange(0, k) =~= first);
        assert(all.subrange(k, all.len() as int) =~= second);
    }
    tag_updates_to_add
}

/// What taking the thread up does where it is not refused: the registry
/// is recorded, and the thread is given to it.
pub open spec fn setup_done(
    before: Thread,
    ctx: Context,
    args: LifecycleSetupArgs,
    resp: Response,
    after: Thread,
) -> bool {
    &&& after == set_up(before, ctx.info.sender, args)
    &&& labels(resp) == action("setup"@)
    &&& resp.node_id is None
    &&& resp.messages@.len() == 1
    &&& gives_thread(resp.messages@[0], before, ctx.info.sender, args)
}

/// The registry, which sends the message, takes the thread up. That can
/// be done once.
pub fn exec_setup(store: &mut Storage, ctx: &Context, args: LifecycleSetupArgs) -> (r: Result<
    Response,
    ContractError,
>)
    requires
        old(store).wf(),
    ensures
        final(store).wf(),
        ended(
            setup_fault(old(store)@),
            setup_done(old(store)@, *ctx, args, r->Ok_0, final(store)@),
            r,
            old(store)@,
            final(store)@,
        ),
{
    let meta = match load_node_metadata(store, ROOT_ID, true) {
        Ok(Some(m)) => m,
        Ok(None) => {
            return Err(ContractError::NodeNotFound { node_id: ROOT_ID });
        },
        Err(e) => {
            return Err(e);
        },
    };
    match save_table_info(store, &ctx.info.sender, &args.id) {
        Ok(()) => {},
        Err(e) => {
            return Err(e);
        },
    }
    let tags = prepare_tag_updates(store, ROOT_ID);
    store.set_created_by(ROOT_ID, args.initiator.clone());
    let mut resp = Response::of("setup");
    resp.messages.push(
        Message::TableSetup {
            table: ctx.info.sender.clone(),
            initiator: ctx.info.sender.clone(),
            creator: args.initiator,
            rank: meta.rank,
            activity: 0,
            tags,
        },
    );
    Ok(resp)
}

/// The registry tells the thread that it was taken down. Nothing changes.
pub fn exec_teardown(store: &Storage, ctx: &Context, args: LifecycleArgs) -> (r: Result<
    Response,
    ContractError,
>)
    ensures
        r is Ok,
        silent(r->Ok_0, "teardown"@),
{
    Ok(Response::of("teardown"))
}

/// The registry tells the thread that it was suspended. Nothing changes.
pub fn exec_suspend(store: &Storage, ctx: &Context, args: LifecycleArgs) -> (r: Result<
    Response,
    ContractError,
>)
    ensures
        r is Ok,
        silent(r->Ok_0, "suspend"@),
{
    Ok(Response::of("suspend"))
}

/// The registry tells the thread that it was resumed. Nothing changes.
pub fn exec_resume(store: &Storage, ctx: &Context, args: LifecycleArgs) -> (r: Result<
    Response,
    ContractError,
>)
    ensures
        r is Ok,
        silent(r->Ok_0, "resume"@),
{
    Ok(Response::of("resume"))
}

} // verus!
