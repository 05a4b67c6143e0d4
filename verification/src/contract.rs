//! The thread's surface: making it, running a message on it, and
//! answering a query.

use vstd::prelude::*;

use crate::error::ContractError;
use crate::execute::delete_node::{delete_done, delete_fault, exec_delete_node};
use crate::execute::edit_node::{edit_done, edit_fault, exec_edit_node};
use crate::execute::flags::{exec_flag, exec_unflag, flag_done, flag_fault, unflag_done, unflag_fault};
use crate::execute::lifecycle::{
    exec_resume, exec_setup, exec_suspend, exec_teardown, setup_done, setup_fault,
};
use crate::execute::reply::{exec_reply, reply_done, reply_fault};
use crate::execute::set_config::{config_fault, configured, exec_set_config};
use crate::execute::tip::{exec_tip, tip_done, tip_fault};
use crate::execute::toggle_save::{exec_toggle_save, save_done};
use crate::execute::vote::{
    exec_vote, exec_votes, vote_done, vote_fault, votes_done, votes_fault,
};
use crate::execute::{ended, labels, silent, Context, Message, Response};
use crate::msg::{
    ExecuteMsg, InstantiateMsg, LifecycleExecuteMsg, MigrateMsg, NodesQueryMsg, QueryMsg,
    QueryResponse,
};
use crate::query::info::{info_answer, query_thread_info};
use crate::query::nodes::{
    ancestors_answer, nodes_answer, query_ancestor_nodes, query_nodes_by_id,
    query_nodes_by_tag_or_callout, query_nodes_in_reply_to, replies_answer, text_answer,
    TagWrapper,
};
use crate::state::storage::Storage;
use crate::state::thread::Thread;
use crate::state::{init, init_fault, initial};

verus! {

/// Makes a thread from what a message gives.
pub fn instantiate(ctx: &Context, msg: InstantiateMsg) -> (r: Result<
    (Storage, Response),
    ContractError,
>)
    ensures
        match init_fault(msg) {
            Some(fault) => r is Err && r->Err_0@ == fault,
            None => r is Ok && r->Ok_0.0.wf() && r->Ok_0.0@ == initial(*ctx, msg) && silent(
                r->Ok_0.1,
                "instantiate"@,
            ),
        },
{
    match init(ctx, msg) {
        Ok(store) => Ok((store, Response::of("instantiate"))),
        Err(e) => Err(e),
    }
}

/// How a message ends on a thread: as the operation that it names ends.
pub open spec fn executed(
    before: Thread,
    ctx: Context,
    msg: ExecuteMsg,
    r: Result<Response, ContractError>,
    after: Thread,
) -> bool {
    let resp = r->Ok_0;
    match msg {
        ExecuteMsg::SetConfig(updates) => ended(
            config_fault(before, ctx, updates),
            after == configured(before, updates) && silent(resp, "set_config"@),
            r,
            before,
            after,
        ),
        ExecuteMsg::Reply(m) => ended(
            reply_fault(before, m),
            reply_done(before, ctx, m, resp, after),
            r,
            before,
            after,
        ),
        ExecuteMsg::Vote(m) => ended(
            vote_fault(before, ctx.info.sender@, m),
            vote_done(before, ctx, m, resp, after),
            r,
            before,
            after,
        ),
        ExecuteMsg::VoteMany(ms) => ended(
            votes_fault(before, ctx.info.sender@, ms@, ms@.len() as int),
            votes_done(before, ctx, ms@, resp, after),
            r,
            before,
            after,
        ),
        ExecuteMsg::Edit(m) => ended(
            edit_fault(before, ctx.info.sender@, m),
            edit_done(before, ctx, m, resp, after),
            r,
            before,
            after,
        ),
        ExecuteMsg::Tip(tip) => ended(
            tip_fault(before, ctx, tip),
            tip_done(before, ctx, tip, resp, after),
            r,
            before,
            after,
        ),
        ExecuteMsg::Save(ids) => r is Ok && save_done(before, ctx, true, ids@, resp, after),
        ExecuteMsg::Unsave(ids) => r is Ok && save_done(before, ctx, false, ids@, resp, after),
        ExecuteMsg::Delete { id } => ended(
            delete_fault(before, ctx, id),
            delete_done(before, id, resp, after),
            r,
            before,
            after,
        ),
        ExecuteMsg::Flag { id, reason } => ended(
            flag_fault(before, ctx.info.sender@, id),
            flag_done(before, ctx, id, reason, resp, after),
            r,
            before,
            after,
        ),
        ExecuteMsg::Unflag { id } => ended(
            unflag_fault(before, ctx.info.sender@, id),
            unflag_done(before, ctx, id, resp, after),
            r,
            before,
            after,
        ),
        ExecuteMsg::Lifecycle(LifecycleExecuteMsg::Setup(args)) => ended(
            setup_fault(before),
            setup_done(before, ctx, args, resp, after),
            r,
            before,
            after,
        ),
        ExecuteMsg::Lifecycle(LifecycleExecuteMsg::Teardown(_)) => r is Ok && silent(
            resp,
            "teardown"@,
        ) && after == before,
        ExecuteMsg::Lifecycle(LifecycleExecuteMsg::Suspend(_)) => r is Ok && silent(
            resp,
            "suspend"@,
        ) && after == before,
        ExecuteMsg::Lifecycle(LifecycleExecuteMsg::Resume(_)) => r is Ok && silent(resp, "resume"@)
            && after == before,
    }
}

/// Runs a message on the thread.
pub fn execute(store: &mut Storage, ctx: &Context, msg: ExecuteMsg) -> (r: Result<
    Response,
    ContractError,
>)
    requires
        old(store).wf(),
    ensures
        final(store).wf(),
        executed(old(store)@, *ctx, msg, r, final(store)@),
{
    match msg {
        ExecuteMsg::SetConfig(updates) => exec_set_config(store, ctx, updates),
        ExecuteMsg::Reply(msg) => exec_reply(store, ctx, msg),
        ExecuteMsg::Vote(msg) => exec_vote(store, ctx, msg),
        ExecuteMsg::VoteMany(msgs) => exec_votes(store, ctx, msgs),
        ExecuteMsg::Edit(msg) => exec_edit_node(store, ctx, msg),
        ExecuteMsg::Tip(token_amount) => exec_tip(store, ctx, token_amount),
        ExecuteMsg::Save(ids) => exec_toggle_save(store, ctx, true, ids),
        ExecuteMsg::Unsave(ids) => exec_toggle_save(store, ctx, false, ids),
        ExecuteMsg::Delete { id } => exec_delete_node(store, ctx, id),
        ExecuteMsg::Flag { id, reason } => exec_flag(store, ctx, id, reason),
        ExecuteMsg::Unflag { id } => exec_unflag(store, ctx, id),
        ExecuteMsg::Lifecycle(msg) => match msg {
            LifecycleExecuteMsg::Setup(args) => exec_setup(store, ctx, args),
            LifecycleExecuteMsg::Teardown(args) => exec_teardown(store, ctx, args),
            LifecycleExecuteMsg::Suspend(args) => exec_suspend(store, ctx, args),
            LifecycleExecuteMsg::Resume(args) => exec_resume(store, ctx, args),
        },
    }
}

/// How a query is answered: as the query that the message names is.
pub open spec fn answered(thread: Thread, msg: QueryMsg, r: Result<QueryResponse, ContractError>) -> bool {
    match msg {
        QueryMsg::Thread { sender } => match r {
            Ok(QueryResponse::Thread(info)) => info_answer(thread, sender, Ok(info)),
            Ok(_) => false,
            Err(e) => info_answer(thread, sender, Err(e)),
        },
        QueryMsg::Nodes(NodesQueryMsg::ByIds { ids, sender }) => match r {
            Ok(QueryResponse::Nodes(nodes)) => nodes_answer(thread, ids@, sender, Ok(nodes)),
            Ok(_) => false,
            Err(e) => nodes_answer(thread, ids@, sender, Err(e)),
        },
        QueryMsg::Nodes(NodesQueryMsg::Children { id, cursor, sender, limit }) => match r {
            Ok(QueryResponse::Replies(page)) => replies_answer(
                thread,
                id,
                cursor,
                limit,
                sender,
                Ok(page),
            ),
            Ok(_) => false,
            Err(e) => replies_answer(thread, id, cursor, limit, sender, Err(e)),
        },
        QueryMsg::Nodes(NodesQueryMsg::Ancestors { id, levels, sender }) => match r {
            Ok(QueryResponse::Nodes(nodes)) => ancestors_answer(thread, id, levels, sender, Ok(nodes)),
            Ok(_) => false,
            Err(e) => ancestors_answer(thread, id, levels, sender, Err(e)),
        },
        QueryMsg::Nodes(NodesQueryMsg::WithTag { tag, cursor, sender }) => match r {
            Ok(QueryResponse::Tagged(page)) => text_answer(
                thread,
                TagWrapper::Tag(tag),
                cursor,
                sender,
                Ok(page),
            ),
            _ => false,
        },
        QueryMsg::Nodes(NodesQueryMsg::WithMention { mention, cursor, sender }) => match r {
            Ok(QueryResponse::Tagged(page)) => text_answer(
                thread,
                TagWrapper::Mention(mention),
                cursor,
                sender,
                Ok(page),
            ),
            _ => false,
        },
    }
}

/// Answers a query.
pub fn query(store: &Storage, msg: QueryMsg) -> (r: Result<QueryResponse, ContractError>)
    requires
        store.wf(),
    ensures
        answered(store@, msg, r),
{
    match msg {
        QueryMsg::Thread { sender } => match query_thread_info(store, sender) {
            Ok(info) => Ok(QueryResponse::Thread(info)),
            Err(e) => Err(e),
        },
        QueryMsg::Nodes(msg) => match msg {
            NodesQueryMsg::ByIds { ids, sender } => match query_nodes_by_id(store, ids, sender) {
                Ok(nodes) => Ok(QueryResponse::Nodes(nodes)),
                Err(e) => Err(e),
            },
            NodesQueryMsg::Children { id, cursor, limit, sender } => match query_nodes_in_reply_to(
                store,
                id,
                cursor,
                limit,
                sender,
            ) {
                Ok(page) => Ok(QueryResponse::Replies(page)),
                Err(e) => Err(e),
            },
            NodesQueryMsg::WithTag { tag, cursor, sender } => match query_nodes_by_tag_or_callout(
                store,
                TagWrapper::Tag(tag),
                cursor,
                sender,
            ) {
                Ok(page) => Ok(QueryResponse::Tagged(page)),
                Err(e) => Err(e),
            },
            NodesQueryMsg::WithMention {
                mention,
                cursor,
                sender,
            } => match query_nodes_by_tag_or_callout(
                store,
                TagWrapper::Mention(mention),
                cursor,
                sender,
            ) {
                Ok(page) => Ok(QueryResponse::Tagged(page)),
                Err(e) => Err(e),
            },
            NodesQueryMsg::Ancestors { id, levels, sender } => match query_ancestor_nodes(
                store,
                id,
                levels,
                sender,
            ) {
                Ok(nodes) => Ok(QueryResponse::Nodes(nodes)),
                Err(e) => Err(e),
            },
        },
    }
}

/// Moves the thread to the current version. Nothing of it changes.
pub fn migrate(store: &Storage, msg: MigrateMsg) -> (r: Result<Response, ContractError>)
    ensures
        r is Ok,
        labels(r->Ok_0) == Seq::<(Seq<char>, Seq<char>)>::empty(),
        r->Ok_0.messages@ == Seq::<Message>::empty(),
        r->Ok_0.node_id is None,
{
    Ok(Response::new())
}

} // verus!
