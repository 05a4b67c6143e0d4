//! The thread's state: its records, its repositories, and who may act on it.

use vstd::prelude::*;

pub mod models;
pub mod storage;
pub mod table;
pub mod thread;
pub mod views;

use crate::error::{invalid, ContractError, Fault};
use crate::execute::Context;
use crate::msg::InstantiateMsg;
use crate::state::models::{NodeMetadata, Owner, MAX_TIP_TOKEN_TYPES, ROOT_ID};
use crate::state::storage::Storage;
use crate::state::thread::{fresh_node, Thread};
use crate::util::{given, given_sections, process_tags_and_mentions, retagged};
use crate::validation::{
    body_fault, mentions_fault, opt_texts, sections_fault, tags_fault, title_fault, validate_body,
    validate_mentions, validate_sections, validate_tags, validate_title,
};

verus! {

/// The account holds the privileged role: it is the thread's owner, or the
/// owner is an access-control service and that service admits the account.
pub open spec fn privileged(thread: Thread, principal: Seq<char>, acl_allows: bool) -> bool {
    match thread.owner {
        Some(Owner::Address(owner)) => owner@ == principal,
        Some(Owner::Acl(_)) => acl_allows,
        None => false,
    }
}

/// Whether an account holds the privileged role. `acl_allows` is the answer
/// of the access-control service for this account and action; it counts
/// only where such a service owns the thread.
pub fn is_action_authorized(store: &Storage, principal: &String, acl_allows: bool) -> (b: bool)
    ensures
        b == privileged(store@, principal@, acl_allows),
{
    match store.owner() {
        Some(Owner::Address(owner)) => owner == *principal,
        Some(Owner::Acl(_)) => acl_allows,
        None => false,
    }
}

/// Why a thread cannot be made of what a message gives, if it cannot: the
/// title or the body, where given, the tags, the mentions or the sections
/// are not valid content, or more than 10 kinds of asset are to be accepted
/// as tips.
pub open spec fn init_fault(msg: InstantiateMsg) -> Option<Fault> {
    if msg.title is Some && title_fault(msg.title->Some_0@) is Some {
        Some(invalid(title_fault(msg.title->Some_0@)->Some_0))
    } else if msg.body is Some && body_fault(msg.body->Some_0@) is Some {
        Some(invalid(body_fault(msg.body->Some_0@)->Some_0))
    } else if tags_fault(opt_texts(msg.tags)) is Some {
        Some(invalid(tags_fault(opt_texts(msg.tags))->Some_0))
    } else if mentions_fault(opt_texts(msg.mentions)) is Some {
        Some(invalid(mentions_fault(opt_texts(msg.mentions))->Some_0))
    } else if sections_fault(msg.sections) is Some {
        Some(invalid(sections_fault(msg.sections)->Some_0))
    } else if msg.config.tip_tokens@.len() > MAX_TIP_TOKEN_TYPES {
        Some(invalid("Max number of tip token types is 10"@))
    } else {
        None
    }
}

/// The thread as it is made: it holds its first node, created by the
/// sender at rank zero, with the node's tags and mentions indexed; it is
/// owned by the owner given, or else by the sender; and it accepts the
/// kinds of asset given as tips.
pub open spec fn initial(ctx: Context, msg: InstantiateMsg) -> Thread {
    let owner = match msg.owner {
        Some(o) => o,
        None => Owner::Address(ctx.info.sender),
    };
    let body = match msg.body {
        Some(b) => b@,
        None => Seq::empty(),
    };
    let meta = NodeMetadata {
        id: ROOT_ID,
        parent_id: None,
        created_at: ctx.env.time,
        updated_at: None,
        created_by: ctx.info.sender,
        rank: 0,
        n_replies: 0,
        n_sections: given_sections(msg.sections).len() as u8,
        n_flags: 0,
        depth: 0,
    };
    let root = fresh_node(
        meta,
        msg.title,
        body,
        given_sections(msg.sections),
        Seq::empty(),
        Seq::empty(),
    );
    retagged(
        (Thread { owner: Some(owner), ..Thread::empty() }).with_tip_tokens(
            msg.config.tip_tokens@,
        ).with_root(root),
        ROOT_ID,
        given(msg.tags),
        given(msg.mentions),
        false,
    )
}

/// Makes the store of a new thread from what a message gives.
pub fn init(ctx: &Context, msg: InstantiateMsg) -> (r: Result<Storage, ContractError>)
    ensures
        match init_fault(msg) {
            Some(fault) => r is Err && r->Err_0@ == fault,
            None => r is Ok && r->Ok_0.wf() && r->Ok_0@ == initial(*ctx, msg),
        },
{
    let InstantiateMsg { body, title, tags, mentions, sections, owner, config } = msg;
    if let Some(t) = &title {
        match validate_title(t.as_str()) {
            Err(e) => {
                return Err(e);
            },
            Ok(()) => {},
        }
    }
    if let Some(b) = &body {
        match validate_body(b.as_str()) {
            Err(e) => {
                return Err(e);
            },
            Ok(()) => {},
        }
    }
    match validate_tags(&tags) {
        Err(e) => {
            return Err(e);
        },
        Ok(()) => {},
    }
    match validate_mentions(&mentions) {
        Err(e) => {
            return Err(e);
        },
        Ok(()) => {},
    }
    match validate_sections(&sections) {
        Err(e) => {
            return Err(e);
        },
        Ok(()) => {},
    }
    if config.tip_tokens.len() > MAX_TIP_TOKEN_TYPES {
        return Err(ContractError::validation("Max number of tip token types is 10"));
    }
    let mut store = Storage::new();
    store.set_owner(
        match owner {
            Some(o) => o,
            None => Owner::Address(ctx.info.sender.clone()),
        },
    );
    store.set_tip_tokens(config.tip_tokens);
    let section_list = match sections {
        Some(v) => v,
        None => Vec::new(),
    };
    let root_body = match body {
        Some(b) => b,
        None => String::new(),
    };
    let meta = NodeMetadata {
        id: ROOT_ID,
        parent_id: None,
        created_at: ctx.env.time,
        updated_at: None,
        created_by: ctx.info.sender.clone(),
        rank: 0,
        n_replies: 0,
        n_sections: section_list.len() as u8,
        n_flags: 0,
        depth: 0,
    };
    store.insert_root(meta, title, root_body, section_list, Vec::new(), Vec::new());
    let indexed = process_tags_and_mentions(&mut store, ROOT_ID, tags, mentions, false);
    assert(indexed is Ok);
    Ok(store)
}

} // verus!
