//! Replying: a new node under an existing one.

use vstd::prelude::*;

use crate::error::{invalid, missing, overflow, ContractError, Fault};
use crate::execute::{activity_notice, ended, labels, notify_activity, Context, Response};
use crate::msg::NodeReplyMsg;
use crate::state::models::{NodeMetadata, MAX_DEPTH};
use crate::state::storage::Storage;
use crate::state::thread::{fresh_node, Thread};
use crate::text::{decimal, decimal_string};
use crate::util::{given, given_sections, next_node_id, process_tags_and_mentions, retagged};
use crate::validation::{
    body_fault, mentions_fault, opt_texts, sections_fault, tags_fault, validate_body,
    validate_mentions, validate_sections, validate_tags,
};

verus! {

/// What is recorded of a reply when it is created.
pub open spec fn reply_metadata(
    id: u32,
    parent: NodeMetadata,
    sender: String,
    now: u64,
    n_sections: nat,
) -> NodeMetadata {
    NodeMetadata {
        id,
        parent_id: Some(parent.id),
        created_at: now,
        updated_at: None,
        created_by: sender,
        rank: 0,
        n_replies: 0,
        n_sections: n_sections as u8,
        n_flags: 0,
        depth: (parent.depth + 1) as u8,
    }
}

/// Why a reply is refused, if it is: for its content; or because its parent
/// does not exist; or because the parent lies at the greatest depth; or
/// because the parent's count of replies or the identifiers are used up.
pub open spec fn reply_fault(thread: Thread, msg: NodeReplyMsg) -> Option<Fault> {
    if body_fault(msg.body@) is Some {
        Some(invalid(body_fault(msg.body@)->Some_0))
    } else if tags_fault(opt_texts(msg.tags)) is Some {
        Some(invalid(tags_fault(opt_texts(msg.tags))->Some_0))
    } else if mentions_fault(opt_texts(msg.mentions)) is Some {
        Some(invalid(mentions_fault(opt_texts(msg.mentions))->Some_0))
    } else if sections_fault(msg.sections) is Some {
        Some(invalid(sections_fault(msg.sections)->Some_0))
    } else if !thread.live(msg.parent_id) {
        Some(missing(msg.parent_id))
    } else if thread.meta(msg.parent_id).depth >= MAX_DEPTH {
        Some(invalid("Maximum depth of replies exceeded"@))
    } else if thread.meta(msg.parent_id).n_replies == u16::MAX || thread.counter == u32::MAX {
        Some(overflow())
    } else {
        None
    }
}

/// The thread after a reply: the next identifier is issued to the new node,
/// which is stored under its parent at rank zero and one level deeper, and
/// its tags and mentions are indexed.
pub open spec fn replied(thread: Thread, sender: String, now: u64, msg: NodeReplyMsg) -> Thread {
    let id = (thread.counter + 1) as u32;
    let meta = reply_metadata(
        id,
        thread.meta(msg.parent_id),
        sender,
        now,
        given_sections(msg.sections).len(),
    );
    let child = fresh_node(
        meta,
        None,
        msg.body@,
        given_sections(msg.sections),
        Seq::empty(),
        Seq::empty(),
    );
    retagged(
        thread.with_counter(id).with_reply(msg.parent_id, child),
        id,
        given(msg.tags),
        given(msg.mentions),
        false,
    )
}

/// What a reply that is not refused does: the thread holds the reply, the
/// response names it, and the registry is told of the activity.
pub open spec fn reply_done(
    before: Thread,
    ctx: Context,
    msg: NodeReplyMsg,
    resp: Response,
    after: Thread,
) -> bool {
    &&& after == replied(before, ctx.info.sender, ctx.env.time, msg)
    &&& labels(resp) == seq![
        ("action"@, "reply"@),
        ("parent_id"@, decimal(msg.parent_id as nat)),
        ("reply_id"@, decimal((before.counter + 1) as nat)),
    ]
    &&& resp.node_id == Some((before.counter + 1) as u32)
    &&& resp.messages@ == activity_notice(before.table, ctx.info.sender, None)
}

/// Adds a reply to a node. The reply is validated first; a reply that is
/// refused changes nothing.
pub fn exec_reply(store: &mut Storage, ctx: &Context, msg: NodeReplyMsg) -> (r: Result<
    Response,
    ContractError,
>)
    requires
        old(store).wf(),
    ensures
        final(store).wf(),
        ended(
            reply_fault(old(store)@, msg),
            reply_done(old(store)@, *ctx, msg, r->Ok_0, final(store)@),
            r,
            old(store)@,
            final(store)@,
        ),
{
    let NodeReplyMsg { body, parent_id, sections, mentions, tags } = msg;
    match validate_body(body.as_str()) {
        Err(e) => {
            return Err(e);
        },
        Ok(()) => {},
    }
    match validate_tags(&tags) {
        Err(e) => {
            return Err(e);
        },
        Ok(()) => {},
    }
    match validate_mentions(&mentions) {
        Err(e) => {
            return Err(e);
        },
        Ok(()) => {},
    }
    match validate_sections(&sections) {
        Err(e) => {
            return Err(e);
        },
        Ok(()) => {},
    }
    // The parent must exist, and have room for a reply below it.
    let parent = match store.metadata(parent_id) {
        Some(m) => m,
        None => {
            return Err(ContractError::NodeNotFound { node_id: parent_id });
        },
    };
    if parent.depth >= MAX_DEPTH {
        return Err(ContractError::validation("Maximum depth of replies exceeded"));
    }
    if parent.n_replies == u16::MAX || store.counter() == u32::MAX {
        return Err(ContractError::overflow());
    }
    let child_id = match next_node_id(store) {
        Ok(id) => id,
        Err(e) => {
            return Err(e);
        },
    };
    let section_list = match sections {
        Some(v) => v,
        None => Vec::new(),
    };
    let child_metadata = NodeMetadata {
        id: child_id,
        parent_id: Some(parent_id),
        created_at: ctx.env.time,
        updated_at: None,
        created_by: ctx.info.sender.clone(),
        rank: 0,
        n_replies: 0,
        n_sections: section_list.len() as u8,
        n_flags: 0,
        depth: parent.depth + 1,
    };
    proof {
        assert(old(store)@.node_local(parent_id));
    }
    store.insert_reply(child_metadata, body, section_list, Vec::new(), Vec::new());
    let indexed = process_tags_and_mentions(store, child_id, tags, mentions, false);
    assert(indexed is Ok);
    let mut resp = Response::of("reply");
    resp.add_attribute("parent_id", decimal_string(parent_id as u128).as_str());
    resp.add_attribute("reply_id", decimal_string(child_id as u128).as_str());
    assert(labels(resp) =~= seq![
        ("action"@, "reply"@),
        ("parent_id"@, decimal(parent_id as nat)),
        ("reply_id"@, decimal(child_id as nat)),
    ]);
    resp.node_id = Some(child_id);
    notify_activity(&mut resp, &store.table(), &ctx.info.sender, None);
    Ok(resp)
}

} // verus!
