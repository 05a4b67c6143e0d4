//! Editing: a node's creator replaces its content.

use vstd::prelude::*;

use crate::error::{invalid, missing, refused, ContractError, Fault};
use crate::execute::{ended, silent, Context, Response};
use crate::msg::NodeEditMsg;
use crate::state::models::NodeMetadata;
use crate::state::storage::Storage;
use crate::state::thread::{NodeState, Thread};
use crate::util::{given, given_sections, load_node_metadata, process_tags_and_mentions, retagged};
use crate::validation::{
    body_fault, mentions_fault, opt_texts, sections_fault, tags_fault, title_fault, validate_body,
    validate_mentions, validate_sections, validate_tags, validate_title,
};

verus! {

/// Why the body that an edit gives, or the title that comes with it, is
/// refused, if it is: for the body; for a title given to a reply; or for
/// the title.
pub open spec fn edit_body_fault(thread: Thread, msg: NodeEditMsg) -> Option<Seq<char>> {
    if body_fault(msg.body->Some_0@) is Some {
        body_fault(msg.body->Some_0@)
    } else if msg.title is Some && thread.meta(msg.id).parent_id is Some {
        Some("Only the root node has a title"@)
    } else if msg.title is Some {
        title_fault(msg.title->Some_0@)
    } else {
        None
    }
}

/// An edit gives the node's tags and mentions anew where it gives a body,
/// tags or mentions. A list that it does not give then counts as empty.
pub open spec fn edit_reindexes(msg: NodeEditMsg) -> bool {
    msg.body is Some || msg.tags is Some || msg.mentions is Some
}

/// Why the tags or the mentions that an edit gives are refused, if they
/// are.
pub open spec fn edit_index_fault(msg: NodeEditMsg) -> Option<Seq<char>> {
    if tags_fault(opt_texts(msg.tags)) is Some {
        tags_fault(opt_texts(msg.tags))
    } else {
        mentions_fault(opt_texts(msg.mentions))
    }
}

/// Why an edit is refused, if it is: the node does not exist; the sender
/// did not create it; or what it gives is not valid content.
pub open spec fn edit_fault(thread: Thread, sender: Seq<char>, msg: NodeEditMsg) -> Option<Fault> {
    if !thread.live(msg.id) {
        Some(missing(msg.id))
    } else if thread.meta(msg.id).created_by@ != sender {
        Some(refused("Only the creator can edit the node"@))
    } else if msg.body is Some && edit_body_fault(thread, msg) is Some {
        Some(invalid(edit_body_fault(thread, msg)->Some_0))
    } else if edit_reindexes(msg) && edit_index_fault(msg) is Some {
        Some(invalid(edit_index_fault(msg)->Some_0))
    } else if sections_fault(msg.sections) is Some {
        Some(invalid(sections_fault(msg.sections)->Some_0))
    } else {
        None
    }
}

/// The thread after an edit. The time of the edit is recorded. Where the
/// edit gives a body, tags or mentions, the indexes are reconciled with
/// the tags and mentions given. A body given replaces the body, and a title
/// that comes with it replaces the title of the first node. Sections given
/// replace the sections.
pub open spec fn edited(thread: Thread, now: u64, msg: NodeEditMsg) -> Thread {
    let id = msg.id;
    let touched = thread.with_node(
        id,
        NodeState {
            meta: NodeMetadata { updated_at: Some(now), ..thread.meta(id) },
            ..thread.nodes[id]
        },
    );
    let indexed = if edit_reindexes(msg) {
        retagged(touched, id, given(msg.tags), given(msg.mentions), true)
    } else {
        touched
    };
    let bodied = if msg.body is Some {
        indexed.with_node(id, NodeState { body: msg.body->Some_0@, ..indexed.nodes[id] })
    } else {
        indexed
    };
    let titled = if msg.body is Some && msg.title is Some {
        bodied.with_node(id, NodeState { title: msg.title, ..bodied.nodes[id] })
    } else {
        bodied
    };
    if msg.sections is Some {
        titled.with_node(
            id,
            NodeState {
                meta: NodeMetadata {
                    n_sections: given_sections(msg.sections).len() as u8,
                    ..titled.meta(id)
                },
                sections: given_sections(msg.sections),
                ..titled.nodes[id]
            },
        )
    } else {
        titled
    }
}

/// What an edit that is not refused does: the thread holds the new
/// content, and nothing is asked of the collaborators.
pub open spec fn edit_done(before: Thread, ctx: Context, msg: NodeEditMsg, resp: Response, after: Thread) -> bool {
    after == edited(before, ctx.env.time, msg) && silent(resp, "edit"@)
}

/// Replaces content of a node, for the account that created it. An edit
/// that is refused changes nothing.
pub fn exec_edit_node(store: &mut Storage, ctx: &Context, msg: NodeEditMsg) -> (r: Result<
    Response,
    ContractError,
>)
    requires
        old(store).wf(),
    ensures
        final(store).wf(),
        ended(
            edit_fault(old(store)@, ctx.info.sender@, msg),
            edit_done(old(store)@, *ctx, msg, r->Ok_0, final(store)@),
            r,
            old(store)@,
            final(store)@,
        ),
{
    let NodeEditMsg { id, title, body, sections, tags, mentions } = msg;
    let metadata = match load_node_metadata(store, id, true) {
        Ok(Some(m)) => m,
        Ok(None) => {
            return Err(ContractError::NodeNotFound { node_id: id });
        },
        Err(e) => {
            return Err(e);
        },
    };
    if metadata.created_by != ctx.info.sender {
        return Err(ContractError::not_authorized("Only the creator can edit the node"));
    }
    if let Some(new_body) = &body {
        match validate_body(new_body.as_str()) {
            Err(e) => {
                return Err(e);
            },
            Ok(()) => {},
        }
        if let Some(new_title) = &title {
            if metadata.parent_id.is_some() {
                return Err(ContractError::validation("Only the root node has a title"));
            }
            match validate_title(new_title.as_str()) {
                Err(e) => {
                    return Err(e);
                },
                Ok(()) => {},
            }
        }
    }
    let reindex = body.is_some() || tags.is_some() || mentions.is_some();
    if reindex {
        match validate_tags(&tags) {
            Err(e) => {
                return Err(e);
            },
            Ok(()) => {},
        }
        match validate_mentions(&mentions) {
            Err(e) => {
                return Err(e);
            },
            Ok(()) => {},
        }
    }
    match validate_sections(&sections) {
        Err(e) => {
            return Err(e);
        },
        Ok(()) => {},
    }
    store.set_updated_at(id, ctx.env.time);
    if reindex {
        let indexed = process_tags_and_mentions(store, id, tags, mentions, true);
        assert(indexed is Ok);
    }
    if let Some(new_body) = body {
        store.set_body(id, new_body);
        if let Some(new_title) = title {
            store.set_title(id, new_title);
        }
    }
    if let Some(new_sections) = sections {
        store.set_sections(id, new_sections);
    }
    Ok(Response::of("edit"))
}

} // verus!
