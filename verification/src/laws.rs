//! What holds of every well-formed thread, and of the operations on it.

use vstd::prelude::*;

use crate::error::missing;
use crate::execute::vote::{
    lemma_fault_stays, lemma_votes_keep_nodes, vote_fault, votes_fault,
};
use crate::execute::edit_node::{edit_fault, edit_reindexes, edited};
use crate::execute::reply::{replied, reply_fault, reply_metadata};
use crate::msg::{NodeEditMsg, NodeReplyMsg, NodeVoteMsg, Sentiment};
use crate::state::models::NodeMetadata;
use crate::state::thread::{fresh_node, NodeState};
use crate::util::{given, given_sections, lemma_retagged, normal_mentions, normal_tags};
use crate::validation::texts;
use crate::state::models::ROOT_ID;
use crate::state::thread::{Kind, Thread};

verus! {

/// A node counts as many replies as the relationship index lists under it,
/// and the index lists under it exactly the live nodes whose parent it is.
pub proof fn law_reply_count(thread: Thread, id: u32)
    requires
        thread.wf(),
        thread.live(id),
    ensures
        thread.nodes[id].children.finite(),
        thread.meta(id).n_replies == thread.nodes[id].children.len(),
        forall|c: u32|
            thread.nodes[id].children.contains(c) <==> thread.live(c) && thread.meta(c).parent_id
                == Some(id),
{
    assert(thread.node_local(id));
    assert(thread.node_linked(id));
    assert forall|c: u32| thread.live(c) && thread.meta(c).parent_id == Some(
        id,
    ) implies thread.nodes[id].children.contains(c) by {
        assert(thread.node_linked(c));
    }
}

/// A reply that is not refused leaves a well-formed thread, in which every
/// node counts the replies that it lists. The new node takes the next
/// identifier and stands under its parent at rank zero; the parent lists it
/// and counts one reply more; no other node counts or lists otherwise than
/// before; and the rank index gains the new node's entry and no other.
pub proof fn law_reply_counted(thread: Thread, sender: String, now: u64, msg: NodeReplyMsg)
    requires
        thread.wf(),
        reply_fault(thread, msg) is None,
    ensures
        replied(thread, sender, now, msg).wf(),
        !thread.live((thread.counter + 1) as u32),
        replied(thread, sender, now, msg).live((thread.counter + 1) as u32),
        replied(thread, sender, now, msg).meta((thread.counter + 1) as u32).parent_id == Some(
            msg.parent_id,
        ),
        replied(thread, sender, now, msg).meta((thread.counter + 1) as u32).rank == 0,
        replied(thread, sender, now, msg).meta(msg.parent_id).n_replies == thread.meta(
            msg.parent_id,
        ).n_replies + 1,
        replied(thread, sender, now, msg).nodes[msg.parent_id].children
            == thread.nodes[msg.parent_id].children.insert((thread.counter + 1) as u32),
        replied(thread, sender, now, msg).ranked == thread.ranked.insert(
            (msg.parent_id, 0i32, (thread.counter + 1) as u32),
        ),
        forall|n: u32|
            thread.live(n) && n != msg.parent_id ==> #[trigger] replied(
                thread,
                sender,
                now,
                msg,
            ).nodes[n] == thread.nodes[n],
{
    let id = (thread.counter + 1) as u32;
    let parent = msg.parent_id;
    let sections = given_sections(msg.sections);
    let child = fresh_node(
        reply_metadata(id, thread.meta(parent), sender, now, sections.len()),
        None,
        msg.body@,
        sections,
        Seq::empty(),
        Seq::empty(),
    );
    assert(thread.node_local(parent));
    assert(!thread.live(id)) by {
        if thread.live(id) {
            assert(thread.node_local(id));
        }
    }
    let issued = thread.with_counter(id);
    thread.lemma_with_counter(id);
    let stored = issued.with_reply(parent, child);
    issued.lemma_with_reply(parent, child);
    lemma_retagged(stored, id, given(msg.tags), given(msg.mentions), false);
}

/// An edit that is not refused leaves a well-formed thread with the same
/// nodes, and changes nothing of any node but the one edited. Where it
/// gives a body, tags or mentions, the node's sides of the indexes hold
/// the tags and the accounts mentioned that the edit gives, in lower case,
/// and no other; the forward sides hold for this node exactly these, and
/// for every other node what they held.
pub proof fn law_edit_reconciles(thread: Thread, sender: Seq<char>, now: u64, msg: NodeEditMsg)
    requires
        thread.wf(),
        edit_fault(thread, sender, msg) is None,
    ensures
        edited(thread, now, msg).wf(),
        edited(thread, now, msg).nodes.dom() == thread.nodes.dom(),
        edited(thread, now, msg).ranked == thread.ranked,
        forall|n: u32| n != msg.id ==> #[trigger] edited(thread, now, msg).nodes[n] == thread.nodes[n],
        edit_reindexes(msg) ==> {
            &&& edited(thread, now, msg).nodes[msg.id].tag_index == normal_tags(
                texts(given(msg.tags)),
            )
            &&& edited(thread, now, msg).nodes[msg.id].mention_index == normal_mentions(
                texts(given(msg.mentions)),
            )
            &&& forall|k: (Seq<char>, u32)|
                #[trigger] edited(thread, now, msg).tag_nodes.contains(k) <==> (if k.1 == msg.id {
                    normal_tags(texts(given(msg.tags))).contains(k.0)
                } else {
                    thread.tag_nodes.contains(k)
                })
            &&& forall|k: (Seq<char>, u32)|
                #[trigger] edited(thread, now, msg).mention_nodes.contains(k) <==> (if k.1
                    == msg.id {
                    normal_mentions(texts(given(msg.mentions))).contains(k.0)
                } else {
                    thread.mention_nodes.contains(k)
                })
        },
        !edit_reindexes(msg) ==> edited(thread, now, msg).tag_nodes == thread.tag_nodes && edited(
            thread,
            now,
            msg,
        ).mention_nodes == thread.mention_nodes,
{
    let id = msg.id;
    assert(thread.node_local(id));
    let touched_node = NodeState {
        meta: NodeMetadata { updated_at: Some(now), ..thread.meta(id) },
        ..thread.nodes[id]
    };
    let touched = thread.with_node(id, touched_node);
    thread.lemma_with_node_content(id, touched_node);
    assert(touched.nodes.dom() =~= thread.nodes.dom());
    let indexed = if edit_reindexes(msg) {
        lemma_retagged(touched, id, given(msg.tags), given(msg.mentions), true);
        crate::util::retagged(touched, id, given(msg.tags), given(msg.mentions), true)
    } else {
        touched
    };
    assert(indexed.node_local(id));
    let bodied = if msg.body is Some {
        let node = NodeState { body: msg.body->Some_0@, ..indexed.nodes[id] };
        indexed.lemma_with_node_content(id, node);
        indexed.with_node(id, node)
    } else {
        indexed
    };
    assert(bodied.nodes.dom() =~= thread.nodes.dom());
    assert(bodied.node_local(id));
    let titled = if msg.body is Some && msg.title is Some {
        let node = NodeState { title: msg.title, ..bodied.nodes[id] };
        bodied.lemma_with_node_content(id, node);
        bodied.with_node(id, node)
    } else {
        bodied
    };
    assert(titled.nodes.dom() =~= thread.nodes.dom());
    assert(titled.node_local(id));
    if msg.sections is Some {
        let node = NodeState {
            meta: NodeMetadata {
                n_sections: given_sections(msg.sections).len() as u8,
                ..titled.meta(id)
            },
            sections: given_sections(msg.sections),
            ..titled.nodes[id]
        };
        titled.lemma_with_node_content(id, node);
    }
    assert(edited(thread, now, msg).nodes.dom() =~= thread.nodes.dom());
}

/// Every node but the first has a parent that exists and lies one level
/// above it; the first node, and no other, has no parent and lies at depth
/// zero.
pub proof fn law_parent_exists(thread: Thread, id: u32)
    requires
        thread.wf(),
        thread.live(id),
    ensures
        thread.meta(id).id == id,
        thread.meta(id).parent_id is None <==> id == ROOT_ID,
        id == ROOT_ID ==> thread.meta(id).depth == 0,
        id != ROOT_ID ==> thread.live(thread.meta(id).parent_id->Some_0) && thread.meta(id).depth
            == thread.meta(thread.meta(id).parent_id->Some_0).depth + 1,
{
    assert(thread.node_local(id));
    assert(thread.node_linked(id));
}

/// A node counts as many flags as accounts hold a flag on it, and as many
/// sections as it has.
pub proof fn law_flag_count(thread: Thread, id: u32)
    requires
        thread.wf(),
        thread.live(id),
    ensures
        thread.nodes[id].flags.dom().finite(),
        thread.meta(id).n_flags == thread.nodes[id].flags.dom().len(),
        thread.meta(id).n_sections == thread.nodes[id].sections.len(),
{
    assert(thread.node_local(id));
}

/// For a live reply the rank index holds exactly one entry: the one under
/// the reply's parent at the reply's rank.
pub proof fn law_one_rank_entry(thread: Thread, id: u32)
    requires
        thread.wf(),
        thread.live(id),
        thread.meta(id).parent_id is Some,
    ensures
        thread.ranked.contains((thread.meta(id).parent_id->Some_0, thread.meta(id).rank, id)),
        forall|k: (u32, i32, u32)|
            thread.ranked.contains(k) && k.2 == id ==> k == (
                thread.meta(id).parent_id->Some_0,
                thread.meta(id).rank,
                id,
            ),
{
    assert(thread.node_linked(id));
}

/// The rank index holds no entry for a node without parent, nor for a node
/// that does not exist.
pub proof fn law_no_stale_rank_entry(thread: Thread, k: (u32, i32, u32))
    requires
        thread.wf(),
        thread.ranked.contains(k),
    ensures
        thread.live(k.2),
        thread.meta(k.2).parent_id == Some(k.0),
        thread.meta(k.2).rank == k.1,
{
}

/// The other vote.
pub open spec fn opposite(sentiment: Sentiment) -> Sentiment {
    match sentiment {
        Sentiment::Up => Sentiment::Down,
        Sentiment::Down => Sentiment::Up,
    }
}

/// Asking twice for the same vote leaves the thread as it was: where the
/// first vote is not refused, the second is not refused either, the rank is
/// back at its value, and the ledger holds what it held. This holds for an
/// account that did not hold the other vote.
pub proof fn law_vote_repeated(thread: Thread, actor: Seq<char>, msg: NodeVoteMsg)
    requires
        thread.wf(),
        vote_fault(thread, actor, msg) is None,
        thread.vote_of(msg.id, actor) != Some(opposite(msg.sentiment)),
    ensures
        vote_fault(thread.voted(actor, msg.id, msg.sentiment), actor, msg) is None,
        thread.voted(actor, msg.id, msg.sentiment).voted(actor, msg.id, msg.sentiment) == thread,
{
    let id = msg.id;
    let once = thread.voted(actor, id, msg.sentiment);
    let twice = once.voted(actor, id, msg.sentiment);
    assert(thread.node_linked(id));
    assert(twice.nodes[id].votes =~= thread.nodes[id].votes);
    assert(twice.nodes[id].meta == thread.nodes[id].meta);
    assert(twice.nodes[id] == thread.nodes[id]);
    assert(twice.nodes =~= thread.nodes);
    assert(twice.ranked =~= thread.ranked);
}

/// A vote and then the other vote leave the thread as the other vote alone
/// would: the change of side undoes the first vote and applies the second.
/// Where neither the first vote nor the other vote alone is refused, the
/// other vote after the first is not refused either. This holds for an
/// account that did not already hold that other vote.
pub proof fn law_vote_changed(thread: Thread, actor: Seq<char>, msg: NodeVoteMsg)
    requires
        thread.wf(),
        vote_fault(thread, actor, msg) is None,
        vote_fault(thread, actor, NodeVoteMsg { sentiment: opposite(msg.sentiment), ..msg }) is None,
        thread.vote_of(msg.id, actor) != Some(msg.sentiment),
    ensures
        vote_fault(thread.voted(actor, msg.id, opposite(msg.sentiment)), actor, msg) is None,
        thread.voted(actor, msg.id, opposite(msg.sentiment)).voted(actor, msg.id, msg.sentiment)
            == thread.voted(actor, msg.id, msg.sentiment),
{
    let id = msg.id;
    let direct = thread.voted(actor, id, msg.sentiment);
    let once = thread.voted(actor, id, opposite(msg.sentiment));
    let twice = once.voted(actor, id, msg.sentiment);
    assert(thread.node_linked(id));
    assert(twice.nodes[id].votes =~= direct.nodes[id].votes);
    assert(twice.nodes[id].meta == direct.nodes[id].meta);
    assert(twice.nodes[id] == direct.nodes[id]);
    assert(twice.nodes =~= direct.nodes);
    assert(twice.ranked =~= direct.ranked);
}

/// A list of votes that names a node that does not exist is refused for
/// the first such node, unless a vote before it is refused for its rank.
pub proof fn law_votes_need_every_node(
    thread: Thread,
    actor: Seq<char>,
    msgs: Seq<NodeVoteMsg>,
    at: int,
)
    requires
        0 <= at < msgs.len(),
        !thread.live(msgs[at].id),
        votes_fault(thread, actor, msgs, at) is None,
    ensures
        votes_fault(thread, actor, msgs, msgs.len() as int) == Some(missing(msgs[at].id)),
{
    lemma_votes_keep_nodes(thread, actor, msgs, at);
    lemma_fault_stays(thread, actor, msgs, at + 1, msgs.len() as int);
}

/// The two sides of each text index mirror each other: the forward side
/// holds a text for a node exactly where the node exists and its own side
/// holds the text.
pub proof fn law_indexes_mirrored(thread: Thread, kind: Kind, text: Seq<char>, node: u32)
    requires
        thread.wf(),
    ensures
        thread.forward(kind).contains((text, node)) <==> thread.live(node)
            && thread.nodes[node].reverse(kind).contains(text),
{
    match kind {
        Kind::Tag => {
            if thread.tag_nodes.contains((text, node)) {
                assert(thread.live(node));
            }
            if thread.live(node) && thread.nodes[node].tag_index.contains(text) {
                assert(thread.tag_nodes.contains((text, node)));
            }
        },
        Kind::Mention => {
            if thread.mention_nodes.contains((text, node)) {
                assert(thread.live(node));
            }
            if thread.live(node) && thread.nodes[node].mention_index.contains(text) {
                assert(thread.mention_nodes.contains((text, node)));
            }
        },
    }
}

/// After a reply was deleted, neither it nor any node that descended from
/// it exists, and every other node exists as before. A lookup of a node
/// that does not exist fails with the error for a missing node.
pub proof fn law_delete_removes_subtree(thread: Thread, id: u32, n: u32)
    requires
        thread.wf(),
        thread.live(id),
        id != ROOT_ID,
    ensures
        thread.deleted(id).live(n) <==> thread.live(n) && !thread.descends(n, id),
        !thread.deleted(id).live(id),
{
    assert(thread.node_linked(id));
    let p = thread.meta(id).parent_id->Some_0;
    assert(!thread.subtree(id).contains(p)) by {
        if thread.descends(p, id) {
            thread.lemma_descends_depth(p, id);
        }
    }
}

/// Deleting a reply makes its parent count exactly one reply less.
pub proof fn law_delete_counts_once(thread: Thread, id: u32)
    requires
        thread.wf(),
        thread.live(id),
        id != ROOT_ID,
    ensures
        thread.deleted(id).live(thread.meta(id).parent_id->Some_0),
        thread.deleted(id).meta(thread.meta(id).parent_id->Some_0).n_replies == thread.meta(
            thread.meta(id).parent_id->Some_0,
        ).n_replies - 1,
{
    assert(thread.node_linked(id));
    let p = thread.meta(id).parent_id->Some_0;
    thread.lemma_deleted(id);
    assert(!thread.subtree(id).contains(p)) by {
        if thread.descends(p, id) {
            thread.lemma_descends_depth(p, id);
        }
    }
}

/// Deleting a reply changes what is recorded of no node that is left but
/// the reply's parent: the nodes further up count their replies as before.
pub proof fn law_delete_spares_others(thread: Thread, id: u32, other: u32)
    requires
        thread.wf(),
        thread.live(id),
        id != ROOT_ID,
        thread.deleted(id).live(other),
        other != thread.meta(id).parent_id->Some_0,
    ensures
        thread.deleted(id).meta(other) == thread.meta(other),
{
    assert(thread.node_linked(id));
}

} // verus!
