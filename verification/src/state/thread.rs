//! The thread as a mathematical value: what the store holds, what must hold
//! of it at all times, and what each operation makes of it.

use vstd::prelude::*;

use crate::msg::{next_vote, rank_delta, Sentiment};
use crate::state::models::{
    FlagMetadata, NodeMetadata, Owner, Section, TableMetadata, Token, ROOT_ID,
};

verus! {

/// All that the thread holds of one node.
pub struct NodeState {
    pub meta: NodeMetadata,
    pub title: Option<String>,
    pub body: Seq<char>,
    pub sections: Seq<Section>,
    /// The tags and mentions as they were given.
    pub tags: Seq<String>,
    pub mentions: Seq<String>,
    /// Relationship index: the node's replies.
    pub children: Set<u32>,
    /// Sentiment ledger: the vote of each account that holds one.
    pub votes: Map<Seq<char>, Sentiment>,
    /// The flag of each account that has flagged the node.
    pub flags: Map<Seq<char>, FlagMetadata>,
    /// Reverse tag index: the node's tags in lower case.
    pub tag_index: Set<Seq<char>>,
    /// Reverse mention index: the accounts mentioned, in lower case.
    pub mention_index: Set<Seq<char>>,
}

/// Which of the two text indexes is meant.
#[derive(Debug, Clone, Copy, PartialEq, Eq, Structural)]
pub enum Kind {
    Tag,
    Mention,
}

impl NodeState {
    /// The node's side of a text index.
    pub open spec fn reverse(self, kind: Kind) -> Set<Seq<char>> {
        match kind {
            Kind::Tag => self.tag_index,
            Kind::Mention => self.mention_index,
        }
    }

    /// The node with other texts on its side of a text index.
    pub open spec fn with_reverse(self, kind: Kind, texts: Set<Seq<char>>) -> NodeState {
        match kind {
            Kind::Tag => NodeState { tag_index: texts, ..self },
            Kind::Mention => NodeState { mention_index: texts, ..self },
        }
    }
}

/// The whole thread.
pub struct Thread {
    /// The identifier issued last.
    pub counter: u32,
    /// Node store.
    pub nodes: Map<u32, NodeState>,
    /// Rank index: one entry (parent, rank, child) for each reply.
    pub ranked: Set<(u32, i32, u32)>,
    /// Forward tag index: (tag, node).
    pub tag_nodes: Set<(Seq<char>, u32)>,
    /// Forward mention index: (account, node).
    pub mention_nodes: Set<(Seq<char>, u32)>,
    /// Watch index: (account, node).
    pub saved: Set<(Seq<char>, u32)>,
    pub owner: Option<Owner>,
    /// The kinds of asset accepted as tips, as configured.
    pub tip_tokens: Seq<Token>,
    /// The keys of the accepted kinds, for looking one up.
    pub tip_lookup: Set<Seq<char>>,
    /// What has been tipped of each kind.
    pub tip_totals: Map<Seq<char>, u128>,
    /// The registry that lists the thread, once it has taken it up.
    pub table: Option<TableMetadata>,
}

impl Thread {
    /// The thread that holds nothing.
    pub open spec fn empty() -> Thread {
        Thread {
            counter: 0,
            nodes: Map::empty(),
            ranked: Set::empty(),
            tag_nodes: Set::empty(),
            mention_nodes: Set::empty(),
            saved: Set::empty(),
            owner: None,
            tip_tokens: Seq::empty(),
            tip_lookup: Set::empty(),
            tip_totals: Map::empty(),
            table: None,
        }
    }

    /// The node exists: it was created and not deleted.
    pub open spec fn live(self, id: u32) -> bool {
        self.nodes.contains_key(id)
    }

    /// What is recorded of a node.
    pub open spec fn meta(self, id: u32) -> NodeMetadata {
        self.nodes[id].meta
    }

    /// The forward side of a text index.
    pub open spec fn forward(self, kind: Kind) -> Set<(Seq<char>, u32)> {
        match kind {
            Kind::Tag => self.tag_nodes,
            Kind::Mention => self.mention_nodes,
        }
    }

    /// The thread with other entries on the forward side of a text index.
    pub open spec fn with_forward(self, kind: Kind, entries: Set<(Seq<char>, u32)>) -> Thread {
        match kind {
            Kind::Tag => Thread { tag_nodes: entries, ..self },
            Kind::Mention => Thread { mention_nodes: entries, ..self },
        }
    }

    /// Every entry of the rank index is that of a live reply, under its
    /// parent and at its rank.
    pub open spec fn ranked_sound(self) -> bool {
        forall|k: (u32, i32, u32)| #[trigger]
            self.ranked.contains(k) ==> self.live(k.2) && self.meta(k.2).parent_id == Some(k.0)
                && self.meta(k.2).rank == k.1
    }

    /// The two sides of the tag index mirror each other.
    pub open spec fn tags_mirrored(self) -> bool {
        &&& forall|k: (Seq<char>, u32)| #[trigger]
            self.tag_nodes.contains(k) ==> self.live(k.1) && self.nodes[k.1].tag_index.contains(
                k.0,
            )
        &&& forall|n: u32, t: Seq<char>|
            self.live(n) && #[trigger] self.nodes[n].tag_index.contains(t)
                ==> self.tag_nodes.contains((t, n))
    }

    /// The two sides of the mention index mirror each other.
    pub open spec fn mentions_mirrored(self) -> bool {
        &&& forall|k: (Seq<char>, u32)| #[trigger]
            self.mention_nodes.contains(k) ==> self.live(k.1)
                && self.nodes[k.1].mention_index.contains(k.0)
        &&& forall|n: u32, t: Seq<char>|
            self.live(n) && #[trigger] self.nodes[n].mention_index.contains(t)
                ==> self.mention_nodes.contains((t, n))
    }

    /// What holds of the indexes whether or not the tree is whole.
    pub open spec fn indexes_sound(self) -> bool {
        &&& self.ranked_sound()
        &&& self.tags_mirrored()
        &&& self.mentions_mirrored()
    }

    /// What holds of one live node by itself.
    pub open spec fn node_local(self, id: u32) -> bool {
        let n = self.nodes[id];
        &&& n.meta.id == id
        &&& id <= self.counter
        &&& n.children.finite()
        &&& n.meta.n_replies == n.children.len()
        &&& n.flags.dom().finite()
        &&& n.meta.n_flags == n.flags.dom().len()
        &&& n.meta.n_sections == n.sections.len()
    }

    /// What holds of one live node and its neighbours in the tree.
    pub open spec fn node_linked(self, id: u32) -> bool {
        let n = self.nodes[id];
        &&& forall|c: u32| #[trigger]
            n.children.contains(c) ==> self.live(c) && self.meta(c).parent_id == Some(id)
        &&& match n.meta.parent_id {
            None => id == ROOT_ID && n.meta.depth == 0,
            Some(p) => {
                &&& id != ROOT_ID
                &&& self.live(p)
                &&& self.nodes[p].children.contains(id)
                &&& n.meta.depth == self.meta(p).depth + 1
                &&& self.ranked.contains((p, n.meta.rank, id))
            },
        }
    }

    /// The accepted kinds can be looked up by their keys, and by no other.
    pub open spec fn lookup_mirrors_tokens(self) -> bool {
        self.tip_lookup == token_keys(self.tip_tokens)
    }

    /// The invariant of the thread.
    pub open spec fn wf(self) -> bool {
        &&& self.nodes.dom().finite()
        &&& self.indexes_sound()
        &&& self.lookup_mirrors_tokens()
        &&& forall|id: u32| #[trigger] self.live(id) ==> self.node_local(id)
        &&& forall|id: u32| #[trigger] self.live(id) ==> self.node_linked(id)
    }
}

/// The keys of a list of kinds of asset.
pub open spec fn token_keys(tokens: Seq<Token>) -> Set<Seq<char>> {
    tokens.map_values(|t: Token| t.key()).to_set()
}

/// A node as it is when it has just been created.
pub open spec fn fresh_node(
    meta: NodeMetadata,
    title: Option<String>,
    body: Seq<char>,
    sections: Seq<Section>,
    tags: Seq<String>,
    mentions: Seq<String>,
) -> NodeState {
    NodeState {
        meta,
        title,
        body,
        sections,
        tags,
        mentions,
        children: Set::empty(),
        votes: Map::empty(),
        flags: Map::empty(),
        tag_index: Set::empty(),
        mention_index: Set::empty(),
    }
}

impl Thread {
    /// The thread with one node's record replaced.
    pub open spec fn with_node(self, id: u32, node: NodeState) -> Thread {
        Thread { nodes: self.nodes.insert(id, node), ..self }
    }

    /// The thread after the next identifier was issued.
    pub open spec fn with_counter(self, counter: u32) -> Thread {
        Thread { counter, ..self }
    }

    /// The thread with a node at another rank: the record changes, and for
    /// a reply the entry of the rank index is replaced.
    pub open spec fn reranked(self, id: u32, rank: i32) -> Thread {
        let n = self.nodes[id];
        let moved = self.with_node(id, NodeState { meta: NodeMetadata { rank, ..n.meta }, ..n });
        match n.meta.parent_id {
            Some(p) => Thread {
                ranked: self.ranked.remove((p, n.meta.rank, id)).insert((p, rank, id)),
                ..moved
            },
            None => moved,
        }
    }

    /// The vote that an account holds on a node.
    pub open spec fn vote_of(self, id: u32, actor: Seq<char>) -> Option<Sentiment> {
        if self.nodes[id].votes.contains_key(actor) {
            Some(self.nodes[id].votes[actor])
        } else {
            None
        }
    }

    /// The thread with an account's vote on a node set or withdrawn.
    pub open spec fn with_vote(self, id: u32, actor: Seq<char>, vote: Option<Sentiment>) -> Thread {
        let n = self.nodes[id];
        match vote {
            Some(v) => self.with_node(id, NodeState { votes: n.votes.insert(actor, v), ..n }),
            None => self.with_node(id, NodeState { votes: n.votes.remove(actor), ..n }),
        }
    }

    /// The thread with a new reply under `parent`: the parent counts one
    /// reply more and lists the child, the child's record is stored, and the
    /// rank index holds the child at its rank.
    pub open spec fn with_reply(self, parent: u32, child: NodeState) -> Thread {
        let p = self.nodes[parent];
        let counted = NodeState {
            meta: NodeMetadata { n_replies: (p.meta.n_replies + 1) as u16, ..p.meta },
            children: p.children.insert(child.meta.id),
            ..p
        };
        Thread {
            nodes: self.nodes.insert(parent, counted).insert(child.meta.id, child),
            ranked: self.ranked.insert((parent, child.meta.rank, child.meta.id)),
            ..self
        }
    }

    /// The tag index stays mirrored where neither side of it changes.
    pub proof fn lemma_tags_kept(self, t: Thread)
        requires
            self.tags_mirrored(),
            t.nodes.dom() == self.nodes.dom(),
            t.tag_nodes == self.tag_nodes,
            forall|n: u32| #[trigger] self.live(n) ==> t.nodes[n].tag_index == self.nodes[n].tag_index,
        ensures
            t.tags_mirrored(),
    {
        assert forall|k: (Seq<char>, u32)| #[trigger] t.tag_nodes.contains(k) implies t.live(k.1)
            && t.nodes[k.1].tag_index.contains(k.0) by {
            assert(self.tag_nodes.contains(k));
            assert(self.live(k.1));
        }
        assert forall|n: u32, x: Seq<char>|
            t.live(n) && #[trigger] t.nodes[n].tag_index.contains(x) implies t.tag_nodes.contains(
            (x, n),
        ) by {
            assert(self.live(n));
            assert(self.nodes[n].tag_index.contains(x));
        }
    }

    /// The mention index stays mirrored where neither side of it changes.
    pub proof fn lemma_mentions_kept(self, t: Thread)
        requires
            self.mentions_mirrored(),
            t.nodes.dom() == self.nodes.dom(),
            t.mention_nodes == self.mention_nodes,
            forall|n: u32| #[trigger]
                self.live(n) ==> t.nodes[n].mention_index == self.nodes[n].mention_index,
        ensures
            t.mentions_mirrored(),
    {
        assert forall|k: (Seq<char>, u32)| #[trigger]
            t.mention_nodes.contains(k) implies t.live(k.1) && t.nodes[k.1].mention_index.contains(
            k.0,
        ) by {
            assert(self.mention_nodes.contains(k));
            assert(self.live(k.1));
        }
        assert forall|n: u32, x: Seq<char>|
            t.live(n) && #[trigger] t.nodes[n].mention_index.contains(
                x,
            ) implies t.mention_nodes.contains((x, n)) by {
            assert(self.live(n));
            assert(self.nodes[n].mention_index.contains(x));
        }
    }

    /// The text indexes stay mirrored where neither side of them changes.
    pub proof fn lemma_mirrors_kept(self, t: Thread)
        requires
            self.tags_mirrored(),
            self.mentions_mirrored(),
            t.nodes.dom() == self.nodes.dom(),
            t.tag_nodes == self.tag_nodes,
            t.mention_nodes == self.mention_nodes,
            forall|n: u32| #[trigger]
                self.live(n) ==> t.nodes[n].tag_index == self.nodes[n].tag_index
                    && t.nodes[n].mention_index == self.nodes[n].mention_index,
        ensures
            t.tags_mirrored(),
            t.mentions_mirrored(),
    {
        self.lemma_tags_kept(t);
        self.lemma_mentions_kept(t);
    }

    /// The rank index stays sound where neither it nor the parent and rank
    /// of any node changes.
    pub proof fn lemma_ranked_kept(self, t: Thread)
        requires
            self.ranked_sound(),
            t.ranked == self.ranked,
            forall|n: u32| #[trigger]
                self.live(n) ==> t.live(n) && t.meta(n).parent_id == self.meta(n).parent_id
                    && t.meta(n).rank == self.meta(n).rank,
        ensures
            t.ranked_sound(),
    {
        assert forall|k: (u32, i32, u32)| #[trigger] t.ranked.contains(k) implies t.live(k.2)
            && t.meta(k.2).parent_id == Some(k.0) && t.meta(k.2).rank == k.1 by {
            assert(self.ranked.contains(k));
            assert(self.live(k.2));
        }
    }

    /// Issuing an identifier keeps the thread well formed.
    pub proof fn lemma_with_counter(self, counter: u32)
        requires
            self.wf(),
            self.counter <= counter,
        ensures
            self.with_counter(counter).wf(),
    {
        let t = self.with_counter(counter);
        assert forall|id: u32| #[trigger] t.live(id) implies t.node_local(id) && t.node_linked(id) by {
            assert(self.live(id));
            assert(self.node_local(id));
            assert(self.node_linked(id));
        }
        self.lemma_mirrors_kept(t);
        self.lemma_ranked_kept(t);
    }

    /// A change of rank keeps the thread well formed.
    pub proof fn lemma_reranked(self, id: u32, rank: i32)
        requires
            self.wf(),
            self.live(id),
        ensures
            self.reranked(id, rank).wf(),
    {
        let t = self.reranked(id, rank);
        assert(self.node_linked(id));
        assert(t.nodes.dom() =~= self.nodes.dom());
        assert forall|x: u32| #[trigger] t.live(x) implies t.node_local(x) && t.node_linked(x) by {
            assert(self.live(x));
            assert(self.node_local(x));
            assert(self.node_linked(x));
            if x != id {
                match self.meta(x).parent_id {
                    Some(p) => {
                        assert(self.ranked.contains((p, self.meta(x).rank, x)));
                    },
                    None => {},
                }
            }
        }
        assert(t.ranked_sound()) by {
            assert forall|k: (u32, i32, u32)| #[trigger] t.ranked.contains(k) implies t.live(k.2)
                && t.meta(k.2).parent_id == Some(k.0) && t.meta(k.2).rank == k.1 by {
                if self.ranked.contains(k) {
                    assert(self.live(k.2));
                }
            }
        }
        self.lemma_mirrors_kept(t);
    }

    /// A change that touches one node's record only, and of it neither the
    /// place in the tree, the rank, the replies nor the index rows, keeps
    /// the thread well formed.
    pub proof fn lemma_with_node_content(self, id: u32, node: NodeState)
        requires
            self.wf(),
            self.live(id),
            node.meta.id == id,
            node.meta.parent_id == self.meta(id).parent_id,
            node.meta.rank == self.meta(id).rank,
            node.meta.depth == self.meta(id).depth,
            node.meta.n_replies == self.meta(id).n_replies,
            node.children == self.nodes[id].children,
            node.tag_index == self.nodes[id].tag_index,
            node.mention_index == self.nodes[id].mention_index,
            node.flags.dom().finite(),
            node.meta.n_flags == node.flags.dom().len(),
            node.meta.n_sections == node.sections.len(),
        ensures
            self.with_node(id, node).wf(),
    {
        let t = self.with_node(id, node);
        assert(self.node_local(id));
        assert(self.node_linked(id));
        assert(t.nodes.dom() =~= self.nodes.dom());
        assert forall|x: u32| #[trigger] t.live(x) implies t.node_local(x) && t.node_linked(x) by {
            assert(self.live(x));
            assert(self.node_local(x));
            assert(self.node_linked(x));
        }
        self.lemma_mirrors_kept(t);
        self.lemma_ranked_kept(t);
    }

    /// A new reply keeps the thread well formed.
    pub proof fn lemma_with_reply(self, parent: u32, child: NodeState)
        requires
            self.wf(),
            self.live(parent),
            !self.live(child.meta.id),
            child.meta.id != ROOT_ID,
            child.meta.id <= self.counter,
            child.meta.parent_id == Some(parent),
            child.meta.depth == self.meta(parent).depth + 1,
            child.meta.n_replies == 0,
            child.meta.n_flags == 0,
            child.meta.n_sections == child.sections.len(),
            child.children == Set::<u32>::empty(),
            child.flags == Map::<Seq<char>, FlagMetadata>::empty(),
            child.tag_index == Set::<Seq<char>>::empty(),
            child.mention_index == Set::<Seq<char>>::empty(),
            self.meta(parent).n_replies < u16::MAX,
        ensures
            self.with_reply(parent, child).wf(),
    {
        let t = self.with_reply(parent, child);
        let c = child.meta.id;
        assert(self.node_local(parent));
        assert(self.node_linked(parent));
        assert(t.nodes.dom() =~= self.nodes.dom().insert(c));
        assert(!self.nodes[parent].children.contains(c));
        assert forall|x: u32| #[trigger] t.live(x) implies t.node_local(x) && t.node_linked(x) by {
            if x == c {
            } else {
                assert(self.live(x));
                assert(self.node_local(x));
                assert(self.node_linked(x));
                assert forall|y: u32| #[trigger]
                    t.nodes[x].children.contains(y) implies t.live(y) && t.meta(y).parent_id
                    == Some(x) by {
                    if y != c {
                        assert(self.nodes[x].children.contains(y));
                    }
                }
            }
        }
        assert(t.ranked_sound()) by {
            assert forall|k: (u32, i32, u32)| #[trigger] t.ranked.contains(k) implies t.live(k.2)
                && t.meta(k.2).parent_id == Some(k.0) && t.meta(k.2).rank == k.1 by {
                if self.ranked.contains(k) {
                    assert(self.live(k.2));
                }
            }
        }
        assert forall|k: (Seq<char>, u32)| #[trigger] t.tag_nodes.contains(k) implies t.live(k.1)
            && t.nodes[k.1].tag_index.contains(k.0) by {
            assert(self.tag_nodes.contains(k));
            assert(self.live(k.1));
        }
        assert forall|n: u32, x: Seq<char>|
            t.live(n) && #[trigger] t.nodes[n].tag_index.contains(x) implies t.tag_nodes.contains(
            (x, n),
        ) by {
            assert(self.nodes[n].tag_index.contains(x));
        }
        assert forall|k: (Seq<char>, u32)| #[trigger]
            t.mention_nodes.contains(k) implies t.live(k.1) && t.nodes[k.1].mention_index.contains(
            k.0,
        ) by {
            assert(self.mention_nodes.contains(k));
            assert(self.live(k.1));
        }
        assert forall|n: u32, x: Seq<char>|
            t.live(n) && #[trigger] t.nodes[n].mention_index.contains(
                x,
            ) implies t.mention_nodes.contains((x, n)) by {
            assert(self.nodes[n].mention_index.contains(x));
        }
    }
}

impl Thread {
    /// The tree and the counters of every node hold where no node's place,
    /// replies, flags or sections change and the rank index stays.
    pub proof fn lemma_tree_kept(self, t: Thread)
        requires
            self.wf(),
            t.counter == self.counter,
            t.nodes.dom() == self.nodes.dom(),
            t.ranked == self.ranked,
            forall|n: u32| #[trigger]
                self.live(n) ==> t.nodes[n].meta == self.nodes[n].meta && t.nodes[n].children
                    == self.nodes[n].children && t.nodes[n].flags == self.nodes[n].flags
                    && t.nodes[n].sections == self.nodes[n].sections,
        ensures
            t.nodes.dom().finite(),
            t.ranked_sound(),
            forall|id: u32| #[trigger] t.live(id) ==> t.node_local(id),
            forall|id: u32| #[trigger] t.live(id) ==> t.node_linked(id),
    {
        assert forall|x: u32| #[trigger] t.live(x) implies t.node_local(x) && t.node_linked(x) by {
            assert(self.live(x));
            assert(self.node_local(x));
            assert(self.node_linked(x));
            assert forall|y: u32| #[trigger] t.nodes[x].children.contains(y) implies t.live(y)
                && t.meta(y).parent_id == Some(x) by {
                assert(self.nodes[x].children.contains(y));
                assert(self.live(y));
            }
            match self.meta(x).parent_id {
                Some(p) => {
                    assert(self.live(p));
                },
                None => {},
            }
        }
        self.lemma_ranked_kept(t);
    }

    /// The thread with a text indexed for a node, on both sides.
    pub open spec fn linked(self, kind: Kind, id: u32, text: Seq<char>) -> Thread {
        let n = self.nodes[id];
        self.with_node(id, n.with_reverse(kind, n.reverse(kind).insert(text))).with_forward(
            kind,
            self.forward(kind).insert((text, id)),
        )
    }

    /// The thread with a text no longer indexed for a node, on both sides.
    pub open spec fn unlinked(self, kind: Kind, id: u32, text: Seq<char>) -> Thread {
        let n = self.nodes[id];
        self.with_node(id, n.with_reverse(kind, n.reverse(kind).remove(text))).with_forward(
            kind,
            self.forward(kind).remove((text, id)),
        )
    }

    /// Indexing a text for a node keeps the thread well formed.
    pub proof fn lemma_linked(self, kind: Kind, id: u32, text: Seq<char>)
        requires
            self.wf(),
            self.live(id),
        ensures
            self.linked(kind, id, text).wf(),
    {
        let t = self.linked(kind, id, text);
        assert(t.nodes.dom() =~= self.nodes.dom());
        self.lemma_tree_kept(t);
        match kind {
            Kind::Tag => {
                self.lemma_mentions_kept(t);
                assert forall|k: (Seq<char>, u32)| #[trigger] t.tag_nodes.contains(k) implies t.live(
                    k.1,
                ) && t.nodes[k.1].tag_index.contains(k.0) by {
                    if k != (text, id) {
                        assert(self.tag_nodes.contains(k));
                        assert(self.live(k.1));
                    }
                }
                assert forall|n: u32, x: Seq<char>|
                    t.live(n) && #[trigger] t.nodes[n].tag_index.contains(
                        x,
                    ) implies t.tag_nodes.contains((x, n)) by {
                    if (x, n) != (text, id) {
                        assert(self.live(n));
                        assert(self.nodes[n].tag_index.contains(x));
                    }
                }
            },
            Kind::Mention => {
                self.lemma_tags_kept(t);
                assert forall|k: (Seq<char>, u32)| #[trigger]
                    t.mention_nodes.contains(k) implies t.live(k.1)
                    && t.nodes[k.1].mention_index.contains(k.0) by {
                    if k != (text, id) {
                        assert(self.mention_nodes.contains(k));
                        assert(self.live(k.1));
                    }
                }
                assert forall|n: u32, x: Seq<char>|
                    t.live(n) && #[trigger] t.nodes[n].mention_index.contains(
                        x,
                    ) implies t.mention_nodes.contains((x, n)) by {
                    if (x, n) != (text, id) {
                        assert(self.live(n));
                        assert(self.nodes[n].mention_index.contains(x));
                    }
                }
            },
        }
    }

    /// Taking a text out of the index for a node keeps the thread well formed.
    pub proof fn lemma_unlinked(self, kind: Kind, id: u32, text: Seq<char>)
        requires
            self.wf(),
            self.live(id),
        ensures
            self.unlinked(kind, id, text).wf(),
    {
        let t = self.unlinked(kind, id, text);
        assert(t.nodes.dom() =~= self.nodes.dom());
        self.lemma_tree_kept(t);
        match kind {
            Kind::Tag => {
                self.lemma_mentions_kept(t);
                assert forall|k: (Seq<char>, u32)| #[trigger] t.tag_nodes.contains(k) implies t.live(
                    k.1,
                ) && t.nodes[k.1].tag_index.contains(k.0) by {
                    assert(self.tag_nodes.contains(k));
                    assert(self.live(k.1));
                }
                assert forall|n: u32, x: Seq<char>|
                    t.live(n) && #[trigger] t.nodes[n].tag_index.contains(
                        x,
                    ) implies t.tag_nodes.contains((x, n)) by {
                    assert(self.live(n));
                    assert(self.nodes[n].tag_index.contains(x));
                }
            },
            Kind::Mention => {
                self.lemma_tags_kept(t);
                assert forall|k: (Seq<char>, u32)| #[trigger]
                    t.mention_nodes.contains(k) implies t.live(k.1)
                    && t.nodes[k.1].mention_index.contains(k.0) by {
                    assert(self.mention_nodes.contains(k));
                    assert(self.live(k.1));
                }
                assert forall|n: u32, x: Seq<char>|
                    t.live(n) && #[trigger] t.nodes[n].mention_index.contains(
                        x,
                    ) implies t.mention_nodes.contains((x, n)) by {
                    assert(self.live(n));
                    assert(self.nodes[n].mention_index.contains(x));
                }
            },
        }
    }

    /// The thread with one account's flag put on a node.
    pub open spec fn flagged(self, id: u32, actor: Seq<char>, flag: FlagMetadata) -> Thread {
        let n = self.nodes[id];
        self.with_node(
            id,
            NodeState {
                meta: NodeMetadata { n_flags: (n.meta.n_flags + 1) as u8, ..n.meta },
                flags: n.flags.insert(actor, flag),
                ..n
            },
        )
    }

    /// The thread with one account's flag taken off a node.
    pub open spec fn unflagged(self, id: u32, actor: Seq<char>) -> Thread {
        let n = self.nodes[id];
        self.with_node(
            id,
            NodeState {
                meta: NodeMetadata { n_flags: (n.meta.n_flags - 1) as u8, ..n.meta },
                flags: n.flags.remove(actor),
                ..n
            },
        )
    }

    /// A new flag keeps the thread well formed.
    pub proof fn lemma_flagged(self, id: u32, actor: Seq<char>, flag: FlagMetadata)
        requires
            self.wf(),
            self.live(id),
            !self.nodes[id].flags.contains_key(actor),
            self.meta(id).n_flags < u8::MAX,
        ensures
            self.flagged(id, actor, flag).wf(),
    {
        assert(self.node_local(id));
        self.lemma_with_node_content(id, self.flagged(id, actor, flag).nodes[id]);
    }

    /// A flag taken off keeps the thread well formed; a node that holds a
    /// flag counts at least one.
    pub proof fn lemma_unflagged(self, id: u32, actor: Seq<char>)
        requires
            self.wf(),
            self.live(id),
            self.nodes[id].flags.contains_key(actor),
        ensures
            self.meta(id).n_flags >= 1,
            self.unflagged(id, actor).wf(),
    {
        assert(self.node_local(id));
        assert(self.nodes[id].flags.dom().contains(actor));
        if self.nodes[id].flags.dom().len() == 0 {
            assert(self.nodes[id].flags.dom() =~= Set::empty());
        }
        self.lemma_with_node_content(id, self.unflagged(id, actor).nodes[id]);
    }

    /// The thread with other kinds of asset accepted as tips.
    pub open spec fn with_tip_tokens(self, tokens: Seq<Token>) -> Thread {
        Thread { tip_tokens: tokens, tip_lookup: token_keys(tokens), ..self }
    }

    /// A change to what lies outside the node store and its indexes keeps
    /// the thread well formed.
    pub proof fn lemma_outside_nodes(self, t: Thread)
        requires
            self.wf(),
            t.counter == self.counter,
            t.nodes == self.nodes,
            t.ranked == self.ranked,
            t.tag_nodes == self.tag_nodes,
            t.mention_nodes == self.mention_nodes,
            t.lookup_mirrors_tokens(),
        ensures
            t.wf(),
    {
        self.lemma_tree_kept(t);
        self.lemma_mirrors_kept(t);
    }

    /// The thread with its first node stored.
    pub open spec fn with_root(self, root: NodeState) -> Thread {
        self.with_node(ROOT_ID, root)
    }

    /// Storing the first node in a thread without nodes makes a well-formed
    /// thread.
    pub proof fn lemma_with_root(self, root: NodeState)
        requires
            self.wf(),
            self.nodes.dom() == Set::<u32>::empty(),
            root.meta.id == ROOT_ID,
            root.meta.parent_id is None,
            root.meta.depth == 0,
            root.meta.n_replies == 0,
            root.meta.n_flags == 0,
            root.meta.n_sections == root.sections.len(),
            root.children == Set::<u32>::empty(),
            root.flags == Map::<Seq<char>, FlagMetadata>::empty(),
            root.tag_index == Set::<Seq<char>>::empty(),
            root.mention_index == Set::<Seq<char>>::empty(),
        ensures
            self.with_root(root).wf(),
    {
        let t = self.with_root(root);
        assert(t.nodes.dom() =~= set![ROOT_ID]);
        assert forall|k: (u32, i32, u32)| #[trigger] t.ranked.contains(k) implies t.live(k.2)
            && t.meta(k.2).parent_id == Some(k.0) && t.meta(k.2).rank == k.1 by {
            assert(self.ranked.contains(k));
            assert(self.live(k.2));
        }
        assert forall|k: (Seq<char>, u32)| #[trigger] t.tag_nodes.contains(k) implies t.live(k.1)
            && t.nodes[k.1].tag_index.contains(k.0) by {
            assert(self.tag_nodes.contains(k));
            assert(self.live(k.1));
        }
        assert forall|k: (Seq<char>, u32)| #[trigger]
            t.mention_nodes.contains(k) implies t.live(k.1) && t.nodes[k.1].mention_index.contains(
            k.0,
        ) by {
            assert(self.mention_nodes.contains(k));
            assert(self.live(k.1));
        }
    }

    /// The thread that holds nothing is well formed.
    pub proof fn lemma_empty()
        ensures
            Thread::empty().wf(),
    {
        assert(token_keys(Seq::<Token>::empty()) =~= Set::<Seq<char>>::empty());
    }
}

/// The record of a node after the given nodes went: it no longer lists any
/// of them as a reply.
pub open spec fn unlisting(node: NodeState, gone: Set<u32>) -> NodeState {
    NodeState { children: node.children.difference(gone), ..node }
}

impl Thread {
    /// Every node that is listed as a reply exists, and is a reply to the
    /// node that lists it.
    pub open spec fn children_sound(self) -> bool {
        forall|x: u32, c: u32|
            self.live(x) && #[trigger] self.nodes[x].children.contains(c) ==> self.live(c)
                && self.meta(c).parent_id == Some(x)
    }

    /// The thread without the given nodes: their records are gone with all
    /// that is kept under them, no node that is left lists one of them as a
    /// reply, and their entries in the rank index and in the text indexes
    /// are gone.
    pub open spec fn without_nodes(self, gone: Set<u32>) -> Thread {
        Thread {
            nodes: Map::new(
                |n: u32| self.live(n) && !gone.contains(n),
                |n: u32| unlisting(self.nodes[n], gone),
            ),
            ranked: self.ranked.filter(|k: (u32, i32, u32)| !gone.contains(k.2)),
            tag_nodes: self.tag_nodes.filter(|k: (Seq<char>, u32)| !gone.contains(k.1)),
            mention_nodes: self.mention_nodes.filter(|k: (Seq<char>, u32)| !gone.contains(k.1)),
            ..self
        }
    }

    /// The thread without one node.
    pub open spec fn without_node(self, id: u32) -> Thread {
        self.without_nodes(set![id])
    }

    /// The thread with `parent` counting one reply less.
    pub open spec fn counting_less(self, parent: u32) -> Thread {
        let p = self.nodes[parent];
        self.with_node(
            parent,
            NodeState {
                meta: NodeMetadata { n_replies: (p.meta.n_replies - 1) as u16, ..p.meta },
                ..p
            },
        )
    }

    /// `n` is `a` or a reply, at any depth, to `a`.
    pub open spec fn descends(self, n: u32, a: u32) -> bool
        decreases self.nodes[n].meta.depth,
    {
        n == a || (self.live(n) && match self.meta(n).parent_id {
            Some(p) => self.live(p) && self.meta(p).depth < self.meta(n).depth && self.descends(
                p,
                a,
            ),
            None => false,
        })
    }

    /// A node with all the replies below it.
    pub open spec fn subtree(self, a: u32) -> Set<u32> {
        Set::new(|n: u32| self.live(n) && self.descends(n, a))
    }

    /// The thread after a reply was deleted: the reply and all that
    /// descends from it are gone, and its parent counts one reply less.
    pub open spec fn deleted(self, id: u32) -> Thread {
        self.without_nodes(self.subtree(id)).counting_less(self.meta(id).parent_id->Some_0)
    }

    /// In a well-formed thread every node listed as a reply exists, under
    /// the node that lists it.
    pub proof fn lemma_children_sound(self)
        requires
            self.wf(),
        ensures
            self.children_sound(),
    {
        assert forall|x: u32, c: u32|
            self.live(x) && #[trigger] self.nodes[x].children.contains(c) implies self.live(c)
            && self.meta(c).parent_id == Some(x) by {
            assert(self.node_linked(x));
        }
    }

    /// Taking nodes out one after the other is taking them out together.
    pub proof fn lemma_without_more(self, gone: Set<u32>, id: u32)
        ensures
            self.without_nodes(gone).without_node(id) == self.without_nodes(gone.insert(id)),
    {
        let a = self.without_nodes(gone).without_node(id);
        let b = self.without_nodes(gone.insert(id));
        assert forall|n: u32| a.nodes.contains_key(n) implies a.nodes[n] == b.nodes[n] by {
            assert(self.nodes[n].children.difference(gone).difference(set![id])
                =~= self.nodes[n].children.difference(gone.insert(id)));
        }
        assert(a.nodes =~= b.nodes);
        assert(a.ranked =~= b.ranked);
        assert(a.tag_nodes =~= b.tag_nodes);
        assert(a.mention_nodes =~= b.mention_nodes);
    }

    /// Taking no node out changes nothing.
    pub proof fn lemma_without_none(self)
        ensures
            self.without_nodes(Set::empty()) == self,
    {
        let a = self.without_nodes(Set::empty());
        assert forall|n: u32| a.nodes.contains_key(n) implies a.nodes[n] == self.nodes[n] by {
            assert(self.nodes[n].children.difference(Set::empty()) =~= self.nodes[n].children);
        }
        assert(a.nodes =~= self.nodes);
        assert(a.ranked =~= self.ranked);
        assert(a.tag_nodes =~= self.tag_nodes);
        assert(a.mention_nodes =~= self.mention_nodes);
    }

    /// The replies that are listed stay sound when nodes are taken out.
    pub proof fn lemma_without_nodes_listed(self, gone: Set<u32>)
        requires
            self.children_sound(),
        ensures
            self.without_nodes(gone).children_sound(),
    {
        let t = self.without_nodes(gone);
        assert forall|x: u32, c: u32|
            t.live(x) && #[trigger] t.nodes[x].children.contains(c) implies t.live(c) && t.meta(
            c,
        ).parent_id == Some(x) by {
            assert(self.live(x));
            assert(self.nodes[x].children.contains(c));
        }
    }

    /// The indexes stay sound when nodes are taken out.
    pub proof fn lemma_without_nodes_sound(self, gone: Set<u32>)
        requires
            self.indexes_sound(),
        ensures
            self.without_nodes(gone).indexes_sound(),
    {
        let t = self.without_nodes(gone);
        assert forall|k: (u32, i32, u32)| #[trigger] t.ranked.contains(k) implies t.live(k.2)
            && t.meta(k.2).parent_id == Some(k.0) && t.meta(k.2).rank == k.1 by {
            assert(self.ranked.contains(k));
            assert(self.live(k.2));
        }
        assert forall|k: (Seq<char>, u32)| #[trigger] t.tag_nodes.contains(k) implies t.live(k.1)
            && t.nodes[k.1].tag_index.contains(k.0) by {
            assert(self.tag_nodes.contains(k));
            assert(self.live(k.1));
        }
        assert forall|n: u32, x: Seq<char>|
            t.live(n) && #[trigger] t.nodes[n].tag_index.contains(x) implies t.tag_nodes.contains(
            (x, n),
        ) by {
            assert(self.live(n));
            assert(self.nodes[n].tag_index.contains(x));
        }
        assert forall|k: (Seq<char>, u32)| #[trigger]
            t.mention_nodes.contains(k) implies t.live(k.1) && t.nodes[k.1].mention_index.contains(
            k.0,
        ) by {
            assert(self.mention_nodes.contains(k));
            assert(self.live(k.1));
        }
        assert forall|n: u32, x: Seq<char>|
            t.live(n) && #[trigger] t.nodes[n].mention_index.contains(
                x,
            ) implies t.mention_nodes.contains((x, n)) by {
            assert(self.live(n));
            assert(self.nodes[n].mention_index.contains(x));
        }
    }

    /// What descends from a node lies at least as deep as the node.
    pub proof fn lemma_descends_depth(self, n: u32, a: u32)
        requires
            self.descends(n, a),
        ensures
            self.meta(n).depth >= self.meta(a).depth,
        decreases self.nodes[n].meta.depth,
    {
        if n != a {
            self.lemma_descends_depth(self.meta(n).parent_id->Some_0, a);
        }
    }

    /// A reply to what descends from a node descends from that node too.
    pub proof fn lemma_child_descends(self, q: u32, c: u32, a: u32)
        requires
            self.wf(),
            self.live(q),
            self.descends(q, a),
            self.nodes[q].children.contains(c),
        ensures
            self.live(c),
            self.descends(c, a),
    {
        assert(self.node_linked(q));
        assert(self.live(c));
        assert(self.node_linked(c));
    }

    /// Of the replies that a node lists, deleting a reply takes away that
    /// reply where the node is its parent, and none otherwise.
    pub proof fn lemma_deleted_children(self, id: u32, x: u32)
        requires
            self.wf(),
            self.live(id),
            self.meta(id).parent_id is Some,
            self.live(x),
            !self.subtree(id).contains(x),
        ensures
            self.nodes[x].children.difference(self.subtree(id)) == if x == self.meta(
                id,
            ).parent_id->Some_0 {
                self.nodes[x].children.remove(id)
            } else {
                self.nodes[x].children
            },
    {
        let gone = self.subtree(id);
        let left = self.nodes[x].children.difference(gone);
        assert(self.node_linked(id));
        assert(self.node_linked(x));
        assert forall|c: u32| self.nodes[x].children.contains(c) && gone.contains(c) implies c
            == id && x == self.meta(id).parent_id->Some_0 by {
            assert(self.live(c));
            assert(self.node_linked(c));
            assert(self.descends(c, id));
        }
        assert(gone.contains(id));
        if x == self.meta(id).parent_id->Some_0 {
            assert(left =~= self.nodes[x].children.remove(id));
        } else {
            assert(left =~= self.nodes[x].children);
        }
    }

    /// Deleting a reply keeps the thread well formed.
    pub proof fn lemma_deleted(self, id: u32)
        requires
            self.wf(),
            self.live(id),
            self.meta(id).parent_id is Some,
        ensures
            self.meta(self.meta(id).parent_id->Some_0).n_replies >= 1,
            self.deleted(id).wf(),
    {
        let p = self.meta(id).parent_id->Some_0;
        let gone = self.subtree(id);
        let rest = self.without_nodes(gone);
        let t = self.deleted(id);
        assert(self.node_linked(id));
        assert(self.node_local(p));
        assert(self.node_linked(p));
        assert(gone.contains(id));
        assert(!gone.contains(p)) by {
            if self.descends(p, id) {
                self.lemma_descends_depth(p, id);
            }
        }
        assert(self.nodes[p].children.len() >= 1) by {
            if self.nodes[p].children.len() == 0 {
                assert(self.nodes[p].children =~= Set::empty());
            }
        }
        assert(rest.live(p));
        assert(t.nodes.dom() =~= self.nodes.dom().difference(gone));
        assert(t.nodes.dom().finite());
        self.lemma_without_nodes_sound(gone);
        assert forall|x: u32| #[trigger] t.live(x) implies t.node_local(x) && t.node_linked(x) by {
            assert(self.live(x));
            assert(!gone.contains(x));
            assert(self.node_local(x));
            assert(self.node_linked(x));
            self.lemma_deleted_children(id, x);
            assert forall|c: u32| #[trigger] t.nodes[x].children.contains(c) implies t.live(c)
                && t.meta(c).parent_id == Some(x) by {
                assert(self.nodes[x].children.contains(c));
                assert(self.live(c));
                assert(!gone.contains(c));
            }
            match self.meta(x).parent_id {
                Some(q) => {
                    assert(self.live(q));
                    if gone.contains(q) {
                        self.lemma_child_descends(q, x, id);
                    }
                    assert(t.live(q));
                    assert(self.nodes[q].children.contains(x));
                    assert(t.nodes[q].children.contains(x));
                    assert(rest.ranked.contains((q, self.meta(x).rank, x)));
                },
                None => {},
            }
        }
        assert(t.ranked_sound()) by {
            assert forall|k: (u32, i32, u32)| #[trigger] t.ranked.contains(k) implies t.live(k.2)
                && t.meta(k.2).parent_id == Some(k.0) && t.meta(k.2).rank == k.1 by {
                assert(rest.ranked.contains(k));
                assert(rest.live(k.2));
            }
        }
        assert(t.nodes.dom() =~= rest.nodes.dom());
        rest.lemma_mirrors_kept(t);
    }
}

/// The order of the rank index among the replies to one node: by rank, and
/// among equal ranks by identifier.
pub open spec fn ranks_before(a: (i32, u32), b: (i32, u32)) -> bool {
    a.0 < b.0 || (a.0 == b.0 && a.1 < b.1)
}

impl Thread {
    /// The rank index holds the reply `k` under `parent`, before the bound
    /// if there is one.
    pub open spec fn child_at(self, parent: u32, k: (i32, u32), bound: Option<(i32, u32)>) -> bool {
        self.ranked.contains((parent, k.0, k.1)) && match bound {
            Some(b) => ranks_before(k, b),
            None => true,
        }
    }

    /// `k` is the last such reply in the order of the rank index.
    pub open spec fn is_top_child(
        self,
        parent: u32,
        k: (i32, u32),
        bound: Option<(i32, u32)>,
    ) -> bool {
        &&& self.child_at(parent, k, bound)
        &&& forall|j: (i32, u32)| #[trigger]
            self.child_at(parent, j, bound) ==> j == k || ranks_before(j, k)
    }

    /// The index holds the node `n` under the text, below the bound if
    /// there is one.
    pub open spec fn tagged_at(self, kind: Kind, text: Seq<char>, n: u32, bound: Option<u32>) -> bool {
        self.forward(kind).contains((text, n)) && match bound {
            Some(b) => n < b,
            None => true,
        }
    }

    /// `n` is the greatest such node.
    pub open spec fn is_top_tagged(
        self,
        kind: Kind,
        text: Seq<char>,
        n: u32,
        bound: Option<u32>,
    ) -> bool {
        &&& self.tagged_at(kind, text, n, bound)
        &&& forall|j: u32| #[trigger] self.tagged_at(kind, text, j, bound) ==> j <= n
    }
}

impl Thread {
    /// The thread with the given texts indexed for a node, beside those
    /// that were.
    pub open spec fn adding(self, kind: Kind, id: u32, texts: Set<Seq<char>>) -> Thread {
        let n = self.nodes[id];
        self.with_node(id, n.with_reverse(kind, n.reverse(kind).union(texts))).with_forward(
            kind,
            self.forward(kind).union(Set::new(|k: (Seq<char>, u32)| k.1 == id && texts.contains(k.0))),
        )
    }

    /// The thread with the given texts no longer indexed for a node.
    pub open spec fn dropping(self, kind: Kind, id: u32, texts: Set<Seq<char>>) -> Thread {
        let n = self.nodes[id];
        self.with_node(id, n.with_reverse(kind, n.reverse(kind).difference(texts))).with_forward(
            kind,
            self.forward(kind).difference(
                Set::new(|k: (Seq<char>, u32)| k.1 == id && texts.contains(k.0)),
            ),
        )
    }

    /// The thread after a node's texts of one kind were given anew. On
    /// creation the texts are indexed. On an edit the index is reconciled
    /// with them: texts not indexed yet are added, texts indexed that are
    /// not among them are taken out, and the others stay as they are.
    pub open spec fn indexed_as(self, kind: Kind, id: u32, texts: Set<Seq<char>>, is_edit: bool) -> Thread {
        let added = self.adding(kind, id, texts);
        if is_edit {
            added.dropping(kind, id, added.nodes[id].reverse(kind).difference(texts))
        } else {
            added
        }
    }

    /// Adding no text changes nothing.
    pub proof fn lemma_adding_none(self, kind: Kind, id: u32)
        requires
            self.live(id),
        ensures
            self.adding(kind, id, Set::empty()) == self,
    {
        let t = self.adding(kind, id, Set::empty());
        let n = self.nodes[id];
        assert(n.reverse(kind).union(Set::empty()) =~= n.reverse(kind));
        assert(n.with_reverse(kind, n.reverse(kind)) == n);
        assert(t.nodes =~= self.nodes);
        assert(t.forward(kind) =~= self.forward(kind));
    }

    /// Adding texts and then one more is adding them together.
    pub proof fn lemma_adding_more(self, kind: Kind, id: u32, texts: Set<Seq<char>>, text: Seq<char>)
        requires
            self.live(id),
        ensures
            self.adding(kind, id, texts).linked(kind, id, text) == self.adding(
                kind,
                id,
                texts.insert(text),
            ),
    {
        let a = self.adding(kind, id, texts).linked(kind, id, text);
        let b = self.adding(kind, id, texts.insert(text));
        let n = self.nodes[id];
        assert(n.reverse(kind).union(texts).insert(text) =~= n.reverse(kind).union(
            texts.insert(text),
        ));
        assert(a.nodes =~= b.nodes);
        assert(a.forward(kind) =~= b.forward(kind));
    }

    /// Dropping no text changes nothing.
    pub proof fn lemma_dropping_none(self, kind: Kind, id: u32)
        requires
            self.live(id),
        ensures
            self.dropping(kind, id, Set::empty()) == self,
    {
        let t = self.dropping(kind, id, Set::empty());
        let n = self.nodes[id];
        assert(n.reverse(kind).difference(Set::empty()) =~= n.reverse(kind));
        assert(n.with_reverse(kind, n.reverse(kind)) == n);
        assert(t.nodes =~= self.nodes);
        assert(t.forward(kind) =~= self.forward(kind));
    }

    /// Dropping texts and then one more is dropping them together.
    pub proof fn lemma_dropping_more(self, kind: Kind, id: u32, texts: Set<Seq<char>>, text: Seq<char>)
        requires
            self.live(id),
        ensures
            self.dropping(kind, id, texts).unlinked(kind, id, text) == self.dropping(
                kind,
                id,
                texts.insert(text),
            ),
    {
        let a = self.dropping(kind, id, texts).unlinked(kind, id, text);
        let b = self.dropping(kind, id, texts.insert(text));
        let n = self.nodes[id];
        assert(n.reverse(kind).difference(texts).remove(text) =~= n.reverse(kind).difference(
            texts.insert(text),
        ));
        assert(a.nodes =~= b.nodes);
        assert(a.forward(kind) =~= b.forward(kind));
    }

    /// Indexing texts for a node, beside those that were, keeps the thread
    /// well formed.
    pub proof fn lemma_adding(self, kind: Kind, id: u32, texts: Set<Seq<char>>)
        requires
            self.wf(),
            self.live(id),
        ensures
            self.adding(kind, id, texts).wf(),
    {
        let t = self.adding(kind, id, texts);
        assert(t.nodes.dom() =~= self.nodes.dom());
        self.lemma_tree_kept(t);
        match kind {
            Kind::Tag => {
                self.lemma_mentions_kept(t);
                assert forall|k: (Seq<char>, u32)| #[trigger] t.tag_nodes.contains(k) implies t.live(
                    k.1,
                ) && t.nodes[k.1].tag_index.contains(k.0) by {
                    if self.tag_nodes.contains(k) {
                        assert(self.live(k.1));
                    }
                }
                assert forall|n: u32, x: Seq<char>|
                    t.live(n) && #[trigger] t.nodes[n].tag_index.contains(
                        x,
                    ) implies t.tag_nodes.contains((x, n)) by {
                    assert(self.live(n));
                    if self.nodes[n].tag_index.contains(x) {
                        assert(self.tag_nodes.contains((x, n)));
                    }
                }
            },
            Kind::Mention => {
                self.lemma_tags_kept(t);
                assert forall|k: (Seq<char>, u32)| #[trigger]
                    t.mention_nodes.contains(k) implies t.live(k.1)
                    && t.nodes[k.1].mention_index.contains(k.0) by {
                    if self.mention_nodes.contains(k) {
                        assert(self.live(k.1));
                    }
                }
                assert forall|n: u32, x: Seq<char>|
                    t.live(n) && #[trigger] t.nodes[n].mention_index.contains(
                        x,
                    ) implies t.mention_nodes.contains((x, n)) by {
                    assert(self.live(n));
                    if self.nodes[n].mention_index.contains(x) {
                        assert(self.mention_nodes.contains((x, n)));
                    }
                }
            },
        }
    }

    /// Taking texts out of the index for a node keeps the thread well
    /// formed.
    pub proof fn lemma_dropping(self, kind: Kind, id: u32, texts: Set<Seq<char>>)
        requires
            self.wf(),
            self.live(id),
        ensures
            self.dropping(kind, id, texts).wf(),
    {
        let t = self.dropping(kind, id, texts);
        assert(t.nodes.dom() =~= self.nodes.dom());
        self.lemma_tree_kept(t);
        match kind {
            Kind::Tag => {
                self.lemma_mentions_kept(t);
                assert forall|k: (Seq<char>, u32)| #[trigger] t.tag_nodes.contains(k) implies t.live(
                    k.1,
                ) && t.nodes[k.1].tag_index.contains(k.0) by {
                    assert(self.tag_nodes.contains(k));
                    assert(self.live(k.1));
                }
                assert forall|n: u32, x: Seq<char>|
                    t.live(n) && #[trigger] t.nodes[n].tag_index.contains(
                        x,
                    ) implies t.tag_nodes.contains((x, n)) by {
                    assert(self.live(n));
                    assert(self.nodes[n].tag_index.contains(x));
                }
            },
            Kind::Mention => {
                self.lemma_tags_kept(t);
                assert forall|k: (Seq<char>, u32)| #[trigger]
                    t.mention_nodes.contains(k) implies t.live(k.1)
                    && t.nodes[k.1].mention_index.contains(k.0) by {
                    assert(self.mention_nodes.contains(k));
                    assert(self.live(k.1));
                }
                assert forall|n: u32, x: Seq<char>|
                    t.live(n) && #[trigger] t.nodes[n].mention_index.contains(
                        x,
                    ) implies t.mention_nodes.contains((x, n)) by {
                    assert(self.live(n));
                    assert(self.nodes[n].mention_index.contains(x));
                }
            },
        }
    }

    /// What giving a node's texts of one kind anew makes of the index: the
    /// thread stays well formed; no node is created or removed; of no node
    /// does anything change but the node's own side of this index; on an
    /// edit the node's side holds the texts given and no other, otherwise
    /// these beside what it held; the forward side follows for this node,
    /// and holds for every other node what it held.
    pub proof fn lemma_indexed_as(self, kind: Kind, id: u32, texts: Set<Seq<char>>, is_edit: bool)
        requires
            self.wf(),
            self.live(id),
        ensures
            self.indexed_as(kind, id, texts, is_edit).wf(),
            self.indexed_as(kind, id, texts, is_edit).nodes.dom() == self.nodes.dom(),
            self.indexed_as(kind, id, texts, is_edit).nodes[id] == self.nodes[id].with_reverse(
                kind,
                if is_edit {
                    texts
                } else {
                    self.nodes[id].reverse(kind).union(texts)
                },
            ),
            forall|n: u32|
                n != id ==> #[trigger] self.indexed_as(kind, id, texts, is_edit).nodes[n]
                    == self.nodes[n],
            forall|k: (Seq<char>, u32)|
                #[trigger] self.indexed_as(kind, id, texts, is_edit).forward(kind).contains(k) <==> (
                if k.1 == id {
                    texts.contains(k.0) || (!is_edit && self.forward(kind).contains(k))
                } else {
                    self.forward(kind).contains(k)
                }),
            match kind {
                Kind::Tag => self.indexed_as(kind, id, texts, is_edit).mention_nodes
                    == self.mention_nodes,
                Kind::Mention => self.indexed_as(kind, id, texts, is_edit).tag_nodes
                    == self.tag_nodes,
            },
    {
        let added = self.adding(kind, id, texts);
        let t = self.indexed_as(kind, id, texts, is_edit);
        self.lemma_adding(kind, id, texts);
        assert(added.nodes.dom() =~= self.nodes.dom());
        if is_edit {
            let extra = added.nodes[id].reverse(kind).difference(texts);
            added.lemma_dropping(kind, id, extra);
            assert(t.nodes.dom() =~= self.nodes.dom());
            assert(self.nodes[id].reverse(kind).union(texts).difference(extra) =~= texts);
            assert forall|k: (Seq<char>, u32)|
                self.forward(kind).contains(k) && k.1 == id implies self.nodes[id].reverse(
                kind,
            ).contains(k.0) by {
                match kind {
                    Kind::Tag => {
                        assert(self.tag_nodes.contains(k));
                    },
                    Kind::Mention => {
                        assert(self.mention_nodes.contains(k));
                    },
                }
            }
        }
    }

    /// The thread after an account asked for a vote on a node: the ledger
    /// holds the account's next vote, and the node's rank moves by what the
    /// change of vote is worth.
    pub open spec fn voted(self, actor: Seq<char>, id: u32, sentiment: Sentiment) -> Thread {
        let held = self.vote_of(id, actor);
        self.with_vote(id, actor, next_vote(held, sentiment)).reranked(
            id,
            (self.meta(id).rank + rank_delta(held, sentiment)) as i32,
        )
    }
}

} // verus!
