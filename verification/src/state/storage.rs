//! The store: the thread's repositories and the operations that change
//! them, each stated over the thread as a mathematical value.

use vstd::prelude::*;

use crate::msg::Sentiment;
use crate::state::models::{
    copy_opt_text, copy_sections, copy_text, copy_texts, copy_tokens, FlagMetadata, NodeMetadata,
    Owner, Section, TableMetadata, Token, ROOT_ID,
};
use crate::state::table::{Dict, Table};
use crate::state::thread::{fresh_node, ranks_before, unlisting, Kind, NodeState, Thread};

verus! {

/// The record of one node with the index rows that are kept under it.
#[derive(Debug)]
struct Node {
    meta: NodeMetadata,
    title: Option<String>,
    body: String,
    sections: Vec<Section>,
    tags: Vec<String>,
    mentions: Vec<String>,
    children: Table<u32>,
    votes: Dict<String, Sentiment>,
    flags: Dict<String, FlagMetadata>,
    tag_index: Table<String>,
    mention_index: Table<String>,
}

impl Node {
    spec fn state(&self) -> NodeState {
        NodeState {
            meta: self.meta,
            title: self.title,
            body: self.body@,
            sections: self.sections@,
            tags: self.tags@,
            mentions: self.mentions@,
            children: self.children@,
            votes: self.votes@,
            flags: self.flags@,
            tag_index: self.tag_index@,
            mention_index: self.mention_index@,
        }
    }

    spec fn inv(&self) -> bool {
        &&& self.children.wf()
        &&& self.votes.wf()
        &&& self.flags.wf()
        &&& self.tag_index.wf()
        &&& self.mention_index.wf()
    }
}

/// The store of one thread.
#[derive(Debug)]
pub struct Storage {
    counter: u32,
    nodes: Dict<u32, Node>,
    ranked: Table<(u32, i32, u32)>,
    tag_nodes: Table<(String, u32)>,
    mention_nodes: Table<(String, u32)>,
    saved: Table<(String, u32)>,
    owner: Option<Owner>,
    tip_tokens: Vec<Token>,
    tip_lookup: Table<String>,
    tip_totals: Dict<String, u128>,
    table: Option<TableMetadata>,
}

impl View for Storage {
    type V = Thread;

    closed spec fn view(&self) -> Thread {
        Thread {
            counter: self.counter,
            nodes: self.nodes@.map_values(|n: Node| n.state()),
            ranked: self.ranked@,
            tag_nodes: self.tag_nodes@,
            mention_nodes: self.mention_nodes@,
            saved: self.saved@,
            owner: self.owner,
            tip_tokens: self.tip_tokens@,
            tip_lookup: self.tip_lookup@,
            tip_totals: self.tip_totals@,
            table: self.table,
        }
    }
}

impl Storage {
    /// The repositories hold no row or key twice.
    pub closed spec fn inv(&self) -> bool {
        &&& self.nodes.wf()
        &&& forall|id: u32| #[trigger] self.nodes@.contains_key(id) ==> self.nodes@[id].inv()
        &&& self.ranked.wf()
        &&& self.tag_nodes.wf()
        &&& self.mention_nodes.wf()
        &&& self.saved.wf()
        &&& self.tip_lookup.wf()
        &&& self.tip_totals.wf()
    }

    /// The store is sound within and holds a well-formed thread.
    pub open spec fn wf(&self) -> bool {
        self.inv() && self@.wf()
    }

    /// A store that holds nothing.
    pub fn new() -> (s: Storage)
        ensures
            s.wf(),
            s@ == Thread::empty(),
    {
        proof {
            Thread::lemma_empty();
        }
        let s = Storage {
            counter: 0,
            nodes: Dict::new(),
            ranked: Table::new(),
            tag_nodes: Table::new(),
            mention_nodes: Table::new(),
            saved: Table::new(),
            owner: None,
            tip_tokens: Vec::new(),
            tip_lookup: Table::new(),
            tip_totals: Dict::new(),
            table: None,
        };
        assert(s@.nodes =~= Map::empty());
        assert(s@.tip_tokens =~= Seq::empty());
        s
    }

    /// The place of a node's record, if the node exists.
    fn locate(&self, id: u32) -> (r: Option<usize>)
        requires
            self.inv(),
        ensures
            match r {
                Some(i) => i < self.nodes.key_models().len() && self.nodes.key_models()[i as int]
                    == id && self@.live(id) && self.nodes.values()[i as int].state()
                    == self@.nodes[id] && self.nodes.values()[i as int].inv(),
                None => !self@.live(id),
            },
    {
        self.nodes.find(&id)
    }

    /// The record at a place, to be changed where it stands.
    fn node_mut(&mut self, i: usize) -> (n: &mut Node)
        requires
            old(self).inv(),
            i < old(self).nodes.key_models().len(),
        ensures
            *n == old(self).nodes.values()[i as int],
            final(n).inv() ==> final(self).inv(),
            final(self)@ == (Thread {
                nodes: old(self)@.nodes.insert(
                    old(self).nodes.key_models()[i as int],
                    final(n).state(),
                ),
                ..old(self)@
            }),
    {
        proof {
            let m = self.nodes@;
            let k = self.nodes.key_models()[i as int];
            assert forall|v: Node| #![auto]
                m.insert(k, v).map_values(|n: Node| n.state()) =~= m.map_values(
                    |n: Node| n.state(),
                ).insert(k, v.state()) by {}
        }
        self.nodes.value_mut(i)
    }

    /// Whether a node exists.
    pub fn has_node(&self, id: u32) -> (b: bool)
        requires
            self.inv(),
        ensures
            b == self@.live(id),
    {
        self.locate(id).is_some()
    }

    /// A copy of what is recorded of a node, if it exists.
    pub fn metadata(&self, id: u32) -> (r: Option<NodeMetadata>)
        requires
            self.inv(),
        ensures
            match r {
                Some(m) => self@.live(id) && m == self@.meta(id),
                None => !self@.live(id),
            },
    {
        match self.locate(id) {
            Some(i) => Some(self.nodes.value(i).meta.dup()),
            None => None,
        }
    }
}

impl Storage {
    /// The view of the node store after a record was put under a key.
    proof fn lemma_put_node(m: Map<u32, Node>, id: u32, node: Node)
        ensures
            m.insert(id, node).map_values(|n: Node| n.state()) == m.map_values(
                |n: Node| n.state(),
            ).insert(id, node.state()),
    {
        assert(m.insert(id, node).map_values(|n: Node| n.state()) =~= m.map_values(
            |n: Node| n.state(),
        ).insert(id, node.state()));
    }

    /// Issues the next identifier, unless the last one was the greatest.
    pub(crate) fn issue_id(&mut self) -> (r: Option<u32>)
        requires
            old(self).wf(),
        ensures
            final(self).wf(),
            match r {
                Some(id) => id == old(self)@.counter + 1 && final(self)@ == old(self)@.with_counter(
                    id,
                ),
                None => old(self)@.counter == u32::MAX && final(self)@ == old(self)@,
            },
    {
        if self.counter == u32::MAX {
            return None;
        }
        proof {
            self@.lemma_with_counter((self.counter + 1) as u32);
        }
        self.counter = self.counter + 1;
        Some(self.counter)
    }

    /// Puts a node at another rank, in its record and in the rank index.
    pub(crate) fn set_rank(&mut self, id: u32, rank: i32)
        requires
            old(self).wf(),
            old(self)@.live(id),
        ensures
            final(self).wf(),
            final(self)@ == old(self)@.reranked(id, rank),
    {
        proof {
            self@.lemma_reranked(id, rank);
        }
        let i = self.locate(id).unwrap();
        let n = self.node_mut(i);
        let parent = n.meta.parent_id;
        let prev = n.meta.rank;
        n.meta.rank = rank;
        if let Some(p) = parent {
            self.ranked.remove(&(p, prev, id));
            self.ranked.insert((p, rank, id));
        }
    }

    /// The vote that an account holds on a node.
    pub(crate) fn vote_of(&self, id: u32, actor: &String) -> (r: Option<Sentiment>)
        requires
            self.inv(),
            self@.live(id),
        ensures
            r == self@.vote_of(id, actor@),
    {
        let i = self.locate(id).unwrap();
        match self.nodes.value(i).votes.get(actor) {
            Some(v) => Some(*v),
            None => None,
        }
    }

    /// Sets or withdraws the vote that an account holds on a node.
    pub(crate) fn record_vote(&mut self, id: u32, actor: &String, vote: Option<Sentiment>)
        requires
            old(self).wf(),
            old(self)@.live(id),
        ensures
            final(self).wf(),
            final(self)@ == old(self)@.with_vote(id, actor@, vote),
    {
        proof {
            assert(self@.node_local(id));
            self@.lemma_with_node_content(id, self@.with_vote(id, actor@, vote).nodes[id]);
        }
        let i = self.locate(id).unwrap();
        let n = self.node_mut(i);
        match vote {
            Some(v) => {
                n.votes.put(actor.clone(), v);
            },
            None => {
                n.votes.remove(actor);
            },
        }
    }

    /// Stores a new reply under its parent.
    pub(crate) fn insert_reply(
        &mut self,
        meta: NodeMetadata,
        body: String,
        sections: Vec<Section>,
        tags: Vec<String>,
        mentions: Vec<String>,
    )
        requires
            old(self).wf(),
            meta.parent_id is Some,
            old(self)@.live(meta.parent_id->Some_0),
            !old(self)@.live(meta.id),
            meta.id != ROOT_ID,
            meta.id <= old(self)@.counter,
            meta.depth == old(self)@.meta(meta.parent_id->Some_0).depth + 1,
            meta.n_replies == 0,
            meta.n_flags == 0,
            meta.n_sections == sections@.len(),
            old(self)@.meta(meta.parent_id->Some_0).n_replies < u16::MAX,
        ensures
            final(self).wf(),
            final(self)@ == old(self)@.with_reply(
                meta.parent_id->Some_0,
                fresh_node(meta, None, body@, sections@, tags@, mentions@),
            ),
    {
        let parent = meta.parent_id.unwrap();
        let id = meta.id;
        let rank = meta.rank;
        let ghost child = fresh_node(meta, None, body@, sections@, tags@, mentions@);
        proof {
            self@.lemma_with_reply(parent, child);
        }
        let i = self.locate(parent).unwrap();
        let p = self.node_mut(i);
        p.meta.n_replies = p.meta.n_replies + 1;
        p.children.insert(id);
        let node = Node {
            meta,
            title: None,
            body,
            sections,
            tags,
            mentions,
            children: Table::new(),
            votes: Dict::new(),
            flags: Dict::new(),
            tag_index: Table::new(),
            mention_index: Table::new(),
        };
        assert(node.state() == child);
        proof {
            Self::lemma_put_node(self.nodes@, id, node);
        }
        self.nodes.put(id, node);
        self.ranked.insert((parent, rank, id));
    }
}

impl Storage {
    /// Stores the thread's first node.
    pub(crate) fn insert_root(
        &mut self,
        meta: NodeMetadata,
        title: Option<String>,
        body: String,
        sections: Vec<Section>,
        tags: Vec<String>,
        mentions: Vec<String>,
    )
        requires
            old(self).wf(),
            old(self)@.nodes.dom() == Set::<u32>::empty(),
            meta.id == ROOT_ID,
            meta.parent_id is None,
            meta.depth == 0,
            meta.n_replies == 0,
            meta.n_flags == 0,
            meta.n_sections == sections@.len(),
        ensures
            final(self).wf(),
            final(self)@ == old(self)@.with_root(
                fresh_node(meta, title, body@, sections@, tags@, mentions@),
            ),
    {
        let ghost root = fresh_node(meta, title, body@, sections@, tags@, mentions@);
        proof {
            self@.lemma_with_root(root);
        }
        let node = Node {
            meta,
            title,
            body,
            sections,
            tags,
            mentions,
            children: Table::new(),
            votes: Dict::new(),
            flags: Dict::new(),
            tag_index: Table::new(),
            mention_index: Table::new(),
        };
        assert(node.state() == root);
        proof {
            Self::lemma_put_node(self.nodes@, ROOT_ID, node);
        }
        self.nodes.put(ROOT_ID, node);
    }

    /// Indexes a text for a node on both sides; says whether it was new.
    pub(crate) fn link(&mut self, kind: Kind, id: u32, text: String) -> (fresh: bool)
        requires
            old(self).wf(),
            old(self)@.live(id),
        ensures
            final(self).wf(),
            final(self)@ == old(self)@.linked(kind, id, text@),
            fresh == !old(self)@.nodes[id].reverse(kind).contains(text@),
    {
        proof {
            self@.lemma_linked(kind, id, text@);
        }
        let i = self.locate(id).unwrap();
        let n = self.node_mut(i);
        match kind {
            Kind::Tag => {
                let fresh = n.tag_index.insert(text.clone());
                self.tag_nodes.insert((text, id));
                fresh
            },
            Kind::Mention => {
                let fresh = n.mention_index.insert(text.clone());
                self.mention_nodes.insert((text, id));
                fresh
            },
        }
    }

    /// Takes a text out of the index for a node on both sides.
    pub(crate) fn unlink(&mut self, kind: Kind, id: u32, text: &String)
        requires
            old(self).wf(),
            old(self)@.live(id),
        ensures
            final(self).wf(),
            final(self)@ == old(self)@.unlinked(kind, id, text@),
    {
        proof {
            self@.lemma_unlinked(kind, id, text@);
        }
        let i = self.locate(id).unwrap();
        let n = self.node_mut(i);
        match kind {
            Kind::Tag => {
                n.tag_index.remove(text);
                self.tag_nodes.remove(&(text.clone(), id));
            },
            Kind::Mention => {
                n.mention_index.remove(text);
                self.mention_nodes.remove(&(text.clone(), id));
            },
        }
    }

    /// The texts indexed for a node, each once.
    pub(crate) fn indexed_texts(&self, kind: Kind, id: u32) -> (r: Vec<String>)
        requires
            self.inv(),
            self@.live(id),
        ensures
            r@.map_values(|s: String| s@).no_duplicates(),
            r@.map_values(|s: String| s@).to_set() == self@.nodes[id].reverse(kind),
    {
        let i = self.locate(id).unwrap();
        let node = self.nodes.value(i);
        let rows = match kind {
            Kind::Tag => &node.tag_index,
            Kind::Mention => &node.mention_index,
        };
        let mut r: Vec<String> = Vec::new();
        let mut j: usize = 0;
        while j < rows.len()
            invariant
                j <= rows.models().len(),
                r@.map_values(|s: String| s@) == rows.models().take(j as int),
            decreases rows.models().len() - j,
        {
            let text = copy_text(rows.row(j));
            let ghost before = r@;
            r.push(text);
            assert(r@.map_values(|s: String| s@) =~= before.map_values(|s: String| s@).push(text@));
            assert(rows.models().take(j + 1) =~= rows.models().take(j as int).push(text@));
            j += 1;
        }
        assert(rows.models().take(j as int) =~= rows.models());
        r
    }

    /// Whether an account has flagged a node.
    pub(crate) fn has_flag(&self, id: u32, actor: &String) -> (b: bool)
        requires
            self.inv(),
            self@.live(id),
        ensures
            b == self@.nodes[id].flags.contains_key(actor@),
    {
        let i = self.locate(id).unwrap();
        self.nodes.value(i).flags.contains_key(actor)
    }

    /// Puts an account's flag on a node.
    pub(crate) fn add_flag(&mut self, id: u32, actor: String, flag: FlagMetadata)
        requires
            old(self).wf(),
            old(self)@.live(id),
            !old(self)@.nodes[id].flags.contains_key(actor@),
            old(self)@.meta(id).n_flags < u8::MAX,
        ensures
            final(self).wf(),
            final(self)@ == old(self)@.flagged(id, actor@, flag),
    {
        proof {
            self@.lemma_flagged(id, actor@, flag);
        }
        let i = self.locate(id).unwrap();
        let n = self.node_mut(i);
        n.meta.n_flags = n.meta.n_flags + 1;
        n.flags.put(actor, flag);
    }

    /// Takes an account's flag off a node.
    pub(crate) fn remove_flag(&mut self, id: u32, actor: &String)
        requires
            old(self).wf(),
            old(self)@.live(id),
            old(self)@.nodes[id].flags.contains_key(actor@),
        ensures
            final(self).wf(),
            final(self)@ == old(self)@.unflagged(id, actor@),
    {
        proof {
            self@.lemma_unflagged(id, actor@);
        }
        let i = self.locate(id).unwrap();
        let n = self.node_mut(i);
        n.meta.n_flags = n.meta.n_flags - 1;
        n.flags.remove(actor);
    }

    /// Whether an account has saved a node.
    pub fn is_saved(&self, actor: &String, id: u32) -> (b: bool)
        requires
            self.inv(),
        ensures
            b == self@.saved.contains((actor@, id)),
    {
        self.saved.contains(&(actor.clone(), id))
    }

    /// Saves a node for an account; says whether it was not saved before.
    pub(crate) fn save(&mut self, actor: &String, id: u32) -> (fresh: bool)
        requires
            old(self).wf(),
        ensures
            final(self).wf(),
            final(self)@ == (Thread { saved: old(self)@.saved.insert((actor@, id)), ..old(self)@ }),
            fresh == !old(self)@.saved.contains((actor@, id)),
    {
        proof {
            self@.lemma_outside_nodes(
                Thread { saved: self@.saved.insert((actor@, id)), ..self@ },
            );
        }
        self.saved.insert((actor.clone(), id))
    }

    /// Takes a node off an account's saved list.
    pub(crate) fn unsave(&mut self, actor: &String, id: u32)
        requires
            old(self).wf(),
        ensures
            final(self).wf(),
            final(self)@ == (Thread { saved: old(self)@.saved.remove((actor@, id)), ..old(self)@ }),
    {
        proof {
            self@.lemma_outside_nodes(
                Thread { saved: self@.saved.remove((actor@, id)), ..self@ },
            );
        }
        self.saved.remove(&(actor.clone(), id));
    }

    /// Whether a kind of asset, given by its key, is accepted as a tip.
    pub fn is_tip_token(&self, key: &String) -> (b: bool)
        requires
            self.inv(),
        ensures
            b == self@.tip_lookup.contains(key@),
    {
        self.tip_lookup.contains(key)
    }

    /// What has been tipped of a kind of asset, if anything.
    pub fn tip_total(&self, key: &String) -> (r: Option<u128>)
        requires
            self.inv(),
        ensures
            match r {
                Some(t) => self@.tip_totals.contains_key(key@) && t == self@.tip_totals[key@],
                None => !self@.tip_totals.contains_key(key@),
            },
    {
        match self.tip_totals.get(key) {
            Some(t) => Some(*t),
            None => None,
        }
    }

    /// Sets what has been tipped of a kind of asset.
    pub(crate) fn set_tip_total(&mut self, key: String, total: u128)
        requires
            old(self).wf(),
        ensures
            final(self).wf(),
            final(self)@ == (Thread {
                tip_totals: old(self)@.tip_totals.insert(key@, total),
                ..old(self)@
            }),
    {
        proof {
            self@.lemma_outside_nodes(
                Thread { tip_totals: self@.tip_totals.insert(key@, total), ..self@ },
            );
        }
        self.tip_totals.put(key, total);
    }

    /// A copy of the kinds of asset accepted as tips.
    pub fn tip_tokens(&self) -> (r: Vec<Token>)
        ensures
            r@ == self@.tip_tokens,
    {
        copy_tokens(&self.tip_tokens)
    }

    /// Accepts the given kinds of asset as tips, and no other.
    pub(crate) fn set_tip_tokens(&mut self, tokens: Vec<Token>)
        requires
            old(self).wf(),
        ensures
            final(self).wf(),
            final(self)@ == old(self)@.with_tip_tokens(tokens@),
    {
        proof {
            self@.lemma_outside_nodes(self@.with_tip_tokens(tokens@));
        }
        let ghost keys = tokens@.map_values(|t: Token| t.key());
        let mut lookup: Table<String> = Table::new();
        let mut i: usize = 0;
        while i < tokens.len()
            invariant
                i <= tokens.len(),
                lookup.wf(),
                keys == tokens@.map_values(|t: Token| t.key()),
                lookup@ == keys.take(i as int).to_set(),
            decreases tokens.len() - i,
        {
            lookup.insert(tokens[i].get_key());
            proof {
                assert(keys.take(i + 1) =~= keys.take(i as int).push(keys[i as int]));
                keys.take(i as int).lemma_push_to_set_commute(keys[i as int]);
            }
            i += 1;
        }
        assert(keys.take(i as int) =~= keys);
        self.tip_tokens = tokens;
        self.tip_lookup = lookup;
    }

    /// A copy of the registry's record, once the registry took the thread up.
    pub fn table(&self) -> (r: Option<TableMetadata>)
        ensures
            r == self@.table,
    {
        match &self.table {
            Some(t) => Some(t.dup()),
            None => None,
        }
    }

    /// Records the registry that lists the thread.
    pub(crate) fn set_table(&mut self, table: TableMetadata)
        requires
            old(self).wf(),
        ensures
            final(self).wf(),
            final(self)@ == (Thread { table: Some(table), ..old(self)@ }),
    {
        proof {
            self@.lemma_outside_nodes(Thread { table: Some(table), ..self@ });
        }
        self.table = Some(table);
    }

    /// A copy of the thread's owner, if one is recorded.
    pub fn owner(&self) -> (r: Option<Owner>)
        ensures
            r == self@.owner,
    {
        match &self.owner {
            Some(o) => Some(o.dup()),
            None => None,
        }
    }

    /// Records the thread's owner.
    pub(crate) fn set_owner(&mut self, owner: Owner)
        requires
            old(self).wf(),
        ensures
            final(self).wf(),
            final(self)@ == (Thread { owner: Some(owner), ..old(self)@ }),
    {
        proof {
            self@.lemma_outside_nodes(Thread { owner: Some(owner), ..self@ });
        }
        self.owner = Some(owner);
    }

    /// The identifier issued last.
    pub fn counter(&self) -> (r: u32)
        ensures
            r == self@.counter,
    {
        self.counter
    }

    /// A copy of a node's title, if it has one.
    pub(crate) fn title(&self, id: u32) -> (r: Option<String>)
        requires
            self.inv(),
            self@.live(id),
        ensures
            r == self@.nodes[id].title,
    {
        let i = self.locate(id).unwrap();
        copy_opt_text(&self.nodes.value(i).title)
    }

    /// A copy of a node's body.
    pub(crate) fn body(&self, id: u32) -> (r: String)
        requires
            self.inv(),
            self@.live(id),
        ensures
            r@ == self@.nodes[id].body,
    {
        let i = self.locate(id).unwrap();
        copy_text(&self.nodes.value(i).body)
    }

    /// A copy of a node's sections.
    pub(crate) fn sections(&self, id: u32) -> (r: Vec<Section>)
        requires
            self.inv(),
            self@.live(id),
        ensures
            r@ == self@.nodes[id].sections,
    {
        let i = self.locate(id).unwrap();
        copy_sections(&self.nodes.value(i).sections)
    }

    /// A copy of a node's tags or mentions as they were given.
    pub(crate) fn given_texts(&self, kind: Kind, id: u32) -> (r: Vec<String>)
        requires
            self.inv(),
            self@.live(id),
        ensures
            r@ == match kind {
                Kind::Tag => self@.nodes[id].tags,
                Kind::Mention => self@.nodes[id].mentions,
            },
    {
        let i = self.locate(id).unwrap();
        match kind {
            Kind::Tag => copy_texts(&self.nodes.value(i).tags),
            Kind::Mention => copy_texts(&self.nodes.value(i).mentions),
        }
    }

    /// Keeps a node's tags and mentions as they were given.
    pub(crate) fn set_given_texts(&mut self, id: u32, tags: Vec<String>, mentions: Vec<String>)
        requires
            old(self).wf(),
            old(self)@.live(id),
        ensures
            final(self).wf(),
            final(self)@ == old(self)@.with_node(
                id,
                NodeState { tags: tags@, mentions: mentions@, ..old(self)@.nodes[id] },
            ),
    {
        proof {
            assert(self@.node_local(id));
            self@.lemma_with_node_content(
                id,
                NodeState { tags: tags@, mentions: mentions@, ..self@.nodes[id] },
            );
        }
        let i = self.locate(id).unwrap();
        let n = self.node_mut(i);
        n.tags = tags;
        n.mentions = mentions;
    }

    /// Replaces a node's body.
    pub(crate) fn set_body(&mut self, id: u32, body: String)
        requires
            old(self).wf(),
            old(self)@.live(id),
        ensures
            final(self).wf(),
            final(self)@ == old(self)@.with_node(
                id,
                NodeState { body: body@, ..old(self)@.nodes[id] },
            ),
    {
        proof {
            assert(self@.node_local(id));
            self@.lemma_with_node_content(id, NodeState { body: body@, ..self@.nodes[id] });
        }
        let i = self.locate(id).unwrap();
        let n = self.node_mut(i);
        n.body = body;
    }

    /// Replaces a node's title.
    pub(crate) fn set_title(&mut self, id: u32, title: String)
        requires
            old(self).wf(),
            old(self)@.live(id),
        ensures
            final(self).wf(),
            final(self)@ == old(self)@.with_node(
                id,
                NodeState { title: Some(title), ..old(self)@.nodes[id] },
            ),
    {
        proof {
            assert(self@.node_local(id));
            self@.lemma_with_node_content(id, NodeState { title: Some(title), ..self@.nodes[id] });
        }
        let i = self.locate(id).unwrap();
        let n = self.node_mut(i);
        n.title = Some(title);
    }

    /// Replaces a node's sections, and counts them.
    pub(crate) fn set_sections(&mut self, id: u32, sections: Vec<Section>)
        requires
            old(self).wf(),
            old(self)@.live(id),
            sections@.len() <= u8::MAX,
        ensures
            final(self).wf(),
            final(self)@ == old(self)@.with_node(
                id,
                NodeState {
                    meta: NodeMetadata {
                        n_sections: sections@.len() as u8,
                        ..old(self)@.meta(id)
                    },
                    sections: sections@,
                    ..old(self)@.nodes[id]
                },
            ),
    {
        proof {
            assert(self@.node_local(id));
            self@.lemma_with_node_content(
                id,
                NodeState {
                    meta: NodeMetadata { n_sections: sections@.len() as u8, ..self@.meta(id) },
                    sections: sections@,
                    ..self@.nodes[id]
                },
            );
        }
        let i = self.locate(id).unwrap();
        let n = self.node_mut(i);
        n.meta.n_sections = sections.len() as u8;
        n.sections = sections;
    }

    /// Records when a node was last changed.
    pub(crate) fn set_updated_at(&mut self, id: u32, now: u64)
        requires
            old(self).wf(),
            old(self)@.live(id),
        ensures
            final(self).wf(),
            final(self)@ == old(self)@.with_node(
                id,
                NodeState {
                    meta: NodeMetadata { updated_at: Some(now), ..old(self)@.meta(id) },
                    ..old(self)@.nodes[id]
                },
            ),
    {
        proof {
            assert(self@.node_local(id));
            self@.lemma_with_node_content(
                id,
                NodeState {
                    meta: NodeMetadata { updated_at: Some(now), ..self@.meta(id) },
                    ..self@.nodes[id]
                },
            );
        }
        let i = self.locate(id).unwrap();
        let n = self.node_mut(i);
        n.meta.updated_at = Some(now);
    }

    /// Records another account as the one that created a node.
    pub(crate) fn set_created_by(&mut self, id: u32, creator: String)
        requires
            old(self).wf(),
            old(self)@.live(id),
        ensures
            final(self).wf(),
            final(self)@ == old(self)@.with_node(
                id,
                NodeState {
                    meta: NodeMetadata { created_by: creator, ..old(self)@.meta(id) },
                    ..old(self)@.nodes[id]
                },
            ),
    {
        proof {
            assert(self@.node_local(id));
            self@.lemma_with_node_content(
                id,
                NodeState {
                    meta: NodeMetadata { created_by: creator, ..self@.meta(id) },
                    ..self@.nodes[id]
                },
            );
        }
        let i = self.locate(id).unwrap();
        let n = self.node_mut(i);
        n.meta.created_by = creator;
    }
}

/// The rank and identifier in a row of the rank index.
spec fn rank_key(row: (u32, i32, u32)) -> (i32, u32) {
    (row.1, row.2)
}

/// The reply `k` is the one found, or stands before it in the order of the
/// rank index.
spec fn at_most(k: (i32, u32), found: Option<(i32, u32)>) -> bool {
    found is Some && (k == found->Some_0 || ranks_before(k, found->Some_0))
}

/// Takes out of a forward index every row of one node, finding them by the
/// texts that the node's side of the index holds.
fn purge_rows(index: &mut Table<(String, u32)>, texts: &Table<String>, id: u32)
    requires
        old(index).wf(),
        forall|k: (Seq<char>, u32)| #[trigger]
            old(index)@.contains(k) && k.1 == id ==> texts@.contains(k.0),
    ensures
        final(index).wf(),
        final(index)@ == old(index)@.filter(|k: (Seq<char>, u32)| k.1 != id),
{
    let ghost start = index@;
    let mut j: usize = 0;
    while j < texts.len()
        invariant
            j <= texts.models().len(),
            index.wf(),
            index@ == start.filter(
                |k: (Seq<char>, u32)| !(k.1 == id && texts.models().take(j as int).contains(k.0)),
            ),
        decreases texts.models().len() - j,
    {
        let key = (copy_text(texts.row(j)), id);
        let ghost before = index@;
        index.remove(&key);
        proof {
            let done = texts.models().take(j as int);
            let more = texts.models().take(j + 1);
            assert(more =~= done.push(texts.models()[j as int]));
            assert forall|x: Seq<char>| more.contains(x) <==> done.contains(x) || x
                == texts.models()[j as int] by {
                if done.contains(x) {
                    let m = choose|m: int| 0 <= m < done.len() && done[m] == x;
                    assert(more[m] == x);
                }
                if x == texts.models()[j as int] {
                    assert(more[j as int] == x);
                }
            }
            assert(index@ =~= start.filter(
                |k: (Seq<char>, u32)| !(k.1 == id && more.contains(k.0)),
            ));
        }
        j += 1;
    }
    proof {
        assert(texts.models().take(j as int) =~= texts.models());
        assert(index@ =~= start.filter(|k: (Seq<char>, u32)| k.1 != id));
    }
}

impl Storage {
    /// How many nodes exist.
    pub fn node_count(&self) -> (n: usize)
        requires
            self.inv(),
        ensures
            self@.nodes.dom().finite(),
            n == self@.nodes.dom().len(),
    {
        proof {
            self.nodes.lemma_len();
            assert(self@.nodes.dom() =~= self.nodes@.dom());
        }
        self.nodes.len()
    }

    /// The replies to a node, each once.
    pub(crate) fn children_of(&self, id: u32) -> (r: Vec<u32>)
        requires
            self.inv(),
            self@.live(id),
        ensures
            r@.no_duplicates(),
            r@.to_set() == self@.nodes[id].children,
    {
        let i = self.locate(id).unwrap();
        let rows = &self.nodes.value(i).children;
        let mut r: Vec<u32> = Vec::new();
        let mut j: usize = 0;
        while j < rows.len()
            invariant
                j <= rows.models().len(),
                r@ == rows.models().take(j as int),
            decreases rows.models().len() - j,
        {
            r.push(*rows.row(j));
            assert(r@ =~= rows.models().take(j + 1));
            j += 1;
        }
        assert(rows.models().take(j as int) =~= rows.models());
        r
    }

    /// Takes one node out: its record with all that is kept under it, its
    /// place on its parent's list of replies, its entry in the rank index,
    /// and its rows in the text indexes. The parent's count of replies stays
    /// as it is.
    pub(crate) fn remove_node(&mut self, id: u32)
        requires
            old(self).inv(),
            old(self)@.indexes_sound(),
            old(self)@.children_sound(),
            old(self)@.live(id),
        ensures
            final(self).inv(),
            final(self)@.indexes_sound(),
            final(self)@.children_sound(),
            final(self)@ == old(self)@.without_node(id),
    {
        let ghost before = self@;
        let ghost gone = set![id];
        proof {
            before.lemma_without_nodes_sound(gone);
            before.lemma_without_nodes_listed(gone);
            assert(before.nodes[id].tag_index == self.nodes@[id].tag_index@);
        }
        let node = self.nodes.remove(&id).unwrap();
        let ghost lifted = self@;
        assert(lifted.nodes =~= before.nodes.remove(id));
        if let Some(p) = node.meta.parent_id {
            self.ranked.remove(&(p, node.meta.rank, id));
            if let Some(i) = self.locate(p) {
                let parent = self.node_mut(i);
                parent.children.remove(&id);
            }
        }
        proof {
            assert forall|n: u32| #[trigger] before.live(n) && n != id implies self@.live(n)
                && self@.nodes[n] == unlisting(before.nodes[n], gone) by {
                if node.meta.parent_id == Some(n) {
                    assert(before.nodes[n].children.difference(gone)
                        =~= before.nodes[n].children.remove(id));
                } else {
                    assert(!before.nodes[n].children.contains(id));
                    assert(before.nodes[n].children.difference(gone) =~= before.nodes[n].children);
                }
            }
            assert(self@.nodes =~= before.without_node(id).nodes);
            assert(self.ranked@ =~= before.ranked.filter(|k: (u32, i32, u32)| !gone.contains(k.2))) by {
                assert forall|k: (u32, i32, u32)| before.ranked.contains(k) && k.2
                    == id implies node.meta.parent_id == Some(k.0) && node.meta.rank == k.1 by {
                    assert(before.live(k.2));
                }
            }
            assert forall|k: (Seq<char>, u32)| #[trigger]
                self.tag_nodes@.contains(k) && k.1 == id implies node.tag_index@.contains(k.0) by {
                assert(before.tag_nodes.contains(k));
            }
            assert forall|k: (Seq<char>, u32)| #[trigger]
                self.mention_nodes@.contains(k) && k.1 == id implies node.mention_index@.contains(
                k.0,
            ) by {
                assert(before.mention_nodes.contains(k));
            }
        }
        purge_rows(&mut self.tag_nodes, &node.tag_index, id);
        purge_rows(&mut self.mention_nodes, &node.mention_index, id);
        proof {
            assert(self.tag_nodes@ =~= before.tag_nodes.filter(
                |k: (Seq<char>, u32)| !gone.contains(k.1),
            ));
            assert(self.mention_nodes@ =~= before.mention_nodes.filter(
                |k: (Seq<char>, u32)| !gone.contains(k.1),
            ));
        }
    }

    /// Counts one reply less for a node.
    pub(crate) fn count_less(&mut self, parent: u32)
        requires
            old(self).inv(),
            old(self)@.live(parent),
            old(self)@.meta(parent).n_replies >= 1,
        ensures
            final(self).inv(),
            final(self)@ == old(self)@.counting_less(parent),
    {
        let i = self.locate(parent).unwrap();
        let p = self.node_mut(i);
        p.meta.n_replies = p.meta.n_replies - 1;
    }

    /// How many rows and single values the store holds.
    pub closed spec fn size(&self) -> nat {
        self.nodes.key_models().len() + self.ranked.models().len() + self.tag_nodes.models().len()
            + self.mention_nodes.models().len() + self.saved.models().len()
            + self.tip_lookup.models().len() + self.tip_totals.key_models().len()
            + self.tip_tokens@.len() + (if self.owner is Some {
            1nat
        } else {
            0nat
        }) + (if self.table is Some {
            1nat
        } else {
            0nat
        }) + (if self.counter != 0 {
            1nat
        } else {
            0nat
        })
    }

    /// Takes out of the store up to `limit` of the rows and single values
    /// that it holds, and says how many were taken. Fewer than `limit` are
    /// taken only where nothing is left. What is left need not be a
    /// well-formed thread before nothing is left.
    pub(crate) fn remove_batch(&mut self, limit: usize) -> (n: usize)
        requires
            old(self).inv(),
        ensures
            final(self).inv(),
            n <= limit,
            final(self).size() == old(self).size() - n,
            n < limit ==> final(self).size() == 0,
            final(self).size() == 0 ==> final(self)@ == Thread::empty(),
    {
        let mut n: usize = 0;
        let mut done = false;
        while n < limit && !done
            invariant
                self.inv(),
                n <= limit,
                self.size() == old(self).size() - n,
                done ==> self.size() == 0,
            decreases limit - n + (if done { 0int } else { 1int }),
        {
            if self.ranked.pop().is_some() {
                n += 1;
            } else if self.tag_nodes.pop().is_some() {
                n += 1;
            } else if self.mention_nodes.pop().is_some() {
                n += 1;
            } else if self.saved.pop().is_some() {
                n += 1;
            } else if self.tip_lookup.pop().is_some() {
                n += 1;
            } else if self.tip_totals.pop().is_some() {
                n += 1;
            } else if self.tip_tokens.pop().is_some() {
                n += 1;
            } else {
                let ghost held = self.nodes@;
                if self.nodes.pop().is_some() {
                    proof {
                        assert forall|id: u32| #[trigger]
                            self.nodes@.contains_key(id) implies self.nodes@[id].inv() by {
                            assert(held.contains_key(id));
                        }
                    }
                    n += 1;
                } else if self.owner.is_some() {
                    self.owner = None;
                    n += 1;
                } else if self.table.is_some() {
                    self.table = None;
                    n += 1;
                } else if self.counter != 0 {
                    self.counter = 0;
                    n += 1;
                } else {
                    done = true;
                }
            }
        }
        proof {
            if self.size() == 0 {
                self.nodes.lemma_none();
                self.ranked.lemma_none();
                self.tag_nodes.lemma_none();
                self.mention_nodes.lemma_none();
                self.saved.lemma_none();
                self.tip_lookup.lemma_none();
                self.tip_totals.lemma_none();
                assert(self@.nodes =~= Map::empty());
                assert(self@.tip_tokens =~= Seq::empty());
            }
        }
        n
    }

    /// The last reply to `parent` in the order of the rank index, among
    /// those before the bound if there is one.
    pub(crate) fn top_child_below(&self, parent: u32, bound: Option<(i32, u32)>) -> (r: Option<(i32, u32)>)
        requires
            self.inv(),
        ensures
            match r {
                Some(k) => self@.is_top_child(parent, k, bound),
                None => forall|j: (i32, u32)| !self@.child_at(parent, j, bound),
            },
    {
        let ghost rows = self.ranked.models();
        let mut best: Option<(i32, u32)> = None;
        let mut i: usize = 0;
        while i < self.ranked.len()
            invariant
                rows == self.ranked.models(),
                i <= rows.len(),
                best is Some ==> self@.child_at(parent, best->Some_0, bound),
                forall|m: int|
                    0 <= m < i && (#[trigger] rows[m]).0 == parent && self@.child_at(
                        parent,
                        rank_key(rows[m]),
                        bound,
                    ) ==> at_most(rank_key(rows[m]), best),
            decreases rows.len() - i,
        {
            let row = self.ranked.row(i);
            let k = (row.1, row.2);
            assert(rows.contains(rows[i as int]));
            let in_bound = match bound {
                Some(b) => k.0 < b.0 || (k.0 == b.0 && k.1 < b.1),
                None => true,
            };
            if row.0 == parent && in_bound {
                let better = match best {
                    Some(b) => b.0 < k.0 || (b.0 == k.0 && b.1 < k.1),
                    None => true,
                };
                if better {
                    best = Some(k);
                }
            }
            i += 1;
        }
        proof {
            assert forall|j: (i32, u32)| #[trigger] self@.child_at(parent, j, bound) implies at_most(
                j,
                best,
            ) by {
                assert(rows.contains((parent, j.0, j.1)));
                let m = choose|m: int| 0 <= m < rows.len() && rows[m] == (parent, j.0, j.1);
                assert(rows[m].0 == parent);
            }
        }
        best
    }

    /// The greatest node indexed under a text, among those below the bound
    /// if there is one.
    pub(crate) fn top_tagged_below(&self, kind: Kind, text: &String, bound: Option<u32>) -> (r: Option<u32>)
        requires
            self.inv(),
        ensures
            match r {
                Some(n) => self@.is_top_tagged(kind, text@, n, bound),
                None => forall|j: u32| !self@.tagged_at(kind, text@, j, bound),
            },
    {
        let index = match kind {
            Kind::Tag => &self.tag_nodes,
            Kind::Mention => &self.mention_nodes,
        };
        assert(index@ == self@.forward(kind));
        let mut best: Option<u32> = None;
        let mut i: usize = 0;
        while i < index.len()
            invariant
                i <= index.models().len(),
                index@ == self@.forward(kind),
                match best {
                    Some(n) => self@.tagged_at(kind, text@, n, bound),
                    None => true,
                },
                forall|m: int|
                    0 <= m < i && (#[trigger] index.models()[m]).0 == text@ && self@.tagged_at(
                        kind,
                        text@,
                        index.models()[m].1,
                        bound,
                    ) ==> best is Some && index.models()[m].1 <= best->Some_0,
            decreases index.models().len() - i,
        {
            let row = index.row(i);
            assert(index.models().contains(index.models()[i as int]));
            let in_bound = match bound {
                Some(b) => row.1 < b,
                None => true,
            };
            if row.0 == *text && in_bound {
                let better = match best {
                    Some(b) => b < row.1,
                    None => true,
                };
                if better {
                    best = Some(row.1);
                }
            }
            i += 1;
        }
        proof {
            assert forall|j: u32| #[trigger] self@.tagged_at(kind, text@, j, bound) implies best
                is Some && j <= best->Some_0 by {
                assert(index.models().contains((text@, j)));
                let m = choose|m: int| 0 <= m < index.models().len() && index.models()[m] == (
                    text@,
                    j,
                );
                assert(index.models()[m].0 == text@);
            }
        }
        best
    }
}


} // verus!
