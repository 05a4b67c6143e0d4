//! What queries show of the thread.

use vstd::prelude::*;

use crate::error::{missing, ContractError};
use crate::msg::Sentiment;
use crate::state::models::{NodeMetadata, Section, Token};
use crate::state::storage::Storage;
use crate::state::thread::{Kind, Thread};
use crate::validation::texts;

verus! {

/// What one account has done with a node.
#[derive(Debug, Clone, Copy, PartialEq, Eq)]
pub struct NodeAccountView {
    pub sentiment: Option<Sentiment>,
    pub saved: bool,
}

/// A node as a query shows it.
#[derive(Debug, Clone, PartialEq, Eq)]
pub struct NodeView {
    pub metadata: NodeMetadata,
    pub title: Option<String>,
    pub body: String,
    pub sections: Vec<Section>,
    pub account: Option<NodeAccountView>,
    pub tags: Vec<String>,
    pub mentions: Vec<String>,
}

/// What an account, if one asks, has done with a node: its vote and
/// whether it has saved the node.
pub open spec fn account_view(thread: Thread, id: u32, account: Option<String>) -> Option<
    NodeAccountView,
> {
    match account {
        Some(addr) => Some(
            NodeAccountView {
                sentiment: thread.vote_of(id, addr@),
                saved: thread.saved.contains((addr@, id)),
            },
        ),
        None => None,
    }
}

impl NodeView {
    /// The view shows the node as the thread holds it.
    pub open spec fn shows(self, thread: Thread, id: u32, account: Option<String>) -> bool {
        &&& self.metadata == thread.meta(id)
        &&& self.title == thread.nodes[id].title
        &&& self.body@ == thread.nodes[id].body
        &&& self.sections@ == thread.nodes[id].sections
        &&& self.tags@ == thread.nodes[id].tags
        &&& self.mentions@ == thread.nodes[id].mentions
        &&& self.account == account_view(thread, id, account)
    }

    /// Loads the view of a node, with what the account, if one asks, has
    /// done with it.
    pub fn load(store: &Storage, id: u32, account_addr: &Option<String>) -> (r: Result<
        NodeView,
        ContractError,
    >)
        requires
            store.inv(),
        ensures
            match r {
                Ok(view) => store@.live(id) && view.shows(store@, id, *account_addr),
                Err(e) => !store@.live(id) && e@ == missing(id),
            },
    {
        let metadata = match store.metadata(id) {
            Some(m) => m,
            None => {
                return Err(ContractError::NodeNotFound { node_id: id });
            },
        };
        let body = store.body(id);
        let mentions = store.given_texts(Kind::Mention, id);
        let tags = store.given_texts(Kind::Tag, id);
        let title = store.title(id);
        let sections = store.sections(id);
        let account = match account_addr {
            None => None,
            Some(addr) => Some(
                NodeAccountView {
                    saved: store.is_saved(addr, id),
                    sentiment: store.vote_of(id, addr),
                },
            ),
        };
        Ok(NodeView { metadata, title, body, mentions, tags, sections, account })
    }
}

/// The thread's configuration as a query shows it.
#[derive(Debug, Clone, PartialEq, Eq)]
pub struct ConfigView {
    pub tip_tokens: Vec<Token>,
}

impl ConfigView {
    /// Loads the thread's configuration.
    pub fn load(store: &Storage) -> (r: Result<Self, ContractError>)
        ensures
            r is Ok,
            r->Ok_0.tip_tokens@ == store@.tip_tokens,
    {
        Ok(Self { tip_tokens: store.tip_tokens() })
    }
}

/// The texts list, each once, what one side of a text index holds for a
/// node; for a node that does not exist they are none.
pub open spec fn lists_indexed(list: Seq<String>, thread: Thread, kind: Kind, node_id: u32) -> bool {
    if thread.live(node_id) {
        texts(list).no_duplicates() && texts(list).to_set() == thread.nodes[node_id].reverse(kind)
    } else {
        list.len() == 0
    }
}

/// The tags under which a node is indexed.
pub fn load_tags(store: &Storage, node_id: u32) -> (r: Result<Vec<String>, ContractError>)
    requires
        store.inv(),
    ensures
        r is Ok,
        lists_indexed(r->Ok_0@, store@, Kind::Tag, node_id),
{
    if store.has_node(node_id) {
        Ok(store.indexed_texts(Kind::Tag, node_id))
    } else {
        Ok(Vec::new())
    }
}

/// The accounts under which a node is indexed as mentioning them.
pub fn load_mentions(store: &Storage, node_id: u32) -> (r: Result<Vec<String>, ContractError>)
    requires
        store.inv(),
    ensures
        r is Ok,
        lists_indexed(r->Ok_0@, store@, Kind::Mention, node_id),
{
    if store.has_node(node_id) {
        Ok(store.indexed_texts(Kind::Mention, node_id))
    } else {
        Ok(Vec::new())
    }
}

} // verus!
