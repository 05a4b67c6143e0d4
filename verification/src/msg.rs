//! The messages that ask the thread for an operation or a query.

use vstd::prelude::*;

use crate::state::models::{Owner, Section, TableMetadata, Token, TokenAmount, DOWN, UP};
use crate::state::views::{ConfigView, NodeView};

verus! {

/// A vote on a node.
#[derive(Debug, Clone, Copy, PartialEq, Eq, Structural)]
pub enum Sentiment {
    Up,
    Down,
}

impl Sentiment {
    /// The vote that a stored number stands for, if any.
    pub open spec fn of(n: u8) -> Option<Sentiment> {
        if n == UP {
            Some(Sentiment::Up)
        } else if n == DOWN {
            Some(Sentiment::Down)
        } else {
            None
        }
    }

    /// The number under which a vote is stored.
    pub open spec fn number(self) -> u8 {
        match self {
            Sentiment::Up => UP,
            Sentiment::Down => DOWN,
        }
    }

    /// The vote that a stored number stands for, if any.
    pub fn from_u8(u8_sentiment: u8) -> (r: Option<Self>)
        ensures
            r == Sentiment::of(u8_sentiment),
    {
        if u8_sentiment == UP {
            Some(Self::Up)
        } else if u8_sentiment == DOWN {
            Some(Self::Down)
        } else {
            None
        }
    }

    /// The number under which the vote is stored.
    pub fn to_u8(&self) -> (n: u8)
        ensures
            n == self.number(),
            Sentiment::of(n) == Some(*self),
    {
        match self {
            Sentiment::Up => UP,
            Sentiment::Down => DOWN,
        }
    }
}

/// The vote that an account holds after it asked for `new` while holding
/// `old`: asking again for the vote held withdraws it.
pub open spec fn next_vote(old: Option<Sentiment>, new: Sentiment) -> Option<Sentiment> {
    if old == Some(new) {
        None
    } else {
        Some(new)
    }
}

/// What a request for `new` adds to a node's rank when the account held
/// `old`: one for a first vote, two for a change of side, and the inverse of
/// the vote held when it is withdrawn.
pub open spec fn rank_delta(old: Option<Sentiment>, new: Sentiment) -> int {
    match (old, new) {
        (None, Sentiment::Up) => 1,
        (None, Sentiment::Down) => -1,
        (Some(Sentiment::Up), Sentiment::Up) => -1,
        (Some(Sentiment::Down), Sentiment::Down) => 1,
        (Some(Sentiment::Up), Sentiment::Down) => -2,
        (Some(Sentiment::Down), Sentiment::Up) => 2,
    }
}

/// What is given when the thread is made.
#[derive(Debug, Clone, PartialEq, Eq)]
pub struct InstantiateMsg {
    pub body: Option<String>,
    pub title: Option<String>,
    pub tags: Option<Vec<String>>,
    pub mentions: Option<Vec<String>>,
    pub sections: Option<Vec<Section>>,
    pub owner: Option<Owner>,
    pub config: ConfigView,
}

/// A reply to a node.
#[derive(Debug, Clone, PartialEq, Eq)]
pub struct NodeReplyMsg {
    pub body: String,
    pub tags: Option<Vec<String>>,
    pub mentions: Option<Vec<String>>,
    pub parent_id: u32,
    pub sections: Option<Vec<Section>>,
}

/// New content for a node. What is absent is not given.
#[derive(Debug, Clone, PartialEq, Eq)]
pub struct NodeEditMsg {
    pub id: u32,
    pub title: Option<String>,
    pub body: Option<String>,
    pub sections: Option<Vec<Section>>,
    pub tags: Option<Vec<String>>,
    pub mentions: Option<Vec<String>>,
}

/// A vote on a node.
#[derive(Debug, Clone, Copy, PartialEq, Eq)]
pub struct NodeVoteMsg {
    pub id: u32,
    pub sentiment: Sentiment,
}

/// A change of the thread's configuration.
#[derive(Debug, Clone, PartialEq, Eq)]
pub struct ConfigUpdateMsg {
    pub tip_tokens: Option<Vec<Token>>,
}

/// What the registry tells the thread when it takes it up.
#[derive(Debug, Clone, PartialEq, Eq)]
pub struct LifecycleSetupArgs {
    pub initiator: String,
    pub id: String,
}

/// What the registry tells the thread with its other hooks.
#[derive(Debug, Clone, PartialEq, Eq)]
pub struct LifecycleArgs {
    pub initiator: String,
}

/// The hooks of the registry.
#[derive(Debug, Clone, PartialEq, Eq)]
pub enum LifecycleExecuteMsg {
    Setup(LifecycleSetupArgs),
    Teardown(LifecycleArgs),
    Suspend(LifecycleArgs),
    Resume(LifecycleArgs),
}

/// The operations that can be asked of the thread.
#[derive(Debug, Clone, PartialEq, Eq)]
pub enum ExecuteMsg {
    Lifecycle(LifecycleExecuteMsg),
    SetConfig(ConfigUpdateMsg),
    Reply(NodeReplyMsg),
    Save(Vec<u32>),
    Unsave(Vec<u32>),
    Vote(NodeVoteMsg),
    VoteMany(Vec<NodeVoteMsg>),
    Edit(NodeEditMsg),
    Delete { id: u32 },
    Flag { id: u32, reason: Option<String> },
    Unflag { id: u32 },
    Tip(TokenAmount),
}

/// The queries for nodes.
#[allow(inconsistent_fields)]
#[derive(Debug, Clone, PartialEq, Eq)]
pub enum NodesQueryMsg {
    ByIds { ids: Vec<u32>, sender: Option<String> },
    Children { id: u32, cursor: Option<(u32, i32, u32)>, sender: Option<String>, limit: Option<u8> },
    Ancestors { id: u32, levels: Option<u8>, sender: Option<String> },
    WithTag { tag: String, cursor: Option<u32>, sender: Option<String> },
    WithMention { mention: String, cursor: Option<u32>, sender: Option<String> },
}

/// The queries that can be asked of the thread.
#[derive(Debug, Clone, PartialEq, Eq)]
pub enum QueryMsg {
    Thread { sender: Option<String> },
    Nodes(NodesQueryMsg),
}

/// What comes with the move to another version: nothing.
#[derive(Debug, Clone, Copy, PartialEq, Eq)]
pub struct MigrateMsg {}

/// The answer to the query for the configuration.
#[derive(Debug, Clone, PartialEq, Eq)]
pub struct ConfigResponse(pub ConfigView);

/// The answer to a query.
#[derive(Debug, Clone, PartialEq, Eq)]
pub enum QueryResponse {
    Thread(ThreadInfoResponse),
    Nodes(Vec<NodeView>),
    Replies(NodeViewRepliesPaginationResponse),
    Tagged(NodeViewByTagPaginationResponse),
}

/// The thread as a whole, as a query shows it.
#[derive(Debug, Clone, PartialEq, Eq)]
pub struct ThreadInfoResponse {
    pub table: Option<TableMetadata>,
    pub config: ConfigView,
    pub owner: Owner,
    pub root: NodeView,
    pub n_total_replies: u32,
    pub tips: Vec<TokenAmount>,
}

/// One page of the replies to a node, and where the next page begins.
#[derive(Debug, Clone, PartialEq, Eq)]
pub struct NodeViewRepliesPaginationResponse {
    pub nodes: Vec<NodeView>,
    pub cursor: Option<(u32, i32, u32)>,
}

/// One page of the nodes under a tag or a mention, and where the next page
/// begins.
#[derive(Debug, Clone, PartialEq, Eq)]
pub struct NodeViewByTagPaginationResponse {
    pub nodes: Vec<NodeView>,
    pub cursor: Option<u32>,
}

} // verus!
