//! The operations that change the thread.

use vstd::prelude::*;

use crate::error::{ContractError, Fault};
use crate::state::models::{Coin, TableMetadata};
use crate::state::thread::Thread;

pub mod delete_node;
pub mod edit_node;
pub mod flags;
pub mod lifecycle;
pub mod reply;
pub mod set_config;
pub mod tip;
pub mod toggle_save;
pub mod vote;

verus! {

/// What the host tells of the block in which a message runs.
#[derive(Debug, Clone, PartialEq, Eq)]
pub struct Env {
    /// The block's time, in nanoseconds since the epoch.
    pub time: u64,
    /// The account of the thread itself.
    pub contract_address: String,
}

/// Who sent a message, and what came with it.
#[derive(Debug, Clone, PartialEq, Eq)]
pub struct MessageInfo {
    pub sender: String,
    pub funds: Vec<Coin>,
}

/// Under what an operation runs.
#[derive(Debug, Clone, PartialEq, Eq)]
pub struct Context {
    pub env: Env,
    pub info: MessageInfo,
    /// The answer of the access-control service for the sender, where such
    /// a service owns the thread and was asked.
    pub acl_allows: bool,
}

/// What an operation asks of the thread's collaborators.
#[allow(inconsistent_fields)]
#[derive(Debug, Clone, PartialEq, Eq)]
pub enum Message {
    /// Tells the registry of activity in the thread, and of the thread's
    /// rank where that has changed.
    TableUpdate { table: String, initiator: String, rank: Option<i32> },
    /// Tells the registry which nodes an account has saved (`add`) or no
    /// longer saves, each by the name of its relationship to the account.
    TableRelate { table: String, initiator: String, add: bool, names: Vec<String> },
    /// Tells the registry what has been tipped of a kind of asset, under
    /// the name that the kind is indexed by.
    TableTip { table: String, initiator: String, name: String, total: u128 },
    /// Gives the thread to the registry: who made it, its rank, its count
    /// of activity, and the accounts mentioned and the tags of its first
    /// node.
    TableSetup {
        table: String,
        initiator: String,
        creator: String,
        rank: i32,
        activity: u32,
        tags: Vec<String>,
    },
    /// Takes the thread out of the registry.
    TableDelete { table: String },
    /// Sends an amount of a native denomination.
    Send { to: String, denom: String, amount: u128 },
    /// Has the contract of a ledger asset run a message, given as bytes.
    Execute { contract: String, payload: Vec<u8> },
}

/// A key and a value that an operation tells of itself.
#[derive(Debug, Clone, PartialEq, Eq)]
pub struct Attribute {
    pub key: String,
    pub value: String,
}

/// Makes an attribute.
pub fn attr(key: &str, value: &str) -> (a: Attribute)
    ensures
        a.key@ == key@,
        a.value@ == value@,
{
    Attribute { key: key.to_owned(), value: value.to_owned() }
}

/// What an operation hands back.
#[derive(Debug, Clone, PartialEq, Eq)]
pub struct Response {
    /// What the operation tells of itself, in order.
    pub attributes: Vec<Attribute>,
    /// What is asked of the collaborators, in order.
    pub messages: Vec<Message>,
    /// The node that the operation created, if it created one.
    pub node_id: Option<u32>,
}

/// The keys and values of a response's attributes, in order.
pub open spec fn labels(resp: Response) -> Seq<(Seq<char>, Seq<char>)> {
    resp.attributes@.map_values(|a: Attribute| (a.key@, a.value@))
}

/// The attribute that names an action.
pub open spec fn action(name: Seq<char>) -> Seq<(Seq<char>, Seq<char>)> {
    seq![("action"@, name)]
}

impl Response {
    /// A response that says nothing.
    pub fn new() -> (r: Response)
        ensures
            r.attributes@ == Seq::<Attribute>::empty(),
            labels(r) == Seq::<(Seq<char>, Seq<char>)>::empty(),
            r.messages@ == Seq::<Message>::empty(),
            r.node_id is None,
    {
        let r = Response { attributes: Vec::new(), messages: Vec::new(), node_id: None };
        assert(labels(r) =~= Seq::<(Seq<char>, Seq<char>)>::empty());
        r
    }

    /// A response that names the action, and says nothing else.
    pub fn of(name: &str) -> (r: Response)
        ensures
            silent(r, name@),
    {
        let mut r = Response::new();
        r.add_attribute("action", name);
        r
    }

    /// Adds an attribute after those that the response holds.
    pub fn add_attribute(&mut self, key: &str, value: &str)
        ensures
            labels(*final(self)) == labels(*old(self)).push((key@, value@)),
            final(self).messages == old(self).messages,
            final(self).node_id == old(self).node_id,
    {
        self.attributes.push(attr(key, value));
        assert(labels(*self) =~= labels(*old(self)).push((key@, value@)));
    }
}

/// How an operation ends: where there is a fault, with that fault as its
/// error and with nothing changed; otherwise well, and with what it is to
/// have done.
pub open spec fn ended(
    fault: Option<Fault>,
    done: bool,
    r: Result<Response, ContractError>,
    before: Thread,
    after: Thread,
) -> bool {
    match fault {
        Some(f) => r is Err && r->Err_0@ == f && after == before,
        None => r is Ok && done,
    }
}

/// The response names the action, asks nothing of the collaborators and
/// names no new node.
pub open spec fn silent(resp: Response, name: Seq<char>) -> bool {
    &&& labels(resp) == action(name)
    &&& resp.node_id is None
    &&& resp.messages@ == Seq::<Message>::empty()
}

/// The message that tells the registry of activity, where a registry lists
/// the thread.
pub open spec fn activity_notice(table: Option<TableMetadata>, initiator: String, rank: Option<i32>) -> Seq<
    Message,
> {
    match table {
        Some(t) => seq![Message::TableUpdate { table: t.address, initiator, rank }],
        None => Seq::empty(),
    }
}

/// Tells the registry of activity, where a registry lists the thread.
pub fn notify_activity(resp: &mut Response, table: &Option<TableMetadata>, initiator: &String, rank: Option<i32>)
    ensures
        final(resp).attributes == old(resp).attributes,
        final(resp).node_id == old(resp).node_id,
        final(resp).messages@ == old(resp).messages@ + activity_notice(*table, *initiator, rank),
{
    if let Some(t) = table {
        resp.messages.push(
            Message::TableUpdate { table: t.address.clone(), initiator: initiator.clone(), rank },
        );
    }
}

} // verus!
