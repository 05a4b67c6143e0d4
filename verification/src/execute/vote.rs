//! Voting: an account's sentiment on a node, and the node's rank.

use vstd::prelude::*;

use crate::error::{missing, overflow, ContractError, Fault};
use crate::execute::{
    action, activity_notice, ended, labels, notify_activity, Context, Message, Response,
};
use crate::msg::{next_vote, rank_delta, NodeVoteMsg, Sentiment};
use crate::state::models::{NIL, ROOT_ID, UP};
use crate::state::storage::Storage;
use crate::state::table::Dict;
use crate::state::thread::Thread;

verus! {

/// The number under which a vote held, or none, is stored.
pub open spec fn vote_number(held: Option<Sentiment>) -> u8 {
    match held {
        Some(s) => s.number(),
        None => NIL,
    }
}

/// What a change of the stored vote from `old` to `new` adds to a rank.
/// Asking for the vote held withdraws it; a first vote is worth one, a
/// change of side two.
pub open spec fn stored_delta(old: u8, new: u8) -> int {
    if old == new {
        if new == UP {
            -1
        } else {
            1
        }
    } else {
        let delta: int = if old == NIL {
            1
        } else {
            2
        };
        if new == UP {
            delta
        } else {
            -delta
        }
    }
}

/// For the votes that can be held and asked for, the stored numbers give
/// what the change of vote is worth.
pub proof fn lemma_stored_delta(held: Option<Sentiment>, asked: Sentiment)
    ensures
        stored_delta(vote_number(held), asked.number()) == rank_delta(held, asked),
{
}

/// Why a node cannot move by `delta` in rank, if it cannot: it does not
/// exist, or its rank would leave the range of ranks.
pub open spec fn rank_fault(thread: Thread, node_id: u32, delta: int) -> Option<Fault> {
    if !thread.live(node_id) {
        Some(missing(node_id))
    } else if thread.meta(node_id).rank + delta < i32::MIN || thread.meta(node_id).rank + delta
        > i32::MAX {
        Some(overflow())
    } else {
        None
    }
}

/// Moves a node's rank by what the change of an account's stored vote from
/// `old_user_sentiment` to `new_user_sentiment` is worth, and replaces the
/// node's entry in the rank index. Returns the node's parent, and its rank
/// before and after.
pub fn update_node_rank(
    store: &mut Storage,
    node_id: u32,
    old_user_sentiment: u8,
    new_user_sentiment: u8,
) -> (r: Result<(Option<u32>, i32, i32), ContractError>)
    requires
        old(store).wf(),
    ensures
        final(store).wf(),
        match rank_fault(
            old(store)@,
            node_id,
            stored_delta(old_user_sentiment, new_user_sentiment),
        ) {
            Some(fault) => r is Err && r->Err_0@ == fault && final(store)@ == old(store)@,
            None => {
                &&& r is Ok
                &&& r->Ok_0.0 == old(store)@.meta(node_id).parent_id
                &&& r->Ok_0.1 == old(store)@.meta(node_id).rank
                &&& r->Ok_0.2 == old(store)@.meta(node_id).rank + stored_delta(
                    old_user_sentiment,
                    new_user_sentiment,
                )
                &&& final(store)@ == old(store)@.reranked(node_id, r->Ok_0.2)
            },
        },
{
    let meta = match store.metadata(node_id) {
        Some(m) => m,
        None => {
            return Err(ContractError::NodeNotFound { node_id });
        },
    };
    let prev_rank = meta.rank;
    let change: i32 = if old_user_sentiment == new_user_sentiment {
        // Undo the vote held.
        if new_user_sentiment == UP {
            -1
        } else {
            1
        }
    } else {
        // Set or change the vote.
        let delta: i32 = if old_user_sentiment == NIL {
            1
        } else {
            2
        };
        if new_user_sentiment == UP {
            delta
        } else {
            -delta
        }
    };
    let curr_rank = match prev_rank.checked_add(change) {
        Some(rank) => rank,
        None => {
            return Err(ContractError::overflow());
        },
    };
    store.set_rank(node_id, curr_rank);
    Ok((meta.parent_id, prev_rank, curr_rank))
}

/// The thread after the first `n` votes of a list were applied, in order.
pub open spec fn votes_applied(
    thread: Thread,
    actor: Seq<char>,
    msgs: Seq<NodeVoteMsg>,
    n: int,
) -> Thread
    decreases n,
{
    if n <= 0 {
        thread
    } else {
        votes_applied(thread, actor, msgs, n - 1).voted(actor, msgs[n - 1].id, msgs[n - 1].sentiment)
    }
}

/// What the first `n` votes of a list tell the registry: the first node's
/// rank after each vote on it.
pub open spec fn vote_notices(thread: Thread, sender: String, msgs: Seq<NodeVoteMsg>, n: int) -> Seq<
    Message,
>
    decreases n,
{
    if n <= 0 {
        Seq::empty()
    } else if msgs[n - 1].id == ROOT_ID {
        vote_notices(thread, sender, msgs, n - 1) + activity_notice(
            thread.table,
            sender,
            Some(votes_applied(thread, sender@, msgs, n).meta(ROOT_ID).rank),
        )
    } else {
        vote_notices(thread, sender, msgs, n - 1)
    }
}

/// Why a vote is refused on a thread, if it is: its node does not exist,
/// or the vote would move the node's rank out of the range of ranks.
pub open spec fn vote_fault(thread: Thread, actor: Seq<char>, msg: NodeVoteMsg) -> Option<Fault> {
    rank_fault(thread, msg.id, rank_delta(thread.vote_of(msg.id, actor), msg.sentiment))
}

/// Why a list of votes is refused, if it is: the first fault among its
/// first `n` votes, each taken on the thread as the votes before it leave
/// it.
pub open spec fn votes_fault(thread: Thread, actor: Seq<char>, msgs: Seq<NodeVoteMsg>, n: int) -> Option<
    Fault,
>
    decreases n,
{
    if n <= 0 {
        None
    } else {
        match votes_fault(thread, actor, msgs, n - 1) {
            Some(fault) => Some(fault),
            None => vote_fault(
                votes_applied(thread, actor, msgs, n - 1),
                actor,
                msgs[n - 1],
            ),
        }
    }
}

/// A fault among the first votes of a list is the fault of the list.
pub proof fn lemma_fault_stays(thread: Thread, actor: Seq<char>, msgs: Seq<NodeVoteMsg>, n: int, m: int)
    requires
        0 <= n <= m,
        votes_fault(thread, actor, msgs, n) is Some,
    ensures
        votes_fault(thread, actor, msgs, m) == votes_fault(thread, actor, msgs, n),
    decreases m - n,
{
    if n < m {
        lemma_fault_stays(thread, actor, msgs, n, m - 1);
    }
}

/// In a list of votes without fault every vote is without fault on the
/// thread as the votes before it leave it.
proof fn lemma_votes_clear(thread: Thread, actor: Seq<char>, msgs: Seq<NodeVoteMsg>, n: int, at: int)
    requires
        0 <= at < n,
        votes_fault(thread, actor, msgs, n) is None,
    ensures
        votes_fault(thread, actor, msgs, at) is None,
        vote_fault(votes_applied(thread, actor, msgs, at), actor, msgs[at]) is None,
    decreases n - at,
{
    if at + 1 < n {
        lemma_votes_clear(thread, actor, msgs, n - 1, at);
    }
}

/// Votes that are not refused neither create nor remove a node.
pub proof fn lemma_votes_keep_nodes(thread: Thread, actor: Seq<char>, msgs: Seq<NodeVoteMsg>, n: int)
    requires
        0 <= n <= msgs.len(),
        votes_fault(thread, actor, msgs, n) is None,
    ensures
        votes_applied(thread, actor, msgs, n).nodes.dom() == thread.nodes.dom(),
    decreases n,
{
    if n > 0 {
        lemma_votes_clear(thread, actor, msgs, n, n - 1);
        lemma_votes_keep_nodes(thread, actor, msgs, n - 1);
        lemma_voted(
            votes_applied(thread, actor, msgs, n - 1),
            actor,
            msgs[n - 1].id,
            msgs[n - 1].sentiment,
        );
    }
}

/// What a vote changes: of the node voted on, the rank and the vote that
/// the account holds; of every other node, nothing.
proof fn lemma_voted(thread: Thread, actor: Seq<char>, id: u32, sentiment: Sentiment)
    requires
        thread.live(id),
    ensures
        thread.voted(actor, id, sentiment).nodes.dom() == thread.nodes.dom(),
        thread.voted(actor, id, sentiment).table == thread.table,
        thread.voted(actor, id, sentiment).meta(id).rank == (thread.meta(id).rank + rank_delta(
            thread.vote_of(id, actor),
            sentiment,
        )) as i32,
        thread.voted(actor, id, sentiment).vote_of(id, actor) == next_vote(
            thread.vote_of(id, actor),
            sentiment,
        ),
        forall|x: u32|
            x != id ==> #[trigger] thread.voted(actor, id, sentiment).nodes[x] == thread.nodes[x],
{
    let t = thread.voted(actor, id, sentiment);
    assert(t.nodes.dom() =~= thread.nodes.dom());
}

/// What a list of votes that is not refused does: every vote is applied
/// in order, and the registry is told of each new rank of the first node.
pub open spec fn votes_done(
    before: Thread,
    ctx: Context,
    msgs: Seq<NodeVoteMsg>,
    resp: Response,
    after: Thread,
) -> bool {
    &&& after == votes_applied(before, ctx.info.sender@, msgs, msgs.len() as int)
    &&& labels(resp) == action("vote"@)
    &&& resp.node_id is None
    &&& resp.messages@ == vote_notices(before, ctx.info.sender, msgs, msgs.len() as int)
}

/// Applies one vote that is without fault: the ledger takes the account's
/// next vote, and the rank follows. Returns the node's rank after the vote.
fn apply_vote(store: &mut Storage, sender: &String, msg: NodeVoteMsg) -> (curr_rank: i32)
    requires
        old(store).wf(),
        vote_fault(old(store)@, sender@, msg) is None,
    ensures
        final(store).wf(),
        final(store)@ == old(store)@.voted(sender@, msg.id, msg.sentiment),
        curr_rank == final(store)@.meta(msg.id).rank,
        final(store)@.table == old(store)@.table,
{
    let child_id = msg.id;
    let held = store.vote_of(child_id, sender);
    let new_user_sentiment_u8 = msg.sentiment.to_u8();
    let old_user_sentiment_u8 = match held {
        Some(s) => s.to_u8(),
        None => NIL,
    };
    proof {
        lemma_stored_delta(held, msg.sentiment);
    }
    // Asking for the vote held withdraws it.
    if new_user_sentiment_u8 != old_user_sentiment_u8 {
        store.record_vote(child_id, sender, Some(msg.sentiment));
    } else {
        store.record_vote(child_id, sender, None);
    }
    let moved = update_node_rank(store, child_id, old_user_sentiment_u8, new_user_sentiment_u8);
    assert(moved is Ok);
    let (_, _, curr_rank) = moved.unwrap();
    curr_rank
}

/// What a vote is worth to the rank of its node, given the vote that the
/// account holds.
fn vote_worth(held: Option<Sentiment>, asked: Sentiment) -> (delta: i32)
    ensures
        delta == rank_delta(held, asked),
{
    match (held, asked) {
        (None, Sentiment::Up) => 1,
        (None, Sentiment::Down) => -1,
        (Some(Sentiment::Up), Sentiment::Up) => -1,
        (Some(Sentiment::Down), Sentiment::Down) => 1,
        (Some(Sentiment::Up), Sentiment::Down) => -2,
        (Some(Sentiment::Down), Sentiment::Up) => 2,
    }
}

/// The vote that the account holds after it asked for one.
fn vote_after(held: Option<Sentiment>, asked: Sentiment) -> (next: Option<Sentiment>)
    ensures
        next == next_vote(held, asked),
{
    match (held, asked) {
        (Some(Sentiment::Up), Sentiment::Up) => None,
        (Some(Sentiment::Down), Sentiment::Down) => None,
        _ => Some(asked),
    }
}

/// What the votes gone through so far make of the nodes voted on: for each
/// of them the rank and the vote of the account as the votes leave them;
/// every other node is as it was.
spec fn foresees(
    seen: Map<u32, (i32, Option<Sentiment>)>,
    start: Thread,
    cur: Thread,
    actor: Seq<char>,
) -> bool {
    &&& cur.nodes.dom() == start.nodes.dom()
    &&& forall|id: u32| #[trigger]
        seen.contains_key(id) ==> start.live(id) && cur.meta(id).rank == seen[id].0 && cur.vote_of(
            id,
            actor,
        ) == seen[id].1
    &&& forall|id: u32|
        start.live(id) && !(#[trigger] seen.contains_key(id)) ==> cur.meta(id).rank == start.meta(
            id,
        ).rank && cur.vote_of(id, actor) == start.vote_of(id, actor)
}

/// Looks for the first fault in a list of votes without changing the
/// store: the votes are gone through in order, and the ranks and votes that
/// they would leave are kept beside the store.
fn check_votes(store: &Storage, sender: &String, msgs: &Vec<NodeVoteMsg>) -> (r: Result<
    (),
    ContractError,
>)
    requires
        store.wf(),
    ensures
        match votes_fault(store@, sender@, msgs@, msgs@.len() as int) {
            Some(fault) => r is Err && r->Err_0@ == fault,
            None => r is Ok,
        },
{
    let ghost start = store@;
    let ghost actor = sender@;
    let count = msgs.len();
    let mut seen: Dict<u32, (i32, Option<Sentiment>)> = Dict::new();
    let mut k: usize = 0;
    while k < count
        invariant
            k <= count,
            count == msgs@.len(),
            store.wf(),
            start == store@,
            actor == sender@,
            seen.wf(),
            votes_fault(start, actor, msgs@, k as int) is None,
            foresees(seen@, start, votes_applied(start, actor, msgs@, k as int), actor),
        decreases count - k,
    {
        let msg = msgs[k];
        let ghost cur = votes_applied(start, actor, msgs@, k as int);
        let ghost next = votes_applied(start, actor, msgs@, k + 1);
        assert(next == cur.voted(actor, msg.id, msg.sentiment));
        assert(votes_fault(start, actor, msgs@, k + 1) == vote_fault(cur, actor, msg));
        let known = match seen.get(&msg.id) {
            Some(entry) => Some(*entry),
            None => None,
        };
        let (rank, held) = match known {
            Some(entry) => entry,
            None => match store.metadata(msg.id) {
                Some(meta) => (meta.rank, store.vote_of(msg.id, sender)),
                None => {
                    proof {
                        lemma_fault_stays(start, actor, msgs@, k + 1, count as int);
                    }
                    return Err(ContractError::NodeNotFound { node_id: msg.id });
                },
            },
        };
        assert(cur.live(msg.id) && cur.meta(msg.id).rank == rank && cur.vote_of(msg.id, actor)
            == held);
        let moved = match rank.checked_add(vote_worth(held, msg.sentiment)) {
            Some(moved) => moved,
            None => {
                proof {
                    lemma_fault_stays(start, actor, msgs@, k + 1, count as int);
                }
                return Err(ContractError::overflow());
            },
        };
        let ghost before = seen@;
        seen.put(msg.id, (moved, vote_after(held, msg.sentiment)));
        proof {
            lemma_voted(cur, actor, msg.id, msg.sentiment);
            assert forall|id: u32| #[trigger] seen@.contains_key(id) implies start.live(id)
                && next.meta(id).rank == seen@[id].0 && next.vote_of(id, actor) == seen@[id].1 by {
                if id != msg.id {
                    assert(before.contains_key(id));
                    assert(next.nodes[id] == cur.nodes[id]);
                }
            }
            assert forall|id: u32|
                start.live(id) && !(#[trigger] seen@.contains_key(id)) implies next.meta(id).rank
                == start.meta(id).rank && next.vote_of(id, actor) == start.vote_of(id, actor) by {
                assert(!before.contains_key(id));
                assert(next.nodes[id] == cur.nodes[id]);
            }
        }
        k += 1;
    }
    Ok(())
}

/// What one vote that is not refused does: the ledger holds the
/// account's next vote, the rank has moved by what the change is worth,
/// and the registry is told of the new rank where the first node was
/// voted on.
pub open spec fn vote_done(before: Thread, ctx: Context, msg: NodeVoteMsg, resp: Response, after: Thread) -> bool {
    &&& after == before.voted(ctx.info.sender@, msg.id, msg.sentiment)
    &&& labels(resp) == action("vote"@)
    &&& resp.node_id is None
    &&& resp.messages@ == if msg.id == ROOT_ID {
        activity_notice(before.table, ctx.info.sender, Some(after.meta(ROOT_ID).rank))
    } else {
        Seq::empty()
    }
}

/// Applies one vote. A vote that is refused changes nothing.
pub fn exec_vote(store: &mut Storage, ctx: &Context, msg: NodeVoteMsg) -> (r: Result<
    Response,
    ContractError,
>)
    requires
        old(store).wf(),
    ensures
        final(store).wf(),
        ended(
            vote_fault(old(store)@, ctx.info.sender@, msg),
            vote_done(old(store)@, *ctx, msg, r->Ok_0, final(store)@),
            r,
            old(store)@,
            final(store)@,
        ),
{
    let mut msgs: Vec<NodeVoteMsg> = Vec::new();
    msgs.push(msg);
    assert(msgs@ =~= seq![msg]);
    proof {
        let one = seq![msg];
        reveal_with_fuel(votes_fault, 2);
        reveal_with_fuel(votes_applied, 2);
        reveal_with_fuel(vote_notices, 2);
        assert(votes_fault(store@, ctx.info.sender@, one, 1) == vote_fault(
            store@,
            ctx.info.sender@,
            msg,
        ));
        assert(votes_applied(store@, ctx.info.sender@, one, 1) == store@.voted(
            ctx.info.sender@,
            msg.id,
            msg.sentiment,
        ));
        assert(vote_notices(store@, ctx.info.sender, one, 0) =~= Seq::<Message>::empty());
        assert(Seq::<Message>::empty() + activity_notice(
            store@.table,
            ctx.info.sender,
            Some(store@.voted(ctx.info.sender@, msg.id, msg.sentiment).meta(ROOT_ID).rank),
        ) =~= activity_notice(
            store@.table,
            ctx.info.sender,
            Some(store@.voted(ctx.info.sender@, msg.id, msg.sentiment).meta(ROOT_ID).rank),
        ));
    }
    exec_votes(store, ctx, msgs)
}

/// Applies a list of votes in order, each by itself, or none of them: if
/// any vote of the list is refused, nothing changes.
pub fn exec_votes(store: &mut Storage, ctx: &Context, msgs: Vec<NodeVoteMsg>) -> (r: Result<
    Response,
    ContractError,
>)
    requires
        old(store).wf(),
    ensures
        final(store).wf(),
        ended(
            votes_fault(old(store)@, ctx.info.sender@, msgs@, msgs@.len() as int),
            votes_done(old(store)@, *ctx, msgs@, r->Ok_0, final(store)@),
            r,
            old(store)@,
            final(store)@,
        ),
{
    let count = msgs.len();
    let ghost start = store@;
    // Nothing is changed before every vote of the list is known to pass.
    match check_votes(store, &ctx.info.sender, &msgs) {
        Ok(()) => {},
        Err(e) => {
            return Err(e);
        },
    }
    let table = store.table();
    let mut resp = Response::of("vote");
    let mut i: usize = 0;
    while i < count
        invariant
            i <= count,
            count == msgs@.len(),
            store.wf(),
            votes_fault(start, ctx.info.sender@, msgs@, count as int) is None,
            table == start.table,
            store@ == votes_applied(start, ctx.info.sender@, msgs@, i as int),
            labels(resp) == action("vote"@),
            resp.node_id is None,
            resp.messages@ == vote_notices(start, ctx.info.sender, msgs@, i as int),
        decreases count - i,
    {
        let msg = msgs[i];
        let child_id = msg.id;
        proof {
            lemma_votes_clear(start, ctx.info.sender@, msgs@, count as int, i as int);
        }
        let curr_rank = apply_vote(store, &ctx.info.sender, msg);
        if child_id == ROOT_ID {
            notify_activity(&mut resp, &table, &ctx.info.sender, Some(curr_rank));
        }
        i += 1;
    }
    Ok(resp)
}

} // verus!
