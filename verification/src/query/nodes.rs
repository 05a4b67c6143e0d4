//! Nodes by identifier, the replies to a node by rank, the nodes under a
//! tag or a mention, and the ancestors of a node.

use vstd::prelude::*;

use crate::error::{missing, ContractError};
use crate::msg::{NodeViewByTagPaginationResponse, NodeViewRepliesPaginationResponse};
use crate::state::models::MAX_PAGE_SIZE;
use crate::state::storage::Storage;
use crate::state::thread::{Kind, Thread};
use crate::state::views::NodeView;
use crate::text::{lowercase, to_lowercase};
use crate::util::load_node_metadata;

verus! {

/// A tag or a mention to look nodes up by.
#[derive(Debug, Clone, PartialEq, Eq)]
pub enum TagWrapper {
    Tag(String),
    Mention(String),
}

impl TagWrapper {
    /// Which index the text is looked up in.
    pub open spec fn kind(self) -> Kind {
        match self {
            TagWrapper::Tag(_) => Kind::Tag,
            TagWrapper::Mention(_) => Kind::Mention,
        }
    }

    /// The text as it was given.
    pub open spec fn text(self) -> Seq<char> {
        match self {
            TagWrapper::Tag(s) => s@,
            TagWrapper::Mention(s) => s@,
        }
    }
}

/// The first node of a list, from a given place on, that does not exist.
pub open spec fn first_missing(thread: Thread, ids: Seq<u32>, from: int) -> Option<u32>
    decreases ids.len() - from,
{
    if from < 0 || from >= ids.len() {
        None
    } else if !thread.live(ids[from]) {
        Some(ids[from])
    } else {
        first_missing(thread, ids, from + 1)
    }
}

/// The views show, in order, the nodes of a list.
pub open spec fn views_show(nodes: Seq<NodeView>, thread: Thread, ids: Seq<u32>, account: Option<String>) -> bool {
    &&& nodes.len() == ids.len()
    &&& forall|i: int| 0 <= i < nodes.len() ==> (#[trigger] nodes[i]).shows(thread, ids[i], account)
}

/// The answer to the query for the nodes of a list: the views of all of
/// them, or the error for the first that does not exist.
pub open spec fn nodes_answer(
    thread: Thread,
    ids: Seq<u32>,
    sender: Option<String>,
    r: Result<Vec<NodeView>, ContractError>,
) -> bool {
    match first_missing(thread, ids, 0) {
        Some(id) => r is Err && r->Err_0@ == missing(id),
        None => r is Ok && views_show(r->Ok_0@, thread, ids, sender),
    }
}

/// Shows the nodes of a list, in order. All of them must exist.
pub fn query_nodes_by_id(store: &Storage, ids: Vec<u32>, sender: Option<String>) -> (r: Result<
    Vec<NodeView>,
    ContractError,
>)
    requires
        store.inv(),
    ensures
        nodes_answer(store@, ids@, sender, r),
{
    let mut nodes: Vec<NodeView> = Vec::new();
    let mut i: usize = 0;
    while i < ids.len()
        invariant
            store.inv(),
            i <= ids.len(),
            first_missing(store@, ids@, 0) == first_missing(store@, ids@, i as int),
            views_show(nodes@, store@, ids@.take(i as int), sender),
        decreases ids.len() - i,
    {
        match NodeView::load(store, ids[i], &sender) {
            Ok(view) => {
                nodes.push(view);
            },
            Err(e) => {
                return Err(e);
            },
        }
        i += 1;
    }
    assert(ids@.take(i as int) =~= ids@);
    Ok(nodes)
}

/// How many nodes a page of replies holds at most: as many as asked for,
/// and no more than 25.
pub open spec fn page_size(limit: Option<u8>) -> nat {
    match limit {
        Some(n) => if n < MAX_PAGE_SIZE {
            n as nat
        } else {
            MAX_PAGE_SIZE as nat
        },
        None => MAX_PAGE_SIZE as nat,
    }
}

/// The rank and identifier of each node of a list.
pub open spec fn rank_keys(nodes: Seq<NodeView>) -> Seq<(i32, u32)> {
    nodes.map_values(|v: NodeView| (v.metadata.rank, v.metadata.id))
}

/// The bound under which the reply at a place of a page was looked for:
/// the reply before it, and for the first the bound of the page.
pub open spec fn bound_at(page: Seq<(i32, u32)>, bound: Option<(i32, u32)>, i: int) -> Option<
    (i32, u32),
> {
    if i <= 0 {
        bound
    } else {
        Some(page[i - 1])
    }
}

/// The page holds, from the highest rank down, the replies to `parent`
/// that stand before the bound in the order of the rank index: as many as
/// the size allows, and all where they are fewer.
pub open spec fn is_reply_page(
    thread: Thread,
    parent: u32,
    bound: Option<(i32, u32)>,
    size: nat,
    page: Seq<(i32, u32)>,
) -> bool {
    &&& page.len() <= size
    &&& forall|i: int|
        0 <= i < page.len() ==> thread.is_top_child(parent, #[trigger] page[i], bound_at(page, bound, i))
    &&& page.len() < size ==> forall|j: (i32, u32)|
        !thread.child_at(parent, j, bound_at(page, bound, page.len() as int))
}

/// The rank and identifier that a cursor of the replies gives as bound.
pub open spec fn reply_bound(cursor: Option<(u32, i32, u32)>) -> Option<(i32, u32)> {
    match cursor {
        Some(c) => Some((c.1, c.2)),
        None => None,
    }
}

/// The cursor that a page of replies hands on: the last reply of a full
/// page.
pub open spec fn reply_cursor(parent: u32, size: nat, page: Seq<(i32, u32)>) -> Option<
    (u32, i32, u32),
> {
    if page.len() > 0 && page.len() == size {
        Some((parent, page.last().0, page.last().1))
    } else {
        None
    }
}

/// The answer to the query for the replies to a node: a page of them
/// with its cursor, or the error for a node that does not exist.
pub open spec fn replies_answer(
    thread: Thread,
    parent_id: u32,
    cursor: Option<(u32, i32, u32)>,
    limit: Option<u8>,
    sender: Option<String>,
    r: Result<NodeViewRepliesPaginationResponse, ContractError>,
) -> bool {
    match r {
        Ok(resp) => {
            &&& thread.live(parent_id)
            &&& is_reply_page(
                thread,
                parent_id,
                reply_bound(cursor),
                page_size(limit),
                rank_keys(resp.nodes@),
            )
            &&& forall|i: int|
                0 <= i < resp.nodes@.len() ==> (#[trigger] resp.nodes@[i]).shows(
                    thread,
                    resp.nodes@[i].metadata.id,
                    sender,
                )
            &&& resp.cursor == reply_cursor(parent_id, page_size(limit), rank_keys(resp.nodes@))
        },
        Err(e) => !thread.live(parent_id) && e@ == missing(parent_id),
    }
}

/// Shows one page of the replies to a node, from the highest rank down,
/// beginning after the reply that the cursor names.
pub fn query_nodes_in_reply_to(
    store: &Storage,
    parent_id: u32,
    cursor: Option<(u32, i32, u32)>,
    limit: Option<u8>,
    sender: Option<String>,
) -> (r: Result<NodeViewRepliesPaginationResponse, ContractError>)
    requires
        store.wf(),
    ensures
        replies_answer(store@, parent_id, cursor, limit, sender, r),
{
    match load_node_metadata(store, parent_id, true) {
        Ok(_) => {},
        Err(e) => {
            return Err(e);
        },
    }
    let size: usize = match limit {
        Some(n) => if n < MAX_PAGE_SIZE {
            n as usize
        } else {
            MAX_PAGE_SIZE as usize
        },
        None => MAX_PAGE_SIZE as usize,
    };
    let ghost first_bound = reply_bound(cursor);
    let mut bound: Option<(i32, u32)> = match cursor {
        Some((_, rank, child_id)) => Some((rank, child_id)),
        None => None,
    };
    let mut replies: Vec<NodeView> = Vec::new();
    let mut last: Option<(u32, i32, u32)> = None;
    let mut exhausted = false;
    while replies.len() < size && !exhausted
        invariant
            store.wf(),
            replies@.len() <= size,
            bound == bound_at(rank_keys(replies@), first_bound, replies@.len() as int),
            forall|i: int|
                0 <= i < replies@.len() ==> store@.is_top_child(
                    parent_id,
                    #[trigger] rank_keys(replies@)[i],
                    bound_at(rank_keys(replies@), first_bound, i),
                ),
            forall|i: int|
                0 <= i < replies@.len() ==> (#[trigger] replies@[i]).shows(
                    store@,
                    replies@[i].metadata.id,
                    sender,
                ),
            exhausted ==> forall|j: (i32, u32)| !store@.child_at(parent_id, j, bound),
            last == (if replies@.len() > 0 {
                Some((parent_id, rank_keys(replies@).last().0, rank_keys(replies@).last().1))
            } else {
                None
            }),
        decreases size - replies@.len() + (if exhausted { 0int } else { 1int }),
    {
        match store.top_child_below(parent_id, bound) {
            Some(key) => {
                let ghost before = replies@;
                assert(store@.ranked.contains((parent_id, key.0, key.1)));
                let view = match NodeView::load(store, key.1, &sender) {
                    Ok(v) => v,
                    Err(e) => {
                        // The rank index holds live replies only.
                        return Err(e);
                    },
                };
                replies.push(view);
                proof {
                    assert(rank_keys(replies@) =~= rank_keys(before).push(key));
                    assert forall|i: int| 0 <= i < replies@.len() implies store@.is_top_child(
                        parent_id,
                        #[trigger] rank_keys(replies@)[i],
                        bound_at(rank_keys(replies@), first_bound, i),
                    ) by {
                        if i < before.len() {
                            assert(rank_keys(replies@)[i] == rank_keys(before)[i]);
                            assert(bound_at(rank_keys(replies@), first_bound, i) == bound_at(
                                rank_keys(before),
                                first_bound,
                                i,
                            ));
                        }
                    }
                }
                bound = Some(key);
                last = Some((parent_id, key.0, key.1));
            },
            None => {
                exhausted = true;
            },
        }
    }
    let cursor = if replies.len() == size {
        last
    } else {
        None
    };
    Ok(NodeViewRepliesPaginationResponse { nodes: replies, cursor })
}

/// The node that stands `n` levels above a node, if there is one.
pub open spec fn nth_ancestor(thread: Thread, id: u32, n: nat) -> Option<u32>
    decreases n,
{
    if n == 0 {
        Some(id)
    } else {
        match nth_ancestor(thread, id, (n - 1) as nat) {
            Some(a) => if thread.live(a) {
                thread.meta(a).parent_id
            } else {
                None
            },
            None => None,
        }
    }
}

/// How many levels of ancestors are shown where the query names none.
pub open spec fn levels_asked(levels: Option<u8>) -> nat {
    match levels {
        Some(n) => n as nat,
        None => 1,
    }
}

/// The views show the ancestors of a node from its parent upwards: as
/// many levels as asked for, and all where they are fewer.
pub open spec fn shows_ancestors(
    nodes: Seq<NodeView>,
    thread: Thread,
    start: u32,
    levels: nat,
    account: Option<String>,
) -> bool {
    &&& nodes.len() <= levels
    &&& forall|i: int|
        0 <= i < nodes.len() ==> nth_ancestor(thread, start, (i + 1) as nat) == Some(
            (#[trigger] nodes[i]).metadata.id,
        ) && nodes[i].shows(thread, nodes[i].metadata.id, account)
    &&& nodes.len() < levels ==> nth_ancestor(thread, start, (nodes.len() + 1) as nat) is None
}

/// The answer to the query for the ancestors of a node: their views, or
/// the error for a node that does not exist.
pub open spec fn ancestors_answer(
    thread: Thread,
    start_node_id: u32,
    levels: Option<u8>,
    sender: Option<String>,
    r: Result<Vec<NodeView>, ContractError>,
) -> bool {
    match r {
        Ok(nodes) => thread.live(start_node_id) && shows_ancestors(
            nodes@,
            thread,
            start_node_id,
            levels_asked(levels),
            sender,
        ),
        Err(e) => !thread.live(start_node_id) && e@ == missing(start_node_id),
    }
}

/// Shows the ancestors of a node, from its parent upwards.
pub fn query_ancestor_nodes(
    store: &Storage,
    start_node_id: u32,
    levels: Option<u8>,
    sender: Option<String>,
) -> (r: Result<Vec<NodeView>, ContractError>)
    requires
        store.wf(),
    ensures
        ancestors_answer(store@, start_node_id, levels, sender, r),
{
    let levels: u8 = match levels {
        Some(n) => n,
        None => 1,
    };
    let mut nodes: Vec<NodeView> = Vec::new();
    let start_node_metadata = match load_node_metadata(store, start_node_id, true) {
        Ok(Some(m)) => m,
        Ok(None) => {
            return Err(ContractError::NodeNotFound { node_id: start_node_id });
        },
        Err(e) => {
            return Err(e);
        },
    };
    let mut maybe_parent_id = start_node_metadata.parent_id;
    let mut done = false;
    assert(nth_ancestor(store@, start_node_id, 1) == maybe_parent_id) by {
        assert(nth_ancestor(store@, start_node_id, 0) == Some(start_node_id));
    }
    while nodes.len() < levels as usize && !done
        invariant
            store.wf(),
            store@.live(start_node_id),
            nodes@.len() <= levels,
            maybe_parent_id == nth_ancestor(store@, start_node_id, (nodes@.len() + 1) as nat),
            done ==> maybe_parent_id is None,
            maybe_parent_id is Some ==> store@.live(maybe_parent_id->Some_0),
            forall|i: int|
                0 <= i < nodes@.len() ==> nth_ancestor(store@, start_node_id, (i + 1) as nat)
                    == Some((#[trigger] nodes@[i]).metadata.id) && nodes@[i].shows(
                    store@,
                    nodes@[i].metadata.id,
                    sender,
                ),
        decreases levels - nodes@.len() + (if done { 0int } else { 1int }),
    {
        if let Some(parent_id) = maybe_parent_id {
            let node = match NodeView::load(store, parent_id, &sender) {
                Ok(v) => v,
                Err(e) => {
                    // The parent of a live node is live.
                    return Err(e);
                },
            };
            proof {
                assert(store@.node_linked(parent_id));
                assert(nth_ancestor(store@, start_node_id, (nodes@.len() + 2) as nat)
                    == node.metadata.parent_id);
            }
            maybe_parent_id = node.metadata.parent_id;
            nodes.push(node);
        } else {
            done = true;
        }
    }
    Ok(nodes)
}

/// The identifier of each node of a list.
pub open spec fn node_ids(nodes: Seq<NodeView>) -> Seq<u32> {
    nodes.map_values(|v: NodeView| v.metadata.id)
}

/// The bound under which the node at a place of a page was looked for: the
/// node before it, and for the first the bound of the page.
pub open spec fn id_bound_at(page: Seq<u32>, bound: Option<u32>, i: int) -> Option<u32> {
    if i <= 0 {
        bound
    } else {
        Some(page[i - 1])
    }
}

/// The page holds, from the greatest identifier down, the nodes indexed
/// under the text that lie below the bound: as many as the size allows,
/// and all where they are fewer.
pub open spec fn is_text_page(
    thread: Thread,
    kind: Kind,
    text: Seq<char>,
    bound: Option<u32>,
    size: nat,
    page: Seq<u32>,
) -> bool {
    &&& page.len() <= size
    &&& forall|i: int|
        0 <= i < page.len() ==> thread.is_top_tagged(
            kind,
            text,
            #[trigger] page[i],
            id_bound_at(page, bound, i),
        )
    &&& page.len() < size ==> forall|j: u32|
        !thread.tagged_at(kind, text, j, id_bound_at(page, bound, page.len() as int))
}

/// The cursor that a page of nodes under a text hands on: its last node.
pub open spec fn text_cursor(page: Seq<u32>) -> Option<u32> {
    if page.len() > 0 {
        Some(page.last())
    } else {
        None
    }
}

/// The answer to the query for the nodes under a tag or a mention: a page
/// of them with its cursor.
pub open spec fn text_answer(
    thread: Thread,
    wrapped_tag: TagWrapper,
    cursor: Option<u32>,
    sender: Option<String>,
    r: Result<NodeViewByTagPaginationResponse, ContractError>,
) -> bool {
    &&& r is Ok
    &&& is_text_page(
        thread,
        wrapped_tag.kind(),
        lowercase(wrapped_tag.text()),
        cursor,
        MAX_PAGE_SIZE as nat,
        node_ids(r->Ok_0.nodes@),
    )
    &&& forall|i: int|
        0 <= i < r->Ok_0.nodes@.len() ==> (#[trigger] r->Ok_0.nodes@[i]).shows(
            thread,
            r->Ok_0.nodes@[i].metadata.id,
            sender,
        )
    &&& r->Ok_0.cursor == text_cursor(node_ids(r->Ok_0.nodes@))
}

/// Shows one page of the nodes indexed under a tag or a mention, taken in
/// lower case, from the greatest identifier down and below the node that
/// the cursor names.
pub fn query_nodes_by_tag_or_callout(
    store: &Storage,
    wrapped_tag: TagWrapper,
    cursor: Option<u32>,
    sender: Option<String>,
) -> (r: Result<NodeViewByTagPaginationResponse, ContractError>)
    requires
        store.wf(),
    ensures
        text_answer(store@, wrapped_tag, cursor, sender, r),
{
    let (kind, tag) = match &wrapped_tag {
        TagWrapper::Tag(s) => (Kind::Tag, to_lowercase(s.as_str())),
        TagWrapper::Mention(s) => (Kind::Mention, to_lowercase(s.as_str())),
    };
    let size = MAX_PAGE_SIZE as usize;
    let mut bound = cursor;
    let mut nodes: Vec<NodeView> = Vec::new();
    let mut exhausted = false;
    while nodes.len() < size && !exhausted
        invariant
            store.wf(),
            size == MAX_PAGE_SIZE,
            kind == wrapped_tag.kind(),
            tag@ == lowercase(wrapped_tag.text()),
            nodes@.len() <= size,
            bound == id_bound_at(node_ids(nodes@), cursor, nodes@.len() as int),
            forall|i: int|
                0 <= i < nodes@.len() ==> store@.is_top_tagged(
                    kind,
                    tag@,
                    #[trigger] node_ids(nodes@)[i],
                    id_bound_at(node_ids(nodes@), cursor, i),
                ),
            forall|i: int|
                0 <= i < nodes@.len() ==> (#[trigger] nodes@[i]).shows(
                    store@,
                    nodes@[i].metadata.id,
                    sender,
                ),
            exhausted ==> forall|j: u32| !store@.tagged_at(kind, tag@, j, bound),
        decreases size - nodes@.len() + (if exhausted { 0int } else { 1int }),
    {
        match store.top_tagged_below(kind, &tag, bound) {
            Some(node_id) => {
                let ghost before = nodes@;
                proof {
                    assert(store@.forward(kind).contains((tag@, node_id)));
                    match kind {
                        Kind::Tag => {
                            assert(store@.tag_nodes.contains((tag@, node_id)));
                        },
                        Kind::Mention => {
                            assert(store@.mention_nodes.contains((tag@, node_id)));
                        },
                    }
                }
                match NodeView::load(store, node_id, &sender) {
                    Ok(view) => {
                        nodes.push(view);
                    },
                    Err(_) => {
                        // The indexes hold live nodes only.
                        exhausted = true;
                    },
                }
                proof {
                    assert(node_ids(nodes@) =~= node_ids(before).push(node_id));
                    assert forall|i: int| 0 <= i < nodes@.len() implies store@.is_top_tagged(
                        kind,
                        tag@,
                        #[trigger] node_ids(nodes@)[i],
                        id_bound_at(node_ids(nodes@), cursor, i),
                    ) by {
                        if i < before.len() {
                            assert(node_ids(nodes@)[i] == node_ids(before)[i]);
                            assert(id_bound_at(node_ids(nodes@), cursor, i) == id_bound_at(
                                node_ids(before),
                                cursor,
                                i,
                            ));
                        }
                    }
                }
                bound = Some(node_id);
            },
            None => {
                exhausted = true;
            },
        }
    }
    let cursor = match nodes.last() {
        Some(u) => Some(u.metadata.id),
        None => None,
    };
    Ok(NodeViewByTagPaginationResponse { cursor, nodes })
}

} // verus!
