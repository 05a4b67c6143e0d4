//! What several operations share: looking a node up, issuing identifiers,
//! and indexing a node's tags and mentions.

use vstd::prelude::*;

use crate::error::{invalid, missing, overflow, ContractError, Fault};
use crate::state::models::{NodeMetadata, Section};
use crate::state::storage::Storage;
use crate::state::thread::{Kind, NodeState, Thread};
use crate::text::{begins_with, lowercase, strip_prefix_char, to_lowercase};
use crate::validation::{
    mentions_fault, opt_texts, tags_fault, texts, validate_mentions, validate_tags,
};

verus! {

/// Loads what is recorded of a node. A node that does not exist is an error
/// where `strict` is set, and no node otherwise.
pub fn load_node_metadata(store: &Storage, id: u32, strict: bool) -> (r: Result<
    Option<NodeMetadata>,
    ContractError,
>)
    requires
        store.inv(),
    ensures
        match r {
            Ok(Some(m)) => store@.live(id) && m == store@.meta(id),
            Ok(None) => !store@.live(id) && !strict,
            Err(e) => !store@.live(id) && strict && e@ == missing(id),
        },
{
    let maybe_metadata = store.metadata(id);
    if strict && maybe_metadata.is_none() {
        return Err(ContractError::NodeNotFound { node_id: id });
    }
    Ok(maybe_metadata)
}

/// Issues the identifier of the next node.
pub fn next_node_id(store: &mut Storage) -> (r: Result<u32, ContractError>)
    requires
        old(store).wf(),
    ensures
        final(store).wf(),
        match r {
            Ok(id) => id == old(store)@.counter + 1 && final(store)@ == old(store)@.with_counter(
                id,
            ),
            Err(e) => old(store)@.counter == u32::MAX && e@ == overflow() && final(store)@ == old(
                store,
            )@,
        },
{
    match store.issue_id() {
        Some(id) => Ok(id),
        None => Err(ContractError::overflow()),
    }
}

/// The tags of a list as they are indexed: in lower case.
pub open spec fn normal_tags(tags: Seq<Seq<char>>) -> Set<Seq<char>> {
    Set::new(|t: Seq<char>| exists|i: int| 0 <= i < tags.len() && lowercase(#[trigger] tags[i]) == t)
}

/// The account that a mention names: what follows its first character, in
/// lower case.
pub open spec fn mention_name(mention: Seq<char>) -> Seq<char> {
    lowercase(mention.subrange(1, mention.len() as int))
}

/// The accounts that the mentions of a list name. A text that does not
/// begin with `@` names none.
pub open spec fn normal_mentions(mentions: Seq<Seq<char>>) -> Set<Seq<char>> {
    Set::new(
        |t: Seq<char>|
            exists|i: int|
                0 <= i < mentions.len() && begins_with(#[trigger] mentions[i], '@') && mention_name(
                    mentions[i],
                ) == t,
    )
}

/// The texts of one kind that a list gives to index.
pub open spec fn normal(kind: Kind, list: Seq<Seq<char>>) -> Set<Seq<char>> {
    match kind {
        Kind::Tag => normal_tags(list),
        Kind::Mention => normal_mentions(list),
    }
}

/// The texts of a list that may be absent; none where it is.
pub open spec fn given(list: Option<Vec<String>>) -> Seq<String> {
    match list {
        Some(v) => v@,
        None => Seq::empty(),
    }
}

/// The sections of a list that may be absent; none where it is.
pub open spec fn given_sections(list: Option<Vec<Section>>) -> Seq<Section> {
    match list {
        Some(v) => v@,
        None => Seq::empty(),
    }
}

/// Whether a list of texts holds one with the given characters.
fn holds(list: &Vec<String>, text: &String) -> (b: bool)
    ensures
        b == texts(list@).to_set().contains(text@),
{
    let mut i: usize = 0;
    while i < list.len()
        invariant
            i <= list.len(),
            forall|j: int| 0 <= j < i ==> texts(list@)[j] != text@,
        decreases list.len() - i,
    {
        if list[i] == *text {
            assert(texts(list@)[i as int] == text@);
            return true;
        }
        i += 1;
    }
    false
}

/// The text under which an item of a list is indexed, if it is.
fn normalize(kind: Kind, token: &String) -> (r: Option<String>)
    ensures
        match r {
            Some(t) => normal(kind, seq![token@]) == set![t@],
            None => normal(kind, seq![token@]) == Set::<Seq<char>>::empty(),
        },
{
    match kind {
        Kind::Tag => {
            let t = to_lowercase(token.as_str());
            assert(normal(kind, seq![token@]) =~= set![t@]) by {
                assert(seq![token@][0] == token@);
            }
            Some(t)
        },
        Kind::Mention => {
            match strip_prefix_char(token.as_str(), '@') {
                Some(name) => {
                    let t = to_lowercase(name);
                    assert(normal(kind, seq![token@]) =~= set![t@]) by {
                        assert(seq![token@][0] == token@);
                    }
                    Some(t)
                },
                None => {
                    assert(normal(kind, seq![token@]) =~= Set::<Seq<char>>::empty());
                    None
                },
            }
        },
    }
}

/// What one more item adds to the texts that a list gives to index.
proof fn lemma_normal_push(kind: Kind, list: Seq<Seq<char>>, item: Seq<char>)
    ensures
        normal(kind, list.push(item)) == normal(kind, list).union(normal(kind, seq![item])),
{
    let a = normal(kind, list.push(item));
    let b = normal(kind, list).union(normal(kind, seq![item]));
    let one = seq![item];
    let more = list.push(item);
    assert forall|t: Seq<char>| a.contains(t) <==> b.contains(t) by {
        match kind {
            Kind::Tag => {
                if a.contains(t) {
                    let i = choose|i: int| 0 <= i < more.len() && lowercase(#[trigger] more[i]) == t;
                    if i < list.len() {
                        assert(lowercase(list[i]) == t);
                    } else {
                        assert(lowercase(one[0]) == t);
                    }
                }
                if normal(kind, list).contains(t) {
                    let i = choose|i: int| 0 <= i < list.len() && lowercase(#[trigger] list[i]) == t;
                    assert(lowercase(more[i]) == t);
                }
                if normal(kind, one).contains(t) {
                    let i = choose|i: int| 0 <= i < one.len() && lowercase(#[trigger] one[i]) == t;
                    assert(lowercase(more[list.len() as int]) == t);
                }
            },
            Kind::Mention => {
                if a.contains(t) {
                    let i = choose|i: int|
                        0 <= i < more.len() && begins_with(#[trigger] more[i], '@') && mention_name(
                            more[i],
                        ) == t;
                    if i < list.len() {
                        assert(begins_with(list[i], '@') && mention_name(list[i]) == t);
                    } else {
                        assert(begins_with(one[0], '@') && mention_name(one[0]) == t);
                    }
                }
                if normal(kind, list).contains(t) {
                    let i = choose|i: int|
                        0 <= i < list.len() && begins_with(#[trigger] list[i], '@') && mention_name(
                            list[i],
                        ) == t;
                    assert(begins_with(more[i], '@') && mention_name(more[i]) == t);
                }
                if normal(kind, one).contains(t) {
                    let i = choose|i: int|
                        0 <= i < one.len() && begins_with(#[trigger] one[i], '@') && mention_name(
                            one[i],
                        ) == t;
                    assert(begins_with(more[list.len() as int], '@') && mention_name(
                        more[list.len() as int],
                    ) == t);
                }
            },
        }
    }
    assert(a =~= b);
}

/// Indexes the texts of one kind that a list gives for a node, and on an
/// edit takes out of the index what the list no longer gives. Returns the
/// texts indexed, each once.
fn index_texts(store: &mut Storage, kind: Kind, node_id: u32, list: &Vec<String>, is_editing: bool) -> (r:
    Vec<String>)
    requires
        old(store).wf(),
        old(store)@.live(node_id),
    ensures
        final(store).wf(),
        final(store)@ == old(store)@.indexed_as(kind, node_id, normal(kind, texts(list@)), is_editing),
        texts(r@).no_duplicates(),
        texts(r@).to_set() == normal(kind, texts(list@)),
{
    let ghost start = store@;
    let ghost all = texts(list@);
    let mut found: Vec<String> = Vec::new();
    proof {
        start.lemma_adding_none(kind, node_id);
        assert(normal(kind, all.take(0)) =~= Set::<Seq<char>>::empty());
        assert(texts(found@).to_set() =~= Set::<Seq<char>>::empty());
    }
    let mut i: usize = 0;
    while i < list.len()
        invariant
            i <= list.len(),
            all == texts(list@),
            start.live(node_id),
            store.wf(),
            store@.live(node_id),
            store@ == start.adding(kind, node_id, normal(kind, all.take(i as int))),
            texts(found@).no_duplicates(),
            texts(found@).to_set() == normal(kind, all.take(i as int)),
        decreases list.len() - i,
    {
        proof {
            assert(all.take(i + 1) =~= all.take(i as int).push(list@[i as int]@));
            lemma_normal_push(kind, all.take(i as int), list@[i as int]@);
        }
        match normalize(kind, &list[i]) {
            Some(text) => {
                proof {
                    start.lemma_adding_more(
                        kind,
                        node_id,
                        normal(kind, all.take(i as int)),
                        text@,
                    );
                    assert(normal(kind, all.take(i as int)).union(set![text@]) =~= normal(
                        kind,
                        all.take(i as int),
                    ).insert(text@));
                }
                if !holds(&found, &text) {
                    store.link(kind, node_id, text.clone());
                    let ghost before = texts(found@);
                    found.push(text);
                    proof {
                        assert(texts(found@) =~= before.push(text@));
                        before.lemma_push_to_set_commute(text@);
                    }
                } else {
                    proof {
                        let s = normal(kind, all.take(i as int));
                        assert(s.insert(text@) =~= s);
                    }
                }
            },
            None => {
                proof {
                    let s = normal(kind, all.take(i as int));
                    assert(s.union(Set::<Seq<char>>::empty()) =~= s);
                }
            },
        }
        i += 1;
    }
    assert(all.take(i as int) =~= all);
    if is_editing {
        let ghost wanted = normal(kind, all);
        let ghost added = store@;
        let rows = store.indexed_texts(kind, node_id);
        let ghost held = texts(rows@);
        proof {
            added.lemma_dropping_none(kind, node_id);
            assert(held.take(0).to_set().difference(wanted) =~= Set::<Seq<char>>::empty());
        }
        let mut j: usize = 0;
        while j < rows.len()
            invariant
                j <= rows.len(),
                held == texts(rows@),
                held.to_set() == added.nodes[node_id].reverse(kind),
                added.live(node_id),
                store.wf(),
                store@.live(node_id),
                texts(found@).to_set() == wanted,
                store@ == added.dropping(
                    kind,
                    node_id,
                    held.take(j as int).to_set().difference(wanted),
                ),
            decreases rows.len() - j,
        {
            proof {
                assert(held.take(j + 1) =~= held.take(j as int).push(rows@[j as int]@));
                held.take(j as int).lemma_push_to_set_commute(rows@[j as int]@);
            }
            if !holds(&found, &rows[j]) {
                proof {
                    added.lemma_dropping_more(
                        kind,
                        node_id,
                        held.take(j as int).to_set().difference(wanted),
                        rows@[j as int]@,
                    );
                    assert(held.take(j as int).to_set().difference(wanted).insert(rows@[j as int]@)
                        =~= held.take(j + 1).to_set().difference(wanted));
                }
                store.unlink(kind, node_id, &rows[j]);
            } else {
                proof {
                    assert(held.take(j as int).to_set().difference(wanted) =~= held.take(
                        j + 1,
                    ).to_set().difference(wanted));
                }
            }
            j += 1;
        }
        assert(held.take(j as int) =~= held);
    }
    found
}

/// The thread after a node's tags and mentions were given: the lists are
/// kept as given, and both indexes follow them.
pub open spec fn retagged(
    thread: Thread,
    node_id: u32,
    tags: Seq<String>,
    mentions: Seq<String>,
    is_editing: bool,
) -> Thread {
    thread.with_node(node_id, NodeState { tags, mentions, ..thread.nodes[node_id] }).indexed_as(
        Kind::Tag,
        node_id,
        normal_tags(texts(tags)),
        is_editing,
    ).indexed_as(Kind::Mention, node_id, normal_mentions(texts(mentions)), is_editing)
}

/// What a node's side of a text index holds after texts were given: on an
/// edit the texts given and no other, otherwise these beside what it held.
pub open spec fn reconciled(held: Set<Seq<char>>, texts: Set<Seq<char>>, is_editing: bool) -> Set<
    Seq<char>,
> {
    if is_editing {
        texts
    } else {
        held.union(texts)
    }
}

/// What giving a node's tags and mentions makes of the thread: it stays
/// well formed; no node is created or removed; every other node is as it
/// was; the node keeps the lists as given, and its sides of the indexes
/// are reconciled with them; the forward sides follow for this node, and
/// hold for every other node what they held; the rank index stays.
pub proof fn lemma_retagged(
    thread: Thread,
    node_id: u32,
    tags: Seq<String>,
    mentions: Seq<String>,
    is_editing: bool,
)
    requires
        thread.wf(),
        thread.live(node_id),
    ensures
        retagged(thread, node_id, tags, mentions, is_editing).wf(),
        retagged(thread, node_id, tags, mentions, is_editing).nodes.dom() == thread.nodes.dom(),
        retagged(thread, node_id, tags, mentions, is_editing).ranked == thread.ranked,
        retagged(thread, node_id, tags, mentions, is_editing).counter == thread.counter,
        retagged(thread, node_id, tags, mentions, is_editing).nodes[node_id] == (NodeState {
            tags,
            mentions,
            tag_index: reconciled(
                thread.nodes[node_id].tag_index,
                normal_tags(texts(tags)),
                is_editing,
            ),
            mention_index: reconciled(
                thread.nodes[node_id].mention_index,
                normal_mentions(texts(mentions)),
                is_editing,
            ),
            ..thread.nodes[node_id]
        }),
        forall|n: u32|
            n != node_id ==> #[trigger] retagged(thread, node_id, tags, mentions, is_editing).nodes[n]
                == thread.nodes[n],
        forall|k: (Seq<char>, u32)|
            #[trigger] retagged(thread, node_id, tags, mentions, is_editing).tag_nodes.contains(k)
                <==> (if k.1 == node_id {
                normal_tags(texts(tags)).contains(k.0) || (!is_editing && thread.tag_nodes.contains(
                    k,
                ))
            } else {
                thread.tag_nodes.contains(k)
            }),
        forall|k: (Seq<char>, u32)|
            #[trigger] retagged(
                thread,
                node_id,
                tags,
                mentions,
                is_editing,
            ).mention_nodes.contains(k) <==> (if k.1 == node_id {
                normal_mentions(texts(mentions)).contains(k.0) || (!is_editing
                    && thread.mention_nodes.contains(k))
            } else {
                thread.mention_nodes.contains(k)
            }),
{
    let kept = thread.with_node(node_id, NodeState { tags, mentions, ..thread.nodes[node_id] });
    assert(thread.node_local(node_id));
    thread.lemma_with_node_content(node_id, NodeState { tags, mentions, ..thread.nodes[node_id] });
    assert(kept.nodes.dom() =~= thread.nodes.dom());
    let tagged = kept.indexed_as(Kind::Tag, node_id, normal_tags(texts(tags)), is_editing);
    kept.lemma_indexed_as(Kind::Tag, node_id, normal_tags(texts(tags)), is_editing);
    let done = tagged.indexed_as(
        Kind::Mention,
        node_id,
        normal_mentions(texts(mentions)),
        is_editing,
    );
    tagged.lemma_indexed_as(Kind::Mention, node_id, normal_mentions(texts(mentions)), is_editing);
    assert(done == retagged(thread, node_id, tags, mentions, is_editing));
    assert forall|k: (Seq<char>, u32)| #[trigger] done.tag_nodes.contains(k) <==> (if k.1
        == node_id {
        normal_tags(texts(tags)).contains(k.0) || (!is_editing && thread.tag_nodes.contains(k))
    } else {
        thread.tag_nodes.contains(k)
    }) by {
        assert(done.tag_nodes == tagged.tag_nodes);
        assert(tagged.forward(Kind::Tag).contains(k) == tagged.tag_nodes.contains(k));
        assert(kept.forward(Kind::Tag).contains(k) == thread.tag_nodes.contains(k));
    }
    assert forall|k: (Seq<char>, u32)| #[trigger] done.mention_nodes.contains(k) <==> (if k.1
        == node_id {
        normal_mentions(texts(mentions)).contains(k.0) || (!is_editing
            && thread.mention_nodes.contains(k))
    } else {
        thread.mention_nodes.contains(k)
    }) by {
        assert(done.forward(Kind::Mention).contains(k) == done.mention_nodes.contains(k));
        assert(tagged.forward(Kind::Mention).contains(k) == thread.mention_nodes.contains(k));
    }
    assert forall|n: u32| n != node_id implies #[trigger] done.nodes[n] == thread.nodes[n] by {
        assert(tagged.nodes[n] == kept.nodes[n]);
    }
}

/// Why a node's tags and mentions cannot be indexed, if they cannot: a list
/// is refused, or the node does not exist.
pub open spec fn index_fault(
    thread: Thread,
    node_id: u32,
    maybe_tags: Option<Vec<String>>,
    maybe_mentions: Option<Vec<String>>,
) -> Option<Fault> {
    if tags_fault(opt_texts(maybe_tags)) is Some {
        Some(invalid(tags_fault(opt_texts(maybe_tags))->Some_0))
    } else if mentions_fault(opt_texts(maybe_mentions)) is Some {
        Some(invalid(mentions_fault(opt_texts(maybe_mentions))->Some_0))
    } else if !thread.live(node_id) {
        Some(missing(node_id))
    } else {
        None
    }
}

/// Validates a node's tags and mentions, keeps them as given, and indexes
/// them in lower case. Returns the tags and the accounts mentioned as they
/// are indexed, each once. Where there is a fault nothing changes.
pub fn process_tags_and_mentions(
    store: &mut Storage,
    node_id: u32,
    maybe_tags: Option<Vec<String>>,
    maybe_mentions: Option<Vec<String>>,
    is_editing: bool,
) -> (r: Result<(Vec<String>, Vec<String>), ContractError>)
    requires
        old(store).wf(),
    ensures
        final(store).wf(),
        match r {
            Ok((tags, mentions)) => {
                &&& index_fault(old(store)@, node_id, maybe_tags, maybe_mentions) is None
                &&& final(store)@ == retagged(
                    old(store)@,
                    node_id,
                    given(maybe_tags),
                    given(maybe_mentions),
                    is_editing,
                )
                &&& texts(tags@).no_duplicates()
                &&& texts(tags@).to_set() == normal_tags(texts(given(maybe_tags)))
                &&& texts(mentions@).no_duplicates()
                &&& texts(mentions@).to_set() == normal_mentions(texts(given(maybe_mentions)))
            },
            Err(e) => {
                &&& final(store)@ == old(store)@
                &&& index_fault(old(store)@, node_id, maybe_tags, maybe_mentions) == Some(e@)
            },
        },
{
    match validate_tags(&maybe_tags) {
        Err(e) => {
            return Err(e);
        },
        Ok(()) => {},
    }
    match validate_mentions(&maybe_mentions) {
        Err(e) => {
            return Err(e);
        },
        Ok(()) => {},
    }
    if !store.has_node(node_id) {
        return Err(ContractError::NodeNotFound { node_id });
    }
    let tag_list = match maybe_tags {
        Some(v) => v,
        None => Vec::new(),
    };
    let mention_list = match maybe_mentions {
        Some(v) => v,
        None => Vec::new(),
    };
    let tags = index_texts(store, Kind::Tag, node_id, &tag_list, is_editing);
    let mentions = index_texts(store, Kind::Mention, node_id, &mention_list, is_editing);
    let ghost indexed = store@;
    store.set_given_texts(node_id, tag_list, mention_list);
    proof {
        let a = store@;
        let b = retagged(
            old(store)@,
            node_id,
            given(maybe_tags),
            given(maybe_mentions),
            is_editing,
        );
        assert(a.nodes =~= b.nodes);
        assert(a.tag_nodes =~= b.tag_nodes);
        assert(a.mention_nodes =~= b.mention_nodes);
    }
    Ok((tags, mentions))
}

} // verus!
