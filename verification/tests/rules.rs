use cw_thread::contract::{execute, instantiate, migrate, query};
use cw_thread::error::ContractError;
use cw_thread::execute::delete_node::{exec_delete_node, purge_contract_state};
use cw_thread::execute::edit_node::exec_edit_node;
use cw_thread::execute::flags::{exec_flag, exec_unflag};
use cw_thread::execute::lifecycle::{exec_resume, exec_setup, exec_suspend, exec_teardown};
use cw_thread::execute::reply::exec_reply;
use cw_thread::execute::set_config::exec_set_config;
use cw_thread::execute::tip::{exec_tip, transfer_message};
use cw_thread::execute::toggle_save::exec_toggle_save;
use cw_thread::execute::vote::{exec_vote, exec_votes, update_node_rank};
use cw_thread::execute::{attr, Context, Env, Message, MessageInfo, Response};
use cw_thread::msg::{
    ConfigUpdateMsg, ExecuteMsg, InstantiateMsg, LifecycleArgs, LifecycleExecuteMsg,
    LifecycleSetupArgs, MigrateMsg, NodeEditMsg, NodeReplyMsg, NodeVoteMsg, NodesQueryMsg,
    QueryMsg, QueryResponse, Sentiment,
};
use cw_thread::query::config::query_config;
use cw_thread::query::info::query_thread_info;
use cw_thread::query::nodes::{
    query_ancestor_nodes, query_nodes_by_id, query_nodes_by_tag_or_callout,
    query_nodes_in_reply_to, TagWrapper,
};
use cw_thread::state::models::{
    Coin, Owner, Section, TableMetadata, Token, TokenAmount, DOWN, NIL, ROOT_ID, UP,
};
use cw_thread::state::storage::Storage;
use cw_thread::state::views::{load_mentions, load_tags, ConfigView, NodeAccountView, NodeView};
use cw_thread::state::{init, is_action_authorized};
use cw_thread::text::{decimal_string, is_blank, join3, starts_with_char, strip_prefix_char};
use cw_thread::util::{load_node_metadata, next_node_id, process_tags_and_mentions};
use cw_thread::validation::{
    validate_body, validate_mentions, validate_sections, validate_tags, validate_title,
};

fn ctx(sender: &str) -> Context {
    ctx_with(sender, vec![])
}

fn ctx_with(sender: &str, funds: Vec<Coin>) -> Context {
    Context {
        env: Env { time: 1_000, contract_address: "thread".to_string() },
        info: MessageInfo { sender: sender.to_string(), funds },
        acl_allows: false,
    }
}

fn coin(amount: u128, denom: &str) -> Coin {
    Coin { denom: denom.to_string(), amount }
}

fn plain_thread() -> Storage {
    init(
        &ctx("creator"),
        InstantiateMsg {
            owner: None,
            title: Some("A thread".to_string()),
            body: Some("First post".to_string()),
            sections: None,
            tags: None,
            mentions: None,
            config: ConfigView {
                tip_tokens: vec![
                    Token::Denom("uatom".to_string()),
                    Token::Address("ledger".to_string()),
                ],
            },
        },
    )
    .unwrap()
}

fn reply(store: &mut Storage, sender: &str, parent_id: u32) -> u32 {
    exec_reply(
        store,
        &ctx(sender),
        NodeReplyMsg {
            parent_id,
            body: "A reply".to_string(),
            sections: None,
            tags: None,
            mentions: None,
        },
    )
    .unwrap()
    .node_id
    .unwrap()
}

fn tagged_reply(store: &mut Storage, sender: &str, tags: &[&str], mentions: &[&str]) -> u32 {
    exec_reply(
        store,
        &ctx(sender),
        NodeReplyMsg {
            parent_id: ROOT_ID,
            body: "A reply".to_string(),
            sections: None,
            tags: Some(tags.iter().map(|t| t.to_string()).collect()),
            mentions: Some(mentions.iter().map(|t| t.to_string()).collect()),
        },
    )
    .unwrap()
    .node_id
    .unwrap()
}

fn vote(store: &mut Storage, sender: &str, id: u32, sentiment: Sentiment) {
    exec_vote(store, &ctx(sender), NodeVoteMsg { id, sentiment }).unwrap();
}

fn meta(store: &Storage, id: u32) -> cw_thread::state::models::NodeMetadata {
    load_node_metadata(store, id, true).unwrap().unwrap()
}

fn ids_with(store: &Storage, wrapped: TagWrapper) -> Vec<u32> {
    query_nodes_by_tag_or_callout(store, wrapped, None, None)
        .unwrap()
        .nodes
        .iter()
        .map(|n| n.metadata.id)
        .collect()
}

fn child_ids(store: &Storage, parent: u32) -> Vec<u32> {
    query_nodes_in_reply_to(store, parent, None, None, None)
        .unwrap()
        .nodes
        .iter()
        .map(|n| n.metadata.id)
        .collect()
}

fn reason_of(r: Result<(), ContractError>) -> String {
    match r {
        Err(ContractError::ValidationError { reason }) => reason,
        other => panic!("expected a validation error, got {:?}", other),
    }
}

// ---------------------------------------------------------------------------
// What holds of every thread, on chosen values
// ---------------------------------------------------------------------------

#[test]
fn reply_count_follows_the_replies() {
    let mut store = plain_thread();
    let a = reply(&mut store, "u1", ROOT_ID);
    let b = reply(&mut store, "u2", ROOT_ID);
    let c = reply(&mut store, "u3", a);
    assert_eq!((a, b, c), (1, 2, 3));
    assert_eq!(meta(&store, ROOT_ID).n_replies, 2);
    assert_eq!(child_ids(&store, ROOT_ID).len(), 2);
    assert_eq!(meta(&store, a).n_replies, 1);
    assert_eq!(child_ids(&store, a), vec![c]);
    assert_eq!(meta(&store, b).n_replies, 0);
    assert_eq!(child_ids(&store, b), Vec::<u32>::new());
    exec_delete_node(&mut store, &ctx("u3"), c).unwrap();
    assert_eq!(meta(&store, a).n_replies, 0);
    assert_eq!(child_ids(&store, a), Vec::<u32>::new());
}

#[test]
fn rank_index_holds_each_reply_once_at_its_rank() {
    let mut store = plain_thread();
    let a = reply(&mut store, "u1", ROOT_ID);
    let b = reply(&mut store, "u1", ROOT_ID);
    vote(&mut store, "v1", a, Sentiment::Down);
    vote(&mut store, "v2", b, Sentiment::Up);
    vote(&mut store, "v3", b, Sentiment::Up);
    vote(&mut store, "v1", a, Sentiment::Up);
    let page = query_nodes_in_reply_to(&store, ROOT_ID, None, None, None).unwrap();
    let keys: Vec<(u32, i32)> = page.nodes.iter().map(|n| (n.metadata.id, n.metadata.rank)).collect();
    assert_eq!(keys, vec![(b, 2), (a, 1)]);
    assert_eq!(meta(&store, a).rank, 1);
    assert_eq!(meta(&store, b).rank, 2);
}

#[test]
fn same_vote_twice_returns_the_rank() {
    let mut store = plain_thread();
    let a = reply(&mut store, "u1", ROOT_ID);
    vote(&mut store, "other", a, Sentiment::Up);
    let before = meta(&store, a).rank;
    vote(&mut store, "v", a, Sentiment::Up);
    assert_eq!(meta(&store, a).rank, before + 1);
    vote(&mut store, "v", a, Sentiment::Up);
    assert_eq!(meta(&store, a).rank, before);
    let view = NodeView::load(&store, a, &Some("v".to_string())).unwrap();
    assert_eq!(view.account, Some(NodeAccountView { sentiment: None, saved: false }));
    vote(&mut store, "v", a, Sentiment::Down);
    vote(&mut store, "v", a, Sentiment::Down);
    assert_eq!(meta(&store, a).rank, before);
}

#[test]
fn change_of_side_equals_the_second_vote_alone() {
    let mut switched = plain_thread();
    let a = reply(&mut switched, "u1", ROOT_ID);
    vote(&mut switched, "v", a, Sentiment::Up);
    vote(&mut switched, "v", a, Sentiment::Down);

    let mut direct = plain_thread();
    let b = reply(&mut direct, "u1", ROOT_ID);
    vote(&mut direct, "v", b, Sentiment::Down);

    assert_eq!(meta(&switched, a).rank, -1);
    assert_eq!(meta(&switched, a).rank, meta(&direct, b).rank);
    let view = NodeView::load(&switched, a, &Some("v".to_string())).unwrap();
    assert_eq!(view.account.unwrap().sentiment, Some(Sentiment::Down));
}

#[test]
fn indexes_mirror_each_other() {
    let mut store = plain_thread();
    let a = tagged_reply(&mut store, "u1", &["Rust", "web"], &["@Bob"]);
    let b = tagged_reply(&mut store, "u2", &["rust"], &["@bob", "@carol"]);
    let mut tags_a = load_tags(&store, a).unwrap();
    tags_a.sort();
    assert_eq!(tags_a, vec!["rust".to_string(), "web".to_string()]);
    assert_eq!(load_tags(&store, b).unwrap(), vec!["rust".to_string()]);
    assert_eq!(load_mentions(&store, a).unwrap(), vec!["bob".to_string()]);
    let mut mentions_b = load_mentions(&store, b).unwrap();
    mentions_b.sort();
    assert_eq!(mentions_b, vec!["bob".to_string(), "carol".to_string()]);
    assert_eq!(ids_with(&store, TagWrapper::Tag("rust".to_string())), vec![b, a]);
    assert_eq!(ids_with(&store, TagWrapper::Tag("web".to_string())), vec![a]);
    assert_eq!(ids_with(&store, TagWrapper::Mention("bob".to_string())), vec![b, a]);
    assert_eq!(ids_with(&store, TagWrapper::Mention("carol".to_string())), vec![b]);
    assert_eq!(ids_with(&store, TagWrapper::Tag("bob".to_string())), Vec::<u32>::new());
    exec_delete_node(&mut store, &ctx("u1"), a).unwrap();
    assert_eq!(ids_with(&store, TagWrapper::Tag("rust".to_string())), vec![b]);
    assert_eq!(ids_with(&store, TagWrapper::Tag("web".to_string())), Vec::<u32>::new());
    assert_eq!(ids_with(&store, TagWrapper::Mention("bob".to_string())), vec![b]);
    assert_eq!(load_tags(&store, a).unwrap(), Vec::<String>::new());
}

#[test]
fn delete_removes_the_node_and_all_below_it() {
    let mut store = plain_thread();
    let a = reply(&mut store, "u1", ROOT_ID);
    let b = reply(&mut store, "u2", a);
    let c = reply(&mut store, "u3", b);
    let d = reply(&mut store, "u4", a);
    let e = reply(&mut store, "u5", ROOT_ID);
    let f = reply(&mut store, "u6", e);
    vote(&mut store, "v", c, Sentiment::Up);
    exec_flag(&mut store, &ctx("v"), b, None).unwrap();
    exec_delete_node(&mut store, &ctx("u1"), a).unwrap();
    for gone in [a, b, c, d] {
        let err = query_nodes_by_id(&store, vec![gone], None).unwrap_err();
        assert_eq!(err, ContractError::NodeNotFound { node_id: gone });
        assert_eq!(load_node_metadata(&store, gone, false).unwrap(), None);
    }
    assert_eq!(query_nodes_by_id(&store, vec![ROOT_ID, e, f], None).unwrap().len(), 3);
    assert_eq!(child_ids(&store, ROOT_ID), vec![e]);
    assert_eq!(child_ids(&store, e), vec![f]);
}

#[test]
fn delete_counts_one_reply_less_for_the_parent_only() {
    let mut store = plain_thread();
    let a = reply(&mut store, "u1", ROOT_ID);
    let b = reply(&mut store, "u1", a);
    let c = reply(&mut store, "u1", b);
    let _d = reply(&mut store, "u1", c);
    let _e = reply(&mut store, "u1", b);
    assert_eq!(meta(&store, ROOT_ID).n_replies, 1);
    assert_eq!(meta(&store, a).n_replies, 1);
    assert_eq!(meta(&store, b).n_replies, 2);
    exec_delete_node(&mut store, &ctx("u1"), c).unwrap();
    assert_eq!(meta(&store, b).n_replies, 1);
    assert_eq!(meta(&store, a).n_replies, 1);
    assert_eq!(meta(&store, ROOT_ID).n_replies, 1);
    exec_delete_node(&mut store, &ctx("u1"), b).unwrap();
    assert_eq!(meta(&store, a).n_replies, 0);
    assert_eq!(meta(&store, ROOT_ID).n_replies, 1);
}

// ---------------------------------------------------------------------------
// Scenarios
// ---------------------------------------------------------------------------

#[test]
fn scenario_reply_vote_and_switch() {
    let mut store = plain_thread();
    let a = reply(&mut store, "author", ROOT_ID);
    assert_eq!(meta(&store, ROOT_ID).n_replies, 1);
    assert_eq!(meta(&store, a).rank, 0);
    vote(&mut store, "u", a, Sentiment::Up);
    assert_eq!(meta(&store, a).rank, 1);
    vote(&mut store, "u", a, Sentiment::Down);
    assert_eq!(meta(&store, a).rank, -1);
    let page = query_nodes_in_reply_to(&store, ROOT_ID, None, None, None).unwrap();
    assert_eq!(page.nodes.len(), 1);
    assert_eq!(page.nodes[0].metadata.id, a);
    assert_eq!(page.nodes[0].metadata.rank, -1);
}

#[test]
fn scenario_edit_replaces_tags() {
    let mut store = plain_thread();
    let a = tagged_reply(&mut store, "author", &["x"], &[]);
    exec_edit_node(
        &mut store,
        &ctx("author"),
        NodeEditMsg {
            id: a,
            title: None,
            body: Some("Edited".to_string()),
            sections: None,
            tags: Some(vec!["y".to_string()]),
            mentions: None,
        },
    )
    .unwrap();
    assert_eq!(ids_with(&store, TagWrapper::Tag("x".to_string())), Vec::<u32>::new());
    assert_eq!(ids_with(&store, TagWrapper::Tag("y".to_string())), vec![a]);
    assert_eq!(load_tags(&store, a).unwrap(), vec!["y".to_string()]);
    let view = NodeView::load(&store, a, &None).unwrap();
    assert_eq!(view.body, "Edited".to_string());
    assert_eq!(view.tags, vec!["y".to_string()]);
    assert_eq!(view.metadata.updated_at, Some(1_000));
}

#[test]
fn scenario_delete_one_of_three_replies() {
    let mut store = plain_thread();
    assert_eq!(reply(&mut store, "u", ROOT_ID), 1);
    assert_eq!(reply(&mut store, "u", ROOT_ID), 2);
    assert_eq!(reply(&mut store, "u", ROOT_ID), 3);
    exec_delete_node(&mut store, &ctx("u"), 1).unwrap();
    assert_eq!(
        query_nodes_by_id(&store, vec![1], None).unwrap_err(),
        ContractError::NodeNotFound { node_id: 1 }
    );
    assert_eq!(meta(&store, ROOT_ID).n_replies, 2);
    let left = query_nodes_by_id(&store, vec![2, 3], None).unwrap();
    assert_eq!(left.iter().map(|n| n.metadata.id).collect::<Vec<u32>>(), vec![2, 3]);
}

#[test]
fn scenario_tips_refused() {
    let mut store = plain_thread();
    let unlisted = exec_tip(
        &mut store,
        &ctx_with("tipper", vec![coin(100, "uosmo")]),
        TokenAmount { token: Token::Denom("uosmo".to_string()), amount: 100 },
    );
    assert_eq!(unlisted.unwrap_err(), ContractError::UnauthorizedTipToken { token: "uosmo".to_string() });
    let short = exec_tip(
        &mut store,
        &ctx_with("tipper", vec![coin(99, "uatom")]),
        TokenAmount { token: Token::Denom("uatom".to_string()), amount: 100 },
    );
    assert_eq!(
        short.unwrap_err(),
        ContractError::InsufficientFunds { details: "Expected 100uatom for tip".to_string() }
    );
    let own = exec_tip(
        &mut store,
        &ctx_with("creator", vec![coin(100, "uatom")]),
        TokenAmount { token: Token::Denom("uatom".to_string()), amount: 100 },
    );
    assert_eq!(
        own.unwrap_err(),
        ContractError::NotAuthorized { reason: "Cannot tip yourself".to_string() }
    );
    assert_eq!(query_thread_info(&store, None).unwrap().tips, vec![]);
}

// ---------------------------------------------------------------------------
// Validation
// ---------------------------------------------------------------------------

#[test]
fn title_limits() {
    assert_eq!(validate_title("A title"), Ok(()));
    assert_eq!(validate_title(&"t".repeat(200)), Ok(()));
    assert_eq!(
        reason_of(validate_title(&"t".repeat(201))),
        "Title length exceeds maximum of 200 characters"
    );
    assert_eq!(reason_of(validate_title("")), "Title cannot be empty");
    assert_eq!(reason_of(validate_title(" \t\n")), "Title cannot be empty");
    assert_eq!(validate_title("  padded  "), Ok(()));
    // The limit counts bytes: 100 letters of two bytes each fit, 101 do not.
    assert_eq!(validate_title(&"é".repeat(100)), Ok(()));
    assert!(validate_title(&"é".repeat(101)).is_err());
}

#[test]
fn body_limits() {
    assert_eq!(validate_body("Some text"), Ok(()));
    assert_eq!(validate_body(&"b".repeat(50_000)), Ok(()));
    assert_eq!(
        reason_of(validate_body(&"b".repeat(50_001))),
        "Body length exceeds maximum of 50000 characters"
    );
    assert_eq!(reason_of(validate_body("   ")), "Body cannot be empty");
}

#[test]
fn tag_limits() {
    assert_eq!(validate_tags(&None), Ok(()));
    assert_eq!(validate_tags(&Some(vec![])), Ok(()));
    let ten: Vec<String> = (0..10).map(|i| format!("tag{}", i)).collect();
    assert_eq!(validate_tags(&Some(ten)), Ok(()));
    let eleven: Vec<String> = (0..11).map(|i| format!("tag{}", i)).collect();
    assert_eq!(reason_of(validate_tags(&Some(eleven))), "Number of tags exceeds maximum of 10");
    assert_eq!(validate_tags(&Some(vec!["t".repeat(30)])), Ok(()));
    assert_eq!(
        reason_of(validate_tags(&Some(vec!["ok".to_string(), "t".repeat(31)]))),
        format!("Tag '{}' exceeds maximum length of 30 characters", "t".repeat(31))
    );
    assert_eq!(reason_of(validate_tags(&Some(vec![" ".to_string()]))), "Tag cannot be empty");
    assert_eq!(
        reason_of(validate_tags(&Some(vec!["a_b-c".to_string(), "a b".to_string(), "".to_string()]))),
        "Tag 'a b' contains invalid characters. Only alphanumeric, hyphens, and underscores allowed"
    );
    assert_eq!(validate_tags(&Some(vec!["été".to_string(), "日本語".to_string()])), Ok(()));
    assert!(validate_tags(&Some(vec!["semi;colon".to_string()])).is_err());
}

#[test]
fn mention_limits() {
    assert_eq!(validate_mentions(&None), Ok(()));
    let twenty: Vec<String> = (0..20).map(|i| format!("@user{}", i)).collect();
    assert_eq!(validate_mentions(&Some(twenty)), Ok(()));
    let more: Vec<String> = (0..21).map(|i| format!("@user{}", i)).collect();
    assert_eq!(
        reason_of(validate_mentions(&Some(more))),
        "Number of mentions exceeds maximum of 20"
    );
    assert_eq!(
        reason_of(validate_mentions(&Some(vec!["@ok".to_string(), "bob".to_string()]))),
        "Mention 'bob' must start with @"
    );
    assert_eq!(reason_of(validate_mentions(&Some(vec!["@".to_string()]))), "Mention cannot be just @");
    assert_eq!(reason_of(validate_mentions(&Some(vec!["".to_string()]))), "Mention '' must start with @");
}

#[test]
fn section_limits() {
    assert_eq!(validate_sections(&None), Ok(()));
    let twenty: Vec<Section> = (0..20).map(|_| Section::Text("text".to_string())).collect();
    assert_eq!(validate_sections(&Some(twenty)), Ok(()));
    let more: Vec<Section> = (0..21).map(|_| Section::Text("text".to_string())).collect();
    assert_eq!(
        reason_of(validate_sections(&Some(more))),
        "Number of sections exceeds maximum of 20"
    );
    let good = vec![
        Section::Text("text".to_string()),
        Section::Image("https://example.org/a.png".to_string()),
        Section::Code { lang: Some("rust".to_string()), text: "fn main() {}".to_string() },
        Section::Code { lang: None, text: "x".to_string() },
        Section::Link { text: Some("here".to_string()), url: "https://example.org".to_string() },
        Section::Link { text: None, url: "https://example.org".to_string() },
    ];
    assert_eq!(validate_sections(&Some(good.clone())), Ok(()));
    let with = |bad: Section| {
        let mut list = good.clone();
        list.push(bad);
        reason_of(validate_sections(&Some(list)))
    };
    assert_eq!(with(Section::Text(" ".to_string())), "Section 6 text content cannot be empty");
    assert_eq!(
        with(Section::Text("t".repeat(50_001))),
        "Section 6 text exceeds maximum length of 50000 characters"
    );
    assert_eq!(with(Section::Image("".to_string())), "Section 6 image URL cannot be empty");
    assert_eq!(
        with(Section::Code { lang: None, text: " ".to_string() }),
        "Section 6 code content cannot be empty"
    );
    assert_eq!(
        with(Section::Code { lang: None, text: "c".repeat(50_001) }),
        "Section 6 code exceeds maximum length of 50000 characters"
    );
    assert_eq!(
        with(Section::Code { lang: Some(" ".to_string()), text: "x".to_string() }),
        "Section 6 code language cannot be empty if specified"
    );
    assert_eq!(
        with(Section::Link { text: None, url: " ".to_string() }),
        "Section 6 link URL cannot be empty"
    );
    assert_eq!(
        with(Section::Link { text: Some("".to_string()), url: "u".to_string() }),
        "Section 6 link text cannot be empty if specified"
    );
    let mut long: Vec<Section> = (0..12).map(|_| Section::Text("text".to_string())).collect();
    long.push(Section::Image(" ".to_string()));
    assert_eq!(reason_of(validate_sections(&Some(long))), "Section 12 image URL cannot be empty");
}

#[test]
fn text_helpers() {
    assert_eq!(decimal_string(0), "0");
    assert_eq!(decimal_string(7), "7");
    assert_eq!(decimal_string(10), "10");
    assert_eq!(decimal_string(1234567890), "1234567890");
    assert_eq!(decimal_string(u128::MAX), "340282366920938463463374607431768211455");
    assert!(is_blank("") && is_blank(" \t\r\n") && is_blank("\u{a0}"));
    assert!(!is_blank(" a ") && !is_blank("_"));
    assert_eq!(join3("a", "", "bc"), "abc");
    assert!(starts_with_char("@x", '@') && !starts_with_char("x@", '@') && !starts_with_char("", '@'));
    assert_eq!(strip_prefix_char("@Ann", '@'), Some("Ann"));
    assert_eq!(strip_prefix_char("@", '@'), Some(""));
    assert_eq!(strip_prefix_char("Ann", '@'), None);
    assert_eq!(strip_prefix_char("éa", 'é'), Some("a"));
}

#[test]
fn tags_are_indexed_under_their_lower_case_form() {
    let mut store = plain_thread();
    let a = tagged_reply(&mut store, "u", &["RuSt-Lang_1", "ÉTÉ"], &["@ÉMILE"]);
    let mut tags = load_tags(&store, a).unwrap();
    tags.sort();
    assert_eq!(tags, vec!["rust-lang_1".to_string(), "été".to_string()]);
    assert_eq!(load_mentions(&store, a).unwrap(), vec!["émile".to_string()]);
    assert_eq!(ids_with(&store, TagWrapper::Tag("Été".to_string())), vec![a]);
    assert_eq!(ids_with(&store, TagWrapper::Mention("Émile".to_string())), vec![a]);
}

// ---------------------------------------------------------------------------
// Creating the thread and replying
// ---------------------------------------------------------------------------

#[test]
fn init_makes_the_first_node() {
    let store = init(
        &ctx("creator"),
        InstantiateMsg {
            owner: None,
            title: None,
            body: None,
            sections: Some(vec![Section::Text("s".to_string())]),
            tags: Some(vec!["One".to_string(), "one".to_string()]),
            mentions: Some(vec!["@Ann".to_string()]),
            config: ConfigView { tip_tokens: vec![] },
        },
    )
    .unwrap();
    let info = query_thread_info(&store, Some("creator".to_string())).unwrap();
    assert_eq!(info.owner, Owner::Address("creator".to_string()));
    assert_eq!(info.table, None);
    assert_eq!(info.n_total_replies, 0);
    assert_eq!(info.config, ConfigView { tip_tokens: vec![] });
    let root = info.root;
    assert_eq!(root.metadata.id, ROOT_ID);
    assert_eq!(root.metadata.parent_id, None);
    assert_eq!(root.metadata.created_by, "creator");
    assert_eq!(root.metadata.created_at, 1_000);
    assert_eq!(root.metadata.updated_at, None);
    assert_eq!((root.metadata.rank, root.metadata.depth), (0, 0));
    assert_eq!((root.metadata.n_replies, root.metadata.n_sections, root.metadata.n_flags), (0, 1, 0));
    assert_eq!(root.title, None);
    assert_eq!(root.body, "");
    assert_eq!(root.tags, vec!["One".to_string(), "one".to_string()]);
    assert_eq!(root.mentions, vec!["@Ann".to_string()]);
    assert_eq!(root.account, Some(NodeAccountView { sentiment: None, saved: false }));
    assert_eq!(load_tags(&store, ROOT_ID).unwrap(), vec!["one".to_string()]);
    assert_eq!(load_mentions(&store, ROOT_ID).unwrap(), vec!["ann".to_string()]);
    assert_eq!(query_config(&store).unwrap().0.tip_tokens, vec![]);
}

#[test]
fn init_refuses_too_many_tip_tokens() {
    let tokens: Vec<Token> = (0..11).map(|i| Token::Denom(format!("u{}", i))).collect();
    let err = init(
        &ctx("creator"),
        InstantiateMsg {
            owner: None,
            title: None,
            body: None,
            sections: None,
            tags: None,
            mentions: None,
            config: ConfigView { tip_tokens: tokens },
        },
    )
    .unwrap_err();
    assert_eq!(
        err,
        ContractError::ValidationError { reason: "Max number of tip token types is 10".to_string() }
    );
}

#[test]
fn reply_stores_the_node_under_its_parent() {
    let mut store = plain_thread();
    let resp = exec_reply(
        &mut store,
        &ctx("author"),
        NodeReplyMsg {
            parent_id: ROOT_ID,
            body: "Hello".to_string(),
            sections: Some(vec![Section::Image("u".to_string()), Section::Text("t".to_string())]),
            tags: Some(vec!["A".to_string(), "a".to_string(), "b".to_string()]),
            mentions: Some(vec!["@X".to_string()]),
        },
    )
    .unwrap();
    assert_eq!(resp.node_id, Some(1));
    assert_eq!(resp.messages, vec![]);
    assert_eq!(
        resp.attributes,
        vec![attr("action", "reply"), attr("parent_id", "0"), attr("reply_id", "1")]
    );
    let view = NodeView::load(&store, 1, &None).unwrap();
    assert_eq!(view.metadata.id, 1);
    assert_eq!(view.metadata.parent_id, Some(ROOT_ID));
    assert_eq!(view.metadata.created_by, "author");
    assert_eq!(view.metadata.created_at, 1_000);
    assert_eq!((view.metadata.rank, view.metadata.depth), (0, 1));
    assert_eq!((view.metadata.n_replies, view.metadata.n_sections, view.metadata.n_flags), (0, 2, 0));
    assert_eq!(view.title, None);
    assert_eq!(view.body, "Hello");
    assert_eq!(view.sections, vec![Section::Image("u".to_string()), Section::Text("t".to_string())]);
    assert_eq!(view.tags, vec!["A".to_string(), "a".to_string(), "b".to_string()]);
    assert_eq!(view.account, None);
    let mut indexed = load_tags(&store, 1).unwrap();
    indexed.sort();
    assert_eq!(indexed, vec!["a".to_string(), "b".to_string()]);
    assert_eq!(query_thread_info(&store, None).unwrap().n_total_replies, 1);
}

#[test]
fn refused_reply_changes_nothing() {
    let mut store = plain_thread();
    let err = exec_reply(
        &mut store,
        &ctx("author"),
        NodeReplyMsg {
            parent_id: ROOT_ID,
            body: "Hello".to_string(),
            sections: None,
            tags: Some(vec!["fine".to_string(), "not fine".to_string()]),
            mentions: None,
        },
    )
    .unwrap_err();
    assert!(matches!(err, ContractError::ValidationError { .. }));
    assert_eq!(meta(&store, ROOT_ID).n_replies, 0);
    assert_eq!(query_thread_info(&store, None).unwrap().n_total_replies, 0);
    assert_eq!(ids_with(&store, TagWrapper::Tag("fine".to_string())), Vec::<u32>::new());
    assert_eq!(load_node_metadata(&store, 1, false).unwrap(), None);
}

#[test]
fn replies_stop_at_the_greatest_depth() {
    let mut store = plain_thread();
    let mut parent = ROOT_ID;
    for _ in 0..255 {
        parent = reply(&mut store, "u", parent);
    }
    assert_eq!(meta(&store, parent).depth, 255);
    let err = exec_reply(
        &mut store,
        &ctx("u"),
        NodeReplyMsg {
            parent_id: parent,
            body: "Too deep".to_string(),
            sections: None,
            tags: None,
            mentions: None,
        },
    )
    .unwrap_err();
    assert_eq!(
        err,
        ContractError::ValidationError { reason: "Maximum depth of replies exceeded".to_string() }
    );
    assert_eq!(meta(&store, parent).n_replies, 0);
    assert_eq!(query_ancestor_nodes(&store, parent, Some(255), None).unwrap().len(), 255);
    exec_delete_node(&mut store, &ctx("u"), 1).unwrap();
    assert_eq!(meta(&store, ROOT_ID).n_replies, 0);
    assert_eq!(load_node_metadata(&store, parent, false).unwrap(), None);
}

#[test]
fn identifiers_are_not_issued_twice() {
    let mut store = plain_thread();
    assert_eq!(reply(&mut store, "u", ROOT_ID), 1);
    exec_delete_node(&mut store, &ctx("u"), 1).unwrap();
    assert_eq!(reply(&mut store, "u", ROOT_ID), 2);
    assert_eq!(next_node_id(&mut store).unwrap(), 3);
    assert_eq!(reply(&mut store, "u", ROOT_ID), 4);
}

#[test]
fn lookup_is_strict_on_demand() {
    let store = plain_thread();
    assert_eq!(load_node_metadata(&store, 5, false), Ok(None));
    assert_eq!(load_node_metadata(&store, 5, true), Err(ContractError::NodeNotFound { node_id: 5 }));
    assert_eq!(load_node_metadata(&store, ROOT_ID, true).unwrap().unwrap().id, ROOT_ID);
}

// ---------------------------------------------------------------------------
// Voting
// ---------------------------------------------------------------------------

#[test]
fn sentiment_numbers() {
    assert_eq!(Sentiment::Up.to_u8(), UP);
    assert_eq!(Sentiment::Down.to_u8(), DOWN);
    assert_eq!(Sentiment::from_u8(UP), Some(Sentiment::Up));
    assert_eq!(Sentiment::from_u8(DOWN), Some(Sentiment::Down));
    assert_eq!(Sentiment::from_u8(NIL), None);
    assert_eq!(Sentiment::from_u8(3), None);
    assert_eq!((NIL, DOWN, UP), (0, 1, 2));
}

#[test]
fn every_change_of_vote_moves_the_rank_by_its_worth() {
    let mut store = plain_thread();
    let a = reply(&mut store, "u", ROOT_ID);
    let table = [
        (NIL, UP, 1),
        (NIL, DOWN, -1),
        (UP, UP, -1),
        (DOWN, DOWN, 1),
        (UP, DOWN, -2),
        (DOWN, UP, 2),
    ];
    for (old, new, delta) in table {
        let before = meta(&store, a).rank;
        let (parent, prev, curr) = update_node_rank(&mut store, a, old, new).unwrap();
        assert_eq!(parent, Some(ROOT_ID));
        assert_eq!(prev, before);
        assert_eq!(curr, before + delta);
        assert_eq!(meta(&store, a).rank, curr);
        let page = query_nodes_in_reply_to(&store, ROOT_ID, None, None, None).unwrap();
        assert_eq!(page.nodes.len(), 1);
        assert_eq!(page.nodes[0].metadata.rank, curr);
    }
    assert_eq!(
        update_node_rank(&mut store, 77, NIL, UP),
        Err(ContractError::NodeNotFound { node_id: 77 })
    );
}

#[test]
fn votes_of_different_accounts_add_up() {
    let mut store = plain_thread();
    let a = reply(&mut store, "u", ROOT_ID);
    vote(&mut store, "v1", a, Sentiment::Up);
    vote(&mut store, "v2", a, Sentiment::Up);
    vote(&mut store, "v3", a, Sentiment::Down);
    assert_eq!(meta(&store, a).rank, 1);
    let seen = |who: &str| NodeView::load(&store, a, &Some(who.to_string())).unwrap().account.unwrap();
    assert_eq!(seen("v1").sentiment, Some(Sentiment::Up));
    assert_eq!(seen("v3").sentiment, Some(Sentiment::Down));
    assert_eq!(seen("nobody").sentiment, None);
}

#[test]
fn batch_of_votes_is_all_or_nothing() {
    let mut store = plain_thread();
    let a = reply(&mut store, "u", ROOT_ID);
    let err = exec_votes(
        &mut store,
        &ctx("v"),
        vec![
            NodeVoteMsg { id: a, sentiment: Sentiment::Up },
            NodeVoteMsg { id: 99, sentiment: Sentiment::Up },
        ],
    )
    .unwrap_err();
    assert_eq!(err, ContractError::NodeNotFound { node_id: 99 });
    assert_eq!(meta(&store, a).rank, 0);
    assert_eq!(NodeView::load(&store, a, &Some("v".to_string())).unwrap().account.unwrap().sentiment, None);
    exec_votes(
        &mut store,
        &ctx("v"),
        vec![
            NodeVoteMsg { id: a, sentiment: Sentiment::Up },
            NodeVoteMsg { id: a, sentiment: Sentiment::Down },
            NodeVoteMsg { id: ROOT_ID, sentiment: Sentiment::Down },
        ],
    )
    .unwrap();
    assert_eq!(meta(&store, a).rank, -1);
    assert_eq!(meta(&store, ROOT_ID).rank, -1);
    assert_eq!(exec_votes(&mut store, &ctx("v"), vec![]).unwrap().messages, vec![]);
}

#[test]
fn votes_of_one_list_follow_each_other() {
    let mut store = plain_thread();
    let a = reply(&mut store, "u", ROOT_ID);
    let b = reply(&mut store, "u", ROOT_ID);
    vote(&mut store, "v", b, Sentiment::Down);
    let up = |id| NodeVoteMsg { id, sentiment: Sentiment::Up };
    let down = |id| NodeVoteMsg { id, sentiment: Sentiment::Down };
    // On a: first vote (+1), withdrawn (-1), first vote (+1), change (-2).
    // On b, where a Down is held: change (+2), withdrawn (-1).
    exec_votes(&mut store, &ctx("v"), vec![up(a), up(b), up(a), up(a), up(b), down(a)]).unwrap();
    assert_eq!(meta(&store, a).rank, -1);
    assert_eq!(meta(&store, b).rank, 0);
    let seen = |id| NodeView::load(&store, id, &Some("v".to_string())).unwrap().account.unwrap();
    assert_eq!(seen(a).sentiment, Some(Sentiment::Down));
    assert_eq!(seen(b).sentiment, None);
    assert_eq!(child_ids(&store, ROOT_ID), vec![b, a]);
}

#[test]
fn a_list_with_a_missing_node_is_refused_for_that_node() {
    let mut store = plain_thread();
    let a = reply(&mut store, "u", ROOT_ID);
    let up = |id| NodeVoteMsg { id, sentiment: Sentiment::Up };
    for msgs in [vec![up(a), up(a), up(77), up(78)], vec![up(77), up(a)], vec![up(a), up(77)]] {
        assert_eq!(
            exec_votes(&mut store, &ctx("v"), msgs).unwrap_err(),
            ContractError::NodeNotFound { node_id: 77 }
        );
        assert_eq!(meta(&store, a).rank, 0);
        assert_eq!(
            NodeView::load(&store, a, &Some("v".to_string())).unwrap().account.unwrap().sentiment,
            None
        );
    }
    assert_eq!(
        exec_vote(&mut store, &ctx("v"), up(77)).unwrap_err(),
        ContractError::NodeNotFound { node_id: 77 }
    );
}

#[test]
fn only_the_owner_account_or_the_creator_configures() {
    let mut store = init(
        &ctx("creator"),
        InstantiateMsg {
            owner: Some(Owner::Acl("acl".to_string())),
            title: None,
            body: None,
            sections: None,
            tags: None,
            mentions: None,
            config: ConfigView { tip_tokens: vec![] },
        },
    )
    .unwrap();
    let mut admitted = ctx("moderator");
    admitted.acl_allows = true;
    assert_eq!(
        exec_set_config(&mut store, &admitted, ConfigUpdateMsg { tip_tokens: None }).unwrap_err(),
        ContractError::NotAuthorized { reason: "You do not own the thread".to_string() }
    );
    exec_set_config(&mut store, &ctx("creator"), ConfigUpdateMsg { tip_tokens: None }).unwrap();
}

// ---------------------------------------------------------------------------
// Pages
// ---------------------------------------------------------------------------

#[test]
fn replies_come_by_rank_and_then_by_identifier() {
    let mut store = plain_thread();
    for _ in 0..6 {
        reply(&mut store, "u", ROOT_ID);
    }
    vote(&mut store, "v", 2, Sentiment::Up);
    vote(&mut store, "v", 5, Sentiment::Up);
    vote(&mut store, "w", 5, Sentiment::Up);
    vote(&mut store, "v", 3, Sentiment::Down);
    assert_eq!(child_ids(&store, ROOT_ID), vec![5, 2, 6, 4, 1, 3]);
    let first = query_nodes_in_reply_to(&store, ROOT_ID, None, Some(4), None).unwrap();
    assert_eq!(first.nodes.iter().map(|n| n.metadata.id).collect::<Vec<u32>>(), vec![5, 2, 6, 4]);
    assert_eq!(first.cursor, Some((ROOT_ID, 0, 4)));
    let second = query_nodes_in_reply_to(&store, ROOT_ID, first.cursor, Some(4), None).unwrap();
    assert_eq!(second.nodes.iter().map(|n| n.metadata.id).collect::<Vec<u32>>(), vec![1, 3]);
    assert_eq!(second.cursor, None);
    let none = query_nodes_in_reply_to(&store, ROOT_ID, None, Some(0), None).unwrap();
    assert_eq!(none.nodes.len(), 0);
    assert_eq!(none.cursor, None);
    assert_eq!(
        query_nodes_in_reply_to(&store, 42, None, None, None).unwrap_err(),
        ContractError::NodeNotFound { node_id: 42 }
    );
}

#[test]
fn a_page_of_replies_holds_25_at_most() {
    let mut store = plain_thread();
    for _ in 0..30 {
        reply(&mut store, "u", ROOT_ID);
    }
    let first = query_nodes_in_reply_to(&store, ROOT_ID, None, Some(200), None).unwrap();
    assert_eq!(first.nodes.len(), 25);
    assert_eq!(first.nodes[0].metadata.id, 30);
    assert_eq!(first.cursor, Some((ROOT_ID, 0, 6)));
    let second = query_nodes_in_reply_to(&store, ROOT_ID, first.cursor, None, None).unwrap();
    assert_eq!(second.nodes.iter().map(|n| n.metadata.id).collect::<Vec<u32>>(), vec![5, 4, 3, 2, 1]);
    assert_eq!(second.cursor, None);
}

#[test]
fn nodes_under_a_tag_come_from_the_newest() {
    let mut store = plain_thread();
    for _ in 0..27 {
        tagged_reply(&mut store, "u", &["Topic"], &["@Someone"]);
    }
    let first =
        query_nodes_by_tag_or_callout(&store, TagWrapper::Tag("TOPIC".to_string()), None, None).unwrap();
    assert_eq!(first.nodes.len(), 25);
    assert_eq!(first.nodes[0].metadata.id, 27);
    assert_eq!(first.cursor, Some(3));
    let second =
        query_nodes_by_tag_or_callout(&store, TagWrapper::Tag("topic".to_string()), first.cursor, None)
            .unwrap();
    assert_eq!(second.nodes.iter().map(|n| n.metadata.id).collect::<Vec<u32>>(), vec![2, 1]);
    assert_eq!(second.cursor, Some(1));
    let third =
        query_nodes_by_tag_or_callout(&store, TagWrapper::Tag("topic".to_string()), second.cursor, None)
            .unwrap();
    assert_eq!(third.nodes.len(), 0);
    assert_eq!(third.cursor, None);
    let mentioned = query_nodes_by_tag_or_callout(
        &store,
        TagWrapper::Mention("SomeOne".to_string()),
        Some(3),
        Some("u".to_string()),
    )
    .unwrap();
    assert_eq!(mentioned.nodes.iter().map(|n| n.metadata.id).collect::<Vec<u32>>(), vec![2, 1]);
}

#[test]
fn ancestors_come_from_the_parent_upwards() {
    let mut store = plain_thread();
    let a = reply(&mut store, "u", ROOT_ID);
    let b = reply(&mut store, "u", a);
    let c = reply(&mut store, "u", b);
    let ids = |levels| {
        query_ancestor_nodes(&store, c, levels, None)
            .unwrap()
            .iter()
            .map(|n| n.metadata.id)
            .collect::<Vec<u32>>()
    };
    assert_eq!(ids(None), vec![b]);
    assert_eq!(ids(Some(0)), Vec::<u32>::new());
    assert_eq!(ids(Some(2)), vec![b, a]);
    assert_eq!(ids(Some(3)), vec![b, a, ROOT_ID]);
    assert_eq!(ids(Some(9)), vec![b, a, ROOT_ID]);
    assert_eq!(query_ancestor_nodes(&store, ROOT_ID, Some(3), None).unwrap().len(), 0);
    assert_eq!(
        query_ancestor_nodes(&store, 9, None, None).unwrap_err(),
        ContractError::NodeNotFound { node_id: 9 }
    );
}

#[test]
fn nodes_by_id_need_every_node() {
    let mut store = plain_thread();
    let a = reply(&mut store, "u", ROOT_ID);
    let nodes = query_nodes_by_id(&store, vec![a, ROOT_ID, a], None).unwrap();
    assert_eq!(nodes.iter().map(|n| n.metadata.id).collect::<Vec<u32>>(), vec![a, ROOT_ID, a]);
    assert_eq!(
        query_nodes_by_id(&store, vec![a, 7, 8], None).unwrap_err(),
        ContractError::NodeNotFound { node_id: 7 }
    );
    assert_eq!(query_nodes_by_id(&store, vec![], None).unwrap().len(), 0);
}

// ---------------------------------------------------------------------------
// Editing
// ---------------------------------------------------------------------------

#[test]
fn edit_reconciles_the_indexes() {
    let mut store = plain_thread();
    let a = tagged_reply(&mut store, "author", &["keep", "drop"], &["@old", "@stay"]);
    exec_edit_node(
        &mut store,
        &ctx("author"),
        NodeEditMsg {
            id: a,
            title: None,
            body: Some("New body".to_string()),
            sections: None,
            tags: Some(vec!["Keep".to_string(), "add".to_string()]),
            mentions: Some(vec!["@stay".to_string(), "@new".to_string()]),
        },
    )
    .unwrap();
    let mut tags = load_tags(&store, a).unwrap();
    tags.sort();
    assert_eq!(tags, vec!["add".to_string(), "keep".to_string()]);
    let mut mentions = load_mentions(&store, a).unwrap();
    mentions.sort();
    assert_eq!(mentions, vec!["new".to_string(), "stay".to_string()]);
    assert_eq!(ids_with(&store, TagWrapper::Tag("drop".to_string())), Vec::<u32>::new());
    assert_eq!(ids_with(&store, TagWrapper::Tag("keep".to_string())), vec![a]);
    assert_eq!(ids_with(&store, TagWrapper::Tag("add".to_string())), vec![a]);
    assert_eq!(ids_with(&store, TagWrapper::Mention("old".to_string())), Vec::<u32>::new());
    assert_eq!(ids_with(&store, TagWrapper::Mention("new".to_string())), vec![a]);
}

#[test]
fn edit_applies_what_it_gives() {
    let mut store = plain_thread();
    let a = tagged_reply(&mut store, "author", &["t"], &["@m"]);
    // Sections alone: body, tags and mentions stay.
    exec_edit_node(
        &mut store,
        &ctx("author"),
        NodeEditMsg {
            id: a,
            title: None,
            body: None,
            sections: Some(vec![Section::Text("s".to_string())]),
            tags: None,
            mentions: None,
        },
    )
    .unwrap();
    let view = NodeView::load(&store, a, &None).unwrap();
    assert_eq!(view.body, "A reply");
    assert_eq!(view.tags, vec!["t".to_string()]);
    assert_eq!(view.sections, vec![Section::Text("s".to_string())]);
    assert_eq!(view.metadata.n_sections, 1);
    assert_eq!(ids_with(&store, TagWrapper::Tag("t".to_string())), vec![a]);
    assert_eq!(ids_with(&store, TagWrapper::Mention("m".to_string())), vec![a]);
    // Tags alone: the tags are reconciled, the mentions not given count as
    // none, and a title without a body is passed over.
    exec_edit_node(
        &mut store,
        &ctx("author"),
        NodeEditMsg {
            id: a,
            title: Some("passed over".to_string()),
            body: None,
            sections: None,
            tags: Some(vec!["other".to_string()]),
            mentions: None,
        },
    )
    .unwrap();
    let view = NodeView::load(&store, a, &None).unwrap();
    assert_eq!(view.title, None);
    assert_eq!(view.body, "A reply");
    assert_eq!(view.tags, vec!["other".to_string()]);
    assert_eq!(view.mentions, Vec::<String>::new());
    assert_eq!(view.sections, vec![Section::Text("s".to_string())]);
    assert_eq!(ids_with(&store, TagWrapper::Tag("t".to_string())), Vec::<u32>::new());
    assert_eq!(ids_with(&store, TagWrapper::Tag("other".to_string())), vec![a]);
    assert_eq!(ids_with(&store, TagWrapper::Mention("m".to_string())), Vec::<u32>::new());
    // A body alone: tags and mentions not given count as none.
    exec_edit_node(
        &mut store,
        &ctx("author"),
        NodeEditMsg {
            id: a,
            title: None,
            body: Some("New".to_string()),
            sections: None,
            tags: None,
            mentions: None,
        },
    )
    .unwrap();
    assert_eq!(NodeView::load(&store, a, &None).unwrap().body, "New");
    assert_eq!(ids_with(&store, TagWrapper::Tag("other".to_string())), Vec::<u32>::new());
    // Tags that are refused leave everything as it was.
    let err = exec_edit_node(
        &mut store,
        &ctx("author"),
        NodeEditMsg {
            id: a,
            title: None,
            body: None,
            sections: Some(vec![]),
            tags: Some(vec!["not valid".to_string()]),
            mentions: None,
        },
    )
    .unwrap_err();
    assert!(matches!(err, ContractError::ValidationError { .. }));
    assert_eq!(NodeView::load(&store, a, &None).unwrap().metadata.n_sections, 1);
}

#[test]
fn scenario_edit_with_tags_alone_replaces_tags() {
    let mut store = plain_thread();
    let a = tagged_reply(&mut store, "author", &["x"], &[]);
    exec_edit_node(
        &mut store,
        &ctx("author"),
        NodeEditMsg {
            id: a,
            title: None,
            body: None,
            sections: None,
            tags: Some(vec!["y".to_string()]),
            mentions: None,
        },
    )
    .unwrap();
    assert_eq!(ids_with(&store, TagWrapper::Tag("x".to_string())), Vec::<u32>::new());
    assert_eq!(ids_with(&store, TagWrapper::Tag("y".to_string())), vec![a]);
}

#[test]
fn only_the_first_node_has_a_title() {
    let mut store = plain_thread();
    let a = reply(&mut store, "creator", ROOT_ID);
    let edit = |id| NodeEditMsg {
        id,
        title: Some("New title".to_string()),
        body: Some("New body".to_string()),
        sections: None,
        tags: None,
        mentions: None,
    };
    assert_eq!(
        exec_edit_node(&mut store, &ctx("creator"), edit(a)).unwrap_err(),
        ContractError::ValidationError { reason: "Only the root node has a title".to_string() }
    );
    assert_eq!(NodeView::load(&store, a, &None).unwrap().body, "A reply");
    assert_eq!(meta(&store, a).updated_at, None);
    exec_edit_node(&mut store, &ctx("creator"), edit(ROOT_ID)).unwrap();
    let root = NodeView::load(&store, ROOT_ID, &None).unwrap();
    assert_eq!(root.title, Some("New title".to_string()));
    assert_eq!(root.body, "New body");
    assert_eq!(
        exec_edit_node(&mut store, &ctx("creator"), edit(50)).unwrap_err(),
        ContractError::NodeNotFound { node_id: 50 }
    );
    assert_eq!(
        exec_edit_node(&mut store, &ctx("someone"), edit(ROOT_ID)).unwrap_err(),
        ContractError::NotAuthorized { reason: "Only the creator can edit the node".to_string() }
    );
}

// ---------------------------------------------------------------------------
// Deleting
// ---------------------------------------------------------------------------

#[test]
fn deleting_the_first_node_empties_the_store() {
    let mut store = plain_thread();
    let a = tagged_reply(&mut store, "u", &["t"], &["@m"]);
    exec_toggle_save(&mut store, &ctx("u"), true, vec![a]).unwrap();
    assert_eq!(
        exec_delete_node(&mut store, &ctx("u"), ROOT_ID).unwrap_err(),
        ContractError::NotAuthorized { reason: "Not authorized to delete the thread".to_string() }
    );
    let resp = exec_delete_node(&mut store, &ctx("creator"), ROOT_ID).unwrap();
    assert_eq!(resp.messages, vec![]);
    assert_eq!(load_node_metadata(&store, ROOT_ID, false).unwrap(), None);
    assert_eq!(load_node_metadata(&store, a, false).unwrap(), None);
    assert_eq!(ids_with(&store, TagWrapper::Tag("t".to_string())), Vec::<u32>::new());
    assert_eq!(query_config(&store).unwrap().0.tip_tokens, vec![]);
    assert_eq!(
        query_thread_info(&store, None).unwrap_err(),
        ContractError::Std { reason: "Owner not found".to_string() }
    );
    assert_eq!(
        exec_reply(
            &mut store,
            &ctx("u"),
            NodeReplyMsg {
                parent_id: ROOT_ID,
                body: "late".to_string(),
                sections: None,
                tags: None,
                mentions: None
            }
        )
        .unwrap_err(),
        ContractError::NodeNotFound { node_id: ROOT_ID }
    );
}

#[test]
fn purge_leaves_nothing() {
    let mut store = plain_thread();
    reply(&mut store, "u", ROOT_ID);
    purge_contract_state(&mut store);
    assert_eq!(load_node_metadata(&store, ROOT_ID, false).unwrap(), None);
    assert_eq!(load_node_metadata(&store, 1, false).unwrap(), None);
    assert_eq!(next_node_id(&mut store).unwrap(), 1);
}

#[test]
fn access_control_service_can_admit_a_deletion() {
    let mut store = init(
        &ctx("creator"),
        InstantiateMsg {
            owner: Some(Owner::Acl("acl".to_string())),
            title: None,
            body: None,
            sections: None,
            tags: None,
            mentions: None,
            config: ConfigView { tip_tokens: vec![] },
        },
    )
    .unwrap();
    let a = reply(&mut store, "u", ROOT_ID);
    assert!(!is_action_authorized(&store, &"acl".to_string(), false));
    assert!(is_action_authorized(&store, &"anyone".to_string(), true));
    let mut admitted = ctx("moderator");
    assert!(matches!(
        exec_delete_node(&mut store, &admitted, a).unwrap_err(),
        ContractError::NotAuthorized { .. }
    ));
    admitted.acl_allows = true;
    exec_delete_node(&mut store, &admitted, a).unwrap();
    assert_eq!(load_node_metadata(&store, a, false).unwrap(), None);
}

// ---------------------------------------------------------------------------
// Flags and saved lists
// ---------------------------------------------------------------------------

#[test]
fn one_flag_for_each_account() {
    let mut store = plain_thread();
    let a = reply(&mut store, "u", ROOT_ID);
    exec_flag(&mut store, &ctx("f1"), a, Some("Spam".to_string())).unwrap();
    exec_flag(&mut store, &ctx("f2"), a, None).unwrap();
    assert_eq!(meta(&store, a).n_flags, 2);
    assert_eq!(
        exec_flag(&mut store, &ctx("f1"), a, None).unwrap_err(),
        ContractError::NotAuthorized { reason: "Already flagged by f1".to_string() }
    );
    assert_eq!(meta(&store, a).n_flags, 2);
    exec_unflag(&mut store, &ctx("f1"), a).unwrap();
    assert_eq!(meta(&store, a).n_flags, 1);
    assert_eq!(
        exec_unflag(&mut store, &ctx("f1"), a).unwrap_err(),
        ContractError::NotAuthorized { reason: "Not flagged by f1".to_string() }
    );
    assert_eq!(
        exec_unflag(&mut store, &ctx("f3"), 60).unwrap_err(),
        ContractError::NotAuthorized { reason: "Not flagged by f3".to_string() }
    );
    assert_eq!(
        exec_flag(&mut store, &ctx("f3"), 60, None).unwrap_err(),
        ContractError::NodeNotFound { node_id: 60 }
    );
    assert_eq!(meta(&store, a).n_flags, 1);
}

#[test]
fn flags_are_counted_up_to_255() {
    let mut store = plain_thread();
    for i in 0..255 {
        exec_flag(&mut store, &ctx(&format!("f{}", i)), ROOT_ID, None).unwrap();
    }
    assert_eq!(meta(&store, ROOT_ID).n_flags, 255);
    assert_eq!(
        exec_flag(&mut store, &ctx("late"), ROOT_ID, None).unwrap_err(),
        ContractError::Std { reason: "Overflow".to_string() }
    );
    assert_eq!(meta(&store, ROOT_ID).n_flags, 255);
}

#[test]
fn saving_passes_over_nodes_that_do_not_exist() {
    let mut store = plain_thread();
    let a = reply(&mut store, "u", ROOT_ID);
    let seen = |store: &Storage, who: &str, id| {
        NodeView::load(store, id, &Some(who.to_string())).unwrap().account.unwrap().saved
    };
    let resp = exec_toggle_save(&mut store, &ctx("s"), true, vec![a, 99, ROOT_ID, a]).unwrap();
    assert_eq!(resp.messages, vec![]);
    assert!(seen(&store, "s", a) && seen(&store, "s", ROOT_ID));
    assert!(!seen(&store, "t", a));
    exec_toggle_save(&mut store, &ctx("s"), false, vec![a, 98]).unwrap();
    assert!(!seen(&store, "s", a) && seen(&store, "s", ROOT_ID));
    exec_toggle_save(&mut store, &ctx("s"), false, vec![a]).unwrap();
    assert!(!seen(&store, "s", a));
}

// ---------------------------------------------------------------------------
// Tips and configuration
// ---------------------------------------------------------------------------

#[test]
fn tips_add_up_for_each_kind() {
    let mut store = plain_thread();
    let atom = || Token::Denom("uatom".to_string());
    let first = exec_tip(
        &mut store,
        &ctx_with("tipper", vec![coin(5, "uosmo"), coin(100, "uatom")]),
        TokenAmount { token: atom(), amount: 100 },
    )
    .unwrap();
    assert_eq!(
        first.messages,
        vec![Message::Send { to: "creator".to_string(), denom: "uatom".to_string(), amount: 100 }]
    );
    assert_eq!(
        first.attributes,
        vec![attr("action", "tip"), attr("tip_amount", "100"), attr("tip_denom", "uatom")]
    );
    exec_tip(
        &mut store,
        &ctx_with("other", vec![coin(70, "uatom")]),
        TokenAmount { token: atom(), amount: 23 },
    )
    .unwrap();
    let info = query_thread_info(&store, None).unwrap();
    assert_eq!(info.tips, vec![TokenAmount { token: atom(), amount: 123 }]);
    let full = exec_tip(
        &mut store,
        &ctx_with("other", vec![coin(u128::MAX, "uatom")]),
        TokenAmount { token: atom(), amount: u128::MAX },
    );
    assert_eq!(full.unwrap_err(), ContractError::Std { reason: "Overflow".to_string() });
    assert_eq!(query_thread_info(&store, None).unwrap().tips[0].amount, 123);
}

#[test]
fn funds_must_cover_the_tip_in_its_own_denomination() {
    let mut store = plain_thread();
    let tip = |store: &mut Storage, funds: Vec<Coin>, amount| {
        exec_tip(
            store,
            &ctx_with("tipper", funds),
            TokenAmount { token: Token::Denom("uatom".to_string()), amount },
        )
    };
    assert!(tip(&mut store, vec![], 1).is_err());
    assert!(tip(&mut store, vec![coin(1000, "uosmo")], 1).is_err());
    assert!(tip(&mut store, vec![coin(9, "uatom")], 10).is_err());
    assert!(tip(&mut store, vec![coin(10, "uatom")], 10).is_ok());
    assert!(tip(&mut store, vec![coin(1000, "uatom")], 0).is_ok());
    // The first coin of the denomination decides.
    assert!(tip(&mut store, vec![coin(1, "uatom"), coin(50, "uatom")], 10).is_err());
    assert!(tip(&mut store, vec![coin(50, "uatom"), coin(1, "uatom")], 10).is_ok());
}

#[test]
fn tip_in_a_ledger_asset_asks_for_a_transfer() {
    let mut store = plain_thread();
    let resp = exec_tip(
        &mut store,
        &ctx("tipper"),
        TokenAmount { token: Token::Address("ledger".to_string()), amount: 100 },
    )
    .unwrap();
    assert_eq!(
        resp.messages,
        vec![Message::Execute {
            contract: "ledger".to_string(),
            payload: br#"{"transfer":{"recipient":"creator","amount":"100"}}"#.to_vec(),
        }]
    );
    assert_eq!(
        resp.attributes,
        vec![attr("action", "tip"), attr("tip_amount", "100"), attr("tip_token", "ledger")]
    );
    let info = query_thread_info(&store, None).unwrap();
    assert_eq!(
        info.tips,
        vec![TokenAmount { token: Token::Address("ledger".to_string()), amount: 100 }]
    );
    assert_eq!(
        exec_tip(
            &mut store,
            &ctx("tipper"),
            TokenAmount { token: Token::Address("elsewhere".to_string()), amount: 1 },
        )
        .unwrap_err(),
        ContractError::UnauthorizedTipToken { token: "elsewhere".to_string() }
    );
}

#[test]
fn transfer_message_follows_the_encoding() {
    assert_eq!(
        transfer_message(&"ledger".to_string(), Some(vec![1, 2, 3])),
        Ok(Message::Execute { contract: "ledger".to_string(), payload: vec![1, 2, 3] })
    );
    assert_eq!(
        transfer_message(&"ledger".to_string(), None),
        Err(ContractError::Std { reason: "Transfer could not be encoded".to_string() })
    );
}

#[test]
fn configuration_replaces_the_accepted_kinds() {
    let mut store = plain_thread();
    let osmo = Token::Denom("uosmo".to_string());
    exec_set_config(&mut store, &ctx("creator"), ConfigUpdateMsg { tip_tokens: None }).unwrap();
    assert_eq!(query_config(&store).unwrap().0.tip_tokens.len(), 2);
    exec_set_config(
        &mut store,
        &ctx("creator"),
        ConfigUpdateMsg { tip_tokens: Some(vec![osmo.clone()]) },
    )
    .unwrap();
    assert_eq!(query_config(&store).unwrap().0.tip_tokens, vec![osmo.clone()]);
    assert!(exec_tip(
        &mut store,
        &ctx_with("tipper", vec![coin(1, "uatom")]),
        TokenAmount { token: Token::Denom("uatom".to_string()), amount: 1 },
    )
    .is_err());
    assert!(exec_tip(
        &mut store,
        &ctx_with("tipper", vec![coin(1, "uosmo")]),
        TokenAmount { token: osmo, amount: 1 },
    )
    .is_ok());
    let many: Vec<Token> = (0..11).map(|i| Token::Denom(format!("u{}", i))).collect();
    assert_eq!(
        exec_set_config(&mut store, &ctx("creator"), ConfigUpdateMsg { tip_tokens: Some(many) })
            .unwrap_err(),
        ContractError::ValidationError { reason: "Max number of tip token types is 10".to_string() }
    );
    assert_eq!(
        exec_set_config(&mut store, &ctx("tipper"), ConfigUpdateMsg { tip_tokens: None }).unwrap_err(),
        ContractError::NotAuthorized { reason: "You do not own the thread".to_string() }
    );
}

// ---------------------------------------------------------------------------
// The registry
// ---------------------------------------------------------------------------

#[test]
fn registry_is_told_of_what_happens() {
    let mut store = init(
        &ctx("creator"),
        InstantiateMsg {
            owner: None,
            title: None,
            body: None,
            sections: None,
            tags: Some(vec!["News".to_string()]),
            mentions: Some(vec!["@Ann".to_string()]),
            config: ConfigView { tip_tokens: vec![Token::Denom("uatom".to_string())] },
        },
    )
    .unwrap();
    let args = LifecycleSetupArgs { initiator: "founder".to_string(), id: "thread-1".to_string() };
    let resp = exec_setup(&mut store, &ctx("registry"), args.clone()).unwrap();
    assert_eq!(
        resp.messages,
        vec![Message::TableSetup {
            table: "registry".to_string(),
            initiator: "registry".to_string(),
            creator: "founder".to_string(),
            rank: 0,
            activity: 0,
            tags: vec!["ann".to_string(), "news".to_string()],
        }]
    );
    assert_eq!(meta(&store, ROOT_ID).created_by, "founder");
    assert_eq!(
        query_thread_info(&store, None).unwrap().table,
        Some(TableMetadata { address: "registry".to_string(), id: "thread-1".to_string() })
    );
    assert_eq!(
        exec_setup(&mut store, &ctx("registry"), args).unwrap_err(),
        ContractError::NotAuthorized { reason: "Already setup".to_string() }
    );

    let replied = exec_reply(
        &mut store,
        &ctx("u"),
        NodeReplyMsg {
            parent_id: ROOT_ID,
            body: "b".to_string(),
            sections: None,
            tags: None,
            mentions: None,
        },
    )
    .unwrap();
    let update = |rank| Message::TableUpdate {
        table: "registry".to_string(),
        initiator: "u".to_string(),
        rank,
    };
    assert_eq!(replied.messages, vec![update(None)]);

    let voted = exec_votes(
        &mut store,
        &ctx("u"),
        vec![
            NodeVoteMsg { id: ROOT_ID, sentiment: Sentiment::Up },
            NodeVoteMsg { id: 1, sentiment: Sentiment::Up },
            NodeVoteMsg { id: ROOT_ID, sentiment: Sentiment::Down },
        ],
    )
    .unwrap();
    assert_eq!(voted.messages, vec![update(Some(1)), update(Some(-1))]);

    let saved = exec_toggle_save(&mut store, &ctx("u"), true, vec![1, 9, ROOT_ID]).unwrap();
    let relate = |add, names: Vec<&str>| Message::TableRelate {
        table: "registry".to_string(),
        initiator: "u".to_string(),
        add,
        names: names.into_iter().map(|n| n.to_string()).collect(),
    };
    assert_eq!(saved.messages, vec![relate(true, vec!["save:1", "save:0"])]);
    let again = exec_toggle_save(&mut store, &ctx("u"), true, vec![1]).unwrap();
    assert_eq!(again.messages, vec![]);
    let unsaved = exec_toggle_save(&mut store, &ctx("u"), false, vec![1, 9]).unwrap();
    assert_eq!(unsaved.messages, vec![relate(false, vec!["save:1", "save:9"])]);

    let tipped = exec_tip(
        &mut store,
        &ctx_with("u", vec![coin(5, "uatom")]),
        TokenAmount { token: Token::Denom("uatom".to_string()), amount: 5 },
    )
    .unwrap();
    assert_eq!(
        tipped.messages,
        vec![
            Message::Send { to: "founder".to_string(), denom: "uatom".to_string(), amount: 5 },
            Message::TableTip {
                table: "registry".to_string(),
                initiator: "u".to_string(),
                name: "tip:uatom".to_string(),
                total: 5,
            },
        ]
    );

    let deleted_reply = exec_delete_node(&mut store, &ctx("u"), 1).unwrap();
    assert_eq!(deleted_reply.messages, vec![]);
    let deleted = exec_delete_node(&mut store, &ctx("founder"), ROOT_ID).unwrap();
    assert_eq!(deleted.messages, vec![Message::TableDelete { table: "registry".to_string() }]);
}

#[test]
fn every_operation_names_itself() {
    let mut store = plain_thread();
    let a = reply(&mut store, "u", ROOT_ID);
    let named = |resp: Response| resp.attributes;
    let says = |name: &str| vec![attr("action", name)];
    assert_eq!(
        named(exec_vote(&mut store, &ctx("u"), NodeVoteMsg { id: a, sentiment: Sentiment::Up }).unwrap()),
        says("vote")
    );
    assert_eq!(named(exec_votes(&mut store, &ctx("u"), vec![]).unwrap()), says("vote"));
    assert_eq!(named(exec_flag(&mut store, &ctx("u"), a, None).unwrap()), says("flag"));
    assert_eq!(named(exec_unflag(&mut store, &ctx("u"), a).unwrap()), says("unflag"));
    assert_eq!(named(exec_toggle_save(&mut store, &ctx("u"), true, vec![a]).unwrap()), says("save"));
    assert_eq!(named(exec_toggle_save(&mut store, &ctx("u"), false, vec![a]).unwrap()), says("save"));
    assert_eq!(
        named(
            exec_edit_node(
                &mut store,
                &ctx("u"),
                NodeEditMsg { id: a, title: None, body: None, sections: None, tags: None, mentions: None },
            )
            .unwrap()
        ),
        says("edit")
    );
    assert_eq!(
        named(exec_set_config(&mut store, &ctx("creator"), ConfigUpdateMsg { tip_tokens: None }).unwrap()),
        says("set_config")
    );
    assert_eq!(
        named(
            exec_setup(
                &mut store,
                &ctx("registry"),
                LifecycleSetupArgs { initiator: "creator".to_string(), id: "t".to_string() },
            )
            .unwrap()
        ),
        says("setup")
    );
    assert_eq!(named(exec_delete_node(&mut store, &ctx("u"), a).unwrap()), says("delete"));
    assert_eq!(named(migrate(&store, MigrateMsg {}).unwrap()), vec![]);
}

#[test]
fn registry_hooks_change_nothing() {
    let store = plain_thread();
    let args = LifecycleArgs { initiator: "founder".to_string() };
    assert_eq!(
        exec_teardown(&store, &ctx("registry"), args.clone()).unwrap().attributes,
        vec![attr("action", "teardown")]
    );
    assert_eq!(
        exec_suspend(&store, &ctx("registry"), args.clone()).unwrap().attributes,
        vec![attr("action", "suspend")]
    );
    assert_eq!(
        exec_resume(&store, &ctx("registry"), args.clone()).unwrap().attributes,
        vec![attr("action", "resume")]
    );
    assert_eq!(exec_teardown(&store, &ctx("registry"), args.clone()).unwrap().messages, vec![]);
    assert_eq!(exec_suspend(&store, &ctx("registry"), args.clone()).unwrap().messages, vec![]);
    assert_eq!(exec_resume(&store, &ctx("registry"), args).unwrap().messages, vec![]);
    assert_eq!(meta(&store, ROOT_ID).created_by, "creator");
}

#[test]
fn tags_and_mentions_are_indexed_in_lower_case_once() {
    let mut store = plain_thread();
    let (tags, mentions) = process_tags_and_mentions(
        &mut store,
        ROOT_ID,
        Some(vec!["Rust".to_string(), "RUST".to_string(), "web".to_string()]),
        Some(vec!["@Bob".to_string(), "@bob".to_string()]),
        false,
    )
    .unwrap();
    assert_eq!(tags, vec!["rust".to_string(), "web".to_string()]);
    assert_eq!(mentions, vec!["bob".to_string()]);
    let err = process_tags_and_mentions(
        &mut store,
        ROOT_ID,
        Some(vec!["new".to_string()]),
        Some(vec!["nobody".to_string()]),
        true,
    )
    .unwrap_err();
    assert_eq!(
        err,
        ContractError::ValidationError { reason: "Mention 'nobody' must start with @".to_string() }
    );
    assert_eq!(ids_with(&store, TagWrapper::Tag("new".to_string())), Vec::<u32>::new());
    assert_eq!(ids_with(&store, TagWrapper::Tag("rust".to_string())), vec![ROOT_ID]);
    let (tags, mentions) = process_tags_and_mentions(&mut store, ROOT_ID, None, None, true).unwrap();
    assert_eq!((tags.len(), mentions.len()), (0, 0));
    assert_eq!(ids_with(&store, TagWrapper::Tag("rust".to_string())), Vec::<u32>::new());
    assert_eq!(ids_with(&store, TagWrapper::Mention("bob".to_string())), Vec::<u32>::new());
}

// ---------------------------------------------------------------------------
// The surface
// ---------------------------------------------------------------------------

#[test]
fn messages_run_the_operations_they_name() {
    let (mut store, made) = instantiate(
        &ctx("creator"),
        InstantiateMsg {
            owner: None,
            title: Some("T".to_string()),
            body: Some("B".to_string()),
            sections: None,
            tags: Some(vec!["tag".to_string()]),
            mentions: None,
            config: ConfigView { tip_tokens: vec![Token::Denom("uatom".to_string())] },
        },
    )
    .unwrap();
    assert_eq!(made.messages, vec![]);
    let run = |store: &mut Storage, who: &str, msg| execute(store, &ctx(who), msg);
    let replied = run(
        &mut store,
        "u",
        ExecuteMsg::Reply(NodeReplyMsg {
            parent_id: ROOT_ID,
            body: "r".to_string(),
            sections: None,
            tags: Some(vec!["tag".to_string()]),
            mentions: None,
        }),
    )
    .unwrap();
    assert_eq!(replied.node_id, Some(1));
    run(&mut store, "v", ExecuteMsg::Vote(NodeVoteMsg { id: 1, sentiment: Sentiment::Up })).unwrap();
    run(
        &mut store,
        "w",
        ExecuteMsg::VoteMany(vec![NodeVoteMsg { id: 1, sentiment: Sentiment::Up }]),
    )
    .unwrap();
    run(&mut store, "v", ExecuteMsg::Save(vec![1])).unwrap();
    run(&mut store, "v", ExecuteMsg::Flag { id: 1, reason: None }).unwrap();
    run(
        &mut store,
        "u",
        ExecuteMsg::Edit(NodeEditMsg {
            id: 1,
            title: None,
            body: Some("edited".to_string()),
            sections: None,
            tags: Some(vec!["tag".to_string()]),
            mentions: None,
        }),
    )
    .unwrap();
    match query(
        &store,
        QueryMsg::Nodes(NodesQueryMsg::ByIds { ids: vec![1], sender: Some("v".to_string()) }),
    )
    .unwrap()
    {
        QueryResponse::Nodes(nodes) => {
            assert_eq!(nodes[0].body, "edited");
            assert_eq!(nodes[0].metadata.rank, 2);
            assert_eq!(nodes[0].metadata.n_flags, 1);
            assert_eq!(
                nodes[0].account,
                Some(NodeAccountView { sentiment: Some(Sentiment::Up), saved: true })
            );
        }
        other => panic!("unexpected answer {:?}", other),
    }
    run(&mut store, "v", ExecuteMsg::Unsave(vec![1])).unwrap();
    run(&mut store, "v", ExecuteMsg::Unflag { id: 1 }).unwrap();
    match query(
        &store,
        QueryMsg::Nodes(NodesQueryMsg::Children { id: ROOT_ID, cursor: None, sender: None, limit: None }),
    )
    .unwrap()
    {
        QueryResponse::Replies(page) => assert_eq!(page.nodes.len(), 1),
        other => panic!("unexpected answer {:?}", other),
    }
    match query(
        &store,
        QueryMsg::Nodes(NodesQueryMsg::WithTag { tag: "TAG".to_string(), cursor: None, sender: None }),
    )
    .unwrap()
    {
        QueryResponse::Tagged(page) => {
            assert_eq!(page.nodes.iter().map(|n| n.metadata.id).collect::<Vec<u32>>(), vec![1, 0])
        }
        other => panic!("unexpected answer {:?}", other),
    }
    match query(
        &store,
        QueryMsg::Nodes(NodesQueryMsg::WithMention {
            mention: "nobody".to_string(),
            cursor: None,
            sender: None,
        }),
    )
    .unwrap()
    {
        QueryResponse::Tagged(page) => assert_eq!(page.nodes.len(), 0),
        other => panic!("unexpected answer {:?}", other),
    }
    match query(
        &store,
        QueryMsg::Nodes(NodesQueryMsg::Ancestors { id: 1, levels: None, sender: None }),
    )
    .unwrap()
    {
        QueryResponse::Nodes(nodes) => assert_eq!(nodes[0].metadata.id, ROOT_ID),
        other => panic!("unexpected answer {:?}", other),
    }
    run(
        &mut store,
        "creator",
        ExecuteMsg::SetConfig(ConfigUpdateMsg { tip_tokens: Some(vec![]) }),
    )
    .unwrap();
    assert_eq!(
        execute(
            &mut store,
            &ctx_with("t", vec![coin(1, "uatom")]),
            ExecuteMsg::Tip(TokenAmount { token: Token::Denom("uatom".to_string()), amount: 1 }),
        )
        .unwrap_err(),
        ContractError::UnauthorizedTipToken { token: "uatom".to_string() }
    );
    let hook = LifecycleArgs { initiator: "x".to_string() };
    for msg in [
        LifecycleExecuteMsg::Suspend(hook.clone()),
        LifecycleExecuteMsg::Resume(hook.clone()),
        LifecycleExecuteMsg::Teardown(hook),
    ] {
        assert_eq!(run(&mut store, "registry", ExecuteMsg::Lifecycle(msg)).unwrap().messages, vec![]);
    }
    run(
        &mut store,
        "registry",
        ExecuteMsg::Lifecycle(LifecycleExecuteMsg::Setup(LifecycleSetupArgs {
            initiator: "creator".to_string(),
            id: "t".to_string(),
        })),
    )
    .unwrap();
    match query(&store, QueryMsg::Thread { sender: None }).unwrap() {
        QueryResponse::Thread(info) => {
            assert_eq!(info.n_total_replies, 1);
            assert_eq!(info.table.unwrap().address, "registry");
        }
        other => panic!("unexpected answer {:?}", other),
    }
    assert_eq!(migrate(&store, MigrateMsg {}).unwrap().messages, vec![]);
    run(&mut store, "u", ExecuteMsg::Delete { id: 1 }).unwrap();
    assert_eq!(
        query(&store, QueryMsg::Nodes(NodesQueryMsg::ByIds { ids: vec![1], sender: None }))
            .unwrap_err(),
        ContractError::NodeNotFound { node_id: 1 }
    );
}

#[test]
fn purge_takes_a_large_thread_out_in_batches() {
    let mut store = plain_thread();
    for i in 0..60 {
        let id = tagged_reply(&mut store, "u", &["t", "s"], &["@m"]);
        vote(&mut store, &format!("v{}", i), id, Sentiment::Up);
        exec_toggle_save(&mut store, &ctx("u"), true, vec![id]).unwrap();
    }
    exec_tip(
        &mut store,
        &ctx_with("t", vec![coin(3, "uatom")]),
        TokenAmount { token: Token::Denom("uatom".to_string()), amount: 3 },
    )
    .unwrap();
    exec_delete_node(&mut store, &ctx("creator"), ROOT_ID).unwrap();
    for id in 0..=60 {
        assert_eq!(load_node_metadata(&store, id, false).unwrap(), None);
    }
    assert_eq!(ids_with(&store, TagWrapper::Tag("t".to_string())), Vec::<u32>::new());
    assert_eq!(ids_with(&store, TagWrapper::Mention("m".to_string())), Vec::<u32>::new());
    assert_eq!(query_config(&store).unwrap().0.tip_tokens, vec![]);
    assert!(!is_action_authorized(&store, &"creator".to_string(), true));
    assert_eq!(next_node_id(&mut store).unwrap(), 1);
}
