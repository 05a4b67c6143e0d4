use cw_thread::contract::{execute, instantiate, query};
use cw_thread::error::ContractError;
use cw_thread::execute::{attr, Context, Env, MessageInfo};
use cw_thread::msg::{
    ConfigUpdateMsg, ExecuteMsg, InstantiateMsg, NodeEditMsg, NodeReplyMsg, NodeVoteMsg,
    NodeViewByTagPaginationResponse, NodeViewRepliesPaginationResponse, NodesQueryMsg, QueryMsg,
    QueryResponse, Sentiment, ThreadInfoResponse,
};
use cw_thread::state::models::{Coin, Owner, Section, Token, TokenAmount, ROOT_ID};
use cw_thread::state::storage::Storage;
use cw_thread::state::views::{ConfigView, NodeView};

// ============================================================================
// Test Helpers
// ============================================================================

fn mock_info(sender: &str, funds: &[Coin]) -> Context {
    Context {
        env: Env { time: 1_571_797_419_879_305_533, contract_address: "cosmos2contract".to_string() },
        info: MessageInfo { sender: sender.to_string(), funds: funds.to_vec() },
        acl_allows: false,
    }
}

fn coins(amount: u128, denom: &str) -> Vec<Coin> {
    vec![Coin { denom: denom.to_string(), amount }]
}

fn default_instantiate_msg() -> InstantiateMsg {
    InstantiateMsg {
        owner: Some(Owner::Address("owner".to_string())),
        title: Some("Test Thread".to_string()),
        body: Some("This is a test thread body".to_string()),
        sections: None,
        tags: Some(vec!["test".to_string(), "discussion".to_string()]),
        mentions: Some(vec!["@alice".to_string()]),
        config: ConfigView { tip_tokens: vec![Token::Denom("uatom".to_string())] },
    }
}

fn create_thread() -> Storage {
    instantiate(&mock_info("creator", &[]), default_instantiate_msg()).unwrap().0
}

fn nodes_from(res: Result<QueryResponse, ContractError>) -> Result<Vec<NodeView>, ContractError> {
    match res? {
        QueryResponse::Nodes(nodes) => Ok(nodes),
        other => panic!("unexpected answer {:?}", other),
    }
}

fn replies_from(
    res: Result<QueryResponse, ContractError>,
) -> Result<NodeViewRepliesPaginationResponse, ContractError> {
    match res? {
        QueryResponse::Replies(page) => Ok(page),
        other => panic!("unexpected answer {:?}", other),
    }
}

fn tagged_from(
    res: Result<QueryResponse, ContractError>,
) -> Result<NodeViewByTagPaginationResponse, ContractError> {
    match res? {
        QueryResponse::Tagged(page) => Ok(page),
        other => panic!("unexpected answer {:?}", other),
    }
}

fn thread_from(res: Result<QueryResponse, ContractError>) -> Result<ThreadInfoResponse, ContractError> {
    match res? {
        QueryResponse::Thread(info) => Ok(info),
        other => panic!("unexpected answer {:?}", other),
    }
}

fn reply_msg(parent_id: u32, body: &str) -> NodeReplyMsg {
    NodeReplyMsg {
        parent_id,
        body: body.to_string(),
        sections: None,
        tags: None,
        mentions: None,
    }
}

// ============================================================================
// Authorization Tests
// ============================================================================

#[test]
fn test_instantiate_sets_owner() {
    let (store, res) = instantiate(&mock_info("creator", &[]), default_instantiate_msg()).unwrap();
    assert_eq!(res.attributes[0], attr("action", "instantiate"));

    // Query to verify owner was set
    let thread_info = thread_from(query(&store, QueryMsg::Thread { sender: None })).unwrap();
    assert_eq!(thread_info.owner, Owner::Address("owner".to_string()));
}

#[test]
fn test_only_creator_can_edit_node() {
    let mut store = create_thread();
    let info_creator = mock_info("creator", &[]);
    let info_other = mock_info("other_user", &[]);

    // Creator creates a reply
    execute(&mut store, &info_creator, ExecuteMsg::Reply(reply_msg(ROOT_ID, "Test reply"))).unwrap();

    // Try to edit as non-creator - should fail
    let edit_msg = NodeEditMsg {
        id: 1,
        body: Some("Edited by non-creator".to_string()),
        title: None,
        sections: None,
        tags: None,
        mentions: None,
    };
    let err = execute(&mut store, &info_other, ExecuteMsg::Edit(edit_msg.clone())).unwrap_err();
    assert!(matches!(err, ContractError::NotAuthorized { .. }));

    // Edit as creator - should succeed
    execute(&mut store, &info_creator, ExecuteMsg::Edit(edit_msg)).unwrap();
}

#[test]
fn test_only_creator_or_owner_can_delete_node() {
    let mut store = create_thread();
    let info_creator = mock_info("creator", &[]);
    let info_owner = mock_info("owner", &[]);
    let info_other = mock_info("other_user", &[]);

    // Creator creates a reply
    execute(&mut store, &info_creator, ExecuteMsg::Reply(reply_msg(ROOT_ID, "Test reply"))).unwrap();

    // Try to delete as non-creator/non-owner - should fail
    let err = execute(&mut store, &info_other, ExecuteMsg::Delete { id: 1 }).unwrap_err();
    assert!(matches!(err, ContractError::NotAuthorized { .. }));

    // Delete as owner - should succeed
    execute(&mut store, &info_owner, ExecuteMsg::Delete { id: 1 }).unwrap();
}

#[test]
fn test_only_owner_can_set_config() {
    let mut store = create_thread();
    let info_owner = mock_info("owner", &[]);
    let info_other = mock_info("other_user", &[]);

    let config_update = ConfigUpdateMsg { tip_tokens: Some(vec![Token::Denom("uosmo".to_string())]) };

    // Try as non-owner - should fail
    let err = execute(&mut store, &info_other, ExecuteMsg::SetConfig(config_update.clone())).unwrap_err();
    assert!(matches!(err, ContractError::NotAuthorized { .. }));

    // Try as owner - should succeed
    execute(&mut store, &info_owner, ExecuteMsg::SetConfig(config_update)).unwrap();
}

#[test]
fn test_owner_can_delete_any_node() {
    let mut store = create_thread();
    let info_user = mock_info("user1", &[]);
    let info_owner = mock_info("owner", &[]);

    // User creates a reply
    execute(&mut store, &info_user, ExecuteMsg::Reply(reply_msg(ROOT_ID, "User reply"))).unwrap();

    // Owner deletes user's reply - should succeed
    execute(&mut store, &info_owner, ExecuteMsg::Delete { id: 1 }).unwrap();
}

#[test]
fn test_cannot_tip_yourself() {
    let mut store = create_thread();
    let info_creator = mock_info("creator", &coins(100, "uatom"));

    let tip = TokenAmount { token: Token::Denom("uatom".to_string()), amount: 100 };

    let err = execute(&mut store, &info_creator, ExecuteMsg::Tip(tip)).unwrap_err();
    assert!(matches!(err, ContractError::NotAuthorized { .. }));
}

#[test]
fn test_anyone_can_reply() {
    let mut store = create_thread();
    let info_user = mock_info("random_user", &[]);

    let res = execute(&mut store, &info_user, ExecuteMsg::Reply(reply_msg(ROOT_ID, "Anyone can reply!"))).unwrap();
    assert_eq!(res.attributes[0], attr("action", "reply"));
}

#[test]
fn test_anyone_can_vote() {
    let mut store = create_thread();
    let info_user = mock_info("random_user", &[]);

    let vote_msg = NodeVoteMsg { id: ROOT_ID, sentiment: Sentiment::Up };

    let res = execute(&mut store, &info_user, ExecuteMsg::Vote(vote_msg)).unwrap();
    assert_eq!(res.attributes[0], attr("action", "vote"));
}

// ============================================================================
// Reply/Thread Tests
// ============================================================================

#[test]
fn test_reply_increments_parent_count() {
    let mut store = create_thread();
    let info = mock_info("user1", &[]);

    // Query initial state
    let nodes = nodes_from(query(&store, QueryMsg::Nodes(NodesQueryMsg::ByIds { ids: vec![ROOT_ID], sender: None }))).unwrap();
    assert_eq!(nodes[0].metadata.n_replies, 0);

    // Create a reply
    execute(&mut store, &info, ExecuteMsg::Reply(reply_msg(ROOT_ID, "First reply"))).unwrap();

    // Query again
    let nodes = nodes_from(query(&store, QueryMsg::Nodes(NodesQueryMsg::ByIds { ids: vec![ROOT_ID], sender: None }))).unwrap();
    assert_eq!(nodes[0].metadata.n_replies, 1);
}

#[test]
fn test_reply_to_nonexistent_parent_fails() {
    let mut store = create_thread();
    let info = mock_info("user1", &[]);

    let err = execute(&mut store, &info, ExecuteMsg::Reply(reply_msg(9999, "Reply to nothing"))).unwrap_err();
    assert!(matches!(err, ContractError::NodeNotFound { .. }));
}

#[test]
fn test_reply_creates_child_relationship() {
    let mut store = create_thread();
    let info = mock_info("user1", &[]);

    execute(&mut store, &info, ExecuteMsg::Reply(reply_msg(ROOT_ID, "Child reply"))).unwrap();

    // Query children
    let response = replies_from(query(&store, QueryMsg::Nodes(NodesQueryMsg::Children { id: ROOT_ID, cursor: None, limit: None, sender: None }))).unwrap();
    assert_eq!(response.nodes.len(), 1);
    assert_eq!(response.nodes[0].metadata.parent_id, Some(ROOT_ID));
}

#[test]
fn test_multiple_replies_to_same_parent() {
    let mut store = create_thread();

    for i in 0..3 {
        let info = mock_info(&format!("user{}", i), &[]);
        execute(&mut store, &info, ExecuteMsg::Reply(reply_msg(ROOT_ID, &format!("Reply {}", i)))).unwrap();
    }

    // Query children
    let response = replies_from(query(&store, QueryMsg::Nodes(NodesQueryMsg::Children { id: ROOT_ID, cursor: None, limit: None, sender: None }))).unwrap();
    assert_eq!(response.nodes.len(), 3);
}

#[test]
fn test_nested_replies() {
    let mut store = create_thread();
    let info = mock_info("user1", &[]);

    // Level 1 reply
    execute(&mut store, &info, ExecuteMsg::Reply(reply_msg(ROOT_ID, "Level 1"))).unwrap();

    // Level 2 reply
    execute(&mut store, &info, ExecuteMsg::Reply(reply_msg(1, "Level 2"))).unwrap();

    // Query node 2
    let nodes = nodes_from(query(&store, QueryMsg::Nodes(NodesQueryMsg::ByIds { ids: vec![2], sender: None }))).unwrap();
    assert_eq!(nodes[0].metadata.depth, 2);
}

#[test]
fn test_reply_updates_activity_score() {
    let mut store = create_thread();
    let info = mock_info("user1", &[]);

    // Query initial state
    let thread_info = thread_from(query(&store, QueryMsg::Thread { sender: None })).unwrap();
    let initial_score = thread_info.n_total_replies;

    // Create a reply
    execute(&mut store, &info, ExecuteMsg::Reply(reply_msg(ROOT_ID, "Activity!"))).unwrap();

    // Query again
    let thread_info = thread_from(query(&store, QueryMsg::Thread { sender: None })).unwrap();
    assert!(thread_info.n_total_replies > initial_score);
}

// ============================================================================
// Voting Tests
// ============================================================================

#[test]
fn test_upvote_increases_rank() {
    let mut store = create_thread();
    let info = mock_info("voter", &[]);

    execute(&mut store, &info, ExecuteMsg::Vote(NodeVoteMsg { id: ROOT_ID, sentiment: Sentiment::Up })).unwrap();

    // Query node
    let nodes = nodes_from(query(&store, QueryMsg::Nodes(NodesQueryMsg::ByIds { ids: vec![ROOT_ID], sender: None }))).unwrap();
    assert_eq!(nodes[0].metadata.rank, 1);
}

#[test]
fn test_downvote_decreases_rank() {
    let mut store = create_thread();
    let info = mock_info("voter", &[]);

    execute(&mut store, &info, ExecuteMsg::Vote(NodeVoteMsg { id: ROOT_ID, sentiment: Sentiment::Down })).unwrap();

    // Query node
    let nodes = nodes_from(query(&store, QueryMsg::Nodes(NodesQueryMsg::ByIds { ids: vec![ROOT_ID], sender: None }))).unwrap();
    assert_eq!(nodes[0].metadata.rank, -1);
}

#[test]
fn test_toggle_vote_changes_sentiment() {
    let mut store = create_thread();
    let info = mock_info("voter", &[]);

    // First upvote
    execute(&mut store, &info, ExecuteMsg::Vote(NodeVoteMsg { id: ROOT_ID, sentiment: Sentiment::Up })).unwrap();

    // Change to downvote
    execute(&mut store, &info, ExecuteMsg::Vote(NodeVoteMsg { id: ROOT_ID, sentiment: Sentiment::Down })).unwrap();

    // Query node - rank should be -1 (changed from +1 to -1, net change of -2)
    let nodes = nodes_from(query(&store, QueryMsg::Nodes(NodesQueryMsg::ByIds { ids: vec![ROOT_ID], sender: None }))).unwrap();
    assert_eq!(nodes[0].metadata.rank, -1);
}

#[test]
fn test_remove_vote() {
    let mut store = create_thread();
    let info = mock_info("voter", &[]);

    // Upvote
    execute(&mut store, &info, ExecuteMsg::Vote(NodeVoteMsg { id: ROOT_ID, sentiment: Sentiment::Up })).unwrap();

    // Remove vote: asking again for the vote held withdraws it
    execute(&mut store, &info, ExecuteMsg::Vote(NodeVoteMsg { id: ROOT_ID, sentiment: Sentiment::Up })).unwrap();

    // Query node
    let nodes = nodes_from(query(&store, QueryMsg::Nodes(NodesQueryMsg::ByIds { ids: vec![ROOT_ID], sender: None }))).unwrap();
    assert_eq!(nodes[0].metadata.rank, 0);
}

#[test]
fn test_vote_many_updates_multiple_nodes() {
    let mut store = create_thread();
    let info_user = mock_info("user1", &[]);
    let info_voter = mock_info("voter", &[]);

    // Create two replies
    for i in 0..2 {
        execute(&mut store, &info_user, ExecuteMsg::Reply(reply_msg(ROOT_ID, &format!("Reply {}", i)))).unwrap();
    }

    // Vote on both
    let votes = vec![
        NodeVoteMsg { id: 1, sentiment: Sentiment::Up },
        NodeVoteMsg { id: 2, sentiment: Sentiment::Up },
    ];

    execute(&mut store, &info_voter, ExecuteMsg::VoteMany(votes)).unwrap();

    // Query both nodes
    let nodes = nodes_from(query(&store, QueryMsg::Nodes(NodesQueryMsg::ByIds { ids: vec![1, 2], sender: None }))).unwrap();
    assert_eq!(nodes[0].metadata.rank, 1);
    assert_eq!(nodes[1].metadata.rank, 1);
}

// ============================================================================
// Deletion Tests
// ============================================================================

#[test]
fn test_delete_removes_from_storage() {
    let mut store = create_thread();
    let info_user = mock_info("user1", &[]);

    // Create a reply
    execute(&mut store, &info_user, ExecuteMsg::Reply(reply_msg(ROOT_ID, "To be deleted"))).unwrap();

    // Delete it
    execute(&mut store, &info_user, ExecuteMsg::Delete { id: 1 }).unwrap();

    // Query should fail
    let err = nodes_from(query(&store, QueryMsg::Nodes(NodesQueryMsg::ByIds { ids: vec![1], sender: None }))).unwrap_err();
    assert!(matches!(err, ContractError::NodeNotFound { .. }));
}

#[test]
fn test_delete_with_children_recursive() {
    let mut store = create_thread();
    let info = mock_info("user1", &[]);

    // Create parent reply
    execute(&mut store, &info, ExecuteMsg::Reply(reply_msg(ROOT_ID, "Parent"))).unwrap();

    // Create child reply
    execute(&mut store, &info, ExecuteMsg::Reply(reply_msg(1, "Child"))).unwrap();

    // Delete parent (should delete child too)
    execute(&mut store, &info, ExecuteMsg::Delete { id: 1 }).unwrap();

    // Both should be gone
    let err = nodes_from(query(&store, QueryMsg::Nodes(NodesQueryMsg::ByIds { ids: vec![1, 2], sender: None }))).unwrap_err();
    assert!(matches!(err, ContractError::NodeNotFound { .. }));
}

#[test]
fn test_delete_updates_parent_count() {
    let mut store = create_thread();
    let info = mock_info("user1", &[]);

    // Create a reply
    execute(&mut store, &info, ExecuteMsg::Reply(reply_msg(ROOT_ID, "Temporary reply"))).unwrap();

    // Verify parent count is 1
    let nodes = nodes_from(query(&store, QueryMsg::Nodes(NodesQueryMsg::ByIds { ids: vec![ROOT_ID], sender: None }))).unwrap();
    assert_eq!(nodes[0].metadata.n_replies, 1);

    // Delete the reply
    execute(&mut store, &info, ExecuteMsg::Delete { id: 1 }).unwrap();

    // Verify parent count is 0
    let nodes = nodes_from(query(&store, QueryMsg::Nodes(NodesQueryMsg::ByIds { ids: vec![ROOT_ID], sender: None }))).unwrap();
    assert_eq!(nodes[0].metadata.n_replies, 0);
}

#[test]
fn test_unauthorized_deletion_fails() {
    let mut store = create_thread();
    let info_creator = mock_info("user1", &[]);
    let info_other = mock_info("user2", &[]);

    // Create a reply
    execute(&mut store, &info_creator, ExecuteMsg::Reply(reply_msg(ROOT_ID, "User1's reply"))).unwrap();

    // Try to delete as different user
    let err = execute(&mut store, &info_other, ExecuteMsg::Delete { id: 1 }).unwrap_err();
    assert!(matches!(err, ContractError::NotAuthorized { .. }));
}

#[test]
fn test_delete_nonexistent_node_fails() {
    let mut store = create_thread();
    let info = mock_info("user1", &[]);

    let err = execute(&mut store, &info, ExecuteMsg::Delete { id: 9999 }).unwrap_err();
    assert!(matches!(err, ContractError::NodeNotFound { .. }));
}

// ============================================================================
// Tag/Mention Tests
// ============================================================================

#[test]
fn test_tags_stored_correctly() {
    let store = create_thread();

    // Query nodes with tag
    let response =
        tagged_from(query(&store, QueryMsg::Nodes(NodesQueryMsg::WithTag { tag: "test".to_string(), cursor: None, sender: None })))
            .unwrap();
    assert_eq!(response.nodes.len(), 1);
}

#[test]
fn test_mentions_stored_correctly() {
    let store = create_thread();

    // Query nodes with mention
    let response =
        tagged_from(query(&store, QueryMsg::Nodes(NodesQueryMsg::WithMention { mention: "alice".to_string(), cursor: None, sender: None })))
            .unwrap();
    assert_eq!(response.nodes.len(), 1);
}

#[test]
fn test_query_nodes_by_tag() {
    let mut store = create_thread();
    let info = mock_info("user1", &[]);

    // Create reply with tag
    let msg = NodeReplyMsg {
        parent_id: ROOT_ID,
        body: "Tagged reply".to_string(),
        sections: None,
        tags: Some(vec!["rust".to_string()]),
        mentions: None,
    };
    execute(&mut store, &info, ExecuteMsg::Reply(msg)).unwrap();

    // Query by tag
    let response =
        tagged_from(query(&store, QueryMsg::Nodes(NodesQueryMsg::WithTag { tag: "rust".to_string(), cursor: None, sender: None })))
            .unwrap();
    assert_eq!(response.nodes.len(), 1);
}

#[test]
fn test_query_nodes_by_mention() {
    let mut store = create_thread();
    let info = mock_info("user1", &[]);

    // Create reply with mention
    let msg = NodeReplyMsg {
        parent_id: ROOT_ID,
        body: "Mentioned reply".to_string(),
        sections: None,
        tags: None,
        mentions: Some(vec!["@bob".to_string()]),
    };
    execute(&mut store, &info, ExecuteMsg::Reply(msg)).unwrap();

    // Query by mention
    let response =
        tagged_from(query(&store, QueryMsg::Nodes(NodesQueryMsg::WithMention { mention: "bob".to_string(), cursor: None, sender: None })))
            .unwrap();
    assert_eq!(response.nodes.len(), 1);
}

#[test]
fn test_edit_updates_tags_and_mentions() {
    let mut store = create_thread();
    let info = mock_info("user1", &[]);

    // Create reply with tags and mentions
    let msg = NodeReplyMsg {
        parent_id: ROOT_ID,
        body: "Original".to_string(),
        sections: None,
        tags: Some(vec!["old-tag".to_string()]),
        mentions: Some(vec!["@olduser".to_string()]),
    };
    execute(&mut store, &info, ExecuteMsg::Reply(msg)).unwrap();

    // Edit with new tags and mentions
    let edit_msg = NodeEditMsg {
        id: 1,
        body: Some("Updated".to_string()),
        title: None,
        sections: None,
        tags: Some(vec!["new-tag".to_string()]),
        mentions: Some(vec!["@newuser".to_string()]),
    };
    execute(&mut store, &info, ExecuteMsg::Edit(edit_msg)).unwrap();

    // Query with new tag should find it
    let response =
        tagged_from(query(&store, QueryMsg::Nodes(NodesQueryMsg::WithTag { tag: "new-tag".to_string(), cursor: None, sender: None })))
            .unwrap();
    assert_eq!(response.nodes.len(), 1);

    // Query with old tag should not find it
    let response =
        tagged_from(query(&store, QueryMsg::Nodes(NodesQueryMsg::WithTag { tag: "old-tag".to_string(), cursor: None, sender: None })))
            .unwrap();
    assert_eq!(response.nodes.len(), 0);
}

// ============================================================================
// Tipping Tests
// ============================================================================

#[test]
fn test_tip_with_native_token() {
    let mut store = create_thread();
    let info = mock_info("tipper", &coins(100, "uatom"));

    let tip = TokenAmount { token: Token::Denom("uatom".to_string()), amount: 100 };

    let res = execute(&mut store, &info, ExecuteMsg::Tip(tip)).unwrap();
    assert_eq!(res.attributes[0], attr("action", "tip"));
}

#[test]
fn test_tip_with_unauthorized_token_fails() {
    let mut store = create_thread();
    let info = mock_info("tipper", &coins(100, "unotallowed"));

    let tip = TokenAmount { token: Token::Denom("unotallowed".to_string()), amount: 100 };

    let err = execute(&mut store, &info, ExecuteMsg::Tip(tip)).unwrap_err();
    assert!(matches!(err, ContractError::UnauthorizedTipToken { .. }));
}

#[test]
fn test_tip_insufficient_funds_fails() {
    let mut store = create_thread();
    let info = mock_info("tipper", &coins(50, "uatom")); // Send 50 but claim 100

    let tip = TokenAmount { token: Token::Denom("uatom".to_string()), amount: 100 };

    let err = execute(&mut store, &info, ExecuteMsg::Tip(tip)).unwrap_err();
    assert!(matches!(err, ContractError::InsufficientFunds { .. }));
}

#[test]
fn test_tip_self_fails() {
    let mut store = create_thread();
    let info = mock_info("creator", &coins(100, "uatom"));

    let tip = TokenAmount { token: Token::Denom("uatom".to_string()), amount: 100 };

    let err = execute(&mut store, &info, ExecuteMsg::Tip(tip)).unwrap_err();
    assert!(matches!(err, ContractError::NotAuthorized { .. }));
}

// ============================================================================
// Validation Tests
// ============================================================================

#[test]
fn test_reject_empty_body() {
    let info = mock_info("creator", &[]);
    let mut msg = default_instantiate_msg();
    msg.body = Some("   ".to_string()); // Empty after trim

    let err = instantiate(&info, msg).unwrap_err();
    assert!(matches!(err, ContractError::ValidationError { .. }));
}

#[test]
fn test_reject_oversized_body() {
    let mut store = create_thread();
    let info = mock_info("user1", &[]);

    let huge_body = "x".repeat(60_000); // Exceeds MAX_BODY_LENGTH
    let err = execute(&mut store, &info, ExecuteMsg::Reply(reply_msg(ROOT_ID, &huge_body))).unwrap_err();
    assert!(matches!(err, ContractError::ValidationError { .. }));
}

#[test]
fn test_reject_too_many_tags() {
    let mut store = create_thread();
    let info = mock_info("user1", &[]);

    let tags: Vec<String> = (0..15).map(|i| format!("tag{}", i)).collect();
    let msg = NodeReplyMsg {
        parent_id: ROOT_ID,
        body: "Too many tags".to_string(),
        sections: None,
        tags: Some(tags),
        mentions: None,
    };

    let err = execute(&mut store, &info, ExecuteMsg::Reply(msg)).unwrap_err();
    assert!(matches!(err, ContractError::ValidationError { .. }));
}

#[test]
fn test_reject_invalid_tag_characters() {
    let mut store = create_thread();
    let info = mock_info("user1", &[]);

    let msg = NodeReplyMsg {
        parent_id: ROOT_ID,
        body: "Invalid tag".to_string(),
        sections: None,
        tags: Some(vec!["tag with spaces!".to_string()]),
        mentions: None,
    };

    let err = execute(&mut store, &info, ExecuteMsg::Reply(msg)).unwrap_err();
    assert!(matches!(err, ContractError::ValidationError { .. }));
}

#[test]
fn test_reject_mention_without_at_symbol() {
    let mut store = create_thread();
    let info = mock_info("user1", &[]);

    let msg = NodeReplyMsg {
        parent_id: ROOT_ID,
        body: "Invalid mention".to_string(),
        sections: None,
        tags: None,
        mentions: Some(vec!["alice".to_string()]), // Missing @
    };

    let err = execute(&mut store, &info, ExecuteMsg::Reply(msg)).unwrap_err();
    assert!(matches!(err, ContractError::ValidationError { .. }));
}

#[test]
fn test_reject_too_many_mentions() {
    let mut store = create_thread();
    let info = mock_info("user1", &[]);

    let mentions: Vec<String> = (0..25).map(|i| format!("@user{}", i)).collect();
    let msg = NodeReplyMsg {
        parent_id: ROOT_ID,
        body: "Too many mentions".to_string(),
        sections: None,
        tags: None,
        mentions: Some(mentions),
    };

    let err = execute(&mut store, &info, ExecuteMsg::Reply(msg)).unwrap_err();
    assert!(matches!(err, ContractError::ValidationError { .. }));
}

#[test]
fn test_reject_too_many_sections() {
    let mut store = create_thread();
    let info = mock_info("user1", &[]);

    let sections: Vec<Section> = (0..25).map(|_| Section::Text("text".to_string())).collect();
    let msg = NodeReplyMsg {
        parent_id: ROOT_ID,
        body: "Too many sections".to_string(),
        sections: Some(sections),
        tags: None,
        mentions: None,
    };

    let err = execute(&mut store, &info, ExecuteMsg::Reply(msg)).unwrap_err();
    assert!(matches!(err, ContractError::ValidationError { .. }));
}

#[test]
fn test_reject_empty_title() {
    let info = mock_info("creator", &[]);
    let mut msg = default_instantiate_msg();
    msg.title = Some("   ".to_string()); // Empty after trim

    let err = instantiate(&info, msg).unwrap_err();
    assert!(matches!(err, ContractError::ValidationError { .. }));
}

// ============================================================================
// Query Tests
// ============================================================================

#[test]
fn test_query_thread_info() {
    let store = create_thread();

    let thread_info = thread_from(query(&store, QueryMsg::Thread { sender: None })).unwrap();

    assert_eq!(thread_info.root.title, Some("Test Thread".to_string()));
    assert_eq!(thread_info.owner, Owner::Address("owner".to_string()));
}

#[test]
fn test_query_node_by_id() {
    let store = create_thread();

    let nodes = nodes_from(query(&store, QueryMsg::Nodes(NodesQueryMsg::ByIds { ids: vec![ROOT_ID], sender: None }))).unwrap();

    assert_eq!(nodes.len(), 1);
    assert_eq!(nodes[0].metadata.id, ROOT_ID);
}

#[test]
fn test_query_children_paginated() {
    let mut store = create_thread();
    let info = mock_info("user1", &[]);

    // Create multiple replies
    for i in 0..5 {
        execute(&mut store, &info, ExecuteMsg::Reply(reply_msg(ROOT_ID, &format!("Reply {}", i)))).unwrap();
    }

    // Query with limit
    let response = replies_from(query(&store, QueryMsg::Nodes(NodesQueryMsg::Children { id: ROOT_ID, cursor: None, limit: Some(3), sender: None }))).unwrap();

    assert_eq!(response.nodes.len(), 3);
    assert!(response.cursor.is_some());
}

#[test]
fn test_query_ancestors() {
    let mut store = create_thread();
    let info = mock_info("user1", &[]);

    // Create nested replies
    execute(&mut store, &info, ExecuteMsg::Reply(reply_msg(ROOT_ID, "Level 1"))).unwrap();
    execute(&mut store, &info, ExecuteMsg::Reply(reply_msg(1, "Level 2"))).unwrap();

    // Query ancestors from node 2
    let nodes = nodes_from(query(&store, QueryMsg::Nodes(NodesQueryMsg::Ancestors { id: 2, levels: Some(2), sender: None }))).unwrap();

    assert_eq!(nodes.len(), 2); // Should get node 1 and ROOT
}

// ============================================================================
// Edge Case Tests
// ============================================================================

#[test]
fn test_save_and_unsave_node() {
    let mut store = create_thread();
    let info = mock_info("user1", &[]);

    // Save the root node
    execute(&mut store, &info, ExecuteMsg::Save(vec![ROOT_ID])).unwrap();

    // Unsave the root node
    execute(&mut store, &info, ExecuteMsg::Unsave(vec![ROOT_ID])).unwrap();
}

#[test]
fn test_flag_and_unflag_node() {
    let mut store = create_thread();
    let info = mock_info("user1", &[]);

    // Flag the root node
    execute(&mut store, &info, ExecuteMsg::Flag { id: ROOT_ID, reason: Some("Spam".to_string()) }).unwrap();

    // Unflag the root node
    execute(&mut store, &info, ExecuteMsg::Unflag { id: ROOT_ID }).unwrap();
}

#[test]
fn test_edit_removes_old_sections() {
    let mut store = create_thread();
    let info = mock_info("user1", &[]);

    // Create reply with sections
    let msg = NodeReplyMsg {
        parent_id: ROOT_ID,
        body: "Original".to_string(),
        sections: Some(vec![
            Section::Text("Section 1".to_string()),
            Section::Text("Section 2".to_string()),
        ]),
        tags: None,
        mentions: None,
    };
    execute(&mut store, &info, ExecuteMsg::Reply(msg)).unwrap();

    // Edit with new sections
    let edit_msg = NodeEditMsg {
        id: 1,
        body: Some("Updated".to_string()),
        title: None,
        sections: Some(vec![Section::Text("New Section".to_string())]),
        tags: None,
        mentions: None,
    };
    execute(&mut store, &info, ExecuteMsg::Edit(edit_msg)).unwrap();

    // Query to verify
    let nodes = nodes_from(query(&store, QueryMsg::Nodes(NodesQueryMsg::ByIds { ids: vec![1], sender: None }))).unwrap();
    assert_eq!(nodes[0].metadata.n_sections, 1);
}

#[test]
fn test_multiple_users_can_save_same_node() {
    let mut store = create_thread();

    for i in 1..4 {
        let info = mock_info(&format!("user{}", i), &[]);
        execute(&mut store, &info, ExecuteMsg::Save(vec![ROOT_ID])).unwrap();
    }

    // All saves should succeed independently
}

#[test]
fn test_valid_alphanumeric_tags_accepted() {
    let mut store = create_thread();
    let info = mock_info("user1", &[]);

    let msg = NodeReplyMsg {
        parent_id: ROOT_ID,
        body: "Valid tags".to_string(),
        sections: None,
        tags: Some(vec![
            "rust-lang".to_string(),
            "web3_dev".to_string(),
            "CosmWasm123".to_string(),
        ]),
        mentions: None,
    };

    execute(&mut store, &info, ExecuteMsg::Reply(msg)).unwrap();
}
