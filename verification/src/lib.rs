//! A content store for one threaded discussion: nodes with replies, votes
//! and ranks, tags and mentions, saved lists, flags and tips.

pub mod contract;
pub mod error;
pub mod execute;
pub mod laws;
pub mod msg;
pub mod query;
pub mod state;
pub mod text;
pub mod util;
pub mod validation;
