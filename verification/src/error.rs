//! The errors with which an operation on the thread is refused.

use vstd::prelude::*;

verus! {

/// Why an operation or a query is refused.
#[derive(Debug, Clone, PartialEq, Eq)]
pub enum ContractError {
    /// A failure that is none of the others, with its text: a counter, a
    /// rank or a total would leave the range of its type; the thread has no
    /// owner; or a transfer could not be encoded.
    Std { reason: String },
    InsufficientFunds { details: String },
    NotAuthorized { reason: String },
    NodeNotFound { node_id: u32 },
    AlreadyVoted { node_id: u32 },
    ValidationError { reason: String },
    UnauthorizedTipToken { token: String },
}

/// An error with its texts as sequences of characters.
pub enum Fault {
    Std { reason: Seq<char> },
    InsufficientFunds { details: Seq<char> },
    NotAuthorized { reason: Seq<char> },
    NodeNotFound { node_id: u32 },
    AlreadyVoted { node_id: u32 },
    ValidationError { reason: Seq<char> },
    UnauthorizedTipToken { token: Seq<char> },
}

impl View for ContractError {
    type V = Fault;

    open spec fn view(&self) -> Fault {
        match self {
            ContractError::Std { reason } => Fault::Std { reason: reason@ },
            ContractError::InsufficientFunds { details } => Fault::InsufficientFunds {
                details: details@,
            },
            ContractError::NotAuthorized { reason } => Fault::NotAuthorized { reason: reason@ },
            ContractError::NodeNotFound { node_id } => Fault::NodeNotFound { node_id: *node_id },
            ContractError::AlreadyVoted { node_id } => Fault::AlreadyVoted { node_id: *node_id },
            ContractError::ValidationError { reason } => Fault::ValidationError {
                reason: reason@,
            },
            ContractError::UnauthorizedTipToken { token } => Fault::UnauthorizedTipToken {
                token: token@,
            },
        }
    }
}

/// The fault of a content rule broken, with its reason.
pub open spec fn invalid(reason: Seq<char>) -> Fault {
    Fault::ValidationError { reason }
}

/// The fault of an action refused to its sender, with its reason.
pub open spec fn refused(reason: Seq<char>) -> Fault {
    Fault::NotAuthorized { reason }
}

/// The fault of a node that does not exist.
pub open spec fn missing(node_id: u32) -> Fault {
    Fault::NodeNotFound { node_id }
}

/// The fault of a counter or total out of range.
pub open spec fn overflow() -> Fault {
    Fault::Std { reason: "Overflow"@ }
}

impl ContractError {
    /// The error of a content rule broken.
    pub fn validation(reason: &str) -> (e: ContractError)
        ensures
            e@ == invalid(reason@),
    {
        ContractError::ValidationError { reason: reason.to_owned() }
    }

    /// The error of an action refused to its sender.
    pub fn not_authorized(reason: &str) -> (e: ContractError)
        ensures
            e@ == refused(reason@),
    {
        ContractError::NotAuthorized { reason: reason.to_owned() }
    }

    /// The error of a counter or total out of range.
    pub fn overflow() -> (e: ContractError)
        ensures
            e@ == overflow(),
    {
        ContractError::Std { reason: "Overflow".to_owned() }
    }
}

} // verus!
