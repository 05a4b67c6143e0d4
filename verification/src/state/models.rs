//! The records that the thread keeps, and its limits.

use vstd::prelude::*;

verus! {

/// The number that stands for no vote.
pub const NIL: u8 = 0;

/// The number under which a vote against is stored.
pub const DOWN: u8 = 1;

/// The number under which a vote in favour is stored.
pub const UP: u8 = 2;

/// The identifier of the thread's first node.
pub const ROOT_ID: u32 = 0;

/// The most bytes that a title takes.
pub const MAX_TITLE_LENGTH: usize = 200;

/// The most bytes that a body, or the text of a section, takes.
pub const MAX_BODY_LENGTH: usize = 50000;

/// The most tags that a node is given.
pub const MAX_TAGS: usize = 10;

/// The most bytes that a tag takes.
pub const MAX_TAG_LENGTH: usize = 30;

/// The most mentions that a node is given.
pub const MAX_MENTIONS: usize = 20;

/// The most sections that a node is given.
pub const MAX_SECTIONS: usize = 20;

/// The most kinds of asset that the thread accepts as tips.
pub const MAX_TIP_TOKEN_TYPES: usize = 10;

/// The depth that no reply may exceed.
pub const MAX_DEPTH: u8 = 255;

/// The most nodes that one page of a query holds.
pub const MAX_PAGE_SIZE: u8 = 25;

/// Copies a text.
pub fn copy_text(s: &String) -> (r: String)
    ensures
        r == *s,
{
    s.clone()
}

/// Copies a text that may be absent.
pub fn copy_opt_text(s: &Option<String>) -> (r: Option<String>)
    ensures
        r == *s,
{
    match s {
        Some(t) => Some(t.clone()),
        None => None,
    }
}

/// Copies a list of texts.
pub fn copy_texts(v: &Vec<String>) -> (r: Vec<String>)
    ensures
        r@ == v@,
{
    let mut r: Vec<String> = Vec::new();
    let mut i: usize = 0;
    while i < v.len()
        invariant
            i <= v.len(),
            r@ == v@.take(i as int),
        decreases v.len() - i,
    {
        r.push(v[i].clone());
        assert(r@ =~= v@.take(i + 1));
        i += 1;
    }
    assert(r@ =~= v@);
    r
}

/// The registry that lists this thread, and the thread's name in it.
#[derive(Debug, Clone, PartialEq, Eq)]
pub struct TableMetadata {
    pub address: String,
    pub id: String,
}

impl TableMetadata {
    /// A copy.
    pub fn dup(&self) -> (r: Self)
        ensures
            r == *self,
    {
        TableMetadata { address: self.address.clone(), id: self.id.clone() }
    }
}

/// One part of a node's structured content.
#[allow(inconsistent_fields)]
#[derive(Debug, Clone, PartialEq, Eq)]
pub enum Section {
    Text(String),
    Image(String),
    Code { lang: Option<String>, text: String },
    Link { text: Option<String>, url: String },
}

impl Section {
    /// A copy.
    pub fn dup(&self) -> (r: Self)
        ensures
            r == *self,
    {
        match self {
            Section::Text(t) => Section::Text(t.clone()),
            Section::Image(u) => Section::Image(u.clone()),
            Section::Code { lang, text } => Section::Code {
                lang: copy_opt_text(lang),
                text: text.clone(),
            },
            Section::Link { text, url } => Section::Link {
                text: copy_opt_text(text),
                url: url.clone(),
            },
        }
    }
}

/// Copies a list of sections.
pub fn copy_sections(v: &Vec<Section>) -> (r: Vec<Section>)
    ensures
        r@ == v@,
{
    let mut r: Vec<Section> = Vec::new();
    let mut i: usize = 0;
    while i < v.len()
        invariant
            i <= v.len(),
            r@ == v@.take(i as int),
        decreases v.len() - i,
    {
        r.push(v[i].dup());
        assert(r@ =~= v@.take(i + 1));
        i += 1;
    }
    assert(r@ =~= v@);
    r
}

/// What the thread records of a node beside its content.
#[derive(Debug, Clone, PartialEq, Eq)]
pub struct NodeMetadata {
    pub id: u32,
    pub parent_id: Option<u32>,
    /// Nanoseconds since the epoch.
    pub created_at: u64,
    pub updated_at: Option<u64>,
    pub created_by: String,
    pub rank: i32,
    pub n_replies: u16,
    pub n_sections: u8,
    pub n_flags: u8,
    pub depth: u8,
}

impl NodeMetadata {
    /// A copy.
    pub fn dup(&self) -> (r: Self)
        ensures
            r == *self,
    {
        NodeMetadata {
            id: self.id,
            parent_id: self.parent_id,
            created_at: self.created_at,
            updated_at: self.updated_at,
            created_by: self.created_by.clone(),
            rank: self.rank,
            n_replies: self.n_replies,
            n_sections: self.n_sections,
            n_flags: self.n_flags,
            depth: self.depth,
        }
    }
}

/// One account's flag on a node.
#[derive(Debug, Clone, PartialEq, Eq)]
pub struct FlagMetadata {
    /// Nanoseconds since the epoch.
    pub flagged_at: u64,
    pub flagged_by: String,
    pub reason: Option<String>,
}

/// Who owns the thread: an account, or the accounts that an access-control
/// service admits.
#[derive(Debug, Clone, PartialEq, Eq)]
pub enum Owner {
    Address(String),
    Acl(String),
}

impl Owner {
    /// A copy.
    pub fn dup(&self) -> (r: Self)
        ensures
            r == *self,
    {
        match self {
            Owner::Address(a) => Owner::Address(a.clone()),
            Owner::Acl(a) => Owner::Acl(a.clone()),
        }
    }
}

/// A kind of asset: a native denomination, or the contract of a ledger asset.
#[derive(Debug, Clone, PartialEq, Eq)]
pub enum Token {
    Denom(String),
    Address(String),
}

impl Token {
    /// The text under which the token is looked up.
    pub open spec fn key(&self) -> Seq<char> {
        match self {
            Token::Denom(d) => d@,
            Token::Address(a) => a@,
        }
    }

    /// A copy of the text under which the token is looked up.
    pub fn get_key(&self) -> (k: String)
        ensures
            k@ == self.key(),
    {
        match self {
            Token::Denom(d) => d.clone(),
            Token::Address(a) => a.clone(),
        }
    }

    /// A copy.
    pub fn dup(&self) -> (r: Self)
        ensures
            r == *self,
    {
        match self {
            Token::Denom(d) => Token::Denom(d.clone()),
            Token::Address(a) => Token::Address(a.clone()),
        }
    }
}

/// Copies a list of tokens.
pub fn copy_tokens(v: &Vec<Token>) -> (r: Vec<Token>)
    ensures
        r@ == v@,
{
    let mut r: Vec<Token> = Vec::new();
    let mut i: usize = 0;
    while i < v.len()
        invariant
            i <= v.len(),
            r@ == v@.take(i as int),
        decreases v.len() - i,
    {
        r.push(v[i].dup());
        assert(r@ =~= v@.take(i + 1));
        i += 1;
    }
    assert(r@ =~= v@);
    r
}

/// An amount of one kind of asset.
#[derive(Debug, Clone, PartialEq, Eq)]
pub struct TokenAmount {
    pub token: Token,
    pub amount: u128,
}

/// An amount of a native denomination, as it comes with a message.
#[derive(Debug, Clone, PartialEq, Eq)]
pub struct Coin {
    pub denom: String,
    pub amount: u128,
}

} // verus!
