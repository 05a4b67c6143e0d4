//! Tipping: paying the thread's creator, and counting what was paid.

use vstd::prelude::*;

use crate::error::{missing, overflow, refused, ContractError, Fault};
use crate::execute::{ended, labels, Context, Message, Response};
use crate::state::models::{Coin, TableMetadata, Token, TokenAmount, ROOT_ID};
use crate::state::storage::Storage;
use crate::state::thread::Thread;
use crate::text::{decimal, decimal_string, join3};
use crate::util::load_node_metadata;

verus! {

/// Whether the first coin of a denomination in a list, if there is one,
/// holds at least an amount.
pub open spec fn covers(funds: Seq<Coin>, denom: Seq<char>, amount: u128) -> bool
    decreases funds.len(),
{
    if funds.len() == 0 {
        false
    } else if funds[0].denom@ == denom {
        funds[0].amount >= amount
    } else {
        covers(funds.drop_first(), denom, amount)
    }
}

/// The bytes of the message that asks the contract of a ledger asset to
/// transfer an amount to a recipient, as `cosmwasm_std::to_json_binary`
/// gives them for `cw20::Cw20ExecuteMsg::Transfer`; none where it fails.
pub uninterp spec fn transfer_encoding(recipient: Seq<char>, amount: u128) -> Option<Seq<u8>>;

/// Calls `cosmwasm_std::has_coins` on the funds and the coin required.
/// Trusted: that function looks for the first coin of the required
/// denomination and says whether its amount is at least the one required;
/// without such a coin it says no.
#[verifier::external_body]
fn has_funds(funds: &Vec<Coin>, amount: u128, denom: &String) -> (b: bool)
    ensures
        b == covers(funds@, denom@, amount),
{
    let coins: Vec<cosmwasm_std::Coin> = funds.iter().map(
        |c| cosmwasm_std::Coin::new(c.amount, c.denom.clone()),
    ).collect();
    cosmwasm_std::has_coins(&coins, &cosmwasm_std::Coin::new(amount, denom.clone()))
}

/// Calls `cosmwasm_std::to_json_binary` on a `cw20::Cw20ExecuteMsg::Transfer`
/// with the recipient and the amount. Trusted: whether it succeeds, and the
/// bytes that it gives, depend on these two alone; they are named
/// `transfer_encoding`. Of the error nothing is kept but that there was
/// one.
#[verifier::external_body]
fn encode_transfer(recipient: &String, amount: u128) -> (r: Option<Vec<u8>>)
    ensures
        match r {
            Some(bytes) => transfer_encoding(recipient@, amount) == Some(bytes@),
            None => transfer_encoding(recipient@, amount) is None,
        },
{
    let msg = cw20::Cw20ExecuteMsg::Transfer {
        recipient: recipient.clone(),
        amount: cosmwasm_std::Uint128::new(amount),
    };
    match cosmwasm_std::to_json_binary(&msg) {
        Ok(binary) => Some(binary.0),
        Err(_) => None,
    }
}

/// The fault of a transfer that could not be encoded.
pub open spec fn not_encoded() -> Fault {
    Fault::Std { reason: "Transfer could not be encoded"@ }
}

/// The message that has a ledger asset's contract run an encoded transfer,
/// or the error where the transfer could not be encoded.
pub fn transfer_message(contract: &String, encoded: Option<Vec<u8>>) -> (r: Result<
    Message,
    ContractError,
>)
    ensures
        match encoded {
            Some(bytes) => r == Ok::<Message, ContractError>(
                Message::Execute { contract: *contract, payload: bytes },
            ),
            None => r is Err && r->Err_0@ == not_encoded(),
        },
{
    match encoded {
        Some(bytes) => Ok(Message::Execute { contract: contract.clone(), payload: bytes }),
        None => Err(ContractError::Std { reason: "Transfer could not be encoded".to_owned() }),
    }
}

/// The text that says which funds a tip was expected to come with.
pub open spec fn expected_funds(amount: u128, denom: Seq<char>) -> Seq<char> {
    "Expected "@ + decimal(amount as nat) + denom + " for tip"@
}

/// What has been tipped of a kind of asset so far.
pub open spec fn tipped(thread: Thread, key: Seq<char>) -> u128 {
    if thread.tip_totals.contains_key(key) {
        thread.tip_totals[key]
    } else {
        0
    }
}

/// Why a tip is refused, if it is: the thread has no first node; the
/// sender created the thread; the kind of asset is not accepted; the funds
/// that came with the message do not cover a tip in a native denomination;
/// the transfer of a ledger asset cannot be encoded; or the total tipped of
/// the kind would leave the range of amounts.
pub open spec fn tip_fault(thread: Thread, ctx: Context, tip: TokenAmount) -> Option<Fault> {
    let key = tip.token.key();
    if !thread.live(ROOT_ID) {
        Some(missing(ROOT_ID))
    } else if thread.meta(ROOT_ID).created_by@ == ctx.info.sender@ {
        Some(refused("Cannot tip yourself"@))
    } else if !thread.tip_lookup.contains(key) {
        Some(Fault::UnauthorizedTipToken { token: key })
    } else if tip.token is Denom && !covers(ctx.info.funds@, key, tip.amount) {
        Some(Fault::InsufficientFunds { details: expected_funds(tip.amount, key) })
    } else if tip.token is Address && transfer_encoding(
        thread.meta(ROOT_ID).created_by@,
        tip.amount,
    ) is None {
        Some(not_encoded())
    } else if tipped(thread, key) + tip.amount > u128::MAX {
        Some(overflow())
    } else {
        None
    }
}

/// The thread after a tip: the total tipped of the kind has grown by the
/// amount.
pub open spec fn tip_counted(thread: Thread, tip: TokenAmount) -> Thread {
    Thread {
        tip_totals: thread.tip_totals.insert(
            tip.token.key(),
            (tipped(thread, tip.token.key()) + tip.amount) as u128,
        ),
        ..thread
    }
}

/// The message pays the tip to the thread's creator: by a send for a
/// native denomination, by an encoded transfer for a ledger asset.
pub open spec fn pays(m: Message, creator: String, tip: TokenAmount) -> bool {
    match tip.token {
        Token::Denom(denom) => m == (Message::Send { to: creator, denom, amount: tip.amount }),
        Token::Address(asset) => match m {
            Message::Execute { contract, payload } => contract == asset && transfer_encoding(
                creator@,
                tip.amount,
            ) == Some(payload@),
            _ => false,
        },
    }
}

/// The name under which the registry indexes the thread by what has been
/// tipped of a kind of asset: `tip:` and the key of the kind.
pub open spec fn tip_index_name(key: Seq<char>) -> Seq<char> {
    "tip:"@ + key
}

/// The message tells the registry what has been tipped of a kind of asset.
pub open spec fn tells_total(m: Message, table: String, initiator: String, key: Seq<char>, total: u128) -> bool {
    match m {
        Message::TableTip { table: t, initiator: i, name, total: n } => t == table && i
            == initiator && name@ == tip_index_name(key) && n == total,
        _ => false,
    }
}

/// What a tip asks of the collaborators: the payment, and then, where a
/// registry lists the thread, the telling of the new total.
pub open spec fn tip_notices(messages: Seq<Message>, thread: Thread, sender: String, tip: TokenAmount) -> bool {
    &&& messages.len() >= 1
    &&& pays(messages[0], thread.meta(ROOT_ID).created_by, tip)
    &&& match thread.table {
        Some(t) => messages.len() == 2 && tells_total(
            messages[1],
            t.address,
            sender,
            tip.token.key(),
            (tipped(thread, tip.token.key()) + tip.amount) as u128,
        ),
        None => messages.len() == 1,
    }
}

/// Pays a tip in a native denomination, which the funds of the message
/// must cover.
fn tip_native(store: &Storage, creator: &String, funds: &Vec<Coin>, denom: &String, amount: u128) -> (r:
    Result<Message, ContractError>)
    requires
        store.inv(),
    ensures
        match r {
            Ok(m) => store@.tip_lookup.contains(denom@) && covers(funds@, denom@, amount) && m == (
            Message::Send { to: *creator, denom: *denom, amount }),
            Err(e) => if !store@.tip_lookup.contains(denom@) {
                e@ == (Fault::UnauthorizedTipToken { token: denom@ })
            } else {
                !covers(funds@, denom@, amount) && e@ == (Fault::InsufficientFunds {
                    details: expected_funds(amount, denom@),
                })
            },
        },
{
    if !store.is_tip_token(denom) {
        return Err(ContractError::UnauthorizedTipToken { token: denom.clone() });
    }
    if !has_funds(funds, amount, denom) {
        let number = decimal_string(amount);
        let head = join3("Expected ", number.as_str(), denom.as_str());
        let details = join3(head.as_str(), " for tip", "");
        assert(details@ =~= expected_funds(amount, denom@)) by {
            reveal_strlit("");
        }
        return Err(ContractError::InsufficientFunds { details });
    }
    Ok(Message::Send { to: creator.clone(), denom: denom.clone(), amount })
}

/// Pays a tip in a ledger asset, by a transfer that the asset's contract
/// is asked to run.
fn tip_cw20(store: &Storage, creator: &String, cw20_addr: &String, amount: u128) -> (r: Result<
    Message,
    ContractError,
>)
    requires
        store.inv(),
    ensures
        match r {
            Ok(m) => store@.tip_lookup.contains(cw20_addr@) && pays(
                m,
                *creator,
                TokenAmount { token: Token::Address(*cw20_addr), amount },
            ),
            Err(e) => if !store@.tip_lookup.contains(cw20_addr@) {
                e@ == (Fault::UnauthorizedTipToken { token: cw20_addr@ })
            } else {
                transfer_encoding(creator@, amount) is None && e@ == not_encoded()
            },
        },
{
    if !store.is_tip_token(cw20_addr) {
        return Err(ContractError::UnauthorizedTipToken { token: cw20_addr.clone() });
    }
    transfer_message(cw20_addr, encode_transfer(creator, amount))
}

/// Adds an amount to the total tipped of a kind of asset, and tells the
/// registry of the new total where one lists the thread.
fn increment_total_tip_amount(store: &mut Storage, initiator: &String, token_amount: &TokenAmount) -> (r:
    Result<Option<Message>, ContractError>)
    requires
        old(store).wf(),
    ensures
        final(store).wf(),
        match r {
            Ok(m) => {
                &&& tipped(old(store)@, token_amount.token.key()) + token_amount.amount <= u128::MAX
                &&& final(store)@ == tip_counted(old(store)@, *token_amount)
                &&& match old(store)@.table {
                    Some(t) => m is Some && tells_total(
                        m->Some_0,
                        t.address,
                        *initiator,
                        token_amount.token.key(),
                        (tipped(old(store)@, token_amount.token.key()) + token_amount.amount) as u128,
                    ),
                    None => m is None,
                }
            },
            Err(e) => {
                &&& tipped(old(store)@, token_amount.token.key()) + token_amount.amount > u128::MAX
                &&& e@ == overflow()
                &&& final(store)@ == old(store)@
            },
        },
{
    let token_key = token_amount.token.get_key();
    let amount = token_amount.amount;
    let so_far = match store.tip_total(&token_key) {
        Some(total) => total,
        None => 0,
    };
    let new_total = match so_far.checked_add(amount) {
        Some(total) => total,
        None => {
            return Err(ContractError::overflow());
        },
    };
    let table = store.table();
    store.set_tip_total(token_key.clone(), new_total);
    Ok(
        match table {
            Some(TableMetadata { address, .. }) => {
                let name = join3("tip:", token_key.as_str(), "");
                proof {
                    reveal_strlit("");
                    assert(name@ =~= tip_index_name(token_key@));
                }
                Some(
                    Message::TableTip {
                        table: address,
                        initiator: initiator.clone(),
                        name,
                        total: new_total,
                    },
                )
            },
            None => None,
        },
    )
}

/// What a tip tells of itself: its amount, and its denomination or the
/// contract of its ledger asset.
pub open spec fn tip_labels(tip: TokenAmount) -> Seq<(Seq<char>, Seq<char>)> {
    seq![
        ("action"@, "tip"@),
        ("tip_amount"@, decimal(tip.amount as nat)),
        (
            match tip.token {
                Token::Denom(_) => "tip_denom"@,
                Token::Address(_) => "tip_token"@,
            },
            tip.token.key(),
        ),
    ]
}

/// What a tip that is not refused does: the total of the kind has grown,
/// the payment is asked for, and the registry is told of the total.
pub open spec fn tip_done(before: Thread, ctx: Context, tip: TokenAmount, resp: Response, after: Thread) -> bool {
    &&& after == tip_counted(before, tip)
    &&& labels(resp) == tip_labels(tip)
    &&& resp.node_id is None
    &&& tip_notices(resp.messages@, before, ctx.info.sender, tip)
}

/// Tips the thread's creator in a kind of asset that the thread accepts.
pub fn exec_tip(store: &mut Storage, ctx: &Context, token_amount: TokenAmount) -> (r: Result<
    Response,
    ContractError,
>)
    requires
        old(store).wf(),
    ensures
        final(store).wf(),
        ended(
            tip_fault(old(store)@, *ctx, token_amount),
            tip_done(old(store)@, *ctx, token_amount, r->Ok_0, final(store)@),
            r,
            old(store)@,
            final(store)@,
        ),
{
    // The thread's creator receives the tip.
    let creator = match load_node_metadata(store, ROOT_ID, true) {
        Ok(Some(m)) => m.created_by,
        Ok(None) => {
            return Err(ContractError::NodeNotFound { node_id: ROOT_ID });
        },
        Err(e) => {
            return Err(e);
        },
    };
    if creator == ctx.info.sender {
        return Err(ContractError::not_authorized("Cannot tip yourself"));
    }
    let payment = match &token_amount.token {
        Token::Denom(denom) => tip_native(
            store,
            &creator,
            &ctx.info.funds,
            denom,
            token_amount.amount,
        ),
        Token::Address(cw20_addr) => tip_cw20(store, &creator, cw20_addr, token_amount.amount),
    };
    let payment = match payment {
        Ok(m) => m,
        Err(e) => {
            return Err(e);
        },
    };
    let mut resp = Response::of("tip");
    resp.add_attribute("tip_amount", decimal_string(token_amount.amount).as_str());
    match &token_amount.token {
        Token::Denom(denom) => {
            resp.add_attribute("tip_denom", denom.as_str());
        },
        Token::Address(cw20_addr) => {
            resp.add_attribute("tip_token", cw20_addr.as_str());
        },
    }
    assert(labels(resp) =~= tip_labels(token_amount));
    resp.messages.push(payment);
    match increment_total_tip_amount(store, &ctx.info.sender, &token_amount) {
        Ok(Some(table_update_msg)) => {
            resp.messages.push(table_update_msg);
        },
        Ok(None) => {},
        Err(e) => {
            return Err(e);
        },
    }
    Ok(resp)
}

} // verus!
