//! The decisions of the ledger-side instructions.
//!
//! Each function takes the accounts it concerns as plain values, decides
//! whether the instruction goes ahead, and updates the accounts and returns
//! what the caller has to carry out: the arguments of the computation to
//! queue, or the amount to transfer.  A refused instruction leaves every
//! account as it was.

use vstd::prelude::*;
use crate::errors::ErrorCode;
use crate::states::{
    Argument, ComputationOutputs, EncryptedOrderBook, MatchRecord, OrderAccount, OrderBookState,
    SubmitOrderOutput, VaultState, ORDERBOOK_CIPHERTEXTS,
};

verus! {

/// Seconds that must lie between two matching passes.
pub const MATCHING_INTERVAL: i64 = 15;

/// Offset of the encrypted book inside its account: an 8-byte discriminator
/// and the 32-byte authority come first.
pub const ORDERBOOK_DATA_OFFSET: u32 = 40;

/// Length in bytes of the encrypted book: 52 ciphertexts of 32 bytes.
pub const ORDERBOOK_DATA_LEN: u32 = 1664;

/// Status of an order that waits for its computation.
pub const ORDER_PENDING: u8 = 0;

/// Status of an order that rests in the book.
pub const ORDER_PROCESSING: u8 = 1;

/// Status of an order that the book rejected.
pub const ORDER_REJECTED: u8 = 2;

/// The unsigned 64-bit number whose little-endian bytes are the eight bytes
/// of `bytes` from `at` on.
pub open spec fn le_u64(bytes: Seq<u8>, at: int) -> int {
    bytes[at] + bytes[at + 1] * 0x100 + bytes[at + 2] * 0x1_0000 + bytes[at + 3] * 0x100_0000
        + bytes[at + 4] * 0x1_0000_0000 + bytes[at + 5] * 0x100_0000_0000 + bytes[at + 6]
        * 0x1_0000_0000_0000 + bytes[at + 7] * 0x100_0000_0000_0000
}

/// Reads eight bytes from `at` on as a little-endian number.
fn read_le_u64(bytes: &[u8; 32], at: usize) -> (value: u64)
    requires
        at + 8 <= 32,
    ensures
        value == le_u64(bytes@, at as int),
{
    (bytes[at] as u64) + (bytes[at + 1] as u64) * 0x100 + (bytes[at + 2] as u64) * 0x1_0000 + (
    bytes[at + 3] as u64) * 0x100_0000 + (bytes[at + 4] as u64) * 0x1_0000_0000 + (bytes[at
        + 5] as u64) * 0x100_0000_0000 + (bytes[at + 6] as u64) * 0x1_0000_0000_0000 + (bytes[at
        + 7] as u64) * 0x100_0000_0000_0000
}

/// Splits a 32-byte key into four little-endian 64-bit numbers.
pub fn pubkey_to_u64_chunks(pubkey_bytes: &[u8; 32]) -> (chunks: [u64; 4])
    ensures
        forall|k: int| 0 <= k < 4 ==> chunks[k] == le_u64(pubkey_bytes@, 8 * k),
{
    [
        read_le_u64(pubkey_bytes, 0),
        read_le_u64(pubkey_bytes, 8),
        read_le_u64(pubkey_bytes, 16),
        read_le_u64(pubkey_bytes, 24),
    ]
}

/// The account of a new order book: no encrypted book yet, counters at zero,
/// and `now` as the time of the last matching pass.
pub fn initialize(
    authority: [u8; 32],
    backend_pubkey: [u8; 32],
    base_mint: [u8; 32],
    quote_mint: [u8; 32],
    now: i64,
    bump: u8,
) -> (state: OrderBookState)
    ensures
        state.authority == authority,
        forall|i: int, j: int|
            0 <= i < ORDERBOOK_CIPHERTEXTS && 0 <= j < 32 ==> state.orderbook_data[i][j] == 0,
        state.orderbook_nonce == 0,
        state.backend_pubkey == backend_pubkey,
        state.base_mint == base_mint,
        state.quote_mint == quote_mint,
        state.last_match_timestamp == now,
        state.total_orders_processed == 0,
        state.total_matches == 0,
        state.bump == bump,
{
    OrderBookState {
        authority,
        orderbook_data: [[0u8;32];ORDERBOOK_CIPHERTEXTS],
        orderbook_nonce: 0,
        backend_pubkey,
        base_mint,
        quote_mint,
        last_match_timestamp: now,
        total_orders_processed: 0,
        total_matches: 0,
        bump,
    }
}

/// The bookkeeping of a new vault: nothing locked, no active order.
pub fn initialize_user_vault(user: [u8; 32], mint: [u8; 32], vault: [u8; 32], bump: u8) -> (state:
    VaultState)
    ensures
        state == (VaultState { user, mint, vault, locked_amount: 0, num_active_orders: 0, bump }),
{
    VaultState { user, mint, vault, locked_amount: 0, num_active_orders: 0, bump }
}

/// The arguments of the computation that creates the encrypted book: the
/// nonce to start from, zero.
pub fn init_encrypted_orderbook() -> (args: Vec<Argument>)
    ensures
        args@ == seq![Argument::PlaintextU128(0)],
{
    vec![Argument::PlaintextU128(0)]
}

/// The timestamp argument of a computation: the clock reading as an
/// unsigned 64-bit number, a negative reading wrapping around.
pub open spec fn timestamp_argument(now: i64) -> u64 {
    if now >= 0 {
        now as u64
    } else {
        (now + 0x1_0000_0000_0000_0000) as u64
    }
}

/// Computes `timestamp_argument`.
fn wrap_timestamp(now: i64) -> (value: u64)
    ensures
        value == timestamp_argument(now),
{
    if now >= 0 {
        now as u64
    } else {
        u64::MAX - ((-(now + 1)) as u64)
    }
}

/// Records a new order and prepares its computation.
///
/// The user's count of active orders goes up by one; if it cannot, the
/// instruction fails with `Overflow`.  The order account is filled in as
/// pending, with nothing filled yet.  The arguments of the computation are,
/// in this order: the submitter's encryption key, the nonce of the encrypted
/// order, its encrypted amount and price, the nonce and the location of the
/// encrypted book, and in the clear the order's id, type and timestamp.
pub fn submit_order(
    order_account: &mut OrderAccount,
    vault_state: &mut VaultState,
    orderbook_state: &OrderBookState,
    orderbook_key: [u8; 32],
    user: [u8; 32],
    amount: [u8; 32],
    price: [u8; 32],
    user_pubkey: [u8; 32],
    order_type: u8,
    order_id: u64,
    order_nonce: u128,
    now: i64,
    bump: u8,
) -> (res: Result<Vec<Argument>, ErrorCode>)
    ensures
        res is Ok <==> old(vault_state).num_active_orders < u16::MAX,
        res matches Err(e) ==> {
            &&& e == ErrorCode::Overflow
            &&& *final(order_account) == *old(order_account)
            &&& *final(vault_state) == *old(vault_state)
        },
        res matches Ok(args) ==> {
            &&& *final(order_account) == (OrderAccount {
                order_id,
                user,
                order_type,
                status: ORDER_PENDING,
                filled_amount: 0,
                timestamp: now,
                bump,
                ..*old(order_account)
            })
            &&& *final(vault_state) == (VaultState {
                num_active_orders: (old(vault_state).num_active_orders + 1) as u16,
                ..*old(vault_state)
            })
            &&& args@ == seq![
                Argument::ArcisPubkey(user_pubkey),
                Argument::PlaintextU128(order_nonce),
                Argument::EncryptedU64(amount),
                Argument::EncryptedU64(price),
                Argument::PlaintextU128(orderbook_state.orderbook_nonce),
                Argument::Account(orderbook_key, ORDERBOOK_DATA_OFFSET, ORDERBOOK_DATA_LEN),
                Argument::PlaintextU64(order_id),
                Argument::PlaintextU8(order_type),
                Argument::PlaintextU64(timestamp_argument(now)),
            ]
        },
{
    let num_active_orders = match vault_state.num_active_orders.checked_add(1) {
        Some(n) => n,
        None => {
            return Err(ErrorCode::Overflow);
        },
    };

    order_account.order_id = order_id;
    order_account.user = user;
    order_account.order_type = order_type;
    order_account.status = ORDER_PENDING;
    order_account.filled_amount = 0;
    order_account.timestamp = now;
    order_account.bump = bump;

    vault_state.num_active_orders = num_active_orders;

    let args = vec![
        Argument::ArcisPubkey(user_pubkey),
        Argument::PlaintextU128(order_nonce),
        Argument::EncryptedU64(amount),
        Argument::EncryptedU64(price),
        Argument::PlaintextU128(orderbook_state.orderbook_nonce),
        Argument::Account(orderbook_key, ORDERBOOK_DATA_OFFSET, ORDERBOOK_DATA_LEN),
        Argument::PlaintextU64(order_id),
        Argument::PlaintextU8(order_type),
        Argument::PlaintextU64(wrap_timestamp(now)),
    ];
    Ok(args)
}

/// Starts a matching pass if the last one lies at least
/// `MATCHING_INTERVAL` seconds back.
///
/// On success the time of the last pass becomes `current_time` and the
/// arguments of the computation are returned: the key and the nonce under
/// which the fills are to be encrypted.  Otherwise the instruction fails
/// with `MatchingTooFrequent`.
pub fn trigger_matching(
    order_book: &mut OrderBookState,
    current_time: i64,
    pub_key: [u8; 32],
    nonce: u128,
) -> (res: Result<Vec<Argument>, ErrorCode>)
    ensures
        res is Ok <==> current_time >= old(order_book).last_match_timestamp + MATCHING_INTERVAL,
        res matches Err(e) ==> {
            &&& e == ErrorCode::MatchingTooFrequent
            &&& *final(order_book) == *old(order_book)
        },
        res matches Ok(args) ==> {
            &&& *final(order_book) == (OrderBookState {
                last_match_timestamp: current_time,
                ..*old(order_book)
            })
            &&& args@ == seq![Argument::ArcisPubkey(pub_key), Argument::PlaintextU128(nonce)]
        },
{
    let due = match order_book.last_match_timestamp.checked_add(MATCHING_INTERVAL) {
        Some(earliest) => current_time >= earliest,
        None => false,
    };
    if !due {
        return Err(ErrorCode::MatchingTooFrequent);
    }
    order_book.last_match_timestamp = current_time;

    let args = vec![Argument::ArcisPubkey(pub_key), Argument::PlaintextU128(nonce)];
    Ok(args)
}

/// Decides a withdrawal of `amount` from a vault that holds `vault_amount`.
///
/// What is locked for open orders cannot be withdrawn: the withdrawal goes
/// ahead exactly when `amount` fits into the balance above the locked
/// amount, and fails with `InsufficientBalance` otherwise.
pub fn withdraw_from_vault(vault_state: &VaultState, vault_amount: u64, amount: u64) -> (res:
    Result<(), ErrorCode>)
    ensures
        res is Ok <==> vault_amount - vault_state.locked_amount >= amount,
        res matches Err(e) ==> e == ErrorCode::InsufficientBalance,
{
    let available = match vault_amount.checked_sub(vault_state.locked_amount) {
        Some(a) => a,
        None => {
            return Err(ErrorCode::InsufficientBalance);
        },
    };
    if available >= amount {
        Ok(())
    } else {
        Err(ErrorCode::InsufficientBalance)
    }
}

/// Whether `key` is the key of the settlement authority, the only signer
/// that may settle fills: the all-zero key.
pub open spec fn is_settlement_authority(key: Seq<u8>) -> bool {
    forall|i: int| 0 <= i < key.len() ==> key[i] == 0
}

/// Computes `is_settlement_authority`.
fn check_settlement_authority(key: &[u8; 32]) -> (ok: bool)
    ensures
        ok == is_settlement_authority(key@),
{
    let mut ok = true;
    for i in 0..32
        invariant
            ok == (forall|j: int| 0 <= j < i ==> key[j] == 0),
    {
        if key[i] != 0 {
            ok = false;
        }
    }
    ok
}

/// Settles one fill of `quantity` at `execution_price`.
///
/// The instruction is refused, in this order, with `UnauthorizedSettlement`
/// if the signer is not the settlement authority, with `AlreadySettled` if
/// the record says so, and with `Overflow` if `quantity * execution_price`
/// does not fit 64 bits.  Otherwise the record is marked settled at `now`
/// and the quote amount that the buyer owes the seller is returned; the
/// seller owes the buyer `quantity` of the base asset.
pub fn execute_settlement(
    match_record: &mut MatchRecord,
    settlement_authority: &[u8; 32],
    quantity: u64,
    execution_price: u64,
    now: i64,
) -> (res: Result<u64, ErrorCode>)
    ensures
        res is Ok <==> {
            &&& is_settlement_authority(settlement_authority@)
            &&& !old(match_record).is_settled
            &&& quantity * execution_price <= u64::MAX
        },
        res matches Ok(quote_amount) ==> {
            &&& quote_amount == quantity * execution_price
            &&& *final(match_record) == (MatchRecord {
                is_settled: true,
                settlement_timestamp: now,
                ..*old(match_record)
            })
        },
        res matches Err(e) ==> {
            &&& *final(match_record) == *old(match_record)
            &&& e == if !is_settlement_authority(settlement_authority@) {
                ErrorCode::UnauthorizedSettlement
            } else if old(match_record).is_settled {
                ErrorCode::AlreadySettled
            } else {
                ErrorCode::Overflow
            }
        },
{
    if !check_settlement_authority(settlement_authority) {
        return Err(ErrorCode::UnauthorizedSettlement);
    }
    if match_record.is_settled {
        return Err(ErrorCode::AlreadySettled);
    }
    let quote_amount = match quantity.checked_mul(execution_price) {
        Some(q) => q,
        None => {
            return Err(ErrorCode::Overflow);
        },
    };

    match_record.is_settled = true;
    match_record.settlement_timestamp = now;
    Ok(quote_amount)
}

/// Takes in the result of the computation that created the encrypted book.
///
/// A failed computation is reported as `AbortedComputation`.  Otherwise the
/// nonce of the new book is stored, both counters start at zero and `now`
/// becomes the time of the last matching pass.
pub fn init_order_book_callback(
    orderbook_state: &mut OrderBookState,
    output: ComputationOutputs<EncryptedOrderBook>,
    now: i64,
) -> (res: Result<(), ErrorCode>)
    ensures
        res is Ok <==> output is Success,
        res matches Err(e) ==> {
            &&& e == ErrorCode::AbortedComputation
            &&& *final(orderbook_state) == *old(orderbook_state)
        },
        output matches ComputationOutputs::Success(book) ==> *final(orderbook_state) == (
        OrderBookState {
            orderbook_nonce: book.nonce,
            total_orders_processed: 0,
            total_matches: 0,
            last_match_timestamp: now,
            ..*old(orderbook_state)
        }),
{
    let book = match output {
        ComputationOutputs::Success(book) => book,
        ComputationOutputs::Failure => {
            return Err(ErrorCode::AbortedComputation);
        },
    };

    orderbook_state.orderbook_nonce = book.nonce;
    orderbook_state.total_orders_processed = 0;
    orderbook_state.total_matches = 0;
    orderbook_state.last_match_timestamp = now;
    Ok(())
}

/// Takes in the result of a matching pass.
///
/// A failed computation is reported as `AbortedComputation` and the stored
/// book stays.  Otherwise the new encrypted book and its nonce replace the
/// stored ones and the count of passes goes up by one, stopping at the
/// largest 64-bit number.
pub fn match_orders_callback(
    orderbook_state: &mut OrderBookState,
    output: ComputationOutputs<EncryptedOrderBook>,
) -> (res: Result<(), ErrorCode>)
    ensures
        res is Ok <==> output is Success,
        res matches Err(e) ==> {
            &&& e == ErrorCode::AbortedComputation
            &&& *final(orderbook_state) == *old(orderbook_state)
        },
        output matches ComputationOutputs::Success(book) ==> *final(orderbook_state) == (
        OrderBookState {
            orderbook_nonce: book.nonce,
            orderbook_data: book.ciphertexts,
            total_matches: if old(orderbook_state).total_matches == u64::MAX {
                u64::MAX
            } else {
                (old(orderbook_state).total_matches + 1) as u64
            },
            ..*old(orderbook_state)
        }),
{
    let book = match output {
        ComputationOutputs::Success(book) => book,
        ComputationOutputs::Failure => {
            return Err(ErrorCode::AbortedComputation);
        },
    };

    orderbook_state.orderbook_nonce = book.nonce;
    orderbook_state.orderbook_data = book.ciphertexts;
    orderbook_state.total_matches = orderbook_state.total_matches.saturating_add(1);
    Ok(())
}

/// Takes in the result of an order submission.
///
/// A failed computation is reported as `AbortedComputation` and nothing
/// changes.  Otherwise the new encrypted book and its nonce replace the
/// stored ones, the count of processed orders goes up by one, stopping at
/// the largest 64-bit number, and the order becomes `ORDER_PROCESSING` if
/// the book took it, `ORDER_REJECTED` if it did not.
pub fn submit_order_callback(
    orderbook_state: &mut OrderBookState,
    order_account: &mut OrderAccount,
    output: ComputationOutputs<SubmitOrderOutput>,
) -> (res: Result<(), ErrorCode>)
    ensures
        res is Ok <==> output is Success,
        res matches Err(e) ==> {
            &&& e == ErrorCode::AbortedComputation
            &&& *final(orderbook_state) == *old(orderbook_state)
            &&& *final(order_account) == *old(order_account)
        },
        output matches ComputationOutputs::Success(out) ==> {
            &&& *final(orderbook_state) == (OrderBookState {
                orderbook_nonce: out.orderbook.nonce,
                orderbook_data: out.orderbook.ciphertexts,
                total_orders_processed: if old(orderbook_state).total_orders_processed
                    == u64::MAX {
                    u64::MAX
                } else {
                    (old(orderbook_state).total_orders_processed + 1) as u64
                },
                ..*old(orderbook_state)
            })
            &&& *final(order_account) == (OrderAccount {
                status: if out.success {
                    ORDER_PROCESSING
                } else {
                    ORDER_REJECTED
                },
                ..*old(order_account)
            })
        },
{
    let out = match output {
        ComputationOutputs::Success(out) => out,
        ComputationOutputs::Failure => {
            return Err(ErrorCode::AbortedComputation);
        },
    };

    orderbook_state.orderbook_nonce = out.orderbook.nonce;
    orderbook_state.orderbook_data = out.orderbook.ciphertexts;
    orderbook_state.total_orders_processed = orderbook_state.total_orders_processed.saturating_add(
        1,
    );

    if out.success {
        order_account.status = ORDER_PROCESSING;
    } else {
        order_account.status = ORDER_REJECTED;
    }
    Ok(())
}

} // verus!
