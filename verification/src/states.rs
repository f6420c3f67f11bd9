//! The ledger accounts that the instructions read and write, as plain
//! values.  Account keys are 32-byte arrays.

use vstd::prelude::*;

verus! {

/// Number of 32-byte ciphertexts that an encrypted order book takes.
pub const ORDERBOOK_CIPHERTEXTS: usize = 52;

/// The account that keeps the encrypted order book between computations.
#[derive(Copy, Clone, Debug, PartialEq, Eq)]
pub struct OrderBookState {
    pub authority: [u8; 32],
    pub orderbook_data: [[u8; 32]; ORDERBOOK_CIPHERTEXTS],
    pub orderbook_nonce: u128,
    pub backend_pubkey: [u8; 32],
    pub base_mint: [u8; 32],
    pub quote_mint: [u8; 32],
    pub last_match_timestamp: i64,
    pub total_orders_processed: u64,
    pub total_matches: u64,
    pub bump: u8,
}

/// The public record of one submitted order.
///
/// `order_type` is `0` for buy and `1` for sell.  `status` is `0` while the
/// order waits for the computation, `1` once it rests in the book and `2`
/// when the book rejected it.
#[derive(Copy, Clone, Debug, PartialEq, Eq)]
pub struct OrderAccount {
    pub order_id: u64,
    pub user: [u8; 32],
    pub order_type: u8,
    pub status: u8,
    pub locked_amount: u64,
    pub filled_amount: u64,
    pub timestamp: i64,
    pub bump: u8,
}

/// The bookkeeping of one user's vault for one mint.
#[derive(Copy, Clone, Debug, PartialEq, Eq)]
pub struct VaultState {
    pub user: [u8; 32],
    pub mint: [u8; 32],
    pub vault: [u8; 32],
    pub locked_amount: u64,
    pub num_active_orders: u16,
    pub bump: u8,
}

/// Whether a fill has been settled, and when.
#[derive(Copy, Clone, Debug, PartialEq, Eq, Structural)]
pub struct MatchRecord {
    pub match_id: u64,
    pub is_settled: bool,
    pub settlement_timestamp: i64,
}

/// An order book as it leaves a computation: encrypted, with its nonce.
#[derive(Copy, Clone, Debug, PartialEq, Eq)]
pub struct EncryptedOrderBook {
    pub nonce: u128,
    pub ciphertexts: [[u8; 32]; ORDERBOOK_CIPHERTEXTS],
}

/// What the computation behind an order submission reports.
#[derive(Copy, Clone, Debug, PartialEq, Eq)]
pub struct SubmitOrderOutput {
    pub orderbook: EncryptedOrderBook,
    pub success: bool,
    pub buy_count: u8,
    pub sell_count: u8,
}

/// The outcome of a queued computation.
#[derive(Debug, PartialEq, Eq)]
pub enum ComputationOutputs<O> {
    Success(O),
    Failure,
}

/// One argument of a queued computation, in the order in which the circuit
/// takes its parameters.
#[derive(Copy, Clone, Debug, PartialEq, Eq)]
pub enum Argument {
    PlaintextU8(u8),
    PlaintextU64(u64),
    PlaintextU128(u128),
    EncryptedU64([u8; 32]),
    ArcisPubkey([u8; 32]),
    /// An account's key, and the offset and length of the bytes to read.
    Account([u8; 32], u32, u32),
}

} // verus!
