//! The records that the pipeline stores: a block, its transactions and the
//! six kinds of pool event, each in its typed form and in its storage row
//! form, with checked conversions both ways.

use vstd::prelude::*;
use crate::abi::{BurnFields, CollectFields, InitializeFields, MintFields, PoolCreatedFields,
    SwapFields};
use crate::chain::LogEntry;
use crate::numeric::{lemma_numeric_round_trip, u128_to_numeric, ConversionError, Numeric};
use crate::primitives::{
    lemma_address_bytes_round_trip, lemma_bytes32_round_trip, lemma_two256, two128, Address,
    Bytes32, Int24, Int256, Uint160, Uint24, Uint256,
};

verus! {

/// A field that a matched log lacks.
#[derive(Clone, Copy, Debug, PartialEq, Eq, Structural)]
pub enum MissingField {
    TransactionHash,
    BlockNumber,
    TransactionIndex,
    LogIndex,
}

// ---------------------------------------------------------------------------
// Column conversions
// ---------------------------------------------------------------------------

/// A signed 64-bit column read as an unsigned number; negative values fail.
pub fn u64_from_column(v: i64) -> (r: Result<u64, ConversionError>)
    ensures
        r == (if v >= 0 {
            Ok::<u64, ConversionError>(v as u64)
        } else {
            Err(ConversionError::OutOfRange)
        }),
{
    if v >= 0 {
        Ok(v as u64)
    } else {
        Err(ConversionError::OutOfRange)
    }
}

/// An unsigned number stored in a signed 64-bit column; values above
/// `i64::MAX` fail.
pub fn u64_to_column(v: u64) -> (r: Result<i64, ConversionError>)
    ensures
        r == (if v <= i64::MAX {
            Ok::<i64, ConversionError>(v as i64)
        } else {
            Err(ConversionError::OutOfRange)
        }),
{
    if v <= i64::MAX as u64 {
        Ok(v as i64)
    } else {
        Err(ConversionError::OutOfRange)
    }
}

fn address_from_column(b: &Vec<u8>) -> (r: Result<Address, ConversionError>)
    ensures
        r is Ok <==> b@.len() == 20,
        r matches Err(e) ==> e == ConversionError::InvalidLength,
        r matches Ok(a) ==> a.bytes() == b@,
{
    match Address::from_bytes(b) {
        Some(a) => Ok(a),
        None => Err(ConversionError::InvalidLength),
    }
}

fn hash_from_column(b: &Vec<u8>) -> (r: Result<Bytes32, ConversionError>)
    ensures
        r is Ok <==> b@.len() == 32,
        r matches Err(e) ==> e == ConversionError::InvalidLength,
        r matches Ok(a) ==> a.bytes() == b@,
{
    match Bytes32::from_bytes(b) {
        Some(a) => Ok(a),
        None => Err(ConversionError::InvalidLength),
    }
}

/// Lemma: byte columns determine the address or hash they were written from.
pub proof fn lemma_bytes_injective(a: Address, b: Address, x: Bytes32, y: Bytes32)
    ensures
        a.bytes() == b.bytes() ==> a == b,
        x.bytes() == y.bytes() ==> x == y,
{
    lemma_address_bytes_round_trip(a);
    lemma_address_bytes_round_trip(b);
    lemma_bytes32_round_trip(x);
    lemma_bytes32_round_trip(y);
}

/// Lemma: the stored value determines each wide integer.
pub proof fn lemma_values_injective(a: Uint160, b: Uint160, c: Uint256, d: Uint256, e: Int256, f: Int256)
    ensures
        a.value() == b.value() ==> a == b,
        c.value() == d.value() ==> c == d,
        e.value() == f.value() ==> e == f,
{
    let i = Int24 { value: 0 };
    let u = Uint24 { value: 0 };
    lemma_numeric_round_trip(i, u, 0, a, c, e);
    lemma_numeric_round_trip(i, u, 0, b, d, f);
}

// ---------------------------------------------------------------------------
// Block
// ---------------------------------------------------------------------------

/// A block as the pipeline records it.
#[derive(Clone, Copy, Debug, PartialEq, Eq, Structural)]
pub struct Block {
    pub block_number: u64,
    pub block_timestamp: u64,
}

/// The storage row of a block.
#[derive(Clone, Copy, Debug, PartialEq, Eq, Structural)]
pub struct BlockRaw {
    pub block_number: i64,
    pub block_timestamp: i64,
}

impl Block {
    pub fn new(block_number: u64, block_timestamp: u64) -> (r: Block)
        ensures
            r.block_number == block_number,
            r.block_timestamp == block_timestamp,
    {
        Block { block_number, block_timestamp }
    }

    pub open spec fn matches_row(self, raw: BlockRaw) -> bool {
        raw.block_number as int == self.block_number as int && raw.block_timestamp as int
            == self.block_timestamp as int
    }

    /// The block read from its row; fails where a column is negative.
    pub fn try_from_raw(raw: BlockRaw) -> (r: Result<Block, ConversionError>)
        ensures
            r is Ok <==> raw.block_number >= 0 && raw.block_timestamp >= 0,
            r matches Err(e) ==> e == ConversionError::OutOfRange,
            r matches Ok(b) ==> b.matches_row(raw),
    {
        let block_number = match u64_from_column(raw.block_number) {
            Ok(v) => v,
            Err(e) => return Err(e),
        };
        let block_timestamp = match u64_from_column(raw.block_timestamp) {
            Ok(v) => v,
            Err(e) => return Err(e),
        };
        Ok(Block { block_number, block_timestamp })
    }
}

impl BlockRaw {
    /// The row of a block; fails where a value exceeds `i64::MAX`.
    pub fn try_from_block(block: Block) -> (r: Result<BlockRaw, ConversionError>)
        ensures
            r is Ok <==> block.block_number <= i64::MAX && block.block_timestamp <= i64::MAX,
            r matches Err(e) ==> e == ConversionError::OutOfRange,
            r matches Ok(raw) ==> block.matches_row(raw),
    {
        let block_number = match u64_to_column(block.block_number) {
            Ok(v) => v,
            Err(e) => return Err(e),
        };
        let block_timestamp = match u64_to_column(block.block_timestamp) {
            Ok(v) => v,
            Err(e) => return Err(e),
        };
        Ok(BlockRaw { block_number, block_timestamp })
    }
}

// ---------------------------------------------------------------------------
// Transaction
// ---------------------------------------------------------------------------

/// A transaction that carried at least one accepted event.
#[derive(Clone, Copy, Debug, PartialEq, Eq, Structural)]
pub struct Transaction {
    pub transaction_hash: Bytes32,
    pub block_number: u64,
    pub transaction_index: u64,
    pub transaction_sender: Address,
}

/// The storage row of a transaction.
#[derive(Clone, Debug)]
pub struct TransactionRaw {
    pub transaction_hash: Vec<u8>,
    pub block_number: i64,
    pub transaction_index: i64,
    pub transaction_sender: Vec<u8>,
}

impl Transaction {
    pub open spec fn from_log_spec(sender: Address, log: LogEntry) -> Result<Transaction, MissingField> {
        if log.transaction_hash is None {
            Err(MissingField::TransactionHash)
        } else if log.block_number is None {
            Err(MissingField::BlockNumber)
        } else if log.transaction_index is None {
            Err(MissingField::TransactionIndex)
        } else {
            Ok(
                Transaction {
                    transaction_hash: log.transaction_hash.unwrap(),
                    block_number: log.block_number.unwrap(),
                    transaction_index: log.transaction_index.unwrap(),
                    transaction_sender: sender,
                },
            )
        }
    }

    /// The transaction record of a log sent by `sender`.
    pub fn new(sender: Address, log: &LogEntry) -> (r: Result<Transaction, MissingField>)
        ensures
            r == Transaction::from_log_spec(sender, *log),
    {
        let transaction_hash = match log.transaction_hash {
            Some(h) => h,
            None => return Err(MissingField::TransactionHash),
        };
        let block_number = match log.block_number {
            Some(n) => n,
            None => return Err(MissingField::BlockNumber),
        };
        let transaction_index = match log.transaction_index {
            Some(i) => i,
            None => return Err(MissingField::TransactionIndex),
        };
        Ok(Transaction { transaction_hash, block_number, transaction_index, transaction_sender: sender })
    }

    pub open spec fn matches_row(self, raw: TransactionRaw) -> bool {
        &&& raw.transaction_hash@ == self.transaction_hash.bytes()
        &&& raw.block_number as int == self.block_number as int
        &&& raw.transaction_index as int == self.transaction_index as int
        &&& raw.transaction_sender@ == self.transaction_sender.bytes()
    }

    /// The check that reading a row makes, in order: negative numbers, then
    /// byte lengths.
    pub open spec fn row_check(raw: TransactionRaw) -> Option<ConversionError> {
        if raw.block_number < 0 || raw.transaction_index < 0 {
            Some(ConversionError::OutOfRange)
        } else if raw.transaction_hash@.len() != 32 || raw.transaction_sender@.len() != 20 {
            Some(ConversionError::InvalidLength)
        } else {
            None
        }
    }

    /// The transaction read from its row.
    pub fn try_from_raw(raw: &TransactionRaw) -> (r: Result<Transaction, ConversionError>)
        ensures
            match r {
                Ok(t) => Transaction::row_check(*raw) is None && t.matches_row(*raw),
                Err(e) => Transaction::row_check(*raw) == Some(e),
            },
    {
        if raw.block_number < 0 || raw.transaction_index < 0 {
            return Err(ConversionError::OutOfRange);
        }
        let transaction_hash = match hash_from_column(&raw.transaction_hash) {
            Ok(h) => h,
            Err(e) => return Err(e),
        };
        let transaction_sender = match address_from_column(&raw.transaction_sender) {
            Ok(a) => a,
            Err(e) => return Err(e),
        };
        Ok(
            Transaction {
                transaction_hash,
                block_number: raw.block_number as u64,
                transaction_index: raw.transaction_index as u64,
                transaction_sender,
            },
        )
    }
}

impl TransactionRaw {
    /// The row of a transaction; fails where a number exceeds `i64::MAX`.
    pub fn try_from_transaction(tx: &Transaction) -> (r: Result<TransactionRaw, ConversionError>)
        ensures
            r is Ok <==> tx.block_number <= i64::MAX && tx.transaction_index <= i64::MAX,
            r matches Err(e) ==> e == ConversionError::OutOfRange,
            r matches Ok(raw) ==> tx.matches_row(raw),
    {
        let block_number = match u64_to_column(tx.block_number) {
            Ok(v) => v,
            Err(e) => return Err(e),
        };
        let transaction_index = match u64_to_column(tx.transaction_index) {
            Ok(v) => v,
            Err(e) => return Err(e),
        };
        Ok(
            TransactionRaw {
                transaction_hash: tx.transaction_hash.to_bytes(),
                block_number,
                transaction_index,
                transaction_sender: tx.transaction_sender.to_bytes(),
            },
        )
    }
}

/// Lemma: a transaction's row reads back as that transaction.
pub proof fn lemma_transaction_row_round_trip(t: Transaction, raw: TransactionRaw, u: Transaction)
    requires
        t.matches_row(raw),
        u.matches_row(raw),
    ensures
        Transaction::row_check(raw) is None,
        u == t,
{
    lemma_bytes_injective(t.transaction_sender, u.transaction_sender, t.transaction_hash, u.transaction_hash);
    lemma_address_bytes_round_trip(t.transaction_sender);
    lemma_bytes32_round_trip(t.transaction_hash);
}

// ---------------------------------------------------------------------------
// PoolCreateEvent
// ---------------------------------------------------------------------------

/// An accepted pool-created event.
#[derive(Clone, Copy, Debug, PartialEq, Eq, Structural)]
pub struct PoolCreateEvent {
    pub transaction_hash: Bytes32,
    pub log_index: u64,
    pub token0: Address,
    pub token1: Address,
    pub fee: Uint24,
    pub tick_spacing: Int24,
    pub pool: Address,
}

/// The storage row of a pool-created event.
#[derive(Clone, Debug)]
pub struct PoolCreateEventRaw {
    pub transaction_hash: Vec<u8>,
    pub log_index: i64,
    pub token0: Vec<u8>,
    pub token1: Vec<u8>,
    pub fee: Numeric,
    pub tick_spacing: Numeric,
    pub pool: Vec<u8>,
}

impl PoolCreateEvent {
    pub open spec fn wf(self) -> bool {
        self.fee.wf() && self.tick_spacing.wf()
    }

    pub open spec fn from_log_spec(log: LogEntry, f: PoolCreatedFields) -> Result<PoolCreateEvent, MissingField> {
        if log.transaction_hash is None {
            Err(MissingField::TransactionHash)
        } else if log.log_index is None {
            Err(MissingField::LogIndex)
        } else {
            Ok(
                PoolCreateEvent {
                    transaction_hash: log.transaction_hash.unwrap(),
                    log_index: log.log_index.unwrap(),
                    token0: f.token0,
                    token1: f.token1,
                    fee: f.fee,
                    tick_spacing: f.tick_spacing,
                    pool: f.pool,
                },
            )
        }
    }

    /// The record of a decoded pool-created log; fails where the log lacks its
    /// transaction hash or log index.
    pub fn new(log: &LogEntry, f: PoolCreatedFields) -> (r: Result<PoolCreateEvent, MissingField>)
        ensures
            r == PoolCreateEvent::from_log_spec(*log, f),
    {
        let transaction_hash = match log.transaction_hash {
            Some(h) => h,
            None => return Err(MissingField::TransactionHash),
        };
        let log_index = match log.log_index {
            Some(i) => i,
            None => return Err(MissingField::LogIndex),
        };
        Ok(
            PoolCreateEvent {
                transaction_hash,
                log_index,
                token0: f.token0,
                token1: f.token1,
                fee: f.fee,
                tick_spacing: f.tick_spacing,
                pool: f.pool,
            },
        )
    }

    pub open spec fn matches_row(self, raw: PoolCreateEventRaw) -> bool {
        &&& raw.transaction_hash@ == self.transaction_hash.bytes()
        &&& raw.log_index as int == self.log_index as int
        &&& raw.token0@ == self.token0.bytes()
        &&& raw.token1@ == self.token1.bytes()
        &&& raw.fee.value() == self.fee.value as int
        &&& raw.tick_spacing.value() == self.tick_spacing.value as int
        &&& raw.pool@ == self.pool.bytes()
    }

    /// The check that reading a row makes, in order: a negative log index,
    /// then byte lengths, then numbers outside their type's range.
    pub open spec fn row_check(raw: PoolCreateEventRaw) -> Option<ConversionError> {
        if raw.log_index < 0 {
            Some(ConversionError::OutOfRange)
        } else if raw.transaction_hash@.len() != 32 || raw.token0@.len() != 20 || raw.token1@.len() != 20 || raw.pool@.len() != 20 {
            Some(ConversionError::InvalidLength)
        } else if !Uint24::fits(raw.fee.value()) || !Int24::fits(raw.tick_spacing.value()) {
            Some(ConversionError::OutOfRange)
        } else {
            None
        }
    }

    /// The event read from its row.
    pub fn try_from_raw(raw: &PoolCreateEventRaw) -> (r: Result<PoolCreateEvent, ConversionError>)
        ensures
            match r {
                Ok(e) => PoolCreateEvent::row_check(*raw) is None && e.matches_row(*raw) && e.wf(),
                Err(e) => PoolCreateEvent::row_check(*raw) == Some(e),
            },
    {
        if raw.log_index < 0 {
            return Err(ConversionError::OutOfRange);
        }
        let transaction_hash = match hash_from_column(&raw.transaction_hash) {
            Ok(v) => v,
            Err(e) => return Err(e),
        };
        let token0 = match address_from_column(&raw.token0) {
            Ok(v) => v,
            Err(e) => return Err(e),
        };
        let token1 = match address_from_column(&raw.token1) {
            Ok(v) => v,
            Err(e) => return Err(e),
        };
        let pool = match address_from_column(&raw.pool) {
            Ok(v) => v,
            Err(e) => return Err(e),
        };
        let fee = match raw.fee.to_uint24() {
            Ok(v) => v,
            Err(e) => return Err(e),
        };
        let tick_spacing = match raw.tick_spacing.to_int24() {
            Ok(v) => v,
            Err(e) => return Err(e),
        };
        Ok(
            PoolCreateEvent {
                transaction_hash,
                log_index: raw.log_index as u64,
                token0,
                token1,
                fee,
                tick_spacing,
                pool,
            },
        )
    }
}

impl PoolCreateEventRaw {
    /// The row of an event; fails where the log index exceeds `i64::MAX`.
    pub fn try_from_event(e: &PoolCreateEvent) -> (r: Result<PoolCreateEventRaw, ConversionError>)
        ensures
            r is Ok <==> e.log_index <= i64::MAX,
            r matches Err(x) ==> x == ConversionError::OutOfRange,
            r matches Ok(raw) ==> e.matches_row(raw),
    {
        let log_index = match u64_to_column(e.log_index) {
            Ok(v) => v,
            Err(x) => return Err(x),
        };
        Ok(
            PoolCreateEventRaw {
                transaction_hash: e.transaction_hash.to_bytes(),
                log_index,
                token0: e.token0.to_bytes(),
                token1: e.token1.to_bytes(),
                fee: e.fee.to_numeric(),
                tick_spacing: e.tick_spacing.to_numeric(),
                pool: e.pool.to_bytes(),
            },
        )
    }
}

/// Lemma: the row of a pool-created event passes every check and reads back
/// as that event.
pub proof fn lemma_pool_create_event_row_round_trip(e: PoolCreateEvent, raw: PoolCreateEventRaw, u: PoolCreateEvent)
    requires
        e.wf(),
        e.matches_row(raw),
        u.matches_row(raw),
    ensures
        PoolCreateEvent::row_check(raw) is None,
        u == e,
{
    lemma_two256();
    lemma_numeric_round_trip(Int24 { value: 0 }, e.fee, 0, Uint160 { hi: 0, lo: 0 }, Uint256 { hi: 0, lo: 0 }, Int256 { hi: 0, lo: 0 });
    lemma_numeric_round_trip(e.tick_spacing, Uint24 { value: 0 }, 0, Uint160 { hi: 0, lo: 0 }, Uint256 { hi: 0, lo: 0 }, Int256 { hi: 0, lo: 0 });
    lemma_bytes32_round_trip(e.transaction_hash);
    lemma_address_bytes_round_trip(e.token0);
    lemma_bytes_injective(e.token0, u.token0, e.transaction_hash, u.transaction_hash);
    lemma_address_bytes_round_trip(e.token1);
    lemma_bytes_injective(e.token1, u.token1, e.transaction_hash, u.transaction_hash);
    lemma_address_bytes_round_trip(e.pool);
    lemma_bytes_injective(e.pool, u.pool, e.transaction_hash, u.transaction_hash);
}

// ---------------------------------------------------------------------------
// SwapEvent
// ---------------------------------------------------------------------------

/// An accepted swap event.
#[derive(Clone, Copy, Debug, PartialEq, Eq, Structural)]
pub struct SwapEvent {
    pub transaction_hash: Bytes32,
    pub log_index: u64,
    pub contract_address: Address,
    pub sender: Address,
    pub recipient: Address,
    pub amount0: Int256,
    pub amount1: Int256,
    pub sqrt_price_x96: Uint160,
    pub liquidity: u128,
    pub tick: Int24,
}

/// The storage row of a swap event.
#[derive(Clone, Debug)]
pub struct SwapEventRaw {
    pub transaction_hash: Vec<u8>,
    pub log_index: i64,
    pub contract_address: Vec<u8>,
    pub sender: Vec<u8>,
    pub recipient: Vec<u8>,
    pub amount0: Numeric,
    pub amount1: Numeric,
    pub sqrt_price_x96: Numeric,
    pub liquidity: Numeric,
    pub tick: Numeric,
}

impl SwapEvent {
    pub open spec fn wf(self) -> bool {
        self.tick.wf()
    }

    pub open spec fn from_log_spec(log: LogEntry, f: SwapFields) -> Result<SwapEvent, MissingField> {
        if log.transaction_hash is None {
            Err(MissingField::TransactionHash)
        } else if log.log_index is None {
            Err(MissingField::LogIndex)
        } else {
            Ok(
                SwapEvent {
                    transaction_hash: log.transaction_hash.unwrap(),
                    log_index: log.log_index.unwrap(),
                    contract_address: log.address,
                    sender: f.sender,
                    recipient: f.recipient,
                    amount0: f.amount0,
                    amount1: f.amount1,
                    sqrt_price_x96: f.sqrt_price_x96,
                    liquidity: f.liquidity,
                    tick: f.tick,
                },
            )
        }
    }

    /// The record of a decoded swap log; fails where the log lacks its
    /// transaction hash or log index.
    pub fn new(log: &LogEntry, f: SwapFields) -> (r: Result<SwapEvent, MissingField>)
        ensures
            r == SwapEvent::from_log_spec(*log, f),
    {
        let transaction_hash = match log.transaction_hash {
            Some(h) => h,
            None => return Err(MissingField::TransactionHash),
        };
        let log_index = match log.log_index {
            Some(i) => i,
            None => return Err(MissingField::LogIndex),
        };
        Ok(
            SwapEvent {
                transaction_hash,
                log_index,
                contract_address: log.address,
                sender: f.sender,
                recipient: f.recipient,
                amount0: f.amount0,
                amount1: f.amount1,
                sqrt_price_x96: f.sqrt_price_x96,
                liquidity: f.liquidity,
                tick: f.tick,
            },
        )
    }

    pub open spec fn matches_row(self, raw: SwapEventRaw) -> bool {
        &&& raw.transaction_hash@ == self.transaction_hash.bytes()
        &&& raw.log_index as int == self.log_index as int
        &&& raw.contract_address@ == self.contract_address.bytes()
        &&& raw.sender@ == self.sender.bytes()
        &&& raw.recipient@ == self.recipient.bytes()
        &&& raw.amount0.value() == self.amount0.value()
        &&& raw.amount1.value() == self.amount1.value()
        &&& raw.sqrt_price_x96.value() == self.sqrt_price_x96.value()
        &&& raw.liquidity.value() == self.liquidity as int
        &&& raw.tick.value() == self.tick.value as int
    }

    /// The check that reading a row makes, in order: a negative log index,
    /// then byte lengths, then numbers outside their type's range.
    pub open spec fn row_check(raw: SwapEventRaw) -> Option<ConversionError> {
        if raw.log_index < 0 {
            Some(ConversionError::OutOfRange)
        } else if raw.transaction_hash@.len() != 32 || raw.contract_address@.len() != 20 || raw.sender@.len() != 20 || raw.recipient@.len() != 20 {
            Some(ConversionError::InvalidLength)
        } else if !Int256::fits(raw.amount0.value()) || !Int256::fits(raw.amount1.value()) || !Uint160::fits(raw.sqrt_price_x96.value()) || !(0 <= raw.liquidity.value() < two128()) || !Int24::fits(raw.tick.value()) {
            Some(ConversionError::OutOfRange)
        } else {
            None
        }
    }

    /// The event read from its row.
    pub fn try_from_raw(raw: &SwapEventRaw) -> (r: Result<SwapEvent, ConversionError>)
        ensures
            match r {
                Ok(e) => SwapEvent::row_check(*raw) is None && e.matches_row(*raw) && e.wf(),
                Err(e) => SwapEvent::row_check(*raw) == Some(e),
            },
    {
        if raw.log_index < 0 {
            return Err(ConversionError::OutOfRange);
        }
        let transaction_hash = match hash_from_column(&raw.transaction_hash) {
            Ok(v) => v,
            Err(e) => return Err(e),
        };
        let contract_address = match address_from_column(&raw.contract_address) {
            Ok(v) => v,
            Err(e) => return Err(e),
        };
        let sender = match address_from_column(&raw.sender) {
            Ok(v) => v,
            Err(e) => return Err(e),
        };
        let recipient = match address_from_column(&raw.recipient) {
            Ok(v) => v,
            Err(e) => return Err(e),
        };
        let amount0 = match raw.amount0.to_int256() {
            Ok(v) => v,
            Err(e) => return Err(e),
        };
        let amount1 = match raw.amount1.to_int256() {
            Ok(v) => v,
            Err(e) => return Err(e),
        };
        let sqrt_price_x96 = match raw.sqrt_price_x96.to_uint160() {
            Ok(v) => v,
            Err(e) => return Err(e),
        };
        let liquidity = match raw.liquidity.to_u128() {
            Ok(v) => v,
            Err(e) => return Err(e),
        };
        let tick = match raw.tick.to_int24() {
            Ok(v) => v,
            Err(e) => return Err(e),
        };
        Ok(
            SwapEvent {
                transaction_hash,
                log_index: raw.log_index as u64,
                contract_address,
                sender,
                recipient,
                amount0,
                amount1,
                sqrt_price_x96,
                liquidity,
                tick,
            },
        )
    }
}

impl SwapEventRaw {
    /// The row of an event; fails where the log index exceeds `i64::MAX`.
    pub fn try_from_event(e: &SwapEvent) -> (r: Result<SwapEventRaw, ConversionError>)
        ensures
            r is Ok <==> e.log_index <= i64::MAX,
            r matches Err(x) ==> x == ConversionError::OutOfRange,
            r matches Ok(raw) ==> e.matches_row(raw),
    {
        let log_index = match u64_to_column(e.log_index) {
            Ok(v) => v,
            Err(x) => return Err(x),
        };
        Ok(
            SwapEventRaw {
                transaction_hash: e.transaction_hash.to_bytes(),
                log_index,
                contract_address: e.contract_address.to_bytes(),
                sender: e.sender.to_bytes(),
                recipient: e.recipient.to_bytes(),
                amount0: e.amount0.to_numeric(),
                amount1: e.amount1.to_numeric(),
                sqrt_price_x96: e.sqrt_price_x96.to_numeric(),
                liquidity: u128_to_numeric(e.liquidity),
                tick: e.tick.to_numeric(),
            },
        )
    }
}

/// Lemma: the row of a swap event passes every check and reads back
/// as that event.
pub proof fn lemma_swap_event_row_round_trip(e: SwapEvent, raw: SwapEventRaw, u: SwapEvent)
    requires
        e.wf(),
        e.matches_row(raw),
        u.matches_row(raw),
    ensures
        SwapEvent::row_check(raw) is None,
        u == e,
{
    lemma_two256();
    lemma_numeric_round_trip(Int24 { value: 0 }, Uint24 { value: 0 }, 0, Uint160 { hi: 0, lo: 0 }, Uint256 { hi: 0, lo: 0 }, e.amount0);
    lemma_values_injective(Uint160 { hi: 0, lo: 0 }, Uint160 { hi: 0, lo: 0 }, Uint256 { hi: 0, lo: 0 }, Uint256 { hi: 0, lo: 0 }, e.amount0, u.amount0);
    lemma_numeric_round_trip(Int24 { value: 0 }, Uint24 { value: 0 }, 0, Uint160 { hi: 0, lo: 0 }, Uint256 { hi: 0, lo: 0 }, e.amount1);
    lemma_values_injective(Uint160 { hi: 0, lo: 0 }, Uint160 { hi: 0, lo: 0 }, Uint256 { hi: 0, lo: 0 }, Uint256 { hi: 0, lo: 0 }, e.amount1, u.amount1);
    lemma_numeric_round_trip(Int24 { value: 0 }, Uint24 { value: 0 }, 0, e.sqrt_price_x96, Uint256 { hi: 0, lo: 0 }, Int256 { hi: 0, lo: 0 });
    lemma_values_injective(e.sqrt_price_x96, u.sqrt_price_x96, Uint256 { hi: 0, lo: 0 }, Uint256 { hi: 0, lo: 0 }, Int256 { hi: 0, lo: 0 }, Int256 { hi: 0, lo: 0 });
    lemma_numeric_round_trip(Int24 { value: 0 }, Uint24 { value: 0 }, e.liquidity, Uint160 { hi: 0, lo: 0 }, Uint256 { hi: 0, lo: 0 }, Int256 { hi: 0, lo: 0 });
    lemma_numeric_round_trip(e.tick, Uint24 { value: 0 }, 0, Uint160 { hi: 0, lo: 0 }, Uint256 { hi: 0, lo: 0 }, Int256 { hi: 0, lo: 0 });
    lemma_bytes32_round_trip(e.transaction_hash);
    lemma_address_bytes_round_trip(e.contract_address);
    lemma_bytes_injective(e.contract_address, u.contract_address, e.transaction_hash, u.transaction_hash);
    lemma_address_bytes_round_trip(e.sender);
    lemma_bytes_injective(e.sender, u.sender, e.transaction_hash, u.transaction_hash);
    lemma_address_bytes_round_trip(e.recipient);
    lemma_bytes_injective(e.recipient, u.recipient, e.transaction_hash, u.transaction_hash);
}

// ---------------------------------------------------------------------------
// InitializationEvent
// ---------------------------------------------------------------------------

/// An accepted initialize event.
#[derive(Clone, Copy, Debug, PartialEq, Eq, Structural)]
pub struct InitializationEvent {
    pub transaction_hash: Bytes32,
    pub log_index: u64,
    pub contract_address: Address,
    pub creator: Address,
    pub sqrt_price_x96: Uint160,
    pub tick: Int24,
}

/// The storage row of a initialize event.
#[derive(Clone, Debug)]
pub struct InitializationEventRaw {
    pub transaction_hash: Vec<u8>,
    pub log_index: i64,
    pub contract_address: Vec<u8>,
    pub creator: Vec<u8>,
    pub sqrt_price_x96: Numeric,
    pub tick: Numeric,
}

impl InitializationEvent {
    pub open spec fn wf(self) -> bool {
        self.tick.wf()
    }

    pub open spec fn from_log_spec(log: LogEntry, f: InitializeFields, creator: Address) -> Result<InitializationEvent, MissingField> {
        if log.transaction_hash is None {
            Err(MissingField::TransactionHash)
        } else if log.log_index is None {
            Err(MissingField::LogIndex)
        } else {
            Ok(
                InitializationEvent {
                    transaction_hash: log.transaction_hash.unwrap(),
                    log_index: log.log_index.unwrap(),
                    contract_address: log.address,
                    creator: creator,
                    sqrt_price_x96: f.sqrt_price_x96,
                    tick: f.tick,
                },
            )
        }
    }

    /// The record of a decoded initialize log; fails where the log lacks its
    /// transaction hash or log index.
    pub fn new(log: &LogEntry, f: InitializeFields, creator: Address) -> (r: Result<InitializationEvent, MissingField>)
        ensures
            r == InitializationEvent::from_log_spec(*log, f, creator),
    {
        let transaction_hash = match log.transaction_hash {
            Some(h) => h,
            None => return Err(MissingField::TransactionHash),
        };
        let log_index = match log.log_index {
            Some(i) => i,
            None => return Err(MissingField::LogIndex),
        };
        Ok(
            InitializationEvent {
                transaction_hash,
                log_index,
                contract_address: log.address,
                creator: creator,
                sqrt_price_x96: f.sqrt_price_x96,
                tick: f.tick,
            },
        )
    }

    pub open spec fn matches_row(self, raw: InitializationEventRaw) -> bool {
        &&& raw.transaction_hash@ == self.transaction_hash.bytes()
        &&& raw.log_index as int == self.log_index as int
        &&& raw.contract_address@ == self.contract_address.bytes()
        &&& raw.creator@ == self.creator.bytes()
        &&& raw.sqrt_price_x96.value() == self.sqrt_price_x96.value()
        &&& raw.tick.value() == self.tick.value as int
    }

    /// The check that reading a row makes, in order: a negative log index,
    /// then byte lengths, then numbers outside their type's range.
    pub open spec fn row_check(raw: InitializationEventRaw) -> Option<ConversionError> {
        if raw.log_index < 0 {
            Some(ConversionError::OutOfRange)
        } else if raw.transaction_hash@.len() != 32 || raw.contract_address@.len() != 20 || raw.creator@.len() != 20 {
            Some(ConversionError::InvalidLength)
        } else if !Uint160::fits(raw.sqrt_price_x96.value()) || !Int24::fits(raw.tick.value()) {
            Some(ConversionError::OutOfRange)
        } else {
            None
        }
    }

    /// The event read from its row.
    pub fn try_from_raw(raw: &InitializationEventRaw) -> (r: Result<InitializationEvent, ConversionError>)
        ensures
            match r {
                Ok(e) => InitializationEvent::row_check(*raw) is None && e.matches_row(*raw) && e.wf(),
                Err(e) => InitializationEvent::row_check(*raw) == Some(e),
            },
    {
        if raw.log_index < 0 {
            return Err(ConversionError::OutOfRange);
        }
        let transaction_hash = match hash_from_column(&raw.transaction_hash) {
            Ok(v) => v,
            Err(e) => return Err(e),
        };
        let contract_address = match address_from_column(&raw.contract_address) {
            Ok(v) => v,
            Err(e) => return Err(e),
        };
        let creator = match address_from_column(&raw.creator) {
            Ok(v) => v,
            Err(e) => return Err(e),
        };
        let sqrt_price_x96 = match raw.sqrt_price_x96.to_uint160() {
            Ok(v) => v,
            Err(e) => return Err(e),
        };
        let tick = match raw.tick.to_int24() {
            Ok(v) => v,
            Err(e) => return Err(e),
        };
        Ok(
            InitializationEvent {
                transaction_hash,
                log_index: raw.log_index as u64,
                contract_address,
                creator,
                sqrt_price_x96,
                tick,
            },
        )
    }
}

impl InitializationEventRaw {
    /// The row of an event; fails where the log index exceeds `i64::MAX`.
    pub fn try_from_event(e: &InitializationEvent) -> (r: Result<InitializationEventRaw, ConversionError>)
        ensures
            r is Ok <==> e.log_index <= i64::MAX,
            r matches Err(x) ==> x == ConversionError::OutOfRange,
            r matches Ok(raw) ==> e.matches_row(raw),
    {
        let log_index = match u64_to_column(e.log_index) {
            Ok(v) => v,
            Err(x) => return Err(x),
        };
        Ok(
            InitializationEventRaw {
                transaction_hash: e.transaction_hash.to_bytes(),
                log_index,
                contract_address: e.contract_address.to_bytes(),
                creator: e.creator.to_bytes(),
                sqrt_price_x96: e.sqrt_price_x96.to_numeric(),
                tick: e.tick.to_numeric(),
            },
        )
    }
}

/// Lemma: the row of a initialize event passes every check and reads back
/// as that event.
pub proof fn lemma_initialization_event_row_round_trip(e: InitializationEvent, raw: InitializationEventRaw, u: InitializationEvent)
    requires
        e.wf(),
        e.matches_row(raw),
        u.matches_row(raw),
    ensures
        InitializationEvent::row_check(raw) is None,
        u == e,
{
    lemma_two256();
    lemma_numeric_round_trip(Int24 { value: 0 }, Uint24 { value: 0 }, 0, e.sqrt_price_x96, Uint256 { hi: 0, lo: 0 }, Int256 { hi: 0, lo: 0 });
    lemma_values_injective(e.sqrt_price_x96, u.sqrt_price_x96, Uint256 { hi: 0, lo: 0 }, Uint256 { hi: 0, lo: 0 }, Int256 { hi: 0, lo: 0 }, Int256 { hi: 0, lo: 0 });
    lemma_numeric_round_trip(e.tick, Uint24 { value: 0 }, 0, Uint160 { hi: 0, lo: 0 }, Uint256 { hi: 0, lo: 0 }, Int256 { hi: 0, lo: 0 });
    lemma_bytes32_round_trip(e.transaction_hash);
    lemma_address_bytes_round_trip(e.contract_address);
    lemma_bytes_injective(e.contract_address, u.contract_address, e.transaction_hash, u.transaction_hash);
    lemma_address_bytes_round_trip(e.creator);
    lemma_bytes_injective(e.creator, u.creator, e.transaction_hash, u.transaction_hash);
}

// ---------------------------------------------------------------------------
// MintEvent
// ---------------------------------------------------------------------------

/// An accepted mint event.
#[derive(Clone, Copy, Debug, PartialEq, Eq, Structural)]
pub struct MintEvent {
    pub transaction_hash: Bytes32,
    pub log_index: u64,
    pub contract_address: Address,
    pub sender: Address,
    pub owner: Address,
    pub tick_lower: Int24,
    pub tick_upper: Int24,
    pub amount: u128,
    pub amount0: Uint256,
    pub amount1: Uint256,
}

/// The storage row of a mint event.
#[derive(Clone, Debug)]
pub struct MintEventRaw {
    pub transaction_hash: Vec<u8>,
    pub log_index: i64,
    pub contract_address: Vec<u8>,
    pub sender: Vec<u8>,
    pub owner: Vec<u8>,
    pub tick_lower: Numeric,
    pub tick_upper: Numeric,
    pub amount: Numeric,
    pub amount0: Numeric,
    pub amount1: Numeric,
}

impl MintEvent {
    pub open spec fn wf(self) -> bool {
        self.tick_lower.wf() && self.tick_upper.wf()
    }

    pub open spec fn from_log_spec(log: LogEntry, f: MintFields) -> Result<MintEvent, MissingField> {
        if log.transaction_hash is None {
            Err(MissingField::TransactionHash)
        } else if log.log_index is None {
            Err(MissingField::LogIndex)
        } else {
            Ok(
                MintEvent {
                    transaction_hash: log.transaction_hash.unwrap(),
                    log_index: log.log_index.unwrap(),
                    contract_address: log.address,
                    sender: f.sender,
                    owner: f.owner,
                    tick_lower: f.tick_lower,
                    tick_upper: f.tick_upper,
                    amount: f.amount,
                    amount0: f.amount0,
                    amount1: f.amount1,
                },
            )
        }
    }

    /// The record of a decoded mint log; fails where the log lacks its
    /// transaction hash or log index.
    pub fn new(log: &LogEntry, f: MintFields) -> (r: Result<MintEvent, MissingField>)
        ensures
            r == MintEvent::from_log_spec(*log, f),
    {
        let transaction_hash = match log.transaction_hash {
            Some(h) => h,
            None => return Err(MissingField::TransactionHash),
        };
        let log_index = match log.log_index {
            Some(i) => i,
            None => return Err(MissingField::LogIndex),
        };
        Ok(
            MintEvent {
                transaction_hash,
                log_index,
                contract_address: log.address,
                sender: f.sender,
                owner: f.owner,
                tick_lower: f.tick_lower,
                tick_upper: f.tick_upper,
                amount: f.amount,
                amount0: f.amount0,
                amount1: f.amount1,
            },
        )
    }

    pub open spec fn matches_row(self, raw: MintEventRaw) -> bool {
        &&& raw.transaction_hash@ == self.transaction_hash.bytes()
        &&& raw.log_index as int == self.log_index as int
        &&& raw.contract_address@ == self.contract_address.bytes()
        &&& raw.sender@ == self.sender.bytes()
        &&& raw.owner@ == self.owner.bytes()
        &&& raw.tick_lower.value() == self.tick_lower.value as int
        &&& raw.tick_upper.value() == self.tick_upper.value as int
        &&& raw.amount.value() == self.amount as int
        &&& raw.amount0.value() == self.amount0.value()
        &&& raw.amount1.value() == self.amount1.value()
    }

    /// The check that reading a row makes, in order: a negative log index,
    /// then byte lengths, then numbers outside their type's range.
    pub open spec fn row_check(raw: MintEventRaw) -> Option<ConversionError> {
        if raw.log_index < 0 {
            Some(ConversionError::OutOfRange)
        } else if raw.transaction_hash@.len() != 32 || raw.contract_address@.len() != 20 || raw.sender@.len() != 20 || raw.owner@.len() != 20 {
            Some(ConversionError::InvalidLength)
        } else if !Int24::fits(raw.tick_lower.value()) || !Int24::fits(raw.tick_upper.value()) || !(0 <= raw.amount.value() < two128()) || !Uint256::fits(raw.amount0.value()) || !Uint256::fits(raw.amount1.value()) {
            Some(ConversionError::OutOfRange)
        } else {
            None
        }
    }

    /// The event read from its row.
    pub fn try_from_raw(raw: &MintEventRaw) -> (r: Result<MintEvent, ConversionError>)
        ensures
            match r {
                Ok(e) => MintEvent::row_check(*raw) is None && e.matches_row(*raw) && e.wf(),
                Err(e) => MintEvent::row_check(*raw) == Some(e),
            },
    {
        if raw.log_index < 0 {
            return Err(ConversionError::OutOfRange);
        }
        let transaction_hash = match hash_from_column(&raw.transaction_hash) {
            Ok(v) => v,
            Err(e) => return Err(e),
        };
        let contract_address = match address_from_column(&raw.contract_address) {
            Ok(v) => v,
            Err(e) => return Err(e),
        };
        let sender = match address_from_column(&raw.sender) {
            Ok(v) => v,
            Err(e) => return Err(e),
        };
        let owner = match address_from_column(&raw.owner) {
            Ok(v) => v,
            Err(e) => return Err(e),
        };
        let tick_lower = match raw.tick_lower.to_int24() {
            Ok(v) => v,
            Err(e) => return Err(e),
        };
        let tick_upper = match raw.tick_upper.to_int24() {
            Ok(v) => v,
            Err(e) => return Err(e),
        };
        let amount = match raw.amount.to_u128() {
            Ok(v) => v,
            Err(e) => return Err(e),
        };
        let amount0 = match raw.amount0.to_uint256() {
            Ok(v) => v,
            Err(e) => return Err(e),
        };
        let amount1 = match raw.amount1.to_uint256() {
            Ok(v) => v,
            Err(e) => return Err(e),
        };
        Ok(
            MintEvent {
                transaction_hash,
                log_index: raw.log_index as u64,
                contract_address,
                sender,
                owner,
                tick_lower,
                tick_upper,
                amount,
                amount0,
                amount1,
            },
        )
    }
}

impl MintEventRaw {
    /// The row of an event; fails where the log index exceeds `i64::MAX`.
    pub fn try_from_event(e: &MintEvent) -> (r: Result<MintEventRaw, ConversionError>)
        ensures
            r is Ok <==> e.log_index <= i64::MAX,
            r matches Err(x) ==> x == ConversionError::OutOfRange,
            r matches Ok(raw) ==> e.matches_row(raw),
    {
        let log_index = match u64_to_column(e.log_index) {
            Ok(v) => v,
            Err(x) => return Err(x),
        };
        Ok(
            MintEventRaw {
                transaction_hash: e.transaction_hash.to_bytes(),
                log_index,
                contract_address: e.contract_address.to_bytes(),
                sender: e.sender.to_bytes(),
                owner: e.owner.to_bytes(),
                tick_lower: e.tick_lower.to_numeric(),
                tick_upper: e.tick_upper.to_numeric(),
                amount: u128_to_numeric(e.amount),
                amount0: e.amount0.to_numeric(),
                amount1: e.amount1.to_numeric(),
            },
        )
    }
}

/// Lemma: the row of a mint event passes every check and reads back
/// as that event.
pub proof fn lemma_mint_event_row_round_trip(e: MintEvent, raw: MintEventRaw, u: MintEvent)
    requires
        e.wf(),
        e.matches_row(raw),
        u.matches_row(raw),
    ensures
        MintEvent::row_check(raw) is None,
        u == e,
{
    lemma_two256();
    lemma_numeric_round_trip(e.tick_lower, Uint24 { value: 0 }, 0, Uint160 { hi: 0, lo: 0 }, Uint256 { hi: 0, lo: 0 }, Int256 { hi: 0, lo: 0 });
    lemma_numeric_round_trip(e.tick_upper, Uint24 { value: 0 }, 0, Uint160 { hi: 0, lo: 0 }, Uint256 { hi: 0, lo: 0 }, Int256 { hi: 0, lo: 0 });
    lemma_numeric_round_trip(Int24 { value: 0 }, Uint24 { value: 0 }, e.amount, Uint160 { hi: 0, lo: 0 }, Uint256 { hi: 0, lo: 0 }, Int256 { hi: 0, lo: 0 });
    lemma_numeric_round_trip(Int24 { value: 0 }, Uint24 { value: 0 }, 0, Uint160 { hi: 0, lo: 0 }, e.amount0, Int256 { hi: 0, lo: 0 });
    lemma_values_injective(Uint160 { hi: 0, lo: 0 }, Uint160 { hi: 0, lo: 0 }, e.amount0, u.amount0, Int256 { hi: 0, lo: 0 }, Int256 { hi: 0, lo: 0 });
    lemma_numeric_round_trip(Int24 { value: 0 }, Uint24 { value: 0 }, 0, Uint160 { hi: 0, lo: 0 }, e.amount1, Int256 { hi: 0, lo: 0 });
    lemma_values_injective(Uint160 { hi: 0, lo: 0 }, Uint160 { hi: 0, lo: 0 }, e.amount1, u.amount1, Int256 { hi: 0, lo: 0 }, Int256 { hi: 0, lo: 0 });
    lemma_bytes32_round_trip(e.transaction_hash);
    lemma_address_bytes_round_trip(e.contract_address);
    lemma_bytes_injective(e.contract_address, u.contract_address, e.transaction_hash, u.transaction_hash);
    lemma_address_bytes_round_trip(e.sender);
    lemma_bytes_injective(e.sender, u.sender, e.transaction_hash, u.transaction_hash);
    lemma_address_bytes_round_trip(e.owner);
    lemma_bytes_injective(e.owner, u.owner, e.transaction_hash, u.transaction_hash);
}

// ---------------------------------------------------------------------------
// BurnEvent
// ---------------------------------------------------------------------------

/// An accepted burn event.
#[derive(Clone, Copy, Debug, PartialEq, Eq, Structural)]
pub struct BurnEvent {
    pub transaction_hash: Bytes32,
    pub log_index: u64,
    pub contract_address: Address,
    pub owner: Address,
    pub tick_lower: Int24,
    pub tick_upper: Int24,
    pub amount: u128,
    pub amount0: Uint256,
    pub amount1: Uint256,
}

/// The storage row of a burn event.
#[derive(Clone, Debug)]
pub struct BurnEventRaw {
    pub transaction_hash: Vec<u8>,
    pub log_index: i64,
    pub contract_address: Vec<u8>,
    pub owner: Vec<u8>,
    pub tick_lower: Numeric,
    pub tick_upper: Numeric,
    pub amount: Numeric,
    pub amount0: Numeric,
    pub amount1: Numeric,
}

impl BurnEvent {
    pub open spec fn wf(self) -> bool {
        self.tick_lower.wf() && self.tick_upper.wf()
    }

    pub open spec fn from_log_spec(log: LogEntry, f: BurnFields) -> Result<BurnEvent, MissingField> {
        if log.transaction_hash is None {
            Err(MissingField::TransactionHash)
        } else if log.log_index is None {
            Err(MissingField::LogIndex)
        } else {
            Ok(
                BurnEvent {
                    transaction_hash: log.transaction_hash.unwrap(),
                    log_index: log.log_index.unwrap(),
                    contract_address: log.address,
                    owner: f.owner,
                    tick_lower: f.tick_lower,
                    tick_upper: f.tick_upper,
                    amount: f.amount,
                    amount0: f.amount0,
                    amount1: f.amount1,
                },
            )
        }
    }

    /// The record of a decoded burn log; fails where the log lacks its
    /// transaction hash or log index.
    pub fn new(log: &LogEntry, f: BurnFields) -> (r: Result<BurnEvent, MissingField>)
        ensures
            r == BurnEvent::from_log_spec(*log, f),
    {
        let transaction_hash = match log.transaction_hash {
            Some(h) => h,
            None => return Err(MissingField::TransactionHash),
        };
        let log_index = match log.log_index {
            Some(i) => i,
            None => return Err(MissingField::LogIndex),
        };
        Ok(
            BurnEvent {
                transaction_hash,
                log_index,
                contract_address: log.address,
                owner: f.owner,
                tick_lower: f.tick_lower,
                tick_upper: f.tick_upper,
                amount: f.amount,
                amount0: f.amount0,
                amount1: f.amount1,
            },
        )
    }

    pub open spec fn matches_row(self, raw: BurnEventRaw) -> bool {
        &&& raw.transaction_hash@ == self.transaction_hash.bytes()
        &&& raw.log_index as int == self.log_index as int
        &&& raw.contract_address@ == self.contract_address.bytes()
        &&& raw.owner@ == self.owner.bytes()
        &&& raw.tick_lower.value() == self.tick_lower.value as int
        &&& raw.tick_upper.value() == self.tick_upper.value as int
        &&& raw.amount.value() == self.amount as int
        &&& raw.amount0.value() == self.amount0.value()
        &&& raw.amount1.value() == self.amount1.value()
    }

    /// The check that reading a row makes, in order: a negative log index,
    /// then byte lengths, then numbers outside their type's range.
    pub open spec fn row_check(raw: BurnEventRaw) -> Option<ConversionError> {
        if raw.log_index < 0 {
            Some(ConversionError::OutOfRange)
        } else if raw.transaction_hash@.len() != 32 || raw.contract_address@.len() != 20 || raw.owner@.len() != 20 {
            Some(ConversionError::InvalidLength)
        } else if !Int24::fits(raw.tick_lower.value()) || !Int24::fits(raw.tick_upper.value()) || !(0 <= raw.amount.value() < two128()) || !Uint256::fits(raw.amount0.value()) || !Uint256::fits(raw.amount1.value()) {
            Some(ConversionError::OutOfRange)
        } else {
            None
        }
    }

    /// The event read from its row.
    pub fn try_from_raw(raw: &BurnEventRaw) -> (r: Result<BurnEvent, ConversionError>)
        ensures
            match r {
                Ok(e) => BurnEvent::row_check(*raw) is None && e.matches_row(*raw) && e.wf(),
                Err(e) => BurnEvent::row_check(*raw) == Some(e),
            },
    {
        if raw.log_index < 0 {
            return Err(ConversionError::OutOfRange);
        }
        let transaction_hash = match hash_from_column(&raw.transaction_hash) {
            Ok(v) => v,
            Err(e) => return Err(e),
        };
        let contract_address = match address_from_column(&raw.contract_address) {
            Ok(v) => v,
            Err(e) => return Err(e),
        };
        let owner = match address_from_column(&raw.owner) {
            Ok(v) => v,
            Err(e) => return Err(e),
        };
        let tick_lower = match raw.tick_lower.to_int24() {
            Ok(v) => v,
            Err(e) => return Err(e),
        };
        let tick_upper = match raw.tick_upper.to_int24() {
            Ok(v) => v,
            Err(e) => return Err(e),
        };
        let amount = match raw.amount.to_u128() {
            Ok(v) => v,
            Err(e) => return Err(e),
        };
        let amount0 = match raw.amount0.to_uint256() {
            Ok(v) => v,
            Err(e) => return Err(e),
        };
        let amount1 = match raw.amount1.to_uint256() {
            Ok(v) => v,
            Err(e) => return Err(e),
        };
        Ok(
            BurnEvent {
                transaction_hash,
                log_index: raw.log_index as u64,
                contract_address,
                owner,
                tick_lower,
                tick_upper,
                amount,
                amount0,
                amount1,
            },
        )
    }
}

impl BurnEventRaw {
    /// The row of an event; fails where the log index exceeds `i64::MAX`.
    pub fn try_from_event(e: &BurnEvent) -> (r: Result<BurnEventRaw, ConversionError>)
        ensures
            r is Ok <==> e.log_index <= i64::MAX,
            r matches Err(x) ==> x == ConversionError::OutOfRange,
            r matches Ok(raw) ==> e.matches_row(raw),
    {
        let log_index = match u64_to_column(e.log_index) {
            Ok(v) => v,
            Err(x) => return Err(x),
        };
        Ok(
            BurnEventRaw {
                transaction_hash: e.transaction_hash.to_bytes(),
                log_index,
                contract_address: e.contract_address.to_bytes(),
                owner: e.owner.to_bytes(),
                tick_lower: e.tick_lower.to_numeric(),
                tick_upper: e.tick_upper.to_numeric(),
                amount: u128_to_numeric(e.amount),
                amount0: e.amount0.to_numeric(),
                amount1: e.amount1.to_numeric(),
            },
        )
    }
}

/// Lemma: the row of a burn event passes every check and reads back
/// as that event.
pub proof fn lemma_burn_event_row_round_trip(e: BurnEvent, raw: BurnEventRaw, u: BurnEvent)
    requires
        e.wf(),
        e.matches_row(raw),
        u.matches_row(raw),
    ensures
        BurnEvent::row_check(raw) is None,
        u == e,
{
    lemma_two256();
    lemma_numeric_round_trip(e.tick_lower, Uint24 { value: 0 }, 0, Uint160 { hi: 0, lo: 0 }, Uint256 { hi: 0, lo: 0 }, Int256 { hi: 0, lo: 0 });
    lemma_numeric_round_trip(e.tick_upper, Uint24 { value: 0 }, 0, Uint160 { hi: 0, lo: 0 }, Uint256 { hi: 0, lo: 0 }, Int256 { hi: 0, lo: 0 });
    lemma_numeric_round_trip(Int24 { value: 0 }, Uint24 { value: 0 }, e.amount, Uint160 { hi: 0, lo: 0 }, Uint256 { hi: 0, lo: 0 }, Int256 { hi: 0, lo: 0 });
    lemma_numeric_round_trip(Int24 { value: 0 }, Uint24 { value: 0 }, 0, Uint160 { hi: 0, lo: 0 }, e.amount0, Int256 { hi: 0, lo: 0 });
    lemma_values_injective(Uint160 { hi: 0, lo: 0 }, Uint160 { hi: 0, lo: 0 }, e.amount0, u.amount0, Int256 { hi: 0, lo: 0 }, Int256 { hi: 0, lo: 0 });
    lemma_numeric_round_trip(Int24 { value: 0 }, Uint24 { value: 0 }, 0, Uint160 { hi: 0, lo: 0 }, e.amount1, Int256 { hi: 0, lo: 0 });
    lemma_values_injective(Uint160 { hi: 0, lo: 0 }, Uint160 { hi: 0, lo: 0 }, e.amount1, u.amount1, Int256 { hi: 0, lo: 0 }, Int256 { hi: 0, lo: 0 });
    lemma_bytes32_round_trip(e.transaction_hash);
    lemma_address_bytes_round_trip(e.contract_address);
    lemma_bytes_injective(e.contract_address, u.contract_address, e.transaction_hash, u.transaction_hash);
    lemma_address_bytes_round_trip(e.owner);
    lemma_bytes_injective(e.owner, u.owner, e.transaction_hash, u.transaction_hash);
}

// ---------------------------------------------------------------------------
// CollectEvent
// ---------------------------------------------------------------------------

/// An accepted collect event.
#[derive(Clone, Copy, Debug, PartialEq, Eq, Structural)]
pub struct CollectEvent {
    pub transaction_hash: Bytes32,
    pub log_index: u64,
    pub contract_address: Address,
    pub owner: Address,
    pub recipient: Address,
    pub tick_lower: Int24,
    pub tick_upper: Int24,
    pub amount0: Uint256,
    pub amount1: Uint256,
}

/// The storage row of a collect event.
#[derive(Clone, Debug)]
pub struct CollectEventRaw {
    pub transaction_hash: Vec<u8>,
    pub log_index: i64,
    pub contract_address: Vec<u8>,
    pub owner: Vec<u8>,
    pub recipient: Vec<u8>,
    pub tick_lower: Numeric,
    pub tick_upper: Numeric,
    pub amount0: Numeric,
    pub amount1: Numeric,
}

impl CollectEvent {
    pub open spec fn wf(self) -> bool {
        self.tick_lower.wf() && self.tick_upper.wf()
    }

    pub open spec fn from_log_spec(log: LogEntry, f: CollectFields) -> Result<CollectEvent, MissingField> {
        if log.transaction_hash is None {
            Err(MissingField::TransactionHash)
        } else if log.log_index is None {
            Err(MissingField::LogIndex)
        } else {
            Ok(
                CollectEvent {
                    transaction_hash: log.transaction_hash.unwrap(),
                    log_index: log.log_index.unwrap(),
                    contract_address: log.address,
                    owner: f.owner,
                    recipient: f.recipient,
                    tick_lower: f.tick_lower,
                    tick_upper: f.tick_upper,
                    amount0: Uint256 { hi: 0, lo: f.amount0 },
                    amount1: Uint256 { hi: 0, lo: f.amount1 },
                },
            )
        }
    }

    /// The record of a decoded collect log; fails where the log lacks its
    /// transaction hash or log index.
    pub fn new(log: &LogEntry, f: CollectFields) -> (r: Result<CollectEvent, MissingField>)
        ensures
            r == CollectEvent::from_log_spec(*log, f),
    {
        let transaction_hash = match log.transaction_hash {
            Some(h) => h,
            None => return Err(MissingField::TransactionHash),
        };
        let log_index = match log.log_index {
            Some(i) => i,
            None => return Err(MissingField::LogIndex),
        };
        Ok(
            CollectEvent {
                transaction_hash,
                log_index,
                contract_address: log.address,
                owner: f.owner,
                recipient: f.recipient,
                tick_lower: f.tick_lower,
                tick_upper: f.tick_upper,
                amount0: Uint256::from_u128(f.amount0),
                amount1: Uint256::from_u128(f.amount1),
            },
        )
    }

    pub open spec fn matches_row(self, raw: CollectEventRaw) -> bool {
        &&& raw.transaction_hash@ == self.transaction_hash.bytes()
        &&& raw.log_index as int == self.log_index as int
        &&& raw.contract_address@ == self.contract_address.bytes()
        &&& raw.owner@ == self.owner.bytes()
        &&& raw.recipient@ == self.recipient.bytes()
        &&& raw.tick_lower.value() == self.tick_lower.value as int
        &&& raw.tick_upper.value() == self.tick_upper.value as int
        &&& raw.amount0.value() == self.amount0.value()
        &&& raw.amount1.value() == self.amount1.value()
    }

    /// The check that reading a row makes, in order: a negative log index,
    /// then byte lengths, then numbers outside their type's range.
    pub open spec fn row_check(raw: CollectEventRaw) -> Option<ConversionError> {
        if raw.log_index < 0 {
            Some(ConversionError::OutOfRange)
        } else if raw.transaction_hash@.len() != 32 || raw.contract_address@.len() != 20 || raw.owner@.len() != 20 || raw.recipient@.len() != 20 {
            Some(ConversionError::InvalidLength)
        } else if !Int24::fits(raw.tick_lower.value()) || !Int24::fits(raw.tick_upper.value()) || !Uint256::fits(raw.amount0.value()) || !Uint256::fits(raw.amount1.value()) {
            Some(ConversionError::OutOfRange)
        } else {
            None
        }
    }

    /// The event read from its row.
    pub fn try_from_raw(raw: &CollectEventRaw) -> (r: Result<CollectEvent, ConversionError>)
        ensures
            match r {
                Ok(e) => CollectEvent::row_check(*raw) is None && e.matches_row(*raw) && e.wf(),
                Err(e) => CollectEvent::row_check(*raw) == Some(e),
            },
    {
        if raw.log_index < 0 {
            return Err(ConversionError::OutOfRange);
        }
        let transaction_hash = match hash_from_column(&raw.transaction_hash) {
            Ok(v) => v,
            Err(e) => return Err(e),
        };
        let contract_address = match address_from_column(&raw.contract_address) {
            Ok(v) => v,
            Err(e) => return Err(e),
        };
        let owner = match address_from_column(&raw.owner) {
            Ok(v) => v,
            Err(e) => return Err(e),
        };
        let recipient = match address_from_column(&raw.recipient) {
            Ok(v) => v,
            Err(e) => return Err(e),
        };
        let tick_lower = match raw.tick_lower.to_int24() {
            Ok(v) => v,
            Err(e) => return Err(e),
        };
        let tick_upper = match raw.tick_upper.to_int24() {
            Ok(v) => v,
            Err(e) => return Err(e),
        };
        let amount0 = match raw.amount0.to_uint256() {
            Ok(v) => v,
            Err(e) => return Err(e),
        };
        let amount1 = match raw.amount1.to_uint256() {
            Ok(v) => v,
            Err(e) => return Err(e),
        };
        Ok(
            CollectEvent {
                transaction_hash,
                log_index: raw.log_index as u64,
                contract_address,
                owner,
                recipient,
                tick_lower,
                tick_upper,
                amount0,
                amount1,
            },
        )
    }
}

impl CollectEventRaw {
    /// The row of an event; fails where the log index exceeds `i64::MAX`.
    pub fn try_from_event(e: &CollectEvent) -> (r: Result<CollectEventRaw, ConversionError>)
        ensures
            r is Ok <==> e.log_index <= i64::MAX,
            r matches Err(x) ==> x == ConversionError::OutOfRange,
            r matches Ok(raw) ==> e.matches_row(raw),
    {
        let log_index = match u64_to_column(e.log_index) {
            Ok(v) => v,
            Err(x) => return Err(x),
        };
        Ok(
            CollectEventRaw {
                transaction_hash: e.transaction_hash.to_bytes(),
                log_index,
                contract_address: e.contract_address.to_bytes(),
                owner: e.owner.to_bytes(),
                recipient: e.recipient.to_bytes(),
                tick_lower: e.tick_lower.to_numeric(),
                tick_upper: e.tick_upper.to_numeric(),
                amount0: e.amount0.to_numeric(),
                amount1: e.amount1.to_numeric(),
            },
        )
    }
}

/// Lemma: the row of a collect event passes every check and reads back
/// as that event.
pub proof fn lemma_collect_event_row_round_trip(e: CollectEvent, raw: CollectEventRaw, u: CollectEvent)
    requires
        e.wf(),
        e.matches_row(raw),
        u.matches_row(raw),
    ensures
        CollectEvent::row_check(raw) is None,
        u == e,
{
    lemma_two256();
    lemma_numeric_round_trip(e.tick_lower, Uint24 { value: 0 }, 0, Uint160 { hi: 0, lo: 0 }, Uint256 { hi: 0, lo: 0 }, Int256 { hi: 0, lo: 0 });
    lemma_numeric_round_trip(e.tick_upper, Uint24 { value: 0 }, 0, Uint160 { hi: 0, lo: 0 }, Uint256 { hi: 0, lo: 0 }, Int256 { hi: 0, lo: 0 });
    lemma_numeric_round_trip(Int24 { value: 0 }, Uint24 { value: 0 }, 0, Uint160 { hi: 0, lo: 0 }, e.amount0, Int256 { hi: 0, lo: 0 });
    lemma_values_injective(Uint160 { hi: 0, lo: 0 }, Uint160 { hi: 0, lo: 0 }, e.amount0, u.amount0, Int256 { hi: 0, lo: 0 }, Int256 { hi: 0, lo: 0 });
    lemma_numeric_round_trip(Int24 { value: 0 }, Uint24 { value: 0 }, 0, Uint160 { hi: 0, lo: 0 }, e.amount1, Int256 { hi: 0, lo: 0 });
    lemma_values_injective(Uint160 { hi: 0, lo: 0 }, Uint160 { hi: 0, lo: 0 }, e.amount1, u.amount1, Int256 { hi: 0, lo: 0 }, Int256 { hi: 0, lo: 0 });
    lemma_bytes32_round_trip(e.transaction_hash);
    lemma_address_bytes_round_trip(e.contract_address);
    lemma_bytes_injective(e.contract_address, u.contract_address, e.transaction_hash, u.transaction_hash);
    lemma_address_bytes_round_trip(e.owner);
    lemma_bytes_injective(e.owner, u.owner, e.transaction_hash, u.transaction_hash);
    lemma_address_bytes_round_trip(e.recipient);
    lemma_bytes_injective(e.recipient, u.recipient, e.transaction_hash, u.transaction_hash);
}


} // verus!
