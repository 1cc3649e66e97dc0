//! Decoding of the six pool events from a log's topics and data, following
//! the Solidity ABI for static parameters: each data parameter fills one
//! 32-byte word, padded as its type requires, and the data holds exactly
//! those words; indexed parameters are read from the low-order bits of their
//! topics.

use vstd::prelude::*;
use crate::bytes::be_value;
use crate::primitives::{lemma_two256, two128, Address, Bytes32, Int24, Int256, Uint160, Uint24,
    Uint256};

verus! {

/// The fields of a pool-created event.
#[derive(Clone, Copy, Debug, PartialEq, Eq, Structural)]
pub struct PoolCreatedFields {
    pub token0: Address,
    pub token1: Address,
    pub fee: Uint24,
    pub tick_spacing: Int24,
    pub pool: Address,
}

/// The fields of an initialize event.
#[derive(Clone, Copy, Debug, PartialEq, Eq, Structural)]
pub struct InitializeFields {
    pub sqrt_price_x96: Uint160,
    pub tick: Int24,
}

/// The fields of a swap event.
#[derive(Clone, Copy, Debug, PartialEq, Eq, Structural)]
pub struct SwapFields {
    pub sender: Address,
    pub recipient: Address,
    pub amount0: Int256,
    pub amount1: Int256,
    pub sqrt_price_x96: Uint160,
    pub liquidity: u128,
    pub tick: Int24,
}

/// The fields of a mint event.
#[derive(Clone, Copy, Debug, PartialEq, Eq, Structural)]
pub struct MintFields {
    pub sender: Address,
    pub owner: Address,
    pub tick_lower: Int24,
    pub tick_upper: Int24,
    pub amount: u128,
    pub amount0: Uint256,
    pub amount1: Uint256,
}

/// The fields of a burn event.
#[derive(Clone, Copy, Debug, PartialEq, Eq, Structural)]
pub struct BurnFields {
    pub owner: Address,
    pub tick_lower: Int24,
    pub tick_upper: Int24,
    pub amount: u128,
    pub amount0: Uint256,
    pub amount1: Uint256,
}

/// The fields of a collect event.
#[derive(Clone, Copy, Debug, PartialEq, Eq, Structural)]
pub struct CollectFields {
    pub owner: Address,
    pub recipient: Address,
    pub tick_lower: Int24,
    pub tick_upper: Int24,
    pub amount0: u128,
    pub amount1: u128,
}

/// The `i`-th 32-byte word of `data`.
pub open spec fn data_word(data: Seq<u8>, i: int) -> Bytes32 {
    Bytes32 {
        hi: be_value(data.subrange(32 * i, 32 * i + 16)) as u128,
        lo: be_value(data.subrange(32 * i + 16, 32 * i + 32)) as u128,
    }
}

/// An address word: twelve zero bytes, then the address.
pub open spec fn abi_address(w: Bytes32) -> Option<Address> {
    if w.hi < 0x1_0000_0000 {
        Some(Address { hi: w.hi as u32, lo: w.lo })
    } else {
        None
    }
}

/// A `uint160` word: twelve zero bytes, then the value.
pub open spec fn abi_uint160(w: Bytes32) -> Option<Uint160> {
    if w.hi < 0x1_0000_0000 {
        Some(Uint160 { hi: w.hi as u32, lo: w.lo })
    } else {
        None
    }
}

/// A `uint128` word: sixteen zero bytes, then the value.
pub open spec fn abi_u128(w: Bytes32) -> Option<u128> {
    if w.hi == 0 {
        Some(w.lo)
    } else {
        None
    }
}

/// An `int24` word: the value sign-extended to 32 bytes.
pub open spec fn abi_int24(w: Bytes32) -> Option<Int24> {
    if w.hi == 0 && w.lo < 0x80_0000 {
        Some(Int24 { value: w.lo as i32 })
    } else if w.hi == u128::MAX && w.lo >= u128::MAX - 0x7f_ffff {
        Some(Int24 { value: (w.lo as int - two128()) as i32 })
    } else {
        None
    }
}

/// An `int256` word, in two's complement.
pub open spec fn abi_int256(w: Bytes32) -> Int256 {
    Int256 { hi: w.hi, lo: w.lo }
}

/// A `uint256` word.
pub open spec fn abi_uint256(w: Bytes32) -> Uint256 {
    Uint256 { hi: w.hi, lo: w.lo }
}

/// An indexed address: the low 20 bytes of the topic.
pub open spec fn topic_address(t: Bytes32) -> Address {
    Address { hi: (t.hi % 0x1_0000_0000) as u32, lo: t.lo }
}

/// An indexed `int24`: the low 24 bits of the topic, in two's complement.
pub open spec fn topic_int24(t: Bytes32) -> Int24 {
    let x = t.lo % 0x100_0000;
    if x >= 0x80_0000 {
        Int24 { value: (x - 0x100_0000) as i32 }
    } else {
        Int24 { value: x as i32 }
    }
}

/// An indexed `uint24`: the low 24 bits of the topic.
pub open spec fn topic_uint24(t: Bytes32) -> Uint24 {
    Uint24 { value: (t.lo % 0x100_0000) as u32 }
}

pub open spec fn pool_created_spec(topics: Seq<Bytes32>, data: Seq<u8>) -> Option<PoolCreatedFields> {
    let w0 = data_word(data, 0);
    let w1 = data_word(data, 1);
    if topics.len() >= 4 && data.len() == 64 && abi_int24(w0) is Some && abi_address(w1) is Some {
        Some(
            PoolCreatedFields {
                token0: topic_address(topics[1]),
                token1: topic_address(topics[2]),
                fee: topic_uint24(topics[3]),
                tick_spacing: abi_int24(w0).unwrap(),
                pool: abi_address(w1).unwrap(),
            },
        )
    } else {
        None
    }
}

pub open spec fn initialize_spec(topics: Seq<Bytes32>, data: Seq<u8>) -> Option<InitializeFields> {
    let w0 = data_word(data, 0);
    let w1 = data_word(data, 1);
    if topics.len() >= 1 && data.len() == 64 && abi_uint160(w0) is Some && abi_int24(w1) is Some {
        Some(InitializeFields { sqrt_price_x96: abi_uint160(w0).unwrap(), tick: abi_int24(w1).unwrap() })
    } else {
        None
    }
}

pub open spec fn swap_spec(topics: Seq<Bytes32>, data: Seq<u8>) -> Option<SwapFields> {
    let w2 = data_word(data, 2);
    let w3 = data_word(data, 3);
    let w4 = data_word(data, 4);
    if topics.len() >= 3 && data.len() == 160 && abi_uint160(w2) is Some && abi_u128(w3) is Some
        && abi_int24(w4) is Some {
        Some(
            SwapFields {
                sender: topic_address(topics[1]),
                recipient: topic_address(topics[2]),
                amount0: abi_int256(data_word(data, 0)),
                amount1: abi_int256(data_word(data, 1)),
                sqrt_price_x96: abi_uint160(w2).unwrap(),
                liquidity: abi_u128(w3).unwrap(),
                tick: abi_int24(w4).unwrap(),
            },
        )
    } else {
        None
    }
}

pub open spec fn mint_spec(topics: Seq<Bytes32>, data: Seq<u8>) -> Option<MintFields> {
    let w0 = data_word(data, 0);
    let w1 = data_word(data, 1);
    if topics.len() >= 4 && data.len() == 128 && abi_address(w0) is Some && abi_u128(w1) is Some {
        Some(
            MintFields {
                sender: abi_address(w0).unwrap(),
                owner: topic_address(topics[1]),
                tick_lower: topic_int24(topics[2]),
                tick_upper: topic_int24(topics[3]),
                amount: abi_u128(w1).unwrap(),
                amount0: abi_uint256(data_word(data, 2)),
                amount1: abi_uint256(data_word(data, 3)),
            },
        )
    } else {
        None
    }
}

pub open spec fn burn_spec(topics: Seq<Bytes32>, data: Seq<u8>) -> Option<BurnFields> {
    let w0 = data_word(data, 0);
    if topics.len() >= 4 && data.len() == 96 && abi_u128(w0) is Some {
        Some(
            BurnFields {
                owner: topic_address(topics[1]),
                tick_lower: topic_int24(topics[2]),
                tick_upper: topic_int24(topics[3]),
                amount: abi_u128(w0).unwrap(),
                amount0: abi_uint256(data_word(data, 1)),
                amount1: abi_uint256(data_word(data, 2)),
            },
        )
    } else {
        None
    }
}

pub open spec fn collect_spec(topics: Seq<Bytes32>, data: Seq<u8>) -> Option<CollectFields> {
    let w0 = data_word(data, 0);
    let w1 = data_word(data, 1);
    let w2 = data_word(data, 2);
    if topics.len() >= 4 && data.len() == 96 && abi_address(w0) is Some && abi_u128(w1) is Some
        && abi_u128(w2) is Some {
        Some(
            CollectFields {
                owner: topic_address(topics[1]),
                recipient: abi_address(w0).unwrap(),
                tick_lower: topic_int24(topics[2]),
                tick_upper: topic_int24(topics[3]),
                amount0: abi_u128(w1).unwrap(),
                amount1: abi_u128(w2).unwrap(),
            },
        )
    } else {
        None
    }
}

fn word(data: &Vec<u8>, i: usize) -> (r: Bytes32)
    requires
        32 * i + 32 <= data.len(),
    ensures
        r == data_word(data@, i as int),
{
    Bytes32::read(data, 32 * i)
}

fn word_address(w: Bytes32) -> (r: Option<Address>)
    ensures
        r == abi_address(w),
{
    if w.hi < 0x1_0000_0000 {
        Some(Address { hi: w.hi as u32, lo: w.lo })
    } else {
        None
    }
}

fn word_uint160(w: Bytes32) -> (r: Option<Uint160>)
    ensures
        r == abi_uint160(w),
{
    if w.hi < 0x1_0000_0000 {
        Some(Uint160 { hi: w.hi as u32, lo: w.lo })
    } else {
        None
    }
}

fn word_u128(w: Bytes32) -> (r: Option<u128>)
    ensures
        r == abi_u128(w),
{
    if w.hi == 0 {
        Some(w.lo)
    } else {
        None
    }
}

fn word_int24(w: Bytes32) -> (r: Option<Int24>)
    ensures
        r == abi_int24(w),
        r matches Some(x) ==> x.wf(),
{
    proof {
        lemma_two256();
    }
    if w.hi == 0 && w.lo < 0x80_0000 {
        Some(Int24 { value: w.lo as i32 })
    } else if w.hi == u128::MAX && w.lo >= u128::MAX - 0x7f_ffff {
        let m = (u128::MAX - w.lo) as i32 + 1;
        Some(Int24 { value: 0 - m })
    } else {
        None
    }
}

fn topic_to_address(t: Bytes32) -> (r: Address)
    ensures
        r == topic_address(t),
{
    Address { hi: (t.hi % 0x1_0000_0000) as u32, lo: t.lo }
}

fn topic_to_int24(t: Bytes32) -> (r: Int24)
    ensures
        r == topic_int24(t),
        r.wf(),
{
    let x = t.lo % 0x100_0000;
    if x >= 0x80_0000 {
        Int24 { value: (x as i32) - 0x100_0000 }
    } else {
        Int24 { value: x as i32 }
    }
}

fn topic_to_uint24(t: Bytes32) -> (r: Uint24)
    ensures
        r == topic_uint24(t),
        r.wf(),
{
    Uint24 { value: (t.lo % 0x100_0000) as u32 }
}

/// Decodes a pool-created event; `None` where the topics or data do not
/// have its shape.
pub fn decode_pool_created(topics: &Vec<Bytes32>, data: &Vec<u8>) -> (r: Option<PoolCreatedFields>)
    ensures
        r == pool_created_spec(topics@, data@),
        r matches Some(f) ==> f.fee.wf() && f.tick_spacing.wf(),
{
    if topics.len() < 4 || data.len() != 64 {
        return None;
    }
    let tick_spacing = word_int24(word(data, 0));
    let pool = word_address(word(data, 1));
    match (tick_spacing, pool) {
        (Some(tick_spacing), Some(pool)) => Some(
            PoolCreatedFields {
                token0: topic_to_address(topics[1]),
                token1: topic_to_address(topics[2]),
                fee: topic_to_uint24(topics[3]),
                tick_spacing,
                pool,
            },
        ),
        _ => None,
    }
}

/// Decodes an initialize event; `None` where the topics or data do not have
/// its shape.
pub fn decode_initialize(topics: &Vec<Bytes32>, data: &Vec<u8>) -> (r: Option<InitializeFields>)
    ensures
        r == initialize_spec(topics@, data@),
        r matches Some(f) ==> f.tick.wf(),
{
    if topics.len() < 1 || data.len() != 64 {
        return None;
    }
    let sqrt_price_x96 = word_uint160(word(data, 0));
    let tick = word_int24(word(data, 1));
    match (sqrt_price_x96, tick) {
        (Some(sqrt_price_x96), Some(tick)) => Some(InitializeFields { sqrt_price_x96, tick }),
        _ => None,
    }
}

/// Decodes a swap event; `None` where the topics or data do not have its
/// shape.
pub fn decode_swap(topics: &Vec<Bytes32>, data: &Vec<u8>) -> (r: Option<SwapFields>)
    ensures
        r == swap_spec(topics@, data@),
        r matches Some(f) ==> f.tick.wf(),
{
    if topics.len() < 3 || data.len() != 160 {
        return None;
    }
    let w0 = word(data, 0);
    let w1 = word(data, 1);
    let sqrt_price_x96 = word_uint160(word(data, 2));
    let liquidity = word_u128(word(data, 3));
    let tick = word_int24(word(data, 4));
    match (sqrt_price_x96, liquidity, tick) {
        (Some(sqrt_price_x96), Some(liquidity), Some(tick)) => Some(
            SwapFields {
                sender: topic_to_address(topics[1]),
                recipient: topic_to_address(topics[2]),
                amount0: Int256 { hi: w0.hi, lo: w0.lo },
                amount1: Int256 { hi: w1.hi, lo: w1.lo },
                sqrt_price_x96,
                liquidity,
                tick,
            },
        ),
        _ => None,
    }
}

/// Decodes a mint event; `None` where the topics or data do not have its
/// shape.
pub fn decode_mint(topics: &Vec<Bytes32>, data: &Vec<u8>) -> (r: Option<MintFields>)
    ensures
        r == mint_spec(topics@, data@),
        r matches Some(f) ==> f.tick_lower.wf() && f.tick_upper.wf(),
{
    if topics.len() < 4 || data.len() != 128 {
        return None;
    }
    let sender = word_address(word(data, 0));
    let amount = word_u128(word(data, 1));
    let w2 = word(data, 2);
    let w3 = word(data, 3);
    match (sender, amount) {
        (Some(sender), Some(amount)) => Some(
            MintFields {
                sender,
                owner: topic_to_address(topics[1]),
                tick_lower: topic_to_int24(topics[2]),
                tick_upper: topic_to_int24(topics[3]),
                amount,
                amount0: Uint256 { hi: w2.hi, lo: w2.lo },
                amount1: Uint256 { hi: w3.hi, lo: w3.lo },
            },
        ),
        _ => None,
    }
}

/// Decodes a burn event; `None` where the topics or data do not have its
/// shape.
pub fn decode_burn(topics: &Vec<Bytes32>, data: &Vec<u8>) -> (r: Option<BurnFields>)
    ensures
        r == burn_spec(topics@, data@),
        r matches Some(f) ==> f.tick_lower.wf() && f.tick_upper.wf(),
{
    if topics.len() < 4 || data.len() != 96 {
        return None;
    }
    let amount = word_u128(word(data, 0));
    let w1 = word(data, 1);
    let w2 = word(data, 2);
    match amount {
        Some(amount) => Some(
            BurnFields {
                owner: topic_to_address(topics[1]),
                tick_lower: topic_to_int24(topics[2]),
                tick_upper: topic_to_int24(topics[3]),
                amount,
                amount0: Uint256 { hi: w1.hi, lo: w1.lo },
                amount1: Uint256 { hi: w2.hi, lo: w2.lo },
            },
        ),
        None => None,
    }
}

/// Decodes a collect event; `None` where the topics or data do not have its
/// shape.
pub fn decode_collect(topics: &Vec<Bytes32>, data: &Vec<u8>) -> (r: Option<CollectFields>)
    ensures
        r == collect_spec(topics@, data@),
        r matches Some(f) ==> f.tick_lower.wf() && f.tick_upper.wf(),
{
    if topics.len() < 4 || data.len() != 96 {
        return None;
    }
    let recipient = word_address(word(data, 0));
    let amount0 = word_u128(word(data, 1));
    let amount1 = word_u128(word(data, 2));
    match (recipient, amount0, amount1) {
        (Some(recipient), Some(amount0), Some(amount1)) => Some(
            CollectFields {
                owner: topic_to_address(topics[1]),
                recipient,
                tick_lower: topic_to_int24(topics[2]),
                tick_upper: topic_to_int24(topics[3]),
                amount0,
                amount1,
            },
        ),
        _ => None,
    }
}

} // verus!
