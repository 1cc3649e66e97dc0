//! Persistence of one block's bundle: conversion to storage rows, the write
//! plan in dependency order, and the insert-if-absent semantics of applying
//! it, under which persisting a bundle twice changes nothing.

use vstd::prelude::*;
use crate::bytes::bytes_equal;
use crate::dispatch::EventBundle;
use crate::numeric::ConversionError;
use crate::records::{
    BlockRaw, BurnEvent, BurnEventRaw, CollectEvent, CollectEventRaw, InitializationEvent,
    InitializationEventRaw, MintEvent, MintEventRaw, PoolCreateEvent, PoolCreateEventRaw, SwapEvent,
    SwapEventRaw, Transaction, TransactionRaw,
};

verus! {

/// The storage rows of one block's bundle.
#[derive(Debug)]
pub struct BlockRows {
    pub block: BlockRaw,
    pub transactions: Vec<TransactionRaw>,
    pub pool_create_events: Vec<PoolCreateEventRaw>,
    pub swap_events: Vec<SwapEventRaw>,
    pub initialize_events: Vec<InitializationEventRaw>,
    pub mint_events: Vec<MintEventRaw>,
    pub burn_events: Vec<BurnEventRaw>,
    pub collect_events: Vec<CollectEventRaw>,
}

/// One insert-if-absent write, naming its table by its variant.
#[derive(Debug)]
pub enum RowWrite {
    Block(BlockRaw),
    Transaction(TransactionRaw),
    PoolCreate(PoolCreateEventRaw),
    Swap(SwapEventRaw),
    Initialize(InitializationEventRaw),
    Mint(MintEventRaw),
    Burn(BurnEventRaw),
    Collect(CollectEventRaw),
}

fn transactions_rows(items: &Vec<Transaction>) -> (r: Result<Vec<TransactionRaw>, ConversionError>)
    ensures
        r is Ok <==> forall|i: int| 0 <= i < items@.len() ==> { let t = #[trigger] items@[i]; t.block_number <= i64::MAX && t.transaction_index <= i64::MAX },
        r matches Err(e) ==> e == ConversionError::OutOfRange,
        r matches Ok(rows) ==> rows@.len() == items@.len() && forall|i: int|
            0 <= i < items@.len() ==> #[trigger] items@[i].matches_row(rows@[i]),
{
    let mut rows: Vec<TransactionRaw> = Vec::new();
    let mut i: usize = 0;
    while i < items.len()
        invariant
            i <= items.len(),
            rows@.len() == i,
            forall|j: int| 0 <= j < i ==> { let t = #[trigger] items@[j]; t.block_number <= i64::MAX && t.transaction_index <= i64::MAX },
            forall|j: int| 0 <= j < i ==> #[trigger] items@[j].matches_row(rows@[j]),
        decreases items.len() - i,
    {
        match TransactionRaw::try_from_transaction(&items[i]) {
            Ok(row) => rows.push(row),
            Err(e) => return Err(e),
        }
        i = i + 1;
    }
    Ok(rows)
}

fn pool_create_events_rows(items: &Vec<PoolCreateEvent>) -> (r: Result<Vec<PoolCreateEventRaw>, ConversionError>)
    ensures
        r is Ok <==> forall|i: int| 0 <= i < items@.len() ==> { let t = #[trigger] items@[i]; t.log_index <= i64::MAX },
        r matches Err(e) ==> e == ConversionError::OutOfRange,
        r matches Ok(rows) ==> rows@.len() == items@.len() && forall|i: int|
            0 <= i < items@.len() ==> #[trigger] items@[i].matches_row(rows@[i]),
{
    let mut rows: Vec<PoolCreateEventRaw> = Vec::new();
    let mut i: usize = 0;
    while i < items.len()
        invariant
            i <= items.len(),
            rows@.len() == i,
            forall|j: int| 0 <= j < i ==> { let t = #[trigger] items@[j]; t.log_index <= i64::MAX },
            forall|j: int| 0 <= j < i ==> #[trigger] items@[j].matches_row(rows@[j]),
        decreases items.len() - i,
    {
        match PoolCreateEventRaw::try_from_event(&items[i]) {
            Ok(row) => rows.push(row),
            Err(e) => return Err(e),
        }
        i = i + 1;
    }
    Ok(rows)
}

fn swap_events_rows(items: &Vec<SwapEvent>) -> (r: Result<Vec<SwapEventRaw>, ConversionError>)
    ensures
        r is Ok <==> forall|i: int| 0 <= i < items@.len() ==> { let t = #[trigger] items@[i]; t.log_index <= i64::MAX },
        r matches Err(e) ==> e == ConversionError::OutOfRange,
        r matches Ok(rows) ==> rows@.len() == items@.len() && forall|i: int|
            0 <= i < items@.len() ==> #[trigger] items@[i].matches_row(rows@[i]),
{
    let mut rows: Vec<SwapEventRaw> = Vec::new();
    let mut i: usize = 0;
    while i < items.len()
        invariant
            i <= items.len(),
            rows@.len() == i,
            forall|j: int| 0 <= j < i ==> { let t = #[trigger] items@[j]; t.log_index <= i64::MAX },
            forall|j: int| 0 <= j < i ==> #[trigger] items@[j].matches_row(rows@[j]),
        decreases items.len() - i,
    {
        match SwapEventRaw::try_from_event(&items[i]) {
            Ok(row) => rows.push(row),
            Err(e) => return Err(e),
        }
        i = i + 1;
    }
    Ok(rows)
}

fn initialize_events_rows(items: &Vec<InitializationEvent>) -> (r: Result<Vec<InitializationEventRaw>, ConversionError>)
    ensures
        r is Ok <==> forall|i: int| 0 <= i < items@.len() ==> { let t = #[trigger] items@[i]; t.log_index <= i64::MAX },
        r matches Err(e) ==> e == ConversionError::OutOfRange,
        r matches Ok(rows) ==> rows@.len() == items@.len() && forall|i: int|
            0 <= i < items@.len() ==> #[trigger] items@[i].matches_row(rows@[i]),
{
    let mut rows: Vec<InitializationEventRaw> = Vec::new();
    let mut i: usize = 0;
    while i < items.len()
        invariant
            i <= items.len(),
            rows@.len() == i,
            forall|j: int| 0 <= j < i ==> { let t = #[trigger] items@[j]; t.log_index <= i64::MAX },
            forall|j: int| 0 <= j < i ==> #[trigger] items@[j].matches_row(rows@[j]),
        decreases items.len() - i,
    {
        match InitializationEventRaw::try_from_event(&items[i]) {
            Ok(row) => rows.push(row),
            Err(e) => return Err(e),
        }
        i = i + 1;
    }
    Ok(rows)
}

fn mint_events_rows(items: &Vec<MintEvent>) -> (r: Result<Vec<MintEventRaw>, ConversionError>)
    ensures
        r is Ok <==> forall|i: int| 0 <= i < items@.len() ==> { let t = #[trigger] items@[i]; t.log_index <= i64::MAX },
        r matches Err(e) ==> e == ConversionError::OutOfRange,
        r matches Ok(rows) ==> rows@.len() == items@.len() && forall|i: int|
            0 <= i < items@.len() ==> #[trigger] items@[i].matches_row(rows@[i]),
{
    let mut rows: Vec<MintEventRaw> = Vec::new();
    let mut i: usize = 0;
    while i < items.len()
        invariant
            i <= items.len(),
            rows@.len() == i,
            forall|j: int| 0 <= j < i ==> { let t = #[trigger] items@[j]; t.log_index <= i64::MAX },
            forall|j: int| 0 <= j < i ==> #[trigger] items@[j].matches_row(rows@[j]),
        decreases items.len() - i,
    {
        match MintEventRaw::try_from_event(&items[i]) {
            Ok(row) => rows.push(row),
            Err(e) => return Err(e),
        }
        i = i + 1;
    }
    Ok(rows)
}

fn burn_events_rows(items: &Vec<BurnEvent>) -> (r: Result<Vec<BurnEventRaw>, ConversionError>)
    ensures
        r is Ok <==> forall|i: int| 0 <= i < items@.len() ==> { let t = #[trigger] items@[i]; t.log_index <= i64::MAX },
        r matches Err(e) ==> e == ConversionError::OutOfRange,
        r matches Ok(rows) ==> rows@.len() == items@.len() && forall|i: int|
            0 <= i < items@.len() ==> #[trigger] items@[i].matches_row(rows@[i]),
{
    let mut rows: Vec<BurnEventRaw> = Vec::new();
    let mut i: usize = 0;
    while i < items.len()
        invariant
            i <= items.len(),
            rows@.len() == i,
            forall|j: int| 0 <= j < i ==> { let t = #[trigger] items@[j]; t.log_index <= i64::MAX },
            forall|j: int| 0 <= j < i ==> #[trigger] items@[j].matches_row(rows@[j]),
        decreases items.len() - i,
    {
        match BurnEventRaw::try_from_event(&items[i]) {
            Ok(row) => rows.push(row),
            Err(e) => return Err(e),
        }
        i = i + 1;
    }
    Ok(rows)
}

fn collect_events_rows(items: &Vec<CollectEvent>) -> (r: Result<Vec<CollectEventRaw>, ConversionError>)
    ensures
        r is Ok <==> forall|i: int| 0 <= i < items@.len() ==> { let t = #[trigger] items@[i]; t.log_index <= i64::MAX },
        r matches Err(e) ==> e == ConversionError::OutOfRange,
        r matches Ok(rows) ==> rows@.len() == items@.len() && forall|i: int|
            0 <= i < items@.len() ==> #[trigger] items@[i].matches_row(rows@[i]),
{
    let mut rows: Vec<CollectEventRaw> = Vec::new();
    let mut i: usize = 0;
    while i < items.len()
        invariant
            i <= items.len(),
            rows@.len() == i,
            forall|j: int| 0 <= j < i ==> { let t = #[trigger] items@[j]; t.log_index <= i64::MAX },
            forall|j: int| 0 <= j < i ==> #[trigger] items@[j].matches_row(rows@[j]),
        decreases items.len() - i,
    {
        match CollectEventRaw::try_from_event(&items[i]) {
            Ok(row) => rows.push(row),
            Err(e) => return Err(e),
        }
        i = i + 1;
    }
    Ok(rows)
}

/// Whether `rows` holds, in order, the row of each record of `bundle`.
pub open spec fn rows_of(bundle: EventBundle, rows: BlockRows) -> bool {
    &&& bundle.block.matches_row(rows.block)
    &&& rows.transactions@.len() == bundle.transactions@.len()
    &&& forall|i: int| 0 <= i < bundle.transactions@.len() ==> #[trigger] bundle.transactions@[i].matches_row(rows.transactions@[i])
    &&& rows.pool_create_events@.len() == bundle.pool_create_events@.len()
    &&& forall|i: int| 0 <= i < bundle.pool_create_events@.len() ==> #[trigger] bundle.pool_create_events@[i].matches_row(rows.pool_create_events@[i])
    &&& rows.swap_events@.len() == bundle.swap_events@.len()
    &&& forall|i: int| 0 <= i < bundle.swap_events@.len() ==> #[trigger] bundle.swap_events@[i].matches_row(rows.swap_events@[i])
    &&& rows.initialize_events@.len() == bundle.initialize_events@.len()
    &&& forall|i: int| 0 <= i < bundle.initialize_events@.len() ==> #[trigger] bundle.initialize_events@[i].matches_row(rows.initialize_events@[i])
    &&& rows.mint_events@.len() == bundle.mint_events@.len()
    &&& forall|i: int| 0 <= i < bundle.mint_events@.len() ==> #[trigger] bundle.mint_events@[i].matches_row(rows.mint_events@[i])
    &&& rows.burn_events@.len() == bundle.burn_events@.len()
    &&& forall|i: int| 0 <= i < bundle.burn_events@.len() ==> #[trigger] bundle.burn_events@[i].matches_row(rows.burn_events@[i])
    &&& rows.collect_events@.len() == bundle.collect_events@.len()
    &&& forall|i: int| 0 <= i < bundle.collect_events@.len() ==> #[trigger] bundle.collect_events@[i].matches_row(rows.collect_events@[i])
}

/// Whether every number of `bundle` fits its signed 64-bit column.
pub open spec fn bundle_fits(bundle: EventBundle) -> bool {
    &&& bundle.block.block_number <= i64::MAX && bundle.block.block_timestamp <= i64::MAX
    &&& forall|i: int| 0 <= i < bundle.transactions@.len() ==> { let t = #[trigger] bundle.transactions@[i]; t.block_number <= i64::MAX && t.transaction_index <= i64::MAX }
    &&& forall|i: int| 0 <= i < bundle.pool_create_events@.len() ==> { let t = #[trigger] bundle.pool_create_events@[i]; t.log_index <= i64::MAX }
    &&& forall|i: int| 0 <= i < bundle.swap_events@.len() ==> { let t = #[trigger] bundle.swap_events@[i]; t.log_index <= i64::MAX }
    &&& forall|i: int| 0 <= i < bundle.initialize_events@.len() ==> { let t = #[trigger] bundle.initialize_events@[i]; t.log_index <= i64::MAX }
    &&& forall|i: int| 0 <= i < bundle.mint_events@.len() ==> { let t = #[trigger] bundle.mint_events@[i]; t.log_index <= i64::MAX }
    &&& forall|i: int| 0 <= i < bundle.burn_events@.len() ==> { let t = #[trigger] bundle.burn_events@[i]; t.log_index <= i64::MAX }
    &&& forall|i: int| 0 <= i < bundle.collect_events@.len() ==> { let t = #[trigger] bundle.collect_events@[i]; t.log_index <= i64::MAX }
}

/// The storage rows of a block's bundle; fails where a number exceeds its
/// signed 64-bit column.
pub fn bundle_to_rows(bundle: &EventBundle) -> (r: Result<BlockRows, ConversionError>)
    ensures
        r is Ok <==> bundle_fits(*bundle),
        r matches Err(e) ==> e == ConversionError::OutOfRange,
        r matches Ok(rows) ==> rows_of(*bundle, rows),
{
    let block = match BlockRaw::try_from_block(bundle.block) {
        Ok(b) => b,
        Err(e) => return Err(e),
    };
    let transactions = match transactions_rows(&bundle.transactions) {
        Ok(v) => v,
        Err(e) => return Err(e),
    };
    let pool_create_events = match pool_create_events_rows(&bundle.pool_create_events) {
        Ok(v) => v,
        Err(e) => return Err(e),
    };
    let swap_events = match swap_events_rows(&bundle.swap_events) {
        Ok(v) => v,
        Err(e) => return Err(e),
    };
    let initialize_events = match initialize_events_rows(&bundle.initialize_events) {
        Ok(v) => v,
        Err(e) => return Err(e),
    };
    let mint_events = match mint_events_rows(&bundle.mint_events) {
        Ok(v) => v,
        Err(e) => return Err(e),
    };
    let burn_events = match burn_events_rows(&bundle.burn_events) {
        Ok(v) => v,
        Err(e) => return Err(e),
    };
    let collect_events = match collect_events_rows(&bundle.collect_events) {
        Ok(v) => v,
        Err(e) => return Err(e),
    };
    Ok(
        BlockRows {
            block,
            transactions,
            pool_create_events,
            swap_events,
            initialize_events,
            mint_events,
            burn_events,
            collect_events,
        },
    )
}

/// The writes of a block, in dependency order: the block, its
/// transactions, the pool creations, then swaps, initializations, mints,
/// burns and collects.
pub open spec fn plan_of(rows: BlockRows) -> Seq<RowWrite> {
    seq![RowWrite::Block(rows.block)]
        + rows.transactions@.map_values(|x: TransactionRaw| RowWrite::Transaction(x))
        + rows.pool_create_events@.map_values(|x: PoolCreateEventRaw| RowWrite::PoolCreate(x))
        + rows.swap_events@.map_values(|x: SwapEventRaw| RowWrite::Swap(x))
        + rows.initialize_events@.map_values(|x: InitializationEventRaw| RowWrite::Initialize(x))
        + rows.mint_events@.map_values(|x: MintEventRaw| RowWrite::Mint(x))
        + rows.burn_events@.map_values(|x: BurnEventRaw| RowWrite::Burn(x))
        + rows.collect_events@.map_values(|x: CollectEventRaw| RowWrite::Collect(x))
}

/// The writes of a block, in the order that keeps every reference
/// satisfied.
pub fn write_plan(rows: BlockRows) -> (plan: Vec<RowWrite>)
    ensures
        plan@ == plan_of(rows),
{
    let ghost all = rows;
    let BlockRows {
        block,
        mut transactions,
        mut pool_create_events,
        mut swap_events,
        mut initialize_events,
        mut mint_events,
        mut burn_events,
        mut collect_events,
    } = rows;
    let mut plan: Vec<RowWrite> = Vec::new();
    plan.push(RowWrite::Block(block));
    let ghost before = plan@;
    let ghost items = transactions@;
    let len = transactions.len();
    let mut k: usize = 0;
    while transactions.len() > 0
        invariant
            k + transactions@.len() == len,
            len == items.len(),
            transactions@ == items.skip(k as int),
            plan@ == before + items.take(k as int).map_values(|x: TransactionRaw| RowWrite::Transaction(x)),
        decreases transactions@.len(),
    {
        let x = transactions.remove(0);
        proof {
            assert(items.take(k + 1) == items.take(k as int).push(x));
            assert(items.take(k + 1).map_values(|x: TransactionRaw| RowWrite::Transaction(x)) == items.take(k as int).map_values(
                |x: TransactionRaw| RowWrite::Transaction(x),
            ).push(RowWrite::Transaction(x)));
            assert(items.skip(k + 1) == items.skip(k as int).drop_first());
        }
        plan.push(RowWrite::Transaction(x));
        k = k + 1;
    }
    proof {
        assert(items.take(k as int) == items);
    }
    let ghost before = plan@;
    let ghost items = pool_create_events@;
    let len = pool_create_events.len();
    let mut k: usize = 0;
    while pool_create_events.len() > 0
        invariant
            k + pool_create_events@.len() == len,
            len == items.len(),
            pool_create_events@ == items.skip(k as int),
            plan@ == before + items.take(k as int).map_values(|x: PoolCreateEventRaw| RowWrite::PoolCreate(x)),
        decreases pool_create_events@.len(),
    {
        let x = pool_create_events.remove(0);
        proof {
            assert(items.take(k + 1) == items.take(k as int).push(x));
            assert(items.take(k + 1).map_values(|x: PoolCreateEventRaw| RowWrite::PoolCreate(x)) == items.take(k as int).map_values(
                |x: PoolCreateEventRaw| RowWrite::PoolCreate(x),
            ).push(RowWrite::PoolCreate(x)));
            assert(items.skip(k + 1) == items.skip(k as int).drop_first());
        }
        plan.push(RowWrite::PoolCreate(x));
        k = k + 1;
    }
    proof {
        assert(items.take(k as int) == items);
    }
    let ghost before = plan@;
    let ghost items = swap_events@;
    let len = swap_events.len();
    let mut k: usize = 0;
    while swap_events.len() > 0
        invariant
            k + swap_events@.len() == len,
            len == items.len(),
            swap_events@ == items.skip(k as int),
            plan@ == before + items.take(k as int).map_values(|x: SwapEventRaw| RowWrite::Swap(x)),
        decreases swap_events@.len(),
    {
        let x = swap_events.remove(0);
        proof {
            assert(items.take(k + 1) == items.take(k as int).push(x));
            assert(items.take(k + 1).map_values(|x: SwapEventRaw| RowWrite::Swap(x)) == items.take(k as int).map_values(
                |x: SwapEventRaw| RowWrite::Swap(x),
            ).push(RowWrite::Swap(x)));
            assert(items.skip(k + 1) == items.skip(k as int).drop_first());
        }
        plan.push(RowWrite::Swap(x));
        k = k + 1;
    }
    proof {
        assert(items.take(k as int) == items);
    }
    let ghost before = plan@;
    let ghost items = initialize_events@;
    let len = initialize_events.len();
    let mut k: usize = 0;
    while initialize_events.len() > 0
        invariant
            k + initialize_events@.len() == len,
            len == items.len(),
            initialize_events@ == items.skip(k as int),
            plan@ == before + items.take(k as int).map_values(|x: InitializationEventRaw| RowWrite::Initialize(x)),
        decreases initialize_events@.len(),
    {
        let x = initialize_events.remove(0);
        proof {
            assert(items.take(k + 1) == items.take(k as int).push(x));
            assert(items.take(k + 1).map_values(|x: InitializationEventRaw| RowWrite::Initialize(x)) == items.take(k as int).map_values(
                |x: InitializationEventRaw| RowWrite::Initialize(x),
            ).push(RowWrite::Initialize(x)));
            assert(items.skip(k + 1) == items.skip(k as int).drop_first());
        }
        plan.push(RowWrite::Initialize(x));
        k = k + 1;
    }
    proof {
        assert(items.take(k as int) == items);
    }
    let ghost before = plan@;
    let ghost items = mint_events@;
    let len = mint_events.len();
    let mut k: usize = 0;
    while mint_events.len() > 0
        invariant
            k + mint_events@.len() == len,
            len == items.len(),
            mint_events@ == items.skip(k as int),
            plan@ == before + items.take(k as int).map_values(|x: MintEventRaw| RowWrite::Mint(x)),
        decreases mint_events@.len(),
    {
        let x = mint_events.remove(0);
        proof {
            assert(items.take(k + 1) == items.take(k as int).push(x));
            assert(items.take(k + 1).map_values(|x: MintEventRaw| RowWrite::Mint(x)) == items.take(k as int).map_values(
                |x: MintEventRaw| RowWrite::Mint(x),
            ).push(RowWrite::Mint(x)));
            assert(items.skip(k + 1) == items.skip(k as int).drop_first());
        }
        plan.push(RowWrite::Mint(x));
        k = k + 1;
    }
    proof {
        assert(items.take(k as int) == items);
    }
    let ghost before = plan@;
    let ghost items = burn_events@;
    let len = burn_events.len();
    let mut k: usize = 0;
    while burn_events.len() > 0
        invariant
            k + burn_events@.len() == len,
            len == items.len(),
            burn_events@ == items.skip(k as int),
            plan@ == before + items.take(k as int).map_values(|x: BurnEventRaw| RowWrite::Burn(x)),
        decreases burn_events@.len(),
    {
        let x = burn_events.remove(0);
        proof {
            assert(items.take(k + 1) == items.take(k as int).push(x));
            assert(items.take(k + 1).map_values(|x: BurnEventRaw| RowWrite::Burn(x)) == items.take(k as int).map_values(
                |x: BurnEventRaw| RowWrite::Burn(x),
            ).push(RowWrite::Burn(x)));
            assert(items.skip(k + 1) == items.skip(k as int).drop_first());
        }
        plan.push(RowWrite::Burn(x));
        k = k + 1;
    }
    proof {
        assert(items.take(k as int) == items);
    }
    let ghost before = plan@;
    let ghost items = collect_events@;
    let len = collect_events.len();
    let mut k: usize = 0;
    while collect_events.len() > 0
        invariant
            k + collect_events@.len() == len,
            len == items.len(),
            collect_events@ == items.skip(k as int),
            plan@ == before + items.take(k as int).map_values(|x: CollectEventRaw| RowWrite::Collect(x)),
        decreases collect_events@.len(),
    {
        let x = collect_events.remove(0);
        proof {
            assert(items.take(k + 1) == items.take(k as int).push(x));
            assert(items.take(k + 1).map_values(|x: CollectEventRaw| RowWrite::Collect(x)) == items.take(k as int).map_values(
                |x: CollectEventRaw| RowWrite::Collect(x),
            ).push(RowWrite::Collect(x)));
            assert(items.skip(k + 1) == items.skip(k as int).drop_first());
        }
        plan.push(RowWrite::Collect(x));
        k = k + 1;
    }
    proof {
        assert(items.take(k as int) == items);
    }
    proof {
        assert(plan@ == plan_of(all));
    }
    plan
}

/// The natural key of a row: its table, then its hash and number columns.
pub open spec fn row_key(w: RowWrite) -> (int, Seq<u8>, int) {
    match w {
        RowWrite::Block(x) => (0, Seq::empty(), x.block_number as int),
        RowWrite::Transaction(x) => (1, x.transaction_hash@, 0),
        RowWrite::PoolCreate(x) => (2, x.transaction_hash@, x.log_index as int),
        RowWrite::Swap(x) => (3, x.transaction_hash@, x.log_index as int),
        RowWrite::Initialize(x) => (4, x.transaction_hash@, x.log_index as int),
        RowWrite::Mint(x) => (5, x.transaction_hash@, x.log_index as int),
        RowWrite::Burn(x) => (6, x.transaction_hash@, x.log_index as int),
        RowWrite::Collect(x) => (7, x.transaction_hash@, x.log_index as int),
    }
}

/// Whether two writes address the same row.
pub fn same_key(a: &RowWrite, b: &RowWrite) -> (r: bool)
    ensures
        r == (row_key(*a) == row_key(*b)),
{
    match (a, b) {
        (RowWrite::Block(x), RowWrite::Block(y)) => x.block_number == y.block_number,
        (RowWrite::Transaction(x), RowWrite::Transaction(y)) => bytes_equal(&x.transaction_hash, &y.transaction_hash),
        (RowWrite::PoolCreate(x), RowWrite::PoolCreate(y)) => x.log_index == y.log_index && bytes_equal(&x.transaction_hash, &y.transaction_hash),
        (RowWrite::Swap(x), RowWrite::Swap(y)) => x.log_index == y.log_index && bytes_equal(&x.transaction_hash, &y.transaction_hash),
        (RowWrite::Initialize(x), RowWrite::Initialize(y)) => x.log_index == y.log_index && bytes_equal(&x.transaction_hash, &y.transaction_hash),
        (RowWrite::Mint(x), RowWrite::Mint(y)) => x.log_index == y.log_index && bytes_equal(&x.transaction_hash, &y.transaction_hash),
        (RowWrite::Burn(x), RowWrite::Burn(y)) => x.log_index == y.log_index && bytes_equal(&x.transaction_hash, &y.transaction_hash),
        (RowWrite::Collect(x), RowWrite::Collect(y)) => x.log_index == y.log_index && bytes_equal(&x.transaction_hash, &y.transaction_hash),
        _ => false,
    }
}


/// Whether the table contents `st` hold a row with key `k`.
pub open spec fn has_key(st: Seq<RowWrite>, k: (int, Seq<u8>, int)) -> bool {
    exists|i: int| 0 <= i < st.len() && row_key(#[trigger] st[i]) == k
}

/// Inserts `w` unless a row with its key exists.
pub open spec fn apply_write(st: Seq<RowWrite>, w: RowWrite) -> Seq<RowWrite> {
    if has_key(st, row_key(w)) {
        st
    } else {
        st.push(w)
    }
}

/// Applies the writes of `ws` in order.
pub open spec fn apply_plan(st: Seq<RowWrite>, ws: Seq<RowWrite>) -> Seq<RowWrite>
    decreases ws.len(),
{
    if ws.len() == 0 {
        st
    } else {
        apply_write(apply_plan(st, ws.drop_last()), ws.last())
    }
}

proof fn lemma_apply_plan_extends(st: Seq<RowWrite>, ws: Seq<RowWrite>)
    ensures
        st.is_prefix_of(apply_plan(st, ws)),
    decreases ws.len(),
{
    if ws.len() > 0 {
        lemma_apply_plan_extends(st, ws.drop_last());
    } else {
        assert(st.is_prefix_of(st));
    }
}

proof fn lemma_apply_plan_covers(st: Seq<RowWrite>, ws: Seq<RowWrite>)
    ensures
        forall|j: int| 0 <= j < ws.len() ==> has_key(apply_plan(st, ws), row_key(#[trigger] ws[j])),
    decreases ws.len(),
{
    if ws.len() > 0 {
        let prev = apply_plan(st, ws.drop_last());
        lemma_apply_plan_covers(st, ws.drop_last());
        let cur = apply_plan(st, ws);
        assert(prev.is_prefix_of(cur));
        assert forall|j: int| 0 <= j < ws.len() implies has_key(cur, row_key(#[trigger] ws[j])) by {
            if j < ws.len() - 1 {
                assert(ws.drop_last()[j] == ws[j]);
                let i = choose|i: int| 0 <= i < prev.len() && row_key(#[trigger] prev[i]) == row_key(ws[j]);
                assert(cur[i] == prev[i]);
            } else if !has_key(prev, row_key(ws.last())) {
                assert(cur[prev.len() as int] == ws.last());
            }
        }
    }
}

proof fn lemma_apply_plan_noop(st: Seq<RowWrite>, ws: Seq<RowWrite>)
    requires
        forall|j: int| 0 <= j < ws.len() ==> has_key(st, row_key(#[trigger] ws[j])),
    ensures
        apply_plan(st, ws) == st,
    decreases ws.len(),
{
    if ws.len() > 0 {
        assert forall|j: int| 0 <= j < ws.drop_last().len() implies has_key(st, row_key(#[trigger] ws.drop_last()[j])) by {
            assert(ws.drop_last()[j] == ws[j]);
        }
        lemma_apply_plan_noop(st, ws.drop_last());
        assert(has_key(st, row_key(ws[ws.len() - 1])));
    }
}

/// Lemma: applying a write plan a second time leaves the tables as the first
/// application left them; no write fails.
pub proof fn lemma_persist_idempotent(st: Seq<RowWrite>, ws: Seq<RowWrite>)
    ensures
        apply_plan(apply_plan(st, ws), ws) == apply_plan(st, ws),
{
    lemma_apply_plan_covers(st, ws);
    lemma_apply_plan_noop(apply_plan(st, ws), ws);
}

/// Lemma: applying a plan keeps every row already stored and leaves a row
/// under the key of every write.
pub proof fn lemma_persist_keeps_and_covers(st: Seq<RowWrite>, ws: Seq<RowWrite>)
    ensures
        st.is_prefix_of(apply_plan(st, ws)),
        forall|j: int| 0 <= j < ws.len() ==> has_key(apply_plan(st, ws), row_key(#[trigger] ws[j])),
{
    lemma_apply_plan_extends(st, ws);
    lemma_apply_plan_covers(st, ws);
}

/// Tables held in memory, with the insert-if-absent semantics of the store.
#[derive(Debug)]
pub struct MemoryStore {
    rows: Vec<RowWrite>,
}

impl View for MemoryStore {
    type V = Seq<RowWrite>;

    closed spec fn view(&self) -> Seq<RowWrite> {
        self.rows@
    }
}

impl MemoryStore {
    pub fn new() -> (r: MemoryStore)
        ensures
            r@ == Seq::<RowWrite>::empty(),
    {
        MemoryStore { rows: Vec::new() }
    }

    /// The stored rows, in order of insertion.
    pub fn rows(&self) -> (r: &Vec<RowWrite>)
        ensures
            r@ == self@,
    {
        &self.rows
    }

    fn contains_key(&self, w: &RowWrite) -> (r: bool)
        ensures
            r == has_key(self@, row_key(*w)),
    {
        let mut i: usize = 0;
        while i < self.rows.len()
            invariant
                i <= self.rows.len(),
                forall|j: int| 0 <= j < i ==> row_key(#[trigger] self.rows@[j]) != row_key(*w),
            decreases self.rows.len() - i,
        {
            if same_key(&self.rows[i], w) {
                return true;
            }
            i = i + 1;
        }
        false
    }

    /// Applies the writes of `plan` in order, each inserting its row unless
    /// one with the same key is stored.
    pub fn apply(&mut self, plan: Vec<RowWrite>)
        ensures
            final(self)@ == apply_plan(old(self)@, plan@),
    {
        let ghost all = plan@;
        let mut plan = plan;
        let len = plan.len();
        let mut k: usize = 0;
        while plan.len() > 0
            invariant
                k + plan@.len() == len,
                len == all.len(),
                plan@ == all.skip(k as int),
                self@ == apply_plan(old(self)@, all.take(k as int)),
            decreases plan@.len(),
        {
            let w = plan.remove(0);
            proof {
                assert(all.take(k + 1).drop_last() == all.take(k as int));
                assert(all.take(k + 1).last() == w);
                assert(all.skip(k + 1) == all.skip(k as int).drop_first());
            }
            if !self.contains_key(&w) {
                self.rows.push(w);
            }
            k = k + 1;
        }
        proof {
            assert(all.take(k as int) == all);
        }
    }
}

} // verus!
