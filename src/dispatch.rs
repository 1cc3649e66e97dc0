//! Dispatch of one block's receipts: pre-filtering, signature lookup,
//! decoding, membership gating, growth of the pool registry, and assembly of
//! the block's event bundle.

use vstd::prelude::*;
use crate::abi::{
    burn_spec, collect_spec, decode_burn, decode_collect, decode_initialize, decode_mint,
    decode_pool_created, decode_swap, initialize_spec, mint_spec, pool_created_spec, swap_spec,
};
use crate::chain::{BlockHeader, EventKind, EventSignatures, LogEntry, Receipt};
use crate::primitives::Address;
use crate::records::{
    Block, BurnEvent, CollectEvent, InitializationEvent, MintEvent, MissingField, PoolCreateEvent,
    SwapEvent, Transaction,
};
use crate::registry::{address_listed, PoolRegistry};

verus! {

/// The events accepted from one block, with the transactions that carried
/// them (one record per transaction hash, in order of first acceptance).
#[derive(Debug)]
pub struct EventBundle {
    pub block: Block,
    pub transactions: Vec<Transaction>,
    pub pool_create_events: Vec<PoolCreateEvent>,
    pub swap_events: Vec<SwapEvent>,
    pub initialize_events: Vec<InitializationEvent>,
    pub mint_events: Vec<MintEvent>,
    pub burn_events: Vec<BurnEvent>,
    pub collect_events: Vec<CollectEvent>,
}

/// What dispatch has accumulated: the tracked pools and the accepted records.
pub struct DispatchState {
    pub pools: Set<Address>,
    pub transactions: Seq<Transaction>,
    pub pool_creates: Seq<PoolCreateEvent>,
    pub swaps: Seq<SwapEvent>,
    pub initializes: Seq<InitializationEvent>,
    pub mints: Seq<MintEvent>,
    pub burns: Seq<BurnEvent>,
    pub collects: Seq<CollectEvent>,
}

/// The fixed inputs of dispatch: the factory, the deployer allow-list and the
/// signature table.
pub struct DispatchRules {
    pub factory: Address,
    pub deployers: Seq<Address>,
    pub signatures: EventSignatures,
}

pub open spec fn rules_of(factory: Address, deployers: Seq<Address>, signatures: EventSignatures) -> DispatchRules {
    DispatchRules { factory, deployers, signatures }
}

pub open spec fn initial_state(pools: Set<Address>) -> DispatchState {
    DispatchState {
        pools,
        transactions: Seq::empty(),
        pool_creates: Seq::empty(),
        swaps: Seq::empty(),
        initializes: Seq::empty(),
        mints: Seq::empty(),
        burns: Seq::empty(),
        collects: Seq::empty(),
    }
}

/// `txs` with `t` appended, unless a record with its hash is already there.
pub open spec fn add_transaction(txs: Seq<Transaction>, t: Transaction) -> Seq<Transaction> {
    if exists|i: int| 0 <= i < txs.len() && txs[i].transaction_hash == t.transaction_hash {
        txs
    } else {
        txs.push(t)
    }
}

/// Records the transaction of an accepted log; fails where the log lacks a
/// field that the record needs.
pub open spec fn with_transaction(s: DispatchState, sender: Address, log: LogEntry) -> Result<DispatchState, MissingField> {
    match Transaction::from_log_spec(sender, log) {
        Ok(t) => Ok(DispatchState { transactions: add_transaction(s.transactions, t), ..s }),
        Err(e) => Err(e),
    }
}

/// A pool-created log counts only if the factory emitted it and the
/// transaction was sent to an allow-listed deployer.
pub open spec fn pool_created_gate(r: Receipt, log: LogEntry, rules: DispatchRules) -> bool {
    log.address == rules.factory && r.to is Some && rules.deployers.contains(r.to.unwrap())
}

/// The effect of a log whose first topic is the pool-created signature.
pub open spec fn pool_created_step(s: DispatchState, r: Receipt, log: LogEntry, rules: DispatchRules) -> Result<DispatchState, MissingField> {
    match pool_created_spec(log.topics@, log.data@) {
        None => Ok(s),
        Some(f) => if !pool_created_gate(r, log, rules) {
            Ok(s)
        } else {
            match with_transaction(s, r.from, log) {
                Err(e) => Err(e),
                Ok(s1) => match PoolCreateEvent::from_log_spec(log, f) {
                    Err(e) => Err(e),
                    Ok(ev) => Ok(
                        DispatchState {
                            pools: s1.pools.insert(ev.pool),
                            pool_creates: s1.pool_creates.push(ev),
                            ..s1
                        },
                    ),
                },
            }
        },
    }
}

/// The effect of a log whose first topic is the initialize signature.
pub open spec fn initialize_step(s: DispatchState, r: Receipt, log: LogEntry, rules: DispatchRules) -> Result<DispatchState, MissingField> {
    match initialize_spec(log.topics@, log.data@) {
        None => Ok(s),
        Some(f) => if !s.pools.contains(log.address) {
            Ok(s)
        } else {
            match with_transaction(s, r.from, log) {
                Err(e) => Err(e),
                Ok(s1) => match InitializationEvent::from_log_spec(log, f, r.from) {
                    Err(e) => Err(e),
                    Ok(ev) => Ok(DispatchState { initializes: s1.initializes.push(ev), ..s1 }),
                },
            }
        },
    }
}

/// The effect of a log whose first topic is the swap signature.
pub open spec fn swap_step(s: DispatchState, r: Receipt, log: LogEntry, rules: DispatchRules) -> Result<DispatchState, MissingField> {
    match swap_spec(log.topics@, log.data@) {
        None => Ok(s),
        Some(f) => if !s.pools.contains(log.address) {
            Ok(s)
        } else {
            match with_transaction(s, r.from, log) {
                Err(e) => Err(e),
                Ok(s1) => match SwapEvent::from_log_spec(log, f) {
                    Err(e) => Err(e),
                    Ok(ev) => Ok(DispatchState { swaps: s1.swaps.push(ev), ..s1 }),
                },
            }
        },
    }
}

/// The effect of a log whose first topic is the mint signature.
pub open spec fn mint_step(s: DispatchState, r: Receipt, log: LogEntry, rules: DispatchRules) -> Result<DispatchState, MissingField> {
    match mint_spec(log.topics@, log.data@) {
        None => Ok(s),
        Some(f) => if !s.pools.contains(log.address) {
            Ok(s)
        } else {
            match with_transaction(s, r.from, log) {
                Err(e) => Err(e),
                Ok(s1) => match MintEvent::from_log_spec(log, f) {
                    Err(e) => Err(e),
                    Ok(ev) => Ok(DispatchState { mints: s1.mints.push(ev), ..s1 }),
                },
            }
        },
    }
}

/// The effect of a log whose first topic is the burn signature.
pub open spec fn burn_step(s: DispatchState, r: Receipt, log: LogEntry, rules: DispatchRules) -> Result<DispatchState, MissingField> {
    match burn_spec(log.topics@, log.data@) {
        None => Ok(s),
        Some(f) => if !s.pools.contains(log.address) {
            Ok(s)
        } else {
            match with_transaction(s, r.from, log) {
                Err(e) => Err(e),
                Ok(s1) => match BurnEvent::from_log_spec(log, f) {
                    Err(e) => Err(e),
                    Ok(ev) => Ok(DispatchState { burns: s1.burns.push(ev), ..s1 }),
                },
            }
        },
    }
}

/// The effect of a log whose first topic is the collect signature.
pub open spec fn collect_step(s: DispatchState, r: Receipt, log: LogEntry, rules: DispatchRules) -> Result<DispatchState, MissingField> {
    match collect_spec(log.topics@, log.data@) {
        None => Ok(s),
        Some(f) => if !s.pools.contains(log.address) {
            Ok(s)
        } else {
            match with_transaction(s, r.from, log) {
                Err(e) => Err(e),
                Ok(s1) => match CollectEvent::from_log_spec(log, f) {
                    Err(e) => Err(e),
                    Ok(ev) => Ok(DispatchState { collects: s1.collects.push(ev), ..s1 }),
                },
            }
        },
    }
}

/// The effect of one log of receipt `r`.
pub open spec fn log_step(s: DispatchState, r: Receipt, log: LogEntry, rules: DispatchRules) -> Result<DispatchState, MissingField> {
    let topics = log.topics@;
    if topics.len() == 0 || topics.len() > 4 {
        Ok(s)
    } else {
        match rules.signatures.kind_spec(topics[0]) {
            None => Ok(s),
            Some(EventKind::PoolCreated) => pool_created_step(s, r, log, rules),
            Some(EventKind::Initialize) => initialize_step(s, r, log, rules),
            Some(EventKind::Swap) => swap_step(s, r, log, rules),
            Some(EventKind::Mint) => mint_step(s, r, log, rules),
            Some(EventKind::Burn) => burn_step(s, r, log, rules),
            Some(EventKind::Collect) => collect_step(s, r, log, rules),
        }
    }
}

/// The effect of the logs `logs` of receipt `r`, in order, stopping at the
/// first failure.
pub open spec fn logs_fold(s: Result<DispatchState, MissingField>, r: Receipt, logs: Seq<LogEntry>, rules: DispatchRules) -> Result<DispatchState, MissingField>
    decreases logs.len(),
{
    if logs.len() == 0 {
        s
    } else {
        match logs_fold(s, r, logs.drop_last(), rules) {
            Ok(st) => log_step(st, r, logs.last(), rules),
            Err(e) => Err(e),
        }
    }
}

/// Whether a receipt has a log from a pool in `pools` or from the factory.
pub open spec fn relevant(r: Receipt, pools: Set<Address>, factory: Address) -> bool {
    exists|j: int|
        0 <= j < r.logs@.len() && (pools.contains(#[trigger] r.logs@[j].address) || r.logs@[j].address
            == factory)
}

/// The effect of `receipts`, in order, skipping those that are not relevant
/// to the pools tracked at the start of the block.
pub open spec fn receipts_fold(s: Result<DispatchState, MissingField>, receipts: Seq<Receipt>, pools0: Set<Address>, rules: DispatchRules) -> Result<DispatchState, MissingField>
    decreases receipts.len(),
{
    if receipts.len() == 0 {
        s
    } else {
        let prev = receipts_fold(s, receipts.drop_last(), pools0, rules);
        let r = receipts.last();
        if relevant(r, pools0, rules.factory) {
            match prev {
                Ok(st) => logs_fold(Ok(st), r, r.logs@, rules),
                Err(e) => Err(e),
            }
        } else {
            prev
        }
    }
}

/// The outcome of dispatching a block's receipts against the registry `pools`.
pub open spec fn dispatch_spec(receipts: Seq<Receipt>, pools: Set<Address>, rules: DispatchRules) -> Result<DispatchState, MissingField> {
    receipts_fold(Ok(initial_state(pools)), receipts, pools, rules)
}

impl EventBundle {
    /// Whether the bundle holds exactly the records of `s`.
    pub open spec fn holds(&self, s: DispatchState) -> bool {
        &&& self.transactions@ == s.transactions
        &&& self.pool_create_events@ == s.pool_creates
        &&& self.swap_events@ == s.swaps
        &&& self.initialize_events@ == s.initializes
        &&& self.mint_events@ == s.mints
        &&& self.burn_events@ == s.burns
        &&& self.collect_events@ == s.collects
    }

    /// Whether the bundle holds any event; a bundle without events is not
    /// written.
    pub fn has_events(&self) -> (r: bool)
        ensures
            r == (self.pool_create_events@.len() > 0 || self.swap_events@.len() > 0
                || self.initialize_events@.len() > 0 || self.mint_events@.len() > 0
                || self.burn_events@.len() > 0 || self.collect_events@.len() > 0),
    {
        self.pool_create_events.len() > 0 || self.swap_events.len() > 0
            || self.initialize_events.len() > 0 || self.mint_events.len() > 0
            || self.burn_events.len() > 0 || self.collect_events.len() > 0
    }
}

struct Builder {
    pools: PoolRegistry,
    transactions: Vec<Transaction>,
    pool_creates: Vec<PoolCreateEvent>,
    swaps: Vec<SwapEvent>,
    initializes: Vec<InitializationEvent>,
    mints: Vec<MintEvent>,
    burns: Vec<BurnEvent>,
    collects: Vec<CollectEvent>,
}

impl Builder {
    spec fn model(&self) -> DispatchState {
        DispatchState {
            pools: self.pools@,
            transactions: self.transactions@,
            pool_creates: self.pool_creates@,
            swaps: self.swaps@,
            initializes: self.initializes@,
            mints: self.mints@,
            burns: self.burns@,
            collects: self.collects@,
        }
    }
}

fn push_transaction(txs: &mut Vec<Transaction>, t: Transaction)
    ensures
        final(txs)@ == add_transaction(old(txs)@, t),
{
    let mut i: usize = 0;
    while i < txs.len()
        invariant
            i <= txs.len(),
            forall|j: int| 0 <= j < i ==> txs@[j].transaction_hash != t.transaction_hash,
        decreases txs.len() - i,
    {
        if txs[i].transaction_hash == t.transaction_hash {
            return;
        }
        i = i + 1;
    }
    txs.push(t);
}

fn record_transaction(b: &mut Builder, sender: Address, log: &LogEntry) -> (r: Result<(), MissingField>)
    ensures
        match with_transaction(old(b).model(), sender, *log) {
            Ok(s) => r is Ok && final(b).model() == s,
            Err(e) => r == Err::<(), MissingField>(e),
        },
{
    match Transaction::new(sender, log) {
        Ok(t) => {
            push_transaction(&mut b.transactions, t);
            Ok(())
        },
        Err(e) => Err(e),
    }
}

fn process_pool_created(
    b: &mut Builder,
    r: &Receipt,
    log: &LogEntry,
    factory: Address,
    deployers: &Vec<Address>,
    signatures: &EventSignatures,
) -> (res: Result<(), MissingField>)
    ensures
        match pool_created_step(old(b).model(), *r, *log, rules_of(factory, deployers@, *signatures)) {
            Ok(s) => res is Ok && final(b).model() == s,
            Err(e) => res == Err::<(), MissingField>(e),
        },
{
    match decode_pool_created(&log.topics, &log.data) {
        None => Ok(()),
        Some(f) => {
        let allowed = log.address == factory && match r.to {
            Some(to) => address_listed(deployers, to),
            None => false,
        };
        if !allowed {
            return Ok(());
        }
            match record_transaction(b, r.from, log) {
                Ok(()) => {},
                Err(e) => return Err(e),
            }
            match PoolCreateEvent::new(log, f) {
                Ok(ev) => {
            b.pools.insert(ev.pool);
            b.pool_creates.push(ev);
                    Ok(())
                },
                Err(e) => Err(e),
            }
        },
    }
}

fn process_initialize(
    b: &mut Builder,
    r: &Receipt,
    log: &LogEntry,
    factory: Address,
    deployers: &Vec<Address>,
    signatures: &EventSignatures,
) -> (res: Result<(), MissingField>)
    ensures
        match initialize_step(old(b).model(), *r, *log, rules_of(factory, deployers@, *signatures)) {
            Ok(s) => res is Ok && final(b).model() == s,
            Err(e) => res == Err::<(), MissingField>(e),
        },
{
    match decode_initialize(&log.topics, &log.data) {
        None => Ok(()),
        Some(f) => {
        if !b.pools.contains(log.address) {
            return Ok(());
        }
            match record_transaction(b, r.from, log) {
                Ok(()) => {},
                Err(e) => return Err(e),
            }
            match InitializationEvent::new(log, f, r.from) {
                Ok(ev) => {
            b.initializes.push(ev);
                    Ok(())
                },
                Err(e) => Err(e),
            }
        },
    }
}

fn process_swap(
    b: &mut Builder,
    r: &Receipt,
    log: &LogEntry,
    factory: Address,
    deployers: &Vec<Address>,
    signatures: &EventSignatures,
) -> (res: Result<(), MissingField>)
    ensures
        match swap_step(old(b).model(), *r, *log, rules_of(factory, deployers@, *signatures)) {
            Ok(s) => res is Ok && final(b).model() == s,
            Err(e) => res == Err::<(), MissingField>(e),
        },
{
    match decode_swap(&log.topics, &log.data) {
        None => Ok(()),
        Some(f) => {
        if !b.pools.contains(log.address) {
            return Ok(());
        }
            match record_transaction(b, r.from, log) {
                Ok(()) => {},
                Err(e) => return Err(e),
            }
            match SwapEvent::new(log, f) {
                Ok(ev) => {
            b.swaps.push(ev);
                    Ok(())
                },
                Err(e) => Err(e),
            }
        },
    }
}

fn process_mint(
    b: &mut Builder,
    r: &Receipt,
    log: &LogEntry,
    factory: Address,
    deployers: &Vec<Address>,
    signatures: &EventSignatures,
) -> (res: Result<(), MissingField>)
    ensures
        match mint_step(old(b).model(), *r, *log, rules_of(factory, deployers@, *signatures)) {
            Ok(s) => res is Ok && final(b).model() == s,
            Err(e) => res == Err::<(), MissingField>(e),
        },
{
    match decode_mint(&log.topics, &log.data) {
        None => Ok(()),
        Some(f) => {
        if !b.pools.contains(log.address) {
            return Ok(());
        }
            match record_transaction(b, r.from, log) {
                Ok(()) => {},
                Err(e) => return Err(e),
            }
            match MintEvent::new(log, f) {
                Ok(ev) => {
            b.mints.push(ev);
                    Ok(())
                },
                Err(e) => Err(e),
            }
        },
    }
}

fn process_burn(
    b: &mut Builder,
    r: &Receipt,
    log: &LogEntry,
    factory: Address,
    deployers: &Vec<Address>,
    signatures: &EventSignatures,
) -> (res: Result<(), MissingField>)
    ensures
        match burn_step(old(b).model(), *r, *log, rules_of(factory, deployers@, *signatures)) {
            Ok(s) => res is Ok && final(b).model() == s,
            Err(e) => res == Err::<(), MissingField>(e),
        },
{
    match decode_burn(&log.topics, &log.data) {
        None => Ok(()),
        Some(f) => {
        if !b.pools.contains(log.address) {
            return Ok(());
        }
            match record_transaction(b, r.from, log) {
                Ok(()) => {},
                Err(e) => return Err(e),
            }
            match BurnEvent::new(log, f) {
                Ok(ev) => {
            b.burns.push(ev);
                    Ok(())
                },
                Err(e) => Err(e),
            }
        },
    }
}

fn process_collect(
    b: &mut Builder,
    r: &Receipt,
    log: &LogEntry,
    factory: Address,
    deployers: &Vec<Address>,
    signatures: &EventSignatures,
) -> (res: Result<(), MissingField>)
    ensures
        match collect_step(old(b).model(), *r, *log, rules_of(factory, deployers@, *signatures)) {
            Ok(s) => res is Ok && final(b).model() == s,
            Err(e) => res == Err::<(), MissingField>(e),
        },
{
    match decode_collect(&log.topics, &log.data) {
        None => Ok(()),
        Some(f) => {
        if !b.pools.contains(log.address) {
            return Ok(());
        }
            match record_transaction(b, r.from, log) {
                Ok(()) => {},
                Err(e) => return Err(e),
            }
            match CollectEvent::new(log, f) {
                Ok(ev) => {
            b.collects.push(ev);
                    Ok(())
                },
                Err(e) => Err(e),
            }
        },
    }
}

fn process_log(
    b: &mut Builder,
    r: &Receipt,
    log: &LogEntry,
    factory: Address,
    deployers: &Vec<Address>,
    signatures: &EventSignatures,
) -> (res: Result<(), MissingField>)
    ensures
        match log_step(old(b).model(), *r, *log, rules_of(factory, deployers@, *signatures)) {
            Ok(s) => res is Ok && final(b).model() == s,
            Err(e) => res == Err::<(), MissingField>(e),
        },
{
    if log.topics.len() == 0 || log.topics.len() > 4 {
        return Ok(());
    }
    match signatures.kind_of(log.topics[0]) {
        None => Ok(()),
        Some(EventKind::PoolCreated) => process_pool_created(b, r, log, factory, deployers, signatures),
        Some(EventKind::Initialize) => process_initialize(b, r, log, factory, deployers, signatures),
        Some(EventKind::Swap) => process_swap(b, r, log, factory, deployers, signatures),
        Some(EventKind::Mint) => process_mint(b, r, log, factory, deployers, signatures),
        Some(EventKind::Burn) => process_burn(b, r, log, factory, deployers, signatures),
        Some(EventKind::Collect) => process_collect(b, r, log, factory, deployers, signatures),
    }
}

proof fn lemma_logs_fold_stays_failed(s: Result<DispatchState, MissingField>, r: Receipt, logs: Seq<LogEntry>, k: int, rules: DispatchRules)
    requires
        0 <= k <= logs.len(),
        logs_fold(s, r, logs.take(k), rules) is Err,
    ensures
        logs_fold(s, r, logs, rules) == logs_fold(s, r, logs.take(k), rules),
    decreases logs.len(),
{
    if logs.len() > k {
        assert(logs.drop_last().take(k) == logs.take(k));
        lemma_logs_fold_stays_failed(s, r, logs.drop_last(), k, rules);
    } else {
        assert(logs.take(k) == logs);
    }
}

proof fn lemma_receipts_fold_stays_failed(s: Result<DispatchState, MissingField>, receipts: Seq<Receipt>, pools0: Set<Address>, k: int, rules: DispatchRules)
    requires
        0 <= k <= receipts.len(),
        receipts_fold(s, receipts.take(k), pools0, rules) is Err,
    ensures
        receipts_fold(s, receipts, pools0, rules) == receipts_fold(s, receipts.take(k), pools0, rules),
    decreases receipts.len(),
{
    if receipts.len() > k {
        assert(receipts.drop_last().take(k) == receipts.take(k));
        lemma_receipts_fold_stays_failed(s, receipts.drop_last(), pools0, k, rules);
    } else {
        assert(receipts.take(k) == receipts);
    }
}

fn receipt_relevant(r: &Receipt, registry: &PoolRegistry, factory: Address) -> (res: bool)
    ensures
        res == relevant(*r, registry@, factory),
{
    let mut j: usize = 0;
    while j < r.logs.len()
        invariant
            j <= r.logs.len(),
            forall|k: int|
                0 <= k < j ==> !(registry@.contains(#[trigger] r.logs@[k].address) || r.logs@[k].address
                    == factory),
        decreases r.logs.len() - j,
    {
        let a = r.logs[j].address;
        if registry.contains(a) || a == factory {
            return true;
        }
        j = j + 1;
    }
    false
}

fn process_receipt(
    b: &mut Builder,
    r: &Receipt,
    factory: Address,
    deployers: &Vec<Address>,
    signatures: &EventSignatures,
) -> (res: Result<(), MissingField>)
    ensures
        match logs_fold(Ok(old(b).model()), *r, r.logs@, rules_of(factory, deployers@, *signatures)) {
            Ok(s) => res is Ok && final(b).model() == s,
            Err(e) => res == Err::<(), MissingField>(e),
        },
{
    let ghost rules = rules_of(factory, deployers@, *signatures);
    let ghost s0 = b.model();
    let mut j: usize = 0;
    while j < r.logs.len()
        invariant
            j <= r.logs.len(),
            rules == rules_of(factory, deployers@, *signatures),
            s0 == old(b).model(),
            logs_fold(Ok(s0), *r, r.logs@.take(j as int), rules) == Ok::<DispatchState, MissingField>(b.model()),
        decreases r.logs.len() - j,
    {
        let ghost before = b.model();
        let res = process_log(b, r, &r.logs[j], factory, deployers, signatures);
        proof {
            let pre = r.logs@.take(j as int);
            assert(r.logs@.take(j + 1).drop_last() == pre);
            assert(r.logs@.take(j + 1).last() == r.logs@[j as int]);
            assert(logs_fold(Ok(s0), *r, r.logs@.take(j + 1), rules) == log_step(before, *r, r.logs@[j as int], rules));
        }
        match res {
            Ok(()) => {},
            Err(e) => {
                proof {
                    lemma_logs_fold_stays_failed(Ok(s0), *r, r.logs@, j + 1, rules);
                }
                return Err(e);
            },
        }
        j = j + 1;
    }
    proof {
        assert(r.logs@.take(r.logs.len() as int) == r.logs@);
    }
    Ok(())
}

/// Dispatches one block: keeps the receipts that have a log from a tracked
/// pool or from the factory, decodes their logs, accepts events by the
/// gating rules, grows the registry with accepted pool creations, and
/// assembles the bundle. A log that lacks a required field fails the whole
/// block and leaves the registry as it was.
pub fn dispatch_block(
    receipts: &Vec<Receipt>,
    header: &BlockHeader,
    registry: &mut PoolRegistry,
    factory: Address,
    deployers: &Vec<Address>,
    signatures: &EventSignatures,
) -> (r: Result<EventBundle, MissingField>)
    ensures
        dispatch_spec(receipts@, old(registry)@, rules_of(factory, deployers@, *signatures)) is Ok
            <==> r is Ok,
        r matches Ok(b) ==> {
            let s = dispatch_spec(receipts@, old(registry)@, rules_of(factory, deployers@, *signatures)).unwrap();
            &&& b.holds(s)
            &&& final(registry)@ == s.pools
            &&& b.block.block_number == header.number
            &&& b.block.block_timestamp == header.timestamp
        },
        r matches Err(e) ==> dispatch_spec(receipts@, old(registry)@, rules_of(factory, deployers@, *signatures))
            == Err::<DispatchState, MissingField>(e) && final(registry)@ == old(registry)@,
{
    let ghost rules = rules_of(factory, deployers@, *signatures);
    let ghost pools0 = registry@;
    let mut b = Builder {
        pools: registry.duplicate(),
        transactions: Vec::new(),
        pool_creates: Vec::new(),
        swaps: Vec::new(),
        initializes: Vec::new(),
        mints: Vec::new(),
        burns: Vec::new(),
        collects: Vec::new(),
    };
    proof {
        assert(b.model() == initial_state(pools0));
    }
    let mut i: usize = 0;
    while i < receipts.len()
        invariant
            i <= receipts.len(),
            rules == rules_of(factory, deployers@, *signatures),
            registry@ == pools0,
            receipts_fold(Ok(initial_state(pools0)), receipts@.take(i as int), pools0, rules)
                == Ok::<DispatchState, MissingField>(b.model()),
        decreases receipts.len() - i,
    {
        let r = &receipts[i];
        proof {
            assert(receipts@.take(i + 1).drop_last() == receipts@.take(i as int));
            assert(receipts@.take(i + 1).last() == receipts@[i as int]);
        }
        if receipt_relevant(r, registry, factory) {
            match process_receipt(&mut b, r, factory, deployers, signatures) {
                Ok(()) => {},
                Err(e) => {
                    proof {
                        lemma_receipts_fold_stays_failed(Ok(initial_state(pools0)), receipts@, pools0, i + 1, rules);
                    }
                    return Err(e);
                },
            }
        }
        i = i + 1;
    }
    proof {
        assert(receipts@.take(receipts.len() as int) == receipts@);
    }
    *registry = b.pools;
    Ok(
        EventBundle {
            block: Block::new(header.number, header.timestamp),
            transactions: b.transactions,
            pool_create_events: b.pool_creates,
            swap_events: b.swaps,
            initialize_events: b.initializes,
            mint_events: b.mints,
            burn_events: b.burns,
            collect_events: b.collects,
        },
    )
}

/// The registry holds the pools it started with, and each other member is
/// the pool of an accepted pool-created event.
pub open spec fn registry_accounted(s: DispatchState, pools0: Set<Address>) -> bool {
    &&& pools0.subset_of(s.pools)
    &&& forall|a: Address|
        #[trigger] s.pools.contains(a) ==> pools0.contains(a) || exists|i: int|
            0 <= i < s.pool_creates.len() && s.pool_creates[i].pool == a
}

/// Lemma (one log): the registry only grows, and it changes only through a
/// pool-created log that passes the factory and deployer gate; a pool event
/// of any other kind is accepted only where its emitter is tracked at the
/// time of decoding.
pub proof fn lemma_log_step_gating(s: DispatchState, r: Receipt, log: LogEntry, rules: DispatchRules)
    requires
        log_step(s, r, log, rules) is Ok,
    ensures
        s.pools.subset_of(log_step(s, r, log, rules).unwrap().pools),
        s.pool_creates.is_prefix_of(log_step(s, r, log, rules).unwrap().pool_creates),
        log_step(s, r, log, rules).unwrap().pools != s.pools ==> pool_created_gate(r, log, rules),
        log_step(s, r, log, rules).unwrap().pool_creates != s.pool_creates ==> pool_created_gate(r, log, rules),
        ({
            let s2 = log_step(s, r, log, rules).unwrap();
            (s2.swaps != s.swaps || s2.initializes != s.initializes || s2.mints != s.mints || s2.burns
                != s.burns || s2.collects != s.collects) ==> s.pools.contains(log.address)
        }),
{
    let s2 = log_step(s, r, log, rules).unwrap();
    assert(s.pool_creates.is_prefix_of(s.pool_creates));
    if s2.pool_creates != s.pool_creates {
        assert(s.pool_creates.is_prefix_of(s2.pool_creates));
    }
}

proof fn lemma_log_step_accounted(s: DispatchState, r: Receipt, log: LogEntry, rules: DispatchRules, pools0: Set<Address>)
    requires
        registry_accounted(s, pools0),
        log_step(s, r, log, rules) is Ok,
    ensures
        registry_accounted(log_step(s, r, log, rules).unwrap(), pools0),
{
    let s2 = log_step(s, r, log, rules).unwrap();
    lemma_log_step_gating(s, r, log, rules);
    assert forall|a: Address| #[trigger] s2.pools.contains(a) implies pools0.contains(a) || exists|i: int|
        0 <= i < s2.pool_creates.len() && s2.pool_creates[i].pool == a by {
        if s.pools.contains(a) {
            if !pools0.contains(a) {
                let i = choose|i: int| 0 <= i < s.pool_creates.len() && s.pool_creates[i].pool == a;
                assert(s2.pool_creates[i] == s.pool_creates[i]);
            }
        } else {
            assert(s2.pools != s.pools);
            let n = s.pool_creates.len() as int;
            assert(s2.pool_creates[n].pool == a);
        }
    }
}

proof fn lemma_logs_fold_accounted(s: DispatchState, r: Receipt, logs: Seq<LogEntry>, rules: DispatchRules, pools0: Set<Address>)
    requires
        registry_accounted(s, pools0),
        logs_fold(Ok(s), r, logs, rules) is Ok,
    ensures
        registry_accounted(logs_fold(Ok(s), r, logs, rules).unwrap(), pools0),
    decreases logs.len(),
{
    if logs.len() > 0 {
        let prev = logs_fold(Ok(s), r, logs.drop_last(), rules);
        assert(prev is Ok);
        lemma_logs_fold_accounted(s, r, logs.drop_last(), rules, pools0);
        lemma_log_step_accounted(prev.unwrap(), r, logs.last(), rules, pools0);
    }
}

proof fn lemma_receipts_fold_accounted(s: DispatchState, receipts: Seq<Receipt>, pools0: Set<Address>, rules: DispatchRules)
    requires
        registry_accounted(s, pools0),
        receipts_fold(Ok(s), receipts, pools0, rules) is Ok,
    ensures
        registry_accounted(receipts_fold(Ok(s), receipts, pools0, rules).unwrap(), pools0),
    decreases receipts.len(),
{
    if receipts.len() > 0 {
        let prev = receipts_fold(Ok(s), receipts.drop_last(), pools0, rules);
        assert(prev is Ok);
        lemma_receipts_fold_accounted(s, receipts.drop_last(), pools0, rules);
        let r = receipts.last();
        if relevant(r, pools0, rules.factory) {
            lemma_logs_fold_accounted(prev.unwrap(), r, r.logs@, rules, pools0);
        }
    }
}

/// Lemma (one block): dispatch never removes a pool from the registry, and
/// every pool it adds is the pool of an accepted pool-created event in the
/// block's bundle.
pub proof fn lemma_dispatch_registry_monotone(receipts: Seq<Receipt>, pools: Set<Address>, rules: DispatchRules)
    requires
        dispatch_spec(receipts, pools, rules) is Ok,
    ensures
        registry_accounted(dispatch_spec(receipts, pools, rules).unwrap(), pools),
{
    assert(registry_accounted(initial_state(pools), pools));
    lemma_receipts_fold_accounted(initial_state(pools), receipts, pools, rules);
}

} // verus!
