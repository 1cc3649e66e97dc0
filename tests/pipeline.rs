use pool_indexer::abi::{decode_burn, decode_collect, decode_initialize, decode_mint, decode_pool_created, decode_swap};
use pool_indexer::chain::{BlockHeader, EventKind, EventSignatures, LogEntry, Receipt};
use pool_indexer::dispatch::{dispatch_block, EventBundle};
use pool_indexer::persist::{bundle_to_rows, write_plan, MemoryStore, RowWrite};
use pool_indexer::primitives::{Address, Bytes32, Int24, Int256, Uint160, Uint24, Uint256};
use pool_indexer::records::MissingField;
use pool_indexer::registry::PoolRegistry;

fn sigs() -> EventSignatures {
    EventSignatures {
        pool_created: Bytes32 { hi: 0xaa, lo: 1 },
        initialize: Bytes32 { hi: 0xaa, lo: 2 },
        swap: Bytes32 { hi: 0xaa, lo: 3 },
        mint: Bytes32 { hi: 0xaa, lo: 4 },
        burn: Bytes32 { hi: 0xaa, lo: 5 },
        collect: Bytes32 { hi: 0xaa, lo: 6 },
    }
}

fn addr(n: u128) -> Address {
    Address { hi: 0x1000, lo: n }
}

fn word(hi: u128, lo: u128) -> Vec<u8> {
    Bytes32 { hi, lo }.to_bytes()
}

fn address_word(a: Address) -> Vec<u8> {
    word(a.hi as u128, a.lo)
}

fn address_topic(a: Address) -> Bytes32 {
    Bytes32 { hi: a.hi as u128, lo: a.lo }
}

fn int24_word(v: i32) -> Vec<u8> {
    if v < 0 {
        word(u128::MAX, u128::MAX - ((-(v as i64)) as u128 - 1))
    } else {
        word(0, v as u128)
    }
}

fn int24_topic(v: i32) -> Bytes32 {
    let b = int24_word(v);
    Bytes32::from_bytes(&b).unwrap()
}

const FACTORY: u128 = 0xfac;
const DEPLOYER: u128 = 0xde9;
const POOL_P: u128 = 0x9;
const POOL_Q: u128 = 0x51;

fn log(address: Address, topics: Vec<Bytes32>, data: Vec<u8>, tx: u128, index: u64) -> LogEntry {
    LogEntry {
        address,
        topics,
        data,
        transaction_hash: Some(Bytes32 { hi: 0, lo: tx }),
        block_number: Some(77),
        transaction_index: Some(tx as u64),
        log_index: Some(index),
    }
}

fn swap_log(pool: Address, tx: u128, index: u64) -> LogEntry {
    let mut data = word(0, 100);
    data.extend(word(u128::MAX, u128::MAX - 99));
    data.extend(word(0, 1_000_000));
    data.extend(word(0, 500_000));
    data.extend(int24_word(-5));
    log(pool, vec![sigs().swap, address_topic(addr(1)), address_topic(addr(2))], data, tx, index)
}

fn pool_created_log(emitter: Address, pool: Address, tx: u128, index: u64) -> LogEntry {
    let mut data = int24_word(60);
    data.extend(address_word(pool));
    log(
        emitter,
        vec![sigs().pool_created, address_topic(addr(10)), address_topic(addr(11)), Bytes32 { hi: 0, lo: 3000 }],
        data,
        tx,
        index,
    )
}

fn receipt(tx: u128, to: Option<Address>, logs: Vec<LogEntry>) -> Receipt {
    Receipt { transaction_hash: Bytes32 { hi: 0, lo: tx }, from: addr(0xf00d), to, logs }
}

fn run(receipts: &Vec<Receipt>, registry: &mut PoolRegistry) -> Result<EventBundle, MissingField> {
    dispatch_block(
        receipts,
        &BlockHeader { number: 77, timestamp: 1000 },
        registry,
        addr(FACTORY),
        &vec![addr(DEPLOYER)],
        &sigs(),
    )
}

fn persist(bundle: &EventBundle, store: &mut MemoryStore) {
    let rows = bundle_to_rows(bundle).unwrap();
    store.apply(write_plan(rows));
}

#[test]
fn end_to_end_swap_and_pool_creation() {
    let mut registry = PoolRegistry::from_addresses(&vec![addr(POOL_P)]);
    let receipts = vec![
        receipt(1, Some(addr(POOL_P)), vec![swap_log(addr(POOL_P), 1, 0)]),
        receipt(2, Some(addr(DEPLOYER)), vec![pool_created_log(addr(FACTORY), addr(POOL_Q), 2, 1)]),
    ];
    let bundle = run(&receipts, &mut registry).unwrap();
    assert!(registry.contains(addr(POOL_P)));
    assert!(registry.contains(addr(POOL_Q)));
    assert_eq!(registry.members().len(), 2);

    let mut store = MemoryStore::new();
    persist(&bundle, &mut store);
    let p_bytes = addr(POOL_P).to_bytes();
    let q_bytes = addr(POOL_Q).to_bytes();
    let swaps_for_p = store.rows().iter().filter(|w| matches!(w, RowWrite::Swap(s) if s.contract_address == p_bytes)).count();
    let creations_of_q = store.rows().iter().filter(|w| matches!(w, RowWrite::PoolCreate(c) if c.pool == q_bytes)).count();
    let blocks = store.rows().iter().filter(|w| matches!(w, RowWrite::Block(b) if b.block_number == 77)).count();
    let swaps = store.rows().iter().filter(|w| matches!(w, RowWrite::Swap(_))).count();
    assert_eq!(swaps_for_p, 1);
    assert_eq!(swaps, 1);
    assert_eq!(creations_of_q, 1);
    assert_eq!(blocks, 1);
    assert!(matches!(store.rows()[0], RowWrite::Block(_)));
}

#[test]
fn persisting_a_bundle_twice_changes_nothing() {
    let mut registry = PoolRegistry::from_addresses(&vec![addr(POOL_P)]);
    let receipts = vec![receipt(1, None, vec![swap_log(addr(POOL_P), 1, 0), swap_log(addr(POOL_P), 1, 1)])];
    let bundle = run(&receipts, &mut registry).unwrap();
    let mut store = MemoryStore::new();
    persist(&bundle, &mut store);
    let once = format!("{:?}", store.rows());
    assert_eq!(store.rows().len(), 4);
    persist(&bundle, &mut store);
    assert_eq!(format!("{:?}", store.rows()), once);
}

#[test]
fn events_from_untracked_pools_are_not_accepted() {
    let mut registry = PoolRegistry::from_addresses(&vec![addr(POOL_P)]);
    // The receipt passes the pre-filter through pool P, but its second swap
    // comes from an untracked address.
    let receipts = vec![receipt(1, None, vec![swap_log(addr(POOL_P), 1, 0), swap_log(addr(0x77), 1, 1)])];
    let bundle = run(&receipts, &mut registry).unwrap();
    assert_eq!(bundle.swap_events.len(), 1);
    assert_eq!(bundle.swap_events[0].contract_address, addr(POOL_P));
    assert_eq!(bundle.transactions.len(), 1);
}

#[test]
fn decoded_swap_fields_are_exact() {
    let mut registry = PoolRegistry::from_addresses(&vec![addr(POOL_P)]);
    let receipts = vec![receipt(1, None, vec![swap_log(addr(POOL_P), 1, 4)])];
    let bundle = run(&receipts, &mut registry).unwrap();
    let s = bundle.swap_events[0];
    assert_eq!(s.log_index, 4);
    assert_eq!(s.sender, addr(1));
    assert_eq!(s.recipient, addr(2));
    assert_eq!(s.amount0, Int256::from_i128(100));
    assert_eq!(s.amount1, Int256::from_i128(-100));
    assert_eq!(s.sqrt_price_x96, Uint160::from_u128(1_000_000));
    assert_eq!(s.liquidity, 500_000);
    assert_eq!(s.tick, Int24::new(-5).unwrap());
    assert_eq!(bundle.block.block_number, 77);
    assert_eq!(bundle.block.block_timestamp, 1000);
    assert_eq!(bundle.transactions[0].transaction_sender, addr(0xf00d));
}

#[test]
fn pool_creation_needs_factory_and_allowed_deployer() {
    let mut registry = PoolRegistry::new();
    let receipts = vec![
        // Emitted by the factory, but sent to an unlisted contract.
        receipt(1, Some(addr(0x1234)), vec![pool_created_log(addr(FACTORY), addr(0x61), 1, 0)]),
        // Sent to the deployer, but not emitted by the factory.
        receipt(2, Some(addr(DEPLOYER)), vec![pool_created_log(addr(0x5), addr(0x62), 2, 1)]),
        // No destination at all.
        receipt(3, None, vec![pool_created_log(addr(FACTORY), addr(0x63), 3, 2)]),
    ];
    let bundle = run(&receipts, &mut registry).unwrap();
    assert!(!bundle.has_events());
    assert_eq!(registry.members().len(), 0);
}

#[test]
fn missing_log_index_fails_the_block_and_keeps_the_registry() {
    let mut registry = PoolRegistry::from_addresses(&vec![addr(POOL_P)]);
    let mut broken = swap_log(addr(POOL_P), 2, 1);
    broken.log_index = None;
    let receipts = vec![
        receipt(1, Some(addr(DEPLOYER)), vec![pool_created_log(addr(FACTORY), addr(POOL_Q), 1, 0)]),
        receipt(2, None, vec![broken]),
    ];
    assert_eq!(run(&receipts, &mut registry).unwrap_err(), MissingField::LogIndex);
    assert!(!registry.contains(addr(POOL_Q)));
    assert_eq!(registry.members().len(), 1);
}

#[test]
fn missing_transaction_fields_fail_the_block() {
    let mut registry = PoolRegistry::from_addresses(&vec![addr(POOL_P)]);
    let mut no_hash = swap_log(addr(POOL_P), 1, 0);
    no_hash.transaction_hash = None;
    assert_eq!(run(&vec![receipt(1, None, vec![no_hash])], &mut registry).unwrap_err(), MissingField::TransactionHash);
    let mut no_number = swap_log(addr(POOL_P), 1, 0);
    no_number.block_number = None;
    assert_eq!(run(&vec![receipt(1, None, vec![no_number])], &mut registry).unwrap_err(), MissingField::BlockNumber);
    let mut no_index = swap_log(addr(POOL_P), 1, 0);
    no_index.transaction_index = None;
    assert_eq!(run(&vec![receipt(1, None, vec![no_index])], &mut registry).unwrap_err(), MissingField::TransactionIndex);
}

#[test]
fn malformed_and_unknown_logs_are_skipped() {
    let mut registry = PoolRegistry::from_addresses(&vec![addr(POOL_P)]);
    let mut short = swap_log(addr(POOL_P), 1, 0);
    short.data.pop();
    let mut dirty = swap_log(addr(POOL_P), 1, 1);
    dirty.data[96] = 1; // liquidity word with a non-zero high half
    let mut unknown = swap_log(addr(POOL_P), 1, 2);
    unknown.topics[0] = Bytes32 { hi: 1, lo: 1 };
    let mut no_topics = swap_log(addr(POOL_P), 1, 3);
    no_topics.topics.clear();
    let mut five_topics = swap_log(addr(POOL_P), 1, 4);
    five_topics.topics.extend(vec![Bytes32 { hi: 0, lo: 0 }; 3]);
    let receipts = vec![receipt(1, None, vec![short, dirty, unknown, no_topics, five_topics])];
    let bundle = run(&receipts, &mut registry).unwrap();
    assert!(!bundle.has_events());
    assert!(bundle.transactions.is_empty());
}

#[test]
fn receipts_without_tracked_logs_are_filtered_out() {
    let mut registry = PoolRegistry::new();
    // A pool created in the first receipt is tracked for later logs of the
    // same receipt, but the second receipt was filtered before dispatch began.
    let init = {
        let mut data = word(0, 1 << 96);
        data.extend(int24_word(-100));
        log(addr(POOL_Q), vec![sigs().initialize], data, 1, 1)
    };
    let later_swap = swap_log(addr(POOL_Q), 2, 2);
    let receipts = vec![
        receipt(1, Some(addr(DEPLOYER)), vec![pool_created_log(addr(FACTORY), addr(POOL_Q), 1, 0), init]),
        receipt(2, None, vec![later_swap]),
    ];
    let bundle = run(&receipts, &mut registry).unwrap();
    assert_eq!(bundle.pool_create_events.len(), 1);
    assert_eq!(bundle.initialize_events.len(), 1);
    assert_eq!(bundle.initialize_events[0].creator, addr(0xf00d));
    assert_eq!(bundle.initialize_events[0].tick, Int24::new(-100).unwrap());
    assert_eq!(bundle.swap_events.len(), 0);
    assert_eq!(bundle.transactions.len(), 1);
    assert!(registry.contains(addr(POOL_Q)));
}

#[test]
fn signature_table_lookup() {
    let s = sigs();
    assert_eq!(s.kind_of(s.swap), Some(EventKind::Swap));
    assert_eq!(s.kind_of(s.collect), Some(EventKind::Collect));
    assert_eq!(s.kind_of(Bytes32 { hi: 9, lo: 9 }), None);
}

#[test]
fn decoders_read_each_layout() {
    let owner = addr(0x0a);
    let topics = vec![sigs().mint, address_topic(owner), int24_topic(-10), int24_topic(20)];
    let mut data = address_word(addr(0x0b));
    data.extend(word(0, 55));
    data.extend(word(1, 2));
    data.extend(word(0, 3));
    let m = decode_mint(&topics, &data).unwrap();
    assert_eq!(m.owner, owner);
    assert_eq!(m.sender, addr(0x0b));
    assert_eq!(m.tick_lower, Int24::new(-10).unwrap());
    assert_eq!(m.tick_upper, Int24::new(20).unwrap());
    assert_eq!(m.amount, 55);
    assert_eq!(m.amount0, Uint256 { hi: 1, lo: 2 });

    let mut bdata = word(0, 8);
    bdata.extend(word(0, 9));
    bdata.extend(word(0, 10));
    let b = decode_burn(&topics, &bdata).unwrap();
    assert_eq!(b.amount, 8);
    assert_eq!(b.amount1, Uint256::from_u128(10));

    let mut cdata = address_word(addr(0x0c));
    cdata.extend(word(0, 4));
    cdata.extend(word(0, 5));
    let c = decode_collect(&topics, &cdata).unwrap();
    assert_eq!(c.recipient, addr(0x0c));
    assert_eq!((c.amount0, c.amount1), (4, 5));
    // An address word with dirty padding is refused.
    let mut bad = word(1 << 40, 0);
    bad.extend(word(0, 4));
    bad.extend(word(0, 5));
    assert!(decode_collect(&topics, &bad).is_none());
    // Too few topics.
    assert!(decode_collect(&topics[..3].to_vec(), &cdata).is_none());

    let mut idata = word(u32::MAX as u128, u128::MAX);
    idata.extend(int24_word(0x7f_ffff));
    let i = decode_initialize(&vec![sigs().initialize], &idata).unwrap();
    assert_eq!(i.sqrt_price_x96, Uint160 { hi: u32::MAX, lo: u128::MAX });
    assert_eq!(i.tick.value, 0x7f_ffff);
    let mut too_wide = int24_word(0);
    too_wide.extend(word(0, 0x80_0000));
    assert!(decode_initialize(&vec![sigs().initialize], &too_wide).is_none());

    let mut pdata = int24_word(-60);
    pdata.extend(address_word(addr(0x99)));
    let ptopics = vec![sigs().pool_created, address_topic(addr(1)), address_topic(addr(2)), Bytes32 { hi: 5, lo: 0x1_000bb8 }];
    let p = decode_pool_created(&ptopics, &pdata).unwrap();
    assert_eq!(p.fee, Uint24::new(3000).unwrap());
    assert_eq!(p.tick_spacing, Int24::new(-60).unwrap());
    assert_eq!(p.pool, addr(0x99));

    let s = decode_swap(&swap_log(addr(1), 1, 0).topics, &swap_log(addr(1), 1, 0).data).unwrap();
    assert_eq!(s.amount1, Int256 { hi: u128::MAX, lo: u128::MAX - 99 });
}

#[test]
fn registry_membership_grows_only_by_insertion() {
    let mut r = PoolRegistry::from_addresses(&vec![addr(1), addr(2), addr(1)]);
    assert_eq!(r.members().len(), 2);
    r.insert(addr(2));
    assert_eq!(r.members().len(), 2);
    r.insert(addr(3));
    assert!(r.contains(addr(3)));
    assert!(!r.contains(addr(4)));
    let d = r.duplicate();
    assert_eq!(d.members().len(), 3);
}
