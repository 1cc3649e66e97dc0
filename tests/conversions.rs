use pool_indexer::numeric::{ConversionError, Numeric};
use pool_indexer::primitives::{Address, Bytes32, Int24, Int256, Uint160};
use pool_indexer::records::{SwapEvent, SwapEventRaw, Transaction, TransactionRaw};

#[test]
fn test_raw_to_transaction_conversion() {
    let raw_tx = TransactionRaw {
        transaction_hash: vec![1; 32],
        block_number: 12345,
        transaction_index: 67890,
        transaction_sender: vec![2; 20],
    };

    let tx: Transaction = Transaction::try_from_raw(&raw_tx).unwrap();
    assert_eq!(tx.block_number, 12345);
    assert_eq!(tx.transaction_index, 67890);
}

#[test]
fn test_transaction_to_raw_conversion() {
    let tx = Transaction {
        transaction_hash: Bytes32::from_bytes(&vec![1; 32]).unwrap(),
        block_number: 12345,
        transaction_index: 67890,
        transaction_sender: Address::from_bytes(&vec![2; 20]).unwrap(),
    };

    let raw_tx: TransactionRaw = TransactionRaw::try_from_transaction(&tx).unwrap();
    assert_eq!(raw_tx.block_number, 12345);
    assert_eq!(raw_tx.transaction_index, 67890);
}

#[test]
fn test_invalid_raw_to_transaction() {
    let raw_tx = TransactionRaw {
        transaction_hash: vec![1; 31],
        block_number: -1,
        transaction_index: 67890,
        transaction_sender: vec![2; 20],
    };

    let result: Result<Transaction, _> = Transaction::try_from_raw(&raw_tx);
    assert!(result.is_err());
}

#[test]
fn test_invalid_transaction_to_raw() {
    let tx = Transaction {
        transaction_hash: Bytes32::from_bytes(&vec![1; 32]).unwrap(),
        block_number: u64::MAX,
        transaction_index: 67890,
        transaction_sender: Address::from_bytes(&vec![2; 20]).unwrap(),
    };

    let result: Result<TransactionRaw, _> = TransactionRaw::try_from_transaction(&tx);
    assert!(result.is_err());
}

#[test]
fn test_raw_to_swap_event_conversion() {
    let raw_event = SwapEventRaw {
        transaction_hash: vec![1; 32],
        log_index: 12345,
        contract_address: vec![2; 20],
        sender: vec![3; 20],
        recipient: vec![4; 20],
        amount0: Numeric::from_i64(100),
        amount1: Numeric::from_i64(-100),
        sqrt_price_x96: Numeric::from_i64(1000000),
        liquidity: Numeric::from_i64(500000),
        tick: Numeric::from_i64(-5),
    };

    let event: SwapEvent = SwapEvent::try_from_raw(&raw_event).unwrap();
    assert_eq!(event.log_index, 12345);
}

#[test]
fn test_swap_event_to_raw_conversion() {
    let event = SwapEvent {
        transaction_hash: Bytes32::from_bytes(&vec![1; 32]).unwrap(),
        log_index: 12345,
        contract_address: Address::from_bytes(&vec![2; 20]).unwrap(),
        sender: Address::from_bytes(&vec![3; 20]).unwrap(),
        recipient: Address::from_bytes(&vec![4; 20]).unwrap(),
        amount0: Int256::from_i128(100),
        amount1: Int256::from_i128(-100),
        sqrt_price_x96: Uint160::from_u128(1000000),
        liquidity: 500000u128,
        tick: Int24::new(-5).unwrap(),
    };

    let raw_event: SwapEventRaw = SwapEventRaw::try_from_event(&event).unwrap();
    assert_eq!(raw_event.log_index, 12345);
}

#[test]
fn test_invalid_raw_to_swap_event() {
    let raw_event = SwapEventRaw {
        transaction_hash: vec![1; 31],
        log_index: -1,
        contract_address: vec![2; 20],
        sender: vec![3; 20],
        recipient: vec![4; 20],
        amount0: Numeric::from_i64(100),
        amount1: Numeric::from_i64(-100),
        sqrt_price_x96: Numeric::from_i64(1000000),
        liquidity: Numeric::from_i64(500000),
        tick: Numeric::from_i64(-5),
    };

    let result: Result<SwapEvent, _> = SwapEvent::try_from_raw(&raw_event);
    assert!(result.is_err());
}

#[test]
fn test_invalid_swap_event_to_raw() {
    let event = SwapEvent {
        transaction_hash: Bytes32::from_bytes(&vec![1; 32]).unwrap(),
        log_index: u64::MAX,
        contract_address: Address::from_bytes(&vec![2; 20]).unwrap(),
        sender: Address::from_bytes(&vec![3; 20]).unwrap(),
        recipient: Address::from_bytes(&vec![4; 20]).unwrap(),
        amount0: Int256::from_i128(100),
        amount1: Int256::from_i128(-100),
        sqrt_price_x96: Uint160::from_u128(1000000),
        liquidity: 500000u128,
        tick: Int24::new(-5).unwrap(),
    };

    let result: Result<SwapEventRaw, _> = SwapEventRaw::try_from_event(&event);
    assert!(result.is_err());
}

#[test]
fn swap_row_round_trip_keeps_every_field() {
    let event = SwapEvent {
        transaction_hash: Bytes32 { hi: 7, lo: u128::MAX },
        log_index: 3,
        contract_address: Address { hi: 0xdead_beef, lo: 42 },
        sender: Address { hi: 1, lo: 2 },
        recipient: Address { hi: 3, lo: 4 },
        amount0: Int256 { hi: u128::MAX, lo: u128::MAX },
        amount1: Int256 { hi: 0x7fff_ffff_ffff_ffff_ffff_ffff_ffff_ffff, lo: u128::MAX },
        sqrt_price_x96: Uint160 { hi: u32::MAX, lo: u128::MAX },
        liquidity: u128::MAX,
        tick: Int24::new(-0x80_0000).unwrap(),
    };
    let raw = SwapEventRaw::try_from_event(&event).unwrap();
    assert_eq!(raw.transaction_hash.len(), 32);
    assert_eq!(raw.contract_address, vec![0xde, 0xad, 0xbe, 0xef, 0, 0, 0, 0, 0, 0, 0, 0, 0, 0, 0, 0, 0, 0, 0, 42]);
    assert!(raw.amount0.negative);
    let back = SwapEvent::try_from_raw(&raw).unwrap();
    assert_eq!(back, event);
}

#[test]
fn transaction_row_errors_name_the_failing_check() {
    let negative = TransactionRaw {
        transaction_hash: vec![1; 32],
        block_number: -1,
        transaction_index: 0,
        transaction_sender: vec![2; 20],
    };
    assert_eq!(Transaction::try_from_raw(&negative), Err(ConversionError::OutOfRange));
    let short = TransactionRaw {
        transaction_hash: vec![1; 32],
        block_number: 1,
        transaction_index: 0,
        transaction_sender: vec![2; 19],
    };
    assert_eq!(Transaction::try_from_raw(&short), Err(ConversionError::InvalidLength));
}

#[test]
fn swap_row_with_oversized_tick_is_refused() {
    let raw_event = SwapEventRaw {
        transaction_hash: vec![1; 32],
        log_index: 0,
        contract_address: vec![2; 20],
        sender: vec![3; 20],
        recipient: vec![4; 20],
        amount0: Numeric::from_i64(0),
        amount1: Numeric::from_i64(0),
        sqrt_price_x96: Numeric::from_i64(0),
        liquidity: Numeric::from_i64(0),
        tick: Numeric::from_i64(0x80_0000),
    };
    assert_eq!(SwapEvent::try_from_raw(&raw_event), Err(ConversionError::OutOfRange));
}
