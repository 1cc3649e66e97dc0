use pool_indexer::numeric::{u128_to_numeric, ConversionError, Numeric};
use pool_indexer::primitives::{Address, Bytes32, Int24, Int256, Uint160, Uint24, Uint256};
use pool_indexer::records::{u64_from_column, u64_to_column, Block, BlockRaw};

fn magnitude(bytes: Vec<u8>, negative: bool) -> Numeric {
    Numeric { negative, magnitude: bytes }
}

#[test]
fn int24_round_trips_at_its_bounds() {
    for v in [-0x80_0000, -5, 0, 5, 0x7f_ffff] {
        let x = Int24::new(v).unwrap();
        assert_eq!(x.to_numeric().to_int24(), Ok(x));
    }
    assert!(Int24::new(0x80_0000).is_none());
    assert_eq!(Numeric::from_i64(0x80_0000).to_int24(), Err(ConversionError::OutOfRange));
    assert_eq!(Numeric::from_i64(-0x80_0001).to_int24(), Err(ConversionError::OutOfRange));
}

#[test]
fn uint24_and_u128_round_trip() {
    let fee = Uint24::new(3000).unwrap();
    assert_eq!(fee.to_numeric().to_uint24(), Ok(fee));
    assert_eq!(Numeric::from_i64(0x100_0000).to_uint24(), Err(ConversionError::OutOfRange));
    assert_eq!(Numeric::from_i64(-1).to_uint24(), Err(ConversionError::OutOfRange));
    assert_eq!(u128_to_numeric(u128::MAX).to_u128(), Ok(u128::MAX));
    let mut over = vec![1u8];
    over.extend(vec![0u8; 16]);
    assert_eq!(magnitude(over, false).to_u128(), Err(ConversionError::OutOfRange));
}

#[test]
fn wide_integers_round_trip() {
    let p = Uint160 { hi: u32::MAX, lo: u128::MAX };
    assert_eq!(p.to_numeric().to_uint160(), Ok(p));
    let u = Uint256 { hi: u128::MAX, lo: 1 };
    assert_eq!(u.to_numeric().to_uint256(), Ok(u));
    let min = Int256 { hi: 0x8000_0000_0000_0000_0000_0000_0000_0000, lo: 0 };
    let max = Int256 { hi: 0x7fff_ffff_ffff_ffff_ffff_ffff_ffff_ffff, lo: u128::MAX };
    let minus_one = Int256 { hi: u128::MAX, lo: u128::MAX };
    for v in [min, max, minus_one, Int256::from_i128(-100), Int256::from_i128(i128::MIN)] {
        assert_eq!(v.to_numeric().to_int256(), Ok(v));
    }
    assert_eq!(Int256::from_i128(-100), Int256 { hi: u128::MAX, lo: u128::MAX - 99 });
}

#[test]
fn wide_integers_out_of_range_are_refused() {
    // 2^160 does not fit in 160 bits.
    let mut b = vec![1u8];
    b.extend(vec![0u8; 20]);
    assert_eq!(magnitude(b, false).to_uint160(), Err(ConversionError::OutOfRange));
    // 2^256 does not fit in 256 bits.
    let mut b = vec![1u8];
    b.extend(vec![0u8; 32]);
    assert_eq!(magnitude(b.clone(), false).to_uint256(), Err(ConversionError::OutOfRange));
    assert_eq!(magnitude(b, true).to_int256(), Err(ConversionError::OutOfRange));
    // 2^255 fits only as a negative number.
    let mut b = vec![0x80u8];
    b.extend(vec![0u8; 31]);
    assert_eq!(magnitude(b.clone(), false).to_int256(), Err(ConversionError::OutOfRange));
    assert_eq!(
        magnitude(b, true).to_int256(),
        Ok(Int256 { hi: 0x8000_0000_0000_0000_0000_0000_0000_0000, lo: 0 })
    );
    // Leading zero bytes are accepted.
    let mut b = vec![0u8; 40];
    b.push(7);
    assert_eq!(magnitude(b, false).to_uint256(), Ok(Uint256 { hi: 0, lo: 7 }));
    // A negative number is no unsigned value; negative zero is zero.
    assert_eq!(Numeric::from_i64(-1).to_uint256(), Err(ConversionError::OutOfRange));
    assert_eq!(magnitude(vec![0], true).to_uint256(), Ok(Uint256 { hi: 0, lo: 0 }));
}

#[test]
fn block_number_above_i64_fails_instead_of_wrapping() {
    let block = Block::new(i64::MAX as u64 + 1, 5);
    assert_eq!(BlockRaw::try_from_block(block), Err(ConversionError::OutOfRange));
    assert_eq!(u64_to_column(i64::MAX as u64), Ok(i64::MAX));
    assert_eq!(u64_from_column(-1), Err(ConversionError::OutOfRange));
    let raw = BlockRaw { block_number: 17, block_timestamp: 1_700_000_000 };
    let back = Block::try_from_raw(raw).unwrap();
    assert_eq!(back, Block::new(17, 1_700_000_000));
    assert_eq!(BlockRaw::try_from_block(back), Ok(raw));
    assert_eq!(Block::try_from_raw(BlockRaw { block_number: 1, block_timestamp: -1 }), Err(ConversionError::OutOfRange));
}

#[test]
fn addresses_and_hashes_convert_to_and_from_bytes() {
    let a = Address { hi: 0x0102_0304, lo: 0x0506_0708_090a_0b0c_0d0e_0f10_1112_1314 };
    let bytes = a.to_bytes();
    assert_eq!(bytes, (1u8..=20).collect::<Vec<u8>>());
    assert_eq!(Address::from_bytes(&bytes), Some(a));
    assert_eq!(Address::from_bytes(&vec![0; 21]), None);
    let h = Bytes32 { hi: 1, lo: 2 };
    let hb = h.to_bytes();
    assert_eq!(hb.len(), 32);
    assert_eq!(hb[15], 1);
    assert_eq!(hb[31], 2);
    assert_eq!(Bytes32::from_bytes(&hb), Some(h));
    assert_eq!(Bytes32::from_bytes(&vec![0; 31]), None);
}
