use tx_tracker::decoder::TokenTransferInfo;
use tx_tracker::primitives::{Address, Hash256, U256};
use tx_tracker::record::TransactionRecord;
use tx_tracker::report::{describe, display_scaled, report, sort_by_value, TokenReport};

fn record(arrival: u8, value: u64) -> TransactionRecord {
    TransactionRecord {
        hash: Hash256 { bytes: [arrival; 32] },
        from: Address { bytes: [2; 20] },
        to: Some(Address { bytes: [3; 20] }),
        value: U256::from_u64(value),
        gas_price: None,
        gas: U256::from_u64(21000),
        nonce: U256::from_u64(arrival as u64),
        input: Vec::new(),
        block_number: None,
        transaction_index: None,
        block_hash: None,
        chain_id: None,
    }
}

fn arrivals(sorted: &[TransactionRecord]) -> Vec<u8> {
    sorted.iter().map(|tx| tx.hash.bytes[0]).collect()
}

#[test]
fn sorts_five_one_three_one() {
    let sample = vec![record(1, 5), record(2, 1), record(3, 3), record(4, 1)];
    let sorted = sort_by_value(sample);
    let values: Vec<U256> = sorted.iter().map(|tx| tx.value).collect();
    assert_eq!(
        values,
        vec![U256::from_u64(1), U256::from_u64(1), U256::from_u64(3), U256::from_u64(5)]
    );
    assert_eq!(arrivals(&sorted), vec![2, 4, 3, 1]);
}

#[test]
fn equal_values_keep_arrival_order() {
    let sample: Vec<TransactionRecord> = (1..=6).map(|arrival| record(arrival, 9)).collect();
    assert_eq!(arrivals(&sort_by_value(sample)), vec![1, 2, 3, 4, 5, 6]);
}

#[test]
fn sorts_by_the_whole_256_bit_value() {
    let mut high = record(1, 0);
    high.value = U256 { w0: 0, w1: 0, w2: 0, w3: 1 };
    let mut middle = record(2, 0);
    middle.value = U256 { w0: 0, w1: 1, w2: 0, w3: 0 };
    let low = record(3, u64::MAX);
    assert_eq!(arrivals(&sort_by_value(vec![high, middle, low])), vec![3, 2, 1]);
}

#[test]
fn sorting_keeps_every_record() {
    let sample = vec![record(1, 4), record(2, 4), record(3, 0), record(4, 7), record(5, 0)];
    let mut sorted = sort_by_value(sample.clone());
    assert_eq!(arrivals(&sorted), vec![3, 5, 1, 2, 4]);
    sorted.sort_by_key(|tx| tx.hash.bytes[0]);
    assert_eq!(sorted, sample);
}

#[test]
fn empty_and_single_samples() {
    assert!(sort_by_value(Vec::new()).is_empty());
    assert_eq!(sort_by_value(vec![record(1, 5)]), vec![record(1, 5)]);
    assert!(report(Vec::new()).is_empty());
}

#[test]
fn scales_to_the_display_unit() {
    assert_eq!(display_scaled(&U256::from_u64(1_000_000_000_000_000_000), 18), "1.000000000000000000");
    assert_eq!(display_scaled(&U256::from_u64(12345), 18), "0.000000000000012345");
    assert_eq!(display_scaled(&U256::zero(), 18), "0.000000000000000000");
    assert_eq!(display_scaled(&U256::from_u64(20_500_000_000), 9), "20.500000000");
    assert_eq!(
        display_scaled(&U256 { w0: 0, w1: 1, w2: 0, w3: 0 }, 18),
        "18.446744073709551616"
    );
    assert_eq!(display_scaled(&U256::from_u64(5), 0), "5.0");
    assert_eq!(display_scaled(&U256::from_u64(1234), 2), "12.34");
}

#[test]
fn scale_beyond_the_amount_width_is_not_available() {
    assert_eq!(display_scaled(&U256::from_u64(1), 78), "N/A");
    assert_eq!(display_scaled(&U256::from_u64(1), u32::MAX), "N/A");
    assert_eq!(
        display_scaled(&U256::from_u64(1), 77),
        format!("0.{}1", "0".repeat(76))
    );
}

#[test]
fn describes_a_plain_pending_transfer() {
    let mut tx = record(1, 1_500_000_000_000_000_000);
    tx.gas_price = Some(U256::from_u64(30_000_000_000));
    tx.chain_id = Some(U256::from_u64(1));
    let entry = describe(tx.clone());
    assert_eq!(entry.record, tx);
    assert_eq!(entry.value_display, "1.500000000000000000");
    assert_eq!(entry.gas_price_display, "30.000000000");
    assert_eq!(entry.chain_id, U256::from_u64(1));
    assert_eq!(entry.token, None);
}

#[test]
fn missing_gas_price_and_chain_count_as_zero() {
    let entry = describe(record(1, 0));
    assert_eq!(entry.gas_price_display, "0.000000000");
    assert_eq!(entry.chain_id, U256::zero());
}

#[test]
fn describes_a_token_transfer() {
    let mut tx = record(1, 0);
    let mut input = vec![0xa9, 0x05, 0x9c, 0xbb];
    input.extend_from_slice(&[0u8; 12]);
    input.extend_from_slice(&[0x5a; 20]);
    let mut amount = [0u8; 32];
    amount[24..].copy_from_slice(&2_500_000_000_000_000_000u64.to_be_bytes());
    input.extend_from_slice(&amount);
    tx.input = input;
    let entry = describe(tx);
    assert_eq!(
        entry.token,
        Some(TokenReport {
            info: TokenTransferInfo {
                recipient: format!("0x{}", "5a".repeat(20)),
                amount: U256::from_u64(2_500_000_000_000_000_000),
            },
            amount_display: "2.500000000000000000".to_string(),
        })
    );
}

#[test]
fn unrecognised_call_data_gives_no_token_information() {
    let mut tx = record(1, 0);
    tx.input = vec![0xa9, 0x05, 0x9c, 0xbb, 0x00];
    assert_eq!(describe(tx).token, None);
}

#[test]
fn report_is_sorted_and_described() {
    let sample = vec![record(1, 5), record(2, 1), record(3, 3), record(4, 1)];
    let entries = report(sample);
    let order: Vec<u8> = entries.iter().map(|entry| entry.record.hash.bytes[0]).collect();
    assert_eq!(order, vec![2, 4, 3, 1]);
    assert_eq!(entries[3].value_display, "0.000000000000000005");
    for entry in &entries {
        assert_eq!(entry, &describe(entry.record.clone()));
    }
}
