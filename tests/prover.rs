use raiko_host::primitives::{Address, Hash32, Word};
use raiko_host::prover::{check_eq, compare_headers, HeaderField};
use raiko_host::sgx::parse_sgx_result;
use raiko_host::state::Header;

fn header() -> Header {
    Header {
        parent_hash: Hash32 { high: 1, low: 2 },
        ommers_hash: Hash32 { high: 0, low: 0 },
        beneficiary: Address { high: 0, low: 9 },
        state_root: Hash32 { high: 3, low: 4 },
        transactions_root: Hash32 { high: 5, low: 6 },
        receipts_root: Hash32 { high: 7, low: 8 },
        withdrawals_root: Some(Hash32 { high: 0, low: 1 }),
        logs_bloom: vec![0u8; 256],
        difficulty: Word { high: 0, low: 0 },
        number: 19707175,
        gas_limit: 30_000_000,
        gas_used: 12_000_000,
        timestamp: 1_714_000_000,
        mix_hash: Hash32 { high: 0, low: 0 },
        nonce: 0,
        base_fee_per_gas: Some(10),
        blob_gas_used: Some(0),
        excess_blob_gas: Some(0),
        parent_beacon_block_root: None,
        extra_data: vec![1, 2, 3],
    }
}

#[test]
fn check_eq_reports_only_mismatches() {
    assert_eq!(check_eq(&5u64, &5u64, "gas_used"), None);
    assert_eq!(check_eq(&5u64, &6u64, "gas_used"), Some("gas_used".to_string()));
    assert_eq!(check_eq(&vec![1u8, 2], &vec![1u8, 2], "extra_data"), None);
    assert_eq!(check_eq(&vec![1u8, 2], &vec![1u8], "extra_data"), Some("extra_data".to_string()));
    assert_eq!(check_eq(&Some(1u64), &None, "blob_gas_used"), Some("blob_gas_used".to_string()));
}

#[test]
fn identical_headers_have_no_mismatch() {
    assert!(compare_headers(&header(), &header()).is_empty());
}

#[test]
fn every_differing_field_is_reported_in_order() {
    let mut other = header();
    other.state_root = Hash32 { high: 0, low: 0 };
    other.gas_used = 1;
    other.extra_data = vec![];
    other.parent_beacon_block_root = Some(Hash32 { high: 1, low: 1 });
    assert_eq!(
        compare_headers(&header(), &other),
        vec![
            HeaderField::StateRoot,
            HeaderField::GasUsed,
            HeaderField::ParentBeaconBlockRoot,
            HeaderField::ExtraData
        ]
    );
}

#[test]
fn sgx_result_takes_first_json_line() {
    let out = b"starting guest\n  {\"proof\": \"0xabc\", \"quote\": \"0x01\"}  \r\n{\"proof\": \"later\"}\n";
    let r = parse_sgx_result(out.to_vec()).expect("utf-8");
    assert_eq!(r.proof, "0xabc");
    assert_eq!(r.quote, "0x01");
}

#[test]
fn sgx_result_without_json_has_empty_fields() {
    let r = parse_sgx_result(b"no json here\nnor here".to_vec()).expect("utf-8");
    assert_eq!(r.proof, "");
    assert_eq!(r.quote, "");
    let r = parse_sgx_result(b"{\"proof\": 5}".to_vec()).expect("utf-8");
    assert_eq!(r.proof, "");
}

#[test]
fn sgx_result_rejects_invalid_utf8() {
    assert!(parse_sgx_result(vec![0xff, 0xfe, b'\n']).is_err());
}
