use mnemonic_pipeline::address::derive_addresses;
use mnemonic_pipeline::chunker::{chunk_lines, Chunk};
use mnemonic_pipeline::derive::ChildIndex;
use mnemonic_pipeline::mnemonic::Mnemonic;
use mnemonic_pipeline::record::{derive_line_record, process_chunk, process_lines};
use mnemonic_pipeline::validate::is_candidate;

const TEST_MNEMONIC: &str = "abandon abandon abandon abandon abandon abandon abandon abandon abandon abandon abandon about";

fn to_hex(bytes: &[u8]) -> String {
    let digits = b"0123456789abcdef";
    let mut out = String::new();
    for b in bytes {
        out.push(digits[(b >> 4) as usize] as char);
        out.push(digits[(b & 0x0f) as usize] as char);
    }
    out
}

#[test]
fn validator_accepts_alphanumeric_lines_only() {
    assert!(is_candidate("abandonabandonabout"));
    assert!(is_candidate("abc123"));
    assert!(!is_candidate(""));
    assert!(!is_candidate("   "));
    assert!(!is_candidate("two words"));
    assert!(!is_candidate("punct!uation"));
}

#[test]
fn root_seed_matches_reference_vector() {
    let mnemonic = Mnemonic::parse(TEST_MNEMONIC).unwrap();
    let seed = mnemonic.to_root_seed();
    assert_eq!(seed.len(), 64);
    assert_eq!(
        to_hex(&seed),
        "5eb00bbddcf069084889a8ab9155568165f5c453ccb85e70811aaed6f6da5fc19a5ac40b389cd370d086206dec8aa6c43daea6690f20ad3d8d48b2d2ce9e38e4"
    );
}

#[test]
fn parse_rejects_checksum_failure() {
    assert!(Mnemonic::parse("abandon abandon abandon abandon abandon abandon abandon abandon abandon abandon abandon abandon").is_err());
    assert!(Mnemonic::parse("notarealseedphraseatall").is_err());
    assert!(Mnemonic::parse(TEST_MNEMONIC).is_ok());
}

#[test]
fn derives_known_test_vector_addresses() {
    let mnemonic = Mnemonic::parse(TEST_MNEMONIC).unwrap();
    let triple = derive_addresses(&mnemonic).unwrap();
    assert_eq!(triple.p2pkh, "1LqBGSKuX5yYUonjxT5qGfpUsXKYYWeabA");
    assert_eq!(triple.p2sh_wpkh, "37VucYSaXLCAsxYyAPfbSi9eh4iEcbShgf");
    assert_eq!(triple.p2wpkh, "bc1qcr8te4kr609gcawutmrza0j4xv80jy8z306fyu");
}

#[test]
fn derivation_is_deterministic() {
    let mnemonic = Mnemonic::parse(TEST_MNEMONIC).unwrap();
    let first = derive_addresses(&mnemonic).unwrap();
    let second = derive_addresses(&mnemonic).unwrap();
    assert_eq!(first.p2pkh, second.p2pkh);
    assert_eq!(first.p2sh_wpkh, second.p2sh_wpkh);
    assert_eq!(first.p2wpkh, second.p2wpkh);
    let again = derive_line_record(TEST_MNEMONIC).unwrap();
    assert_eq!(again, derive_line_record(TEST_MNEMONIC).unwrap());
}

#[test]
fn valid_mnemonic_line_yields_three_prefixed_addresses() {
    let record = derive_line_record(TEST_MNEMONIC).unwrap();
    let parts: Vec<&str> = record.split(' ').collect();
    assert_eq!(parts.len(), 3);
    for part in &parts {
        assert!(!part.is_empty());
    }
    assert!(parts[0].starts_with('1'));
    assert!(parts[1].starts_with('3'));
    assert!(parts[2].starts_with("bc1"));
    assert_ne!(parts[0], parts[1]);
    assert_ne!(parts[0], parts[2]);
    assert_ne!(parts[1], parts[2]);
}

#[test]
fn spaced_phrase_is_dropped_not_reported() {
    let line = "not a real seed phrase at all";
    assert!(!is_candidate(line));
    let outputs = process_lines(&vec![line.to_string()], 10000).unwrap();
    assert!(outputs.is_empty());
}

#[test]
fn alphanumeric_invalid_phrase_yields_one_error_record() {
    let line = "notarealseedphraseatall123";
    assert!(is_candidate(line));
    let outputs = process_lines(&vec![line.to_string()], 10000).unwrap();
    assert_eq!(outputs.len(), 1);
    assert_eq!(outputs[0], format!("Error: Invalid seed phrase - {}\n", line));
}

#[test]
fn record_count_matches_accepted_lines() {
    let lines = vec![
        "firstbadphrase".to_string(),
        "this one has spaces".to_string(),
        "secondbadphrase".to_string(),
    ];
    let outputs = process_lines(&lines, 10000).unwrap();
    assert_eq!(outputs.len(), 1);
    let records: Vec<&str> = outputs[0].lines().collect();
    assert_eq!(records.len(), 2);
    assert_eq!(records[0], "Error: Invalid seed phrase - firstbadphrase");
    assert_eq!(records[1], "Error: Invalid seed phrase - secondbadphrase");
}

#[test]
fn chunk_boundary_exactly_at_threshold() {
    let lines = vec!["abc".to_string(), "xyz".to_string(), "tail".to_string()];
    let chunks = chunk_lines(&lines, 8);
    assert_eq!(chunks.len(), 2);
    assert_eq!(chunks[0].lines, vec!["abc".to_string(), "xyz".to_string()]);
    assert_eq!(chunks[1].lines, vec!["tail".to_string()]);
}

#[test]
fn chunk_not_sealed_below_threshold() {
    let chunks = chunk_lines(&vec!["abc".to_string(), "xyz".to_string()], 9);
    assert_eq!(chunks.len(), 1);
    assert_eq!(chunks[0].lines.len(), 2);
}

#[test]
fn chunk_seals_with_crossing_line_included() {
    let chunks = chunk_lines(&vec!["abc".to_string(), "xyz".to_string()], 5);
    assert_eq!(chunks.len(), 1);
    assert_eq!(chunks[0].lines, vec!["abc".to_string(), "xyz".to_string()]);
}

#[test]
fn residual_buffer_becomes_final_chunk() {
    let chunks = chunk_lines(&vec!["abcdefg".to_string(), "hi".to_string()], 8);
    assert_eq!(chunks.len(), 2);
    assert_eq!(chunks[0].lines, vec!["abcdefg".to_string()]);
    assert_eq!(chunks[1].lines, vec!["hi".to_string()]);
}

#[test]
fn hardened_index_uses_standard_offset() {
    let hardened = ChildIndex::hardened(44).unwrap();
    let raw = ChildIndex::from_raw(44 + 0x8000_0000);
    assert_eq!(hardened.raw(), raw.raw());
    assert_eq!(hardened, raw);
    assert_eq!(ChildIndex::normal(7).unwrap().raw(), 7);
    assert!(ChildIndex::hardened(0x8000_0000).is_none());
    assert!(ChildIndex::normal(0x8000_0000).is_none());
}

#[test]
fn empty_chunk_produces_single_newline() {
    let chunk = Chunk { lines: Vec::new() };
    let text = process_chunk(&chunk).unwrap();
    assert_eq!(text, "\n");
}

#[test]
fn process_chunk_keeps_line_order() {
    let chunk = Chunk {
        lines: vec![
            "zzzbadphrase".to_string(),
            TEST_MNEMONIC.to_string(),
            "aaabadphrase".to_string(),
        ],
    };
    let text = process_chunk(&chunk).unwrap();
    let records: Vec<&str> = text.lines().collect();
    assert_eq!(records.len(), 3);
    assert_eq!(records[0], "Error: Invalid seed phrase - zzzbadphrase");
    assert!(records[1].starts_with('1'));
    assert_eq!(records[2], "Error: Invalid seed phrase - aaabadphrase");
    assert!(text.ends_with('\n'));
}
