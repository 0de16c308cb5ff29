use std::collections::HashSet;

use lexicrypt::codec::{decode, decode_token, encode, verify_encoding};
use lexicrypt::errors::LexiError;
use lexicrypt::words::{build_word_table, dedup_tokens, generate_random_word, random_pool, WordTable};

/// A table whose first three entries are alpha, beta, gamma and whose
/// remaining entries are distinct fillers.
fn sample_table() -> WordTable {
    let mut words: Vec<String> = vec!["alpha".to_string(), "beta".to_string(), "gamma".to_string()];
    for i in 3..256 {
        words.push(format!("w{}", i));
    }
    WordTable { words }
}

fn distinct_pool(n: usize) -> Vec<String> {
    (0..n).map(|i| format!("cand{}", i)).collect()
}

#[test]
fn encode_example() {
    let table = sample_table();
    let payload: Vec<u8> = vec![0x00, 0x01, 0x02];
    let encoded = encode(&payload, &table);
    let words: Vec<&str> = encoded.iter().map(|s| s.as_str()).collect();
    assert_eq!(words, vec!["alpha", "beta", "gamma"]);
    let decoded = decode(&encoded, &table);
    assert_eq!(decoded, Ok(vec![0x00, 0x01, 0x02]));
}

#[test]
fn round_trip_every_byte_value() {
    let table = sample_table();
    let mut payload: Vec<u8> = (0u8..=255).collect();
    payload.extend_from_slice(&[0x90, 0x90, 0xcc, 0x00, 0xff]);
    let encoded = encode(&payload, &table);
    assert_eq!(encoded.len(), payload.len());
    let decoded = decode(&encoded, &table).expect("every emitted token is in the table");
    assert_eq!(decoded, payload);
}

#[test]
fn decode_rejects_foreign_token() {
    let table = sample_table();
    let encoded = vec!["alpha".to_string(), "no-such-word".to_string()];
    assert_eq!(
        decode(&encoded, &table),
        Err(LexiError::TokenNotInTable { position: 1 })
    );
}

#[test]
fn decode_token_finds_position() {
    let table = sample_table();
    assert_eq!(decode_token(&"gamma".to_string(), &table), Some(2));
    assert_eq!(decode_token(&"nowhere".to_string(), &table), None);
}

#[test]
fn built_table_has_256_distinct_entries_from_pool() {
    let pool = distinct_pool(300);
    let table = build_word_table(pool.clone()).expect("300 uniques suffice");
    assert_eq!(table.words.len(), 256);
    let mut seen: HashSet<&str> = HashSet::new();
    for w in table.words.iter() {
        assert!(seen.insert(w.as_str()), "duplicate entry in table: {}", w);
        assert!(pool.iter().any(|p| p == w), "entry not drawn from pool: {}", w);
    }
}

#[test]
fn small_pool_is_a_cardinality_error() {
    let pool = distinct_pool(255);
    match build_word_table(pool) {
        Err(e) => assert_eq!(e, LexiError::Cardinality { found: 255 }),
        Ok(_) => panic!("a pool of 255 must not yield a table"),
    }
    match build_word_table(Vec::new()) {
        Err(e) => assert_eq!(e, LexiError::Cardinality { found: 0 }),
        Ok(_) => panic!("an empty pool must not yield a table"),
    }
}

#[test]
fn duplicate_lines_collapse_to_unique_candidates() {
    // 300 lines, 10 of them exact duplicates of earlier lines.
    let mut lines = distinct_pool(290);
    for i in 0..10 {
        lines.push(format!("cand{}", i));
    }
    assert_eq!(lines.len(), 300);
    let pool = dedup_tokens(&lines);
    assert_eq!(pool.len(), 290);
    let table = build_word_table(pool).expect("290 uniques suffice");
    assert_eq!(table.words.len(), 256);
}

#[test]
fn blank_lines_are_candidates_and_deduplicated() {
    let lines = vec!["".to_string(), "a".to_string(), "".to_string()];
    let pool = dedup_tokens(&lines);
    assert_eq!(pool.len(), 2);
    assert!(pool.iter().any(|w| w.is_empty()));
}

#[test]
fn verify_encoding_accepts_own_encoding() {
    let table = sample_table();
    let payload: Vec<u8> = vec![5, 200, 0, 17, 255, 3, 9, 12, 44, 91, 7];
    let encoded = encode(&payload, &table);
    assert_eq!(verify_encoding(&payload, &encoded, &table), Ok(()));
}

#[test]
fn verify_encoding_reports_first_mismatch() {
    let table = sample_table();
    let payload: Vec<u8> = vec![0, 1, 2];
    let mut encoded = encode(&payload, &table);
    // A token of a different byte value at position 1.
    encoded[1] = "gamma".to_string();
    assert_eq!(
        verify_encoding(&payload, &encoded, &table),
        Err(LexiError::VerifyMismatch { position: 1 })
    );
}

#[test]
fn random_words_are_lowercase_of_fixed_length() {
    for _ in 0..50 {
        let w = generate_random_word(4);
        assert_eq!(w.len(), 4);
        assert!(w.chars().all(|c| c.is_ascii_lowercase()));
    }
    let w = generate_random_word(0);
    assert!(w.is_empty());
}

#[test]
fn random_pool_has_256_candidates() {
    let pool = random_pool();
    assert_eq!(pool.len(), 256);
    for w in pool.iter() {
        assert_eq!(w.len(), 4);
        assert!(w.chars().all(|c| c.is_ascii_lowercase()));
    }
}

#[test]
fn two_builds_may_differ_but_both_are_well_formed() {
    let pool = distinct_pool(300);
    let t1 = build_word_table(pool.clone()).expect("enough uniques");
    let t2 = build_word_table(pool).expect("enough uniques");
    assert_eq!(t1.words.len(), 256);
    assert_eq!(t2.words.len(), 256);
    // Both are usable for a round trip whatever permutation was drawn.
    let payload: Vec<u8> = vec![1, 2, 3, 254];
    assert_eq!(decode(&encode(&payload, &t1), &t1), Ok(payload.clone()));
    assert_eq!(decode(&encode(&payload, &t2), &t2), Ok(payload));
}
