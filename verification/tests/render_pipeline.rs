use lexicrypt::chunk::{chunk_shellcode, chunk_tokens, CHUNK_CAP};
use lexicrypt::codec::encode;
use lexicrypt::config::{select_strategy, SourceStrategy};
use lexicrypt::errors::LexiError;
use lexicrypt::pipeline::run_pipeline;
use lexicrypt::render::{generate_output, Dialect};
use lexicrypt::text::{quote_join, str_eq};
use lexicrypt::words::WordTable;

fn sample_table() -> WordTable {
    let mut words: Vec<String> = vec!["alpha".to_string(), "beta".to_string(), "gamma".to_string()];
    for i in 3..256 {
        words.push(format!("w{}", i));
    }
    WordTable { words }
}

fn tokens(names: &[&str]) -> Vec<String> {
    names.iter().map(|s| s.to_string()).collect()
}

#[test]
fn str_eq_compares_contents() {
    assert!(str_eq("cpp", "cpp"));
    assert!(!str_eq("cpp", "cp"));
    assert!(!str_eq("cpp", "go"));
    assert!(str_eq("", ""));
}

#[test]
fn quote_join_exact() {
    assert_eq!(quote_join(&tokens(&["a", "b"])), "\"a\", \"b\"");
    assert_eq!(quote_join(&tokens(&["solo"])), "\"solo\"");
    let empty: Vec<String> = Vec::new();
    assert_eq!(quote_join(&empty), "");
}

#[test]
fn chunks_partition_the_sequence() {
    let toks: Vec<String> = (0..60).map(|i| format!("t{}", i)).collect();
    let chunks = chunk_tokens(&toks, 25);
    assert_eq!(chunks.len(), 3);
    assert_eq!(chunks[0].len(), 25);
    assert_eq!(chunks[1].len(), 25);
    assert_eq!(chunks[2].len(), 10);
    let merged: Vec<String> = chunks.into_iter().flatten().collect();
    assert_eq!(merged, toks);
    let empty: Vec<String> = Vec::new();
    assert!(chunk_tokens(&empty, 25).is_empty());
}

#[test]
fn chunk_shellcode_exact() {
    let lines = chunk_shellcode(&tokens(&["a", "b", "c"]), 2);
    assert_eq!(lines, vec!["\"a\", \"b\"".to_string(), "\"c\"".to_string()]);
    let one = chunk_shellcode(&tokens(&["x"]), 25);
    assert_eq!(one, vec!["\"x\"".to_string()]);
}

#[test]
fn chunk_cap_is_25() {
    assert_eq!(CHUNK_CAP, 25);
    let toks: Vec<String> = (0..26).map(|i| format!("t{}", i)).collect();
    let chunks = chunk_tokens(&toks, CHUNK_CAP);
    assert_eq!(chunks.len(), 2);
    assert_eq!(chunks[1].len(), 1);
}

#[test]
fn dialect_names_resolve() {
    assert_eq!(Dialect::from_name("cpp"), Some(Dialect::Cpp));
    assert_eq!(Dialect::from_name("rust"), Some(Dialect::Rust));
    assert_eq!(Dialect::from_name("go"), Some(Dialect::Go));
    assert_eq!(Dialect::from_name("csharp"), Some(Dialect::Csharp));
    assert_eq!(Dialect::from_name("powershell"), Some(Dialect::Powershell));
    assert_eq!(Dialect::from_name("powershell_alt"), Some(Dialect::PowershellAlt));
    assert_eq!(Dialect::from_name("wsh"), None);
    assert_eq!(Dialect::from_name("CPP"), None);
    assert_eq!(Dialect::from_name(""), None);
}

#[test]
fn unknown_dialect_fails_before_output() {
    let table = sample_table();
    let payload: Vec<u8> = vec![0, 1, 2];
    let encoded = encode(&payload, &table);
    match generate_output(&encoded, &table, "wsh") {
        Err(e) => assert_eq!(e, LexiError::UnsupportedDialect),
        Ok(_) => panic!("an unrecognized dialect must not produce text"),
    }
    match generate_output(&encoded, &table, "fortran") {
        Err(e) => assert_eq!(e, LexiError::UnsupportedDialect),
        Ok(_) => panic!("an unrecognized dialect must not produce text"),
    }
}

#[test]
fn every_known_dialect_renders() {
    let table = sample_table();
    let payload: Vec<u8> = vec![0, 1, 2];
    let encoded = encode(&payload, &table);
    for name in ["cpp", "rust", "go", "csharp", "powershell", "powershell_alt"] {
        let text = generate_output(&encoded, &table, name).expect("known dialect");
        assert!(text.contains("\"alpha\", \"beta\", \"gamma\""), "{}: table literal missing", name);
        assert!(!text.is_empty());
    }
}

#[test]
fn powershell_render_exact() {
    let table = sample_table();
    let payload: Vec<u8> = vec![0, 2];
    let encoded = encode(&payload, &table);
    let text = generate_output(&encoded, &table, "powershell").expect("known dialect");
    let wordlist_lit = table
        .words
        .iter()
        .map(|w| format!("\"{}\"", w))
        .collect::<Vec<_>>()
        .join(", ");
    let expected = format!(
        "$WordList = @({})\n$EncodedWords = @({})\n$Payload = @()\nforeach ($word in $EncodedWords) {{\n    for ($i = 0; $i -lt $WordList.Count; $i++) {{\n        if ($WordList[$i] -eq $word) {{\n            $Payload += [byte]$i\n            break\n        }}\n    }}\n}}\n$Stdout = [Console]::OpenStandardOutput()\n$Stdout.Write([byte[]]$Payload, 0, $Payload.Count)\n",
        wordlist_lit, "\"alpha\", \"gamma\""
    );
    assert_eq!(text, expected);
}

#[test]
fn cpp_render_chunks_rows() {
    let table = sample_table();
    // 30 bytes: two chunk rows at a capacity of 25.
    let payload: Vec<u8> = (0..30).collect();
    let encoded = encode(&payload, &table);
    let text = generate_output(&encoded, &table, "cpp").expect("known dialect");
    assert!(text.contains("std::vector<std::vector<std::string>> encodedChunks"));
    assert_eq!(text.matches("    {\"").count(), 2);
    assert!(text.contains("{\"alpha\", \"beta\""));
}

#[test]
fn conflicting_word_sources_are_a_config_error() {
    match select_strategy(true, true, false) {
        Err(e) => assert_eq!(e, LexiError::Config),
        Ok(_) => panic!("random together with an override path must fail"),
    }
    match select_strategy(true, true, true) {
        Err(e) => assert_eq!(e, LexiError::Config),
        Ok(_) => panic!("random together with an override directory must fail"),
    }
    assert_eq!(select_strategy(true, false, false), Ok(SourceStrategy::Random));
    assert_eq!(select_strategy(false, true, false), Ok(SourceStrategy::OverrideFile));
    assert_eq!(select_strategy(false, true, true), Ok(SourceStrategy::OverrideDirectory));
    assert_eq!(select_strategy(false, false, false), Ok(SourceStrategy::DefaultDirectory));
}

#[test]
fn pipeline_renders_on_good_input() {
    let payload: Vec<u8> = vec![1, 2, 3, 200];
    let candidates: Vec<String> = (0..300).map(|i| format!("cand{}", i)).collect();
    let out = run_pipeline(&payload, &candidates, "rust").expect("enough candidates, known dialect");
    assert_eq!(out.table.words.len(), 256);
    for w in out.table.words.iter() {
        assert!(candidates.contains(w));
    }
    for b in payload.iter() {
        let word = &out.table.words[*b as usize];
        assert!(out.text.contains(&format!("\"{}\"", word)));
    }
}

#[test]
fn pipeline_reports_unique_count_on_small_pool() {
    let payload: Vec<u8> = vec![1, 2, 3];
    // 240 distinct candidates, several of them repeated.
    let mut candidates: Vec<String> = (0..240).map(|i| format!("cand{}", i)).collect();
    for i in 0..60 {
        candidates.push(format!("cand{}", i));
    }
    match run_pipeline(&payload, &candidates, "go") {
        Err(e) => assert_eq!(e, LexiError::Cardinality { found: 240 }),
        Ok(_) => panic!("240 uniques must not yield a table"),
    }
}

#[test]
fn pipeline_rejects_unknown_dialect_without_output() {
    let payload: Vec<u8> = vec![1, 2, 3];
    let candidates: Vec<String> = (0..300).map(|i| format!("cand{}", i)).collect();
    match run_pipeline(&payload, &candidates, "wsh") {
        Err(e) => assert_eq!(e, LexiError::UnsupportedDialect),
        Ok(_) => panic!("an unrecognized dialect must not produce text"),
    }
}
