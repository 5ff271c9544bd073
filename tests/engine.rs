use chunk_downloader::acquire::cache_name_span;
use chunk_downloader::acquire::next_chunk_action;
use chunk_downloader::acquire::ChunkAction;
use chunk_downloader::acquire::ChunkEvent;
use chunk_downloader::assemble::assemble;
use chunk_downloader::assemble::finish_chunks;
use chunk_downloader::assemble::ChunkTable;
use chunk_downloader::check::algorithm_for;
use chunk_downloader::check::judge_digest;
use chunk_downloader::check::verify_chunk_hash;
use chunk_downloader::check::HashAlgorithm;
use chunk_downloader::check::HashOutcome;
use chunk_downloader::digest::calculate_file_md5;
use chunk_downloader::digest::calculate_file_sha1;
use chunk_downloader::digest::calculate_file_sha256;
use chunk_downloader::phase::settle;
use chunk_downloader::probe::collect_hashes;
use chunk_downloader::probe::file_meta_from_response;
use chunk_downloader::probe::parse_content_length;
use chunk_downloader::probe::FileMeta;
use chunk_downloader::probe::ProbeError;

const HELLO_MD5: &str = "5d41402abc4b2a76b9719d911017c592";
const HELLO_SHA1: &str = "aaf4c61ddcc5e8a2dabede0f3b482cd9aea9434d";
const HELLO_SHA256: &str = "2cf24dba5fb0a30e26e83b2ac5b9e29e1b161e5c1fa7425e73043362938b9824";

fn table_of(chunks: &[&[u8]]) -> ChunkTable {
    let mut t = ChunkTable::new(chunks.len());
    for (i, c) in chunks.iter().enumerate() {
        t.deposit(i, c.to_vec());
    }
    t
}

#[test]
fn two_chunks_assemble_in_order() {
    let mut t = ChunkTable::new(2);
    t.deposit(1, b"CD".to_vec());
    t.deposit(0, b"AB".to_vec());
    let hashes = vec![String::new(), String::new()];
    let a = assemble(&t, &hashes);
    assert_eq!(a.bytes, b"ABCD".to_vec());
    assert_eq!(a.verdicts.len(), 2);
    for v in &a.verdicts {
        assert!(matches!(v.as_ref().unwrap().outcome, HashOutcome::Skipped));
    }
}

#[test]
fn output_is_concatenation_whatever_the_deposit_order() {
    let chunks: [&[u8]; 4] = [b"one-", b"", b"two-", b"three"];
    let mut t = ChunkTable::new(4);
    for i in [3usize, 0, 2, 1] {
        assert!(!t.is_filled(i));
        t.deposit(i, chunks[i].to_vec());
        assert!(t.is_filled(i));
    }
    let hashes = vec![String::new(); 4];
    assert_eq!(assemble(&t, &hashes).bytes, b"one-two-three".to_vec());
}

#[test]
fn empty_slots_are_passed_over() {
    let mut t = ChunkTable::new(3);
    t.deposit(2, b"z".to_vec());
    let a = assemble(&t, &vec![String::new(); 3]);
    assert_eq!(a.bytes, b"z".to_vec());
    assert!(a.verdicts[0].is_none());
    assert!(a.verdicts[1].is_none());
    assert_eq!(a.verdicts[2].as_ref().unwrap().index, 2);
}

#[test]
fn empty_table_gives_empty_output() {
    let t = ChunkTable::new(0);
    assert_eq!(t.len(), 0);
    let a = assemble(&t, &Vec::new());
    assert!(a.bytes.is_empty());
    assert!(a.verdicts.is_empty());
}

#[test]
fn mismatched_chunk_is_still_written() {
    let t = table_of(&[b"hello", b"world"]);
    let wrong = "00000000000000000000000000000000".to_string();
    let a = assemble(&t, &vec![wrong, String::new()]);
    assert_eq!(a.bytes, b"helloworld".to_vec());
    match &a.verdicts[0].as_ref().unwrap().outcome {
        HashOutcome::Mismatch { actual } => assert_eq!(actual, HELLO_MD5),
        other => panic!("unexpected outcome {:?}", other),
    }
    assert!(matches!(a.verdicts[1].as_ref().unwrap().outcome, HashOutcome::Skipped));
}

#[test]
fn matching_hashes_are_reported() {
    let t = table_of(&[b"hello", b"hello", b"hello"]);
    let hashes = vec![HELLO_MD5.to_string(), HELLO_SHA1.to_string(), HELLO_SHA256.to_string()];
    let a = assemble(&t, &hashes);
    assert_eq!(a.bytes, b"hellohellohello".to_vec());
    for (i, v) in a.verdicts.iter().enumerate() {
        let v = v.as_ref().unwrap();
        assert_eq!(v.index, i);
        assert!(matches!(v.outcome, HashOutcome::Matched));
    }
}

#[test]
fn digests_of_hello() {
    assert_eq!(calculate_file_md5(b"hello"), HELLO_MD5);
    assert_eq!(calculate_file_sha1(b"hello"), HELLO_SHA1);
    assert_eq!(calculate_file_sha256(b"hello"), HELLO_SHA256);
}

#[test]
fn digests_of_empty_input() {
    assert_eq!(calculate_file_md5(b""), "d41d8cd98f00b204e9800998ecf8427e");
    assert_eq!(calculate_file_sha1(b""), "da39a3ee5e6b4b0d3255bfef95601890afd80709");
    assert_eq!(
        calculate_file_sha256(b""),
        "e3b0c44298fc1c149afbf4c8996fb92427ae41e4649b934ca495991b7852b855"
    );
}

#[test]
fn hash_length_selects_algorithm() {
    assert_eq!(algorithm_for(32), Some(HashAlgorithm::Md5));
    assert_eq!(algorithm_for(40), Some(HashAlgorithm::Sha1));
    assert_eq!(algorithm_for(64), Some(HashAlgorithm::Sha256));
    assert_eq!(algorithm_for(0), None);
    assert_eq!(algorithm_for(31), None);
    assert_eq!(algorithm_for(128), None);
}

#[test]
fn verify_dispatches_on_hash_length() {
    assert!(matches!(verify_chunk_hash(b"hello", HELLO_MD5, 0).outcome, HashOutcome::Matched));
    assert!(matches!(verify_chunk_hash(b"hello", HELLO_SHA1, 1).outcome, HashOutcome::Matched));
    assert!(matches!(verify_chunk_hash(b"hello", HELLO_SHA256, 2).outcome, HashOutcome::Matched));
    let v = verify_chunk_hash(b"hello", "abc", 7);
    assert_eq!(v.index, 7);
    assert!(matches!(v.outcome, HashOutcome::UnknownAlgorithm));
    assert!(matches!(verify_chunk_hash(b"hello", "", 3).outcome, HashOutcome::Skipped));
}

#[test]
fn verify_is_case_sensitive() {
    let upper = HELLO_SHA1.to_uppercase();
    match verify_chunk_hash(b"hello", &upper, 0).outcome {
        HashOutcome::Mismatch { actual } => assert_eq!(actual, HELLO_SHA1),
        other => panic!("unexpected outcome {:?}", other),
    }
}

#[test]
fn judge_compares_exactly() {
    assert!(matches!(judge_digest("ab", "ab".to_string()), HashOutcome::Matched));
    match judge_digest("ab", "aB".to_string()) {
        HashOutcome::Mismatch { actual } => assert_eq!(actual, "aB"),
        other => panic!("unexpected outcome {:?}", other),
    }
}

#[test]
fn content_length_parses_like_i64() {
    assert_eq!(parse_content_length(b"0"), Some(0));
    assert_eq!(parse_content_length(b"1234"), Some(1234));
    assert_eq!(parse_content_length(b"+17"), Some(17));
    assert_eq!(parse_content_length(b"-17"), Some(-17));
    assert_eq!(parse_content_length(b"007"), Some(7));
    assert_eq!(parse_content_length(b"9223372036854775807"), Some(i64::MAX));
    assert_eq!(parse_content_length(b"-9223372036854775808"), Some(i64::MIN));
    assert_eq!(parse_content_length(b"9223372036854775808"), None);
    assert_eq!(parse_content_length(b"-9223372036854775809"), None);
    assert_eq!(parse_content_length(b"123456789012345678901234567890"), None);
    assert_eq!(parse_content_length(b""), None);
    assert_eq!(parse_content_length(b"-"), None);
    assert_eq!(parse_content_length(b"+"), None);
    assert_eq!(parse_content_length(b"12a"), None);
    assert_eq!(parse_content_length(b" 12"), None);
    assert_eq!(parse_content_length(b"+-1"), None);
}

#[test]
fn probe_response_with_etag() {
    let m = file_meta_from_response(200, Some(b"42"), Some(HELLO_MD5.to_string())).unwrap();
    assert_eq!(m.size, 42);
    assert_eq!(m.hash, HELLO_MD5);
}

#[test]
fn probe_response_without_etag_has_empty_hash() {
    let m = file_meta_from_response(200, Some(b"5"), None).unwrap();
    assert_eq!(m.size, 5);
    assert_eq!(m.hash, "");
}

#[test]
fn probe_errors() {
    assert_eq!(
        file_meta_from_response(404, Some(b"5"), None).err(),
        Some(ProbeError::BadStatus(404))
    );
    assert_eq!(
        file_meta_from_response(200, None, None).err(),
        Some(ProbeError::InvalidContentLength)
    );
    assert_eq!(
        file_meta_from_response(200, Some(b"five"), None).err(),
        Some(ProbeError::InvalidContentLength)
    );
}

fn meta(hash: &str) -> FileMeta {
    FileMeta { size: 2, hash: hash.to_string() }
}

#[test]
fn failed_probe_fails_the_run() {
    let results: Vec<Result<FileMeta, ProbeError>> =
        vec![Ok(meta("a")), Err(ProbeError::BadStatus(404)), Ok(meta("c"))];
    assert_eq!(collect_hashes(results).err(), Some(ProbeError::BadStatus(404)));
}

#[test]
fn first_failed_probe_is_reported() {
    let results: Vec<Result<FileMeta, ProbeError>> = vec![
        Ok(meta("a")),
        Err(ProbeError::InvalidContentLength),
        Err(ProbeError::BadStatus(500)),
    ];
    assert_eq!(collect_hashes(results).err(), Some(ProbeError::InvalidContentLength));
}

#[test]
fn successful_probes_give_hashes_in_order() {
    let results: Vec<Result<FileMeta, ProbeError>> = vec![Ok(meta("x")), Ok(meta("")), Ok(meta("z"))];
    let hashes = collect_hashes(results).ok().unwrap();
    assert_eq!(hashes, vec!["x".to_string(), String::new(), "z".to_string()]);
}

#[test]
fn settle_keeps_values_or_first_error() {
    let ok: Vec<Result<u8, &str>> = vec![Ok(1), Ok(2)];
    assert_eq!(settle(ok), Ok(vec![1, 2]));
    let bad: Vec<Result<u8, &str>> = vec![Ok(1), Err("second"), Err("third")];
    assert_eq!(settle(bad), Err("second"));
    let none: Vec<Result<u8, &str>> = Vec::new();
    assert_eq!(settle(none), Ok(Vec::new()));
}

#[test]
fn failed_fetch_means_no_assembly() {
    let t = table_of(&[b"AB", b"CD"]);
    let hashes = vec![String::new(), String::new()];
    let r = finish_chunks(&t, &hashes, vec![Ok(()), Err("fetch failed")]);
    assert_eq!(r.err(), Some("fetch failed"));
    let ok: Vec<Result<(), &str>> = vec![Ok(()), Ok(())];
    assert_eq!(finish_chunks(&t, &hashes, ok).ok().unwrap().bytes, b"ABCD".to_vec());
}

#[test]
fn cached_run_reads_then_uses_cache() {
    assert!(matches!(next_chunk_action(true, ChunkEvent::Started), ChunkAction::ReadCache));
    match next_chunk_action(true, ChunkEvent::CacheHit(b"primed".to_vec())) {
        ChunkAction::Resolve(b) => assert_eq!(b, b"primed".to_vec()),
        other => panic!("unexpected action {:?}", other),
    }
}

#[test]
fn cache_miss_fetches_and_stores() {
    assert!(matches!(next_chunk_action(true, ChunkEvent::CacheMiss), ChunkAction::Fetch));
    match next_chunk_action(true, ChunkEvent::Fetched(b"net".to_vec())) {
        ChunkAction::WriteCache(b) => assert_eq!(b, b"net".to_vec()),
        other => panic!("unexpected action {:?}", other),
    }
    match next_chunk_action(true, ChunkEvent::CacheWritten(b"net".to_vec())) {
        ChunkAction::Resolve(b) => assert_eq!(b, b"net".to_vec()),
        other => panic!("unexpected action {:?}", other),
    }
}

#[test]
fn uncached_run_fetches_directly() {
    assert!(matches!(next_chunk_action(false, ChunkEvent::Started), ChunkAction::Fetch));
    match next_chunk_action(false, ChunkEvent::Fetched(b"AB".to_vec())) {
        ChunkAction::Resolve(b) => assert_eq!(b, b"AB".to_vec()),
        other => panic!("unexpected action {:?}", other),
    }
    assert!(matches!(next_chunk_action(false, ChunkEvent::FetchFailed), ChunkAction::Abort));
}

fn name_of(url: &str) -> Option<&str> {
    cache_name_span(url).map(|(a, b)| &url[a..b])
}

#[test]
fn cache_name_is_final_path_component() {
    assert_eq!(name_of("http://cdn.example.com/parts/chunk_001.bin"), Some("chunk_001.bin"));
    assert_eq!(name_of("http://cdn.example.com/parts/"), Some("parts"));
    assert_eq!(name_of("http://cdn.example.com/parts/."), Some("parts"));
    assert_eq!(name_of("http://cdn.example.com//x//"), Some("x"));
    assert_eq!(name_of("plain"), Some("plain"));
    assert_eq!(name_of("a/b?x=1"), Some("b?x=1"));
}

#[test]
fn cache_name_absent_for_parent_or_root() {
    assert_eq!(name_of("http://cdn.example.com/.."), None);
    assert_eq!(name_of("/"), None);
    assert_eq!(name_of(""), None);
    assert_eq!(name_of("."), None);
    assert_eq!(name_of("./."), None);
}
