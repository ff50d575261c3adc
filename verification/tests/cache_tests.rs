use bytecode_verifier::cache::{after_failed_fetch, BinaryCache, CompilerBinary, Completion, Resolution, Retry};
use bytecode_verifier::version::CompilerVersion;

fn binary(patch: u64, checksum: Vec<u8>) -> CompilerBinary {
    CompilerBinary {
        version: CompilerVersion::new(0, 3, patch),
        path: format!("/compilers/0.3.{}/vyper", patch),
        checksum,
    }
}

#[test]
fn the_first_to_ask_is_told_to_fetch() {
    let mut cache = BinaryCache::new();
    assert!(matches!(cache.begin(CompilerVersion::new(0, 3, 7)), Resolution::Fetch));
    assert!(cache.resolved(&CompilerVersion::new(0, 3, 7)).is_none());
}

#[test]
fn whoever_asks_during_a_fetch_is_told_to_wait() {
    let mut cache = BinaryCache::new();
    assert!(matches!(cache.begin(CompilerVersion::new(0, 3, 7)), Resolution::Fetch));
    assert!(matches!(cache.begin(CompilerVersion::new(0, 3, 7)), Resolution::Wait));
    assert!(matches!(cache.begin(CompilerVersion::new(0, 3, 7)), Resolution::Wait));
}

#[test]
fn different_versions_are_fetched_side_by_side() {
    let mut cache = BinaryCache::new();
    assert!(matches!(cache.begin(CompilerVersion::new(0, 3, 7)), Resolution::Fetch));
    assert!(matches!(cache.begin(CompilerVersion::new(0, 3, 9)), Resolution::Fetch));
}

#[test]
fn a_fetched_binary_is_kept() {
    let mut cache = BinaryCache::new();
    cache.begin(CompilerVersion::new(0, 3, 7));
    assert_eq!(cache.complete(binary(7, vec![1, 2, 3]), &vec![1, 2, 3]), Completion::Stored);
    match cache.begin(CompilerVersion::new(0, 3, 7)) {
        Resolution::Ready(path) => assert_eq!(path, "/compilers/0.3.7/vyper"),
        other => panic!("unexpected: {:?}", other),
    }
    let held = cache.resolved(&CompilerVersion::new(0, 3, 7)).unwrap();
    assert_eq!(held.checksum, vec![1, 2, 3]);
}

#[test]
fn a_binary_with_the_wrong_checksum_is_dropped() {
    let mut cache = BinaryCache::new();
    cache.begin(CompilerVersion::new(0, 3, 7));
    assert_eq!(cache.complete(binary(7, vec![1, 2, 3]), &vec![1, 2, 4]), Completion::Corrupt);
    assert!(cache.resolved(&CompilerVersion::new(0, 3, 7)).is_none());
    assert!(matches!(cache.begin(CompilerVersion::new(0, 3, 7)), Resolution::Fetch));
}

#[test]
fn a_binary_that_nobody_fetched_is_not_taken() {
    let mut cache = BinaryCache::new();
    assert_eq!(cache.complete(binary(7, vec![1]), &vec![1]), Completion::Unexpected);
    assert!(cache.resolved(&CompilerVersion::new(0, 3, 7)).is_none());
}

#[test]
fn a_held_binary_is_never_replaced_or_dropped() {
    let mut cache = BinaryCache::new();
    cache.begin(CompilerVersion::new(0, 3, 7));
    cache.complete(binary(7, vec![1]), &vec![1]);
    assert_eq!(cache.complete(binary(7, vec![9]), &vec![9]), Completion::Unexpected);
    assert!(!cache.abandon(&CompilerVersion::new(0, 3, 7)));
    cache.begin(CompilerVersion::new(0, 3, 9));
    assert!(cache.abandon(&CompilerVersion::new(0, 3, 9)));
    assert_eq!(cache.resolved(&CompilerVersion::new(0, 3, 7)).unwrap().checksum, vec![1]);
}

#[test]
fn a_fetch_that_was_given_up_can_be_started_again() {
    let mut cache = BinaryCache::new();
    cache.begin(CompilerVersion::new(0, 3, 7));
    assert!(cache.abandon(&CompilerVersion::new(0, 3, 7)));
    assert!(!cache.abandon(&CompilerVersion::new(0, 3, 7)));
    assert!(matches!(cache.begin(CompilerVersion::new(0, 3, 7)), Resolution::Fetch));
}

#[test]
fn failed_fetches_are_tried_again_up_to_the_limit() {
    assert_eq!(after_failed_fetch(0, 3), Retry::Again);
    assert_eq!(after_failed_fetch(2, 3), Retry::Again);
    assert_eq!(after_failed_fetch(3, 3), Retry::GiveUp);
    assert_eq!(after_failed_fetch(4, 3), Retry::GiveUp);
    assert_eq!(after_failed_fetch(0, 0), Retry::GiveUp);
}
