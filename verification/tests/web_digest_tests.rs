use kmgr::digest::digest_verdict;
use kmgr::digest::{check_download, digest_hex, hash_kind_for, HashKind, HashMismatch};
use kmgr::web::{api_retry_step, download_retry_step, parse_u64, part_path, tmp_path, RetryStep, API_MAX_ATTEMPTS, DOWNLOAD_MAX_ATTEMPTS, HTTP_TIMEOUT_SECS};

const ABC_SHA1: &str = "a9993e364706816aba3e25717850c26c9cd0d89d";
const ABC_SHA512: &str = "ddaf35a193617abacc417349ae20413112e6fa4e89a97ea20a9eeee64b55d39a2192992a274fc1a836ba3c23a3feebbd454d4423643ce80e2a9ac94fa54ca49f";

#[test]
fn parse_u64_accepts_what_str_parse_accepts() {
    assert_eq!(parse_u64("0"), Some(0));
    assert_eq!(parse_u64("42"), Some(42));
    assert_eq!(parse_u64("+7"), Some(7));
    assert_eq!(parse_u64("18446744073709551615"), Some(u64::MAX));
    assert_eq!(parse_u64("18446744073709551616"), None);
    assert_eq!(parse_u64(""), None);
    assert_eq!(parse_u64("+"), None);
    assert_eq!(parse_u64("-1"), None);
    assert_eq!(parse_u64("1.5"), None);
    assert_eq!(parse_u64(" 3"), None);
    for s in ["0", "9", "123456", "+00", "abc", "99999999999999999999"] {
        assert_eq!(parse_u64(s), s.parse::<u64>().ok());
    }
}

#[test]
fn api_retry_waits_by_header_or_backoff() {
    assert_eq!(api_retry_step(false, 0, None), RetryStep::Proceed);
    assert_eq!(api_retry_step(true, 0, Some("10")), RetryStep::Wait(11));
    assert_eq!(api_retry_step(true, 0, None), RetryStep::Wait(2));
    assert_eq!(api_retry_step(true, 3, None), RetryStep::Wait(9));
    assert_eq!(api_retry_step(true, 2, Some("soon")), RetryStep::Wait(5));
    assert_eq!(api_retry_step(true, API_MAX_ATTEMPTS, Some("1")), RetryStep::GiveUp);
    assert_eq!(api_retry_step(false, API_MAX_ATTEMPTS, None), RetryStep::Proceed);
}

#[test]
fn download_retry_backs_off_then_gives_up() {
    assert_eq!(download_retry_step(false, 0), RetryStep::Proceed);
    assert_eq!(download_retry_step(true, 0), RetryStep::Wait(1));
    assert_eq!(download_retry_step(true, 1), RetryStep::Wait(2));
    assert_eq!(download_retry_step(true, 2), RetryStep::Wait(4));
    assert_eq!(download_retry_step(true, DOWNLOAD_MAX_ATTEMPTS), RetryStep::GiveUp);
    assert_eq!(HTTP_TIMEOUT_SECS, 15);
}

#[test]
fn temporary_paths() {
    assert_eq!(part_path("mods/sodium.jar"), "mods/sodium.jar.part");
    assert_eq!(tmp_path("kmgr.toml"), "kmgr.toml.tmp");
}

#[test]
fn digests_of_abc() {
    assert_eq!(digest_hex(b"abc", HashKind::Sha1), ABC_SHA1);
    assert_eq!(digest_hex(b"abc", HashKind::Sha512), ABC_SHA512);
    assert_eq!(digest_hex(b"", HashKind::Sha1), "da39a3ee5e6b4b0d3255bfef95601890afd80709");
}

#[test]
fn hash_kind_follows_the_length() {
    assert_eq!(hash_kind_for(ABC_SHA1), HashKind::Sha1);
    assert_eq!(hash_kind_for(ABC_SHA512), HashKind::Sha512);
    assert_eq!(hash_kind_for("short"), HashKind::Sha512);
}

#[test]
fn hex_digits_are_two_per_byte() {
    assert_eq!(digest_hex(b"abc", HashKind::Sha1).len(), 40);
    assert_eq!(digest_hex(b"abc", HashKind::Sha512).len(), 128);
}

#[test]
fn check_download_compares_with_the_recorded_hash() {
    assert!(check_download(b"abc", None).is_ok());
    assert!(check_download(b"abc", Some(ABC_SHA1)).is_ok());
    assert!(check_download(b"abc", Some(ABC_SHA512)).is_ok());
    match check_download(b"abd", Some(ABC_SHA1)) {
        Err(HashMismatch { expected, actual }) => {
            assert_eq!(expected, ABC_SHA1);
            assert_eq!(actual.len(), 40);
            assert_ne!(actual, ABC_SHA1);
        },
        Ok(()) => panic!("a wrong file passed"),
    }
    let m = HashMismatch { expected: "aa".to_string(), actual: "bb".to_string() };
    assert_eq!(m.message(), "Hash mismatch! Expected: aa, got: bb");
}

#[test]
fn digest_verdict_compares_texts() {
    assert!(digest_verdict("aa".to_string(), "aa").is_ok());
    match digest_verdict("ab".to_string(), "aa") {
        Err(m) => {
            assert_eq!(m.expected, "aa");
            assert_eq!(m.actual, "ab");
        },
        Ok(()) => panic!("different digests were accepted"),
    }
}
