use std::time::{Duration, UNIX_EPOCH};

use scriptorium::clock::{nonce, shorter, time_since_epoch, unix_now};
use scriptorium::config::{
    default_agent_gid, default_agent_uid, default_cpu_millis, default_docker_timeout,
    default_exec_queue_timeout, default_exec_timeout, default_fetch_max_body,
    default_fetch_timeout, default_heavy_cpu_millis, default_heavy_memory_bytes,
    default_heavy_pids, default_heavy_tmpfs_bytes, default_max_concurrent_execs,
    default_memory_bytes, default_multipart_threshold, default_part_size, default_pids,
    default_signed_url_expires, default_signed_url_max, default_tmpfs_bytes, default_tos_prefix,
    default_upload_timeout, default_workspace_mount, ConcurrencyConfig, FetchConfig,
};
use scriptorium::text::{blank, decimal_text, hex_text, pad_zeros, same_text};

#[test]
fn numerals_are_those_of_the_standard_library() {
    for n in [0, 1, 9, 10, 15, 16, 255, 256, 1_000_000, u64::MAX - 1, u64::MAX] {
        assert_eq!(decimal_text(n), n.to_string());
        assert_eq!(hex_text(n), format!("{n:x}"));
        assert_eq!(pad_zeros(&hex_text(n), 8), format!("{n:08x}"));
    }
}

#[test]
fn blank_is_what_trims_to_nothing() {
    for c in (0..=0x10_ffffu32).filter_map(char::from_u32) {
        let s = c.to_string();
        assert_eq!(blank(&s), s.trim().is_empty(), "{c:?}");
    }
    assert!(blank("") && blank(" \n") && !blank(" a "));
}

#[test]
fn texts_are_the_same_character_by_character() {
    assert!(same_text("", "") && same_text("grün", "grün"));
    assert!(!same_text("a", "b") && !same_text("a", "aa") && !same_text("é", "e"));
}

#[test]
fn time_is_counted_from_the_epoch() {
    let t = UNIX_EPOCH + Duration::from_millis(1500);
    assert_eq!(time_since_epoch(&t), Duration::from_millis(1500));
    let before = UNIX_EPOCH - Duration::from_secs(1);
    assert_eq!(time_since_epoch(&before), Duration::from_secs(0));
    assert!(unix_now() > Duration::from_secs(1_600_000_000));
}

#[test]
fn nonces_are_the_low_bits() {
    assert_eq!(nonce(&Duration::from_nanos(77)), 77);
    let long = Duration::from_secs(u64::MAX);
    assert_eq!(nonce(&long), long.as_nanos() as u64);
}

#[test]
fn the_shorter_time_is_taken() {
    let (a, b) = (Duration::from_secs(1), Duration::from_secs(2));
    assert_eq!(shorter(a, b), a);
    assert_eq!(shorter(b, a), a);
}

#[test]
fn defaults_are_the_documented_ones() {
    assert_eq!(default_docker_timeout(), 60);
    assert_eq!(default_exec_timeout(), 300);
    assert_eq!(default_cpu_millis(), 2000);
    assert_eq!(default_memory_bytes(), 2 << 30);
    assert_eq!(default_pids(), 256);
    assert_eq!(default_tmpfs_bytes(), 1 << 30);
    assert_eq!(default_heavy_cpu_millis(), 4000);
    assert_eq!(default_heavy_memory_bytes(), 8 << 30);
    assert_eq!(default_heavy_pids(), 512);
    assert_eq!(default_heavy_tmpfs_bytes(), 2 << 30);
    assert_eq!((default_agent_uid(), default_agent_gid()), (1000, 1000));
    assert_eq!(default_workspace_mount(), "/home/agent");
    assert_eq!(default_tos_prefix(), "sandbox/");
    assert_eq!((default_signed_url_expires(), default_signed_url_max()), (3600, 86400));
    assert_eq!((default_part_size(), default_multipart_threshold()), (8 << 20, 64 << 20));
    assert_eq!(default_upload_timeout(), 300);
    assert_eq!((default_fetch_timeout(), default_fetch_max_body()), (60, 1 << 30));
    assert_eq!((default_max_concurrent_execs(), default_exec_queue_timeout()), (4, 30));
    let c = ConcurrencyConfig::default();
    assert_eq!(c.effective_max(), 4);
    assert_eq!(c.effective_queue_timeout(), Some(Duration::from_secs(30)));
    assert!(!FetchConfig::default().allow_private_network);
}
