use std::time::Duration;

use scriptorium::calendar::{date_of_day, ymd_from_unix, Date};
use scriptorium::config::TosConfig;
use scriptorium::digest::{sha256_hex, RunningDigest};
use scriptorium::error::Error;
use scriptorium::multipart::{
    part_failed, CompletedPart, MultipartAction, MultipartEvent, MultipartStage, PartStream,
};
use scriptorium::oss::{
    check_payload_size, guess_content_type, outcome_with_digest, presign_failed, put_failed,
    sanitize_segment, single_outcome, OssClient, UploadRoute, MAX_DELIVERY_BYTES,
};

fn settings() -> TosConfig {
    TosConfig {
        endpoint: "https://store.example".to_string(),
        region: "here".to_string(),
        bucket: "artifacts".to_string(),
        access_key: "ak".to_string(),
        secret_key: "sk".to_string(),
        key_prefix: "sandbox/".to_string(),
        signed_url_expires_seconds: 3600,
        signed_url_max_seconds: 86400,
        part_size_bytes: 8 * 1024 * 1024,
        multipart_threshold_bytes: 64,
        upload_timeout_seconds: 300,
    }
}

fn client() -> OssClient {
    OssClient::connect(&settings()).unwrap()
}

#[test]
fn ymd_is_iso_formatted() {
    // 2026-04-22 UTC is about 1 777 708 800.
    let s = ymd_from_unix(1_777_708_800);
    assert_eq!(s.len(), 10);
    assert_eq!(&s[4..5], "-");
    assert_eq!(&s[7..8], "-");
}

#[test]
fn dates_are_those_of_the_calendar() {
    assert_eq!(ymd_from_unix(0), "1970-01-01");
    assert_eq!(ymd_from_unix(86_399), "1970-01-01");
    assert_eq!(ymd_from_unix(86_400), "1970-01-02");
    assert_eq!(ymd_from_unix(951_782_400), "2000-02-29");
    assert_eq!(ymd_from_unix(951_868_800), "2000-03-01");
    assert_eq!(ymd_from_unix(1_777_708_800), "2026-05-02");
    assert_eq!(ymd_from_unix(4_107_542_399), "2100-02-28");
    assert_eq!(ymd_from_unix(4_107_542_400), "2100-03-01");
    assert_eq!(ymd_from_unix(253_402_300_799), "9999-12-31");
    assert_eq!(ymd_from_unix(253_402_300_800), "10000-01-01");
    assert_eq!(date_of_day(365), Date { year: 1971, month: 1, day: 1 });
    assert_eq!(date_of_day(0).text(), "1970-01-01");
}

#[test]
fn days_follow_one_another() {
    let mut last = date_of_day(0);
    for day in 1..150_000u64 {
        let date = date_of_day(day);
        let next_day = (date.year, date.month, date.day) > (last.year, last.month, last.day);
        assert!(next_day, "day {day}");
        assert!(date.day == last.day + 1 || date.day == 1, "day {day}");
        last = date;
    }
}

#[test]
fn dates_are_sorted_as_text() {
    let day: u64 = 86_400;
    let mut last = ymd_from_unix(0);
    for n in (1..150_000u64).chain(2_932_000..2_932_897) {
        let text = ymd_from_unix(n * day);
        assert!(last < text, "{last} {text}");
        assert_eq!(ymd_from_unix(n * day + day - 1), text);
        last = text;
    }
    assert_eq!(last, "9999-12-31");
    assert!(ymd_from_unix(2_932_897 * day) < last);
}

#[test]
fn sanitize_segment_keeps_safe_chars() {
    assert_eq!(sanitize_segment("abc-123_xyz.txt"), "abc-123_xyz.txt");
    assert_eq!(sanitize_segment("a/b/../c"), "a_b_.._c");
    assert_eq!(sanitize_segment(""), "_");
}

#[test]
fn sanitizing_twice_changes_nothing() {
    for s in ["年度", "a b", "x/y", "", "ok.txt"] {
        let once = sanitize_segment(s);
        assert_eq!(sanitize_segment(&once), once);
        assert!(!once.contains('/'));
    }
}

#[test]
fn keys_follow_the_layout() {
    let now = Duration::new(1_777_708_800, 5);
    let nanos: u128 = 1_777_708_800_000_000_005;
    let nonce = format!("{:08x}", nanos as u64 & 0xffff_ffff);
    assert_eq!(
        client().build_key_at("acme", "ws/1", "re port.pdf", &now),
        format!("sandbox/acme/ws_1/2026-05-02/{nonce}-re_port.pdf")
    );
    assert_eq!(
        client().build_key_at("", "w", "b", &Duration::new(0, 255)),
        "sandbox/_/w/1970-01-01/000000ff-b"
    );
}

#[test]
fn keys_of_this_moment_are_filed_by_tenant() {
    let key = client().build_key("acme", "ws", "out.txt");
    assert!(key.starts_with("sandbox/acme/ws/"), "{key}");
    assert!(key.ends_with("-out.txt"), "{key}");
    assert_ne!(key, client().build_key("other", "ws", "out.txt"));
}

#[test]
fn connecting_needs_both_keys() {
    let wanted = Error::Other("tos.access_key and tos.secret_key must not be empty".to_string());
    let mut cfg = settings();
    cfg.access_key = String::new();
    assert_eq!(OssClient::connect(&cfg).err(), Some(wanted.clone()));
    let mut cfg = settings();
    cfg.secret_key = String::new();
    assert_eq!(OssClient::connect(&cfg).err(), Some(wanted));
}

#[test]
fn connecting_takes_the_settings() {
    let oss = client();
    assert_eq!(oss.default_expires(), Duration::from_secs(3600));
    assert_eq!(oss.max_expires(), Duration::from_secs(86400));
    assert_eq!(oss.upload_timeout, Duration::from_secs(300));
    assert_eq!(oss.part_size, 8 * 1024 * 1024);
    let mut cfg = settings();
    cfg.part_size_bytes = 1;
    assert_eq!(OssClient::connect(&cfg).unwrap().part_size, 5 * 1024 * 1024);
    assert_eq!(OssClient::connect(&cfg).unwrap().part_len(), 5 * 1024 * 1024);
}

#[test]
fn copies_of_a_client_file_alike() {
    let oss = client();
    let copy = oss.clone();
    let moment = Duration::from_secs(1_777_708_800);
    assert_eq!(copy.bucket, oss.bucket);
    assert_eq!(
        copy.build_key_at("t", "w", "b", &moment),
        oss.build_key_at("t", "w", "b", &moment)
    );
    assert_eq!(copy.default_expires(), oss.default_expires());
    assert_eq!(copy.max_expires(), oss.max_expires());
    assert_eq!(copy.upload_timeout, oss.upload_timeout);
    assert_eq!(
        (copy.part_size, copy.multipart_threshold),
        (oss.part_size, oss.multipart_threshold)
    );
}

#[test]
fn large_files_go_in_parts() {
    assert_eq!(client().upload_route(64), Ok(UploadRoute::Single));
    assert_eq!(client().upload_route(65), Ok(UploadRoute::Multipart));
    assert_eq!(
        client().upload_timed_out(),
        Error::Other("upload timed out after 300s".to_string())
    );
}

#[test]
fn payloads_above_a_gibibyte_are_not_delivered() {
    assert_eq!(MAX_DELIVERY_BYTES, 1 << 30);
    let refused = |size: u64| {
        Error::Other(format!("payload too large to deliver: {size} bytes (max 1073741824)"))
    };
    for size in [0, 1, 65, 1 << 29, 1 << 30] {
        assert_eq!(check_payload_size(size), Ok(()));
        assert!(client().upload_route(size).is_ok());
    }
    for size in [(1 << 30) + 1, 1 << 31, u64::MAX] {
        assert_eq!(check_payload_size(size), Err(refused(size)));
        assert_eq!(client().upload_route(size), Err(refused(size)));
    }
}

#[test]
fn signed_urls_live_no_longer_than_allowed() {
    let oss = client();
    let hour = Duration::from_secs(3600);
    let ten_days = Duration::from_secs(864_000);
    assert_eq!(oss.effective_expires(hour), hour);
    assert_eq!(oss.effective_expires(ten_days), Duration::from_secs(86400));
    assert_eq!(oss.presigning(hour).unwrap().expires(), hour);
    assert_eq!(oss.presigning(ten_days).unwrap().expires(), Duration::from_secs(86400));
}

#[test]
fn signed_urls_live_no_longer_than_a_week() {
    let mut cfg = settings();
    cfg.signed_url_max_seconds = 1_000_000;
    let oss = OssClient::connect(&cfg).unwrap();
    assert!(oss.presigning(Duration::from_secs(604_800)).is_ok());
    assert_eq!(
        oss.presigning(Duration::from_secs(604_801)).err(),
        Some(Error::Other(
            "presigning config: `expires_in` must be no longer than one week".to_string()
        ))
    );
}

#[test]
fn content_types_go_by_the_extension() {
    let known = [
        ("a.json", "application/json"),
        ("a.txt", "text/plain; charset=utf-8"),
        ("a.html", "text/html; charset=utf-8"),
        ("a.htm", "text/html; charset=utf-8"),
        ("a.css", "text/css; charset=utf-8"),
        ("a.js", "application/javascript"),
        ("a.mjs", "application/javascript"),
        ("a.csv", "text/csv; charset=utf-8"),
        ("a.md", "text/markdown; charset=utf-8"),
        ("a.xml", "application/xml"),
        ("a.yaml", "application/yaml"),
        ("a.yml", "application/yaml"),
        ("a.png", "image/png"),
        ("a.jpg", "image/jpeg"),
        ("a.jpeg", "image/jpeg"),
        ("a.gif", "image/gif"),
        ("a.webp", "image/webp"),
        ("a.svg", "image/svg+xml"),
        ("a.pdf", "application/pdf"),
        ("a.zip", "application/zip"),
        ("a.gz", "application/gzip"),
        ("a.tgz", "application/gzip"),
        ("a.tar", "application/x-tar"),
        ("a.mp3", "audio/mpeg"),
        ("a.wav", "audio/wav"),
        ("a.mp4", "video/mp4"),
        ("a.webm", "video/webm"),
        ("a.xlsx", "application/vnd.openxmlformats-officedocument.spreadsheetml.sheet"),
        ("a.docx", "application/vnd.openxmlformats-officedocument.wordprocessingml.document"),
        ("a.pptx", "application/vnd.openxmlformats-officedocument.presentationml.presentation"),
    ];
    for (path, wanted) in known {
        assert_eq!(guess_content_type(path), wanted);
    }
    for path in ["a", "a.bin", ".json", "a.JSON", "", "/", "dir.json/file", "a."] {
        assert_eq!(guess_content_type(path), "application/octet-stream", "{path}");
    }
    assert_eq!(guess_content_type("/x/y/archive.tar.gz"), "application/gzip");
}

#[test]
fn spellings_of_an_extension_share_a_content_type() {
    let known = [
        "json", "txt", "html", "htm", "css", "js", "mjs", "csv", "md", "xml", "yaml", "yml", "png",
        "jpg", "jpeg", "gif", "webp", "svg", "pdf", "zip", "gz", "tgz", "tar", "mp3", "wav", "mp4",
        "webm", "xlsx", "docx", "pptx",
    ];
    let spellings =
        [("html", "htm"), ("js", "mjs"), ("yaml", "yml"), ("jpg", "jpeg"), ("gz", "tgz")];
    for a in known {
        let type_of = |ext: &str| guess_content_type(&format!("x/name.{ext}"));
        assert_ne!(type_of(a), "application/octet-stream");
        assert_eq!(type_of(a), guess_content_type(&format!("other.name.{a}")));
        for b in known {
            let same = a == b || spellings.contains(&(a, b)) || spellings.contains(&(b, a));
            assert_eq!(type_of(a) == type_of(b), same, "{a} {b}");
        }
    }
}

#[test]
fn digests_are_sha256_in_hex() {
    assert_eq!(
        sha256_hex(b""),
        "e3b0c44298fc1c149afbf4c8996fb92427ae41e4649b934ca495991b7852b855"
    );
    assert_eq!(
        sha256_hex(b"abc"),
        "ba7816bf8f01cfea414140de5dae2223b00361a396177a9cb410ff61f20015ad"
    );
}

#[test]
fn digests_tell_contents_apart() {
    let texts = [sha256_hex(b""), sha256_hex(b"a"), sha256_hex(b"b"), sha256_hex(b"ab")];
    for (i, a) in texts.iter().enumerate() {
        assert_eq!(a.len(), 64);
        for b in &texts[i + 1..] {
            assert_ne!(a, b);
        }
    }
}

#[test]
fn digest_of_pieces_is_digest_of_the_whole() {
    let mut digest = RunningDigest::new();
    digest.absorb(b"a");
    digest.absorb(b"");
    digest.absorb(b"bc");
    assert_eq!(digest.count(), 3);
    assert_eq!(digest.finish(), sha256_hex(b"abc"));
}

#[test]
fn outcomes_carry_size_and_digest() {
    let single = single_outcome("k", 3, "text/plain", b"abc");
    assert_eq!(single, outcome_with_digest("k", 3, "text/plain", sha256_hex(b"abc")));
    assert_eq!(single.size_bytes, 3);
    assert_eq!(single.key, "k");
    assert_eq!(put_failed("no"), Error::Other("put_object: no".to_string()));
    assert_eq!(presign_failed("no"), Error::Other("presign: no".to_string()));
}

fn cut(part_size: usize, file: &[u8], reads: usize) -> (Vec<Vec<u8>>, Vec<CompletedPart>, String) {
    let mut stream = PartStream::new(part_size);
    let mut bodies = Vec::new();
    let mut at = 0;
    while !stream.is_ended() {
        let n = stream.room().min(reads).min(file.len() - at);
        let part = stream.take(&file[at..at + n]);
        at += n;
        assert_eq!(stream.read_so_far(), at as u64);
        if let Some(part) = part {
            assert_eq!(part.number as usize, bodies.len() + 1);
            stream.sent(Some(format!("tag{}", part.number)));
            bodies.push(part.body);
        }
    }
    let (completed, digest) = stream.finish();
    (bodies, completed, digest)
}

#[test]
fn parts_make_up_the_file() {
    let file: Vec<u8> = (0..=200u8).collect();
    for part_size in [1, 7, 67, 200, 201, 202, 1000] {
        for reads in [1, 5, 67, 1000] {
            let (bodies, completed, digest) = cut(part_size, &file, reads);
            assert_eq!(bodies.concat(), file);
            assert_eq!(digest, sha256_hex(&file));
            assert_eq!(bodies.len(), file.len().div_ceil(part_size));
            assert!(bodies[..bodies.len() - 1].iter().all(|b| b.len() == part_size));
            assert!(bodies.iter().all(|b| !b.is_empty()));
            let numbers: Vec<i32> = completed.iter().map(|p| p.part_number).collect();
            assert_eq!(numbers, (1..=bodies.len() as i32).collect::<Vec<_>>());
            assert_eq!(completed[0].e_tag.as_deref(), Some("tag1"));
        }
    }
}

#[test]
fn an_empty_file_has_no_parts() {
    let (bodies, completed, digest) = cut(10, &[], 10);
    assert!(bodies.is_empty());
    assert!(completed.is_empty());
    assert_eq!(digest, sha256_hex(b""));
}

#[test]
fn an_upload_in_parts_goes_through_its_stages() {
    let (stage, action) =
        MultipartStage::start().step(MultipartEvent::Opened(Some("id".to_string())));
    assert_eq!(stage, MultipartStage::Sending("id".to_string()));
    assert_eq!(action, MultipartAction::SendParts("id".to_string()));
    let (stage, action) = stage.step(MultipartEvent::PartsSent);
    assert_eq!(stage, MultipartStage::Closing("id".to_string()));
    assert_eq!(action, MultipartAction::Close("id".to_string()));
    let (stage, action) = stage.step(MultipartEvent::Closed);
    assert_eq!(stage, MultipartStage::Over);
    assert_eq!(action, MultipartAction::Done);
}

#[test]
fn an_upload_that_was_not_opened_is_not_aborted() {
    let (stage, action) = MultipartStage::start().step(MultipartEvent::Opened(None));
    assert_eq!(stage, MultipartStage::Over);
    assert_eq!(
        action,
        MultipartAction::Fail(Error::Other(
            "create_multipart_upload: missing upload_id".to_string()
        ))
    );
    let (_, action) = MultipartStage::start().step(MultipartEvent::OpenFailed("no".to_string()));
    assert_eq!(
        action,
        MultipartAction::Fail(Error::Other("create_multipart_upload: no".to_string()))
    );
}

#[test]
fn an_upload_that_was_opened_is_aborted_on_failure() {
    let sending = MultipartStage::Sending("id".to_string());
    let (stage, action) =
        sending.step(MultipartEvent::PartsFailed(Error::Io("gone".to_string())));
    assert_eq!(stage, MultipartStage::Over);
    assert_eq!(
        action,
        MultipartAction::AbortAndFail("id".to_string(), Error::Io("gone".to_string()))
    );
    let closing = MultipartStage::Closing("id".to_string());
    let (stage, action) = closing.step(MultipartEvent::CloseFailed("net".to_string()));
    assert_eq!(stage, MultipartStage::Over);
    assert_eq!(
        action,
        MultipartAction::AbortAndFail(
            "id".to_string(),
            Error::Other("complete_multipart_upload: net".to_string())
        )
    );
    assert_eq!(part_failed(12, "slow"), Error::Other("upload_part(12): slow".to_string()));
}
