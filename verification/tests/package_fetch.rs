//! The package fetcher: cache short-circuit, retry bound, unpack
//! atomicity, URL and cache-path formatting, and gzip decompression.

use imprintor::package::{
    cache_segments, fetch_start, fetch_step, fmt_u32, http_successful, registry_url, retry,
    FetchCommand, FetchEvent, FetchState, PackageRef,
};
use imprintor::PackageFailure;

fn preview_example() -> PackageRef {
    PackageRef {
        namespace: String::from("preview"),
        name: String::from("example"),
        major: 1,
        minor: 2,
        patch: 3,
    }
}

#[test]
fn registry_url_is_exact() {
    assert_eq!(
        registry_url(&preview_example()),
        "https://packages.typst.org/preview/example-1.2.3.tar.gz"
    );
}

#[test]
fn cache_path_is_namespace_name_version() {
    let segs = cache_segments(&preview_example());
    assert_eq!(segs, vec![
        String::from("preview"),
        String::from("example"),
        String::from("1.2.3")
    ]);
}

#[test]
fn decimal_formatting() {
    assert_eq!(fmt_u32(0), "0");
    assert_eq!(fmt_u32(7), "7");
    assert_eq!(fmt_u32(42), "42");
    assert_eq!(fmt_u32(1009), "1009");
    assert_eq!(fmt_u32(u32::MAX), "4294967295");
}

#[test]
fn http_status_classification() {
    assert!(http_successful(200));
    assert!(http_successful(204));
    assert!(http_successful(299));
    assert!(!http_successful(199));
    assert!(!http_successful(300));
    assert!(!http_successful(404));
    assert!(!http_successful(500));
}

#[test]
fn retry_returns_first_success() {
    let r: Result<u32, String> = retry(|| Ok(5));
    assert_eq!(r, Ok(5));
}

#[test]
fn retry_surfaces_persistent_failure() {
    let r: Result<u32, String> = retry(|| Err(String::from("down")));
    assert_eq!(r, Err(String::from("down")));
}

#[test]
fn existing_cache_directory_skips_download() {
    let (state, command) = fetch_start();
    assert_eq!(state, FetchState::Probing);
    assert_eq!(command, FetchCommand::Probe);
    let (state, command) = fetch_step(state, FetchEvent::Probed(true));
    assert_eq!(state, FetchState::Done);
    assert_eq!(command, FetchCommand::Halt);
}

#[test]
fn transport_failure_is_retried_exactly_once() {
    let (state, _) = fetch_step(FetchState::Probing, FetchEvent::Probed(false));
    assert_eq!(state, FetchState::Downloading { attempt: 1 });
    let (state, command) = fetch_step(
        state,
        FetchEvent::Downloaded(Err(String::from("connection refused"))),
    );
    assert_eq!(state, FetchState::Downloading { attempt: 2 });
    assert_eq!(command, FetchCommand::Download);
    let (state, command) = fetch_step(
        state,
        FetchEvent::Downloaded(Err(String::from("connection refused"))),
    );
    assert_eq!(
        state,
        FetchState::Failed(PackageFailure::NetworkFailed(String::from("connection refused")))
    );
    assert_eq!(command, FetchCommand::Halt);
}

#[test]
fn bad_status_counts_as_failure() {
    let (state, command) = fetch_step(
        FetchState::Downloading { attempt: 1 },
        FetchEvent::Downloaded(Ok((404, vec![]))),
    );
    assert_eq!(state, FetchState::Downloading { attempt: 2 });
    assert_eq!(command, FetchCommand::Download);
    let (state, _) = fetch_step(state, FetchEvent::Downloaded(Ok((500, vec![]))));
    assert_eq!(
        state,
        FetchState::Failed(PackageFailure::NetworkFailed(String::from(
            "response returned unsuccessful status code 500"
        )))
    );
}

/// A gzip stream holding "hello" in one stored deflate block.
fn gzip_hello() -> Vec<u8> {
    let mut v = vec![
        0x1f, 0x8b, 0x08, 0x00, 0x00, 0x00, 0x00, 0x00, 0x00, 0x03, // header
        0x01, 0x05, 0x00, 0xfa, 0xff, // stored block, length 5
    ];
    v.extend_from_slice(b"hello");
    v.extend_from_slice(&[0x86, 0xa6, 0x10, 0x36]); // crc32("hello")
    v.extend_from_slice(&[0x05, 0x00, 0x00, 0x00]); // size
    v
}

#[test]
fn good_download_is_decompressed_and_unpacked() {
    let (state, command) = fetch_step(
        FetchState::Downloading { attempt: 1 },
        FetchEvent::Downloaded(Ok((200, gzip_hello()))),
    );
    assert_eq!(state, FetchState::Unpacking);
    assert_eq!(command, FetchCommand::Unpack(b"hello".to_vec()));
}

#[test]
fn garbage_download_is_a_malformed_archive() {
    let body = vec![0x00; 32];
    let (state, command) = fetch_step(
        FetchState::Downloading { attempt: 2 },
        FetchEvent::Downloaded(Ok((200, body))),
    );
    assert!(matches!(
        state,
        FetchState::Failed(PackageFailure::MalformedArchive(_))
    ));
    assert_eq!(command, FetchCommand::Halt);
}

#[test]
fn unpack_failure_removes_partial_directory() {
    let (state, command) = fetch_step(
        FetchState::Unpacking,
        FetchEvent::Unpacked(Err(String::from("truncated entry"))),
    );
    assert_eq!(
        state,
        FetchState::Failed(PackageFailure::MalformedArchive(String::from("truncated entry")))
    );
    assert_eq!(command, FetchCommand::RemoveDir);
    // the next fetch starts from scratch: no directory, full download
    let (state, command) = fetch_step(FetchState::Probing, FetchEvent::Probed(false));
    assert_eq!(state, FetchState::Downloading { attempt: 1 });
    assert_eq!(command, FetchCommand::Download);
}

#[test]
fn successful_unpack_finishes() {
    let (state, command) = fetch_step(FetchState::Unpacking, FetchEvent::Unpacked(Ok(())));
    assert_eq!(state, FetchState::Done);
    assert_eq!(command, FetchCommand::Halt);
}
