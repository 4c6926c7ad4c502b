//! The compilation host and its virtual file table: idempotent caching,
//! BOM and UTF-8 handling, path resolution, fonts, dates, diagnostics.

use imprintor::files::{FileKey, FileTable};
use imprintor::fonts::{FontCatalog, FontQuery};
use imprintor::host::{flatten_diagnostics, DocId, Host, ImprintorConfig, Plan, ReadOutcome};
use imprintor::package::PackageRef;
use imprintor::text::decode_source_text;
use imprintor::value::{DictEntry, HostTerm, Value};
use imprintor::vpath::resolve_segments;
use imprintor::FileFailure;

fn key(segments: &[&str]) -> FileKey {
    FileKey {
        package: None,
        segments: segments.iter().map(|s| String::from(*s)).collect(),
    }
}

fn plain_config(source: &str) -> ImprintorConfig {
    ImprintorConfig {
        source_document: String::from(source),
        extra_fonts: None,
        data: None,
        root_directory: String::from("/project"),
    }
}

#[test]
fn bom_is_stripped_from_decoded_text() {
    let mut bytes = vec![0xef, 0xbb, 0xbf];
    bytes.extend_from_slice("= Hi".as_bytes());
    assert_eq!(decode_source_text(&bytes), Some(String::from("= Hi")));
}

#[test]
fn every_leading_bom_is_stripped() {
    let mut bytes = vec![0xef, 0xbb, 0xbf, 0xef, 0xbb, 0xbf];
    bytes.extend_from_slice("x".as_bytes());
    assert_eq!(decode_source_text(&bytes), Some(String::from("x")));
}

#[test]
fn invalid_utf8_does_not_decode() {
    assert_eq!(decode_source_text(&vec![0xff, 0x41]), None);
}

#[test]
fn table_serves_stored_bytes_idempotently() {
    let mut t = FileTable::new();
    let k = key(&["main.typ"]);
    t.store(k.clone(), b"abc".to_vec());
    let first = t.bytes_of(&k);
    let second = t.bytes_of(&k);
    assert_eq!(first, Some(b"abc".to_vec()));
    assert_eq!(first, second);
}

#[test]
fn table_is_write_once() {
    let mut t = FileTable::new();
    let k = key(&["a.typ"]);
    t.store(k.clone(), b"first".to_vec());
    t.store(k.clone(), b"second".to_vec());
    assert_eq!(t.bytes_of(&k), Some(b"first".to_vec()));
}

#[test]
fn source_is_derived_once_and_repeats() {
    let mut t = FileTable::new();
    let k = key(&["a.typ"]);
    let mut bytes = vec![0xef, 0xbb, 0xbf];
    bytes.extend_from_slice("hello".as_bytes());
    t.store(k.clone(), bytes);
    let first = t.source_of(&k);
    let second = t.source_of(&k);
    assert_eq!(first, Some(Ok(String::from("hello"))));
    assert_eq!(first, second);
    // the bytes are untouched by deriving the text
    let mut expected = vec![0xef, 0xbb, 0xbf];
    expected.extend_from_slice("hello".as_bytes());
    assert_eq!(t.bytes_of(&k), Some(expected));
}

#[test]
fn invalid_utf8_fails_each_lookup_without_harm() {
    let mut t = FileTable::new();
    let k = key(&["bad.typ"]);
    t.store(k.clone(), vec![0xff, 0x41]);
    assert_eq!(t.source_of(&k), Some(Err(FileFailure::InvalidUtf8)));
    assert_eq!(t.source_of(&k), Some(Err(FileFailure::InvalidUtf8)));
    assert_eq!(t.bytes_of(&k), Some(vec![0xff, 0x41]));
}

#[test]
fn missing_key_answers_nothing() {
    let mut t = FileTable::new();
    let k = key(&["ghost.typ"]);
    assert_eq!(t.bytes_of(&k), None);
    assert_eq!(t.source_of(&k), None);
}

#[test]
fn keys_are_equal_only_with_same_scope_and_path() {
    let local = key(&["a.typ"]);
    let scoped = FileKey {
        package: Some(PackageRef {
            namespace: String::from("preview"),
            name: String::from("example"),
            major: 0,
            minor: 1,
            patch: 0,
        }),
        segments: vec![String::from("a.typ")],
    };
    assert!(local.key_eq(&local.clone()));
    assert!(!local.key_eq(&scoped));
    assert!(!local.key_eq(&key(&["b.typ"])));
}

#[test]
fn paths_normalize_and_escapes_are_refused() {
    let ok = resolve_segments(&vec![
        String::new(),
        String::from("."),
        String::from("a"),
        String::from(".."),
        String::from("b.typ"),
    ]);
    assert_eq!(ok, Some(vec![String::from("b.typ")]));
    let escape = resolve_segments(&vec![String::from("..")]);
    assert_eq!(escape, None);
    let deep_escape = resolve_segments(&vec![
        String::from("a"),
        String::from(".."),
        String::from(".."),
        String::from("b"),
    ]);
    assert_eq!(deep_escape, None);
}

#[test]
fn host_plans_main_and_files() {
    let mut host = Host::new(plain_config("= Doc"), vec![], 0, String::from("/cache"));
    assert_eq!(host.plan(&DocId::Main), Plan::UseMain);
    let k = key(&["sub", "..", "note.typ"]);
    assert_eq!(
        host.plan(&DocId::File(k.clone())),
        Plan::ReadLocal(vec![String::from("note.typ")])
    );
    assert_eq!(host.store_read(k.clone(), ReadOutcome::Data(b"text".to_vec())), Ok(()));
    assert_eq!(host.plan(&DocId::File(k)), Plan::Cached);
    let escape = key(&["..", "secret"]);
    assert_eq!(host.plan(&DocId::File(escape)), Plan::Denied);
}

#[test]
fn host_plans_package_fetches() {
    let host = Host::new(plain_config(""), vec![], 0, String::from("/cache"));
    let pkg = PackageRef {
        namespace: String::from("preview"),
        name: String::from("example"),
        major: 1,
        minor: 0,
        patch: 0,
    };
    let k = FileKey { package: Some(pkg.clone()), segments: vec![String::from("lib.typ")] };
    assert_eq!(
        host.plan(&DocId::File(k)),
        Plan::FetchPackage(pkg, vec![String::from("lib.typ")])
    );
}

#[test]
fn host_serves_detached_main_directly() {
    let mut host = Host::new(plain_config("= Doc"), vec![], 0, String::from("/cache"));
    assert_eq!(host.main_source(), "= Doc");
    assert_eq!(host.source_text_of(&DocId::Main), Some(Ok(String::from("= Doc"))));
}

#[test]
fn host_builds_input_scope_once() {
    let config = ImprintorConfig {
        source_document: String::new(),
        extra_fonts: None,
        data: Some(HostTerm::Int(9)),
        root_directory: String::from("/p"),
    };
    let host = Host::new(config, vec![], 0, String::from("/c"));
    assert_eq!(host.inputs, vec![DictEntry {
        key: String::from("elixir_data"),
        value: Value::Int(9)
    }]);
}

#[test]
fn font_index_beyond_catalog_is_unavailable() {
    let catalog = FontCatalog::from_paths(vec![(String::from("/f/a.ttf"), 0)]);
    assert_eq!(catalog.len(), 1);
    assert!(matches!(catalog.query(1), FontQuery::Unavailable));
    assert!(matches!(catalog.query(usize::MAX), FontQuery::Unavailable));
}

#[test]
fn font_slots_load_lazily_and_settle_once() {
    let mut catalog = FontCatalog::from_paths(vec![(String::from("/f/a.ttf"), 2)]);
    match catalog.query(0) {
        FontQuery::NeedsLoad(path, index) => {
            assert_eq!(path, "/f/a.ttf");
            assert_eq!(index, 2);
        },
        other => panic!("expected a load request, got {:?}", other),
    }
    catalog.settle(0, Some(b"font-bytes".to_vec()));
    assert_eq!(catalog.query(0), FontQuery::Settled(Some(b"font-bytes".to_vec())));
    // the first outcome stays
    catalog.settle(0, None);
    assert_eq!(catalog.query(0), FontQuery::Settled(Some(b"font-bytes".to_vec())));
}

#[test]
fn today_shifts_by_whole_hours() {
    let host = Host::new(plain_config(""), vec![], 0, String::from("/c"));
    assert_eq!(host.today(None), Some((1970, 1, 1)));
    assert_eq!(host.today(Some(0)), Some((1970, 1, 1)));
    assert_eq!(host.today(Some(-1)), Some((1969, 12, 31)));
    assert_eq!(host.today(Some(24)), Some((1970, 1, 2)));
    assert_eq!(host.today(Some(26)), None);
    assert_eq!(host.today(Some(1000)), None);
}

#[test]
fn diagnostics_flatten_to_one_message() {
    assert_eq!(
        flatten_diagnostics(&vec![String::from("bad math"), String::from("missing font")]),
        "Compilation failed: bad math, missing font"
    );
    assert_eq!(flatten_diagnostics(&vec![]), "Compilation failed: ");
    assert_eq!(flatten_diagnostics(&vec![String::from("one")]), "Compilation failed: one");
}

#[test]
fn read_failures_classify_into_the_taxonomy() {
    let mut host = Host::new(plain_config(""), vec![], 0, String::from("/c"));
    let k = key(&["a.typ"]);
    assert_eq!(
        host.store_read(k.clone(), ReadOutcome::Missing),
        Err(FileFailure::NotFound)
    );
    assert_eq!(
        host.store_read(k.clone(), ReadOutcome::Forbidden),
        Err(FileFailure::AccessDenied)
    );
    assert_eq!(
        host.store_read(k.clone(), ReadOutcome::Failed(String::from("io"))),
        Err(FileFailure::Other(String::from("io")))
    );
    // nothing was cached by the failures
    assert_eq!(host.plan(&DocId::File(k.clone())), Plan::ReadLocal(vec![String::from("a.typ")]));
}
