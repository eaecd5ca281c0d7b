use zapret_checker::config::{BlobConfig, PayloadConfig};
use zapret_checker::map::TextMap;
use zapret_checker::payload_registry::{
    aliases_from_payloads, build_payload_registry, make_payload_alias, registry_paths, render_blob_args, PathKind,
    PayloadDef, PayloadProtocol,
};

fn disk(files: &[&str]) -> TextMap<PathKind> {
    let mut map = TextMap::new().insert("/tmp/blobs".to_string(), PathKind::Directory);
    for file in files {
        map = map.insert(file.to_string(), PathKind::File);
    }
    map
}

fn payloads_with_tls_file(file: &str) -> PayloadConfig {
    let mut payloads = PayloadConfig::default();
    payloads.tls.files.push(file.to_string());
    payloads
}

fn auto_load_blobs(base_dir: &str) -> BlobConfig {
    BlobConfig { auto_load: true, base_dir: Some(base_dir.to_string()) }
}

#[test]
fn builtin_does_not_create_blob_arg() {
    let registry =
        build_payload_registry(&BlobConfig::default(), &PayloadConfig::default(), &disk(&[])).expect("registry");

    assert_eq!(registry.len(), 3);
    assert!(render_blob_args(&registry).is_empty());
}

#[test]
fn file_creates_blob_arg() {
    let payloads = payloads_with_tls_file("tls_fake.bin");

    let registry =
        build_payload_registry(&auto_load_blobs("/tmp/blobs"), &payloads, &disk(&["/tmp/blobs/tls_fake.bin"])).unwrap();
    let args = render_blob_args(&registry);

    assert_eq!(args, ["--blob=tls_fake:@/tmp/blobs/tls_fake.bin".to_string()]);
}

#[test]
fn config_alias_is_used() {
    let mut payloads = PayloadConfig::default();
    payloads.tls.aliases = TextMap::new().insert("tls_google".to_string(), "clienthello.bin".to_string());

    let registry =
        build_payload_registry(&auto_load_blobs("/tmp/blobs"), &payloads, &disk(&["/tmp/blobs/clienthello.bin"]))
            .unwrap();
    let args = render_blob_args(&registry);

    assert_eq!(args, ["--blob=tls_google:@/tmp/blobs/clienthello.bin".to_string()]);
}

#[test]
fn file_alias_is_generated_from_name() {
    assert_eq!(
        make_payload_alias("TLS ClientHello--WWW.Google.COM.bin").unwrap(),
        "tls_clienthello_www_google_com"
    );
}

#[test]
fn auto_load_false_ignores_files_and_does_not_check_path() {
    let mut payloads = PayloadConfig::default();
    payloads.http.files.push("missing.bin".into());

    let registry = build_payload_registry(&BlobConfig::default(), &payloads, &disk(&[])).unwrap();

    assert_eq!(registry.len(), 3);
    assert!(registry.iter().all(|payload| payload.builtin));
}

#[test]
fn auto_load_true_nonexistent_file_returns_error() {
    let payloads = payloads_with_tls_file("missing.bin");

    let err =
        build_payload_registry(&auto_load_blobs("/tmp/blobs"), &payloads, &disk(&[])).unwrap_err().message();

    assert!(err.contains("payload file does not exist"));
    assert_eq!(err, "payload file does not exist: /tmp/blobs/missing.bin");
}

#[test]
fn auto_load_true_directory_returns_error() {
    let payloads = payloads_with_tls_file("tls");
    let map = disk(&[]).insert("/tmp/blobs/tls".to_string(), PathKind::Directory);

    let err = build_payload_registry(&auto_load_blobs("/tmp/blobs"), &payloads, &map).unwrap_err().message();

    assert_eq!(err, "payload path is not a file: /tmp/blobs/tls");
}

#[test]
fn duplicate_alias_returns_error() {
    let mut payloads = PayloadConfig::default();
    payloads.http.files.push("same.bin".to_string());
    payloads.tls.aliases = TextMap::new().insert("same".to_string(), "same.bin".to_string());

    let err = build_payload_registry(&auto_load_blobs("/tmp/blobs"), &payloads, &disk(&["/tmp/blobs/same.bin"]))
        .unwrap_err()
        .message();

    assert!(err.contains("duplicated"));
    assert_eq!(err, "payload alias \"same\" is duplicated");
}

#[test]
fn builtin_conflict_for_file_alias_returns_error() {
    let payloads = payloads_with_tls_file("fake_default_tls.bin");

    let err = build_payload_registry(
        &auto_load_blobs("/tmp/blobs"),
        &payloads,
        &disk(&["/tmp/blobs/fake_default_tls.bin"]),
    )
    .unwrap_err()
    .message();

    assert!(err.contains("conflicts with a builtin payload alias"));
}

#[test]
fn max_per_protocol_counts_only_file_payloads() {
    let files = disk(&["/tmp/blobs/one.bin", "/tmp/blobs/two.bin"]);
    let mut payloads = PayloadConfig::default();
    payloads.max_per_protocol = 1;
    payloads.tls.builtin = vec!["fake_default_tls".to_string(), "custom_builtin_tls".to_string()];
    payloads.tls.files.push("one.bin".to_string());

    let registry = build_payload_registry(&auto_load_blobs("/tmp/blobs"), &payloads, &files)
        .expect("one file plus two builtins is allowed");
    assert_eq!(registry.iter().filter(|payload| payload.protocol == PayloadProtocol::Tls).count(), 3);

    payloads.tls.files.push("two.bin".to_string());
    let err =
        build_payload_registry(&auto_load_blobs("/tmp/blobs"), &payloads, &files).unwrap_err().message();
    assert!(err.contains("max_per_protocol"));
}

#[test]
fn aliases_from_payloads_groups_by_protocol() {
    let builtin = |protocol: PayloadProtocol, alias: &str| PayloadDef {
        protocol,
        alias: alias.to_string(),
        path: None,
        builtin: true,
    };
    let payloads = vec![
        builtin(PayloadProtocol::Tls, "tls_b"),
        builtin(PayloadProtocol::Http, "http_a"),
        builtin(PayloadProtocol::Tls, "tls_a"),
        builtin(PayloadProtocol::Quic, "quic_a"),
        builtin(PayloadProtocol::Tls, "tls_a"),
    ];

    let aliases = aliases_from_payloads(&payloads);

    assert_eq!(aliases.http, ["http_a"]);
    assert_eq!(aliases.tls, ["tls_a", "tls_b"]);
    assert_eq!(aliases.quic, ["quic_a"]);
    assert_eq!(aliases.for_protocol_key("tls12"), aliases.tls.as_slice());
    assert_eq!(aliases.for_protocol_key("tls13"), aliases.tls.as_slice());
    assert_eq!(aliases.for_protocol_key("unknown"), &[] as &[String]);
}

#[test]
fn a_name_in_capitals_of_another_alphabet_is_lowered_and_squeezed() {
    assert_eq!(make_payload_alias("A\u{c4}B.bin").unwrap(), "a_b");
    assert!(make_payload_alias("").is_err());
}

#[test]
fn the_registry_looks_at_the_paths_that_it_names() {
    let mut payloads = payloads_with_tls_file("tls.bin");
    payloads.http.aliases = TextMap::new().insert("abs".to_string(), "/data/http.bin".to_string());
    let mut paths = registry_paths(&auto_load_blobs("/tmp/blobs"), &payloads);
    paths.sort();
    assert_eq!(paths, ["/data/http.bin", "/tmp/blobs", "/tmp/blobs/tls.bin"]);
}

#[test]
fn the_base_directory_must_be_there() {
    let payloads = PayloadConfig::default();
    let no_dir = BlobConfig { auto_load: true, base_dir: None };
    let err = build_payload_registry(&no_dir, &payloads, &disk(&[])).unwrap_err().message();
    assert_eq!(err, "blobs.base_dir is required when blobs.auto_load=true");

    let err = build_payload_registry(&auto_load_blobs("/nowhere"), &payloads, &disk(&[])).unwrap_err().message();
    assert_eq!(err, "blobs.base_dir does not exist: /nowhere");

    let err = build_payload_registry(&auto_load_blobs("/file"), &payloads, &disk(&["/file"])).unwrap_err().message();
    assert_eq!(err, "blobs.base_dir must be a directory: /file");
}
