use mihoro::config::{Config, MihomoConfig, MihomoMode, MihomoLogLevel, MihoroError};
use mihoro::overlay::{apply_mihomo_override, parse_mihomo_yaml};

fn defaults() -> MihomoConfig {
    Config::new().mihomo_config
}

fn apply(doc: &str, o: &MihomoConfig) -> String {
    let out = apply_mihomo_override(&doc.as_bytes().to_vec(), o).unwrap();
    String::from_utf8(out).unwrap()
}

#[test]
fn overlay_adds_recognized_and_preserves_unrecognized() {
    let doc = "proxies:\n  - one\n  - two\nrules:\n- MATCH,DIRECT\n";
    let got = apply(doc, &defaults());
    let expected = "port: 7890\n\
socks-port: 7891\n\
allow-lan: false\n\
bind-address: *\n\
mode: rule\n\
log-level: info\n\
ipv6: true\n\
external-controller: 0.0.0.0:9090\n\
external-ui: ui\n\
proxies:\n  - one\n  - two\nrules:\n- MATCH,DIRECT\n";
    assert_eq!(got, expected);
}

#[test]
fn overlay_sets_required_keys_when_absent() {
    // No port, socks-port, mode or log-level in the document: after the
    // overlay all four exist with exactly the override values.
    let got = apply("proxies: []\n", &defaults());
    assert!(got.contains("port: 7890\n"));
    assert!(got.contains("socks-port: 7891\n"));
    assert!(got.contains("mode: rule\n"));
    assert!(got.contains("log-level: info\n"));
    assert!(got.contains("proxies: []\n"));
}

#[test]
fn overlay_replaces_existing_values() {
    let doc = "port: 1234\nsocks-port: 4321\nmode: global\nlog-level: debug\nproxies: []\n";
    let got = apply(doc, &defaults());
    assert!(got.contains("port: 7890\n"));
    assert!(!got.contains("1234"));
    assert!(got.contains("mode: rule\n"));
    assert!(!got.contains("global"));
}

#[test]
fn overlay_removes_key_of_absent_optional() {
    // `secret` is present in the document and absent in the overrides: the
    // key is gone after the call.
    let doc = "secret: hunter\nproxies: []\n";
    let mut o = defaults();
    o.secret = None;
    let got = apply(doc, &o);
    assert!(!got.contains("secret"));
    assert!(got.contains("proxies: []\n"));
}

#[test]
fn overlay_sets_optional_when_present() {
    let doc = "proxies: []\n";
    let mut o = defaults();
    o.secret = Some(b"token".to_vec());
    let got = apply(doc, &o);
    assert!(got.contains("secret: token\n"));
}

#[test]
fn overlay_is_idempotent() {
    let doc = "port: 1\nproxies:\n  - a\nrules:\n- MATCH,DIRECT\n# note\n";
    let o = defaults();
    let once = apply(doc, &o);
    let twice = apply(&once, &o);
    assert_eq!(once, twice);
}

#[test]
fn overlay_keeps_comments_and_document_markers() {
    let doc = "---\n# generated upstream\nproxies: []\n";
    let got = apply(doc, &defaults());
    assert!(got.contains("---\n"));
    assert!(got.contains("# generated upstream\n"));
}

#[test]
fn overlay_rejects_non_numeric_port() {
    let doc = "port: abc\n";
    assert!(matches!(
        apply_mihomo_override(&doc.as_bytes().to_vec(), &defaults()),
        Err(MihoroError::Parse)
    ));
}

#[test]
fn overlay_rejects_entry_without_colon() {
    let doc = "not a mapping line\n";
    assert!(matches!(
        apply_mihomo_override(&doc.as_bytes().to_vec(), &defaults()),
        Err(MihoroError::Parse)
    ));
}

#[test]
fn parse_reads_recognized_scalars() {
    let doc = "port: 7000\nsocks-port: 7001\nallow-lan: true\nmode: direct\nlog-level: silent\nproxies: []\n";
    let y = parse_mihomo_yaml(&doc.as_bytes().to_vec()).unwrap();
    assert_eq!(y.port, Some(7000));
    assert_eq!(y.socks_port, Some(7001));
    assert_eq!(y.allow_lan, Some(true));
    assert_eq!(y.mode, Some(MihomoMode::Direct));
    assert_eq!(y.log_level, Some(MihomoLogLevel::Silent));
    assert_eq!(y.extra, vec![b"proxies: []".to_vec()]);
}
