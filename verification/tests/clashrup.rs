use mihoro::utils::{
    setup_default_config, parse_config, validate_clashrup_config, create_clash_service,
    ClashrupConfigError,
};

#[test]
fn default_scaffold_text() {
    let expected = "remote_clash_binary_url = \"\"\n\
remote_config_url = \"\"\n\
clash_config_root = \"~/.config/clash\"\n";
    assert_eq!(String::from_utf8(setup_default_config()).unwrap(), expected);
}

#[test]
fn parse_reads_all_three_fields() {
    let raw = "remote_clash_binary_url = \"https://example.com/clash.gz\"\n\
remote_config_url = \"https://example.com/profile\"\n\
clash_config_root = \"~/.config/clash\"\n";
    let c = parse_config(&raw.as_bytes().to_vec());
    assert_eq!(c.remote_clash_binary_url, b"https://example.com/clash.gz".to_vec());
    assert_eq!(c.remote_config_url, b"https://example.com/profile".to_vec());
    assert_eq!(c.clash_config_root, b"~/.config/clash".to_vec());
}

#[test]
fn validate_missing_file() {
    assert!(matches!(
        validate_clashrup_config(None),
        Err(ClashrupConfigError::ConfigMissingError)
    ));
}

#[test]
fn validate_empty_binary_url_is_named_first() {
    // Both URLs empty: the binary URL is checked first.
    let raw = setup_default_config();
    assert!(matches!(
        validate_clashrup_config(Some(&raw)),
        Err(ClashrupConfigError::RemoteClashBinaryUrlMissingError)
    ));
}

#[test]
fn validate_empty_config_url() {
    let raw = "remote_clash_binary_url = \"https://example.com/clash.gz\"\n\
remote_config_url = \"\"\n\
clash_config_root = \"~/.config/clash\"\n";
    assert!(matches!(
        validate_clashrup_config(Some(&raw.as_bytes().to_vec())),
        Err(ClashrupConfigError::RemoteConfigUrlMissingError)
    ));
}

#[test]
fn validate_complete_config() {
    let raw = "remote_clash_binary_url = \"https://example.com/clash.gz\"\n\
remote_config_url = \"https://example.com/profile\"\n\
clash_config_root = \"~/.config/clash\"\n";
    let c = validate_clashrup_config(Some(&raw.as_bytes().to_vec())).unwrap();
    assert_eq!(c.remote_config_url, b"https://example.com/profile".to_vec());
}

#[test]
fn service_unit_text() {
    let got = create_clash_service(
        &b"/usr/local/bin/clash".to_vec(),
        &b"/home/user/.config/clash".to_vec(),
    );
    let expected = "[Unit]\n\
Description=Clash - A rule-based tunnel in Go.\n\
After=network.target\n\
\n\
[Service]\n\
Type=simple\n\
ExecStart=/usr/local/bin/clash -d /home/user/.config/clash\n\
Restart=always\n\
\n\
[Install]\n\
WantedBy=multi-user.target";
    assert_eq!(String::from_utf8(got).unwrap(), expected);
}
