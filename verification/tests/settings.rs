use mihoro::config::{Config, MihomoMode, MihomoLogLevel, MihoroError, RequiredField};
use mihoro::store::parse_config;

fn text(bytes: Vec<u8>) -> String {
    String::from_utf8(bytes).unwrap()
}

#[test]
fn default_config_values() {
    let c = Config::new();
    assert_eq!(c.remote_mihomo_binary_url, b"".to_vec());
    assert_eq!(c.remote_config_url, b"".to_vec());
    assert_eq!(c.mihomo_binary_path, b"~/.local/bin/mihomo".to_vec());
    assert_eq!(c.mihomo_config_root, b"~/.config/mihomo".to_vec());
    assert_eq!(c.user_systemd_root, b"~/.config/systemd/user".to_vec());
    assert_eq!(c.mihomo_config.port, 7890);
    assert_eq!(c.mihomo_config.socks_port, 7891);
    assert_eq!(c.mihomo_config.allow_lan, Some(false));
    assert_eq!(c.mihomo_config.bind_address, Some(b"*".to_vec()));
    assert_eq!(c.mihomo_config.mode, MihomoMode::Rule);
    assert_eq!(c.mihomo_config.log_level, MihomoLogLevel::Info);
    assert_eq!(c.mihomo_config.ipv6, Some(true));
    assert_eq!(
        c.mihomo_config.external_controller,
        Some(b"0.0.0.0:9090".to_vec())
    );
    assert_eq!(c.mihomo_config.external_ui, Some(b"ui".to_vec()));
    assert_eq!(c.mihomo_config.secret, None);
}

#[test]
fn write_default_settings_text() {
    let c = Config::new();
    let expected = "remote_mihomo_binary_url = \"\"\n\
remote_config_url = \"\"\n\
mihomo_binary_path = \"~/.local/bin/mihomo\"\n\
mihomo_config_root = \"~/.config/mihomo\"\n\
user_systemd_root = \"~/.config/systemd/user\"\n\
\n\
[mihomo_config]\n\
port = 7890\n\
socks_port = 7891\n\
allow_lan = false\n\
bind_address = \"*\"\n\
mode = \"rule\"\n\
log_level = \"info\"\n\
ipv6 = true\n\
external_controller = \"0.0.0.0:9090\"\n\
external_ui = \"ui\"\n";
    assert_eq!(text(c.write()), expected);
}

#[test]
fn save_then_load_reproduces_default() {
    let c = Config::new();
    let loaded = Config::setup_from(&c.write()).unwrap();
    assert_eq!(loaded.remote_mihomo_binary_url, c.remote_mihomo_binary_url);
    assert_eq!(loaded.remote_config_url, c.remote_config_url);
    assert_eq!(loaded.mihomo_binary_path, c.mihomo_binary_path);
    assert_eq!(loaded.mihomo_config_root, c.mihomo_config_root);
    assert_eq!(loaded.user_systemd_root, c.user_systemd_root);
    assert_eq!(loaded.mihomo_config.port, c.mihomo_config.port);
    assert_eq!(loaded.mihomo_config.socks_port, c.mihomo_config.socks_port);
    assert_eq!(loaded.mihomo_config.allow_lan, c.mihomo_config.allow_lan);
    assert_eq!(loaded.mihomo_config.bind_address, c.mihomo_config.bind_address);
    assert_eq!(loaded.mihomo_config.mode, c.mihomo_config.mode);
    assert_eq!(loaded.mihomo_config.log_level, c.mihomo_config.log_level);
    assert_eq!(loaded.mihomo_config.ipv6, c.mihomo_config.ipv6);
    assert_eq!(
        loaded.mihomo_config.external_controller,
        c.mihomo_config.external_controller
    );
    assert_eq!(loaded.mihomo_config.external_ui, c.mihomo_config.external_ui);
    assert_eq!(loaded.mihomo_config.secret, c.mihomo_config.secret);
}

#[test]
fn save_then_load_reproduces_custom_value() {
    let mut c = Config::new();
    c.remote_config_url = b"https://example.com/sub".to_vec();
    c.mihomo_config.port = 65535;
    c.mihomo_config.socks_port = 1;
    c.mihomo_config.allow_lan = None;
    c.mihomo_config.bind_address = None;
    c.mihomo_config.mode = MihomoMode::Direct;
    c.mihomo_config.log_level = MihomoLogLevel::Debug;
    c.mihomo_config.ipv6 = None;
    c.mihomo_config.external_controller = None;
    c.mihomo_config.external_ui = None;
    c.mihomo_config.secret = Some(b"SECRET-REDACTED".to_vec());
    let loaded = Config::setup_from(&c.write()).unwrap();
    assert_eq!(loaded.remote_config_url, b"https://example.com/sub".to_vec());
    assert_eq!(loaded.mihomo_config.port, 65535);
    assert_eq!(loaded.mihomo_config.socks_port, 1);
    assert_eq!(loaded.mihomo_config.allow_lan, None);
    assert_eq!(loaded.mihomo_config.bind_address, None);
    assert_eq!(loaded.mihomo_config.mode, MihomoMode::Direct);
    assert_eq!(loaded.mihomo_config.log_level, MihomoLogLevel::Debug);
    assert_eq!(loaded.mihomo_config.ipv6, None);
    assert_eq!(loaded.mihomo_config.external_controller, None);
    assert_eq!(loaded.mihomo_config.external_ui, None);
    assert_eq!(loaded.mihomo_config.secret, Some(b"SECRET-REDACTED".to_vec()));
}

#[test]
fn setup_from_rejects_port_out_of_range() {
    let raw = text(Config::new().write()).replace("port = 7890", "port = 99999");
    assert!(matches!(
        Config::setup_from(&raw.into_bytes()),
        Err(MihoroError::Parse)
    ));
}

#[test]
fn setup_from_rejects_non_numeric_port() {
    let raw = text(Config::new().write()).replace("port = 7890", "port = \"abc\"");
    assert!(matches!(
        Config::setup_from(&raw.into_bytes()),
        Err(MihoroError::Parse)
    ));
}

#[test]
fn setup_from_rejects_unknown_enum_word() {
    let raw = text(Config::new().write()).replace("mode = \"rule\"", "mode = \"tunnel\"");
    assert!(matches!(
        Config::setup_from(&raw.into_bytes()),
        Err(MihoroError::Parse)
    ));
}

#[test]
fn setup_from_rejects_missing_required_key() {
    let raw = text(Config::new().write()).replace("mihomo_binary_path = \"~/.local/bin/mihomo\"\n", "");
    assert!(matches!(
        Config::setup_from(&raw.into_bytes()),
        Err(MihoroError::Parse)
    ));
}

#[test]
fn setup_from_ignores_unknown_keys_and_comments() {
    let mut raw = String::from("# a comment\nnovel_key = \"x\"\n");
    raw.push_str(&text(Config::new().write()));
    assert!(Config::setup_from(&raw.into_bytes()).is_ok());
}

#[test]
fn load_missing_file_signals_bootstrap() {
    assert!(matches!(parse_config(None), Err(MihoroError::Bootstrap)));
}

#[test]
fn load_scaffold_then_edited_succeeds() {
    // A fresh scaffold still has its remote URL empty: validation names it.
    let scaffold = Config::new().write();
    assert!(matches!(
        parse_config(Some(&scaffold)),
        Err(MihoroError::Validation(RequiredField::RemoteConfigUrl))
    ));
    // After the user fills the URL in, the same file loads cleanly.
    let edited = text(scaffold).replace(
        "remote_config_url = \"\"",
        "remote_config_url = \"https://example.com/profile\"",
    );
    let c = parse_config(Some(&edited.into_bytes())).unwrap();
    assert_eq!(c.remote_config_url, b"https://example.com/profile".to_vec());
}

#[test]
fn validation_names_first_empty_field_in_fixed_order() {
    // Both the config root and the systemd root are empty: the config root
    // comes first in the fixed check order and is the one named.
    let mut c = Config::new();
    c.remote_config_url = b"https://example.com".to_vec();
    c.mihomo_config_root = b"".to_vec();
    c.user_systemd_root = b"".to_vec();
    assert!(matches!(
        parse_config(Some(&c.write())),
        Err(MihoroError::Validation(RequiredField::MihomoConfigRoot))
    ));
}

#[test]
fn validation_order_prefers_remote_config_url() {
    let mut c = Config::new();
    c.mihomo_binary_path = b"".to_vec();
    assert!(matches!(
        parse_config(Some(&c.write())),
        Err(MihoroError::Validation(RequiredField::RemoteConfigUrl))
    ));
}

#[test]
fn validation_names_binary_path_and_systemd_root() {
    let mut c = Config::new();
    c.remote_config_url = b"u".to_vec();
    c.mihomo_binary_path = b"".to_vec();
    assert!(matches!(
        parse_config(Some(&c.write())),
        Err(MihoroError::Validation(RequiredField::MihomoBinaryPath))
    ));
    let mut c2 = Config::new();
    c2.remote_config_url = b"u".to_vec();
    c2.user_systemd_root = b"".to_vec();
    assert!(matches!(
        parse_config(Some(&c2.write())),
        Err(MihoroError::Validation(RequiredField::UserSystemdRoot))
    ));
}
