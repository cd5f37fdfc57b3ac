use vstd::prelude::*;
use crate::bytes::no_byte;
use crate::lit::{w_global, w_rule, w_direct, w_silent, w_error, w_warning, w_info, w_debug, w_true, w_false, d_binary_path, d_config_root, d_systemd_root, d_bind_address, d_external_controller, d_external_ui, w_global_v, w_rule_v, w_direct_v, w_silent_v, w_error_v, w_warning_v, w_info_v, w_debug_v, w_true_v, w_false_v, d_binary_path_v, d_config_root_v, d_systemd_root_v, d_bind_address_v, d_external_controller_v, d_external_ui_v};

verus! {

/// Routing mode of the proxy daemon: a closed three-value set.
#[derive(Clone, Copy, Debug, PartialEq, Eq, Structural)]
pub enum MihomoMode {
    Global,
    Rule,
    Direct,
}

/// Log level of the proxy daemon: a closed five-value set.
#[derive(Clone, Copy, Debug, PartialEq, Eq, Structural)]
pub enum MihomoLogLevel {
    Silent,
    Error,
    Warning,
    Info,
    Debug,
}

/// Errors of the config store and the overlay engine.
///
/// `Bootstrap` is the first-run outcome: no settings file existed and a
/// default scaffold is owed at its path. `Parse` covers malformed text and
/// wrongly-typed recognized fields. `Validation` names the first required
/// field found empty. I/O failures stay with the caller that does the I/O.
#[derive(Clone, Copy, Debug, PartialEq, Eq, Structural)]
pub enum MihoroError {
    Bootstrap,
    Parse,
    Validation(RequiredField),
}

/// The required settings fields, in their fixed validation order.
#[derive(Clone, Copy, Debug, PartialEq, Eq, Structural)]
pub enum RequiredField {
    RemoteConfigUrl,
    MihomoBinaryPath,
    MihomoConfigRoot,
    UserSystemdRoot,
}

/// The wire word of a mode value.
pub open spec fn mode_text(m: MihomoMode) -> Seq<u8> {
    match m {
        MihomoMode::Global => w_global(),
        MihomoMode::Rule => w_rule(),
        MihomoMode::Direct => w_direct(),
    }
}

/// Parse a mode word; words outside the closed set are rejected.
pub open spec fn spec_parse_mode(s: Seq<u8>) -> Option<MihomoMode> {
    if s == w_global() {
        Some(MihomoMode::Global)
    } else if s == w_rule() {
        Some(MihomoMode::Rule)
    } else if s == w_direct() {
        Some(MihomoMode::Direct)
    } else {
        None
    }
}

/// The wire word of a log level.
pub open spec fn level_text(l: MihomoLogLevel) -> Seq<u8> {
    match l {
        MihomoLogLevel::Silent => w_silent(),
        MihomoLogLevel::Error => w_error(),
        MihomoLogLevel::Warning => w_warning(),
        MihomoLogLevel::Info => w_info(),
        MihomoLogLevel::Debug => w_debug(),
    }
}

/// Parse a log-level word; words outside the closed set are rejected.
pub open spec fn spec_parse_level(s: Seq<u8>) -> Option<MihomoLogLevel> {
    if s == w_silent() {
        Some(MihomoLogLevel::Silent)
    } else if s == w_error() {
        Some(MihomoLogLevel::Error)
    } else if s == w_warning() {
        Some(MihomoLogLevel::Warning)
    } else if s == w_info() {
        Some(MihomoLogLevel::Info)
    } else if s == w_debug() {
        Some(MihomoLogLevel::Debug)
    } else {
        None
    }
}

/// The boolean wire words.
pub open spec fn bool_text(b: bool) -> Seq<u8> {
    if b {
        w_true()
    } else {
        w_false()
    }
}

pub open spec fn spec_parse_bool(s: Seq<u8>) -> Option<bool> {
    if s == w_true() {
        Some(true)
    } else if s == w_false() {
        Some(false)
    } else {
        None
    }
}

/// Parsing a printed enum or boolean word gives the value back.
pub proof fn lemma_word_round_trips(m: MihomoMode, l: MihomoLogLevel, b: bool)
    ensures
        spec_parse_mode(mode_text(m)) == Some(m),
        spec_parse_level(level_text(l)) == Some(l),
        spec_parse_bool(bool_text(b)) == Some(b),
{
    assert(w_global()[0] != w_direct()[0]);
    assert(w_global() != w_direct());
    assert(w_error()[0] != w_debug()[0]);
    assert(w_error() != w_debug());
    assert(w_silent()[0] != w_warning()[0]);
}

/// The managed subset of the daemon's own configuration: the override fields.
pub struct MihomoConfig {
    pub port: u16,
    pub socks_port: u16,
    pub allow_lan: Option<bool>,
    pub bind_address: Option<Vec<u8>>,
    pub mode: MihomoMode,
    pub log_level: MihomoLogLevel,
    pub ipv6: Option<bool>,
    pub external_controller: Option<Vec<u8>>,
    pub external_ui: Option<Vec<u8>>,
    pub secret: Option<Vec<u8>>,
}

/// Mathematical model of `MihomoConfig`.
#[verifier::ext_equal]
pub ghost struct MihomoConfigV {
    pub port: u16,
    pub socks_port: u16,
    pub allow_lan: Option<bool>,
    pub bind_address: Option<Seq<u8>>,
    pub mode: MihomoMode,
    pub log_level: MihomoLogLevel,
    pub ipv6: Option<bool>,
    pub external_controller: Option<Seq<u8>>,
    pub external_ui: Option<Seq<u8>>,
    pub secret: Option<Seq<u8>>,
}

/// View of an optional byte string.
pub open spec fn opt_bytes(o: Option<Vec<u8>>) -> Option<Seq<u8>> {
    match o {
        Some(v) => Some(v@),
        None => None,
    }
}

impl View for MihomoConfig {
    type V = MihomoConfigV;

    open spec fn view(&self) -> MihomoConfigV {
        MihomoConfigV {
            port: self.port,
            socks_port: self.socks_port,
            allow_lan: self.allow_lan,
            bind_address: opt_bytes(self.bind_address),
            mode: self.mode,
            log_level: self.log_level,
            ipv6: self.ipv6,
            external_controller: opt_bytes(self.external_controller),
            external_ui: opt_bytes(self.external_ui),
            secret: opt_bytes(self.secret),
        }
    }
}

/// The tool's own settings: remote sources, local destinations, and the
/// managed daemon overrides.
pub struct Config {
    pub remote_mihomo_binary_url: Vec<u8>,
    pub remote_config_url: Vec<u8>,
    pub mihomo_binary_path: Vec<u8>,
    pub mihomo_config_root: Vec<u8>,
    pub user_systemd_root: Vec<u8>,
    pub mihomo_config: MihomoConfig,
}

/// Mathematical model of `Config`.
#[verifier::ext_equal]
pub ghost struct ConfigV {
    pub remote_mihomo_binary_url: Seq<u8>,
    pub remote_config_url: Seq<u8>,
    pub mihomo_binary_path: Seq<u8>,
    pub mihomo_config_root: Seq<u8>,
    pub user_systemd_root: Seq<u8>,
    pub mihomo_config: MihomoConfigV,
}

impl View for Config {
    type V = ConfigV;

    open spec fn view(&self) -> ConfigV {
        ConfigV {
            remote_mihomo_binary_url: self.remote_mihomo_binary_url@,
            remote_config_url: self.remote_config_url@,
            mihomo_binary_path: self.mihomo_binary_path@,
            mihomo_config_root: self.mihomo_config_root@,
            user_systemd_root: self.user_systemd_root@,
            mihomo_config: self.mihomo_config@,
        }
    }
}

/// A byte string that fits on one settings line: no newline, no quote.
pub open spec fn wf_bytes(s: Seq<u8>) -> bool {
    no_byte(s, 10) && no_byte(s, 34)
}

pub open spec fn wf_opt_bytes(o: Option<Seq<u8>>) -> bool {
    match o {
        Some(s) => wf_bytes(s),
        None => true,
    }
}

/// Well-formed overrides: every string field fits on one line.
pub open spec fn mihomo_wf(m: MihomoConfigV) -> bool {
    wf_opt_bytes(m.bind_address) && wf_opt_bytes(m.external_controller) && wf_opt_bytes(
        m.external_ui,
    ) && wf_opt_bytes(m.secret)
}

/// Well-formed settings: every string field fits on one line.
pub open spec fn config_wf(c: ConfigV) -> bool {
    wf_bytes(c.remote_mihomo_binary_url) && wf_bytes(c.remote_config_url) && wf_bytes(
        c.mihomo_binary_path,
    ) && wf_bytes(c.mihomo_config_root) && wf_bytes(c.user_systemd_root) && mihomo_wf(
        c.mihomo_config,
    )
}

/// The scaffold written on first run: empty remote URLs (the user must fill
/// them in), conventional local paths, and the stock daemon overrides.
pub open spec fn default_config() -> ConfigV {
    ConfigV {
        remote_mihomo_binary_url: Seq::empty(),
        remote_config_url: Seq::empty(),
        mihomo_binary_path: d_binary_path(),
        mihomo_config_root: d_config_root(),
        user_systemd_root: d_systemd_root(),
        mihomo_config: MihomoConfigV {
            port: 7890,
            socks_port: 7891,
            allow_lan: Some(false),
            bind_address: Some(d_bind_address()),
            mode: MihomoMode::Rule,
            log_level: MihomoLogLevel::Info,
            ipv6: Some(true),
            external_controller: Some(d_external_controller()),
            external_ui: Some(d_external_ui()),
            secret: None,
        },
    }
}

impl Config {
    /// The hard-coded default settings value.
    pub fn new() -> (c: Config)
        ensures
            c@ == default_config(),
            config_wf(c@),
    {
        let c = Config {
            remote_mihomo_binary_url: Vec::new(),
            remote_config_url: Vec::new(),
            mihomo_binary_path: d_binary_path_v(),
            mihomo_config_root: d_config_root_v(),
            user_systemd_root: d_systemd_root_v(),
            mihomo_config: MihomoConfig {
                port: 7890,
                socks_port: 7891,
                allow_lan: Some(false),
                bind_address: Some(d_bind_address_v()),
                mode: MihomoMode::Rule,
                log_level: MihomoLogLevel::Info,
                ipv6: Some(true),
                external_controller: Some(d_external_controller_v()),
                external_ui: Some(d_external_ui_v()),
                secret: None,
            },
        };
        proof {
            assert(c@ =~= default_config());
        }
        c
    }
}

/// Exec mirror of `mode_text`.
pub fn mode_text_v(m: &MihomoMode) -> (r: Vec<u8>)
    ensures
        r@ == mode_text(*m),
{
    match m {
        MihomoMode::Global => w_global_v(),
        MihomoMode::Rule => w_rule_v(),
        MihomoMode::Direct => w_direct_v(),
    }
}

/// Exec mirror of `spec_parse_mode`.
pub fn parse_mode_v(v: &Vec<u8>) -> (r: Option<MihomoMode>)
    ensures
        r == spec_parse_mode(v@),
{
    proof {
        assert(v@.subrange(0, v@.len() as int) =~= v@);
    }
    if crate::bytes::vec_range_eq(v, 0, v.len(), &w_global_v()) {
        Some(MihomoMode::Global)
    } else if crate::bytes::vec_range_eq(v, 0, v.len(), &w_rule_v()) {
        Some(MihomoMode::Rule)
    } else if crate::bytes::vec_range_eq(v, 0, v.len(), &w_direct_v()) {
        Some(MihomoMode::Direct)
    } else {
        None
    }
}

/// Exec mirror of `level_text`.
pub fn level_text_v(l: &MihomoLogLevel) -> (r: Vec<u8>)
    ensures
        r@ == level_text(*l),
{
    match l {
        MihomoLogLevel::Silent => w_silent_v(),
        MihomoLogLevel::Error => w_error_v(),
        MihomoLogLevel::Warning => w_warning_v(),
        MihomoLogLevel::Info => w_info_v(),
        MihomoLogLevel::Debug => w_debug_v(),
    }
}

/// Exec mirror of `spec_parse_level`.
pub fn parse_level_v(v: &Vec<u8>) -> (r: Option<MihomoLogLevel>)
    ensures
        r == spec_parse_level(v@),
{
    proof {
        assert(v@.subrange(0, v@.len() as int) =~= v@);
    }
    if crate::bytes::vec_range_eq(v, 0, v.len(), &w_silent_v()) {
        Some(MihomoLogLevel::Silent)
    } else if crate::bytes::vec_range_eq(v, 0, v.len(), &w_error_v()) {
        Some(MihomoLogLevel::Error)
    } else if crate::bytes::vec_range_eq(v, 0, v.len(), &w_warning_v()) {
        Some(MihomoLogLevel::Warning)
    } else if crate::bytes::vec_range_eq(v, 0, v.len(), &w_info_v()) {
        Some(MihomoLogLevel::Info)
    } else if crate::bytes::vec_range_eq(v, 0, v.len(), &w_debug_v()) {
        Some(MihomoLogLevel::Debug)
    } else {
        None
    }
}

/// Exec mirror of `bool_text`.
pub fn bool_text_v(b: bool) -> (r: Vec<u8>)
    ensures
        r@ == bool_text(b),
{
    if b {
        w_true_v()
    } else {
        w_false_v()
    }
}

/// Exec mirror of `spec_parse_bool`.
pub fn parse_bool_v(v: &Vec<u8>) -> (r: Option<bool>)
    ensures
        r == spec_parse_bool(v@),
{
    proof {
        assert(v@.subrange(0, v@.len() as int) =~= v@);
    }
    if crate::bytes::vec_range_eq(v, 0, v.len(), &w_true_v()) {
        Some(true)
    } else if crate::bytes::vec_range_eq(v, 0, v.len(), &w_false_v()) {
        Some(false)
    } else {
        None
    }
}

/// Copy an optional byte string.
pub fn copy_opt_bytes(o: &Option<Vec<u8>>) -> (r: Option<Vec<u8>>)
    ensures
        opt_bytes(r) == opt_bytes(*o),
{
    match o {
        Some(v) => Some(crate::bytes::subvec(v, 0, v.len())),
        None => None,
    }
}

} // verus!
