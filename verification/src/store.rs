use vstd::prelude::*;
use crate::bytes::{find_byte, no_byte, subvec, vec_range_eq, scan_byte, lemma_find_byte, lemma_no_byte_append, lemma_find_byte_append};
use crate::lines::{join_lines, lines_of, views, split_lines, push_line, nl, lemma_join_append, all_newline_free, lemma_split_join};
use crate::num::{spec_parse_u16, u16_digits, parse_u16, fmt_u16, lemma_u16_digits, is_digit};
use crate::lit::{lemma_toml_top_keys_distinct, lemma_toml_table_keys_distinct, lemma_toml_key_shapes, lemma_keys_newline_free, lemma_word_shapes, tk_remote_mihomo_binary_url, tk_remote_config_url, tk_mihomo_binary_path, tk_mihomo_config_root, tk_user_systemd_root, tk_header_mihomo_config, tk_port, tk_socks_port, tk_allow_lan, tk_bind_address, tk_mode, tk_log_level, tk_ipv6, tk_external_controller, tk_external_ui, tk_secret, tk_remote_mihomo_binary_url_v, tk_remote_config_url_v, tk_mihomo_binary_path_v, tk_mihomo_config_root_v, tk_user_systemd_root_v, tk_header_mihomo_config_v, tk_port_v, tk_socks_port_v, tk_allow_lan_v, tk_bind_address_v, tk_mode_v, tk_log_level_v, tk_ipv6_v, tk_external_controller_v, tk_external_ui_v, tk_secret_v};
use crate::config::{Config, ConfigV, MihomoConfig, MihomoConfigV, MihomoMode, MihomoLogLevel, MihoroError, RequiredField, opt_bytes, mode_text, level_text, bool_text, spec_parse_mode, spec_parse_level, spec_parse_bool, parse_mode_v, parse_level_v, parse_bool_v, mode_text_v, level_text_v, bool_text_v, config_wf, lemma_word_round_trips};

verus! {

/// A quoted string scalar.
pub open spec fn q(s: Seq<u8>) -> Seq<u8> {
    seq![34u8] + s + seq![34u8]
}

/// Undo quoting; rejects text that is not one quoted run without inner quotes.
pub open spec fn unquote(v: Seq<u8>) -> Option<Seq<u8>> {
    if v.len() >= 2 && v[0] == 34 && v[v.len() - 1] == 34 && no_byte(v.subrange(1, v.len() - 1), 34) {
        Some(v.subrange(1, v.len() - 1))
    } else {
        None
    }
}

/// A settings line: `key = value`, single spaces around the equals sign.
pub open spec fn toml_line(k: Seq<u8>, v: Seq<u8>) -> Seq<u8> {
    k + seq![32u8, 61u8, 32u8] + v
}

/// Split a settings line at its first equals sign.
pub open spec fn parse_kv_toml(l: Seq<u8>) -> Option<(Seq<u8>, Seq<u8>)> {
    match find_byte(l, 61) {
        None => None,
        Some(p) => if p >= 2 && p + 2 <= l.len() && l[p - 1] == 32 && l[p + 1] == 32 {
            Some((l.subrange(0, p - 1), l.subrange(p + 2, l.len() as int)))
        } else {
            None
        },
    }
}

/// Parser state for the settings document: current section and every field
/// seen so far.
#[verifier::ext_equal]
pub ghost struct TomlStV {
    pub sect: int,
    pub rmbu: Option<Seq<u8>>,
    pub rcu: Option<Seq<u8>>,
    pub mbp: Option<Seq<u8>>,
    pub mcr: Option<Seq<u8>>,
    pub usr: Option<Seq<u8>>,
    pub port: Option<u16>,
    pub socks: Option<u16>,
    pub allow: Option<bool>,
    pub bind: Option<Seq<u8>>,
    pub mode: Option<MihomoMode>,
    pub level: Option<MihomoLogLevel>,
    pub ipv6: Option<bool>,
    pub ec: Option<Seq<u8>>,
    pub eui: Option<Seq<u8>>,
    pub secret: Option<Seq<u8>>,
}

pub open spec fn toml_init() -> TomlStV {
    TomlStV {
        sect: 0,
        rmbu: None,
        rcu: None,
        mbp: None,
        mcr: None,
        usr: None,
        port: None,
        socks: None,
        allow: None,
        bind: None,
        mode: None,
        level: None,
        ipv6: None,
        ec: None,
        eui: None,
        secret: None,
    }
}

/// One parsing step of the settings document. Blank and comment lines are
/// skipped, unknown sections and unknown keys are ignored, a recognized key
/// with a wrongly-typed value is a parse error.
pub open spec fn toml_step(st: TomlStV, l: Seq<u8>) -> Option<TomlStV> {
    if l.len() == 0 || l[0] == 35 {
        Some(st)
    } else if l[0] == 91 {
        if l == tk_header_mihomo_config() {
            Some(TomlStV { sect: 1, ..st })
        } else {
            Some(TomlStV { sect: 2, ..st })
        }
    } else {
        match parse_kv_toml(l) {
            None => None,
            Some((k, v)) => if st.sect == 0 {
                if k == tk_remote_mihomo_binary_url() {
                    match unquote(v) {
                        Some(s) => Some(TomlStV { rmbu: Some(s), ..st }),
                        None => None,
                    }
                } else if k == tk_remote_config_url() {
                    match unquote(v) {
                        Some(s) => Some(TomlStV { rcu: Some(s), ..st }),
                        None => None,
                    }
                } else if k == tk_mihomo_binary_path() {
                    match unquote(v) {
                        Some(s) => Some(TomlStV { mbp: Some(s), ..st }),
                        None => None,
                    }
                } else if k == tk_mihomo_config_root() {
                    match unquote(v) {
                        Some(s) => Some(TomlStV { mcr: Some(s), ..st }),
                        None => None,
                    }
                } else if k == tk_user_systemd_root() {
                    match unquote(v) {
                        Some(s) => Some(TomlStV { usr: Some(s), ..st }),
                        None => None,
                    }
                } else {
                    Some(st)
                }
            } else if st.sect == 1 {
                if k == tk_port() {
                    match spec_parse_u16(v) {
                        Some(n) => Some(TomlStV { port: Some(n), ..st }),
                        None => None,
                    }
                } else if k == tk_socks_port() {
                    match spec_parse_u16(v) {
                        Some(n) => Some(TomlStV { socks: Some(n), ..st }),
                        None => None,
                    }
                } else if k == tk_allow_lan() {
                    match spec_parse_bool(v) {
                        Some(b) => Some(TomlStV { allow: Some(b), ..st }),
                        None => None,
                    }
                } else if k == tk_bind_address() {
                    match unquote(v) {
                        Some(s) => Some(TomlStV { bind: Some(s), ..st }),
                        None => None,
                    }
                } else if k == tk_mode() {
                    match unquote(v) {
                        Some(w) => match spec_parse_mode(w) {
                            Some(m) => Some(TomlStV { mode: Some(m), ..st }),
                            None => None,
                        },
                        None => None,
                    }
                } else if k == tk_log_level() {
                    match unquote(v) {
                        Some(w) => match spec_parse_level(w) {
                            Some(x) => Some(TomlStV { level: Some(x), ..st }),
                            None => None,
                        },
                        None => None,
                    }
                } else if k == tk_ipv6() {
                    match spec_parse_bool(v) {
                        Some(b) => Some(TomlStV { ipv6: Some(b), ..st }),
                        None => None,
                    }
                } else if k == tk_external_controller() {
                    match unquote(v) {
                        Some(s) => Some(TomlStV { ec: Some(s), ..st }),
                        None => None,
                    }
                } else if k == tk_external_ui() {
                    match unquote(v) {
                        Some(s) => Some(TomlStV { eui: Some(s), ..st }),
                        None => None,
                    }
                } else if k == tk_secret() {
                    match unquote(v) {
                        Some(s) => Some(TomlStV { secret: Some(s), ..st }),
                        None => None,
                    }
                } else {
                    Some(st)
                }
            } else {
                Some(st)
            },
        }
    }
}

pub open spec fn toml_fold(st: Option<TomlStV>, ls: Seq<Seq<u8>>) -> Option<TomlStV>
    decreases ls.len(),
{
    if ls.len() == 0 {
        st
    } else {
        match st {
            None => None,
            Some(s) => toml_fold(toml_step(s, ls[0]), ls.drop_first()),
        }
    }
}

/// A parsed document yields a settings value only when every required field
/// was declared; optional override fields may stay absent.
pub open spec fn toml_finish(st: TomlStV) -> Option<ConfigV> {
    if st.rmbu is Some && st.rcu is Some && st.mbp is Some && st.mcr is Some && st.usr is Some
        && st.port is Some && st.socks is Some && st.mode is Some && st.level is Some {
        Some(
            ConfigV {
                remote_mihomo_binary_url: st.rmbu->Some_0,
                remote_config_url: st.rcu->Some_0,
                mihomo_binary_path: st.mbp->Some_0,
                mihomo_config_root: st.mcr->Some_0,
                user_systemd_root: st.usr->Some_0,
                mihomo_config: MihomoConfigV {
                    port: st.port->Some_0,
                    socks_port: st.socks->Some_0,
                    allow_lan: st.allow,
                    bind_address: st.bind,
                    mode: st.mode->Some_0,
                    log_level: st.level->Some_0,
                    ipv6: st.ipv6,
                    external_controller: st.ec,
                    external_ui: st.eui,
                    secret: st.secret,
                },
            },
        )
    } else {
        None
    }
}

/// Parse a settings text into a settings value; `None` is a parse failure.
pub open spec fn spec_setup_from(t: Seq<u8>) -> Option<ConfigV> {
    match toml_fold(Some(toml_init()), lines_of(t)) {
        None => None,
        Some(st) => toml_finish(st),
    }
}

/// The first required field that is empty, in the fixed check order.
pub open spec fn first_empty_field(c: ConfigV) -> Option<RequiredField> {
    if c.remote_config_url.len() == 0 {
        Some(RequiredField::RemoteConfigUrl)
    } else if c.mihomo_binary_path.len() == 0 {
        Some(RequiredField::MihomoBinaryPath)
    } else if c.mihomo_config_root.len() == 0 {
        Some(RequiredField::MihomoConfigRoot)
    } else if c.user_systemd_root.len() == 0 {
        Some(RequiredField::UserSystemdRoot)
    } else {
        None
    }
}

/// The lines of the serialized settings document, in the fixed emission
/// order: the five path and URL fields, a blank line, the overrides table.
pub open spec fn config_lines(c: ConfigV) -> Seq<Seq<u8>> {
    seq![toml_line(tk_remote_mihomo_binary_url(), q(c.remote_mihomo_binary_url))] + seq![
        toml_line(tk_remote_config_url(), q(c.remote_config_url)),
    ] + seq![toml_line(tk_mihomo_binary_path(), q(c.mihomo_binary_path))] + seq![
        toml_line(tk_mihomo_config_root(), q(c.mihomo_config_root)),
    ] + seq![toml_line(tk_user_systemd_root(), q(c.user_systemd_root))] + seq![Seq::<u8>::empty()]
        + seq![tk_header_mihomo_config()] + seq![
        toml_line(tk_port(), u16_digits(c.mihomo_config.port)),
    ] + seq![toml_line(tk_socks_port(), u16_digits(c.mihomo_config.socks_port))] + opt_bool_tlines(
        tk_allow_lan(),
        c.mihomo_config.allow_lan,
    ) + opt_qstr_tlines(tk_bind_address(), c.mihomo_config.bind_address) + seq![
        toml_line(tk_mode(), q(mode_text(c.mihomo_config.mode))),
    ] + seq![toml_line(tk_log_level(), q(level_text(c.mihomo_config.log_level)))]
        + opt_bool_tlines(tk_ipv6(), c.mihomo_config.ipv6) + opt_qstr_tlines(
        tk_external_controller(),
        c.mihomo_config.external_controller,
    ) + opt_qstr_tlines(tk_external_ui(), c.mihomo_config.external_ui) + opt_qstr_tlines(
        tk_secret(),
        c.mihomo_config.secret,
    )
}

pub open spec fn opt_bool_tlines(k: Seq<u8>, v: Option<bool>) -> Seq<Seq<u8>> {
    match v {
        None => seq![],
        Some(b) => seq![toml_line(k, bool_text(b))],
    }
}

pub open spec fn opt_qstr_tlines(k: Seq<u8>, v: Option<Seq<u8>>) -> Seq<Seq<u8>> {
    match v {
        None => seq![],
        Some(s) => seq![toml_line(k, q(s))],
    }
}

/// The serialized settings text.
pub open spec fn config_toml(c: ConfigV) -> Seq<u8> {
    join_lines(config_lines(c))
}

/// Build one `key = value` line.
pub(crate) fn toml_line_v(k: Vec<u8>, val: &Vec<u8>) -> (r: Vec<u8>)
    ensures
        r@ == toml_line(k@, val@),
{
    let ghost k0 = k@;
    let mut r = k;
    r.push(32);
    r.push(61);
    r.push(32);
    crate::bytes::append_bytes(&mut r, val);
    proof {
        assert(r@ =~= toml_line(k0, val@));
    }
    r
}

/// Quote a string scalar.
fn quote_v(s: &Vec<u8>) -> (r: Vec<u8>)
    ensures
        r@ == q(s@),
{
    let mut r: Vec<u8> = Vec::new();
    r.push(34);
    crate::bytes::append_bytes(&mut r, s);
    r.push(34);
    proof {
        assert(r@ =~= q(s@));
    }
    r
}

/// Undo quoting.
pub(crate) fn unquote_v(v: &Vec<u8>) -> (r: Option<Vec<u8>>)
    ensures
        match r {
            Some(s) => unquote(v@) == Some(s@),
            None => unquote(v@) == None::<Seq<u8>>,
        },
{
    if v.len() < 2 {
        return None;
    }
    if v[0] != 34 || v[v.len() - 1] != 34 {
        return None;
    }
    let inner = subvec(v, 1, v.len() - 1);
    match scan_byte(&inner, 34) {
        Some(_) => {
            proof {
                lemma_find_byte(inner@, 34);
            }
            None
        },
        None => {
            proof {
                lemma_find_byte(inner@, 34);
            }
            Some(inner)
        },
    }
}

/// Append one line to the buffer, tracked as a singleton line list.
pub(crate) fn push_one_line(buf: &mut Vec<u8>, line: &Vec<u8>)
    ensures
        final(buf)@ == old(buf)@ + join_lines(seq![line@]),
{
    push_line(buf, line);
    proof {
        assert(seq![line@].drop_first() =~= Seq::<Seq<u8>>::empty());
        assert(seq![line@][0] == line@);
        assert(join_lines(seq![line@]) == line@ + seq![nl()] + join_lines(
            Seq::<Seq<u8>>::empty(),
        ));
        assert(old(buf)@ + (line@ + seq![nl()] + Seq::<u8>::empty()) =~= old(buf)@ + line@
            + seq![nl()]);
    }
}

/// Append the line of one optional boolean settings field.
fn push_opt_bool_tline(buf: &mut Vec<u8>, k: Vec<u8>, v: Option<bool>)
    ensures
        final(buf)@ == old(buf)@ + join_lines(opt_bool_tlines(k@, v)),
{
    match v {
        Some(b) => {
            let line = toml_line_v(k, &bool_text_v(b));
            push_one_line(buf, &line);
        },
        None => {
            proof {
                assert(old(buf)@ + join_lines(opt_bool_tlines(k@, v)) =~= old(buf)@);
            }
        },
    }
}

/// Append the line of one optional quoted-string settings field.
fn push_opt_qstr_tline(buf: &mut Vec<u8>, k: Vec<u8>, v: &Option<Vec<u8>>)
    ensures
        final(buf)@ == old(buf)@ + join_lines(opt_qstr_tlines(k@, opt_bytes(*v))),
{
    match v {
        Some(s) => {
            let line = toml_line_v(k, &quote_v(s));
            push_one_line(buf, &line);
        },
        None => {
            proof {
                assert(old(buf)@ + join_lines(opt_qstr_tlines(k@, opt_bytes(*v))) =~= old(buf)@);
            }
        },
    }
}

impl Config {
    /// Serialize the settings to their on-disk text.
    pub fn write(&self) -> (r: Vec<u8>)
        ensures
            r@ == config_toml(self@),
    {
        let ghost c = self@;
        let mut buf: Vec<u8> = Vec::new();
        let line1 = toml_line_v(tk_remote_mihomo_binary_url_v(), &quote_v(&self.remote_mihomo_binary_url));
        push_one_line(&mut buf, &line1);
        let line2 = toml_line_v(tk_remote_config_url_v(), &quote_v(&self.remote_config_url));
        push_one_line(&mut buf, &line2);
        let line3 = toml_line_v(tk_mihomo_binary_path_v(), &quote_v(&self.mihomo_binary_path));
        push_one_line(&mut buf, &line3);
        let line4 = toml_line_v(tk_mihomo_config_root_v(), &quote_v(&self.mihomo_config_root));
        push_one_line(&mut buf, &line4);
        let line5 = toml_line_v(tk_user_systemd_root_v(), &quote_v(&self.user_systemd_root));
        push_one_line(&mut buf, &line5);
        let blank: Vec<u8> = Vec::new();
        push_one_line(&mut buf, &blank);
        let header = tk_header_mihomo_config_v();
        push_one_line(&mut buf, &header);
        let line6 = toml_line_v(tk_port_v(), &fmt_u16(self.mihomo_config.port));
        push_one_line(&mut buf, &line6);
        let line7 = toml_line_v(tk_socks_port_v(), &fmt_u16(self.mihomo_config.socks_port));
        push_one_line(&mut buf, &line7);
        push_opt_bool_tline(&mut buf, tk_allow_lan_v(), self.mihomo_config.allow_lan);
        push_opt_qstr_tline(&mut buf, tk_bind_address_v(), &self.mihomo_config.bind_address);
        let line8 = toml_line_v(tk_mode_v(), &quote_v(&mode_text_v(&self.mihomo_config.mode)));
        push_one_line(&mut buf, &line8);
        let line9 = toml_line_v(
            tk_log_level_v(),
            &quote_v(&level_text_v(&self.mihomo_config.log_level)),
        );
        push_one_line(&mut buf, &line9);
        push_opt_bool_tline(&mut buf, tk_ipv6_v(), self.mihomo_config.ipv6);
        push_opt_qstr_tline(
            &mut buf,
            tk_external_controller_v(),
            &self.mihomo_config.external_controller,
        );
        push_opt_qstr_tline(&mut buf, tk_external_ui_v(), &self.mihomo_config.external_ui);
        push_opt_qstr_tline(&mut buf, tk_secret_v(), &self.mihomo_config.secret);
        proof {
            lemma_config_toml_pieces(c);
            assert(Seq::<u8>::empty() + join_lines(
                seq![toml_line(tk_remote_mihomo_binary_url(), q(c.remote_mihomo_binary_url))],
            ) =~= join_lines(
                seq![toml_line(tk_remote_mihomo_binary_url(), q(c.remote_mihomo_binary_url))],
            ));
        }
        buf
    }
}

/// `config_toml` splits into the joins of its seventeen pieces.
proof fn lemma_config_toml_pieces(c: ConfigV)
    ensures
        config_toml(c) == join_lines(
            seq![toml_line(tk_remote_mihomo_binary_url(), q(c.remote_mihomo_binary_url))],
        ) + join_lines(seq![toml_line(tk_remote_config_url(), q(c.remote_config_url))])
            + join_lines(seq![toml_line(tk_mihomo_binary_path(), q(c.mihomo_binary_path))])
            + join_lines(seq![toml_line(tk_mihomo_config_root(), q(c.mihomo_config_root))])
            + join_lines(seq![toml_line(tk_user_systemd_root(), q(c.user_systemd_root))])
            + join_lines(seq![Seq::<u8>::empty()]) + join_lines(seq![tk_header_mihomo_config()])
            + join_lines(seq![toml_line(tk_port(), u16_digits(c.mihomo_config.port))])
            + join_lines(seq![toml_line(tk_socks_port(), u16_digits(c.mihomo_config.socks_port))])
            + join_lines(opt_bool_tlines(tk_allow_lan(), c.mihomo_config.allow_lan)) + join_lines(
            opt_qstr_tlines(tk_bind_address(), c.mihomo_config.bind_address),
        ) + join_lines(seq![toml_line(tk_mode(), q(mode_text(c.mihomo_config.mode)))])
            + join_lines(seq![toml_line(tk_log_level(), q(level_text(c.mihomo_config.log_level)))])
            + join_lines(opt_bool_tlines(tk_ipv6(), c.mihomo_config.ipv6)) + join_lines(
            opt_qstr_tlines(tk_external_controller(), c.mihomo_config.external_controller),
        ) + join_lines(opt_qstr_tlines(tk_external_ui(), c.mihomo_config.external_ui))
            + join_lines(opt_qstr_tlines(tk_secret(), c.mihomo_config.secret)),
{
    let p1 = seq![toml_line(tk_remote_mihomo_binary_url(), q(c.remote_mihomo_binary_url))];
    let p2 = seq![toml_line(tk_remote_config_url(), q(c.remote_config_url))];
    let p3 = seq![toml_line(tk_mihomo_binary_path(), q(c.mihomo_binary_path))];
    let p4 = seq![toml_line(tk_mihomo_config_root(), q(c.mihomo_config_root))];
    let p5 = seq![toml_line(tk_user_systemd_root(), q(c.user_systemd_root))];
    let p6 = seq![Seq::<u8>::empty()];
    let p7 = seq![tk_header_mihomo_config()];
    let p8 = seq![toml_line(tk_port(), u16_digits(c.mihomo_config.port))];
    let p9 = seq![toml_line(tk_socks_port(), u16_digits(c.mihomo_config.socks_port))];
    let p10 = opt_bool_tlines(tk_allow_lan(), c.mihomo_config.allow_lan);
    let p11 = opt_qstr_tlines(tk_bind_address(), c.mihomo_config.bind_address);
    let p12 = seq![toml_line(tk_mode(), q(mode_text(c.mihomo_config.mode)))];
    let p13 = seq![toml_line(tk_log_level(), q(level_text(c.mihomo_config.log_level)))];
    let p14 = opt_bool_tlines(tk_ipv6(), c.mihomo_config.ipv6);
    let p15 = opt_qstr_tlines(tk_external_controller(), c.mihomo_config.external_controller);
    let p16 = opt_qstr_tlines(tk_external_ui(), c.mihomo_config.external_ui);
    let p17 = opt_qstr_tlines(tk_secret(), c.mihomo_config.secret);
    lemma_join_append(p1, p2);
    lemma_join_append(p1 + p2, p3);
    lemma_join_append(p1 + p2 + p3, p4);
    lemma_join_append(p1 + p2 + p3 + p4, p5);
    lemma_join_append(p1 + p2 + p3 + p4 + p5, p6);
    lemma_join_append(p1 + p2 + p3 + p4 + p5 + p6, p7);
    lemma_join_append(p1 + p2 + p3 + p4 + p5 + p6 + p7, p8);
    lemma_join_append(p1 + p2 + p3 + p4 + p5 + p6 + p7 + p8, p9);
    lemma_join_append(p1 + p2 + p3 + p4 + p5 + p6 + p7 + p8 + p9, p10);
    lemma_join_append(p1 + p2 + p3 + p4 + p5 + p6 + p7 + p8 + p9 + p10, p11);
    lemma_join_append(p1 + p2 + p3 + p4 + p5 + p6 + p7 + p8 + p9 + p10 + p11, p12);
    lemma_join_append(p1 + p2 + p3 + p4 + p5 + p6 + p7 + p8 + p9 + p10 + p11 + p12, p13);
    lemma_join_append(p1 + p2 + p3 + p4 + p5 + p6 + p7 + p8 + p9 + p10 + p11 + p12 + p13, p14);
    lemma_join_append(
        p1 + p2 + p3 + p4 + p5 + p6 + p7 + p8 + p9 + p10 + p11 + p12 + p13 + p14,
        p15,
    );
    lemma_join_append(
        p1 + p2 + p3 + p4 + p5 + p6 + p7 + p8 + p9 + p10 + p11 + p12 + p13 + p14 + p15,
        p16,
    );
    lemma_join_append(
        p1 + p2 + p3 + p4 + p5 + p6 + p7 + p8 + p9 + p10 + p11 + p12 + p13 + p14 + p15 + p16,
        p17,
    );
}

/// Folding from a failed state stays failed.
pub proof fn lemma_toml_fold_none(ls: Seq<Seq<u8>>)
    ensures
        toml_fold(None, ls) == None::<TomlStV>,
    decreases ls.len(),
{
    if ls.len() > 0 {
        lemma_toml_fold_none(ls.drop_first());
    }
}

/// Folding distributes over concatenation of line sequences.
pub proof fn lemma_toml_fold_append(st: Option<TomlStV>, a: Seq<Seq<u8>>, b: Seq<Seq<u8>>)
    ensures
        toml_fold(st, a + b) == toml_fold(toml_fold(st, a), b),
    decreases a.len(),
{
    if a.len() == 0 {
        assert(a + b =~= b);
    } else {
        match st {
            None => {
                lemma_toml_fold_none(a + b);
                lemma_toml_fold_none(b);
            },
            Some(s) => {
                assert((a + b)[0] == a[0]);
                assert((a + b).drop_first() =~= a.drop_first() + b);
                lemma_toml_fold_append(toml_step(s, a[0]), a.drop_first(), b);
            },
        }
    }
}

/// One more line folds as one more step.
pub proof fn lemma_toml_fold_push(st: Option<TomlStV>, ls: Seq<Seq<u8>>, i: int)
    requires
        0 <= i < ls.len(),
    ensures
        toml_fold(st, ls.take(i + 1)) == (match toml_fold(st, ls.take(i)) {
            None => None,
            Some(s) => toml_step(s, ls[i]),
        }),
{
    assert(ls.take(i + 1) =~= ls.take(i) + seq![ls[i]]);
    lemma_toml_fold_append(st, ls.take(i), seq![ls[i]]);
    let mid = toml_fold(st, ls.take(i));
    assert(toml_fold(st, ls.take(i + 1)) == toml_fold(mid, seq![ls[i]]));
    match mid {
        None => {
            lemma_toml_fold_none(seq![ls[i]]);
        },
        Some(s) => {
            assert(seq![ls[i]][0] == ls[i]);
            assert(seq![ls[i]].drop_first() =~= Seq::<Seq<u8>>::empty());
            assert(toml_fold(toml_step(s, ls[i]), Seq::<Seq<u8>>::empty()) == toml_step(
                s,
                ls[i],
            ));
        },
    }
}

/// Once a prefix of the lines fails to parse, the whole text fails.
proof fn lemma_toml_failed_tail(ls: Seq<Seq<u8>>, i: int)
    requires
        0 <= i < ls.len(),
        toml_fold(Some(toml_init()), ls.take(i + 1)) == None::<TomlStV>,
    ensures
        toml_fold(Some(toml_init()), ls) == None::<TomlStV>,
{
    lemma_toml_fold_append(Some(toml_init()), ls.take(i + 1), ls.skip(i + 1));
    assert(ls.take(i + 1) + ls.skip(i + 1) =~= ls);
    lemma_toml_fold_none(ls.skip(i + 1));
}

/// Executable parser state.
pub struct TomlAcc {
    pub sect: u8,
    pub rmbu: Option<Vec<u8>>,
    pub rcu: Option<Vec<u8>>,
    pub mbp: Option<Vec<u8>>,
    pub mcr: Option<Vec<u8>>,
    pub usr: Option<Vec<u8>>,
    pub port: Option<u16>,
    pub socks: Option<u16>,
    pub allow: Option<bool>,
    pub bind: Option<Vec<u8>>,
    pub mode: Option<MihomoMode>,
    pub level: Option<MihomoLogLevel>,
    pub ipv6: Option<bool>,
    pub ec: Option<Vec<u8>>,
    pub eui: Option<Vec<u8>>,
    pub secret: Option<Vec<u8>>,
}

impl View for TomlAcc {
    type V = TomlStV;

    open spec fn view(&self) -> TomlStV {
        TomlStV {
            sect: self.sect as int,
            rmbu: opt_bytes(self.rmbu),
            rcu: opt_bytes(self.rcu),
            mbp: opt_bytes(self.mbp),
            mcr: opt_bytes(self.mcr),
            usr: opt_bytes(self.usr),
            port: self.port,
            socks: self.socks,
            allow: self.allow,
            bind: opt_bytes(self.bind),
            mode: self.mode,
            level: self.level,
            ipv6: self.ipv6,
            ec: opt_bytes(self.ec),
            eui: opt_bytes(self.eui),
            secret: opt_bytes(self.secret),
        }
    }
}

impl Config {
    /// Parse the settings text; `Err(Parse)` exactly where the grammar or a
    /// recognized field's type is violated, or a required field is missing.
    pub fn setup_from(raw: &Vec<u8>) -> (r: Result<Config, MihoroError>)
        ensures
            match r {
                Ok(c) => spec_setup_from(raw@) == Some(c@),
                Err(e) => spec_setup_from(raw@) == None::<ConfigV> && e == MihoroError::Parse,
            },
    {
        let lines = split_lines(raw);
        let ghost ls = views(lines@);
        let mut acc = TomlAcc {
            sect: 0,
            rmbu: None,
            rcu: None,
            mbp: None,
            mcr: None,
            usr: None,
            port: None,
            socks: None,
            allow: None,
            bind: None,
            mode: None,
            level: None,
            ipv6: None,
            ec: None,
            eui: None,
            secret: None,
        };
        proof {
            assert(acc@ =~= toml_init());
            assert(ls.take(0) =~= Seq::<Seq<u8>>::empty());
        }
        let mut i: usize = 0;
        while i < lines.len()
            invariant
                i <= lines@.len(),
                ls == views(lines@),
                ls == lines_of(raw@),
                acc.sect <= 2,
                toml_fold(Some(toml_init()), ls.take(i as int)) == Some(acc@),
            decreases lines@.len() - i,
        {
            let ghost pre = acc@;
            let l = &lines[i];
            proof {
                assert(l@ == ls[i as int]);
                lemma_toml_fold_push(Some(toml_init()), ls, i as int);
            }
            if l.len() == 0 || l[0] == 35 {
                // blank or comment: skipped
            } else if l[0] == 91 {
                if vec_range_eq(l, 0, l.len(), &tk_header_mihomo_config_v()) {
                    acc.sect = 1;
                } else {
                    acc.sect = 2;
                }
                proof {
                    assert(l@.subrange(0, l@.len() as int) =~= l@);
                }
            } else {
                let p = match scan_byte(l, 61) {
                    None => {
                        proof {
                            lemma_toml_failed_tail(ls, i as int);
                        }
                        return Err(MihoroError::Parse);
                    },
                    Some(p) => p,
                };
                proof {
                    lemma_find_byte(l@, 61);
                }
                if !(p >= 2 && p < l.len() - 1 && l[p - 1] == 32 && l[p + 1] == 32) {
                    proof {
                        lemma_toml_failed_tail(ls, i as int);
                    }
                    return Err(MihoroError::Parse);
                }
                let ghost k = l@.subrange(0, p - 1);
                let ghost v = l@.subrange(p + 2, l@.len() as int);
                let val = subvec(l, p + 2, l.len());
                let mut failed = false;
                if acc.sect == 0 {
                    if vec_range_eq(l, 0, p - 1, &tk_remote_mihomo_binary_url_v()) {
                        match unquote_v(&val) {
                            Some(sv) => {
                                acc.rmbu = Some(sv);
                            },
                            None => {
                                failed = true;
                            },
                        }
                    } else if vec_range_eq(l, 0, p - 1, &tk_remote_config_url_v()) {
                        match unquote_v(&val) {
                            Some(sv) => {
                                acc.rcu = Some(sv);
                            },
                            None => {
                                failed = true;
                            },
                        }
                    } else if vec_range_eq(l, 0, p - 1, &tk_mihomo_binary_path_v()) {
                        match unquote_v(&val) {
                            Some(sv) => {
                                acc.mbp = Some(sv);
                            },
                            None => {
                                failed = true;
                            },
                        }
                    } else if vec_range_eq(l, 0, p - 1, &tk_mihomo_config_root_v()) {
                        match unquote_v(&val) {
                            Some(sv) => {
                                acc.mcr = Some(sv);
                            },
                            None => {
                                failed = true;
                            },
                        }
                    } else if vec_range_eq(l, 0, p - 1, &tk_user_systemd_root_v()) {
                        match unquote_v(&val) {
                            Some(sv) => {
                                acc.usr = Some(sv);
                            },
                            None => {
                                failed = true;
                            },
                        }
                    }
                } else if acc.sect == 1 {
                    if vec_range_eq(l, 0, p - 1, &tk_port_v()) {
                        match parse_u16(&val) {
                            Some(n) => {
                                acc.port = Some(n);
                            },
                            None => {
                                failed = true;
                            },
                        }
                    } else if vec_range_eq(l, 0, p - 1, &tk_socks_port_v()) {
                        match parse_u16(&val) {
                            Some(n) => {
                                acc.socks = Some(n);
                            },
                            None => {
                                failed = true;
                            },
                        }
                    } else if vec_range_eq(l, 0, p - 1, &tk_allow_lan_v()) {
                        match parse_bool_v(&val) {
                            Some(b) => {
                                acc.allow = Some(b);
                            },
                            None => {
                                failed = true;
                            },
                        }
                    } else if vec_range_eq(l, 0, p - 1, &tk_bind_address_v()) {
                        match unquote_v(&val) {
                            Some(sv) => {
                                acc.bind = Some(sv);
                            },
                            None => {
                                failed = true;
                            },
                        }
                    } else if vec_range_eq(l, 0, p - 1, &tk_mode_v()) {
                        match unquote_v(&val) {
                            Some(w) => match parse_mode_v(&w) {
                                Some(m) => {
                                    acc.mode = Some(m);
                                },
                                None => {
                                    failed = true;
                                },
                            },
                            None => {
                                failed = true;
                            },
                        }
                    } else if vec_range_eq(l, 0, p - 1, &tk_log_level_v()) {
                        match unquote_v(&val) {
                            Some(w) => match parse_level_v(&w) {
                                Some(x) => {
                                    acc.level = Some(x);
                                },
                                None => {
                                    failed = true;
                                },
                            },
                            None => {
                                failed = true;
                            },
                        }
                    } else if vec_range_eq(l, 0, p - 1, &tk_ipv6_v()) {
                        match parse_bool_v(&val) {
                            Some(b) => {
                                acc.ipv6 = Some(b);
                            },
                            None => {
                                failed = true;
                            },
                        }
                    } else if vec_range_eq(l, 0, p - 1, &tk_external_controller_v()) {
                        match unquote_v(&val) {
                            Some(sv) => {
                                acc.ec = Some(sv);
                            },
                            None => {
                                failed = true;
                            },
                        }
                    } else if vec_range_eq(l, 0, p - 1, &tk_external_ui_v()) {
                        match unquote_v(&val) {
                            Some(sv) => {
                                acc.eui = Some(sv);
                            },
                            None => {
                                failed = true;
                            },
                        }
                    } else if vec_range_eq(l, 0, p - 1, &tk_secret_v()) {
                        match unquote_v(&val) {
                            Some(sv) => {
                                acc.secret = Some(sv);
                            },
                            None => {
                                failed = true;
                            },
                        }
                    }
                }
                if failed {
                    proof {
                        assert(toml_step(pre, l@) is None);
                        lemma_toml_failed_tail(ls, i as int);
                    }
                    return Err(MihoroError::Parse);
                }
                proof {
                    assert(toml_step(pre, ls[i as int]) == Some(acc@));
                }
            }
            proof {
                assert(toml_step(pre, ls[i as int]) == Some(acc@));
            }
            i += 1;
        }
        proof {
            assert(ls.take(ls.len() as int) =~= ls);
        }
        let port = match acc.port {
            Some(n) => n,
            None => {
                return Err(MihoroError::Parse);
            },
        };
        let socks = match acc.socks {
            Some(n) => n,
            None => {
                return Err(MihoroError::Parse);
            },
        };
        let mode = match acc.mode {
            Some(m) => m,
            None => {
                return Err(MihoroError::Parse);
            },
        };
        let level = match acc.level {
            Some(x) => x,
            None => {
                return Err(MihoroError::Parse);
            },
        };
        let rmbu = match acc.rmbu {
            Some(s) => s,
            None => {
                return Err(MihoroError::Parse);
            },
        };
        let rcu = match acc.rcu {
            Some(s) => s,
            None => {
                return Err(MihoroError::Parse);
            },
        };
        let mbp = match acc.mbp {
            Some(s) => s,
            None => {
                return Err(MihoroError::Parse);
            },
        };
        let mcr = match acc.mcr {
            Some(s) => s,
            None => {
                return Err(MihoroError::Parse);
            },
        };
        let usr = match acc.usr {
            Some(s) => s,
            None => {
                return Err(MihoroError::Parse);
            },
        };
        let c = Config {
            remote_mihomo_binary_url: rmbu,
            remote_config_url: rcu,
            mihomo_binary_path: mbp,
            mihomo_config_root: mcr,
            user_systemd_root: usr,
            mihomo_config: MihomoConfig {
                port,
                socks_port: socks,
                allow_lan: acc.allow,
                bind_address: acc.bind,
                mode,
                log_level: level,
                ipv6: acc.ipv6,
                external_controller: acc.ec,
                external_ui: acc.eui,
                secret: acc.secret,
            },
        };
        proof {
            assert(toml_finish(toml_fold(Some(toml_init()), ls)->Some_0) == Some(c@));
        }
        Ok(c)
    }
}

/// Load the settings from the file's text, or signal first-run bootstrap.
///
/// `raw` is `None` when no settings file existed: the caller gets
/// `Err(Bootstrap)` and is owed a scaffold written from `Config::new`.
/// Otherwise the text is parsed, and the required fields are checked for
/// emptiness in the fixed order `remote_config_url, mihomo_binary_path,
/// mihomo_config_root, user_systemd_root`; the first empty one is named in
/// `Err(Validation(..))`.
pub fn parse_config(raw: Option<&Vec<u8>>) -> (r: Result<Config, MihoroError>)
    ensures
        match raw {
            None => r == Err::<Config, MihoroError>(MihoroError::Bootstrap),
            Some(t) => match spec_setup_from(t@) {
                None => r == Err::<Config, MihoroError>(MihoroError::Parse),
                Some(c) => match first_empty_field(c) {
                    Some(f) => r == Err::<Config, MihoroError>(MihoroError::Validation(f)),
                    None => r is Ok && r->Ok_0@ == c,
                },
            },
        },
{
    let t = match raw {
        None => {
            return Err(MihoroError::Bootstrap);
        },
        Some(t) => t,
    };
    let c = match Config::setup_from(t) {
        Ok(c) => c,
        Err(e) => {
            return Err(e);
        },
    };
    if c.remote_config_url.len() == 0 {
        return Err(MihoroError::Validation(RequiredField::RemoteConfigUrl));
    }
    if c.mihomo_binary_path.len() == 0 {
        return Err(MihoroError::Validation(RequiredField::MihomoBinaryPath));
    }
    if c.mihomo_config_root.len() == 0 {
        return Err(MihoroError::Validation(RequiredField::MihomoConfigRoot));
    }
    if c.user_systemd_root.len() == 0 {
        return Err(MihoroError::Validation(RequiredField::UserSystemdRoot));
    }
    Ok(c)
}

/// Shape of an emitted `key = value` line: its first equals sign sits right
/// after the key and one space, and key and value read back unchanged.
proof fn lemma_toml_kv_line(k: Seq<u8>, v: Seq<u8>)
    requires
        no_byte(k, 61),
        k.len() > 0,
    ensures
        parse_kv_toml(toml_line(k, v)) == Some((k, v)),
{
    let l = toml_line(k, v);
    lemma_no_byte_append(k, seq![32u8], 61);
    assert(l =~= (k + seq![32u8]) + (seq![61u8, 32u8] + v));
    assert((seq![61u8, 32u8] + v)[0] == 61);
    lemma_find_byte_append(k + seq![32u8], seq![61u8, 32u8] + v, 61);
    let p: int = k.len() as int + 1;
    assert(find_byte(l, 61) == Some(p));
    assert(l[p - 1] == 32);
    assert(l[p + 1] == 32);
    assert(l.subrange(0, p - 1) =~= k);
    assert(l.subrange(p + 2, l.len() as int) =~= v);
}

/// Unquoting a quoted clean string gives the string back.
proof fn lemma_unquote_q(s: Seq<u8>)
    requires
        no_byte(s, 34),
    ensures
        unquote(q(s)) == Some(s),
{
    let v = q(s);
    assert(v[0] == 34);
    assert(v[v.len() - 1] == 34);
    assert(v.subrange(1, v.len() - 1) =~= s);
}

/// Folding a single line is a single step.
proof fn lemma_toml_fold_one(s: TomlStV, l: Seq<u8>)
    ensures
        toml_fold(Some(s), seq![l]) == toml_step(s, l),
{
    assert(seq![l][0] == l);
    assert(seq![l].drop_first() =~= Seq::<Seq<u8>>::empty());
    assert(toml_fold(toml_step(s, l), Seq::<Seq<u8>>::empty()) == toml_step(s, l));
}

/// An emitted settings line is newline-free when key and value are.
proof fn lemma_toml_line_nl(k: Seq<u8>, v: Seq<u8>)
    requires
        no_byte(k, nl()),
        no_byte(v, nl()),
    ensures
        no_byte(toml_line(k, v), nl()),
{
    assert(no_byte(seq![32u8, 61u8, 32u8], nl()));
    lemma_no_byte_append(k, seq![32u8, 61u8, 32u8], nl());
    lemma_no_byte_append(k + seq![32u8, 61u8, 32u8], v, nl());
}

/// A quoted clean string is newline-free.
proof fn lemma_q_nl(s: Seq<u8>)
    requires
        no_byte(s, nl()),
    ensures
        no_byte(q(s), nl()),
{
    assert(no_byte(seq![34u8], nl()));
    lemma_no_byte_append(seq![34u8], s, nl());
    lemma_no_byte_append(seq![34u8] + s, seq![34u8], nl());
}

/// Decimal digits hold no newline.
proof fn lemma_digits_nl_t(n: u16)
    ensures
        no_byte(u16_digits(n), nl()),
{
    lemma_u16_digits(n);
    assert(forall|j: int| 0 <= j < u16_digits(n).len() ==> is_digit(#[trigger] u16_digits(n)[j]));
}

/// Every emitted settings line is newline-free.
proof fn lemma_config_lines_nl(c: ConfigV)
    requires
        config_wf(c),
    ensures
        all_newline_free(config_lines(c)),
{
    lemma_keys_newline_free();
    lemma_word_shapes();
    let m = c.mihomo_config;
    assert forall|i: int| 0 <= i < config_lines(c).len() implies no_byte(
        #[trigger] config_lines(c)[i],
        nl(),
    ) by {
        lemma_q_nl(c.remote_mihomo_binary_url);
        lemma_toml_line_nl(tk_remote_mihomo_binary_url(), q(c.remote_mihomo_binary_url));
        lemma_q_nl(c.remote_config_url);
        lemma_toml_line_nl(tk_remote_config_url(), q(c.remote_config_url));
        lemma_q_nl(c.mihomo_binary_path);
        lemma_toml_line_nl(tk_mihomo_binary_path(), q(c.mihomo_binary_path));
        lemma_q_nl(c.mihomo_config_root);
        lemma_toml_line_nl(tk_mihomo_config_root(), q(c.mihomo_config_root));
        lemma_q_nl(c.user_systemd_root);
        lemma_toml_line_nl(tk_user_systemd_root(), q(c.user_systemd_root));
        lemma_digits_nl_t(m.port);
        lemma_toml_line_nl(tk_port(), u16_digits(m.port));
        lemma_digits_nl_t(m.socks_port);
        lemma_toml_line_nl(tk_socks_port(), u16_digits(m.socks_port));
        match m.allow_lan {
            Some(b) => {
                lemma_toml_line_nl(tk_allow_lan(), bool_text(b));
            },
            None => {},
        }
        match m.bind_address {
            Some(s) => {
                lemma_q_nl(s);
                lemma_toml_line_nl(tk_bind_address(), q(s));
            },
            None => {},
        }
        lemma_q_nl(mode_text(m.mode));
        lemma_toml_line_nl(tk_mode(), q(mode_text(m.mode)));
        lemma_q_nl(level_text(m.log_level));
        lemma_toml_line_nl(tk_log_level(), q(level_text(m.log_level)));
        match m.ipv6 {
            Some(b) => {
                lemma_toml_line_nl(tk_ipv6(), bool_text(b));
            },
            None => {},
        }
        match m.external_controller {
            Some(s) => {
                lemma_q_nl(s);
                lemma_toml_line_nl(tk_external_controller(), q(s));
            },
            None => {},
        }
        match m.external_ui {
            Some(s) => {
                lemma_q_nl(s);
                lemma_toml_line_nl(tk_external_ui(), q(s));
            },
            None => {},
        }
        match m.secret {
            Some(s) => {
                lemma_q_nl(s);
                lemma_toml_line_nl(tk_secret(), q(s));
            },
            None => {},
        }
    }
}

/// Saving then loading reproduces the settings value, field for field:
/// parsing the serialized text of any well-formed settings value gives that
/// value back.
#[verifier::rlimit(100)]
#[verifier::spinoff_prover]
pub proof fn lemma_save_load_round_trip(c: ConfigV)
    requires
        config_wf(c),
    ensures
        spec_setup_from(config_toml(c)) == Some(c),
{
    lemma_toml_key_shapes();
    lemma_toml_top_keys_distinct();
    lemma_toml_table_keys_distinct();
    let m = c.mihomo_config;
    lemma_config_lines_nl(c);
    lemma_split_join(config_lines(c));
    let p1 = seq![toml_line(tk_remote_mihomo_binary_url(), q(c.remote_mihomo_binary_url))];
    let p2 = seq![toml_line(tk_remote_config_url(), q(c.remote_config_url))];
    let p3 = seq![toml_line(tk_mihomo_binary_path(), q(c.mihomo_binary_path))];
    let p4 = seq![toml_line(tk_mihomo_config_root(), q(c.mihomo_config_root))];
    let p5 = seq![toml_line(tk_user_systemd_root(), q(c.user_systemd_root))];
    let p6 = seq![Seq::<u8>::empty()];
    let p7 = seq![tk_header_mihomo_config()];
    let p8 = seq![toml_line(tk_port(), u16_digits(m.port))];
    let p9 = seq![toml_line(tk_socks_port(), u16_digits(m.socks_port))];
    let p10 = opt_bool_tlines(tk_allow_lan(), m.allow_lan);
    let p11 = opt_qstr_tlines(tk_bind_address(), m.bind_address);
    let p12 = seq![toml_line(tk_mode(), q(mode_text(m.mode)))];
    let p13 = seq![toml_line(tk_log_level(), q(level_text(m.log_level)))];
    let p14 = opt_bool_tlines(tk_ipv6(), m.ipv6);
    let p15 = opt_qstr_tlines(tk_external_controller(), m.external_controller);
    let p16 = opt_qstr_tlines(tk_external_ui(), m.external_ui);
    let p17 = opt_qstr_tlines(tk_secret(), m.secret);
    let s0 = toml_init();
    let s1 = TomlStV { rmbu: Some(c.remote_mihomo_binary_url), ..s0 };
    let s2 = TomlStV { rcu: Some(c.remote_config_url), ..s1 };
    let s3 = TomlStV { mbp: Some(c.mihomo_binary_path), ..s2 };
    let s4 = TomlStV { mcr: Some(c.mihomo_config_root), ..s3 };
    let s5 = TomlStV { usr: Some(c.user_systemd_root), ..s4 };
    let s6 = s5;
    let s7 = TomlStV { sect: 1, ..s5 };
    let s8 = TomlStV { port: Some(m.port), ..s7 };
    let s9 = TomlStV { socks: Some(m.socks_port), ..s8 };
    let s10 = TomlStV { allow: m.allow_lan, ..s9 };
    let s11 = TomlStV { bind: m.bind_address, ..s10 };
    let s12 = TomlStV { mode: Some(m.mode), ..s11 };
    let s13 = TomlStV { level: Some(m.log_level), ..s12 };
    let s14 = TomlStV { ipv6: m.ipv6, ..s13 };
    let s15 = TomlStV { ec: m.external_controller, ..s14 };
    let s16 = TomlStV { eui: m.external_ui, ..s15 };
    let s17 = TomlStV { secret: m.secret, ..s16 };
    assert(toml_fold(Some(s0), p1) == Some(s1)) by {
        lemma_toml_kv_line(tk_remote_mihomo_binary_url(), q(c.remote_mihomo_binary_url));
        lemma_unquote_q(c.remote_mihomo_binary_url);
        lemma_toml_fold_one(s0, p1[0]);
        assert(p1[0][0] == tk_remote_mihomo_binary_url()[0]);
    }
    assert(toml_fold(Some(s1), p2) == Some(s2)) by {
        lemma_toml_kv_line(tk_remote_config_url(), q(c.remote_config_url));
        lemma_unquote_q(c.remote_config_url);
        lemma_toml_fold_one(s1, p2[0]);
        assert(p2[0][0] == tk_remote_config_url()[0]);
    }
    assert(toml_fold(Some(s2), p3) == Some(s3)) by {
        lemma_toml_kv_line(tk_mihomo_binary_path(), q(c.mihomo_binary_path));
        lemma_unquote_q(c.mihomo_binary_path);
        lemma_toml_fold_one(s2, p3[0]);
        assert(p3[0][0] == tk_mihomo_binary_path()[0]);
    }
    assert(toml_fold(Some(s3), p4) == Some(s4)) by {
        lemma_toml_kv_line(tk_mihomo_config_root(), q(c.mihomo_config_root));
        lemma_unquote_q(c.mihomo_config_root);
        lemma_toml_fold_one(s3, p4[0]);
        assert(p4[0][0] == tk_mihomo_config_root()[0]);
    }
    assert(toml_fold(Some(s4), p5) == Some(s5)) by {
        lemma_toml_kv_line(tk_user_systemd_root(), q(c.user_systemd_root));
        lemma_unquote_q(c.user_systemd_root);
        lemma_toml_fold_one(s4, p5[0]);
        assert(p5[0][0] == tk_user_systemd_root()[0]);
    }
    assert(toml_fold(Some(s5), p6) == Some(s6)) by {
        lemma_toml_fold_one(s5, p6[0]);
        assert(p6[0].len() == 0);
    }
    assert(toml_fold(Some(s6), p7) == Some(s7)) by {
        lemma_toml_fold_one(s6, p7[0]);
        assert(p7[0][0] == 91);
    }
    assert(toml_fold(Some(s7), p8) == Some(s8)) by {
        lemma_toml_kv_line(tk_port(), u16_digits(m.port));
        lemma_u16_digits(m.port);
        lemma_toml_fold_one(s7, p8[0]);
        assert(p8[0][0] == tk_port()[0]);
        assert(p8[0][0] != 91 && p8[0][0] != 35);
    }
    assert(toml_fold(Some(s8), p9) == Some(s9)) by {
        lemma_toml_kv_line(tk_socks_port(), u16_digits(m.socks_port));
        lemma_u16_digits(m.socks_port);
        lemma_toml_fold_one(s8, p9[0]);
        assert(p9[0][0] == tk_socks_port()[0]);
    }
    assert(toml_fold(Some(s9), p10) == Some(s10)) by {
        match m.allow_lan {
            None => {},
            Some(b) => {
                lemma_toml_kv_line(tk_allow_lan(), bool_text(b));
                lemma_word_round_trips(MihomoMode::Rule, MihomoLogLevel::Info, b);
                lemma_toml_fold_one(s9, p10[0]);
                assert(p10[0][0] == tk_allow_lan()[0]);
            },
        }
    }
    assert(toml_fold(Some(s10), p11) == Some(s11)) by {
        match m.bind_address {
            None => {},
            Some(sv) => {
                lemma_toml_kv_line(tk_bind_address(), q(sv));
                lemma_unquote_q(sv);
                lemma_toml_fold_one(s10, p11[0]);
                assert(p11[0][0] == tk_bind_address()[0]);
            },
        }
    }
    assert(toml_fold(Some(s11), p12) == Some(s12)) by {
        lemma_toml_kv_line(tk_mode(), q(mode_text(m.mode)));
        lemma_word_shapes();
        lemma_unquote_q(mode_text(m.mode));
        lemma_word_round_trips(m.mode, MihomoLogLevel::Info, true);
        lemma_toml_fold_one(s11, p12[0]);
        assert(p12[0][0] == tk_mode()[0]);
    }
    assert(toml_fold(Some(s12), p13) == Some(s13)) by {
        lemma_toml_kv_line(tk_log_level(), q(level_text(m.log_level)));
        lemma_word_shapes();
        lemma_unquote_q(level_text(m.log_level));
        lemma_word_round_trips(MihomoMode::Rule, m.log_level, true);
        lemma_toml_fold_one(s12, p13[0]);
        assert(p13[0][0] == tk_log_level()[0]);
    }
    assert(toml_fold(Some(s13), p14) == Some(s14)) by {
        match m.ipv6 {
            None => {},
            Some(b) => {
                lemma_toml_kv_line(tk_ipv6(), bool_text(b));
                lemma_word_round_trips(MihomoMode::Rule, MihomoLogLevel::Info, b);
                lemma_toml_fold_one(s13, p14[0]);
                assert(p14[0][0] == tk_ipv6()[0]);
            },
        }
    }
    assert(toml_fold(Some(s14), p15) == Some(s15)) by {
        match m.external_controller {
            None => {},
            Some(sv) => {
                lemma_toml_kv_line(tk_external_controller(), q(sv));
                lemma_unquote_q(sv);
                lemma_toml_fold_one(s14, p15[0]);
                assert(p15[0][0] == tk_external_controller()[0]);
            },
        }
    }
    assert(toml_fold(Some(s15), p16) == Some(s16)) by {
        match m.external_ui {
            None => {},
            Some(sv) => {
                lemma_toml_kv_line(tk_external_ui(), q(sv));
                lemma_unquote_q(sv);
                lemma_toml_fold_one(s15, p16[0]);
                assert(p16[0][0] == tk_external_ui()[0]);
            },
        }
    }
    assert(toml_fold(Some(s16), p17) == Some(s17)) by {
        match m.secret {
            None => {},
            Some(sv) => {
                lemma_toml_kv_line(tk_secret(), q(sv));
                lemma_unquote_q(sv);
                lemma_toml_fold_one(s16, p17[0]);
                assert(p17[0][0] == tk_secret()[0]);
            },
        }
    }
    lemma_toml_fold_append(Some(s0), p1, p2);
    lemma_toml_fold_append(Some(s0), p1 + p2, p3);
    lemma_toml_fold_append(Some(s0), p1 + p2 + p3, p4);
    lemma_toml_fold_append(Some(s0), p1 + p2 + p3 + p4, p5);
    lemma_toml_fold_append(Some(s0), p1 + p2 + p3 + p4 + p5, p6);
    lemma_toml_fold_append(Some(s0), p1 + p2 + p3 + p4 + p5 + p6, p7);
    lemma_toml_fold_append(Some(s0), p1 + p2 + p3 + p4 + p5 + p6 + p7, p8);
    lemma_toml_fold_append(Some(s0), p1 + p2 + p3 + p4 + p5 + p6 + p7 + p8, p9);
    lemma_toml_fold_append(Some(s0), p1 + p2 + p3 + p4 + p5 + p6 + p7 + p8 + p9, p10);
    lemma_toml_fold_append(Some(s0), p1 + p2 + p3 + p4 + p5 + p6 + p7 + p8 + p9 + p10, p11);
    lemma_toml_fold_append(Some(s0), p1 + p2 + p3 + p4 + p5 + p6 + p7 + p8 + p9 + p10 + p11, p12);
    lemma_toml_fold_append(
        Some(s0),
        p1 + p2 + p3 + p4 + p5 + p6 + p7 + p8 + p9 + p10 + p11 + p12,
        p13,
    );
    lemma_toml_fold_append(
        Some(s0),
        p1 + p2 + p3 + p4 + p5 + p6 + p7 + p8 + p9 + p10 + p11 + p12 + p13,
        p14,
    );
    lemma_toml_fold_append(
        Some(s0),
        p1 + p2 + p3 + p4 + p5 + p6 + p7 + p8 + p9 + p10 + p11 + p12 + p13 + p14,
        p15,
    );
    lemma_toml_fold_append(
        Some(s0),
        p1 + p2 + p3 + p4 + p5 + p6 + p7 + p8 + p9 + p10 + p11 + p12 + p13 + p14 + p15,
        p16,
    );
    lemma_toml_fold_append(
        Some(s0),
        p1 + p2 + p3 + p4 + p5 + p6 + p7 + p8 + p9 + p10 + p11 + p12 + p13 + p14 + p15 + p16,
        p17,
    );
    assert(toml_fold(Some(s0), config_lines(c)) == Some(s17));
    assert(toml_finish(s17) == Some(c)) by {
        assert(toml_finish(s17)->Some_0 =~= c);
    }
}

} // verus!
