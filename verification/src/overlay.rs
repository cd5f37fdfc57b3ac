use vstd::prelude::*;
use crate::bytes::{find_byte, subvec, vec_range_eq, scan_byte, lemma_find_byte};
use crate::lines::{join_lines, lines_of, views, split_lines, push_line, nl, lemma_join_push};
use crate::num::{spec_parse_u16, u16_digits, parse_u16, fmt_u16};
use crate::lit::{yk_port, yk_socks_port, yk_allow_lan, yk_bind_address, yk_mode, yk_log_level, yk_ipv6, yk_external_controller, yk_external_ui, yk_secret, yk_port_v, yk_socks_port_v, yk_allow_lan_v, yk_bind_address_v, yk_mode_v, yk_log_level_v, yk_ipv6_v, yk_external_controller_v, yk_external_ui_v, yk_secret_v};
use crate::config::{MihomoMode, MihomoLogLevel, MihomoConfig, MihomoConfigV, MihoroError, opt_bytes, mode_text, level_text, bool_text, spec_parse_mode, spec_parse_level, spec_parse_bool, parse_mode_v, parse_level_v, parse_bool_v, mode_text_v, level_text_v, bool_text_v, copy_opt_bytes};

verus! {

/// The remote daemon document: typed slots for the recognized keys, plus
/// every other top-level line kept verbatim, in order.
pub struct MihomoYamlConfig {
    pub port: Option<u16>,
    pub socks_port: Option<u16>,
    pub allow_lan: Option<bool>,
    pub bind_address: Option<Vec<u8>>,
    pub mode: Option<MihomoMode>,
    pub log_level: Option<MihomoLogLevel>,
    pub ipv6: Option<bool>,
    pub external_controller: Option<Vec<u8>>,
    pub external_ui: Option<Vec<u8>>,
    pub secret: Option<Vec<u8>>,
    pub extra: Vec<Vec<u8>>,
}

/// Mathematical model of `MihomoYamlConfig`.
#[verifier::ext_equal]
pub ghost struct MihomoYamlV {
    pub port: Option<u16>,
    pub socks_port: Option<u16>,
    pub allow_lan: Option<bool>,
    pub bind_address: Option<Seq<u8>>,
    pub mode: Option<MihomoMode>,
    pub log_level: Option<MihomoLogLevel>,
    pub ipv6: Option<bool>,
    pub external_controller: Option<Seq<u8>>,
    pub external_ui: Option<Seq<u8>>,
    pub secret: Option<Seq<u8>>,
    pub extra: Seq<Seq<u8>>,
}

impl View for MihomoYamlConfig {
    type V = MihomoYamlV;

    open spec fn view(&self) -> MihomoYamlV {
        MihomoYamlV {
            port: self.port,
            socks_port: self.socks_port,
            allow_lan: self.allow_lan,
            bind_address: opt_bytes(self.bind_address),
            mode: self.mode,
            log_level: self.log_level,
            ipv6: self.ipv6,
            external_controller: opt_bytes(self.external_controller),
            external_ui: opt_bytes(self.external_ui),
            secret: opt_bytes(self.secret),
            extra: views(self.extra@),
        }
    }
}

/// The empty document: nothing recognized, nothing extra.
pub open spec fn yaml_init() -> MihomoYamlV {
    MihomoYamlV {
        port: None,
        socks_port: None,
        allow_lan: None,
        bind_address: None,
        mode: None,
        log_level: None,
        ipv6: None,
        external_controller: None,
        external_ui: None,
        secret: None,
        extra: Seq::empty(),
    }
}

/// A line that can open a top-level mapping entry: not blank and not a
/// continuation (indent, list dash, comment).
pub open spec fn starts_entry(l: Seq<u8>) -> bool {
    l.len() > 0 && l[0] != 32 && l[0] != 9 && l[0] != 45 && l[0] != 35
}

/// The scalar text after the colon at `ci`; one space after the colon is
/// part of the separator, not of the value.
pub open spec fn yaml_val(l: Seq<u8>, ci: int) -> Seq<u8> {
    if ci + 1 < l.len() && l[ci + 1] == 32 {
        l.subrange(ci + 2, l.len() as int)
    } else {
        l.subrange(ci + 1, l.len() as int)
    }
}

pub open spec fn with_extra(st: MihomoYamlV, l: Seq<u8>) -> MihomoYamlV {
    MihomoYamlV { extra: st.extra.push(l), ..st }
}

/// One parsing step: fold a single line into the document. `None` is a
/// parse error: a top-level entry with no colon, or a recognized key whose
/// value has the wrong type.
pub open spec fn yaml_step(st: MihomoYamlV, l: Seq<u8>) -> Option<MihomoYamlV> {
    if !starts_entry(l) {
        Some(with_extra(st, l))
    } else {
        match find_byte(l, 58) {
            None => None,
            Some(ci) => {
                let k = l.subrange(0, ci);
                let v = yaml_val(l, ci);
                if k == yk_port() {
                    match spec_parse_u16(v) {
                        Some(n) => Some(MihomoYamlV { port: Some(n), ..st }),
                        None => None,
                    }
                } else if k == yk_socks_port() {
                    match spec_parse_u16(v) {
                        Some(n) => Some(MihomoYamlV { socks_port: Some(n), ..st }),
                        None => None,
                    }
                } else if k == yk_allow_lan() {
                    match spec_parse_bool(v) {
                        Some(b) => Some(MihomoYamlV { allow_lan: Some(b), ..st }),
                        None => None,
                    }
                } else if k == yk_bind_address() {
                    Some(MihomoYamlV { bind_address: Some(v), ..st })
                } else if k == yk_mode() {
                    match spec_parse_mode(v) {
                        Some(m) => Some(MihomoYamlV { mode: Some(m), ..st }),
                        None => None,
                    }
                } else if k == yk_log_level() {
                    match spec_parse_level(v) {
                        Some(x) => Some(MihomoYamlV { log_level: Some(x), ..st }),
                        None => None,
                    }
                } else if k == yk_ipv6() {
                    match spec_parse_bool(v) {
                        Some(b) => Some(MihomoYamlV { ipv6: Some(b), ..st }),
                        None => None,
                    }
                } else if k == yk_external_controller() {
                    Some(MihomoYamlV { external_controller: Some(v), ..st })
                } else if k == yk_external_ui() {
                    Some(MihomoYamlV { external_ui: Some(v), ..st })
                } else if k == yk_secret() {
                    Some(MihomoYamlV { secret: Some(v), ..st })
                } else {
                    Some(with_extra(st, l))
                }
            },
        }
    }
}

/// Fold `yaml_step` over a sequence of lines.
pub open spec fn yaml_fold(st: Option<MihomoYamlV>, ls: Seq<Seq<u8>>) -> Option<MihomoYamlV>
    decreases ls.len(),
{
    if ls.len() == 0 {
        st
    } else {
        match st {
            None => None,
            Some(s) => yaml_fold(yaml_step(s, ls[0]), ls.drop_first()),
        }
    }
}

/// Parse a remote document text.
pub open spec fn spec_parse_yaml(t: Seq<u8>) -> Option<MihomoYamlV> {
    yaml_fold(Some(yaml_init()), lines_of(t))
}

/// A recognized scalar line: `key: value`.
pub open spec fn yaml_line(k: Seq<u8>, v: Seq<u8>) -> Seq<u8> {
    k + seq![58u8, 32u8] + v
}

pub open spec fn opt_u16_lines(k: Seq<u8>, v: Option<u16>) -> Seq<Seq<u8>> {
    match v {
        None => seq![],
        Some(n) => seq![yaml_line(k, u16_digits(n))],
    }
}

pub open spec fn opt_bool_lines(k: Seq<u8>, v: Option<bool>) -> Seq<Seq<u8>> {
    match v {
        None => seq![],
        Some(b) => seq![yaml_line(k, bool_text(b))],
    }
}

pub open spec fn opt_str_lines(k: Seq<u8>, v: Option<Seq<u8>>) -> Seq<Seq<u8>> {
    match v {
        None => seq![],
        Some(s) => seq![yaml_line(k, s)],
    }
}

pub open spec fn opt_mode_lines(v: Option<MihomoMode>) -> Seq<Seq<u8>> {
    match v {
        None => seq![],
        Some(m) => seq![yaml_line(yk_mode(), mode_text(m))],
    }
}

pub open spec fn opt_level_lines(v: Option<MihomoLogLevel>) -> Seq<Seq<u8>> {
    match v {
        None => seq![],
        Some(l) => seq![yaml_line(yk_log_level(), level_text(l))],
    }
}

/// The recognized lines of a document, in the fixed emission order.
pub open spec fn emit_known_lines(y: MihomoYamlV) -> Seq<Seq<u8>> {
    opt_u16_lines(yk_port(), y.port) + opt_u16_lines(yk_socks_port(), y.socks_port)
        + opt_bool_lines(yk_allow_lan(), y.allow_lan) + opt_str_lines(
        yk_bind_address(),
        y.bind_address,
    ) + opt_mode_lines(y.mode) + opt_level_lines(y.log_level) + opt_bool_lines(yk_ipv6(), y.ipv6)
        + opt_str_lines(yk_external_controller(), y.external_controller) + opt_str_lines(
        yk_external_ui(),
        y.external_ui,
    ) + opt_str_lines(yk_secret(), y.secret)
}

/// All lines of a serialized document: recognized first, then the extra
/// lines verbatim in their original order.
pub open spec fn emit_yaml_lines(y: MihomoYamlV) -> Seq<Seq<u8>> {
    emit_known_lines(y) + y.extra
}

pub open spec fn emit_yaml(y: MihomoYamlV) -> Seq<u8> {
    join_lines(emit_yaml_lines(y))
}

/// The overlay itself: every recognized slot is replaced by the override
/// value — present overrides are set, absent optional overrides clear the
/// slot — and the extra lines are untouched.
pub open spec fn apply_spec(y: MihomoYamlV, o: MihomoConfigV) -> MihomoYamlV {
    MihomoYamlV {
        port: Some(o.port),
        socks_port: Some(o.socks_port),
        allow_lan: o.allow_lan,
        bind_address: o.bind_address,
        mode: Some(o.mode),
        log_level: Some(o.log_level),
        ipv6: o.ipv6,
        external_controller: o.external_controller,
        external_ui: o.external_ui,
        secret: o.secret,
        extra: y.extra,
    }
}

/// Parse, overlay, re-serialize: the whole text-level operation.
pub open spec fn spec_apply_mihomo_override(t: Seq<u8>, o: MihomoConfigV) -> Option<Seq<u8>> {
    match spec_parse_yaml(t) {
        None => None,
        Some(y) => Some(emit_yaml(apply_spec(y, o))),
    }
}

/// Folding from a failed state stays failed.
pub proof fn lemma_yaml_fold_none(ls: Seq<Seq<u8>>)
    ensures
        yaml_fold(None, ls) == None::<MihomoYamlV>,
    decreases ls.len(),
{
    if ls.len() > 0 {
        lemma_yaml_fold_none(ls.drop_first());
    }
}

/// Folding distributes over concatenation of line sequences.
pub proof fn lemma_yaml_fold_append(st: Option<MihomoYamlV>, a: Seq<Seq<u8>>, b: Seq<Seq<u8>>)
    ensures
        yaml_fold(st, a + b) == yaml_fold(yaml_fold(st, a), b),
    decreases a.len(),
{
    if a.len() == 0 {
        assert(a + b =~= b);
    } else {
        match st {
            None => {
                lemma_yaml_fold_none(a + b);
                lemma_yaml_fold_none(a);
                lemma_yaml_fold_none(b);
            },
            Some(s) => {
                assert((a + b)[0] == a[0]);
                assert((a + b).drop_first() =~= a.drop_first() + b);
                lemma_yaml_fold_append(yaml_step(s, a[0]), a.drop_first(), b);
            },
        }
    }
}

/// One more line folds as one more step.
pub proof fn lemma_yaml_fold_push(st: Option<MihomoYamlV>, ls: Seq<Seq<u8>>, i: int)
    requires
        0 <= i < ls.len(),
    ensures
        yaml_fold(st, ls.take(i + 1)) == (match yaml_fold(st, ls.take(i)) {
            None => None,
            Some(s) => yaml_step(s, ls[i]),
        }),
{
    assert(ls.take(i + 1) =~= ls.take(i) + seq![ls[i]]);
    lemma_yaml_fold_append(st, ls.take(i), seq![ls[i]]);
    let mid = yaml_fold(st, ls.take(i));
    assert(yaml_fold(st, ls.take(i + 1)) == yaml_fold(mid, seq![ls[i]]));
    match mid {
        None => {
            lemma_yaml_fold_none(seq![ls[i]]);
            assert(yaml_fold(mid, seq![ls[i]]) == None::<MihomoYamlV>);
        },
        Some(s) => {
            assert(seq![ls[i]][0] == ls[i]);
            assert(seq![ls[i]].drop_first() =~= Seq::<Seq<u8>>::empty());
            assert(yaml_fold(mid, seq![ls[i]]) == yaml_fold(
                yaml_step(s, ls[i]),
                Seq::<Seq<u8>>::empty(),
            ));
            assert(yaml_fold(yaml_step(s, ls[i]), Seq::<Seq<u8>>::empty()) == yaml_step(
                s,
                ls[i],
            ));
        },
    }
}

/// Parse a remote document into its two-part form: typed recognized slots
/// and verbatim extra lines. Fails exactly where the text-level parse fails.
pub fn parse_mihomo_yaml(raw: &Vec<u8>) -> (r: Result<MihomoYamlConfig, MihoroError>)
    ensures
        match r {
            Ok(y) => spec_parse_yaml(raw@) == Some(y@),
            Err(e) => spec_parse_yaml(raw@) == None::<MihomoYamlV> && e == MihoroError::Parse,
        },
{
    let lines = split_lines(raw);
    let ghost ls = views(lines@);
    let mut acc = MihomoYamlConfig {
        port: None,
        socks_port: None,
        allow_lan: None,
        bind_address: None,
        mode: None,
        log_level: None,
        ipv6: None,
        external_controller: None,
        external_ui: None,
        secret: None,
        extra: Vec::new(),
    };
    proof {
        assert(acc@ =~= yaml_init());
        assert(ls.take(0) =~= Seq::<Seq<u8>>::empty());
    }
    let mut i: usize = 0;
    while i < lines.len()
        invariant
            i <= lines@.len(),
            ls == views(lines@),
            ls == lines_of(raw@),
            yaml_fold(Some(yaml_init()), ls.take(i as int)) == Some(acc@),
        decreases lines@.len() - i,
    {
        let ghost pre = acc@;
        let l = &lines[i];
        proof {
            assert(l@ == ls[i as int]);
            lemma_yaml_fold_push(Some(yaml_init()), ls, i as int);
        }
        let mut handled = false;
        let entry: bool = if l.len() == 0 {
            false
        } else {
            l[0] != 32 && l[0] != 9 && l[0] != 45 && l[0] != 35
        };
        if !entry {
            let line_copy = subvec(l, 0, l.len());
            proof {
                assert(line_copy@ =~= l@);
            }
            acc.extra.push(line_copy);
            proof {
                assert(views(acc.extra@) =~= pre.extra.push(l@));
                assert(acc@ =~= with_extra(pre, l@));
            }
        } else {
            let ci_opt = scan_byte(l, 58);
            let ci = match ci_opt {
                None => {
                    proof {
                        assert(yaml_step(pre, l@) is None);
                        lemma_parse_failed_tail(ls, i as int);
                    }
                    return Err(MihoroError::Parse);
                },
                Some(c) => c,
            };
            proof {
                lemma_find_byte(l@, 58);
            }
            let ghost k = l@.subrange(0, ci as int);
            let ghost v = yaml_val(l@, ci as int);
            // the scalar text after the colon, one leading space stripped
            let val: Vec<u8> = if ci + 1 < l.len() {
                if l[ci + 1] == 32 {
                    subvec(l, ci + 2, l.len())
                } else {
                    subvec(l, ci + 1, l.len())
                }
            } else {
                subvec(l, ci + 1, l.len())
            };
            proof {
                assert(val@ == v);
            }
            if vec_range_eq(l, 0, ci, &yk_port_v()) {
                match parse_u16(&val) {
                    Some(n) => {
                        acc.port = Some(n);
                        proof {
                            assert(acc@ =~= MihomoYamlV { port: Some(n), ..pre });
                        }
                    },
                    None => {
                        proof {
                            lemma_parse_failed_tail(ls, i as int);
                        }
                        return Err(MihoroError::Parse);
                    },
                }
                handled = true;
            } else if vec_range_eq(l, 0, ci, &yk_socks_port_v()) {
                match parse_u16(&val) {
                    Some(n) => {
                        acc.socks_port = Some(n);
                        proof {
                            assert(acc@ =~= MihomoYamlV { socks_port: Some(n), ..pre });
                        }
                    },
                    None => {
                        proof {
                            lemma_parse_failed_tail(ls, i as int);
                        }
                        return Err(MihoroError::Parse);
                    },
                }
                handled = true;
            } else if vec_range_eq(l, 0, ci, &yk_allow_lan_v()) {
                match parse_bool_v(&val) {
                    Some(b) => {
                        acc.allow_lan = Some(b);
                        proof {
                            assert(acc@ =~= MihomoYamlV { allow_lan: Some(b), ..pre });
                        }
                    },
                    None => {
                        proof {
                            lemma_parse_failed_tail(ls, i as int);
                        }
                        return Err(MihoroError::Parse);
                    },
                }
                handled = true;
            } else if vec_range_eq(l, 0, ci, &yk_bind_address_v()) {
                acc.bind_address = Some(val);
                proof {
                    assert(acc@ =~= MihomoYamlV { bind_address: Some(v), ..pre });
                }
                handled = true;
            } else if vec_range_eq(l, 0, ci, &yk_mode_v()) {
                match parse_mode_v(&val) {
                    Some(m) => {
                        acc.mode = Some(m);
                        proof {
                            assert(acc@ =~= MihomoYamlV { mode: Some(m), ..pre });
                        }
                    },
                    None => {
                        proof {
                            lemma_parse_failed_tail(ls, i as int);
                        }
                        return Err(MihoroError::Parse);
                    },
                }
                handled = true;
            } else if vec_range_eq(l, 0, ci, &yk_log_level_v()) {
                match parse_level_v(&val) {
                    Some(x) => {
                        acc.log_level = Some(x);
                        proof {
                            assert(acc@ =~= MihomoYamlV { log_level: Some(x), ..pre });
                        }
                    },
                    None => {
                        proof {
                            lemma_parse_failed_tail(ls, i as int);
                        }
                        return Err(MihoroError::Parse);
                    },
                }
                handled = true;
            } else if vec_range_eq(l, 0, ci, &yk_ipv6_v()) {
                match parse_bool_v(&val) {
                    Some(b) => {
                        acc.ipv6 = Some(b);
                        proof {
                            assert(acc@ =~= MihomoYamlV { ipv6: Some(b), ..pre });
                        }
                    },
                    None => {
                        proof {
                            lemma_parse_failed_tail(ls, i as int);
                        }
                        return Err(MihoroError::Parse);
                    },
                }
                handled = true;
            } else if vec_range_eq(l, 0, ci, &yk_external_controller_v()) {
                acc.external_controller = Some(val);
                proof {
                    assert(acc@ =~= MihomoYamlV { external_controller: Some(v), ..pre });
                }
                handled = true;
            } else if vec_range_eq(l, 0, ci, &yk_external_ui_v()) {
                acc.external_ui = Some(val);
                proof {
                    assert(acc@ =~= MihomoYamlV { external_ui: Some(v), ..pre });
                }
                handled = true;
            } else if vec_range_eq(l, 0, ci, &yk_secret_v()) {
                acc.secret = Some(val);
                proof {
                    assert(acc@ =~= MihomoYamlV { secret: Some(v), ..pre });
                }
                handled = true;
            }
            if !handled {
                let line_copy = subvec(l, 0, l.len());
                proof {
                    assert(line_copy@ =~= l@);
                }
                acc.extra.push(line_copy);
                proof {
                    assert(views(acc.extra@) =~= pre.extra.push(l@));
                    assert(acc@ =~= with_extra(pre, l@));
                }
            }
        }
        proof {
            assert(yaml_step(pre, ls[i as int]) == Some(acc@));
        }
        i += 1;
    }
    proof {
        assert(ls.take(ls.len() as int) =~= ls);
    }
    Ok(acc)
}

/// Once a prefix of the lines fails to parse, the whole text fails.
proof fn lemma_parse_failed_tail(ls: Seq<Seq<u8>>, i: int)
    requires
        0 <= i < ls.len(),
        yaml_fold(Some(yaml_init()), ls.take(i + 1)) == None::<MihomoYamlV>,
    ensures
        yaml_fold(Some(yaml_init()), ls) == None::<MihomoYamlV>,
{
    lemma_yaml_fold_append(Some(yaml_init()), ls.take(i + 1), ls.skip(i + 1));
    assert(ls.take(i + 1) + ls.skip(i + 1) =~= ls);
    lemma_yaml_fold_none(ls.skip(i + 1));
}

/// Build one `key: value` line.
fn yaml_line_v(k: Vec<u8>, val: &Vec<u8>) -> (r: Vec<u8>)
    ensures
        r@ == yaml_line(k@, val@),
{
    let ghost k0 = k@;
    let mut r = k;
    r.push(58);
    r.push(32);
    crate::bytes::append_bytes(&mut r, val);
    proof {
        assert(r@ =~= yaml_line(k0, val@));
    }
    r
}

/// Append the line of one optional numeric field.
fn push_opt_u16_line(buf: &mut Vec<u8>, k: Vec<u8>, v: Option<u16>)
    ensures
        final(buf)@ == old(buf)@ + join_lines(opt_u16_lines(k@, v)),
{
    match v {
        Some(n) => {
            let line = yaml_line_v(k, &fmt_u16(n));
            push_line(buf, &line);
            proof {
                assert(seq![line@].drop_first() =~= Seq::<Seq<u8>>::empty());
                assert(seq![line@][0] == line@);
                assert(join_lines(seq![line@]) == line@ + seq![nl()] + join_lines(
                    Seq::<Seq<u8>>::empty(),
                ));
                assert(old(buf)@ + (line@ + seq![nl()] + Seq::<u8>::empty()) =~= old(buf)@ + line@
                    + seq![nl()]);
            }
        },
        None => {
            proof {
                assert(old(buf)@ + join_lines(opt_u16_lines(k@, v)) =~= old(buf)@);
            }
        },
    }
}

/// Append the line of one optional boolean field.
fn push_opt_bool_line(buf: &mut Vec<u8>, k: Vec<u8>, v: Option<bool>)
    ensures
        final(buf)@ == old(buf)@ + join_lines(opt_bool_lines(k@, v)),
{
    match v {
        Some(b) => {
            let line = yaml_line_v(k, &bool_text_v(b));
            push_line(buf, &line);
            proof {
                assert(seq![line@].drop_first() =~= Seq::<Seq<u8>>::empty());
                assert(seq![line@][0] == line@);
                assert(join_lines(seq![line@]) == line@ + seq![nl()] + join_lines(
                    Seq::<Seq<u8>>::empty(),
                ));
                assert(old(buf)@ + (line@ + seq![nl()] + Seq::<u8>::empty()) =~= old(buf)@ + line@
                    + seq![nl()]);
            }
        },
        None => {
            proof {
                assert(old(buf)@ + join_lines(opt_bool_lines(k@, v)) =~= old(buf)@);
            }
        },
    }
}

/// Append the line of one optional string field.
fn push_opt_str_line(buf: &mut Vec<u8>, k: Vec<u8>, v: &Option<Vec<u8>>)
    ensures
        final(buf)@ == old(buf)@ + join_lines(opt_str_lines(k@, opt_bytes(*v))),
{
    match v {
        Some(s) => {
            let line = yaml_line_v(k, s);
            push_line(buf, &line);
            proof {
                assert(seq![line@].drop_first() =~= Seq::<Seq<u8>>::empty());
                assert(seq![line@][0] == line@);
                assert(join_lines(seq![line@]) == line@ + seq![nl()] + join_lines(
                    Seq::<Seq<u8>>::empty(),
                ));
                assert(old(buf)@ + (line@ + seq![nl()] + Seq::<u8>::empty()) =~= old(buf)@ + line@
                    + seq![nl()]);
            }
        },
        None => {
            proof {
                assert(old(buf)@ + join_lines(opt_str_lines(k@, opt_bytes(*v))) =~= old(buf)@);
            }
        },
    }
}

/// Append the mode line, when present.
fn push_opt_mode_line(buf: &mut Vec<u8>, v: &Option<MihomoMode>)
    ensures
        final(buf)@ == old(buf)@ + join_lines(opt_mode_lines(*v)),
{
    match v {
        Some(m) => {
            let line = yaml_line_v(yk_mode_v(), &mode_text_v(m));
            push_line(buf, &line);
            proof {
                assert(seq![line@].drop_first() =~= Seq::<Seq<u8>>::empty());
                assert(seq![line@][0] == line@);
                assert(join_lines(seq![line@]) == line@ + seq![nl()] + join_lines(
                    Seq::<Seq<u8>>::empty(),
                ));
                assert(old(buf)@ + (line@ + seq![nl()] + Seq::<u8>::empty()) =~= old(buf)@ + line@
                    + seq![nl()]);
            }
        },
        None => {
            proof {
                assert(old(buf)@ + join_lines(opt_mode_lines(*v)) =~= old(buf)@);
            }
        },
    }
}

/// Append the log-level line, when present.
fn push_opt_level_line(buf: &mut Vec<u8>, v: &Option<MihomoLogLevel>)
    ensures
        final(buf)@ == old(buf)@ + join_lines(opt_level_lines(*v)),
{
    match v {
        Some(x) => {
            let line = yaml_line_v(yk_log_level_v(), &level_text_v(x));
            push_line(buf, &line);
            proof {
                assert(seq![line@].drop_first() =~= Seq::<Seq<u8>>::empty());
                assert(seq![line@][0] == line@);
                assert(join_lines(seq![line@]) == line@ + seq![nl()] + join_lines(
                    Seq::<Seq<u8>>::empty(),
                ));
                assert(old(buf)@ + (line@ + seq![nl()] + Seq::<u8>::empty()) =~= old(buf)@ + line@
                    + seq![nl()]);
            }
        },
        None => {
            proof {
                assert(old(buf)@ + join_lines(opt_level_lines(*v)) =~= old(buf)@);
            }
        },
    }
}

impl MihomoYamlConfig {
    /// Serialize the document: recognized lines first, extra lines verbatim.
    pub fn serialize(&self) -> (r: Vec<u8>)
        ensures
            r@ == emit_yaml(self@),
    {
        let ghost y = self@;
        let mut buf: Vec<u8> = Vec::new();
        push_opt_u16_line(&mut buf, yk_port_v(), self.port);
        push_opt_u16_line(&mut buf, yk_socks_port_v(), self.socks_port);
        push_opt_bool_line(&mut buf, yk_allow_lan_v(), self.allow_lan);
        push_opt_str_line(&mut buf, yk_bind_address_v(), &self.bind_address);
        push_opt_mode_line(&mut buf, &self.mode);
        push_opt_level_line(&mut buf, &self.log_level);
        push_opt_bool_line(&mut buf, yk_ipv6_v(), self.ipv6);
        push_opt_str_line(&mut buf, yk_external_controller_v(), &self.external_controller);
        push_opt_str_line(&mut buf, yk_external_ui_v(), &self.external_ui);
        push_opt_str_line(&mut buf, yk_secret_v(), &self.secret);
        let ghost j1 = join_lines(opt_u16_lines(yk_port(), y.port));
        let ghost j2 = join_lines(opt_u16_lines(yk_socks_port(), y.socks_port));
        let ghost j3 = join_lines(opt_bool_lines(yk_allow_lan(), y.allow_lan));
        let ghost j4 = join_lines(opt_str_lines(yk_bind_address(), y.bind_address));
        let ghost j5 = join_lines(opt_mode_lines(y.mode));
        let ghost j6 = join_lines(opt_level_lines(y.log_level));
        let ghost j7 = join_lines(opt_bool_lines(yk_ipv6(), y.ipv6));
        let ghost j8 = join_lines(opt_str_lines(yk_external_controller(), y.external_controller));
        let ghost j9 = join_lines(opt_str_lines(yk_external_ui(), y.external_ui));
        let ghost j10 = join_lines(opt_str_lines(yk_secret(), y.secret));
        proof {
            assert(Seq::<u8>::empty() + j1 =~= j1);
            assert(buf@ == j1 + j2 + j3 + j4 + j5 + j6 + j7 + j8 + j9 + j10);
        }
        let ghost known = emit_known_lines(y);
        proof {
            crate::lines::lemma_join_append(
                opt_u16_lines(yk_port(), y.port),
                opt_u16_lines(yk_socks_port(), y.socks_port),
            );
            crate::lines::lemma_join_append(
                opt_u16_lines(yk_port(), y.port) + opt_u16_lines(yk_socks_port(), y.socks_port),
                opt_bool_lines(yk_allow_lan(), y.allow_lan),
            );
            crate::lines::lemma_join_append(
                opt_u16_lines(yk_port(), y.port) + opt_u16_lines(yk_socks_port(), y.socks_port)
                    + opt_bool_lines(yk_allow_lan(), y.allow_lan),
                opt_str_lines(yk_bind_address(), y.bind_address),
            );
            crate::lines::lemma_join_append(
                opt_u16_lines(yk_port(), y.port) + opt_u16_lines(yk_socks_port(), y.socks_port)
                    + opt_bool_lines(yk_allow_lan(), y.allow_lan) + opt_str_lines(
                    yk_bind_address(),
                    y.bind_address,
                ),
                opt_mode_lines(y.mode),
            );
            crate::lines::lemma_join_append(
                opt_u16_lines(yk_port(), y.port) + opt_u16_lines(yk_socks_port(), y.socks_port)
                    + opt_bool_lines(yk_allow_lan(), y.allow_lan) + opt_str_lines(
                    yk_bind_address(),
                    y.bind_address,
                ) + opt_mode_lines(y.mode),
                opt_level_lines(y.log_level),
            );
            crate::lines::lemma_join_append(
                opt_u16_lines(yk_port(), y.port) + opt_u16_lines(yk_socks_port(), y.socks_port)
                    + opt_bool_lines(yk_allow_lan(), y.allow_lan) + opt_str_lines(
                    yk_bind_address(),
                    y.bind_address,
                ) + opt_mode_lines(y.mode) + opt_level_lines(y.log_level),
                opt_bool_lines(yk_ipv6(), y.ipv6),
            );
            crate::lines::lemma_join_append(
                opt_u16_lines(yk_port(), y.port) + opt_u16_lines(yk_socks_port(), y.socks_port)
                    + opt_bool_lines(yk_allow_lan(), y.allow_lan) + opt_str_lines(
                    yk_bind_address(),
                    y.bind_address,
                ) + opt_mode_lines(y.mode) + opt_level_lines(y.log_level) + opt_bool_lines(
                    yk_ipv6(),
                    y.ipv6,
                ),
                opt_str_lines(yk_external_controller(), y.external_controller),
            );
            crate::lines::lemma_join_append(
                opt_u16_lines(yk_port(), y.port) + opt_u16_lines(yk_socks_port(), y.socks_port)
                    + opt_bool_lines(yk_allow_lan(), y.allow_lan) + opt_str_lines(
                    yk_bind_address(),
                    y.bind_address,
                ) + opt_mode_lines(y.mode) + opt_level_lines(y.log_level) + opt_bool_lines(
                    yk_ipv6(),
                    y.ipv6,
                ) + opt_str_lines(yk_external_controller(), y.external_controller),
                opt_str_lines(yk_external_ui(), y.external_ui),
            );
            crate::lines::lemma_join_append(
                opt_u16_lines(yk_port(), y.port) + opt_u16_lines(yk_socks_port(), y.socks_port)
                    + opt_bool_lines(yk_allow_lan(), y.allow_lan) + opt_str_lines(
                    yk_bind_address(),
                    y.bind_address,
                ) + opt_mode_lines(y.mode) + opt_level_lines(y.log_level) + opt_bool_lines(
                    yk_ipv6(),
                    y.ipv6,
                ) + opt_str_lines(yk_external_controller(), y.external_controller) + opt_str_lines(
                    yk_external_ui(),
                    y.external_ui,
                ),
                opt_str_lines(yk_secret(), y.secret),
            );
            assert(join_lines(known) == j1 + j2 + j3 + j4 + j5 + j6 + j7 + j8 + j9 + j10);
            assert(buf@ == join_lines(known));
        }
        let mut i: usize = 0;
        while i < self.extra.len()
            invariant
                i <= self.extra@.len(),
                buf@ == join_lines(known + views(self.extra@).take(i as int)),
            decreases self.extra@.len() - i,
        {
            let ghost pre = known + views(self.extra@).take(i as int);
            let line = &self.extra[i];
            push_line(&mut buf, line);
            proof {
                lemma_join_push(pre, line@);
                assert(pre.push(line@) =~= known + views(self.extra@).take(i + 1 as int));
            }
            i += 1;
        }
        proof {
            assert(known + views(self.extra@).take(self.extra@.len() as int) =~= emit_yaml_lines(
                y,
            ));
        }
        buf
    }
}

/// Apply the settings overrides to a remote document text.
///
/// Recognized keys present in the overrides are set to the override values;
/// optional override fields that are absent remove the key; every
/// unrecognized line is kept byte for byte, in order.
pub fn apply_mihomo_override(raw: &Vec<u8>, override_config: &MihomoConfig) -> (r: Result<
    Vec<u8>,
    MihoroError,
>)
    ensures
        match r {
            Ok(out) => spec_apply_mihomo_override(raw@, override_config@) == Some(out@),
            Err(e) => spec_apply_mihomo_override(raw@, override_config@) == None::<Seq<u8>> && e
                == MihoroError::Parse,
        },
{
    let mut y = match parse_mihomo_yaml(raw) {
        Ok(y) => y,
        Err(e) => {
            return Err(e);
        },
    };
    let ghost parsed = y@;
    y.port = Some(override_config.port);
    y.socks_port = Some(override_config.socks_port);
    y.allow_lan = override_config.allow_lan;
    y.bind_address = copy_opt_bytes(&override_config.bind_address);
    y.mode = Some(override_config.mode);
    y.log_level = Some(override_config.log_level);
    y.ipv6 = override_config.ipv6;
    y.external_controller = copy_opt_bytes(&override_config.external_controller);
    y.external_ui = copy_opt_bytes(&override_config.external_ui);
    y.secret = copy_opt_bytes(&override_config.secret);
    proof {
        assert(y@ =~= apply_spec(parsed, override_config@));
    }
    Ok(y.serialize())
}

} // verus!
