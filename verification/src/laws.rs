use vstd::prelude::*;
use crate::bytes::{find_byte, no_byte, lemma_find_byte_append, lemma_no_byte_append};
use crate::lines::{lines_of, all_newline_free, nl, lemma_split_join, lemma_lines_newline_free};
use crate::num::{u16_digits, lemma_u16_digits, is_digit};
use crate::lit::{yk_port, yk_socks_port, yk_allow_lan, yk_bind_address, yk_mode, yk_log_level, yk_ipv6, yk_external_controller, yk_external_ui, yk_secret, lemma_yaml_key_shapes, lemma_yaml_keys_distinct, lemma_keys_newline_free, lemma_word_shapes};
use crate::config::{MihomoConfigV, mihomo_wf, wf_opt_bytes, mode_text, level_text, bool_text, lemma_word_round_trips, MihomoMode, MihomoLogLevel};
use crate::overlay::{MihomoYamlV, yaml_init, yaml_step, yaml_fold, yaml_line, yaml_val, starts_entry, with_extra, spec_parse_yaml, emit_known_lines, emit_yaml_lines, emit_yaml, apply_spec, spec_apply_mihomo_override, opt_u16_lines, opt_bool_lines, opt_str_lines, opt_mode_lines, opt_level_lines, lemma_yaml_fold_append, lemma_yaml_fold_none};

verus! {

/// Shape of an emitted `key: value` line: it opens an entry, its first colon
/// sits right after the key, and its scalar text is the value.
pub proof fn lemma_yaml_kv_line(k: Seq<u8>, v: Seq<u8>)
    requires
        no_byte(k, 58),
        k.len() > 0,
        97 <= k[0] <= 122,
    ensures
        starts_entry(yaml_line(k, v)),
        find_byte(yaml_line(k, v), 58) == Some(k.len() as int),
        yaml_line(k, v).subrange(0, k.len() as int) == k,
        yaml_val(yaml_line(k, v), k.len() as int) == v,
{
    let l = yaml_line(k, v);
    assert(l =~= k + (seq![58u8, 32u8] + v));
    assert((seq![58u8, 32u8] + v)[0] == 58);
    lemma_find_byte_append(k, seq![58u8, 32u8] + v, 58);
    assert(l[0] == k[0]);
    assert(l.subrange(0, k.len() as int) =~= k);
    let ci = k.len() as int;
    assert(l[ci + 1] == 32);
    if v.len() > 0 {
        assert(ci + 1 < l.len());
        assert(l.subrange(ci + 2, l.len() as int) =~= v);
    } else {
        assert(ci + 1 < l.len());
        assert(l.subrange(ci + 2, l.len() as int) =~= v);
    }
}

/// Folding a single line is a single step.
pub proof fn lemma_yaml_fold_one(s: MihomoYamlV, l: Seq<u8>)
    ensures
        yaml_fold(Some(s), seq![l]) == yaml_step(s, l),
{
    assert(seq![l][0] == l);
    assert(seq![l].drop_first() =~= Seq::<Seq<u8>>::empty());
    assert(yaml_fold(yaml_step(s, l), Seq::<Seq<u8>>::empty()) == yaml_step(s, l));
}

/// A line that reparsing must hand back to the extra list: it is
/// newline-free and does not open a recognized entry.
pub open spec fn preserved_line(l: Seq<u8>) -> bool {
    no_byte(l, nl()) && (!starts_entry(l) || (find_byte(l, 58) is Some && !recognized_key(
        l.subrange(0, find_byte(l, 58)->Some_0),
    )))
}

pub open spec fn recognized_key(k: Seq<u8>) -> bool {
    k == yk_port() || k == yk_socks_port() || k == yk_allow_lan() || k == yk_bind_address() || k
        == yk_mode() || k == yk_log_level() || k == yk_ipv6() || k == yk_external_controller() || k
        == yk_external_ui() || k == yk_secret()
}

pub open spec fn all_preserved(ls: Seq<Seq<u8>>) -> bool {
    forall|i: int| 0 <= i < ls.len() ==> preserved_line(#[trigger] ls[i])
}

/// Parsing only ever stores preserved lines in the extra list.
pub proof fn lemma_parse_extras_preserved(st: MihomoYamlV, ls: Seq<Seq<u8>>)
    requires
        yaml_fold(Some(st), ls) is Some,
        all_newline_free(ls),
        all_preserved(st.extra),
    ensures
        all_preserved(yaml_fold(Some(st), ls)->Some_0.extra),
    decreases ls.len(),
{
    if ls.len() > 0 {
        let l = ls[0];
        let next = yaml_step(st, l);
        assert(no_byte(l, nl()));
        if next is None {
            lemma_yaml_fold_none(ls.drop_first());
        }
        let st2 = next->Some_0;
        assert(all_preserved(st2.extra)) by {
            if !starts_entry(l) {
                assert(st2 == with_extra(st, l));
                assert(preserved_line(l));
                lemma_all_preserved_push(st.extra, l);
            } else {
                let ci = find_byte(l, 58)->Some_0;
                let k = l.subrange(0, ci);
                if recognized_key(k) {
                    assert(st2.extra == st.extra);
                } else {
                    assert(st2 == with_extra(st, l));
                    assert(preserved_line(l));
                    lemma_all_preserved_push(st.extra, l);
                }
            }
        }
        assert(all_newline_free(ls.drop_first())) by {
            assert(forall|i: int|
                0 <= i < ls.drop_first().len() ==> ls.drop_first()[i] == ls[i + 1]);
        }
        lemma_parse_extras_preserved(st2, ls.drop_first());
    }
}

/// A preserved list stays preserved after pushing a preserved line.
proof fn lemma_all_preserved_push(ls: Seq<Seq<u8>>, l: Seq<u8>)
    requires
        all_preserved(ls),
        preserved_line(l),
    ensures
        all_preserved(ls.push(l)),
{
    assert(forall|i: int| 0 <= i < ls.len() ==> ls.push(l)[i] == ls[i]);
    assert(ls.push(l)[ls.len() as int] == l);
}

/// Folding preserved lines only appends them to the extra list.
pub proof fn lemma_fold_preserved_lines(s: MihomoYamlV, ls: Seq<Seq<u8>>)
    requires
        all_preserved(ls),
    ensures
        yaml_fold(Some(s), ls) == Some(MihomoYamlV { extra: s.extra + ls, ..s }),
    decreases ls.len(),
{
    if ls.len() == 0 {
        assert(s.extra + ls =~= s.extra);
        assert(MihomoYamlV { extra: s.extra + ls, ..s } =~= s);
    } else {
        let l = ls[0];
        assert(preserved_line(l));
        assert(yaml_step(s, l) == Some(with_extra(s, l)));
        assert(all_preserved(ls.drop_first())) by {
            assert(forall|i: int|
                0 <= i < ls.drop_first().len() ==> ls.drop_first()[i] == ls[i + 1]);
        }
        lemma_fold_preserved_lines(with_extra(s, l), ls.drop_first());
        assert(s.extra.push(l) + ls.drop_first() =~= s.extra + ls);
        assert(MihomoYamlV { extra: s.extra.push(l) + ls.drop_first(), ..with_extra(s, l) } =~= MihomoYamlV {
            extra: s.extra + ls,
            ..s
        });
    }
}

/// Parsing the emitted recognized lines rebuilds exactly the recognized
/// slots, with nothing extra.
pub proof fn lemma_emit_known_fold(y: MihomoYamlV)
    ensures
        yaml_fold(Some(yaml_init()), emit_known_lines(y)) == Some(
            MihomoYamlV { extra: Seq::empty(), ..y },
        ),
{
    lemma_yaml_key_shapes();
    lemma_yaml_keys_distinct();
    let e1 = opt_u16_lines(yk_port(), y.port);
    let e2 = opt_u16_lines(yk_socks_port(), y.socks_port);
    let e3 = opt_bool_lines(yk_allow_lan(), y.allow_lan);
    let e4 = opt_str_lines(yk_bind_address(), y.bind_address);
    let e5 = opt_mode_lines(y.mode);
    let e6 = opt_level_lines(y.log_level);
    let e7 = opt_bool_lines(yk_ipv6(), y.ipv6);
    let e8 = opt_str_lines(yk_external_controller(), y.external_controller);
    let e9 = opt_str_lines(yk_external_ui(), y.external_ui);
    let e10 = opt_str_lines(yk_secret(), y.secret);
    let s0 = yaml_init();
    let s1 = MihomoYamlV { port: y.port, ..s0 };
    let s2 = MihomoYamlV { socks_port: y.socks_port, ..s1 };
    let s3 = MihomoYamlV { allow_lan: y.allow_lan, ..s2 };
    let s4 = MihomoYamlV { bind_address: y.bind_address, ..s3 };
    let s5 = MihomoYamlV { mode: y.mode, ..s4 };
    let s6 = MihomoYamlV { log_level: y.log_level, ..s5 };
    let s7 = MihomoYamlV { ipv6: y.ipv6, ..s6 };
    let s8 = MihomoYamlV { external_controller: y.external_controller, ..s7 };
    let s9 = MihomoYamlV { external_ui: y.external_ui, ..s8 };
    let s10 = MihomoYamlV { secret: y.secret, ..s9 };
    assert(yaml_fold(Some(s0), e1) == Some(s1)) by {
        match y.port {
            None => {},
            Some(n) => {
                lemma_yaml_kv_line(yk_port(), u16_digits(n));
                lemma_u16_digits(n);
                lemma_yaml_fold_one(s0, yaml_line(yk_port(), u16_digits(n)));
            },
        }
    }
    assert(yaml_fold(Some(s1), e2) == Some(s2)) by {
        match y.socks_port {
            None => {},
            Some(n) => {
                lemma_yaml_kv_line(yk_socks_port(), u16_digits(n));
                lemma_u16_digits(n);
                lemma_yaml_fold_one(s1, yaml_line(yk_socks_port(), u16_digits(n)));
            },
        }
    }
    assert(yaml_fold(Some(s2), e3) == Some(s3)) by {
        match y.allow_lan {
            None => {},
            Some(b) => {
                lemma_yaml_kv_line(yk_allow_lan(), bool_text(b));
                lemma_word_round_trips(MihomoMode::Rule, MihomoLogLevel::Info, b);
                lemma_yaml_fold_one(s2, yaml_line(yk_allow_lan(), bool_text(b)));
            },
        }
    }
    assert(yaml_fold(Some(s3), e4) == Some(s4)) by {
        match y.bind_address {
            None => {},
            Some(s) => {
                lemma_yaml_kv_line(yk_bind_address(), s);
                lemma_yaml_fold_one(s3, yaml_line(yk_bind_address(), s));
            },
        }
    }
    assert(yaml_fold(Some(s4), e5) == Some(s5)) by {
        match y.mode {
            None => {},
            Some(m) => {
                lemma_yaml_kv_line(yk_mode(), mode_text(m));
                lemma_word_round_trips(m, MihomoLogLevel::Info, true);
                lemma_yaml_fold_one(s4, yaml_line(yk_mode(), mode_text(m)));
            },
        }
    }
    assert(yaml_fold(Some(s5), e6) == Some(s6)) by {
        match y.log_level {
            None => {},
            Some(x) => {
                lemma_yaml_kv_line(yk_log_level(), level_text(x));
                lemma_word_round_trips(MihomoMode::Rule, x, true);
                lemma_yaml_fold_one(s5, yaml_line(yk_log_level(), level_text(x)));
            },
        }
    }
    assert(yaml_fold(Some(s6), e7) == Some(s7)) by {
        match y.ipv6 {
            None => {},
            Some(b) => {
                lemma_yaml_kv_line(yk_ipv6(), bool_text(b));
                lemma_word_round_trips(MihomoMode::Rule, MihomoLogLevel::Info, b);
                lemma_yaml_fold_one(s6, yaml_line(yk_ipv6(), bool_text(b)));
            },
        }
    }
    assert(yaml_fold(Some(s7), e8) == Some(s8)) by {
        match y.external_controller {
            None => {},
            Some(s) => {
                lemma_yaml_kv_line(yk_external_controller(), s);
                lemma_yaml_fold_one(s7, yaml_line(yk_external_controller(), s));
            },
        }
    }
    assert(yaml_fold(Some(s8), e9) == Some(s9)) by {
        match y.external_ui {
            None => {},
            Some(s) => {
                lemma_yaml_kv_line(yk_external_ui(), s);
                lemma_yaml_fold_one(s8, yaml_line(yk_external_ui(), s));
            },
        }
    }
    assert(yaml_fold(Some(s9), e10) == Some(s10)) by {
        match y.secret {
            None => {},
            Some(s) => {
                lemma_yaml_kv_line(yk_secret(), s);
                lemma_yaml_fold_one(s9, yaml_line(yk_secret(), s));
            },
        }
    }
    lemma_yaml_fold_append(Some(s0), e1, e2);
    lemma_yaml_fold_append(Some(s0), e1 + e2, e3);
    lemma_yaml_fold_append(Some(s0), e1 + e2 + e3, e4);
    lemma_yaml_fold_append(Some(s0), e1 + e2 + e3 + e4, e5);
    lemma_yaml_fold_append(Some(s0), e1 + e2 + e3 + e4 + e5, e6);
    lemma_yaml_fold_append(Some(s0), e1 + e2 + e3 + e4 + e5 + e6, e7);
    lemma_yaml_fold_append(Some(s0), e1 + e2 + e3 + e4 + e5 + e6 + e7, e8);
    lemma_yaml_fold_append(Some(s0), e1 + e2 + e3 + e4 + e5 + e6 + e7 + e8, e9);
    lemma_yaml_fold_append(Some(s0), e1 + e2 + e3 + e4 + e5 + e6 + e7 + e8 + e9, e10);
    assert(yaml_fold(Some(s0), emit_known_lines(y)) == Some(s10));
    assert(s10 =~= MihomoYamlV { extra: Seq::empty(), ..y });
}

/// Concatenation keeps lines newline-free.
proof fn lemma_anf_append(a: Seq<Seq<u8>>, b: Seq<Seq<u8>>)
    requires
        all_newline_free(a),
        all_newline_free(b),
    ensures
        all_newline_free(a + b),
{
    assert forall|i: int| 0 <= i < (a + b).len() implies no_byte(#[trigger] (a + b)[i], nl()) by {
        if i < a.len() {
            assert((a + b)[i] == a[i]);
        } else {
            assert((a + b)[i] == b[i - a.len()]);
        }
    }
}

/// An emitted scalar line is newline-free when key and value are.
proof fn lemma_yaml_line_nl(k: Seq<u8>, v: Seq<u8>)
    requires
        no_byte(k, nl()),
        no_byte(v, nl()),
    ensures
        no_byte(yaml_line(k, v), nl()),
{
    assert(no_byte(seq![58u8, 32u8], nl()));
    lemma_no_byte_append(k, seq![58u8, 32u8], nl());
    lemma_no_byte_append(k + seq![58u8, 32u8], v, nl());
}

/// Decimal digits hold no newline.
proof fn lemma_digits_nl(n: u16)
    ensures
        no_byte(u16_digits(n), nl()),
{
    lemma_u16_digits(n);
    assert(forall|j: int| 0 <= j < u16_digits(n).len() ==> is_digit(#[trigger] u16_digits(n)[j]));
}

/// Every emitted line of a well-formed document is newline-free.
pub proof fn lemma_emit_lines_newline_free(y: MihomoYamlV)
    requires
        wf_opt_bytes(y.bind_address),
        wf_opt_bytes(y.external_controller),
        wf_opt_bytes(y.external_ui),
        wf_opt_bytes(y.secret),
        all_preserved(y.extra),
    ensures
        all_newline_free(emit_yaml_lines(y)),
{
    lemma_keys_newline_free();
    lemma_word_shapes();
    let e1 = opt_u16_lines(yk_port(), y.port);
    let e2 = opt_u16_lines(yk_socks_port(), y.socks_port);
    let e3 = opt_bool_lines(yk_allow_lan(), y.allow_lan);
    let e4 = opt_str_lines(yk_bind_address(), y.bind_address);
    let e5 = opt_mode_lines(y.mode);
    let e6 = opt_level_lines(y.log_level);
    let e7 = opt_bool_lines(yk_ipv6(), y.ipv6);
    let e8 = opt_str_lines(yk_external_controller(), y.external_controller);
    let e9 = opt_str_lines(yk_external_ui(), y.external_ui);
    let e10 = opt_str_lines(yk_secret(), y.secret);
    assert(all_newline_free(e1)) by {
        match y.port {
            None => {},
            Some(n) => {
                lemma_digits_nl(n);
                lemma_yaml_line_nl(yk_port(), u16_digits(n));
                assert(e1[0] == yaml_line(yk_port(), u16_digits(n)));
            },
        }
    }
    assert(all_newline_free(e2)) by {
        match y.socks_port {
            None => {},
            Some(n) => {
                lemma_digits_nl(n);
                lemma_yaml_line_nl(yk_socks_port(), u16_digits(n));
                assert(e2[0] == yaml_line(yk_socks_port(), u16_digits(n)));
            },
        }
    }
    assert(all_newline_free(e3)) by {
        match y.allow_lan {
            None => {},
            Some(b) => {
                lemma_yaml_line_nl(yk_allow_lan(), bool_text(b));
                assert(e3[0] == yaml_line(yk_allow_lan(), bool_text(b)));
            },
        }
    }
    assert(all_newline_free(e4)) by {
        match y.bind_address {
            None => {},
            Some(v) => {
                lemma_yaml_line_nl(yk_bind_address(), v);
                assert(e4[0] == yaml_line(yk_bind_address(), v));
            },
        }
    }
    assert(all_newline_free(e5)) by {
        match y.mode {
            None => {},
            Some(m) => {
                lemma_yaml_line_nl(yk_mode(), mode_text(m));
                assert(e5[0] == yaml_line(yk_mode(), mode_text(m)));
            },
        }
    }
    assert(all_newline_free(e6)) by {
        match y.log_level {
            None => {},
            Some(x) => {
                lemma_yaml_line_nl(yk_log_level(), level_text(x));
                assert(e6[0] == yaml_line(yk_log_level(), level_text(x)));
            },
        }
    }
    assert(all_newline_free(e7)) by {
        match y.ipv6 {
            None => {},
            Some(b) => {
                lemma_yaml_line_nl(yk_ipv6(), bool_text(b));
                assert(e7[0] == yaml_line(yk_ipv6(), bool_text(b)));
            },
        }
    }
    assert(all_newline_free(e8)) by {
        match y.external_controller {
            None => {},
            Some(v) => {
                lemma_yaml_line_nl(yk_external_controller(), v);
                assert(e8[0] == yaml_line(yk_external_controller(), v));
            },
        }
    }
    assert(all_newline_free(e9)) by {
        match y.external_ui {
            None => {},
            Some(v) => {
                lemma_yaml_line_nl(yk_external_ui(), v);
                assert(e9[0] == yaml_line(yk_external_ui(), v));
            },
        }
    }
    assert(all_newline_free(e10)) by {
        match y.secret {
            None => {},
            Some(v) => {
                lemma_yaml_line_nl(yk_secret(), v);
                assert(e10[0] == yaml_line(yk_secret(), v));
            },
        }
    }
    lemma_anf_append(e1, e2);
    lemma_anf_append(e1 + e2, e3);
    lemma_anf_append(e1 + e2 + e3, e4);
    lemma_anf_append(e1 + e2 + e3 + e4, e5);
    lemma_anf_append(e1 + e2 + e3 + e4 + e5, e6);
    lemma_anf_append(e1 + e2 + e3 + e4 + e5 + e6, e7);
    lemma_anf_append(e1 + e2 + e3 + e4 + e5 + e6 + e7, e8);
    lemma_anf_append(e1 + e2 + e3 + e4 + e5 + e6 + e7 + e8, e9);
    lemma_anf_append(e1 + e2 + e3 + e4 + e5 + e6 + e7 + e8 + e9, e10);
    assert(all_newline_free(y.extra));
    lemma_anf_append(emit_known_lines(y), y.extra);
}

/// Re-parsing a serialized overlaid document yields the overlaid document
/// back: the recognized slots hold exactly the override values, and the
/// extra lines are unchanged.
pub proof fn lemma_overlay_round_trip(t: Seq<u8>, o: MihomoConfigV)
    requires
        mihomo_wf(o),
        spec_parse_yaml(t) is Some,
    ensures
        spec_apply_mihomo_override(t, o) is Some,
        spec_parse_yaml(spec_apply_mihomo_override(t, o)->Some_0) == Some(
            apply_spec(spec_parse_yaml(t)->Some_0, o),
        ),
{
    let y = spec_parse_yaml(t)->Some_0;
    let y2 = apply_spec(y, o);
    let out = emit_yaml(y2);
    lemma_lines_newline_free(t, Seq::empty());
    lemma_parse_extras_preserved(yaml_init(), lines_of(t));
    assert(all_preserved(y2.extra));
    lemma_emit_lines_newline_free(y2);
    lemma_split_join(emit_yaml_lines(y2));
    assert(lines_of(out) == emit_yaml_lines(y2));
    lemma_yaml_fold_append(Some(yaml_init()), emit_known_lines(y2), y2.extra);
    lemma_emit_known_fold(y2);
    lemma_fold_preserved_lines(MihomoYamlV { extra: Seq::empty(), ..y2 }, y2.extra);
    assert(Seq::<Seq<u8>>::empty() + y2.extra =~= y2.extra);
    assert(yaml_fold(Some(yaml_init()), lines_of(out)) == Some(
        MihomoYamlV { extra: y2.extra, ..y2 },
    ));
    assert(MihomoYamlV { extra: y2.extra, ..y2 } =~= y2);
}

/// Applying the same overrides twice gives the same document as applying
/// them once: the overlay is idempotent at the text level.
pub proof fn lemma_apply_idempotent(t: Seq<u8>, o: MihomoConfigV)
    requires
        mihomo_wf(o),
        spec_parse_yaml(t) is Some,
    ensures
        spec_apply_mihomo_override(t, o) is Some,
        spec_apply_mihomo_override(spec_apply_mihomo_override(t, o)->Some_0, o)
            == spec_apply_mihomo_override(t, o),
{
    lemma_overlay_round_trip(t, o);
    let y = spec_parse_yaml(t)->Some_0;
    let y2 = apply_spec(y, o);
    let out = spec_apply_mihomo_override(t, o)->Some_0;
    assert(spec_parse_yaml(out) == Some(y2));
    assert(apply_spec(y2, o) =~= y2);
}

/// After an overlay, each recognized key holds exactly the override value:
/// present overrides are set, absent optional overrides leave the key absent
/// from the document.
pub proof fn lemma_overlay_sets_and_removes(t: Seq<u8>, o: MihomoConfigV)
    requires
        mihomo_wf(o),
        spec_parse_yaml(t) is Some,
    ensures
        spec_apply_mihomo_override(t, o) is Some,
        ({
            let after = spec_parse_yaml(spec_apply_mihomo_override(t, o)->Some_0)->Some_0;
            &&& after.port == Some(o.port)
            &&& after.socks_port == Some(o.socks_port)
            &&& after.allow_lan == o.allow_lan
            &&& after.bind_address == o.bind_address
            &&& after.mode == Some(o.mode)
            &&& after.log_level == Some(o.log_level)
            &&& after.ipv6 == o.ipv6
            &&& after.external_controller == o.external_controller
            &&& after.external_ui == o.external_ui
            &&& after.secret == o.secret
        }),
{
    lemma_overlay_round_trip(t, o);
}

/// Recognized slots never revert from set to unset while folding.
proof fn lemma_fold_monotone(st: MihomoYamlV, ls: Seq<Seq<u8>>)
    requires
        yaml_fold(Some(st), ls) is Some,
    ensures
        ({
            let y = yaml_fold(Some(st), ls)->Some_0;
            &&& (st.port is Some ==> y.port is Some)
            &&& (st.socks_port is Some ==> y.socks_port is Some)
            &&& (st.allow_lan is Some ==> y.allow_lan is Some)
            &&& (st.bind_address is Some ==> y.bind_address is Some)
            &&& (st.mode is Some ==> y.mode is Some)
            &&& (st.log_level is Some ==> y.log_level is Some)
            &&& (st.ipv6 is Some ==> y.ipv6 is Some)
            &&& (st.external_controller is Some ==> y.external_controller is Some)
            &&& (st.external_ui is Some ==> y.external_ui is Some)
            &&& (st.secret is Some ==> y.secret is Some)
        }),
    decreases ls.len(),
{
    if ls.len() > 0 {
        if yaml_step(st, ls[0]) is None {
            lemma_yaml_fold_none(ls.drop_first());
        }
        lemma_fold_monotone(yaml_step(st, ls[0])->Some_0, ls.drop_first());
    }
}

/// In a document whose parse recognized nothing, every line was kept.
proof fn lemma_all_extra(st: MihomoYamlV, ls: Seq<Seq<u8>>)
    requires
        yaml_fold(Some(st), ls) is Some,
        ({
            let y = yaml_fold(Some(st), ls)->Some_0;
            &&& y.port is None
            &&& y.socks_port is None
            &&& y.allow_lan is None
            &&& y.bind_address is None
            &&& y.mode is None
            &&& y.log_level is None
            &&& y.ipv6 is None
            &&& y.external_controller is None
            &&& y.external_ui is None
            &&& y.secret is None
        }),
    ensures
        yaml_fold(Some(st), ls)->Some_0.extra == st.extra + ls,
    decreases ls.len(),
{
    if ls.len() == 0 {
        assert(st.extra + ls =~= st.extra);
    } else {
        let l = ls[0];
        if yaml_step(st, l) is None {
            lemma_yaml_fold_none(ls.drop_first());
        }
        let st2 = yaml_step(st, l)->Some_0;
        lemma_fold_monotone(st2, ls.drop_first());
        assert(st2.extra == st.extra.push(l)) by {
            if !starts_entry(l) {
                assert(st2 == with_extra(st, l));
            } else {
                let ci = find_byte(l, 58)->Some_0;
                let k = l.subrange(0, ci);
                if recognized_key(k) {
                    // a recognized key would leave a slot set, which the
                    // all-unset conclusion of the fold rules out
                    assert(false);
                } else {
                    assert(st2 == with_extra(st, l));
                }
            }
        }
        lemma_all_extra(st2, ls.drop_first());
        assert(st.extra.push(l) + ls.drop_first() =~= st.extra + ls);
    }
}

/// On a document with only unrecognized content, the overlay adds exactly
/// the recognized override lines and keeps every original line byte for
/// byte, in order.
pub proof fn lemma_overlay_preserves_unrecognized(t: Seq<u8>, o: MihomoConfigV)
    requires
        mihomo_wf(o),
        spec_parse_yaml(t) is Some,
        ({
            let y = spec_parse_yaml(t)->Some_0;
            &&& y.port is None
            &&& y.socks_port is None
            &&& y.allow_lan is None
            &&& y.bind_address is None
            &&& y.mode is None
            &&& y.log_level is None
            &&& y.ipv6 is None
            &&& y.external_controller is None
            &&& y.external_ui is None
            &&& y.secret is None
        }),
    ensures
        spec_apply_mihomo_override(t, o) is Some,
        lines_of(spec_apply_mihomo_override(t, o)->Some_0) == emit_known_lines(
            apply_spec(spec_parse_yaml(t)->Some_0, o),
        ) + lines_of(t),
{
    let y = spec_parse_yaml(t)->Some_0;
    let y2 = apply_spec(y, o);
    lemma_all_extra(yaml_init(), lines_of(t));
    assert(Seq::<Seq<u8>>::empty() + lines_of(t) =~= lines_of(t));
    assert(y.extra == lines_of(t));
    lemma_lines_newline_free(t, Seq::empty());
    lemma_parse_extras_preserved(yaml_init(), lines_of(t));
    lemma_emit_lines_newline_free(y2);
    lemma_split_join(emit_yaml_lines(y2));
}

} // verus!
