use vstd::prelude::*;
use crate::bytes::{subvec, vec_range_eq, scan_byte, lemma_find_byte};
use crate::lines::{join_lines, lines_of, views, split_lines, lemma_join_append};
use crate::lit::{ck_remote_clash_binary_url, ck_remote_config_url, ck_clash_config_root, d_clash_config_root, ck_remote_clash_binary_url_v, ck_remote_config_url_v, ck_clash_config_root_v, d_clash_config_root_v, svc_head, svc_mid, svc_tail, svc_head_v, svc_mid_v, svc_tail_v};
use crate::config::opt_bytes;
use crate::store::{q, unquote, toml_line, parse_kv_toml, unquote_v, toml_line_v, push_one_line};

verus! {

/// The predecessor tool's own settings: two remote URLs and one local root.
pub struct Config {
    pub remote_clash_binary_url: Vec<u8>,
    pub remote_config_url: Vec<u8>,
    pub clash_config_root: Vec<u8>,
}

/// Mathematical model of the predecessor settings.
#[verifier::ext_equal]
pub ghost struct ClashConfigV {
    pub remote_clash_binary_url: Seq<u8>,
    pub remote_config_url: Seq<u8>,
    pub clash_config_root: Seq<u8>,
}

impl View for Config {
    type V = ClashConfigV;

    open spec fn view(&self) -> ClashConfigV {
        ClashConfigV {
            remote_clash_binary_url: self.remote_clash_binary_url@,
            remote_config_url: self.remote_config_url@,
            clash_config_root: self.clash_config_root@,
        }
    }
}

/// Outcomes of validating the predecessor settings: the file was missing
/// and a scaffold is owed, or one of the two required URLs is empty.
#[derive(Clone, Copy, Debug, PartialEq, Eq, Structural)]
pub enum ClashrupConfigError {
    ConfigMissingError,
    RemoteClashBinaryUrlMissingError,
    RemoteConfigUrlMissingError,
}

/// The scaffold value: empty URLs, conventional config root.
pub open spec fn default_clash_config() -> ClashConfigV {
    ClashConfigV {
        remote_clash_binary_url: Seq::empty(),
        remote_config_url: Seq::empty(),
        clash_config_root: d_clash_config_root(),
    }
}

pub open spec fn clash_config_lines(c: ClashConfigV) -> Seq<Seq<u8>> {
    seq![toml_line(ck_remote_clash_binary_url(), q(c.remote_clash_binary_url))] + seq![
        toml_line(ck_remote_config_url(), q(c.remote_config_url)),
    ] + seq![toml_line(ck_clash_config_root(), q(c.clash_config_root))]
}

pub open spec fn clash_config_toml(c: ClashConfigV) -> Seq<u8> {
    join_lines(clash_config_lines(c))
}

/// The scaffold text written when the predecessor settings file is missing.
pub fn setup_default_config() -> (r: Vec<u8>)
    ensures
        r@ == clash_config_toml(default_clash_config()),
{
    let c = default_clash_config_v();
    let mut buf: Vec<u8> = Vec::new();
    let l1 = toml_line_v(ck_remote_clash_binary_url_v(), &quote_bytes(&c.remote_clash_binary_url));
    push_one_line(&mut buf, &l1);
    let l2 = toml_line_v(ck_remote_config_url_v(), &quote_bytes(&c.remote_config_url));
    push_one_line(&mut buf, &l2);
    let l3 = toml_line_v(ck_clash_config_root_v(), &quote_bytes(&c.clash_config_root));
    push_one_line(&mut buf, &l3);
    proof {
        let g = default_clash_config();
        let p1 = seq![toml_line(ck_remote_clash_binary_url(), q(g.remote_clash_binary_url))];
        let p2 = seq![toml_line(ck_remote_config_url(), q(g.remote_config_url))];
        let p3 = seq![toml_line(ck_clash_config_root(), q(g.clash_config_root))];
        lemma_join_append(p1, p2);
        lemma_join_append(p1 + p2, p3);
        assert(Seq::<u8>::empty() + join_lines(p1) =~= join_lines(p1));
    }
    buf
}

/// The default predecessor settings value.
fn default_clash_config_v() -> (r: Config)
    ensures
        r@ == default_clash_config(),
{
    let r = Config {
        remote_clash_binary_url: Vec::new(),
        remote_config_url: Vec::new(),
        clash_config_root: d_clash_config_root_v(),
    };
    proof {
        assert(r@ =~= default_clash_config());
    }
    r
}

/// Quote a byte string.
fn quote_bytes(s: &Vec<u8>) -> (r: Vec<u8>)
    ensures
        r@ == q(s@),
{
    let mut r: Vec<u8> = Vec::new();
    r.push(34);
    crate::bytes::append_bytes(&mut r, s);
    r.push(34);
    proof {
        assert(r@ =~= q(s@));
    }
    r
}

/// Parser state for the predecessor settings.
#[verifier::ext_equal]
pub ghost struct ClashStV {
    pub ignore: bool,
    pub rbu: Option<Seq<u8>>,
    pub rcu: Option<Seq<u8>>,
    pub root: Option<Seq<u8>>,
}

pub open spec fn clash_init() -> ClashStV {
    ClashStV { ignore: false, rbu: None, rcu: None, root: None }
}

/// One parsing step: blank and comment lines are skipped, a section header
/// turns key recognition off, unknown keys are ignored.
pub open spec fn clash_step(st: ClashStV, l: Seq<u8>) -> Option<ClashStV> {
    if l.len() == 0 || l[0] == 35 {
        Some(st)
    } else if l[0] == 91 {
        Some(ClashStV { ignore: true, ..st })
    } else {
        match parse_kv_toml(l) {
            None => None,
            Some((k, v)) => if st.ignore {
                Some(st)
            } else if k == ck_remote_clash_binary_url() {
                match unquote(v) {
                    Some(s) => Some(ClashStV { rbu: Some(s), ..st }),
                    None => None,
                }
            } else if k == ck_remote_config_url() {
                match unquote(v) {
                    Some(s) => Some(ClashStV { rcu: Some(s), ..st }),
                    None => None,
                }
            } else if k == ck_clash_config_root() {
                match unquote(v) {
                    Some(s) => Some(ClashStV { root: Some(s), ..st }),
                    None => None,
                }
            } else {
                Some(st)
            },
        }
    }
}

pub open spec fn clash_fold(st: Option<ClashStV>, ls: Seq<Seq<u8>>) -> Option<ClashStV>
    decreases ls.len(),
{
    if ls.len() == 0 {
        st
    } else {
        match st {
            None => None,
            Some(s) => clash_fold(clash_step(s, ls[0]), ls.drop_first()),
        }
    }
}

pub open spec fn clash_finish(st: ClashStV) -> Option<ClashConfigV> {
    if st.rbu is Some && st.rcu is Some && st.root is Some {
        Some(
            ClashConfigV {
                remote_clash_binary_url: st.rbu->Some_0,
                remote_config_url: st.rcu->Some_0,
                clash_config_root: st.root->Some_0,
            },
        )
    } else {
        None
    }
}

/// Parse a predecessor settings text; `None` is a parse failure.
pub open spec fn spec_parse_clash(t: Seq<u8>) -> Option<ClashConfigV> {
    match clash_fold(Some(clash_init()), lines_of(t)) {
        None => None,
        Some(st) => clash_finish(st),
    }
}

proof fn lemma_clash_fold_none(ls: Seq<Seq<u8>>)
    ensures
        clash_fold(None, ls) == None::<ClashStV>,
    decreases ls.len(),
{
    if ls.len() > 0 {
        lemma_clash_fold_none(ls.drop_first());
    }
}

proof fn lemma_clash_fold_append(st: Option<ClashStV>, a: Seq<Seq<u8>>, b: Seq<Seq<u8>>)
    ensures
        clash_fold(st, a + b) == clash_fold(clash_fold(st, a), b),
    decreases a.len(),
{
    if a.len() == 0 {
        assert(a + b =~= b);
    } else {
        match st {
            None => {
                lemma_clash_fold_none(a + b);
                lemma_clash_fold_none(b);
            },
            Some(s) => {
                assert((a + b)[0] == a[0]);
                assert((a + b).drop_first() =~= a.drop_first() + b);
                lemma_clash_fold_append(clash_step(s, a[0]), a.drop_first(), b);
            },
        }
    }
}

proof fn lemma_clash_fold_push(st: Option<ClashStV>, ls: Seq<Seq<u8>>, i: int)
    requires
        0 <= i < ls.len(),
    ensures
        clash_fold(st, ls.take(i + 1)) == (match clash_fold(st, ls.take(i)) {
            None => None,
            Some(s) => clash_step(s, ls[i]),
        }),
{
    assert(ls.take(i + 1) =~= ls.take(i) + seq![ls[i]]);
    lemma_clash_fold_append(st, ls.take(i), seq![ls[i]]);
    let mid = clash_fold(st, ls.take(i));
    match mid {
        None => {
            lemma_clash_fold_none(seq![ls[i]]);
        },
        Some(s) => {
            assert(seq![ls[i]][0] == ls[i]);
            assert(seq![ls[i]].drop_first() =~= Seq::<Seq<u8>>::empty());
            assert(clash_fold(clash_step(s, ls[i]), Seq::<Seq<u8>>::empty()) == clash_step(
                s,
                ls[i],
            ));
        },
    }
}

/// Parse a predecessor settings text that is known to be well-formed.
///
/// An unreadable settings file is fatal for this flow, so malformed text
/// is excluded by precondition rather than reported; on such input the
/// executable path aborts.
pub fn parse_config(raw: &Vec<u8>) -> (r: Config)
    requires
        spec_parse_clash(raw@) is Some,
    ensures
        Some(r@) == spec_parse_clash(raw@),
{
    let lines = split_lines(raw);
    let ghost ls = views(lines@);
    let mut ignore = false;
    let mut rbu: Option<Vec<u8>> = None;
    let mut rcu: Option<Vec<u8>> = None;
    let mut root: Option<Vec<u8>> = None;
    proof {
        assert(ls.take(0) =~= Seq::<Seq<u8>>::empty());
        assert(ClashStV { ignore: false, rbu: opt_bytes(rbu), rcu: opt_bytes(rcu), root: opt_bytes(root) }
            =~= clash_init());
    }
    let mut i: usize = 0;
    while i < lines.len()
        invariant
            i <= lines@.len(),
            ls == views(lines@),
            ls == lines_of(raw@),
            clash_fold(Some(clash_init()), ls.take(i as int)) == Some(
                ClashStV {
                    ignore: ignore,
                    rbu: opt_bytes(rbu),
                    rcu: opt_bytes(rcu),
                    root: opt_bytes(root),
                },
            ),
            clash_fold(Some(clash_init()), ls) is Some,
        decreases lines@.len() - i,
    {
        let ghost pre = ClashStV {
            ignore: ignore,
            rbu: opt_bytes(rbu),
            rcu: opt_bytes(rcu),
            root: opt_bytes(root),
        };
        let l = &lines[i];
        proof {
            assert(l@ == ls[i as int]);
            lemma_clash_fold_push(Some(clash_init()), ls, i as int);
            lemma_clash_fold_append(Some(clash_init()), ls.take(i + 1 as int), ls.skip(i + 1 as int));
            assert(ls.take(i + 1 as int) + ls.skip(i + 1 as int) =~= ls);
            if clash_step(pre, l@) is None {
                lemma_clash_fold_none(ls.skip(i + 1 as int));
            }
        }
        if l.len() == 0 || l[0] == 35 {
            // blank or comment
        } else if l[0] == 91 {
            ignore = true;
        } else {
            let p = match scan_byte(l, 61) {
                None => {
                    proof {
                        assert(false);
                    }
                    unreached()
                },
                Some(p) => p,
            };
            proof {
                lemma_find_byte(l@, 61);
            }
            if !(p >= 2 && p < l.len() - 1 && l[p - 1] == 32 && l[p + 1] == 32) {
                proof {
                    assert(false);
                }
                unreached()
            }
            let val = subvec(l, p + 2, l.len());
            if !ignore {
                if vec_range_eq(l, 0, p - 1, &ck_remote_clash_binary_url_v()) {
                    match unquote_v(&val) {
                        Some(sv) => {
                            rbu = Some(sv);
                        },
                        None => {
                            proof {
                                assert(false);
                            }
                            unreached()
                        },
                    }
                } else if vec_range_eq(l, 0, p - 1, &ck_remote_config_url_v()) {
                    match unquote_v(&val) {
                        Some(sv) => {
                            rcu = Some(sv);
                        },
                        None => {
                            proof {
                                assert(false);
                            }
                            unreached()
                        },
                    }
                } else if vec_range_eq(l, 0, p - 1, &ck_clash_config_root_v()) {
                    match unquote_v(&val) {
                        Some(sv) => {
                            root = Some(sv);
                        },
                        None => {
                            proof {
                                assert(false);
                            }
                            unreached()
                        },
                    }
                }
            }
        }
        proof {
            assert(clash_step(pre, ls[i as int]) == Some(
                ClashStV {
                    ignore: ignore,
                    rbu: opt_bytes(rbu),
                    rcu: opt_bytes(rcu),
                    root: opt_bytes(root),
                },
            ));
        }
        i += 1;
    }
    proof {
        assert(ls.take(ls.len() as int) =~= ls);
    }
    let rbu = match rbu {
        Some(s) => s,
        None => {
            proof {
                assert(false);
            }
            unreached()
        },
    };
    let rcu = match rcu {
        Some(s) => s,
        None => {
            proof {
                assert(false);
            }
            unreached()
        },
    };
    let root = match root {
        Some(s) => s,
        None => {
            proof {
                assert(false);
            }
            unreached()
        },
    };
    let c = Config {
        remote_clash_binary_url: rbu,
        remote_config_url: rcu,
        clash_config_root: root,
    };
    proof {
        assert(spec_parse_clash(raw@)->Some_0 =~= c@);
    }
    c
}

/// Validate the predecessor settings: `raw` is `None` when the file is
/// missing (a scaffold is owed), else the two remote URLs must be non-empty,
/// checked in the order binary URL, then config URL.
pub fn validate_clashrup_config(raw: Option<&Vec<u8>>) -> (r: Result<Config, ClashrupConfigError>)
    requires
        raw is Some ==> spec_parse_clash(raw->Some_0@) is Some,
    ensures
        match raw {
            None => r == Err::<Config, ClashrupConfigError>(ClashrupConfigError::ConfigMissingError),
            Some(t) => {
                let c = spec_parse_clash(t@)->Some_0;
                if c.remote_clash_binary_url.len() == 0 {
                    r == Err::<Config, ClashrupConfigError>(
                        ClashrupConfigError::RemoteClashBinaryUrlMissingError,
                    )
                } else if c.remote_config_url.len() == 0 {
                    r == Err::<Config, ClashrupConfigError>(
                        ClashrupConfigError::RemoteConfigUrlMissingError,
                    )
                } else {
                    r is Ok && r->Ok_0@ == c
                }
            },
        },
{
    let t = match raw {
        None => {
            return Err(ClashrupConfigError::ConfigMissingError);
        },
        Some(t) => t,
    };
    let c = parse_config(t);
    if c.remote_clash_binary_url.len() == 0 {
        return Err(ClashrupConfigError::RemoteClashBinaryUrlMissingError);
    }
    if c.remote_config_url.len() == 0 {
        return Err(ClashrupConfigError::RemoteConfigUrlMissingError);
    }
    Ok(c)
}

/// The service-manager unit text that runs the daemon: a fixed template
/// with the binary path and the configuration directory substituted.
pub fn create_clash_service(clash_binary_path: &Vec<u8>, clash_config_path: &Vec<u8>) -> (r: Vec<
    u8,
>)
    ensures
        r@ == svc_head() + clash_binary_path@ + svc_mid() + clash_config_path@ + svc_tail(),
{
    let mut r = svc_head_v();
    crate::bytes::append_bytes(&mut r, clash_binary_path);
    crate::bytes::append_bytes(&mut r, &svc_mid_v());
    crate::bytes::append_bytes(&mut r, clash_config_path);
    crate::bytes::append_bytes(&mut r, &svc_tail_v());
    r
}

} // verus!
