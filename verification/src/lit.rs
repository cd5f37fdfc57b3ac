use vstd::prelude::*;
use crate::bytes::no_byte;

verus! {

// Byte-string literals: the fixed key names, enum words, defaults and
// template fragments of the two text formats, as spec sequences with
// matching executable constructors.

// 'remote_mihomo_binary_url'
pub open spec fn tk_remote_mihomo_binary_url() -> Seq<u8> {
    seq![114u8, 101, 109, 111, 116, 101, 95, 109, 105, 104, 111, 109, 111, 95, 98, 105, 110, 97, 114, 121, 95, 117, 114, 108]
}

// 'remote_config_url'
pub open spec fn tk_remote_config_url() -> Seq<u8> {
    seq![114u8, 101, 109, 111, 116, 101, 95, 99, 111, 110, 102, 105, 103, 95, 117, 114, 108]
}

// 'mihomo_binary_path'
pub open spec fn tk_mihomo_binary_path() -> Seq<u8> {
    seq![109u8, 105, 104, 111, 109, 111, 95, 98, 105, 110, 97, 114, 121, 95, 112, 97, 116, 104]
}

// 'mihomo_config_root'
pub open spec fn tk_mihomo_config_root() -> Seq<u8> {
    seq![109u8, 105, 104, 111, 109, 111, 95, 99, 111, 110, 102, 105, 103, 95, 114, 111, 111, 116]
}

// 'user_systemd_root'
pub open spec fn tk_user_systemd_root() -> Seq<u8> {
    seq![117u8, 115, 101, 114, 95, 115, 121, 115, 116, 101, 109, 100, 95, 114, 111, 111, 116]
}

// '[mihomo_config]'
pub open spec fn tk_header_mihomo_config() -> Seq<u8> {
    seq![91u8, 109, 105, 104, 111, 109, 111, 95, 99, 111, 110, 102, 105, 103, 93]
}

// 'port'
pub open spec fn tk_port() -> Seq<u8> {
    seq![112u8, 111, 114, 116]
}

// 'socks_port'
pub open spec fn tk_socks_port() -> Seq<u8> {
    seq![115u8, 111, 99, 107, 115, 95, 112, 111, 114, 116]
}

// 'allow_lan'
pub open spec fn tk_allow_lan() -> Seq<u8> {
    seq![97u8, 108, 108, 111, 119, 95, 108, 97, 110]
}

// 'bind_address'
pub open spec fn tk_bind_address() -> Seq<u8> {
    seq![98u8, 105, 110, 100, 95, 97, 100, 100, 114, 101, 115, 115]
}

// 'mode'
pub open spec fn tk_mode() -> Seq<u8> {
    seq![109u8, 111, 100, 101]
}

// 'log_level'
pub open spec fn tk_log_level() -> Seq<u8> {
    seq![108u8, 111, 103, 95, 108, 101, 118, 101, 108]
}

// 'ipv6'
pub open spec fn tk_ipv6() -> Seq<u8> {
    seq![105u8, 112, 118, 54]
}

// 'external_controller'
pub open spec fn tk_external_controller() -> Seq<u8> {
    seq![101u8, 120, 116, 101, 114, 110, 97, 108, 95, 99, 111, 110, 116, 114, 111, 108, 108, 101, 114]
}

// 'external_ui'
pub open spec fn tk_external_ui() -> Seq<u8> {
    seq![101u8, 120, 116, 101, 114, 110, 97, 108, 95, 117, 105]
}

// 'secret'
pub open spec fn tk_secret() -> Seq<u8> {
    seq![115u8, 101, 99, 114, 101, 116]
}

// 'port'
pub open spec fn yk_port() -> Seq<u8> {
    seq![112u8, 111, 114, 116]
}

// 'socks-port'
pub open spec fn yk_socks_port() -> Seq<u8> {
    seq![115u8, 111, 99, 107, 115, 45, 112, 111, 114, 116]
}

// 'allow-lan'
pub open spec fn yk_allow_lan() -> Seq<u8> {
    seq![97u8, 108, 108, 111, 119, 45, 108, 97, 110]
}

// 'bind-address'
pub open spec fn yk_bind_address() -> Seq<u8> {
    seq![98u8, 105, 110, 100, 45, 97, 100, 100, 114, 101, 115, 115]
}

// 'mode'
pub open spec fn yk_mode() -> Seq<u8> {
    seq![109u8, 111, 100, 101]
}

// 'log-level'
pub open spec fn yk_log_level() -> Seq<u8> {
    seq![108u8, 111, 103, 45, 108, 101, 118, 101, 108]
}

// 'ipv6'
pub open spec fn yk_ipv6() -> Seq<u8> {
    seq![105u8, 112, 118, 54]
}

// 'external-controller'
pub open spec fn yk_external_controller() -> Seq<u8> {
    seq![101u8, 120, 116, 101, 114, 110, 97, 108, 45, 99, 111, 110, 116, 114, 111, 108, 108, 101, 114]
}

// 'external-ui'
pub open spec fn yk_external_ui() -> Seq<u8> {
    seq![101u8, 120, 116, 101, 114, 110, 97, 108, 45, 117, 105]
}

// 'secret'
pub open spec fn yk_secret() -> Seq<u8> {
    seq![115u8, 101, 99, 114, 101, 116]
}

// 'global'
pub open spec fn w_global() -> Seq<u8> {
    seq![103u8, 108, 111, 98, 97, 108]
}

// 'rule'
pub open spec fn w_rule() -> Seq<u8> {
    seq![114u8, 117, 108, 101]
}

// 'direct'
pub open spec fn w_direct() -> Seq<u8> {
    seq![100u8, 105, 114, 101, 99, 116]
}

// 'silent'
pub open spec fn w_silent() -> Seq<u8> {
    seq![115u8, 105, 108, 101, 110, 116]
}

// 'error'
pub open spec fn w_error() -> Seq<u8> {
    seq![101u8, 114, 114, 111, 114]
}

// 'warning'
pub open spec fn w_warning() -> Seq<u8> {
    seq![119u8, 97, 114, 110, 105, 110, 103]
}

// 'info'
pub open spec fn w_info() -> Seq<u8> {
    seq![105u8, 110, 102, 111]
}

// 'debug'
pub open spec fn w_debug() -> Seq<u8> {
    seq![100u8, 101, 98, 117, 103]
}

// 'true'
pub open spec fn w_true() -> Seq<u8> {
    seq![116u8, 114, 117, 101]
}

// 'false'
pub open spec fn w_false() -> Seq<u8> {
    seq![102u8, 97, 108, 115, 101]
}

// '~/.local/bin/mihomo'
pub open spec fn d_binary_path() -> Seq<u8> {
    seq![126u8, 47, 46, 108, 111, 99, 97, 108, 47, 98, 105, 110, 47, 109, 105, 104, 111, 109, 111]
}

// '~/.config/mihomo'
pub open spec fn d_config_root() -> Seq<u8> {
    seq![126u8, 47, 46, 99, 111, 110, 102, 105, 103, 47, 109, 105, 104, 111, 109, 111]
}

// '~/.config/systemd/user'
pub open spec fn d_systemd_root() -> Seq<u8> {
    seq![126u8, 47, 46, 99, 111, 110, 102, 105, 103, 47, 115, 121, 115, 116, 101, 109, 100, 47, 117, 115, 101, 114]
}

// '*'
pub open spec fn d_bind_address() -> Seq<u8> {
    seq![42u8]
}

// '0.0.0.0:9090'
pub open spec fn d_external_controller() -> Seq<u8> {
    seq![48u8, 46, 48, 46, 48, 46, 48, 58, 57, 48, 57, 48]
}

// 'ui'
pub open spec fn d_external_ui() -> Seq<u8> {
    seq![117u8, 105]
}

// 'remote_clash_binary_url'
pub open spec fn ck_remote_clash_binary_url() -> Seq<u8> {
    seq![114u8, 101, 109, 111, 116, 101, 95, 99, 108, 97, 115, 104, 95, 98, 105, 110, 97, 114, 121, 95, 117, 114, 108]
}

// 'remote_config_url'
pub open spec fn ck_remote_config_url() -> Seq<u8> {
    seq![114u8, 101, 109, 111, 116, 101, 95, 99, 111, 110, 102, 105, 103, 95, 117, 114, 108]
}

// 'clash_config_root'
pub open spec fn ck_clash_config_root() -> Seq<u8> {
    seq![99u8, 108, 97, 115, 104, 95, 99, 111, 110, 102, 105, 103, 95, 114, 111, 111, 116]
}

// '~/.config/clash'
pub open spec fn d_clash_config_root() -> Seq<u8> {
    seq![126u8, 47, 46, 99, 111, 110, 102, 105, 103, 47, 99, 108, 97, 115, 104]
}

// '[Unit]\nDescription=Clash - A rule-based tunnel in Go.\nAfter=network.target\n\n[Service]\nType=simple\nExecStart='
pub open spec fn svc_head() -> Seq<u8> {
    seq![91u8, 85, 110, 105, 116, 93, 10, 68, 101, 115, 99, 114, 105, 112, 116, 105, 111, 110, 61, 67, 108, 97, 115, 104, 32, 45, 32, 65, 32, 114, 117, 108, 101, 45, 98, 97, 115, 101, 100, 32, 116, 117, 110, 110, 101, 108, 32, 105, 110, 32, 71, 111, 46, 10, 65, 102, 116, 101, 114, 61, 110, 101, 116, 119, 111, 114, 107, 46, 116, 97, 114, 103, 101, 116, 10, 10, 91, 83, 101, 114, 118, 105, 99, 101, 93, 10, 84, 121, 112, 101, 61, 115, 105, 109, 112, 108, 101, 10, 69, 120, 101, 99, 83, 116, 97, 114, 116, 61]
}

// ' -d '
pub open spec fn svc_mid() -> Seq<u8> {
    seq![32u8, 45, 100, 32]
}

// '\nRestart=always\n\n[Install]\nWantedBy=multi-user.target'
pub open spec fn svc_tail() -> Seq<u8> {
    seq![10u8, 82, 101, 115, 116, 97, 114, 116, 61, 97, 108, 119, 97, 121, 115, 10, 10, 91, 73, 110, 115, 116, 97, 108, 108, 93, 10, 87, 97, 110, 116, 101, 100, 66, 121, 61, 109, 117, 108, 116, 105, 45, 117, 115, 101, 114, 46, 116, 97, 114, 103, 101, 116]
}

pub fn tk_remote_mihomo_binary_url_v() -> (r: Vec<u8>)
    ensures
        r@ == tk_remote_mihomo_binary_url(),
{
    let r: Vec<u8> = vec![114u8, 101, 109, 111, 116, 101, 95, 109, 105, 104, 111, 109, 111, 95, 98, 105, 110, 97, 114, 121, 95, 117, 114, 108];
    proof {
        assert(r@ =~= tk_remote_mihomo_binary_url());
    }
    r
}

pub fn tk_remote_config_url_v() -> (r: Vec<u8>)
    ensures
        r@ == tk_remote_config_url(),
{
    let r: Vec<u8> = vec![114u8, 101, 109, 111, 116, 101, 95, 99, 111, 110, 102, 105, 103, 95, 117, 114, 108];
    proof {
        assert(r@ =~= tk_remote_config_url());
    }
    r
}

pub fn tk_mihomo_binary_path_v() -> (r: Vec<u8>)
    ensures
        r@ == tk_mihomo_binary_path(),
{
    let r: Vec<u8> = vec![109u8, 105, 104, 111, 109, 111, 95, 98, 105, 110, 97, 114, 121, 95, 112, 97, 116, 104];
    proof {
        assert(r@ =~= tk_mihomo_binary_path());
    }
    r
}

pub fn tk_mihomo_config_root_v() -> (r: Vec<u8>)
    ensures
        r@ == tk_mihomo_config_root(),
{
    let r: Vec<u8> = vec![109u8, 105, 104, 111, 109, 111, 95, 99, 111, 110, 102, 105, 103, 95, 114, 111, 111, 116];
    proof {
        assert(r@ =~= tk_mihomo_config_root());
    }
    r
}

pub fn tk_user_systemd_root_v() -> (r: Vec<u8>)
    ensures
        r@ == tk_user_systemd_root(),
{
    let r: Vec<u8> = vec![117u8, 115, 101, 114, 95, 115, 121, 115, 116, 101, 109, 100, 95, 114, 111, 111, 116];
    proof {
        assert(r@ =~= tk_user_systemd_root());
    }
    r
}

pub fn tk_header_mihomo_config_v() -> (r: Vec<u8>)
    ensures
        r@ == tk_header_mihomo_config(),
{
    let r: Vec<u8> = vec![91u8, 109, 105, 104, 111, 109, 111, 95, 99, 111, 110, 102, 105, 103, 93];
    proof {
        assert(r@ =~= tk_header_mihomo_config());
    }
    r
}

pub fn tk_port_v() -> (r: Vec<u8>)
    ensures
        r@ == tk_port(),
{
    let r: Vec<u8> = vec![112u8, 111, 114, 116];
    proof {
        assert(r@ =~= tk_port());
    }
    r
}

pub fn tk_socks_port_v() -> (r: Vec<u8>)
    ensures
        r@ == tk_socks_port(),
{
    let r: Vec<u8> = vec![115u8, 111, 99, 107, 115, 95, 112, 111, 114, 116];
    proof {
        assert(r@ =~= tk_socks_port());
    }
    r
}

pub fn tk_allow_lan_v() -> (r: Vec<u8>)
    ensures
        r@ == tk_allow_lan(),
{
    let r: Vec<u8> = vec![97u8, 108, 108, 111, 119, 95, 108, 97, 110];
    proof {
        assert(r@ =~= tk_allow_lan());
    }
    r
}

pub fn tk_bind_address_v() -> (r: Vec<u8>)
    ensures
        r@ == tk_bind_address(),
{
    let r: Vec<u8> = vec![98u8, 105, 110, 100, 95, 97, 100, 100, 114, 101, 115, 115];
    proof {
        assert(r@ =~= tk_bind_address());
    }
    r
}

pub fn tk_mode_v() -> (r: Vec<u8>)
    ensures
        r@ == tk_mode(),
{
    let r: Vec<u8> = vec![109u8, 111, 100, 101];
    proof {
        assert(r@ =~= tk_mode());
    }
    r
}

pub fn tk_log_level_v() -> (r: Vec<u8>)
    ensures
        r@ == tk_log_level(),
{
    let r: Vec<u8> = vec![108u8, 111, 103, 95, 108, 101, 118, 101, 108];
    proof {
        assert(r@ =~= tk_log_level());
    }
    r
}

pub fn tk_ipv6_v() -> (r: Vec<u8>)
    ensures
        r@ == tk_ipv6(),
{
    let r: Vec<u8> = vec![105u8, 112, 118, 54];
    proof {
        assert(r@ =~= tk_ipv6());
    }
    r
}

pub fn tk_external_controller_v() -> (r: Vec<u8>)
    ensures
        r@ == tk_external_controller(),
{
    let r: Vec<u8> = vec![101u8, 120, 116, 101, 114, 110, 97, 108, 95, 99, 111, 110, 116, 114, 111, 108, 108, 101, 114];
    proof {
        assert(r@ =~= tk_external_controller());
    }
    r
}

pub fn tk_external_ui_v() -> (r: Vec<u8>)
    ensures
        r@ == tk_external_ui(),
{
    let r: Vec<u8> = vec![101u8, 120, 116, 101, 114, 110, 97, 108, 95, 117, 105];
    proof {
        assert(r@ =~= tk_external_ui());
    }
    r
}

pub fn tk_secret_v() -> (r: Vec<u8>)
    ensures
        r@ == tk_secret(),
{
    let r: Vec<u8> = vec![115u8, 101, 99, 114, 101, 116];
    proof {
        assert(r@ =~= tk_secret());
    }
    r
}

pub fn yk_port_v() -> (r: Vec<u8>)
    ensures
        r@ == yk_port(),
{
    let r: Vec<u8> = vec![112u8, 111, 114, 116];
    proof {
        assert(r@ =~= yk_port());
    }
    r
}

pub fn yk_socks_port_v() -> (r: Vec<u8>)
    ensures
        r@ == yk_socks_port(),
{
    let r: Vec<u8> = vec![115u8, 111, 99, 107, 115, 45, 112, 111, 114, 116];
    proof {
        assert(r@ =~= yk_socks_port());
    }
    r
}

pub fn yk_allow_lan_v() -> (r: Vec<u8>)
    ensures
        r@ == yk_allow_lan(),
{
    let r: Vec<u8> = vec![97u8, 108, 108, 111, 119, 45, 108, 97, 110];
    proof {
        assert(r@ =~= yk_allow_lan());
    }
    r
}

pub fn yk_bind_address_v() -> (r: Vec<u8>)
    ensures
        r@ == yk_bind_address(),
{
    let r: Vec<u8> = vec![98u8, 105, 110, 100, 45, 97, 100, 100, 114, 101, 115, 115];
    proof {
        assert(r@ =~= yk_bind_address());
    }
    r
}

pub fn yk_mode_v() -> (r: Vec<u8>)
    ensures
        r@ == yk_mode(),
{
    let r: Vec<u8> = vec![109u8, 111, 100, 101];
    proof {
        assert(r@ =~= yk_mode());
    }
    r
}

pub fn yk_log_level_v() -> (r: Vec<u8>)
    ensures
        r@ == yk_log_level(),
{
    let r: Vec<u8> = vec![108u8, 111, 103, 45, 108, 101, 118, 101, 108];
    proof {
        assert(r@ =~= yk_log_level());
    }
    r
}

pub fn yk_ipv6_v() -> (r: Vec<u8>)
    ensures
        r@ == yk_ipv6(),
{
    let r: Vec<u8> = vec![105u8, 112, 118, 54];
    proof {
        assert(r@ =~= yk_ipv6());
    }
    r
}

pub fn yk_external_controller_v() -> (r: Vec<u8>)
    ensures
        r@ == yk_external_controller(),
{
    let r: Vec<u8> = vec![101u8, 120, 116, 101, 114, 110, 97, 108, 45, 99, 111, 110, 116, 114, 111, 108, 108, 101, 114];
    proof {
        assert(r@ =~= yk_external_controller());
    }
    r
}

pub fn yk_external_ui_v() -> (r: Vec<u8>)
    ensures
        r@ == yk_external_ui(),
{
    let r: Vec<u8> = vec![101u8, 120, 116, 101, 114, 110, 97, 108, 45, 117, 105];
    proof {
        assert(r@ =~= yk_external_ui());
    }
    r
}

pub fn yk_secret_v() -> (r: Vec<u8>)
    ensures
        r@ == yk_secret(),
{
    let r: Vec<u8> = vec![115u8, 101, 99, 114, 101, 116];
    proof {
        assert(r@ =~= yk_secret());
    }
    r
}

pub fn w_global_v() -> (r: Vec<u8>)
    ensures
        r@ == w_global(),
{
    let r: Vec<u8> = vec![103u8, 108, 111, 98, 97, 108];
    proof {
        assert(r@ =~= w_global());
    }
    r
}

pub fn w_rule_v() -> (r: Vec<u8>)
    ensures
        r@ == w_rule(),
{
    let r: Vec<u8> = vec![114u8, 117, 108, 101];
    proof {
        assert(r@ =~= w_rule());
    }
    r
}

pub fn w_direct_v() -> (r: Vec<u8>)
    ensures
        r@ == w_direct(),
{
    let r: Vec<u8> = vec![100u8, 105, 114, 101, 99, 116];
    proof {
        assert(r@ =~= w_direct());
    }
    r
}

pub fn w_silent_v() -> (r: Vec<u8>)
    ensures
        r@ == w_silent(),
{
    let r: Vec<u8> = vec![115u8, 105, 108, 101, 110, 116];
    proof {
        assert(r@ =~= w_silent());
    }
    r
}

pub fn w_error_v() -> (r: Vec<u8>)
    ensures
        r@ == w_error(),
{
    let r: Vec<u8> = vec![101u8, 114, 114, 111, 114];
    proof {
        assert(r@ =~= w_error());
    }
    r
}

pub fn w_warning_v() -> (r: Vec<u8>)
    ensures
        r@ == w_warning(),
{
    let r: Vec<u8> = vec![119u8, 97, 114, 110, 105, 110, 103];
    proof {
        assert(r@ =~= w_warning());
    }
    r
}

pub fn w_info_v() -> (r: Vec<u8>)
    ensures
        r@ == w_info(),
{
    let r: Vec<u8> = vec![105u8, 110, 102, 111];
    proof {
        assert(r@ =~= w_info());
    }
    r
}

pub fn w_debug_v() -> (r: Vec<u8>)
    ensures
        r@ == w_debug(),
{
    let r: Vec<u8> = vec![100u8, 101, 98, 117, 103];
    proof {
        assert(r@ =~= w_debug());
    }
    r
}

pub fn w_true_v() -> (r: Vec<u8>)
    ensures
        r@ == w_true(),
{
    let r: Vec<u8> = vec![116u8, 114, 117, 101];
    proof {
        assert(r@ =~= w_true());
    }
    r
}

pub fn w_false_v() -> (r: Vec<u8>)
    ensures
        r@ == w_false(),
{
    let r: Vec<u8> = vec![102u8, 97, 108, 115, 101];
    proof {
        assert(r@ =~= w_false());
    }
    r
}

pub fn d_binary_path_v() -> (r: Vec<u8>)
    ensures
        r@ == d_binary_path(),
{
    let r: Vec<u8> = vec![126u8, 47, 46, 108, 111, 99, 97, 108, 47, 98, 105, 110, 47, 109, 105, 104, 111, 109, 111];
    proof {
        assert(r@ =~= d_binary_path());
    }
    r
}

pub fn d_config_root_v() -> (r: Vec<u8>)
    ensures
        r@ == d_config_root(),
{
    let r: Vec<u8> = vec![126u8, 47, 46, 99, 111, 110, 102, 105, 103, 47, 109, 105, 104, 111, 109, 111];
    proof {
        assert(r@ =~= d_config_root());
    }
    r
}

pub fn d_systemd_root_v() -> (r: Vec<u8>)
    ensures
        r@ == d_systemd_root(),
{
    let r: Vec<u8> = vec![126u8, 47, 46, 99, 111, 110, 102, 105, 103, 47, 115, 121, 115, 116, 101, 109, 100, 47, 117, 115, 101, 114];
    proof {
        assert(r@ =~= d_systemd_root());
    }
    r
}

pub fn d_bind_address_v() -> (r: Vec<u8>)
    ensures
        r@ == d_bind_address(),
{
    let r: Vec<u8> = vec![42u8];
    proof {
        assert(r@ =~= d_bind_address());
    }
    r
}

pub fn d_external_controller_v() -> (r: Vec<u8>)
    ensures
        r@ == d_external_controller(),
{
    let r: Vec<u8> = vec![48u8, 46, 48, 46, 48, 46, 48, 58, 57, 48, 57, 48];
    proof {
        assert(r@ =~= d_external_controller());
    }
    r
}

pub fn d_external_ui_v() -> (r: Vec<u8>)
    ensures
        r@ == d_external_ui(),
{
    let r: Vec<u8> = vec![117u8, 105];
    proof {
        assert(r@ =~= d_external_ui());
    }
    r
}

pub fn ck_remote_clash_binary_url_v() -> (r: Vec<u8>)
    ensures
        r@ == ck_remote_clash_binary_url(),
{
    let r: Vec<u8> = vec![114u8, 101, 109, 111, 116, 101, 95, 99, 108, 97, 115, 104, 95, 98, 105, 110, 97, 114, 121, 95, 117, 114, 108];
    proof {
        assert(r@ =~= ck_remote_clash_binary_url());
    }
    r
}

pub fn ck_remote_config_url_v() -> (r: Vec<u8>)
    ensures
        r@ == ck_remote_config_url(),
{
    let r: Vec<u8> = vec![114u8, 101, 109, 111, 116, 101, 95, 99, 111, 110, 102, 105, 103, 95, 117, 114, 108];
    proof {
        assert(r@ =~= ck_remote_config_url());
    }
    r
}

pub fn ck_clash_config_root_v() -> (r: Vec<u8>)
    ensures
        r@ == ck_clash_config_root(),
{
    let r: Vec<u8> = vec![99u8, 108, 97, 115, 104, 95, 99, 111, 110, 102, 105, 103, 95, 114, 111, 111, 116];
    proof {
        assert(r@ =~= ck_clash_config_root());
    }
    r
}

pub fn d_clash_config_root_v() -> (r: Vec<u8>)
    ensures
        r@ == d_clash_config_root(),
{
    let r: Vec<u8> = vec![126u8, 47, 46, 99, 111, 110, 102, 105, 103, 47, 99, 108, 97, 115, 104];
    proof {
        assert(r@ =~= d_clash_config_root());
    }
    r
}

pub fn svc_head_v() -> (r: Vec<u8>)
    ensures
        r@ == svc_head(),
{
    let r: Vec<u8> = vec![91u8, 85, 110, 105, 116, 93, 10, 68, 101, 115, 99, 114, 105, 112, 116, 105, 111, 110, 61, 67, 108, 97, 115, 104, 32, 45, 32, 65, 32, 114, 117, 108, 101, 45, 98, 97, 115, 101, 100, 32, 116, 117, 110, 110, 101, 108, 32, 105, 110, 32, 71, 111, 46, 10, 65, 102, 116, 101, 114, 61, 110, 101, 116, 119, 111, 114, 107, 46, 116, 97, 114, 103, 101, 116, 10, 10, 91, 83, 101, 114, 118, 105, 99, 101, 93, 10, 84, 121, 112, 101, 61, 115, 105, 109, 112, 108, 101, 10, 69, 120, 101, 99, 83, 116, 97, 114, 116, 61];
    proof {
        assert(r@ =~= svc_head());
    }
    r
}

pub fn svc_mid_v() -> (r: Vec<u8>)
    ensures
        r@ == svc_mid(),
{
    let r: Vec<u8> = vec![32u8, 45, 100, 32];
    proof {
        assert(r@ =~= svc_mid());
    }
    r
}

pub fn svc_tail_v() -> (r: Vec<u8>)
    ensures
        r@ == svc_tail(),
{
    let r: Vec<u8> = vec![10u8, 82, 101, 115, 116, 97, 114, 116, 61, 97, 108, 119, 97, 121, 115, 10, 10, 91, 73, 110, 115, 116, 97, 108, 108, 93, 10, 87, 97, 110, 116, 101, 100, 66, 121, 61, 109, 117, 108, 116, 105, 45, 117, 115, 101, 114, 46, 116, 97, 114, 103, 101, 116];
    proof {
        assert(r@ =~= svc_tail());
    }
    r
}

/// The toml top keys are pairwise distinct.
pub proof fn lemma_toml_top_keys_distinct()
    ensures
        tk_remote_mihomo_binary_url() != tk_remote_config_url(),
        tk_remote_mihomo_binary_url() != tk_mihomo_binary_path(),
        tk_remote_mihomo_binary_url() != tk_mihomo_config_root(),
        tk_remote_mihomo_binary_url() != tk_user_systemd_root(),
        tk_remote_config_url() != tk_mihomo_binary_path(),
        tk_remote_config_url() != tk_mihomo_config_root(),
        tk_remote_config_url() != tk_user_systemd_root(),
        tk_mihomo_binary_path() != tk_mihomo_config_root(),
        tk_mihomo_binary_path() != tk_user_systemd_root(),
        tk_mihomo_config_root() != tk_user_systemd_root(),
{
    assert(tk_remote_mihomo_binary_url().len() != tk_remote_config_url().len());
    assert(tk_remote_mihomo_binary_url() != tk_remote_config_url());
    assert(tk_remote_mihomo_binary_url().len() != tk_mihomo_binary_path().len());
    assert(tk_remote_mihomo_binary_url() != tk_mihomo_binary_path());
    assert(tk_remote_mihomo_binary_url().len() != tk_mihomo_config_root().len());
    assert(tk_remote_mihomo_binary_url() != tk_mihomo_config_root());
    assert(tk_remote_mihomo_binary_url().len() != tk_user_systemd_root().len());
    assert(tk_remote_mihomo_binary_url() != tk_user_systemd_root());
    assert(tk_remote_config_url().len() != tk_mihomo_binary_path().len());
    assert(tk_remote_config_url() != tk_mihomo_binary_path());
    assert(tk_remote_config_url().len() != tk_mihomo_config_root().len());
    assert(tk_remote_config_url() != tk_mihomo_config_root());
    assert(tk_remote_config_url()[0] != tk_user_systemd_root()[0]);
    assert(tk_remote_config_url() != tk_user_systemd_root());
    assert(tk_mihomo_binary_path()[7] != tk_mihomo_config_root()[7]);
    assert(tk_mihomo_binary_path() != tk_mihomo_config_root());
    assert(tk_mihomo_binary_path().len() != tk_user_systemd_root().len());
    assert(tk_mihomo_binary_path() != tk_user_systemd_root());
    assert(tk_mihomo_config_root().len() != tk_user_systemd_root().len());
    assert(tk_mihomo_config_root() != tk_user_systemd_root());
}

/// The toml table keys are pairwise distinct.
pub proof fn lemma_toml_table_keys_distinct()
    ensures
        tk_port() != tk_socks_port(),
        tk_port() != tk_allow_lan(),
        tk_port() != tk_bind_address(),
        tk_port() != tk_mode(),
        tk_port() != tk_log_level(),
        tk_port() != tk_ipv6(),
        tk_port() != tk_external_controller(),
        tk_port() != tk_external_ui(),
        tk_port() != tk_secret(),
        tk_socks_port() != tk_allow_lan(),
        tk_socks_port() != tk_bind_address(),
        tk_socks_port() != tk_mode(),
        tk_socks_port() != tk_log_level(),
        tk_socks_port() != tk_ipv6(),
        tk_socks_port() != tk_external_controller(),
        tk_socks_port() != tk_external_ui(),
        tk_socks_port() != tk_secret(),
        tk_allow_lan() != tk_bind_address(),
        tk_allow_lan() != tk_mode(),
        tk_allow_lan() != tk_log_level(),
        tk_allow_lan() != tk_ipv6(),
        tk_allow_lan() != tk_external_controller(),
        tk_allow_lan() != tk_external_ui(),
        tk_allow_lan() != tk_secret(),
        tk_bind_address() != tk_mode(),
        tk_bind_address() != tk_log_level(),
        tk_bind_address() != tk_ipv6(),
        tk_bind_address() != tk_external_controller(),
        tk_bind_address() != tk_external_ui(),
        tk_bind_address() != tk_secret(),
        tk_mode() != tk_log_level(),
        tk_mode() != tk_ipv6(),
        tk_mode() != tk_external_controller(),
        tk_mode() != tk_external_ui(),
        tk_mode() != tk_secret(),
        tk_log_level() != tk_ipv6(),
        tk_log_level() != tk_external_controller(),
        tk_log_level() != tk_external_ui(),
        tk_log_level() != tk_secret(),
        tk_ipv6() != tk_external_controller(),
        tk_ipv6() != tk_external_ui(),
        tk_ipv6() != tk_secret(),
        tk_external_controller() != tk_external_ui(),
        tk_external_controller() != tk_secret(),
        tk_external_ui() != tk_secret(),
{
    assert(tk_port().len() != tk_socks_port().len());
    assert(tk_port() != tk_socks_port());
    assert(tk_port().len() != tk_allow_lan().len());
    assert(tk_port() != tk_allow_lan());
    assert(tk_port().len() != tk_bind_address().len());
    assert(tk_port() != tk_bind_address());
    assert(tk_port()[0] != tk_mode()[0]);
    assert(tk_port() != tk_mode());
    assert(tk_port().len() != tk_log_level().len());
    assert(tk_port() != tk_log_level());
    assert(tk_port()[0] != tk_ipv6()[0]);
    assert(tk_port() != tk_ipv6());
    assert(tk_port().len() != tk_external_controller().len());
    assert(tk_port() != tk_external_controller());
    assert(tk_port().len() != tk_external_ui().len());
    assert(tk_port() != tk_external_ui());
    assert(tk_port().len() != tk_secret().len());
    assert(tk_port() != tk_secret());
    assert(tk_socks_port().len() != tk_allow_lan().len());
    assert(tk_socks_port() != tk_allow_lan());
    assert(tk_socks_port().len() != tk_bind_address().len());
    assert(tk_socks_port() != tk_bind_address());
    assert(tk_socks_port().len() != tk_mode().len());
    assert(tk_socks_port() != tk_mode());
    assert(tk_socks_port().len() != tk_log_level().len());
    assert(tk_socks_port() != tk_log_level());
    assert(tk_socks_port().len() != tk_ipv6().len());
    assert(tk_socks_port() != tk_ipv6());
    assert(tk_socks_port().len() != tk_external_controller().len());
    assert(tk_socks_port() != tk_external_controller());
    assert(tk_socks_port().len() != tk_external_ui().len());
    assert(tk_socks_port() != tk_external_ui());
    assert(tk_socks_port().len() != tk_secret().len());
    assert(tk_socks_port() != tk_secret());
    assert(tk_allow_lan().len() != tk_bind_address().len());
    assert(tk_allow_lan() != tk_bind_address());
    assert(tk_allow_lan().len() != tk_mode().len());
    assert(tk_allow_lan() != tk_mode());
    assert(tk_allow_lan()[0] != tk_log_level()[0]);
    assert(tk_allow_lan() != tk_log_level());
    assert(tk_allow_lan().len() != tk_ipv6().len());
    assert(tk_allow_lan() != tk_ipv6());
    assert(tk_allow_lan().len() != tk_external_controller().len());
    assert(tk_allow_lan() != tk_external_controller());
    assert(tk_allow_lan().len() != tk_external_ui().len());
    assert(tk_allow_lan() != tk_external_ui());
    assert(tk_allow_lan().len() != tk_secret().len());
    assert(tk_allow_lan() != tk_secret());
    assert(tk_bind_address().len() != tk_mode().len());
    assert(tk_bind_address() != tk_mode());
    assert(tk_bind_address().len() != tk_log_level().len());
    assert(tk_bind_address() != tk_log_level());
    assert(tk_bind_address().len() != tk_ipv6().len());
    assert(tk_bind_address() != tk_ipv6());
    assert(tk_bind_address().len() != tk_external_controller().len());
    assert(tk_bind_address() != tk_external_controller());
    assert(tk_bind_address().len() != tk_external_ui().len());
    assert(tk_bind_address() != tk_external_ui());
    assert(tk_bind_address().len() != tk_secret().len());
    assert(tk_bind_address() != tk_secret());
    assert(tk_mode().len() != tk_log_level().len());
    assert(tk_mode() != tk_log_level());
    assert(tk_mode()[0] != tk_ipv6()[0]);
    assert(tk_mode() != tk_ipv6());
    assert(tk_mode().len() != tk_external_controller().len());
    assert(tk_mode() != tk_external_controller());
    assert(tk_mode().len() != tk_external_ui().len());
    assert(tk_mode() != tk_external_ui());
    assert(tk_mode().len() != tk_secret().len());
    assert(tk_mode() != tk_secret());
    assert(tk_log_level().len() != tk_ipv6().len());
    assert(tk_log_level() != tk_ipv6());
    assert(tk_log_level().len() != tk_external_controller().len());
    assert(tk_log_level() != tk_external_controller());
    assert(tk_log_level().len() != tk_external_ui().len());
    assert(tk_log_level() != tk_external_ui());
    assert(tk_log_level().len() != tk_secret().len());
    assert(tk_log_level() != tk_secret());
    assert(tk_ipv6().len() != tk_external_controller().len());
    assert(tk_ipv6() != tk_external_controller());
    assert(tk_ipv6().len() != tk_external_ui().len());
    assert(tk_ipv6() != tk_external_ui());
    assert(tk_ipv6().len() != tk_secret().len());
    assert(tk_ipv6() != tk_secret());
    assert(tk_external_controller().len() != tk_external_ui().len());
    assert(tk_external_controller() != tk_external_ui());
    assert(tk_external_controller().len() != tk_secret().len());
    assert(tk_external_controller() != tk_secret());
    assert(tk_external_ui().len() != tk_secret().len());
    assert(tk_external_ui() != tk_secret());
}

/// The yaml keys are pairwise distinct.
pub proof fn lemma_yaml_keys_distinct()
    ensures
        yk_port() != yk_socks_port(),
        yk_port() != yk_allow_lan(),
        yk_port() != yk_bind_address(),
        yk_port() != yk_mode(),
        yk_port() != yk_log_level(),
        yk_port() != yk_ipv6(),
        yk_port() != yk_external_controller(),
        yk_port() != yk_external_ui(),
        yk_port() != yk_secret(),
        yk_socks_port() != yk_allow_lan(),
        yk_socks_port() != yk_bind_address(),
        yk_socks_port() != yk_mode(),
        yk_socks_port() != yk_log_level(),
        yk_socks_port() != yk_ipv6(),
        yk_socks_port() != yk_external_controller(),
        yk_socks_port() != yk_external_ui(),
        yk_socks_port() != yk_secret(),
        yk_allow_lan() != yk_bind_address(),
        yk_allow_lan() != yk_mode(),
        yk_allow_lan() != yk_log_level(),
        yk_allow_lan() != yk_ipv6(),
        yk_allow_lan() != yk_external_controller(),
        yk_allow_lan() != yk_external_ui(),
        yk_allow_lan() != yk_secret(),
        yk_bind_address() != yk_mode(),
        yk_bind_address() != yk_log_level(),
        yk_bind_address() != yk_ipv6(),
        yk_bind_address() != yk_external_controller(),
        yk_bind_address() != yk_external_ui(),
        yk_bind_address() != yk_secret(),
        yk_mode() != yk_log_level(),
        yk_mode() != yk_ipv6(),
        yk_mode() != yk_external_controller(),
        yk_mode() != yk_external_ui(),
        yk_mode() != yk_secret(),
        yk_log_level() != yk_ipv6(),
        yk_log_level() != yk_external_controller(),
        yk_log_level() != yk_external_ui(),
        yk_log_level() != yk_secret(),
        yk_ipv6() != yk_external_controller(),
        yk_ipv6() != yk_external_ui(),
        yk_ipv6() != yk_secret(),
        yk_external_controller() != yk_external_ui(),
        yk_external_controller() != yk_secret(),
        yk_external_ui() != yk_secret(),
{
    assert(yk_port().len() != yk_socks_port().len());
    assert(yk_port() != yk_socks_port());
    assert(yk_port().len() != yk_allow_lan().len());
    assert(yk_port() != yk_allow_lan());
    assert(yk_port().len() != yk_bind_address().len());
    assert(yk_port() != yk_bind_address());
    assert(yk_port()[0] != yk_mode()[0]);
    assert(yk_port() != yk_mode());
    assert(yk_port().len() != yk_log_level().len());
    assert(yk_port() != yk_log_level());
    assert(yk_port()[0] != yk_ipv6()[0]);
    assert(yk_port() != yk_ipv6());
    assert(yk_port().len() != yk_external_controller().len());
    assert(yk_port() != yk_external_controller());
    assert(yk_port().len() != yk_external_ui().len());
    assert(yk_port() != yk_external_ui());
    assert(yk_port().len() != yk_secret().len());
    assert(yk_port() != yk_secret());
    assert(yk_socks_port().len() != yk_allow_lan().len());
    assert(yk_socks_port() != yk_allow_lan());
    assert(yk_socks_port().len() != yk_bind_address().len());
    assert(yk_socks_port() != yk_bind_address());
    assert(yk_socks_port().len() != yk_mode().len());
    assert(yk_socks_port() != yk_mode());
    assert(yk_socks_port().len() != yk_log_level().len());
    assert(yk_socks_port() != yk_log_level());
    assert(yk_socks_port().len() != yk_ipv6().len());
    assert(yk_socks_port() != yk_ipv6());
    assert(yk_socks_port().len() != yk_external_controller().len());
    assert(yk_socks_port() != yk_external_controller());
    assert(yk_socks_port().len() != yk_external_ui().len());
    assert(yk_socks_port() != yk_external_ui());
    assert(yk_socks_port().len() != yk_secret().len());
    assert(yk_socks_port() != yk_secret());
    assert(yk_allow_lan().len() != yk_bind_address().len());
    assert(yk_allow_lan() != yk_bind_address());
    assert(yk_allow_lan().len() != yk_mode().len());
    assert(yk_allow_lan() != yk_mode());
    assert(yk_allow_lan()[0] != yk_log_level()[0]);
    assert(yk_allow_lan() != yk_log_level());
    assert(yk_allow_lan().len() != yk_ipv6().len());
    assert(yk_allow_lan() != yk_ipv6());
    assert(yk_allow_lan().len() != yk_external_controller().len());
    assert(yk_allow_lan() != yk_external_controller());
    assert(yk_allow_lan().len() != yk_external_ui().len());
    assert(yk_allow_lan() != yk_external_ui());
    assert(yk_allow_lan().len() != yk_secret().len());
    assert(yk_allow_lan() != yk_secret());
    assert(yk_bind_address().len() != yk_mode().len());
    assert(yk_bind_address() != yk_mode());
    assert(yk_bind_address().len() != yk_log_level().len());
    assert(yk_bind_address() != yk_log_level());
    assert(yk_bind_address().len() != yk_ipv6().len());
    assert(yk_bind_address() != yk_ipv6());
    assert(yk_bind_address().len() != yk_external_controller().len());
    assert(yk_bind_address() != yk_external_controller());
    assert(yk_bind_address().len() != yk_external_ui().len());
    assert(yk_bind_address() != yk_external_ui());
    assert(yk_bind_address().len() != yk_secret().len());
    assert(yk_bind_address() != yk_secret());
    assert(yk_mode().len() != yk_log_level().len());
    assert(yk_mode() != yk_log_level());
    assert(yk_mode()[0] != yk_ipv6()[0]);
    assert(yk_mode() != yk_ipv6());
    assert(yk_mode().len() != yk_external_controller().len());
    assert(yk_mode() != yk_external_controller());
    assert(yk_mode().len() != yk_external_ui().len());
    assert(yk_mode() != yk_external_ui());
    assert(yk_mode().len() != yk_secret().len());
    assert(yk_mode() != yk_secret());
    assert(yk_log_level().len() != yk_ipv6().len());
    assert(yk_log_level() != yk_ipv6());
    assert(yk_log_level().len() != yk_external_controller().len());
    assert(yk_log_level() != yk_external_controller());
    assert(yk_log_level().len() != yk_external_ui().len());
    assert(yk_log_level() != yk_external_ui());
    assert(yk_log_level().len() != yk_secret().len());
    assert(yk_log_level() != yk_secret());
    assert(yk_ipv6().len() != yk_external_controller().len());
    assert(yk_ipv6() != yk_external_controller());
    assert(yk_ipv6().len() != yk_external_ui().len());
    assert(yk_ipv6() != yk_external_ui());
    assert(yk_ipv6().len() != yk_secret().len());
    assert(yk_ipv6() != yk_secret());
    assert(yk_external_controller().len() != yk_external_ui().len());
    assert(yk_external_controller() != yk_external_ui());
    assert(yk_external_controller().len() != yk_secret().len());
    assert(yk_external_controller() != yk_secret());
    assert(yk_external_ui().len() != yk_secret().len());
    assert(yk_external_ui() != yk_secret());
}

/// Every settings key is non-empty, free of `=`, and starts with a letter.
pub proof fn lemma_toml_key_shapes()
    ensures
        no_byte(tk_remote_mihomo_binary_url(), 61),
        tk_remote_mihomo_binary_url().len() > 0,
        97 <= tk_remote_mihomo_binary_url()[0] <= 122,
        no_byte(tk_remote_config_url(), 61),
        tk_remote_config_url().len() > 0,
        97 <= tk_remote_config_url()[0] <= 122,
        no_byte(tk_mihomo_binary_path(), 61),
        tk_mihomo_binary_path().len() > 0,
        97 <= tk_mihomo_binary_path()[0] <= 122,
        no_byte(tk_mihomo_config_root(), 61),
        tk_mihomo_config_root().len() > 0,
        97 <= tk_mihomo_config_root()[0] <= 122,
        no_byte(tk_user_systemd_root(), 61),
        tk_user_systemd_root().len() > 0,
        97 <= tk_user_systemd_root()[0] <= 122,
        no_byte(tk_port(), 61),
        tk_port().len() > 0,
        97 <= tk_port()[0] <= 122,
        no_byte(tk_socks_port(), 61),
        tk_socks_port().len() > 0,
        97 <= tk_socks_port()[0] <= 122,
        no_byte(tk_allow_lan(), 61),
        tk_allow_lan().len() > 0,
        97 <= tk_allow_lan()[0] <= 122,
        no_byte(tk_bind_address(), 61),
        tk_bind_address().len() > 0,
        97 <= tk_bind_address()[0] <= 122,
        no_byte(tk_mode(), 61),
        tk_mode().len() > 0,
        97 <= tk_mode()[0] <= 122,
        no_byte(tk_log_level(), 61),
        tk_log_level().len() > 0,
        97 <= tk_log_level()[0] <= 122,
        no_byte(tk_ipv6(), 61),
        tk_ipv6().len() > 0,
        97 <= tk_ipv6()[0] <= 122,
        no_byte(tk_external_controller(), 61),
        tk_external_controller().len() > 0,
        97 <= tk_external_controller()[0] <= 122,
        no_byte(tk_external_ui(), 61),
        tk_external_ui().len() > 0,
        97 <= tk_external_ui()[0] <= 122,
        no_byte(tk_secret(), 61),
        tk_secret().len() > 0,
        97 <= tk_secret()[0] <= 122,
{
}

/// Every remote-document key is non-empty, free of `:`, and starts with a letter.
pub proof fn lemma_yaml_key_shapes()
    ensures
        no_byte(yk_port(), 58),
        yk_port().len() > 0,
        97 <= yk_port()[0] <= 122,
        no_byte(yk_socks_port(), 58),
        yk_socks_port().len() > 0,
        97 <= yk_socks_port()[0] <= 122,
        no_byte(yk_allow_lan(), 58),
        yk_allow_lan().len() > 0,
        97 <= yk_allow_lan()[0] <= 122,
        no_byte(yk_bind_address(), 58),
        yk_bind_address().len() > 0,
        97 <= yk_bind_address()[0] <= 122,
        no_byte(yk_mode(), 58),
        yk_mode().len() > 0,
        97 <= yk_mode()[0] <= 122,
        no_byte(yk_log_level(), 58),
        yk_log_level().len() > 0,
        97 <= yk_log_level()[0] <= 122,
        no_byte(yk_ipv6(), 58),
        yk_ipv6().len() > 0,
        97 <= yk_ipv6()[0] <= 122,
        no_byte(yk_external_controller(), 58),
        yk_external_controller().len() > 0,
        97 <= yk_external_controller()[0] <= 122,
        no_byte(yk_external_ui(), 58),
        yk_external_ui().len() > 0,
        97 <= yk_external_ui()[0] <= 122,
        no_byte(yk_secret(), 58),
        yk_secret().len() > 0,
        97 <= yk_secret()[0] <= 122,
{
}

/// No fixed key or header holds a newline.
pub proof fn lemma_keys_newline_free()
    ensures
        no_byte(tk_remote_mihomo_binary_url(), 10),
        no_byte(tk_remote_config_url(), 10),
        no_byte(tk_mihomo_binary_path(), 10),
        no_byte(tk_mihomo_config_root(), 10),
        no_byte(tk_user_systemd_root(), 10),
        no_byte(tk_header_mihomo_config(), 10),
        no_byte(tk_port(), 10),
        no_byte(tk_socks_port(), 10),
        no_byte(tk_allow_lan(), 10),
        no_byte(tk_bind_address(), 10),
        no_byte(tk_mode(), 10),
        no_byte(tk_log_level(), 10),
        no_byte(tk_ipv6(), 10),
        no_byte(tk_external_controller(), 10),
        no_byte(tk_external_ui(), 10),
        no_byte(tk_secret(), 10),
        no_byte(yk_port(), 10),
        no_byte(yk_socks_port(), 10),
        no_byte(yk_allow_lan(), 10),
        no_byte(yk_bind_address(), 10),
        no_byte(yk_mode(), 10),
        no_byte(yk_log_level(), 10),
        no_byte(yk_ipv6(), 10),
        no_byte(yk_external_controller(), 10),
        no_byte(yk_external_ui(), 10),
        no_byte(yk_secret(), 10),
{
}

/// The enum and boolean words hold no newline and no quote.
pub proof fn lemma_word_shapes()
    ensures
        no_byte(w_global(), 10),
        no_byte(w_global(), 34),
        no_byte(w_rule(), 10),
        no_byte(w_rule(), 34),
        no_byte(w_direct(), 10),
        no_byte(w_direct(), 34),
        no_byte(w_silent(), 10),
        no_byte(w_silent(), 34),
        no_byte(w_error(), 10),
        no_byte(w_error(), 34),
        no_byte(w_warning(), 10),
        no_byte(w_warning(), 34),
        no_byte(w_info(), 10),
        no_byte(w_info(), 34),
        no_byte(w_debug(), 10),
        no_byte(w_debug(), 34),
        no_byte(w_true(), 10),
        no_byte(w_true(), 34),
        no_byte(w_false(), 10),
        no_byte(w_false(), 34),
{
}
} // verus!
