//! A stable digest over the local server settings, used to notice when the
//! backend configuration changed between runs. The settings are rendered to
//! a canonical JSON byte string, hashed with SHA-256, and the digest is
//! returned as lowercase hex.

use vstd::prelude::*;
use vstd::string::{StrSliceExecFns, StringSliceAdditionalSpecFns};
use crate::hashing::{hex_of, sha256, sha256_of, hex_encode};

verus! {

// ---------------------------------------------------------------------------
// Settings model
// ---------------------------------------------------------------------------

#[derive(Clone, Copy, Debug, PartialEq, Eq)]
pub enum ReplicaSubnetType {
    System,
    Application,
    VerifiedApplication,
}

#[derive(Clone, Copy, Debug, PartialEq, Eq)]
pub enum ReplicaLogLevel {
    Critical,
    Error,
    Warning,
    Info,
    Debug,
    Trace,
}

#[derive(Clone, Copy, Debug, PartialEq, Eq)]
pub enum HttpHandlerPortSetting {
    Port { port: u16 },
    WritePortToPath,
}

#[derive(Clone, Copy, Debug, PartialEq, Eq)]
pub struct HttpHandlerSettings {
    pub port: HttpHandlerPortSetting,
}

#[derive(Clone, Copy, Debug, PartialEq, Eq)]
pub struct BtcSettings {
    pub enabled: bool,
}

#[derive(Clone, Copy, Debug, PartialEq, Eq)]
pub struct CanisterHttpSettings {
    pub enabled: bool,
}

#[derive(Clone, Copy, Debug, PartialEq, Eq)]
pub struct ReplicaSettings {
    pub http_handler: HttpHandlerSettings,
    pub subnet_type: ReplicaSubnetType,
    pub btc_adapter: BtcSettings,
    pub canister_http_adapter: CanisterHttpSettings,
    pub log_level: ReplicaLogLevel,
    pub artificial_delay: u32,
}

#[derive(Clone, Copy, Debug, PartialEq, Eq)]
pub struct BackendSettings {
    pub settings: ReplicaSettings,
}

#[derive(Clone, Copy, Debug, PartialEq, Eq)]
pub struct ReplicaConfig {
    pub port: Option<u16>,
    pub subnet_type: Option<ReplicaSubnetType>,
    pub log_level: Option<ReplicaLogLevel>,
}

#[derive(Clone, Copy, Debug, PartialEq, Eq)]
pub struct BitcoinConfig {
    pub enabled: bool,
}

#[derive(Clone, Copy, Debug, PartialEq, Eq)]
pub struct CanisterHttpConfig {
    pub enabled: bool,
}

/// The locally configured server, as far as the digest depends on it.
#[derive(Clone, Copy, Debug, PartialEq, Eq)]
pub struct LocalServerDescriptor {
    pub replica: ReplicaConfig,
    pub bitcoin: BitcoinConfig,
    pub canister_http: CanisterHttpConfig,
}

/// The backend settings derived from the local server descriptor, with the
/// defaults filled in: `Application` subnet type and `Error` log level.
pub open spec fn backend_settings_of(d: LocalServerDescriptor, artificial_delay: u32)
    -> BackendSettings {
    BackendSettings {
        settings: ReplicaSettings {
            http_handler: HttpHandlerSettings {
                port: match d.replica.port {
                    Some(p) => HttpHandlerPortSetting::Port { port: p },
                    None => HttpHandlerPortSetting::WritePortToPath,
                },
            },
            subnet_type: match d.replica.subnet_type {
                Some(t) => t,
                None => ReplicaSubnetType::Application,
            },
            btc_adapter: BtcSettings { enabled: d.bitcoin.enabled },
            canister_http_adapter: CanisterHttpSettings { enabled: d.canister_http.enabled },
            log_level: match d.replica.log_level {
                Some(l) => l,
                None => ReplicaLogLevel::Error,
            },
            artificial_delay: artificial_delay,
        },
    }
}

pub fn get_replica_backend_settings(
    local_server_descriptor: &LocalServerDescriptor,
    artificial_delay: u32,
) -> (r: BackendSettings)
    ensures
        r == backend_settings_of(*local_server_descriptor, artificial_delay),
{
    let http_handler = HttpHandlerSettings {
        port: if let Some(port) = local_server_descriptor.replica.port {
            HttpHandlerPortSetting::Port { port }
        } else {
            HttpHandlerPortSetting::WritePortToPath
        },
    };
    let btc_adapter = BtcSettings { enabled: local_server_descriptor.bitcoin.enabled };
    let canister_http_adapter = CanisterHttpSettings {
        enabled: local_server_descriptor.canister_http.enabled,
    };
    let replica_settings = ReplicaSettings {
        http_handler,
        subnet_type: match local_server_descriptor.replica.subnet_type {
            Some(t) => t,
            None => ReplicaSubnetType::Application,
        },
        btc_adapter,
        canister_http_adapter,
        log_level: match local_server_descriptor.replica.log_level {
            Some(l) => l,
            None => ReplicaLogLevel::Error,
        },
        artificial_delay,
    };
    BackendSettings { settings: replica_settings }
}

// ---------------------------------------------------------------------------
// Canonical JSON rendering
// ---------------------------------------------------------------------------

/// ASCII code of a lowercase hexadecimal digit.
pub open spec fn hex_u8(n: u8) -> u8
    recommends
        n < 16,
{
    if n < 10 {
        (48 + n) as u8
    } else {
        (87 + n) as u8
    }
}

/// Decimal ASCII rendering of a number, most significant digit first.
pub open spec fn dec_digits(n: nat) -> Seq<u8>
    decreases n,
{
    if n < 10 {
        seq![(48 + n) as u8]
    } else {
        dec_digits(n / 10) + seq![(48 + n % 10) as u8]
    }
}

/// JSON string escaping of one byte: quote, backslash and control bytes are
/// escaped; everything else passes through.
pub open spec fn esc_byte(b: u8) -> Seq<u8> {
    if b == 34 {
        seq![92u8, 34u8]
    } else if b == 92 {
        seq![92u8, 92u8]
    } else if b == 8 {
        seq![92u8, 98u8]
    } else if b == 9 {
        seq![92u8, 116u8]
    } else if b == 10 {
        seq![92u8, 110u8]
    } else if b == 12 {
        seq![92u8, 102u8]
    } else if b == 13 {
        seq![92u8, 114u8]
    } else if b < 32 {
        seq![92u8, 117u8, 48u8, 48u8, hex_u8(b / 16), hex_u8(b % 16)]
    } else {
        seq![b]
    }
}

pub open spec fn esc_bytes(s: Seq<u8>) -> Seq<u8>
    decreases s.len(),
{
    if s.len() == 0 {
        Seq::empty()
    } else {
        esc_byte(s[0]) + esc_bytes(s.drop_first())
    }
}

pub open spec fn json_bool(b: bool) -> Seq<u8> {
    if b {
        ("true").spec_bytes()
    } else {
        ("false").spec_bytes()
    }
}

pub open spec fn subnet_type_json(t: ReplicaSubnetType) -> Seq<u8> {
    match t {
        ReplicaSubnetType::System => ("\"system\"").spec_bytes(),
        ReplicaSubnetType::Application => ("\"application\"").spec_bytes(),
        ReplicaSubnetType::VerifiedApplication => ("\"verifiedapplication\"").spec_bytes(),
    }
}

pub open spec fn log_level_json(l: ReplicaLogLevel) -> Seq<u8> {
    match l {
        ReplicaLogLevel::Critical => ("\"critical\"").spec_bytes(),
        ReplicaLogLevel::Error => ("\"error\"").spec_bytes(),
        ReplicaLogLevel::Warning => ("\"warning\"").spec_bytes(),
        ReplicaLogLevel::Info => ("\"info\"").spec_bytes(),
        ReplicaLogLevel::Debug => ("\"debug\"").spec_bytes(),
        ReplicaLogLevel::Trace => ("\"trace\"").spec_bytes(),
    }
}

pub open spec fn port_setting_json(p: HttpHandlerPortSetting) -> Seq<u8> {
    match p {
        HttpHandlerPortSetting::Port { port } => ("{\"type\":\"port\",\"port\":").spec_bytes()
            + dec_digits(port as nat) + ("}").spec_bytes(),
        HttpHandlerPortSetting::WritePortToPath => (
        "{\"type\":\"write_port_to_path\"}").spec_bytes(),
    }
}

pub open spec fn replica_settings_json(s: ReplicaSettings) -> Seq<u8> {
    ("{\"http_handler\":{\"port\":").spec_bytes() + port_setting_json(s.http_handler.port) + (
    "},\"subnet_type\":").spec_bytes() + subnet_type_json(s.subnet_type) + (
    ",\"btc_adapter\":{\"enabled\":").spec_bytes() + json_bool(s.btc_adapter.enabled) + (
    "},\"canister_http_adapter\":{\"enabled\":").spec_bytes() + json_bool(
        s.canister_http_adapter.enabled,
    ) + ("},\"log_level\":").spec_bytes() + log_level_json(s.log_level) + (
    ",\"artificial_delay\":").spec_bytes() + dec_digits(s.artificial_delay as nat) + (
    "}").spec_bytes()
}

/// The canonical JSON byte string the digest is computed over.
pub open spec fn settings_json(commit: Seq<u8>, b: BackendSettings) -> Seq<u8> {
    ("{\"ic_repo_commit\":\"").spec_bytes() + esc_bytes(commit) + ("\",\"settings\":").spec_bytes()
        + replica_settings_json(b.settings) + ("}").spec_bytes()
}

fn push_bytes(out: &mut Vec<u8>, s: &Vec<u8>)
    ensures
        final(out)@ == old(out)@ + s@,
{
    let mut i: usize = 0;
    while i < s.len()
        invariant
            i <= s.len(),
            out@ == old(out)@ + s@.take(i as int),
        decreases s.len() - i,
    {
        out.push(s[i]);
        proof {
            assert(s@.take(i + 1 as int) =~= s@.take(i as int).push(s@[i as int]));
            assert(old(out)@ + s@.take(i + 1 as int) =~= (old(out)@ + s@.take(i as int)).push(
                s@[i as int],
            ));
        }
        i += 1;
    }
    proof {
        assert(s@.take(s@.len() as int) =~= s@);
    }
}

fn push_lit(out: &mut Vec<u8>, s: &str)
    ensures
        final(out)@ == old(out)@ + s.spec_bytes(),
{
    let b = s.as_bytes_vec();
    push_bytes(out, &b);
}

fn push_decimal(out: &mut Vec<u8>, n: u64)
    ensures
        final(out)@ == old(out)@ + dec_digits(n as nat),
    decreases n,
{
    if n < 10 {
        out.push(48 + n as u8);
        proof {
            assert(old(out)@ + dec_digits(n as nat) =~= old(out)@.push((48 + n as nat) as u8));
        }
    } else {
        push_decimal(out, n / 10);
        out.push(48 + (n % 10) as u8);
        proof {
            assert(old(out)@ + dec_digits(n as nat) =~= (old(out)@ + dec_digits(
                (n / 10) as nat,
            )).push((48 + n as nat % 10) as u8));
        }
    }
}

fn push_esc_byte(out: &mut Vec<u8>, b: u8)
    ensures
        final(out)@ == old(out)@ + esc_byte(b),
{
    if b == 34 {
        out.push(92);
        out.push(34);
    } else if b == 92 {
        out.push(92);
        out.push(92);
    } else if b == 8 {
        out.push(92);
        out.push(98);
    } else if b == 9 {
        out.push(92);
        out.push(116);
    } else if b == 10 {
        out.push(92);
        out.push(110);
    } else if b == 12 {
        out.push(92);
        out.push(102);
    } else if b == 13 {
        out.push(92);
        out.push(114);
    } else if b < 32 {
        out.push(92);
        out.push(117);
        out.push(48);
        out.push(48);
        out.push(if b / 16 < 10 {
            48 + b / 16
        } else {
            87 + b / 16
        });
        out.push(if b % 16 < 10 {
            48 + b % 16
        } else {
            87 + b % 16
        });
    } else {
        out.push(b);
    }
    proof {
        assert(final(out)@ =~= old(out)@ + esc_byte(b));
    }
}

fn push_escaped(out: &mut Vec<u8>, s: &Vec<u8>, i: usize)
    requires
        i <= s.len(),
    ensures
        final(out)@ == old(out)@ + esc_bytes(s@.skip(i as int)),
    decreases s.len() - i,
{
    if i == s.len() {
        proof {
            assert(s@.skip(i as int) =~= Seq::empty());
            assert(old(out)@ + esc_bytes(s@.skip(i as int)) =~= old(out)@);
        }
    } else {
        proof {
            assert(s@.skip(i as int).drop_first() =~= s@.skip(i as int + 1));
        }
        push_esc_byte(out, s[i]);
        push_escaped(out, s, i + 1);
        proof {
            assert(final(out)@ =~= old(out)@ + esc_bytes(s@.skip(i as int)));
        }
    }
}

fn push_port_setting(out: &mut Vec<u8>, p: HttpHandlerPortSetting)
    ensures
        final(out)@ == old(out)@ + port_setting_json(p),
{
    match p {
        HttpHandlerPortSetting::Port { port } => {
            push_lit(out, "{\"type\":\"port\",\"port\":");
            push_decimal(out, port as u64);
            push_lit(out, "}");
            proof {
                assert(final(out)@ =~= old(out)@ + port_setting_json(p));
            }
        },
        HttpHandlerPortSetting::WritePortToPath => {
            push_lit(out, "{\"type\":\"write_port_to_path\"}");
        },
    }
}

fn push_subnet_type(out: &mut Vec<u8>, t: ReplicaSubnetType)
    ensures
        final(out)@ == old(out)@ + subnet_type_json(t),
{
    match t {
        ReplicaSubnetType::System => push_lit(out, "\"system\""),
        ReplicaSubnetType::Application => push_lit(out, "\"application\""),
        ReplicaSubnetType::VerifiedApplication => push_lit(out, "\"verifiedapplication\""),
    }
}

fn push_log_level(out: &mut Vec<u8>, l: ReplicaLogLevel)
    ensures
        final(out)@ == old(out)@ + log_level_json(l),
{
    match l {
        ReplicaLogLevel::Critical => push_lit(out, "\"critical\""),
        ReplicaLogLevel::Error => push_lit(out, "\"error\""),
        ReplicaLogLevel::Warning => push_lit(out, "\"warning\""),
        ReplicaLogLevel::Info => push_lit(out, "\"info\""),
        ReplicaLogLevel::Debug => push_lit(out, "\"debug\""),
        ReplicaLogLevel::Trace => push_lit(out, "\"trace\""),
    }
}

fn push_json_bool(out: &mut Vec<u8>, b: bool)
    ensures
        final(out)@ == old(out)@ + json_bool(b),
{
    if b {
        push_lit(out, "true");
    } else {
        push_lit(out, "false");
    }
}

#[verifier::rlimit(60)]
fn push_replica_settings(out: &mut Vec<u8>, s: &ReplicaSettings)
    ensures
        final(out)@ == old(out)@ + replica_settings_json(*s),
{
    push_lit(out, "{\"http_handler\":{\"port\":");
    push_port_setting(out, s.http_handler.port);
    proof {
        assert(out@ =~= old(out)@ + ("{\"http_handler\":{\"port\":").spec_bytes()
            + port_setting_json(s.http_handler.port));
    }
    push_lit(out, "},\"subnet_type\":");
    push_subnet_type(out, s.subnet_type);
    proof {
        assert(out@ =~= old(out)@ + ("{\"http_handler\":{\"port\":").spec_bytes()
            + port_setting_json(s.http_handler.port) + ("},\"subnet_type\":").spec_bytes()
            + subnet_type_json(s.subnet_type));
    }
    push_lit(out, ",\"btc_adapter\":{\"enabled\":");
    push_json_bool(out, s.btc_adapter.enabled);
    proof {
        assert(out@ =~= old(out)@ + ("{\"http_handler\":{\"port\":").spec_bytes()
            + port_setting_json(s.http_handler.port) + ("},\"subnet_type\":").spec_bytes()
            + subnet_type_json(s.subnet_type) + (",\"btc_adapter\":{\"enabled\":").spec_bytes()
            + json_bool(s.btc_adapter.enabled));
    }
    push_lit(out, "},\"canister_http_adapter\":{\"enabled\":");
    push_json_bool(out, s.canister_http_adapter.enabled);
    proof {
        assert(out@ =~= old(out)@ + ("{\"http_handler\":{\"port\":").spec_bytes()
            + port_setting_json(s.http_handler.port) + ("},\"subnet_type\":").spec_bytes()
            + subnet_type_json(s.subnet_type) + (",\"btc_adapter\":{\"enabled\":").spec_bytes()
            + json_bool(s.btc_adapter.enabled) + (
        "},\"canister_http_adapter\":{\"enabled\":").spec_bytes() + json_bool(
            s.canister_http_adapter.enabled,
        ));
    }
    push_lit(out, "},\"log_level\":");
    push_log_level(out, s.log_level);
    proof {
        assert(out@ =~= old(out)@ + ("{\"http_handler\":{\"port\":").spec_bytes()
            + port_setting_json(s.http_handler.port) + ("},\"subnet_type\":").spec_bytes()
            + subnet_type_json(s.subnet_type) + (",\"btc_adapter\":{\"enabled\":").spec_bytes()
            + json_bool(s.btc_adapter.enabled) + (
        "},\"canister_http_adapter\":{\"enabled\":").spec_bytes() + json_bool(
            s.canister_http_adapter.enabled,
        ) + ("},\"log_level\":").spec_bytes() + log_level_json(s.log_level));
    }
    push_lit(out, ",\"artificial_delay\":");
    push_decimal(out, s.artificial_delay as u64);
    push_lit(out, "}");
    proof {
        assert(final(out)@ =~= old(out)@ + replica_settings_json(*s));
    }
}

/// The canonical JSON rendering of the settings, as bytes.
pub fn settings_json_bytes(ic_repo_commit: &str, backend: &BackendSettings) -> (r: Vec<u8>)
    ensures
        r@ == settings_json(ic_repo_commit.spec_bytes(), *backend),
{
    let mut out: Vec<u8> = Vec::new();
    push_lit(&mut out, "{\"ic_repo_commit\":\"");
    let commit_bytes = ic_repo_commit.as_bytes_vec();
    proof {
        assert(commit_bytes@.skip(0) =~= commit_bytes@);
    }
    push_escaped(&mut out, &commit_bytes, 0);
    push_lit(&mut out, "\",\"settings\":");
    push_replica_settings(&mut out, &backend.settings);
    push_lit(&mut out, "}");
    proof {
        assert(out@ =~= settings_json(ic_repo_commit.spec_bytes(), *backend));
    }
    out
}

/// JSON string escaping, exposed for checking the canonical rendering.
pub fn escape_json_bytes(s: &Vec<u8>) -> (r: Vec<u8>)
    ensures
        r@ == esc_bytes(s@),
{
    let mut out: Vec<u8> = Vec::new();
    proof {
        assert(s@.skip(0) =~= s@);
    }
    push_escaped(&mut out, s, 0);
    proof {
        assert(Seq::<u8>::empty() + esc_bytes(s@) =~= esc_bytes(s@));
    }
    out
}

/// The digest of the canonical settings rendering: lowercase hex of the
/// SHA-256 of the canonical JSON byte string.
pub fn get_settings_digest(
    ic_repo_commit: &str,
    local_server_descriptor: &LocalServerDescriptor,
    artificial_delay: u32,
) -> (r: String)
    ensures
        r@ == hex_of(
            sha256_of(
                settings_json(
                    ic_repo_commit.spec_bytes(),
                    backend_settings_of(*local_server_descriptor, artificial_delay),
                ),
            ),
        ),
{
    let backend = get_replica_backend_settings(local_server_descriptor, artificial_delay);
    let normalized = settings_json_bytes(ic_repo_commit, &backend);
    let hash: Vec<u8> = sha256(normalized.as_slice());
    hex_encode(hash.as_slice())
}

} // verus!
