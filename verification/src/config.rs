//! Connection and tool configuration: the Monero network variant, daemon
//! RPC endpoint settings with verified URL construction, and the top-level
//! configuration record. Reading and writing configuration files, and the
//! HTTP transport itself, live outside this library.

use vstd::prelude::*;

use crate::decimal::{dec_str, u64_to_dec};
use crate::error::MultisigError;

verus! {

use vstd::string::StringExecFns;

/// The Monero network variant.
#[derive(Debug, Clone, Copy, PartialEq, Eq, Structural)]
pub enum Network {
    Mainnet,
    Testnet,
    Stagenet,
}

impl Network {
    /// The lower-case name of the network variant.
    pub fn name(&self) -> (r: &'static str)
        ensures
            r@ == self.spec_name(),
    {
        match self {
            Network::Mainnet => "mainnet",
            Network::Testnet => "testnet",
            Network::Stagenet => "stagenet",
        }
    }

    /// The lower-case name of the network variant.
    pub open spec fn spec_name(&self) -> Seq<char> {
        match self {
            Network::Mainnet => "mainnet"@,
            Network::Testnet => "testnet"@,
            Network::Stagenet => "stagenet"@,
        }
    }
}

/// Connection settings for a Monero daemon RPC endpoint.
#[derive(Debug, Clone)]
pub struct DaemonRpc {
    /// Hostname or IP address of the Monero daemon.
    pub host: String,
    /// RPC port.
    pub port: u16,
    /// Use TLS for the RPC connection.
    pub tls: bool,
    /// Optional username for digest authentication.
    pub username: Option<String>,
    /// Optional password for digest authentication.
    pub password: Option<String>,
}

/// The full JSON-RPC endpoint URL for the given connection settings.
pub open spec fn spec_url(tls: bool, host: Seq<char>, port: u16) -> Seq<char> {
    (if tls {
        "https"@
    } else {
        "http"@
    }) + "://"@ + host + ":"@ + dec_str(port as nat) + "/json_rpc"@
}

impl DaemonRpc {
    /// Build the full RPC URL from the connection settings.
    pub fn url(&self) -> (r: String)
        ensures
            r@ == spec_url(self.tls, self.host@, self.port),
    {
        let scheme = if self.tls {
            "https"
        } else {
            "http"
        };
        let port_str = u64_to_dec(self.port as u64);
        String::from_str(scheme).concat("://").concat(self.host.as_str()).concat(":").concat(
            port_str.as_str(),
        ).concat("/json_rpc")
    }
}

impl Default for DaemonRpc {
    /// The conventional local mainnet daemon endpoint, without TLS or
    /// authentication.
    fn default() -> (r: DaemonRpc)
        ensures
            r.host@ == "127.0.0.1"@,
            r.port == 18081,
            !r.tls,
            r.username is None,
            r.password is None,
    {
        DaemonRpc {
            host: String::from_str("127.0.0.1"),
            port: 18081,
            tls: false,
            username: None,
            password: None,
        }
    }
}

/// Top-level configuration for the multisig wallet tool.
#[derive(Debug, Clone)]
pub struct Config {
    /// Monero network to operate on.
    pub network: Network,
    /// Daemon RPC connection settings.
    pub daemon: DaemonRpc,
    /// Directory for storing wallet files and key exchange data.
    pub data_dir: String,
}

impl Config {
    /// The default configuration: mainnet, the default daemon endpoint,
    /// and a `monero-multisig` directory under the given local data
    /// directory (or under the current directory when none is known).
    pub fn with_defaults(local_data_dir: Option<String>) -> (r: Config)
        ensures
            r.network == Network::Mainnet,
            r.daemon.host@ == "127.0.0.1"@ && r.daemon.port == 18081 && !r.daemon.tls,
            r.data_dir@ == match local_data_dir {
                Some(base) => base@ + "/monero-multisig"@,
                None => "./monero-multisig"@,
            },
    {
        let data_dir = match local_data_dir {
            Option::Some(base) => base.concat("/monero-multisig"),
            Option::None => String::from_str("./monero-multisig"),
        };
        Config { network: Network::Mainnet, daemon: DaemonRpc::default(), data_dir }
    }
}

/// The decimal rendering of a signed value: a minus sign before the
/// canonical digits of its magnitude.
pub open spec fn int_str(v: int) -> Seq<char> {
    if v < 0 {
        seq!['-'] + dec_str((-v) as nat)
    } else {
        dec_str(v as nat)
    }
}

/// Render a signed sixty-four-bit value in decimal.
pub fn i64_to_dec(v: i64) -> (r: String)
    ensures
        r@ == int_str(v as int),
{
    if v < 0 {
        let mag: u64 = (-(v as i128)) as u64;
        let r = String::from_str("-").concat(u64_to_dec(mag).as_str());
        proof {
            reveal_strlit("-");
            assert(r@ =~= int_str(v as int));
        }
        r
    } else {
        u64_to_dec(v as u64)
    }
}

/// The failure message carried by an RPC error outcome: what the remote
/// service reported, or a fixed text when it reported nothing.
pub open spec fn rpc_err_msg(error: Option<(i64, Seq<char>)>) -> Seq<char> {
    match error {
        Some((code, message)) => "RPC error: "@ + message + " (code: "@ + int_str(code as int)
            + ")"@,
        None => "RPC error: unknown RPC error"@,
    }
}

/// Interpret a JSON-RPC response envelope: a present `result` succeeds
/// with that value; an absent `result` fails with the remote error's
/// message and code, surfaced as an RPC failure distinct from this tool's
/// own validation errors.
pub fn rpc_outcome<R>(result: Option<R>, error: Option<(i64, String)>) -> (r: Result<
    R,
    MultisigError,
>)
    ensures
        match r {
            Ok(v) => result matches Some(res) && v == res,
            Err(e) => {
                &&& result is None
                &&& e matches MultisigError::Rpc(m)
                &&& m@ == rpc_err_msg(
                    match error {
                        Some((code, message)) => Some((code, message@)),
                        None => None,
                    },
                )
            },
        },
{
    match result {
        Option::Some(v) => Ok(v),
        Option::None => {
            let msg = match error {
                Option::Some((code, message)) => {
                    let m = String::from_str("RPC error: ").concat(message.as_str()).concat(
                        " (code: ",
                    ).concat(i64_to_dec(code).as_str()).concat(")");
                    proof {
                        assert(m@ =~= rpc_err_msg(Some((code, message@))));
                    }
                    m
                },
                Option::None => String::from_str("RPC error: unknown RPC error"),
            };
            Err(MultisigError::Rpc(msg))
        },
    }
}

} // verus!
