use monero_multisig::config::{rpc_outcome, Config, DaemonRpc, Network};
use monero_multisig::error::MultisigError;
use monero_multisig::utils::abbreviate_hex;

#[test]
fn test_abbreviate_short() {
    assert_eq!(abbreviate_hex("abcdef"), "abcdef");
}

#[test]
fn test_abbreviate_long() {
    let long = "a]".repeat(20);
    let result = abbreviate_hex(&long);
    assert!(result.contains("..."));
    assert_eq!(result.len(), 8 + 3 + 8);
}

#[test]
fn test_abbreviate_boundary() {
    let exactly_twenty = "b".repeat(20);
    assert_eq!(abbreviate_hex(&exactly_twenty), exactly_twenty);
    let twenty_one = "b".repeat(21);
    assert_eq!(abbreviate_hex(&twenty_one), format!("{}...{}", "b".repeat(8), "b".repeat(8)));
}

#[test]
fn test_daemon_url() {
    let daemon = DaemonRpc::default();
    assert_eq!(daemon.url(), "http://127.0.0.1:18081/json_rpc");
    let tls = DaemonRpc { host: "node.example".to_string(), port: 443, tls: true, ..daemon };
    assert_eq!(tls.url(), "https://node.example:443/json_rpc");
}

#[test]
fn test_network_names() {
    assert_eq!(Network::Mainnet.name(), "mainnet");
    assert_eq!(Network::Testnet.name(), "testnet");
    assert_eq!(Network::Stagenet.name(), "stagenet");
}

#[test]
fn test_config_defaults() {
    let config = Config::with_defaults(Some("/home/user/.local/share".to_string()));
    assert_eq!(config.data_dir, "/home/user/.local/share/monero-multisig");
    assert_eq!(config.network, Network::Mainnet);
    let fallback = Config::with_defaults(None);
    assert_eq!(fallback.data_dir, "./monero-multisig");
}

#[test]
fn test_rpc_outcome_success() {
    let r: Result<u32, MultisigError> = rpc_outcome(Some(7), None);
    assert_eq!(r.unwrap(), 7);
}

#[test]
fn test_rpc_outcome_error_message() {
    let r: Result<u32, MultisigError> =
        rpc_outcome(None, Some((-32601, "method not found".to_string())));
    match r {
        Err(MultisigError::Rpc(m)) => {
            assert_eq!(m, "RPC error: method not found (code: -32601)");
        }
        other => panic!("expected an RPC error, got {other:?}"),
    }
    let unknown: Result<u32, MultisigError> = rpc_outcome(None, None);
    match unknown {
        Err(MultisigError::Rpc(m)) => assert_eq!(m, "RPC error: unknown RPC error"),
        other => panic!("expected an RPC error, got {other:?}"),
    }
}
