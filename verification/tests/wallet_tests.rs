use monero_multisig::error::WalletError;
use monero_multisig::wallet::{
    check_exchange_input, interpret_exchange_response, KeyExchangeResult, MultisigParams,
    WalletState,
};

fn params(m: u32, n: u32) -> MultisigParams {
    MultisigParams::new(m, n, "test".to_string()).unwrap()
}

#[test]
fn test_params_validation() {
    assert!(MultisigParams::new(2, 3, "ok".to_string()).is_ok());
    assert!(MultisigParams::new(3, 3, "n of n".to_string()).is_ok());
    assert!(MultisigParams::new(1, 2, "one of two".to_string()).is_ok());
    assert!(matches!(
        MultisigParams::new(0, 3, "no signers".to_string()),
        Err(WalletError::InvalidParams(_))
    ));
    assert!(matches!(
        MultisigParams::new(4, 3, "too many".to_string()),
        Err(WalletError::InvalidParams(_))
    ));
    assert!(matches!(
        MultisigParams::new(1, 1, "alone".to_string()),
        Err(WalletError::InvalidParams(_))
    ));
    assert!(matches!(
        MultisigParams::new(0, 0, "nobody".to_string()),
        Err(WalletError::InvalidParams(_))
    ));
}

#[test]
fn test_create_once_per_directory() {
    let first = WalletState::create(&None, "dir/wallet".to_string(), params(2, 3)).unwrap();
    assert!(matches!(first, WalletState::Created { .. }));

    let again = WalletState::create(&Some(first), "dir/wallet".to_string(), params(2, 3));
    match again {
        Err(WalletError::AlreadyExists(path)) => assert_eq!(path, "dir/wallet"),
        other => panic!("expected AlreadyExists, got {other:?}"),
    }
}

#[test]
fn test_exchange_scenario_two_of_three() {
    // create-wallet -m 2 -n 3 -l "test"
    let state = WalletState::create(&None, "w".to_string(), params(2, 3)).unwrap();
    assert!(matches!(state, WalletState::Created { .. }));

    // first exchange round: more rounds needed
    let outcome = interpret_exchange_response(String::new(), "blob-round-2".to_string());
    assert_eq!(outcome, KeyExchangeResult::Partial { next_info: "blob-round-2".to_string() });
    let state = state.advance_exchange(outcome).unwrap();
    match &state {
        WalletState::KeyExchangeInProgress { round, .. } => assert_eq!(*round, 1),
        other => panic!("expected KeyExchangeInProgress, got {other:?}"),
    }

    // second round: the service reports the final address
    let outcome = interpret_exchange_response("4addr".to_string(), String::new());
    assert_eq!(outcome, KeyExchangeResult::Complete { address: "4addr".to_string() });
    let state = state.advance_exchange(outcome).unwrap();
    match &state {
        WalletState::Ready { address, .. } => assert_eq!(address, "4addr"),
        other => panic!("expected Ready, got {other:?}"),
    }

    // a further exchange is refused: the wallet is already set up
    let extra = KeyExchangeResult::Partial { next_info: "late".to_string() };
    match state.advance_exchange(extra) {
        Err(WalletError::AlreadyExists(m)) => assert_eq!(m, "wallet is already fully set up"),
        other => panic!("expected the already-set-up error, got {other:?}"),
    }
}

#[test]
fn test_advance_from_ready_always_fails() {
    let ready = WalletState::Ready {
        wallet_path: "w".to_string(),
        params: params(2, 2),
        address: "4addr".to_string(),
    };
    let partial = KeyExchangeResult::Partial { next_info: "x".to_string() };
    assert!(matches!(
        ready.clone().advance_exchange(partial),
        Err(WalletError::AlreadyExists(_))
    ));
    let complete = KeyExchangeResult::Complete { address: "4other".to_string() };
    assert!(matches!(
        ready.advance_exchange(complete),
        Err(WalletError::AlreadyExists(_))
    ));
}

#[test]
fn test_transaction_ops_require_ready() {
    let created = WalletState::create(&None, "w".to_string(), params(2, 3)).unwrap();
    assert!(matches!(created.ensure_ready(), Err(WalletError::NotReady)));

    let partial = KeyExchangeResult::Partial { next_info: "x".to_string() };
    let exchanging = created.advance_exchange(partial).unwrap();
    assert!(matches!(exchanging.ensure_ready(), Err(WalletError::NotReady)));

    let complete = KeyExchangeResult::Complete { address: "4addr".to_string() };
    let ready = exchanging.advance_exchange(complete).unwrap();
    assert_eq!(ready.ensure_ready().unwrap(), "4addr");
}

#[test]
fn test_exchange_input_validation() {
    let created = WalletState::create(&None, "w".to_string(), params(2, 3)).unwrap();
    assert!(matches!(
        check_exchange_input(&created, 0),
        Err(WalletError::InvalidParams(_))
    ));
    assert!(check_exchange_input(&created, 2).is_ok());

    let exchanging = WalletState::KeyExchangeInProgress {
        wallet_path: "w".to_string(),
        params: params(2, 3),
        round: 1,
    };
    assert!(check_exchange_input(&exchanging, 2).is_ok());

    let ready = WalletState::Ready {
        wallet_path: "w".to_string(),
        params: params(2, 3),
        address: "4addr".to_string(),
    };
    assert!(matches!(
        check_exchange_input(&ready, 2),
        Err(WalletError::AlreadyExists(_))
    ));
}

#[test]
fn test_round_counter_grows_per_partial_round() {
    let mut state = WalletState::create(&None, "w".to_string(), params(3, 3)).unwrap();
    for expected in 1..=5u32 {
        let partial = KeyExchangeResult::Partial { next_info: "x".to_string() };
        state = state.advance_exchange(partial).unwrap();
        match &state {
            WalletState::KeyExchangeInProgress { round, .. } => assert_eq!(*round, expected),
            other => panic!("expected KeyExchangeInProgress, got {other:?}"),
        }
    }
}
