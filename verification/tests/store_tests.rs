use monero_multisig::error::ConfigError;
use monero_multisig::store::{
    decode_partial_tx, decode_wallet_state, encode_partial_tx, encode_wallet_state,
};
use monero_multisig::transaction::PartiallySignedTx;
use monero_multisig::wallet::{MultisigParams, WalletState};

fn params() -> MultisigParams {
    MultisigParams::new(2, 3, "household".to_string()).unwrap()
}

#[test]
fn test_state_round_trip_created() {
    let state = WalletState::Created { wallet_path: "/data/wallet".to_string(), params: params() };
    let encoded = encode_wallet_state(&state);
    assert_eq!(decode_wallet_state(&encoded).unwrap(), state);
}

#[test]
fn test_state_round_trip_exchanging() {
    let state = WalletState::KeyExchangeInProgress {
        wallet_path: "/data/wallet".to_string(),
        params: params(),
        round: 4,
    };
    let encoded = encode_wallet_state(&state);
    assert_eq!(decode_wallet_state(&encoded).unwrap(), state);
}

#[test]
fn test_state_round_trip_ready() {
    let state = WalletState::Ready {
        wallet_path: "/data/wallet".to_string(),
        params: params(),
        address: "4".to_string() + &"A".repeat(94),
    };
    let encoded = encode_wallet_state(&state);
    assert_eq!(decode_wallet_state(&encoded).unwrap(), state);
}

#[test]
fn test_state_round_trip_awkward_strings() {
    // labels and paths may hold separators, digits and tags of the format
    let tricky = MultisigParams::new(1, 9, "7::C1:K".to_string()).unwrap();
    let state = WalletState::Ready {
        wallet_path: "C:\\wallets\\12:34".to_string(),
        params: tricky,
        address: "".to_string(),
    };
    let encoded = encode_wallet_state(&state);
    assert_eq!(decode_wallet_state(&encoded).unwrap(), state);
}

#[test]
fn test_encoding_exact_shape() {
    let state = WalletState::Created {
        wallet_path: "w".to_string(),
        params: MultisigParams::new(2, 3, "ab".to_string()).unwrap(),
    };
    assert_eq!(encode_wallet_state(&state), "C1:w2:3:2:ab");

    let tx = PartiallySignedTx {
        tx_data_hex: "dd".to_string(),
        tx_hash: "h".to_string(),
        signatures_count: 1,
        signatures_required: 2,
    };
    assert_eq!(encode_partial_tx(&tx), "T2:dd1:h1:2:");
}

#[test]
fn test_decode_rejects_corrupt_records() {
    for corrupt in [
        "",
        "X",
        "C",
        "C5:abc",
        "C0:2:3:5:name",   // label length past the end of the record
        "K12:",            // length with no payload
        "R1:a2:3:0:extra", // malformed tail
        "C01:a2:3:0:",     // leading zero in a length
    ] {
        assert!(matches!(
            decode_wallet_state(corrupt),
            Err(ConfigError::ParseError(_))
        ));
    }
}

#[test]
fn test_decode_rejects_trailing_garbage() {
    let state = WalletState::Created { wallet_path: "w".to_string(), params: params() };
    let mut encoded = encode_wallet_state(&state);
    encoded.push('x');
    assert!(decode_wallet_state(&encoded).is_err());
}

#[test]
fn test_partial_tx_round_trip() {
    let tx = PartiallySignedTx {
        tx_data_hex: "deadbeef".to_string(),
        tx_hash: "cafe".to_string(),
        signatures_count: 1,
        signatures_required: 2,
    };
    let blob = encode_partial_tx(&tx);
    assert_eq!(decode_partial_tx(&blob).unwrap(), tx);
}

#[test]
fn test_partial_tx_rejects_state_record() {
    let state = WalletState::Created { wallet_path: "w".to_string(), params: params() };
    let encoded = encode_wallet_state(&state);
    assert!(decode_partial_tx(&encoded).is_err());
    let tx = PartiallySignedTx {
        tx_data_hex: "dd".to_string(),
        tx_hash: "hh".to_string(),
        signatures_count: 0,
        signatures_required: 2,
    };
    assert!(decode_wallet_state(&encode_partial_tx(&tx)).is_err());
}
