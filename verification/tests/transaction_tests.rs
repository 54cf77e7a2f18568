use monero_multisig::config::Network;
use monero_multisig::error::TransactionError;
use monero_multisig::transaction::{
    apply_signature, check_balance, check_quorum, first_or_empty, validate_address,
    validate_destinations, Destination, PartiallySignedTx, Priority, UnsignedMultisigTx,
};

#[test]
fn test_validate_address_mainnet() {
    let valid = "4".to_string() + &"A".repeat(94);
    assert!(validate_address(&valid, Network::Mainnet).is_ok());
}

#[test]
fn test_validate_address_wrong_prefix() {
    let invalid = "9".to_string() + &"A".repeat(94);
    assert!(validate_address(&invalid, Network::Mainnet).is_err());
}

#[test]
fn test_validate_address_wrong_length() {
    let short = "4".to_string() + &"A".repeat(50);
    assert!(validate_address(&short, Network::Mainnet).is_err());
}

#[test]
fn test_validate_address_integrated_length() {
    let integrated = "4".to_string() + &"A".repeat(105);
    assert!(validate_address(&integrated, Network::Mainnet).is_ok());
    let almost = "4".to_string() + &"A".repeat(104);
    assert!(validate_address(&almost, Network::Mainnet).is_err());
}

#[test]
fn test_validate_address_testnet_prefix() {
    let testnet = "9".to_string() + &"A".repeat(94);
    assert!(validate_address(&testnet, Network::Testnet).is_ok());
    assert!(validate_address(&testnet, Network::Stagenet).is_ok());
    let mainnet_style = "4".to_string() + &"A".repeat(94);
    assert!(validate_address(&mainnet_style, Network::Testnet).is_err());
}

#[test]
fn test_validate_address_error_messages() {
    let wrong_prefix = "9".to_string() + &"A".repeat(94);
    match validate_address(&wrong_prefix, Network::Mainnet) {
        Err(TransactionError::InvalidAddress(m)) => {
            assert_eq!(m, "address should start with '4' for mainnet");
        }
        other => panic!("expected InvalidAddress, got {other:?}"),
    }
    let short = "4".to_string() + &"A".repeat(50);
    match validate_address(&short, Network::Mainnet) {
        Err(TransactionError::InvalidAddress(m)) => {
            assert_eq!(
                m,
                "invalid address length: 51 (expected 95 for standard or 106 for integrated)"
            );
        }
        other => panic!("expected InvalidAddress, got {other:?}"),
    }
}

#[test]
fn test_validate_destinations() {
    let good = Destination { address: "4".to_string() + &"A".repeat(94), amount: 5 };
    let bad = Destination { address: "4".to_string() + &"A".repeat(10), amount: 5 };
    assert!(validate_destinations(&vec![good.clone()], Network::Mainnet).is_ok());
    assert!(validate_destinations(&vec![good, bad], Network::Mainnet).is_err());
    assert!(validate_destinations(&vec![], Network::Mainnet).is_ok());
}

#[test]
fn test_apply_signature_quorum_of_two() {
    let first = apply_signature(Some(0), 2, "blob1".to_string(), "hash".to_string()).unwrap();
    assert_eq!(first.tx.signatures_count, 1);
    assert!(!first.ready_to_submit);

    let second = apply_signature(Some(1), 2, "blob2".to_string(), "hash".to_string()).unwrap();
    assert_eq!(second.tx.signatures_count, 2);
    assert!(second.ready_to_submit);
}

#[test]
fn test_apply_signature_unknown_count_is_error() {
    let r = apply_signature(None, 2, "blob".to_string(), "hash".to_string());
    assert!(matches!(r, Err(TransactionError::SigningFailed(_))));
}

#[test]
fn test_check_quorum() {
    let tx = PartiallySignedTx {
        tx_data_hex: "aa".to_string(),
        tx_hash: "hh".to_string(),
        signatures_count: 1,
        signatures_required: 2,
    };
    match check_quorum(&tx) {
        Err(TransactionError::InsufficientSignatures { have, need }) => {
            assert_eq!((have, need), (1, 2));
        }
        other => panic!("expected InsufficientSignatures, got {other:?}"),
    }
    assert!(tx.ready_to_submit() == false);
    let done = PartiallySignedTx { signatures_count: 2, ..tx };
    assert!(check_quorum(&done).is_ok());
    assert!(done.ready_to_submit());
}

#[test]
fn test_check_balance() {
    assert!(check_balance(10, 10).is_ok());
    match check_balance(5, 10) {
        Err(TransactionError::InsufficientBalance { need, have }) => {
            assert_eq!((need, have), (10, 5));
        }
        other => panic!("expected InsufficientBalance, got {other:?}"),
    }
}

#[test]
fn test_first_or_empty() {
    assert_eq!(first_or_empty(&vec!["a".to_string(), "b".to_string()]), "a");
    assert_eq!(first_or_empty(&Vec::new()), "");
}

#[test]
fn test_priority_levels() {
    assert_eq!(Priority::Default.level(), 0);
    assert_eq!(Priority::Low.level(), 1);
    assert_eq!(Priority::Medium.level(), 2);
    assert_eq!(Priority::High.level(), 3);
    assert_eq!(Priority::from_level(1), Priority::Low);
    assert_eq!(Priority::from_level(2), Priority::Medium);
    assert_eq!(Priority::from_level(3), Priority::High);
    assert_eq!(Priority::from_level(0), Priority::Default);
    assert_eq!(Priority::from_level(7), Priority::Default);
}

#[test]
fn test_unsigned_tx_from_response() {
    let tx = UnsignedMultisigTx::from_response("set".to_string(), "hash".to_string(), 42);
    assert_eq!(tx.tx_data_hex, "set");
    assert_eq!(tx.tx_hash, "hash");
    assert_eq!(tx.fee, 42);
}
