use leverage_pool::zk_auth::{Error, ZKAuth, MIN_SESSION_LEDGERS};

const USER: u64 = 9;

#[test]
fn test_successful_session_creation() {
    let mut auth = ZKAuth::initialize();
    let agent_pubkey = [42u8; 32];
    assert_eq!(auth.start_session(USER, agent_pubkey, [7u8; 32], 1000, true, 0), Ok(1));
    assert!(auth.is_session_valid(USER, 0));
    assert_eq!(auth.get_agent_pubkey(USER, 0), Some(agent_pubkey));
}

#[test]
fn test_session_expiry() {
    let mut auth = ZKAuth::initialize();
    auth.start_session(USER, [42u8; 32], [7u8; 32], 720, true, 0).unwrap();
    assert!(auth.is_session_valid(USER, 0));
    assert!(!auth.is_session_valid(USER, 721));
    assert_eq!(auth.get_agent_pubkey(USER, 721), None);
}

#[test]
fn test_duplicate_session_replacement() {
    let mut auth = ZKAuth::initialize();
    let pubkey1 = [1u8; 32];
    let pubkey2 = [2u8; 32];
    auth.start_session(USER, pubkey1, [7u8; 32], 1000, true, 0).unwrap();
    assert_eq!(auth.get_agent_pubkey(USER, 0), Some(pubkey1));
    assert_eq!(auth.start_session(USER, pubkey2, [7u8; 32], 2000, true, 0), Ok(2));
    assert_eq!(auth.get_agent_pubkey(USER, 0), Some(pubkey2));
}

#[test]
fn test_invalidation() {
    let mut auth = ZKAuth::initialize();
    auth.start_session(USER, [42u8; 32], [7u8; 32], 1000, true, 0).unwrap();
    assert!(auth.is_session_valid(USER, 0));
    assert_eq!(auth.invalidate_session(USER), 1);
    assert!(!auth.is_session_valid(USER, 0));
    assert_eq!(auth.get_agent_pubkey(USER, 0), None);
    assert_eq!(auth.invalidate_session(USER), 0);
}

#[test]
fn test_is_session_valid_false_after_expiry() {
    let mut auth = ZKAuth::initialize();
    auth.start_session(USER, [42u8; 32], [7u8; 32], MIN_SESSION_LEDGERS, true, 0).unwrap();
    assert!(auth.is_session_valid(USER, MIN_SESSION_LEDGERS - 1));
    assert!(!auth.is_session_valid(USER, MIN_SESSION_LEDGERS));
}

#[test]
fn test_invalid_session_duration_too_short() {
    let mut auth = ZKAuth::initialize();
    assert_eq!(
        auth.start_session(USER, [1u8; 32], [1u8; 32], 100, true, 0),
        Err(Error::InvalidSessionDuration)
    );
}

#[test]
fn test_invalid_session_duration_too_long() {
    let mut auth = ZKAuth::initialize();
    assert_eq!(
        auth.start_session(USER, [1u8; 32], [1u8; 32], 20000, true, 0),
        Err(Error::InvalidSessionDuration)
    );
}

#[test]
fn rejected_proof_starts_no_session() {
    let mut auth = ZKAuth::initialize();
    assert_eq!(
        auth.start_session(USER, [1u8; 32], [1u8; 32], 1000, false, 0),
        Err(Error::ProofVerificationFailed)
    );
    assert!(!auth.is_session_valid(USER, 0));
    assert_eq!(
        auth.start_session(USER, [1u8; 32], [1u8; 32], 1000, true, u32::MAX - 10),
        Err(Error::ArithmeticOverflow)
    );
}
