use gmessages::models::{GMError, GMPairingState};
use gmessages::session::{GMSession, GMSessionState};
use gmessages::session_file::{
    decrypt_session, encrypt_session, encrypt_session_with_nonce, open_session_file, GMEncryptedSession,
};

const KEY: [u8; 32] = [7u8; 32];

#[test]
fn encrypted_session_opens_to_its_text() {
    let stored = encrypt_session(&KEY, "{\"cookies\":\"SID=1\"}").unwrap();
    assert_eq!(decrypt_session(&KEY, &stored).unwrap(), "{\"cookies\":\"SID=1\"}");
    match open_session_file(&KEY, &stored) {
        Some(Ok(text)) => assert_eq!(text, "{\"cookies\":\"SID=1\"}"),
        other => panic!("unexpected {:?}", other),
    }
}

#[test]
fn encryption_with_fixed_nonce() {
    let nonce = [0u8; 12];
    let stored = encrypt_session_with_nonce(&KEY, "hello", &nonce).unwrap();
    assert_eq!(stored.nonce, "AAAAAAAAAAAAAAAA");
    // 5 bytes of text and a 16-byte tag: 21 bytes, 28 base64 characters.
    assert_eq!(stored.ciphertext.len(), 28);
    assert_ne!(stored.ciphertext, "aGVsbG8=");
    let again = encrypt_session_with_nonce(&KEY, "hello", &nonce).unwrap();
    assert_eq!(again.ciphertext, stored.ciphertext);
    assert_eq!(decrypt_session(&KEY, &stored).unwrap(), "hello");
}

#[test]
fn wrong_key_is_an_auth_error() {
    let stored = encrypt_session(&KEY, "secret").unwrap();
    let other = [8u8; 32];
    match decrypt_session(&other, &stored) {
        Err(GMError::AuthError { message }) => assert_eq!(message, "Decryption failed: aead::Error"),
        other => panic!("unexpected {:?}", other),
    }
}

#[test]
fn bad_encodings_are_reported() {
    let bad_ciphertext = GMEncryptedSession { ciphertext: "!!!".to_string(), nonce: "AAAAAAAAAAAAAAAA".to_string() };
    match decrypt_session(&KEY, &bad_ciphertext) {
        Err(GMError::Unknown { message }) => assert!(message.starts_with("Invalid ciphertext encoding: ")),
        other => panic!("unexpected {:?}", other),
    }
    let bad_nonce = GMEncryptedSession { ciphertext: "AAAA".to_string(), nonce: "***".to_string() };
    match decrypt_session(&KEY, &bad_nonce) {
        Err(GMError::Unknown { message }) => assert!(message.starts_with("Invalid nonce encoding: ")),
        other => panic!("unexpected {:?}", other),
    }
    let short_nonce = GMEncryptedSession { ciphertext: "AAAA".to_string(), nonce: "AAAA".to_string() };
    assert!(open_session_file(&KEY, &short_nonce).is_none());
}

#[test]
fn session_expiry_after_seven_days() {
    let s = GMSession::new_at("c".to_string(), 0);
    assert!(!s.is_likely_expired_at(7 * 24 * 60 * 60 * 1000));
    assert!(s.is_likely_expired_at(7 * 24 * 60 * 60 * 1000 + 1));
    let mut t = s.clone();
    t.touch_at(500);
    assert_eq!(t.last_active_at, 500);
    assert_eq!(t.created_at, 0);
}

#[test]
fn session_state_transitions() {
    let mut st = GMSessionState::new();
    assert_eq!(st.get_pairing_state(), GMPairingState::NotPaired);
    assert!(!st.is_paired());
    assert_eq!(st.get_cookies(), None);

    let fresh = GMSession::new_at("SID=1".to_string(), 1_000);
    assert!(st.apply_loaded_session(fresh, 2_000));
    assert!(st.is_paired());
    assert_eq!(st.get_cookies(), Some("SID=1".to_string()));

    let stale = GMSession::new_at("SID=2".to_string(), 0);
    assert!(!st.apply_loaded_session(stale, 8 * 24 * 60 * 60 * 1000));
    assert_eq!(st.get_pairing_state(), GMPairingState::Expired);
    assert!(st.has_session());

    st.mark_expired();
    assert_eq!(st.get_pairing_state(), GMPairingState::Expired);
    st.logout();
    assert_eq!(st.get_pairing_state(), GMPairingState::NotPaired);
    assert!(!st.has_session());
}

#[test]
fn gm_error_texts() {
    assert_eq!(GMError::NotPaired.to_string(), "Not paired with Google Messages");
    assert_eq!(GMError::SessionExpired.to_string(), "Google Messages session expired");
    assert_eq!(GMError::AuthError { message: "x".to_string() }.to_string(), "Authentication error: x");
    assert_eq!(GMError::NetworkError { message: "x".to_string() }.to_string(), "Network error: x");
    assert_eq!(GMError::DatabaseError { message: "x".to_string() }.to_string(), "Database error: x");
    assert_eq!(GMError::Unknown { message: "x".to_string() }.to_string(), "Unknown error: x");
}
