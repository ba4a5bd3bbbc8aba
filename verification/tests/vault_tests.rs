use base64::Engine;
use lotion_rs::vault::{
    decrypt_data, encrypt_data, get_encryption_key, next_load_step, open_state, seal_state,
    try_open_state, EncryptedState, LoadStep, Unsealed,
};
use lotion_rs::state::AppState;

fn b64(d: &[u8]) -> String {
    base64::engine::general_purpose::STANDARD.encode(d)
}

#[test]
fn key_is_pbkdf2_sha256_of_secret_and_salt() {
    let key = get_encryption_key(b"app-secret", "/home/user/.config/lotion-rs");
    assert_eq!(
        key,
        [13, 201, 133, 164, 235, 201, 194, 32, 212, 249, 190, 49, 142, 54, 230, 81, 254, 42, 147,
         231, 214, 80, 50, 180, 156, 60, 52, 63, 247, 125, 61, 121]
    );
}

#[test]
fn encrypt_gives_twelve_byte_nonce_and_tagged_ciphertext() {
    let key = [7u8; 32];
    let (c, n) = encrypt_data(b"hello", &key).unwrap();
    assert_eq!(n.len(), 12);
    assert_eq!(c.len(), 5 + 16);
    assert_ne!(&c[..5], b"hello");
    assert_eq!(decrypt_data(&c, &n, &key).unwrap(), b"hello".to_vec());
}

#[test]
fn decrypt_known_ciphertext() {
    let key: Vec<u8> = (0u8..32).collect();
    let key: [u8; 32] = key.try_into().unwrap();
    let nonce: Vec<u8> = (0u8..12).collect();
    let ct = [60, 32, 161, 114, 171, 129, 173, 108, 254, 99, 173, 240, 204, 148, 79, 112, 244, 129,
              235, 132, 95, 178, 100, 130, 56, 170, 45, 71, 124, 200];
    assert_eq!(decrypt_data(&ct, &nonce, &key).unwrap(), br#"{"windows":{}}"#.to_vec());
}

#[test]
fn decrypt_with_wrong_key_fails() {
    let (c, n) = encrypt_data(b"secret", &[1u8; 32]).unwrap();
    assert_eq!(decrypt_data(&c, &n, &[2u8; 32]), Err("Decryption error: Error".to_string()));
}

#[test]
fn sealed_state_opens_to_its_plaintext() {
    let key = [9u8; 32];
    let plaintext = r#"{"windows":{},"tabs":{},"focused_window_id":null}"#;
    let e = seal_state(plaintext, &key).unwrap();
    let nonce = base64::engine::general_purpose::STANDARD.decode(&e.nonce).unwrap();
    assert_eq!(nonce.len(), 12);
    let data = base64::engine::general_purpose::STANDARD.decode(&e.data).unwrap();
    assert_eq!(data.len(), plaintext.len() + 16);
    match open_state(&e, &key) {
        Unsealed::Plaintext(p) => assert_eq!(p, plaintext),
        other => panic!("unexpected {:?}", other),
    }
}

#[test]
fn opening_known_state() {
    let key: Vec<u8> = (0u8..32).collect();
    let key: [u8; 32] = key.try_into().unwrap();
    let e = EncryptedState {
        data: "PCChcquBrWz+Y63wzJRPcPSB64RfsmSCOKotR3zI".to_string(),
        nonce: "AAECAwQFBgcICQoL".to_string(),
    };
    match open_state(&e, &key) {
        Unsealed::Plaintext(p) => assert_eq!(p, r#"{"windows":{}}"#),
        other => panic!("unexpected {:?}", other),
    }
}

#[test]
fn opening_reports_each_failing_step() {
    let key = [3u8; 32];
    let bad_data = EncryptedState { data: "***".to_string(), nonce: b64(&[0u8; 12]) };
    assert!(matches!(open_state(&bad_data, &key), Unsealed::DataNotBase64));
    let bad_nonce = EncryptedState { data: b64(b"abc"), nonce: "***".to_string() };
    assert!(matches!(open_state(&bad_nonce, &key), Unsealed::NonceNotBase64));
    let forged = EncryptedState { data: b64(&[0u8; 32]), nonce: b64(&[0u8; 12]) };
    assert!(matches!(open_state(&forged, &key), Unsealed::Undecryptable));
    let (c, n) = encrypt_data(&[0xff, 0xfe], &key).unwrap();
    let not_utf8 = EncryptedState { data: b64(&c), nonce: b64(&n) };
    assert!(matches!(open_state(&not_utf8, &key), Unsealed::NotUtf8));
}

#[test]
fn nonce_of_wrong_length_is_caught_before_decrypting() {
    let key = [3u8; 32];
    let short = EncryptedState { data: b64(b"abc"), nonce: b64(&[0u8; 8]) };
    assert!(try_open_state(&short, &key).is_none());
    let bad_data = EncryptedState { data: "***".to_string(), nonce: b64(&[0u8; 8]) };
    assert!(matches!(try_open_state(&bad_data, &key), Some(Unsealed::DataNotBase64)));
    let e = seal_state("x", &key).unwrap();
    assert!(matches!(try_open_state(&e, &key), Some(Unsealed::Plaintext(_))));
}

#[test]
fn load_steps_follow_the_opening() {
    assert!(matches!(next_load_step(None, None), LoadStep::FallBackToPlaintext));
    assert!(matches!(next_load_step(Some(Unsealed::DataNotBase64), None), LoadStep::Finished(None)));
    assert!(matches!(next_load_step(Some(Unsealed::NonceNotBase64), None), LoadStep::Finished(None)));
    assert!(matches!(next_load_step(Some(Unsealed::Undecryptable), None), LoadStep::FallBackToPlaintext));
    assert!(matches!(next_load_step(Some(Unsealed::NotUtf8), None), LoadStep::FallBackToPlaintext));
    assert!(matches!(
        next_load_step(Some(Unsealed::Plaintext("{}".to_string())), None),
        LoadStep::FallBackToPlaintext
    ));
    let mut s = AppState::new();
    s.ensure_main_window();
    match next_load_step(Some(Unsealed::Plaintext("{}".to_string())), Some(s)) {
        LoadStep::Finished(Some(loaded)) => assert!(loaded.window("main").is_some()),
        _ => panic!("expected the decoded state"),
    }
}

#[test]
fn a_freshly_sealed_state_is_accepted_for_opening() {
    let key = [5u8; 32];
    let e = seal_state(r#"{"tabs":{}}"#, &key).unwrap();
    match try_open_state(&e, &key) {
        Some(Unsealed::Plaintext(p)) => assert_eq!(p, r#"{"tabs":{}}"#),
        other => panic!("unexpected {:?}", other),
    }
}
