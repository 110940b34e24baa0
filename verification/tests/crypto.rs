use base64::Engine;
use driftwood::crypto::{
    decrypt_token, generate_key_pair_of, get_public_key_pem, key_length, key_pair_from_private,
    token_from_plaintext, CryptoError, KEY_BITS, MIN_KEY_BITS,
};
use rsa::pkcs8::DecodePublicKey;

fn encrypt(secret: &[u8], public_key: &rsa::RsaPublicKey) -> String {
    let ciphertext =
        public_key.encrypt(&mut rand::rngs::OsRng, rsa::Pkcs1v15Encrypt, secret).unwrap();
    base64::engine::general_purpose::STANDARD.encode(ciphertext)
}

#[test]
fn key_lengths() {
    assert_eq!(KEY_BITS, 2048);
    assert_eq!(MIN_KEY_BITS, 512);
}

#[test]
fn short_keys_are_refused() {
    assert_eq!(generate_key_pair_of(0).err(), Some(CryptoError::KeyGeneration));
    assert_eq!(generate_key_pair_of(511).err(), Some(CryptoError::KeyGeneration));
}

#[test]
fn decrypt_inverts_encrypt() {
    let (private_key, public_key) = generate_key_pair_of(512).unwrap();
    for secret in ["token-123", "", "nfp_ÅÄÖ secret with spaces", "a"] {
        let encrypted = encrypt(secret.as_bytes(), &public_key);
        assert_eq!(decrypt_token(&encrypted, &private_key), Ok(secret.to_string()));
    }
}

#[test]
fn decrypt_with_other_key_fails() {
    let (_, public_key) = generate_key_pair_of(512).unwrap();
    let (other_private_key, _) = generate_key_pair_of(512).unwrap();
    let encrypted = encrypt(b"token-123", &public_key);
    assert!(decrypt_token(&encrypted, &other_private_key).is_err());
}

#[test]
fn decrypt_of_text_that_is_no_base64_is_a_base64_error() {
    let (private_key, _) = generate_key_pair_of(512).unwrap();
    assert_eq!(decrypt_token("not base64!", &private_key), Err(CryptoError::Base64));
    assert_eq!(decrypt_token("abc", &private_key), Err(CryptoError::Base64));
}

#[test]
fn decrypt_of_garbage_is_a_decryption_error() {
    let (private_key, _) = generate_key_pair_of(512).unwrap();
    let garbage = base64::engine::general_purpose::STANDARD.encode([7u8; 128]);
    assert_eq!(decrypt_token(&garbage, &private_key), Err(CryptoError::Decryption));
    assert_eq!(decrypt_token("", &private_key), Err(CryptoError::Decryption));
}

#[test]
fn decrypted_bytes_that_are_no_text_are_rejected() {
    let (private_key, public_key) = generate_key_pair_of(512).unwrap();
    let encrypted = encrypt(&[0xff, 0xfe, 0x00], &public_key);
    assert_eq!(decrypt_token(&encrypted, &private_key), Err(CryptoError::InvalidText));
}

#[test]
fn token_from_plaintext_reads_utf8() {
    assert_eq!(token_from_plaintext(None), Err(CryptoError::Decryption));
    assert_eq!(token_from_plaintext(Some(b"abc".to_vec())), Ok("abc".to_string()));
    assert_eq!(token_from_plaintext(Some(Vec::new())), Ok(String::new()));
    assert_eq!(token_from_plaintext(Some("é".as_bytes().to_vec())), Ok("é".to_string()));
    assert_eq!(token_from_plaintext(Some(vec![0xc3])), Err(CryptoError::InvalidText));
}

#[test]
fn public_key_pem_reads_back() {
    let (_, public_key) = generate_key_pair_of(512).unwrap();
    let pem = get_public_key_pem(&public_key).unwrap();
    assert!(pem.starts_with("-----BEGIN PUBLIC KEY-----\n"));
    assert!(pem.ends_with("-----END PUBLIC KEY-----\n"));
    assert!(!pem.contains('\r'));
    assert_eq!(rsa::RsaPublicKey::from_public_key_pem(&pem).unwrap(), public_key);
}

#[test]
fn pair_is_made_of_the_generated_key_and_its_public_half() {
    assert_eq!(key_pair_from_private(None).err(), Some(CryptoError::KeyGeneration));
    let generated = rsa::RsaPrivateKey::new(&mut rand::rngs::OsRng, 512).unwrap();
    let (private_key, public_key) = key_pair_from_private(Some(generated.clone())).unwrap();
    assert_eq!(private_key, generated);
    assert_eq!(public_key, rsa::RsaPublicKey::from(&generated));
    let encrypted = encrypt(b"for this pair", &public_key);
    assert_eq!(decrypt_token(&encrypted, &private_key), Ok("for this pair".to_string()));
}

#[test]
fn public_key_pem_is_framed_for_every_key() {
    for _ in 0..3 {
        let (_, public_key) = generate_key_pair_of(512).unwrap();
        let pem = get_public_key_pem(&public_key).unwrap();
        assert!(pem.starts_with("-----BEGIN PUBLIC KEY-----\n"));
        assert!(pem.ends_with("\n-----END PUBLIC KEY-----\n"));
    }
}

#[test]
fn generated_key_has_the_length_asked_for() {
    for bits in [512, 768] {
        let (private_key, _) = generate_key_pair_of(bits).unwrap();
        assert_eq!(key_length(&private_key), bits);
    }
}
