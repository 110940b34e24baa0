//! The key pair of a login attempt: generating it, writing the public key
//! out for transport, and decrypting the token that the provider sends back.

use crate::text::{begins_with, finishes_with};
use vstd::prelude::*;

verus! {

/// The private key of the `rsa` crate. Nothing of its inside is visible here.
#[verifier::external_type_specification]
#[verifier::external_body]
pub struct ExRsaPrivateKey(rsa::RsaPrivateKey);

/// The public key of the `rsa` crate. Nothing of its inside is visible here.
#[verifier::external_type_specification]
#[verifier::external_body]
pub struct ExRsaPublicKey(rsa::RsaPublicKey);

/// Why a step of the key handling failed. Each aborts the login attempt that
/// it belongs to and nothing else.
#[derive(Debug, Clone, Copy, PartialEq, Eq, Structural)]
pub enum CryptoError {
    /// No key pair could be generated.
    KeyGeneration,
    /// The public key could not be written out.
    Encoding,
    /// The encrypted token is no base64 text.
    Base64,
    /// The ciphertext does not decrypt under the private key.
    Decryption,
    /// The decrypted bytes are no UTF-8 text.
    InvalidText,
}

/// The modulus length of the key pair of a login attempt, in bits.
pub const KEY_BITS: usize = 2048;

/// The shortest modulus, in bits, for which a key pair is generated.
pub const MIN_KEY_BITS: usize = 512;

/// The bytes that the `base64` crate's standard engine decodes `text` to;
/// `None` where it rejects `text`.
pub uninterp spec fn base64_standard_decode(text: Seq<char>) -> Option<Seq<u8>>;

/// The length in bits of the modulus of the private key `private_key`.
pub uninterp spec fn rsa_modulus_bits(private_key: rsa::RsaPrivateKey) -> nat;

/// Calls `rsa::RsaPrivateKey::new` with the operating system's random number
/// generator. The key depends on chance, and generation may fail; a key that
/// it gives has a modulus of exactly the length asked for.
#[verifier::external_body]
fn rsa_generate_private_key(bits: usize) -> (r: Option<rsa::RsaPrivateKey>)
    requires
        bits >= MIN_KEY_BITS,
    ensures
        r is Some ==> rsa_modulus_bits(r->0) == bits,
{
    rsa::RsaPrivateKey::new(&mut rand::rngs::OsRng, bits).ok()
}

/// Calls `rsa::traits::PublicKeyParts::n` on the key and `bits` on the
/// modulus that it gives: the length of the modulus in bits.
#[verifier::external_body]
fn modulus_bits(private_key: &rsa::RsaPrivateKey) -> (r: usize)
    ensures
        r == rsa_modulus_bits(*private_key),
{
    rsa::traits::PublicKeyParts::n(private_key).bits()
}

/// The length in bits of the modulus of `private_key`.
pub fn key_length(private_key: &rsa::RsaPrivateKey) -> (r: usize)
    ensures
        r == rsa_modulus_bits(*private_key),
{
    modulus_bits(private_key)
}

/// The public half of the private key `private_key`, as the `rsa` crate
/// takes it out of the key.
pub uninterp spec fn rsa_public_half(private_key: rsa::RsaPrivateKey) -> rsa::RsaPublicKey;

/// The PEM text in which the `rsa` crate writes the public key `public_key`
/// out, with line feeds as line endings; `None` where it cannot write it.
pub uninterp spec fn public_key_pem_text(public_key: rsa::RsaPublicKey) -> Option<Seq<char>>;

/// The plaintext that the `rsa` crate decrypts `ciphertext` to under the
/// private key `private_key` and PKCS#1 v1.5 padding, without blinding;
/// `None` where the ciphertext does not decrypt under the key.
pub uninterp spec fn rsa_pkcs1v15_decryption(
    private_key: rsa::RsaPrivateKey,
    ciphertext: Seq<u8>,
) -> Option<Seq<u8>>;

/// Calls `rsa::RsaPublicKey::from` on a private key: the public half of the
/// pair. The contract only names the result.
#[verifier::external_body]
fn rsa_public_key(private_key: &rsa::RsaPrivateKey) -> (r: rsa::RsaPublicKey)
    ensures
        r == rsa_public_half(*private_key),
{
    rsa::RsaPublicKey::from(private_key)
}

/// Whether `text` is framed as a PEM document that holds a public key: it
/// begins with the line `-----BEGIN PUBLIC KEY-----` and ends with the line
/// `-----END PUBLIC KEY-----`, each line closed by a line feed.
pub open spec fn is_public_key_pem(text: Seq<char>) -> bool {
    begins_with(text, "-----BEGIN PUBLIC KEY-----\n"@) && finishes_with(
        text,
        "\n-----END PUBLIC KEY-----\n"@,
    )
}

/// Calls `rsa::pkcs8::EncodePublicKey::to_public_key_pem` with line feeds as
/// line endings. The contract names the text that it gives, and says that
/// the text is framed by the two boundary lines of a public key.
#[verifier::external_body]
fn rsa_public_key_pem(public_key: &rsa::RsaPublicKey) -> (r: Option<String>)
    ensures
        match r {
            Some(pem) => public_key_pem_text(*public_key) == Some(pem@) && is_public_key_pem(pem@),
            None => public_key_pem_text(*public_key) is None,
        },
{
    rsa::pkcs8::EncodePublicKey::to_public_key_pem(public_key, rsa::pkcs8::LineEnding::LF).ok()
}

/// Calls `rsa::RsaPrivateKey::decrypt` with the padding scheme
/// `rsa::Pkcs1v15Encrypt`: the plaintext, or `None` where the ciphertext does
/// not decrypt under the key. The contract only names the result.
#[verifier::external_body]
fn rsa_decrypt(private_key: &rsa::RsaPrivateKey, ciphertext: &[u8]) -> (r: Option<Vec<u8>>)
    ensures
        bytes_view(r) == rsa_pkcs1v15_decryption(*private_key, ciphertext@),
{
    private_key.decrypt(rsa::Pkcs1v15Encrypt, ciphertext).ok()
}

/// Calls `base64::Engine::decode` on `base64::engine::general_purpose::STANDARD`.
/// The contract only names the result.
#[verifier::external_body]
fn base64_decode(text: &str) -> (r: Option<Vec<u8>>)
    ensures
        match r {
            Some(bytes) => base64_standard_decode(text@) == Some(bytes@),
            None => base64_standard_decode(text@) is None,
        },
{
    base64::Engine::decode(&base64::engine::general_purpose::STANDARD, text).ok()
}

/// Calls `String::from_utf8`: the text that the bytes encode, or `None` where
/// they are no UTF-8.
#[verifier::external_body]
fn utf8_text(bytes: Vec<u8>) -> (r: Option<String>)
    ensures
        r is Some <==> vstd::utf8::valid_utf8(bytes@),
        r is Some ==> r->0@ == vstd::utf8::decode_utf8(bytes@),
{
    String::from_utf8(bytes).ok()
}

/// Generates a fresh key pair with a modulus of `bits` bits. A length below
/// [`MIN_KEY_BITS`] is refused; otherwise the outcome is up to the generator.
pub fn generate_key_pair_of(bits: usize) -> (r: Result<
    (rsa::RsaPrivateKey, rsa::RsaPublicKey),
    CryptoError,
>)
    ensures
        bits < MIN_KEY_BITS ==> r is Err,
        r is Err ==> r->Err_0 == CryptoError::KeyGeneration,
        r is Ok ==> r->Ok_0.1 == rsa_public_half(r->Ok_0.0),
        r is Ok ==> rsa_modulus_bits(r->Ok_0.0) == bits,
{
    if bits < MIN_KEY_BITS {
        return Err(CryptoError::KeyGeneration);
    }
    key_pair_from_private(rsa_generate_private_key(bits))
}

/// What a generation comes to: the private key that it gave together with
/// its public half, or an error where it gave none.
pub fn key_pair_from_private(generated: Option<rsa::RsaPrivateKey>) -> (r: Result<
    (rsa::RsaPrivateKey, rsa::RsaPublicKey),
    CryptoError,
>)
    ensures
        match generated {
            Some(private_key) => r is Ok && r->Ok_0.0 == private_key && r->Ok_0.1
                == rsa_public_half(private_key),
            None => r is Err && r->Err_0 == CryptoError::KeyGeneration,
        },
{
    match generated {
        Some(private_key) => {
            let public_key = rsa_public_key(&private_key);
            Ok((private_key, public_key))
        },
        None => Err(CryptoError::KeyGeneration),
    }
}

/// Generates the fresh key pair of a login attempt, with a modulus of
/// [`KEY_BITS`] bits.
pub fn generate_key_pair() -> (r: Result<(rsa::RsaPrivateKey, rsa::RsaPublicKey), CryptoError>)
    ensures
        r is Err ==> r->Err_0 == CryptoError::KeyGeneration,
        r is Ok ==> r->Ok_0.1 == rsa_public_half(r->Ok_0.0),
        r is Ok ==> rsa_modulus_bits(r->Ok_0.0) == KEY_BITS,
{
    generate_key_pair_of(KEY_BITS)
}

/// The PEM text of `public_key`, or the error where the key could not be
/// written out.
pub open spec fn pem_of_public_key(public_key: rsa::RsaPublicKey) -> Result<Seq<char>, CryptoError> {
    match public_key_pem_text(public_key) {
        Some(pem) => Ok(pem),
        None => Err(CryptoError::Encoding),
    }
}

/// The public key in its PEM text form, ready to be percent-encoded into an
/// address: the text in which the key is written out, framed by the boundary
/// lines of a public key. The only error is that the key could not be
/// written out.
pub fn get_public_key_pem(public_key: &rsa::RsaPublicKey) -> (r: Result<String, CryptoError>)
    ensures
        text_result_view(r) == pem_of_public_key(*public_key),
        r is Ok ==> is_public_key_pem(r->Ok_0@),
{
    match rsa_public_key_pem(public_key) {
        Some(pem) => Ok(pem),
        None => Err(CryptoError::Encoding),
    }
}

/// The token that a decryption gave: the text that the plaintext encodes.
pub open spec fn token_of_plaintext(plaintext: Option<Seq<u8>>) -> Result<Seq<char>, CryptoError> {
    match plaintext {
        None => Err(CryptoError::Decryption),
        Some(bytes) => if vstd::utf8::valid_utf8(bytes) {
            Ok(vstd::utf8::decode_utf8(bytes))
        } else {
            Err(CryptoError::InvalidText)
        },
    }
}

/// A result as the contracts see it.
pub open spec fn text_result_view(r: Result<String, CryptoError>) -> Result<
    Seq<char>,
    CryptoError,
> {
    match r {
        Ok(text) => Ok(text@),
        Err(error) => Err(error),
    }
}

/// Bytes as the contracts see them.
pub open spec fn bytes_view(bytes: Option<Vec<u8>>) -> Option<Seq<u8>> {
    match bytes {
        Some(b) => Some(b@),
        None => None,
    }
}

/// Reads the token out of what the decryption gave: a failed decryption and
/// a plaintext that is no UTF-8 text each give their error.
pub fn token_from_plaintext(plaintext: Option<Vec<u8>>) -> (r: Result<String, CryptoError>)
    ensures
        text_result_view(r) == token_of_plaintext(bytes_view(plaintext)),
{
    match plaintext {
        None => Err(CryptoError::Decryption),
        Some(bytes) => match utf8_text(bytes) {
            Some(token) => Ok(token),
            None => Err(CryptoError::InvalidText),
        },
    }
}

/// The token that the base64 text `encrypted_token` holds for the owner of
/// `private_key`: text that is no base64 is an error; otherwise the token is
/// what the decryption of the decoded bytes gives.
pub open spec fn decrypted_token(encrypted_token: Seq<char>, private_key: rsa::RsaPrivateKey) -> Result<
    Seq<char>,
    CryptoError,
> {
    match base64_standard_decode(encrypted_token) {
        None => Err(CryptoError::Base64),
        Some(ciphertext) => token_of_plaintext(rsa_pkcs1v15_decryption(private_key, ciphertext)),
    }
}

/// Decrypts the token that the provider sent: base64 text of a ciphertext
/// made with the public key under PKCS#1 v1.5 padding.
pub fn decrypt_token(encrypted_token: &str, private_key: &rsa::RsaPrivateKey) -> (r: Result<
    String,
    CryptoError,
>)
    ensures
        text_result_view(r) == decrypted_token(encrypted_token@, *private_key),
{
    match base64_decode(encrypted_token) {
        None => Err(CryptoError::Base64),
        Some(ciphertext) => token_from_plaintext(rsa_decrypt(private_key, ciphertext.as_slice())),
    }
}

} // verus!
