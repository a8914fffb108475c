use aes::cipher::block_padding::Pkcs7;
use aes::cipher::{BlockModeEncrypt, KeyIvInit};
use base64::prelude::{Engine, BASE64_STANDARD};
use xodus::names::NameMap;
use xodus::shared_key::generate_shared_key;
use xodus::soap::{
    decrypt_cipher_value, decrypt_soap_encrypted_data, Base64Error, CipherData, EncryptedData,
    EncryptedDataError, KeyInfoWrap, RSTError, ReferenceUri, SecurityTokenReference,
};

const NONCE: [u8; 32] = [3u8; 32];
const CLEP_SECRET: [u8; 32] = [11u8; 32];

fn hmac_key(nonce: &[u8]) -> Option<[u8; 32]> {
    Some(generate_shared_key(
        32,
        &CLEP_SECRET,
        "WS-SecureConversation",
        nonce,
    ))
}

fn encrypted(key: [u8; 32], plaintext: &[u8]) -> Vec<u8> {
    let iv = [5u8; 16];
    let mut buf = vec![0u8; plaintext.len() + 32];
    let ct = cbc::Encryptor::<aes::Aes256>::new(&key.into(), &iv.into())
        .encrypt_padded_b2b::<Pkcs7>(plaintext, &mut buf)
        .expect("encrypt");
    let mut body = iv.to_vec();
    body.extend_from_slice(ct);
    body
}

fn encrypted_data_for(plaintext: &str) -> Box<EncryptedData> {
    let body = encrypted(hmac_key(&NONCE).expect("hmac key"), plaintext.as_bytes());
    Box::new(EncryptedData {
        id: "BinaryDAToken0".to_string(),
        xmlns: "http://www.w3.org/2001/04/xmlenc#".to_string(),
        el_type: "http://www.w3.org/2001/04/xmlenc#Element".to_string(),
        key_info: KeyInfoWrap {
            key_name: None,
            security_token_reference: Some(SecurityTokenReference {
                reference: ReferenceUri {
                    uri: "#SignKey".to_string(),
                },
            }),
        },
        cipher_data: CipherData::new(BASE64_STANDARD.encode(&body)),
    })
}

fn as_text(text: &str) -> Result<String, String> {
    Ok(text.to_string())
}

fn as_json(text: &str) -> Result<serde_json::Value, String> {
    quick_xml::de::from_str(text).map_err(|e| e.to_string())
}

fn nonces() -> NameMap<String> {
    let mut nonces = NameMap::new();
    nonces.insert("SignKey".to_string(), BASE64_STANDARD.encode(NONCE));
    nonces
}

#[test]
fn control_small_payload_round_trips() {
    let data = encrypted_data_for("<Root><Token>abc</Token></Root>");
    let out: serde_json::Value =
        decrypt_soap_encrypted_data(data, hmac_key, &nonces(), as_json).expect("should decrypt");
    println!("CONTROL ok -> {out:?}");
}

#[test]
fn payload_larger_than_the_old_8192_cap_round_trips() {
    let pt = format!("<Root><Token>{}</Token></Root>", "A".repeat(9000));
    let data = encrypted_data_for(&pt);
    let _: serde_json::Value = decrypt_soap_encrypted_data(data, hmac_key, &nonces(), as_json)
        .expect("large payload must decrypt cleanly, not panic");
    assert_eq!(
        decrypt_soap_encrypted_data(encrypted_data_for(&pt), hmac_key, &nonces(), as_text),
        Ok(pt)
    );
}

#[test]
fn cipher_value_shorter_than_the_iv_returns_clean_error() {
    let mut data = encrypted_data_for("<Root/>");
    data.cipher_data.cipher_value = BASE64_STANDARD.encode([1u8, 2, 3]);
    let err = decrypt_soap_encrypted_data(data, hmac_key, &nonces(), as_json)
        .expect_err("short cipher_value must be a clean error, not a panic");
    assert!(matches!(err, RSTError::InvalidEncryptedData(_)));
}

#[test]
fn a_text_of_another_shape_is_refused_as_such() {
    let parse = |_: &str| -> Result<u8, String> { Err("no number".to_string()) };
    assert_eq!(
        decrypt_soap_encrypted_data(encrypted_data_for("<Root/>"), hmac_key, &nonces(), parse),
        Err(RSTError::Xml("no number".to_string()))
    );
}

#[test]
fn a_text_comes_out_whatever_the_initialization_vector() {
    let key = [7u8; 32];
    for first in [0u8, 9, 255] {
        let iv = [first; 16];
        let mut buf = [0u8; 48];
        let ct = cbc::Encryptor::<aes::Aes256>::new(&key.into(), &iv.into())
            .encrypt_padded_b2b::<Pkcs7>("grün".as_bytes(), &mut buf)
            .expect("encrypt");
        let body = [&iv[..], ct].concat();
        assert_eq!(
            decrypt_cipher_value(Some(key), &BASE64_STANDARD.encode(body)),
            Ok("grün".to_string())
        );
    }
}

#[test]
fn an_unknown_key_has_no_nonce() {
    let data = encrypted_data_for("<Root/>");
    assert_eq!(
        decrypt_soap_encrypted_data(data, hmac_key, &NameMap::new(), as_text),
        Err(RSTError::MissingNonce)
    );
}

#[test]
fn a_nonce_that_is_no_base64_is_refused() {
    let mut nonces = NameMap::new();
    nonces.insert("SignKey".to_string(), "a*".to_string());
    assert_eq!(
        decrypt_soap_encrypted_data(encrypted_data_for("<Root/>"), hmac_key, &nonces, as_text),
        Err(RSTError::Base64(Base64Error::InvalidByte(1, b'*')))
    );
}

#[test]
fn a_signature_without_key_decrypts_nothing() {
    assert_eq!(
        decrypt_soap_encrypted_data(
            encrypted_data_for("<Root/>"),
            |_: &[u8]| -> Option<[u8; 32]> { None },
            &nonces(),
            as_text
        ),
        Err(RSTError::HmacKey)
    );
}

#[test]
fn each_base64_error_is_told() {
    let decode = |text: &str| decrypt_cipher_value(Some([0; 32]), text);
    assert_eq!(
        decode("AA*A"),
        Err(RSTError::Base64(Base64Error::InvalidByte(2, b'*')))
    );
    assert_eq!(
        decode("AAAAA"),
        Err(RSTError::Base64(Base64Error::InvalidLength(5)))
    );
    assert_eq!(
        decode("AB=="),
        Err(RSTError::Base64(Base64Error::InvalidLastSymbol {
            offset: 1,
            symbol: b'B',
            symbol_value: 1
        }))
    );
    assert_eq!(
        decode("AA="),
        Err(RSTError::Base64(Base64Error::InvalidPadding))
    );
}

#[test]
fn what_is_wrong_with_encrypted_data_is_told() {
    let key = [7u8; 32];
    let error = |bytes: &[u8]| match decrypt_cipher_value(Some(key), &BASE64_STANDARD.encode(bytes)) {
        Err(RSTError::InvalidEncryptedData(e)) => e,
        other => panic!("{other:?}"),
    };
    assert_eq!(error(&[1; 15]), EncryptedDataError::ShorterThanIv(15));
    assert_eq!(
        error(&[1; 15]).message(),
        "cipher_value is 15 bytes, shorter than the 16-byte IV"
    );
    // Sixteen bytes are an initialization vector and no block at all.
    assert_eq!(error(&[1; 16]), EncryptedDataError::Unpadding);
    assert_eq!(error(&[1; 16]).message(), "PKCS7 unpadding failed");
    let mut cut = encrypted(key, b"sixteen bytes ok");
    cut.pop();
    assert_eq!(error(&cut), EncryptedDataError::Unpadding);
    assert_eq!(
        error(&encrypted(key, &[0xff, 0xfe])),
        EncryptedDataError::NotUtf8
    );
    assert_eq!(
        EncryptedDataError::NotUtf8.message(),
        "decrypted payload is not valid UTF-8"
    );
}

#[test]
fn ciphertext_is_whole_blocks_and_longer_than_the_text() {
    let key = [7u8; 32];
    for len in [0usize, 1, 15, 16, 17] {
        let text = "x".repeat(len);
        let bytes = encrypted(key, text.as_bytes());
        assert_eq!(bytes.len() % 16, 0);
        assert!(len + 16 < bytes.len() && bytes.len() <= len + 32);
        assert_eq!(
            decrypt_cipher_value(Some(key), &BASE64_STANDARD.encode(&bytes)),
            Ok(text)
        );
    }
}
