use base64::prelude::{Engine, BASE64_STANDARD};
use rsa::pkcs8::{EncodePrivateKey, LineEnding};
use rsa::rand_core::OsRng;
use rsa::{Pkcs1v15Sign, RsaPrivateKey};
use sha2::{Digest, Sha256};
use xodus::signing::{sign_xml, RSTBuilderError, SigningKey};

const TEMPLATE: &str = "<?xml version=\"1.0\"?><Envelope xmlns=\"urn:x\" ID=\"e\"><Body  b=\"1\"   a=\"2\"/>\
     <Signature xmlns=\"http://www.w3.org/2000/09/xmldsig#\"><SignedInfo>\
     <CanonicalizationMethod Algorithm=\"http://www.w3.org/2001/10/xml-exc-c14n#\"/>\
     <SignatureMethod Algorithm=\"http://www.w3.org/2001/04/xmldsig-more#hmac-sha256\"/>\
     <Reference URI=\"\"><Transforms>\
     <Transform Algorithm=\"http://www.w3.org/2000/09/xmldsig#enveloped-signature\"/>\
     </Transforms><DigestMethod Algorithm=\"http://www.w3.org/2001/04/xmlenc#sha256\"/>\
     <DigestValue></DigestValue></Reference></SignedInfo><SignatureValue></SignatureValue>\
     </Signature></Envelope>";

fn key_for(nonce: &[u8]) -> Result<SigningKey, RSTBuilderError> {
    Ok(SigningKey::Hmac(nonce.to_vec()))
}

fn no_key(_: &[u8]) -> Result<SigningKey, RSTBuilderError> {
    Err(RSTBuilderError::SigningKey("no key".to_string()))
}

fn signature(
    key: fn(&[u8]) -> Result<SigningKey, RSTBuilderError>,
) -> Option<fn(&[u8]) -> Result<SigningKey, RSTBuilderError>> {
    Some(key)
}

#[test]
fn a_message_without_signature_stays_as_it_is() {
    let none: Option<fn(&[u8]) -> Result<SigningKey, RSTBuilderError>> = None;
    assert_eq!(
        sign_xml(none, b"nonce", "<a  b='1'/>".to_string()).unwrap(),
        "<a  b='1'/>"
    );
}

#[test]
fn the_canonical_form_of_a_message_is_signed() {
    let signed = sign_xml(signature(key_for), b"secret", TEMPLATE.to_string()).unwrap();
    assert!(signed.contains("<Body a=\"2\" b=\"1\"></Body>"), "{signed}");
    assert!(
        signed.contains("UWXn04Mu/AkY332DhFGkc6oKxhfTl+Ig7pYMWu0UPis="),
        "{signed}"
    );
    assert!(
        signed.contains("khKeCen7ZvD+XLz/VJz/rKr/GIi6QM63wALUyLzztCI="),
        "{signed}"
    );
}

#[test]
fn the_signature_depends_on_the_key_for_the_nonce() {
    let one = sign_xml(signature(key_for), b"secret", TEMPLATE.to_string()).unwrap();
    let other = sign_xml(signature(key_for), b"other", TEMPLATE.to_string()).unwrap();
    assert_ne!(one, other);
}

#[test]
fn a_message_that_is_no_xml_is_refused_before_the_key_is_asked_for() {
    assert!(matches!(
        sign_xml(signature(no_key), b"nonce", "<a".to_string()),
        Err(RSTBuilderError::Xml(_))
    ));
}

#[test]
fn a_signature_without_key_is_passed_on() {
    assert!(matches!(
        sign_xml(signature(no_key), b"nonce", TEMPLATE.to_string()),
        Err(RSTBuilderError::SigningKey(e)) if e == "no key"
    ));
}

#[test]
fn a_message_without_a_place_for_the_signature_cannot_be_signed() {
    assert!(matches!(
        sign_xml(signature(key_for), b"secret", "<a/>".to_string()),
        Err(RSTBuilderError::Xml(_))
    ));
}

#[test]
fn a_broken_rsa_key_cannot_sign() {
    let broken: fn(&[u8]) -> Result<SigningKey, RSTBuilderError> =
        |_| Ok(SigningKey::Rsa(b"no pem".to_vec()));
    assert!(matches!(
        sign_xml(Some(broken), b"nonce", TEMPLATE.to_string()),
        Err(RSTBuilderError::Xml(_))
    ));
}

#[test]
fn a_message_can_be_signed_with_an_rsa_key() {
    let key = RsaPrivateKey::new(&mut OsRng, 1024).unwrap();
    let pem = key.to_pkcs8_pem(LineEnding::LF).unwrap().as_bytes().to_vec();
    let template = TEMPLATE.replace("hmac-sha256", "rsa-sha256");
    let signed = sign_xml(
        Some(|_: &[u8]| Ok(SigningKey::Rsa(pem.clone()))),
        b"nonce",
        template,
    )
    .unwrap();
    let between = |start: &str, end: &str| {
        let rest = &signed[signed.find(start).unwrap()..];
        rest[..rest.find(end).unwrap()].to_string()
    };
    let info = between("<SignedInfo>", "<SignatureValue").replacen(
        "<SignedInfo>",
        "<SignedInfo xmlns=\"http://www.w3.org/2000/09/xmldsig#\">",
        1,
    );
    let value = between("<SignatureValue>", "</SignatureValue>").replace("<SignatureValue>", "");
    let compact: String = value.split_whitespace().collect();
    key.to_public_key()
        .verify(
            Pkcs1v15Sign {
                hash_len: Some(32),
                // What names SHA-256 in front of a digest.
                prefix: vec![
                    0x30, 0x31, 0x30, 0x0d, 0x06, 0x09, 0x60, 0x86, 0x48, 0x01, 0x65, 0x03, 0x04,
                    0x02, 0x01, 0x05, 0x00, 0x04, 0x20,
                ]
                .into_boxed_slice(),
            },
            &Sha256::digest(info.as_bytes()),
            &BASE64_STANDARD.decode(compact).unwrap(),
        )
        .unwrap();
}
