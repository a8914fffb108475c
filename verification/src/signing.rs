//! Signatures of request messages.

use bergshamra::keys::loader::{load_hmac_key, load_rsa_private_pem};
use vstd::pervasive::unreached;
use vstd::prelude::*;
use vstd::utf8::{decode_utf8, valid_utf8};

use crate::text::text_from_utf8;

verus! {

/// The secret that a message is signed with.
#[derive(Clone)]
pub enum SigningKey {
    /// The bytes of a shared secret.
    Hmac(Vec<u8>),
    /// An RSA private key in PEM.
    Rsa(Vec<u8>),
}

impl SigningKey {
    pub open spec fn is_rsa(&self) -> bool {
        self is Rsa
    }

    /// The bytes of the key.
    pub open spec fn bytes(&self) -> Seq<u8> {
        match self {
            SigningKey::Hmac(bytes) => bytes@,
            SigningKey::Rsa(pem) => pem@,
        }
    }
}

/// Why a request could not be built.
#[derive(Clone, Debug)]
pub enum RSTBuilderError {
    /// The message could not be brought to canonical form, or not be signed.
    Xml(String),
    /// The signature has no key for this nonce.
    SigningKey(String),
}

/// The exclusive canonical form of an XML text, as the `bergshamra-c14n` crate computes it, or its
/// error in words.
pub uninterp spec fn exclusive_c14n(text: Seq<char>) -> Result<Seq<u8>, Seq<char>>;

/// Signing `template` with a key can come out as `outcome`. The signer reads what a signed
/// reference points to, which may lie outside the template, so one template may have several
/// outcomes.
pub uninterp spec fn signing_outcome(
    rsa: bool,
    key: Seq<u8>,
    template: Seq<char>,
    outcome: Result<Seq<char>, Seq<char>>,
) -> bool;

/// The bytes of a result, or the words of its error.
pub open spec fn canonical_view(r: Result<Vec<u8>, String>) -> Result<Seq<u8>, Seq<char>> {
    match r {
        Ok(bytes) => Ok(bytes@),
        Err(e) => Err(e@),
    }
}

/// The text of a result, or the words of its error.
pub open spec fn signed_view(r: Result<String, String>) -> Result<Seq<char>, Seq<char>> {
    match r {
        Ok(text) => Ok(text@),
        Err(e) => Err(e@),
    }
}

/// `bergshamra::c14n::canonicalize` in exclusive mode, over the whole document and without
/// inclusive prefixes. The result is a function of the text, and what comes out is UTF-8: it is
/// put together from pieces of text.
#[verifier::external_body]
fn canonicalize(xml: &str) -> (r: Result<Vec<u8>, String>)
    ensures
        canonical_view(r) == exclusive_c14n(xml@),
        r matches Ok(bytes) ==> valid_utf8(bytes@),
{
    let none: &[&str] = &[];
    bergshamra::c14n::canonicalize(xml, bergshamra_c14n::C14nMode::Exclusive, None, none).map_err(
        |e| e.to_string(),
    )
}

/// `bergshamra::sign` with a key manager that holds one key for signing, which `load_hmac_key` makes
/// of the secret. The outcome is one that this secret and this template can have; nothing more is
/// stated of it.
#[verifier::external_body]
fn sign_with_secret(secret: &[u8], template: &str) -> (r: Result<String, String>)
    ensures
        signing_outcome(false, secret@, template@, signed_view(r)),
{
    let key = load_hmac_key(secret).map_err(|e| e.to_string())?;
    let mut keys = bergshamra::KeysManager::new();
    keys.add_key(bergshamra::Key::new(key.data, bergshamra::KeyUsage::Sign));
    let context = bergshamra::DsigContext::new(keys).with_strict_verification(false);
    bergshamra::sign(&context, template).map_err(|e| e.to_string())
}

/// `bergshamra::sign` with a key manager that holds one key for signing, which
/// `load_rsa_private_pem` reads. The outcome is one that this key and this template can have;
/// nothing more is stated of it.
#[verifier::external_body]
fn sign_with_rsa(pem: &[u8], template: &str) -> (r: Result<String, String>)
    ensures
        signing_outcome(true, pem@, template@, signed_view(r)),
{
    let key = load_rsa_private_pem(pem).map_err(|e| e.to_string())?;
    let mut keys = bergshamra::KeysManager::new();
    keys.add_key(bergshamra::Key::new(key.data, bergshamra::KeyUsage::Sign));
    let context = bergshamra::DsigContext::new(keys).with_strict_verification(false);
    bergshamra::sign(&context, template).map_err(|e| e.to_string())
}

/// `r` is how signing the canonical text `bytes` ends where the signature gives `key`.
pub open spec fn signed_with(
    key: Result<SigningKey, RSTBuilderError>,
    bytes: Seq<u8>,
    r: Result<String, RSTBuilderError>,
) -> bool {
    match key {
        Err(e) => r == Err::<String, RSTBuilderError>(e),
        Ok(key) => match r {
            Ok(text) => signing_outcome(
                key.is_rsa(),
                key.bytes(),
                decode_utf8(bytes),
                Ok(text@),
            ),
            Err(RSTBuilderError::Xml(e)) => signing_outcome(
                key.is_rsa(),
                key.bytes(),
                decode_utf8(bytes),
                Err(e@),
            ),
            Err(_) => false,
        },
    }
}

/// Signs a message. Without a signature the message stays as it is; otherwise its exclusive
/// canonical form is signed with the key that the signature gives for the nonce.
pub fn sign_xml<K>(signature: Option<K>, nonce: &[u8], xml_text: String) -> (r: Result<
    String,
    RSTBuilderError,
>) where K: Fn(&[u8]) -> Result<SigningKey, RSTBuilderError>
    requires
        signature matches Some(signing_key) ==> forall|n: &[u8]| #[trigger]
            call_requires(signing_key, (n,)),
    ensures
        signature is None ==> r == Ok::<String, RSTBuilderError>(xml_text),
        signature matches Some(signing_key) ==> match exclusive_c14n(xml_text@) {
            Err(words) => r matches Err(RSTBuilderError::Xml(e)) && e@ == words,
            Ok(bytes) => exists|key: Result<SigningKey, RSTBuilderError>| #[trigger]
                call_ensures(signing_key, (nonce,), key) && signed_with(key, bytes, r),
        },
{
    let signing_key = match signature {
        Some(signing_key) => signing_key,
        None => {
            return Ok(xml_text);
        },
    };
    let canonical = match canonicalize(&xml_text) {
        Ok(bytes) => bytes,
        Err(e) => {
            return Err(RSTBuilderError::Xml(e));
        },
    };
    let key = match signing_key(nonce) {
        Ok(key) => key,
        Err(e) => {
            return Err(e);
        },
    };
    match text_from_utf8(canonical) {
        Some(template) => {
            let signed = match key {
                SigningKey::Hmac(secret) => sign_with_secret(secret.as_slice(), &template),
                SigningKey::Rsa(pem) => sign_with_rsa(pem.as_slice(), &template),
            };
            match signed {
                Ok(text) => Ok(text),
                Err(e) => Err(RSTBuilderError::Xml(e)),
            }
        },
        None => unreached(),
    }
}

/// Without a signature a message comes back as it is. With one, what is signed is its canonical form,
/// by the method and with the bytes of the very key that the signature gives for the nonce.
pub proof fn a_message_is_signed_with_the_given_key<
    K: Fn(&[u8]) -> Result<SigningKey, RSTBuilderError>,
>(
    signing_key: K,
    nonce: &[u8],
    xml_text: String,
    key: SigningKey,
    canonical: Seq<u8>,
    r: Result<String, RSTBuilderError>,
)
    requires
        call_ensures(sign_xml::<K>, (Some(signing_key), nonce, xml_text), r),
        exclusive_c14n(xml_text@) == Ok::<Seq<u8>, Seq<char>>(canonical),
        forall|k: Result<SigningKey, RSTBuilderError>| #[trigger]
            call_ensures(signing_key, (nonce,), k) ==> k == Ok::<SigningKey, RSTBuilderError>(key),
    ensures
        ({
            let (rsa, bytes) = match key {
                SigningKey::Hmac(secret) => (false, secret@),
                SigningKey::Rsa(pem) => (true, pem@),
            };
            match r {
                Ok(text) => signing_outcome(rsa, bytes, decode_utf8(canonical), Ok(text@)),
                Err(e) => e is Xml && signing_outcome(
                    rsa,
                    bytes,
                    decode_utf8(canonical),
                    Err(e->Xml_0@),
                ),
            }
        }),
{
}

/// A message that has no canonical form is refused with the words of that, whatever the key, and one
/// for which the signature has no key with the error that the signature gives.
pub proof fn a_message_that_cannot_be_signed_is_refused<
    K: Fn(&[u8]) -> Result<SigningKey, RSTBuilderError>,
>(
    signature: Option<K>,
    nonce: &[u8],
    xml_text: String,
    error: RSTBuilderError,
    r: Result<String, RSTBuilderError>,
)
    requires
        call_ensures(sign_xml::<K>, (signature, nonce, xml_text), r),
    ensures
        signature is None ==> r is Ok && r->Ok_0 == xml_text,
        signature is Some ==> (exclusive_c14n(xml_text@) matches Err(words) ==> r is Err
            && r->Err_0 is Xml && r->Err_0->Xml_0@ == words),
        signature is Some && exclusive_c14n(xml_text@) is Ok && (forall|
            k: Result<SigningKey, RSTBuilderError>,
        | #[trigger]
            call_ensures(signature->0, (nonce,), k) ==> k == Err::<SigningKey, RSTBuilderError>(
                error,
            )) ==> r is Err && r->Err_0 == error,
{
}

} // verus!
