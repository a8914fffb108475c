//! Encrypted and signed parts of SOAP messages.

use aes::cipher::block_padding::Pkcs7;
use aes::cipher::{BlockModeDecrypt, KeyIvInit};
use base64::prelude::{Engine, BASE64_STANDARD};
use vstd::pervasive::unreached;
use vstd::prelude::*;
use vstd::string::StringExecFns;
use vstd::utf8::*;

use crate::names::NameMap;
use crate::text::{chars_of, decimal, decimal_text, text_from_utf8, text_of};

verus! {

/// Why a text is not standard base64.
#[derive(Clone, Copy, Debug, PartialEq, Eq, Structural)]
pub enum Base64Error {
    InvalidByte(usize, u8),
    InvalidLength(usize),
    InvalidLastSymbol { offset: usize, symbol: u8, symbol_value: u8 },
    InvalidPadding,
}

/// What is wrong with encrypted data.
#[derive(Clone, Copy, Debug, PartialEq, Eq, Structural)]
pub enum EncryptedDataError {
    /// The cipher value has this many bytes, fewer than its initialization vector.
    ShorterThanIv(usize),
    /// The padding of the decrypted blocks is malformed.
    Unpadding,
    /// What was decrypted is no text.
    NotUtf8,
}

impl EncryptedDataError {
    /// The error in words.
    pub fn message(&self) -> (out: String)
        ensures
            out@ == match *self {
                EncryptedDataError::ShorterThanIv(len) => "cipher_value is "@ + decimal(len as nat)
                    + " bytes, shorter than the 16-byte IV"@,
                EncryptedDataError::Unpadding => "PKCS7 unpadding failed"@,
                EncryptedDataError::NotUtf8 => "decrypted payload is not valid UTF-8"@,
            },
    {
        match self {
            EncryptedDataError::ShorterThanIv(len) => {
                let mut out = String::from_str("cipher_value is ");
                out.append(&decimal_text(*len as u64));
                out.append(" bytes, shorter than the 16-byte IV");
                out
            },
            EncryptedDataError::Unpadding => String::from_str("PKCS7 unpadding failed"),
            EncryptedDataError::NotUtf8 => String::from_str("decrypted payload is not valid UTF-8"),
        }
    }
}

/// Why a token response could not be read.
#[derive(Clone, Debug, PartialEq, Eq)]
pub enum RSTError {
    /// No nonce is known for the key that the data refers to.
    MissingNonce,
    /// The signature has no HMAC key.
    HmacKey,
    Base64(Base64Error),
    InvalidEncryptedData(EncryptedDataError),
    /// What was decrypted is no element of the expected shape.
    Xml(String),
}

/// A reference to the key that data is encrypted with, such as `#SignKey`.
#[derive(Clone, Debug)]
pub struct ReferenceUri {
    pub uri: String,
}

#[derive(Clone, Debug)]
pub struct SecurityTokenReference {
    pub reference: ReferenceUri,
}

#[derive(Clone, Debug)]
pub struct KeyInfoWrap {
    pub key_name: Option<String>,
    pub security_token_reference: Option<SecurityTokenReference>,
}

#[derive(Clone, Debug)]
pub struct CipherData {
    pub cipher_value: String,
}

impl CipherData {
    pub fn new(cipher_value: String) -> (out: Self)
        ensures
            out.cipher_value == cipher_value,
    {
        CipherData { cipher_value }
    }
}

/// An `EncryptedData` element.
#[derive(Clone, Debug)]
pub struct EncryptedData {
    pub id: String,
    pub xmlns: String,
    pub el_type: String,
    pub key_info: KeyInfoWrap,
    pub cipher_data: CipherData,
}

/// What the body of a response holds. `R` is a token response.
pub enum BodyContent<R> {
    RequestSecurityTokenResponse(Box<R>),
    RequestSecurityTokenResponseCollection(Vec<R>),
    /// Anything else.
    Other,
}

/// What the `base64` crate's standard engine decodes `text` to.
pub uninterp spec fn base64_decoded(text: Seq<char>) -> Result<Seq<u8>, Base64Error>;

/// The bytes of a result, or its error.
pub open spec fn bytes_result(r: Result<Vec<u8>, Base64Error>) -> Result<Seq<u8>, Base64Error> {
    match r {
        Ok(bytes) => Ok(bytes@),
        Err(e) => Err(e),
    }
}

/// `BASE64_STANDARD.decode`: the bytes, or the error, are a function of the text alone.
#[verifier::external_body]
fn base64_decode(text: &str) -> (r: Result<Vec<u8>, Base64Error>)
    ensures
        bytes_result(r) == base64_decoded(text@),
{
    BASE64_STANDARD.decode(text).map_err(
        |e|
            match e {
                base64::DecodeError::InvalidByte(at, byte) => Base64Error::InvalidByte(at, byte),
                base64::DecodeError::InvalidLength(len) => Base64Error::InvalidLength(len),
                base64::DecodeError::InvalidLastSymbol { offset, symbol, symbol_value } =>
                    Base64Error::InvalidLastSymbol { offset, symbol, symbol_value },
                base64::DecodeError::InvalidPadding => Base64Error::InvalidPadding,
            },
    )
}

/// What AES-256 in CBC mode decrypts `encrypted` to, without its PKCS#7 padding, as the `cbc` and
/// `aes` crates compute it; nothing where the padding is malformed.
pub uninterp spec fn aes256_cbc_decrypted(
    key: Seq<u8>,
    iv: Seq<u8>,
    encrypted: Seq<u8>,
) -> Option<Seq<u8>>;

/// `decrypt_padded_b2b::<Pkcs7>` of `cbc::Decryptor<Aes256>`. The plaintext is a function of key,
/// initialization vector and ciphertext; it comes out of whole blocks only, and the padding that
/// it loses has between 1 and 16 bytes. What the call leaves in `block` is not stated.
#[verifier::external_body]
fn aes256_cbc_decrypt(
    key: &[u8; 32],
    iv: &[u8; 16],
    encrypted: &[u8],
    block: &mut [u8],
) -> (r: Option<Vec<u8>>)
    requires
        old(block)@.len() == encrypted@.len(),
    ensures
        r is Some <==> aes256_cbc_decrypted(key@, iv@, encrypted@) is Some,
        r matches Some(plain) ==> {
            &&& aes256_cbc_decrypted(key@, iv@, encrypted@) == Some(plain@)
            &&& encrypted@.len() % 16 == 0
            &&& plain@.len() < encrypted@.len() <= plain@.len() + 16
        },
{
    let decryptor = cbc::Decryptor::<aes::Aes256>::new(key.into(), iv.into());
    decryptor.decrypt_padded_b2b::<Pkcs7>(encrypted, block).ok().map(|plain| plain.to_vec())
}

/// The text inside a cipher value: 16 bytes of initialization vector, then the ciphertext, all in
/// base64.
pub open spec fn decrypted_text(key: Option<Seq<u8>>, cipher_value: Seq<char>) -> Result<
    Seq<char>,
    RSTError,
> {
    match (key, base64_decoded(cipher_value)) {
        (None, _) => Err(RSTError::HmacKey),
        (_, Err(e)) => Err(RSTError::Base64(e)),
        (Some(key), Ok(bytes)) => if bytes.len() < 16 {
            Err(RSTError::InvalidEncryptedData(EncryptedDataError::ShorterThanIv(bytes.len() as usize)))
        } else {
            match aes256_cbc_decrypted(key, bytes.take(16), bytes.skip(16)) {
                None => Err(RSTError::InvalidEncryptedData(EncryptedDataError::Unpadding)),
                Some(plain) => if valid_utf8(plain) {
                    Ok(decode_utf8(plain))
                } else {
                    Err(RSTError::InvalidEncryptedData(EncryptedDataError::NotUtf8))
                },
            }
        },
    }
}

/// The text of a result, or its error.
pub open spec fn text_result(r: Result<String, RSTError>) -> Result<Seq<char>, RSTError> {
    match r {
        Ok(s) => Ok(s@),
        Err(e) => Err(e),
    }
}

/// The bytes of a key, where there is one.
pub open spec fn key_bytes(key: Option<[u8; 32]>) -> Option<Seq<u8>> {
    match key {
        Some(k) => Some(k@),
        None => None,
    }
}

/// Only whole blocks give a text: behind the initialization vector the cipher value is longer than
/// the text in it, by no more than a block.
pub open spec fn is_whole_blocks(text: Seq<char>, cipher_value: Seq<char>) -> bool {
    base64_decoded(cipher_value) matches Ok(bytes) && bytes.len() % 16 == 0 && encode_utf8(text).len()
        + 16 < bytes.len() <= encode_utf8(text).len() + 32
}

/// Decrypts a cipher value with `key`, the HMAC key of a signature.
pub fn decrypt_cipher_value(key: Option<[u8; 32]>, cipher_value: &str) -> (r: Result<
    String,
    RSTError,
>)
    ensures
        text_result(r) == decrypted_text(key_bytes(key), cipher_value@),
        r matches Ok(text) ==> is_whole_blocks(text@, cipher_value@),
{
    let key = match key {
        Some(key) => key,
        None => {
            return Err(RSTError::HmacKey);
        },
    };
    let cipher_value = match base64_decode(cipher_value) {
        Ok(bytes) => bytes,
        Err(e) => {
            return Err(RSTError::Base64(e));
        },
    };
    if cipher_value.len() < 16 {
        return Err(
            RSTError::InvalidEncryptedData(EncryptedDataError::ShorterThanIv(cipher_value.len())),
        );
    }
    let mut iv = [0u8; 16];
    let mut i: usize = 0;
    while i < 16
        invariant
            i <= 16 <= cipher_value@.len(),
            forall|j: int| 0 <= j < i ==> iv@[j] == cipher_value@[j],
        decreases 16 - i,
    {
        iv[i] = cipher_value[i];
        i += 1;
    }
    assert(iv@ =~= cipher_value@.take(16));
    let (_, encrypted) = cipher_value.as_slice().split_at(16);
    assert(encrypted@ =~= cipher_value@.skip(16));
    // The plaintext is never longer than the ciphertext, so this is room enough.
    let mut block: Vec<u8> = vec![0u8; encrypted.len()];
    match aes256_cbc_decrypt(&key, &iv, encrypted, block.as_mut_slice()) {
        None => Err(RSTError::InvalidEncryptedData(EncryptedDataError::Unpadding)),
        Some(plain) => {
            proof {
                if valid_utf8(plain@) {
                    decode_utf8_encode_utf8(plain@);
                }
            }
            match text_from_utf8(plain) {
                None => Err(RSTError::InvalidEncryptedData(EncryptedDataError::NotUtf8)),
                Some(text) => Ok(text),
            }
        },
    }
}

/// A cipher value shorter than its initialization vector is refused as such, whatever the key.
pub proof fn a_short_cipher_value_is_refused(key: Seq<u8>, cipher_value: Seq<char>)
    requires
        base64_decoded(cipher_value) matches Ok(bytes) && bytes.len() < 16,
    ensures
        decrypted_text(Some(key), cipher_value) == Err::<Seq<char>, RSTError>(
            RSTError::InvalidEncryptedData(
                EncryptedDataError::ShorterThanIv(base64_decoded(cipher_value)->Ok_0.len() as usize),
            ),
        ),
{
}

/// The name of the key that the data refers to: the reference without its first character.
pub open spec fn key_id(encrypted_data: EncryptedData) -> Seq<char> {
    encrypted_data.key_info.security_token_reference->0.reference.uri@.skip(1)
}

/// What was encrypted comes out as it went in: a cipher value that decrypts to the UTF-8 of a text
/// gives that text, whatever the initialization vector.
pub proof fn a_text_is_decrypted_to_itself(
    key: Seq<u8>,
    iv: Seq<u8>,
    encrypted: Seq<u8>,
    cipher_value: Seq<char>,
    text: Seq<char>,
)
    requires
        iv.len() == 16,
        base64_decoded(cipher_value) == Ok::<Seq<u8>, Base64Error>(iv + encrypted),
        aes256_cbc_decrypted(key, iv, encrypted) == Some(encode_utf8(text)),
    ensures
        decrypted_text(Some(key), cipher_value) == Ok::<Seq<char>, RSTError>(text),
{
    assert((iv + encrypted).take(16) =~= iv);
    assert((iv + encrypted).skip(16) =~= encrypted);
    encode_utf8_valid_utf8(text);
    encode_utf8_decode_utf8(text);
}

/// `r` is what `parse` makes of a decrypted text, or why there is none.
pub open spec fn parsed_from<T, F: Fn(&str) -> Result<T, String>>(
    text: Result<Seq<char>, RSTError>,
    parse: F,
    r: Result<T, RSTError>,
) -> bool {
    match text {
        Err(e) => r == Err::<T, RSTError>(e),
        Ok(text) => exists|s: &str, parsed: Result<T, String>|
            s@ == text && #[trigger] call_ensures(parse, (s,), parsed) && r == match parsed {
                Ok(value) => Ok::<T, RSTError>(value),
                Err(e) => Err::<T, RSTError>(RSTError::Xml(e)),
            },
    }
}

/// `r` is what an `EncryptedData` element holds, or why it cannot be read. Only whole blocks give a
/// text.
pub open spec fn element_decrypted<
    T,
    K: Fn(&[u8]) -> Option<[u8; 32]>,
    F: Fn(&str) -> Result<T, String>,
>(
    encrypted_data: EncryptedData,
    hmac_key: K,
    nonces: Map<Seq<char>, String>,
    parse: F,
    r: Result<T, RSTError>,
) -> bool {
    let id = key_id(encrypted_data);
    if !nonces.contains_key(id) {
        r == Err::<T, RSTError>(RSTError::MissingNonce)
    } else {
        match base64_decoded(nonces[id]@) {
            Err(e) => r == Err::<T, RSTError>(RSTError::Base64(e)),
            Ok(bytes) => exists|nonce: &[u8], key: Option<[u8; 32]>|
                nonce@ == bytes && #[trigger] call_ensures(hmac_key, (nonce,), key) && parsed_from(
                    decrypted_text(key_bytes(key), encrypted_data.cipher_data.cipher_value@),
                    parse,
                    r,
                ) && (decrypted_text(
                    key_bytes(key),
                    encrypted_data.cipher_data.cipher_value@,
                ) matches Ok(text) ==> is_whole_blocks(
                    text,
                    encrypted_data.cipher_data.cipher_value@,
                )),
        }
    }
}

/// Decrypts what an `EncryptedData` element holds. The key that it refers to is found by its
/// nonce, out of which `hmac_key` makes the key; `parse` reads the text that comes out.
pub fn decrypt_soap_encrypted_data<T, K, F>(
    encrypted_data: Box<EncryptedData>,
    hmac_key: K,
    nonces: &NameMap<String>,
    parse: F,
) -> (r: Result<T, RSTError>) where
    K: Fn(&[u8]) -> Option<[u8; 32]>,
    F: Fn(&str) -> Result<T, String>,

    requires
        encrypted_data.key_info.security_token_reference is Some,
        encrypted_data.key_info.security_token_reference->0.reference.uri@.len() > 0,
        (encrypted_data.key_info.security_token_reference->0.reference.uri@[0] as u32) < 0x80,
        forall|nonce: &[u8]| #[trigger] call_requires(hmac_key, (nonce,)),
        forall|text: &str| #[trigger] call_requires(parse, (text,)),
    ensures
        element_decrypted(*encrypted_data, hmac_key, nonces@, parse, r),
{
    let data = *encrypted_data;
    let uri = match &data.key_info.security_token_reference {
        Some(token_reference) => chars_of(&token_reference.reference.uri),
        None => unreached(),
    };
    let id = text_of(&uri, 1, uri.len());
    assert(id@ =~= key_id(data));
    let nonce = match nonces.get(&id) {
        Some(nonce) => nonce,
        None => {
            return Err(RSTError::MissingNonce);
        },
    };
    let nonce = match base64_decode(nonce) {
        Ok(bytes) => bytes,
        Err(e) => {
            return Err(RSTError::Base64(e));
        },
    };
    let key = hmac_key(nonce.as_slice());
    match decrypt_cipher_value(key, &data.cipher_data.cipher_value) {
        Err(e) => Err(e),
        Ok(text) => match parse(text.as_str()) {
            Ok(value) => Ok(value),
            Err(e) => Err(RSTError::Xml(e)),
        },
    }
}

/// An element that holds the encrypted UTF-8 of a text, under the key that its reference leads to,
/// is read as that text is read: with the same value or the same error, whatever the initialization
/// vector.
pub proof fn an_encrypted_element_is_read_as_its_text<
    T,
    K: Fn(&[u8]) -> Option<[u8; 32]>,
    F: Fn(&str) -> Result<T, String>,
>(
    encrypted_data: EncryptedData,
    hmac_key: K,
    nonces: Map<Seq<char>, String>,
    parse: F,
    r: Result<T, RSTError>,
    nonce: Seq<u8>,
    key: Seq<u8>,
    iv: Seq<u8>,
    encrypted: Seq<u8>,
    text: Seq<char>,
)
    requires
        element_decrypted(encrypted_data, hmac_key, nonces, parse, r),
        nonces.contains_key(key_id(encrypted_data)),
        base64_decoded(nonces[key_id(encrypted_data)]@) == Ok::<Seq<u8>, Base64Error>(nonce),
        forall|n: &[u8], k: Option<[u8; 32]>|
            n@ == nonce && #[trigger] call_ensures(hmac_key, (n,), k) ==> key_bytes(k) == Some(key),
        iv.len() == 16,
        base64_decoded(encrypted_data.cipher_data.cipher_value@) == Ok::<Seq<u8>, Base64Error>(
            iv + encrypted,
        ),
        aes256_cbc_decrypted(key, iv, encrypted) == Some(encode_utf8(text)),
    ensures
        parsed_from(Ok(text), parse, r),
{
    a_text_is_decrypted_to_itself(
        key,
        iv,
        encrypted,
        encrypted_data.cipher_data.cipher_value@,
        text,
    );
}

/// A cipher value is taken apart in order: without a key nothing of it is looked at, then it has to be
/// base64, then to hold at least 16 bytes, which are the initialization vector; the rest has to
/// decrypt under the key, to the UTF-8 of the text that comes out.
pub proof fn a_cipher_value_is_vector_and_ciphertext(
    key: Option<[u8; 32]>,
    cipher_value: &str,
    iv: Seq<u8>,
    encrypted: Seq<u8>,
    r: Result<String, RSTError>,
)
    requires
        call_ensures(decrypt_cipher_value, (key, cipher_value), r),
    ensures
        key is None ==> r is Err && r->Err_0 is HmacKey,
        key is Some ==> (base64_decoded(cipher_value@) matches Err(e) ==> r is Err && r->Err_0
            == RSTError::Base64(e)),
        key is Some && iv.len() == 16 && base64_decoded(cipher_value@) == Ok::<
            Seq<u8>,
            Base64Error,
        >(iv + encrypted) ==> match aes256_cbc_decrypted(key->0@, iv, encrypted) {
            None => r is Err && r->Err_0 == RSTError::InvalidEncryptedData(
                EncryptedDataError::Unpadding,
            ),
            Some(plain) => match r {
                Ok(text) => encode_utf8(text@) == plain,
                Err(e) => !valid_utf8(plain) && e == RSTError::InvalidEncryptedData(
                    EncryptedDataError::NotUtf8,
                ),
            },
        },
        r matches Err(RSTError::InvalidEncryptedData(EncryptedDataError::ShorterThanIv(len))) ==> (
        base64_decoded(cipher_value@) matches Ok(bytes) && bytes.len() < 16 && len == bytes.len()),
{
    if iv.len() == 16 {
        assert((iv + encrypted).take(16) =~= iv);
        assert((iv + encrypted).skip(16) =~= encrypted);
    }
    if key is Some && base64_decoded(cipher_value@) is Ok {
        let bytes = base64_decoded(cipher_value@)->Ok_0;
        if bytes.len() >= 16 {
            if let Some(plain) = aes256_cbc_decrypted(key->0@, bytes.take(16), bytes.skip(16)) {
                if valid_utf8(plain) {
                    decode_utf8_encode_utf8(plain);
                }
            }
        }
    }
}

/// Encrypted data is opened with the nonce of the key that its reference names behind its first
/// character. Without that nonce it stays closed, and no other nonce matters.
pub proof fn only_the_nonce_of_the_named_key_matters<
    T,
    K: Fn(&[u8]) -> Option<[u8; 32]>,
    F: Fn(&str) -> Result<T, String>,
>(
    encrypted_data: EncryptedData,
    mark: char,
    id: Seq<char>,
    hmac_key: K,
    nonces: Map<Seq<char>, String>,
    other_nonces: Map<Seq<char>, String>,
    parse: F,
    r: Result<T, RSTError>,
)
    requires
        encrypted_data.key_info.security_token_reference matches Some(token_reference)
            && token_reference.reference.uri@ == seq![mark] + id,
        element_decrypted(encrypted_data, hmac_key, nonces, parse, r),
    ensures
        !nonces.contains_key(id) ==> r is Err && r->Err_0 is MissingNonce,
        nonces.contains_key(id) && other_nonces.contains_key(id) && nonces[id] == other_nonces[id]
            ==> element_decrypted(encrypted_data, hmac_key, other_nonces, parse, r),
        nonces.contains_key(id) ==> (base64_decoded(nonces[id]@) matches Err(e) ==> r is Err
            && r->Err_0 == RSTError::Base64(e)),
{
    assert((seq![mark] + id).skip(1) =~= id);
}

/// What comes out of a decrypted text is what the parser makes of it: its value, or its error under
/// its own name. Where there is no text, the reason comes back.
pub proof fn a_decrypted_text_is_parsed<T, F: Fn(&str) -> Result<T, String>>(
    text: Result<Seq<char>, RSTError>,
    parse: F,
    parsed: Result<T, String>,
    r: Result<T, RSTError>,
)
    requires
        parsed_from(text, parse, r),
        text is Ok ==> forall|s: &str, p: Result<T, String>|
            s@ == text->Ok_0 && #[trigger] call_ensures(parse, (s,), p) ==> p == parsed,
    ensures
        text matches Err(e) ==> r is Err && r->Err_0 == e,
        text is Ok && parsed is Ok ==> r is Ok && r->Ok_0 == parsed->Ok_0,
        text is Ok && parsed is Err ==> r is Err && r->Err_0 == RSTError::Xml(parsed->Err_0),
{
}

/// What is wrong with encrypted data is told in words, a short one with its length.
pub proof fn broken_encrypted_data_is_told_in_words(error: EncryptedDataError, words: String)
    requires
        call_ensures(EncryptedDataError::message, (&error,), words),
    ensures
        match error {
            EncryptedDataError::ShorterThanIv(len) => words@ == "cipher_value is "@ + (decimal(
                len as nat,
            ) + " bytes, shorter than the 16-byte IV"@),
            EncryptedDataError::Unpadding => words@ == "PKCS7 unpadding failed"@,
            EncryptedDataError::NotUtf8 => words@ == "decrypted payload is not valid UTF-8"@,
        },
{
    if let EncryptedDataError::ShorterThanIv(len) = error {
        assert(words@ =~= "cipher_value is "@ + (decimal(len as nat)
            + " bytes, shorter than the 16-byte IV"@));
    }
}

} // verus!
