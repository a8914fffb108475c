//! Credentials of the device.

use vstd::prelude::*;
use vstd::string::StringExecFns;

use crate::soap::{BodyContent, EncryptedData};
use crate::tokens::laws::{
    a_saved_token_is_read_back, saving_a_token_leaves_the_rest, store_codec, the_keys_are_apart,
};
use crate::tokens::manager::{
    document_read, encoding_fails, owed, read_fails, token_owed_read, token_read, token_written,
    TokenManager, DEVICE_TOKENS, DEV_LICENSE, PASSPORT_STS,
};
use crate::tokens::store::{
    entry, ExpiringTokenBackend, TokenBackend, TokenStore, TokenStoreError,
};

verus! {

/// Why the device has no credentials.
#[derive(Clone, Debug)]
pub enum DeviceCredentialError {
    /// The service refused a new device.
    Provision(String),
    /// The service refused to authenticate the device.
    Authenticate(String),
    /// The license of the device cannot be read.
    LicenseParse(String),
    /// The license of the device has no signing key.
    MissingClepSignState,
    /// The signing key is no RSA key.
    RsaKey(String),
    /// The response does not name the key of its token.
    MissingKeyInfo,
    /// The credentials could not be kept.
    Storage(TokenStoreError),
}

impl DeviceCredentialError {
    /// The error in words.
    pub fn message(&self) -> (out: String)
        ensures
            out@ == match *self {
                DeviceCredentialError::Provision(e) => "could not provision a new device: "@ + e@,
                DeviceCredentialError::Authenticate(e) => "could not authenticate the device: "@
                    + e@,
                DeviceCredentialError::LicenseParse(e) =>
                    "could not parse the device's SPLicense: "@ + e@,
                DeviceCredentialError::MissingClepSignState =>
                    "device SPLicense is missing its signing key"@,
                DeviceCredentialError::RsaKey(e) =>
                    "could not parse the device's RSA signing key: "@ + e@,
                DeviceCredentialError::MissingKeyInfo =>
                    "device authentication response is missing key info"@,
                DeviceCredentialError::Storage(e) => "failed to persist device credentials: "@
                    + e.words(),
            },
    {
        let (start, rest) = match self {
            DeviceCredentialError::Provision(e) => (
                "could not provision a new device: ",
                String::from_str(e),
            ),
            DeviceCredentialError::Authenticate(e) => (
                "could not authenticate the device: ",
                String::from_str(e),
            ),
            DeviceCredentialError::LicenseParse(e) => (
                "could not parse the device's SPLicense: ",
                String::from_str(e),
            ),
            DeviceCredentialError::MissingClepSignState => {
                return String::from_str("device SPLicense is missing its signing key");
            },
            DeviceCredentialError::RsaKey(e) => (
                "could not parse the device's RSA signing key: ",
                String::from_str(e),
            ),
            DeviceCredentialError::MissingKeyInfo => {
                return String::from_str("device authentication response is missing key info");
            },
            DeviceCredentialError::Storage(e) => (
                "failed to persist device credentials: ",
                e.message(),
            ),
        };
        let mut out = String::from_str(start);
        out.append(&rest);
        out
    }
}

/// What is known of the device.
#[derive(Clone, Debug)]
pub struct Device {
    pub puid: String,
    pub hwid: String,
    pub device_id: String,
    pub splicense: String,
    pub username: String,
    pub password: String,
}

/// A `Device` by its characters.
pub struct DeviceView {
    pub puid: Seq<char>,
    pub hwid: Seq<char>,
    pub device_id: Seq<char>,
    pub splicense: Seq<char>,
    pub username: Seq<char>,
    pub password: Seq<char>,
}

impl View for Device {
    type V = DeviceView;

    open spec fn view(&self) -> DeviceView {
        DeviceView {
            puid: self.puid@,
            hwid: self.hwid@,
            device_id: self.device_id@,
            splicense: self.splicense@,
            username: self.username@,
            password: self.password@,
        }
    }
}

/// How many random characters the name of a new device ends with.
pub const DEVICE_NAME_CHARS: usize = 14;

/// How many random characters the password of a new device has.
pub const DEVICE_PASSWORD_CHARS: usize = 20;

/// The id of the part of a request that describes a new device.
pub const DEVICE_INFO_ID: &'static str = "DeviceInfo";

/// How a request describes a new device, beside its components.
#[derive(Clone, Debug)]
pub struct DeviceInfo {
    pub id: String,
    /// Whether the request tells of a TPM.
    pub tpm_info: bool,
}

/// A `DeviceInfo` by its characters.
pub struct DeviceInfoView {
    pub id: Seq<char>,
    pub tpm_info: bool,
}

impl View for DeviceInfo {
    type V = DeviceInfoView;

    open spec fn view(&self) -> DeviceInfoView {
        DeviceInfoView { id: self.id@, tpm_info: self.tpm_info }
    }
}

/// What the service says of a device that it has taken in.
pub struct ProvisionedDevice {
    pub puid: String,
    pub hw_device_id: String,
    /// The id that the license is bound to.
    pub device_id: Option<String>,
    pub splicense_block: String,
}

/// The name of a new device, from random characters.
pub fn device_username(random: &str) -> (out: String)
    ensures
        out@ == "02"@ + random@,
{
    let mut out = String::from_str("02");
    out.append(random);
    out
}

/// The device that was made with these credentials, as the service knows it. Where the license is
/// bound to no id, the device has an empty one.
pub fn provisioned_device(username: String, password: String, answer: ProvisionedDevice) -> (out:
    Device)
    ensures
        out.username == username,
        out.password == password,
        out.puid == answer.puid,
        out.hwid == answer.hw_device_id,
        answer.device_id matches Some(id) ==> out.device_id == id,
        answer.device_id is None ==> out.device_id@ == Seq::<char>::empty(),
        out.splicense == answer.splicense_block,
{
    let device_id = match answer.device_id {
        Some(id) => id,
        None => String::new(),
    };
    Device {
        puid: answer.puid,
        hwid: answer.hw_device_id,
        device_id,
        splicense: answer.splicense_block,
        username,
        password,
    }
}

/// What the device needs next.
pub enum CredentialStep<D> {
    /// A new device has to be provisioned.
    Provision,
    /// The device has to be authenticated with its license.
    Reauthenticate(D),
    /// Nothing: it has its credentials.
    Done,
}

/// What the device needs, where its license is `license`, its token for the token service is `sts`,
/// and `expired` tells of a token that is there whether it has expired.
pub open spec fn step_for<D, T>(
    license: Result<D, TokenStoreError>,
    sts: Result<T, TokenStoreError>,
    expired: bool,
) -> CredentialStep<D> {
    match (license, sts) {
        (Err(_), _) => CredentialStep::Provision,
        (Ok(device), Err(_)) => CredentialStep::Reauthenticate(device),
        (Ok(device), Ok(_)) => if expired {
            CredentialStep::Reauthenticate(device)
        } else {
            CredentialStep::Done
        },
    }
}

/// `r` is what the device needs, by what `expired` says of its token.
pub open spec fn step_chosen<D, T, X: Fn(&T) -> bool>(
    license: Result<D, TokenStoreError>,
    sts: Result<T, TokenStoreError>,
    expired: X,
    r: CredentialStep<D>,
) -> bool {
    match (license, sts) {
        (Ok(_), Ok(token)) => exists|late: bool| #[trigger]
            call_ensures(expired, (&token,), late) && r == step_for(license, sts, late),
        _ => r == step_for(license, sts, false),
    }
}

/// Decides what the device needs, where its license and its token for the token service are known.
/// A token that has expired is as good as none.
pub fn credential_step_for<D, T, X: Fn(&T) -> bool>(
    license: Result<D, TokenStoreError>,
    sts: Result<T, TokenStoreError>,
    expired: X,
) -> (r: CredentialStep<D>)
    requires
        forall|t: &T| #[trigger] call_requires(expired, (t,)),
    ensures
        step_chosen(license, sts, expired, r),
{
    match license {
        Err(_) => CredentialStep::Provision,
        Ok(device) => match sts {
            Err(_) => CredentialStep::Reauthenticate(device),
            Ok(token) => {
                let late = expired(&token);
                assert(call_ensures(expired, (&token,), late));
                if late {
                    CredentialStep::Reauthenticate(device)
                } else {
                    CredentialStep::Done
                }
            },
        },
    }
}

/// Decides what the device needs, by what is kept of it. Nothing is changed.
pub fn credential_step<
    P: TokenBackend,
    E: ExpiringTokenBackend,
    D,
    T,
    F: Fn(&[u8]) -> Result<D, TokenStoreError>,
    G: Fn(&[u8]) -> Result<TokenStore<T>, TokenStoreError>,
    X: Fn(&T) -> bool,
>(tokens: &TokenManager<P, E>, decode_license: F, decode_tokens: G, expired: X) -> (r:
    CredentialStep<D>)
    requires
        forall|b: &[u8]| #[trigger] call_requires(decode_license, (b,)),
        forall|b: &[u8]| #[trigger] call_requires(decode_tokens, (b,)),
        forall|t: &T| #[trigger] call_requires(expired, (t,)),
    ensures
        credential_step_read::<P, D, T, F, G, X>(
            tokens.storage(),
            decode_license,
            decode_tokens,
            expired,
            r,
        ),
{
    let license = tokens.get_device_license(decode_license);
    match license {
        Err(e) => CredentialStep::Provision,
        Ok(device) => {
            let sts = tokens.get_device_sts_token(decode_tokens);
            assert(token_owed_read::<P, T, G>(
                tokens.storage(),
                DEVICE_TOKENS@,
                PASSPORT_STS@,
                decode_tokens,
                sts,
            ));
            credential_step_for(Ok(device), sts, expired)
        },
    }
}

/// `r` is what the device needs, by what is kept of it.
pub open spec fn credential_step_read<
    P: TokenBackend,
    D,
    T,
    F: Fn(&[u8]) -> Result<D, TokenStoreError>,
    G: Fn(&[u8]) -> Result<TokenStore<T>, TokenStoreError>,
    X: Fn(&T) -> bool,
>(
    storage: P,
    decode_license: F,
    decode_tokens: G,
    expired: X,
    r: CredentialStep<D>,
) -> bool {
    exists|license: Result<D, TokenStoreError>| #[trigger]
        document_read::<P, D, F>(storage, DEV_LICENSE@, decode_license, license) && match license {
            Err(_) => r == CredentialStep::<D>::Provision,
            Ok(_) => step_with_license::<P, D, T, G, X>(storage, license, decode_tokens, expired, r),
        }
}

/// `r` is what the device needs, where its license is `license`.
pub open spec fn step_with_license<
    P: TokenBackend,
    D,
    T,
    G: Fn(&[u8]) -> Result<TokenStore<T>, TokenStoreError>,
    X: Fn(&T) -> bool,
>(
    storage: P,
    license: Result<D, TokenStoreError>,
    decode_tokens: G,
    expired: X,
    r: CredentialStep<D>,
) -> bool {
    exists|sts: Result<T, TokenStoreError>| #[trigger]
        token_owed_read::<P, T, G>(storage, DEVICE_TOKENS@, PASSPORT_STS@, decode_tokens, sts)
            && step_chosen(license, sts, expired, r)
}

/// Where no license is kept, a device has to be provisioned.
pub proof fn a_device_without_license_is_provisioned<
    P: TokenBackend,
    D,
    T,
    F: Fn(&[u8]) -> Result<D, TokenStoreError>,
    G: Fn(&[u8]) -> Result<TokenStore<T>, TokenStoreError>,
    X: Fn(&T) -> bool,
>(
    storage: P,
    decode_license: F,
    decode_tokens: G,
    expired: X,
    r: CredentialStep<D>,
)
    requires
        entry(storage.contents(), DEV_LICENSE@) is None,
        credential_step_read::<P, D, T, F, G, X>(storage, decode_license, decode_tokens, expired, r),
    ensures
        r == CredentialStep::<D>::Provision,
{
}

/// A device whose license can be read, and whose token is missing or has expired, is authenticated
/// anew with that license; it is not provisioned again.
pub proof fn a_missing_or_expired_token_is_renewed<D, T, X: Fn(&T) -> bool>(
    device: D,
    sts: Result<T, TokenStoreError>,
    expired: X,
    r: CredentialStep<D>,
)
    requires
        step_chosen(Ok(device), sts, expired, r),
        sts matches Ok(token) ==> forall|late: bool| #[trigger]
            call_ensures(expired, (&token,), late) ==> late,
    ensures
        r == CredentialStep::<D>::Reauthenticate(device),
{
}

/// Once a token of the token service that has not expired is kept under its address, the device
/// needs no more than a license that can be read.
pub proof fn a_kept_token_completes_the_credentials<
    P: TokenBackend,
    D,
    T,
    F: Fn(&[u8]) -> Result<D, TokenStoreError>,
    G: Fn(&[u8]) -> Result<TokenStore<T>, TokenStoreError>,
    H: Fn(&TokenStore<T>) -> Result<Vec<u8>, TokenStoreError>,
    X: Fn(&T) -> bool,
>(
    before: P,
    after: P,
    token: T,
    decode_license: F,
    decode_tokens: G,
    encode_tokens: H,
    expired: X,
    meaning: spec_fn(Seq<u8>) -> Result<Map<Seq<char>, T>, TokenStoreError>,
    r: CredentialStep<D>,
)
    requires
        P::reliable(),
        store_codec(decode_tokens, encode_tokens, meaning),
        token_written::<P, T, G, H>(
            before,
            after,
            DEVICE_TOKENS@,
            PASSPORT_STS@,
            token,
            decode_tokens,
            encode_tokens,
            Ok(()),
        ),
        forall|late: bool| #[trigger] call_ensures(expired, (&token,), late) ==> !late,
        credential_step_read::<P, D, T, F, G, X>(after, decode_license, decode_tokens, expired, r),
        r != CredentialStep::<D>::Provision,
    ensures
        r == CredentialStep::<D>::Done,
{
    let license = choose|license: Result<D, TokenStoreError>| #[trigger]
        document_read::<P, D, F>(after, DEV_LICENSE@, decode_license, license) && match license {
            Err(_) => r == CredentialStep::<D>::Provision,
            Ok(_) => step_with_license::<P, D, T, G, X>(after, license, decode_tokens, expired, r),
        };
    let sts = choose|sts: Result<T, TokenStoreError>| #[trigger]
        token_owed_read::<P, T, G>(after, DEVICE_TOKENS@, PASSPORT_STS@, decode_tokens, sts)
            && step_chosen(license, sts, expired, r);
    let found = choose|found: Result<Option<T>, TokenStoreError>| #[trigger]
        token_read::<P, T, G>(after, DEVICE_TOKENS@, PASSPORT_STS@, decode_tokens, found) && sts
            == owed(found);
    a_saved_token_is_read_back::<P, T, G, H>(
        before,
        after,
        DEVICE_TOKENS@,
        PASSPORT_STS@,
        token,
        decode_tokens,
        encode_tokens,
        meaning,
        PASSPORT_STS@,
        found,
    );
}

/// The key that the device signs with: its license is read, the signing key in it is found, and
/// `read_key` reads that.
pub fn device_signing_key<S, K, F: Fn(S) -> Result<K, String>>(
    clep_sign_state: Result<Option<S>, String>,
    read_key: F,
) -> (r: Result<K, DeviceCredentialError>)
    requires
        forall|s: S| #[trigger] call_requires(read_key, (s,)),
    ensures
        match clep_sign_state {
            Err(e) => r == Err::<K, DeviceCredentialError>(DeviceCredentialError::LicenseParse(e)),
            Ok(None) => r == Err::<K, DeviceCredentialError>(
                DeviceCredentialError::MissingClepSignState,
            ),
            Ok(Some(state)) => exists|key: Result<K, String>| #[trigger]
                call_ensures(read_key, (state,), key) && match key {
                    Ok(key) => r == Ok::<K, DeviceCredentialError>(key),
                    Err(e) => r == Err::<K, DeviceCredentialError>(
                        DeviceCredentialError::RsaKey(e),
                    ),
                },
        },
{
    match clep_sign_state {
        Err(e) => Err(DeviceCredentialError::LicenseParse(e)),
        Ok(None) => Err(DeviceCredentialError::MissingClepSignState),
        Ok(Some(state)) => match read_key(state) {
            Ok(key) => Ok(key),
            Err(e) => Err(DeviceCredentialError::RsaKey(e)),
        },
    }
}

/// The token that a response carries, still encrypted.
pub struct RequestedSecurityToken {
    pub encrypted_data: Option<EncryptedData>,
}

/// A response of the token service. `token` is the token that it amounts to.
pub struct RequestSecurityTokenResponse<T> {
    pub requested_security_token: RequestedSecurityToken,
    pub token: T,
}

impl<T> RequestSecurityTokenResponse<T> {
    /// The name of the key that the token goes with, if the response has it.
    pub open spec fn key_name(&self) -> Option<Seq<char>> {
        match self.requested_security_token.encrypted_data {
            Some(data) => match data.key_info.key_name {
                Some(name) => Some(name@),
                None => None,
            },
            None => None,
        }
    }
}

/// Keeping the token of a response made `after` of `before` and returned `r`. The token goes under
/// the name of its key; a response that does not name it is refused.
pub open spec fn sts_token_saved<
    P: TokenBackend,
    T,
    F: Fn(&[u8]) -> Result<TokenStore<T>, TokenStoreError>,
    G: Fn(&TokenStore<T>) -> Result<Vec<u8>, TokenStoreError>,
>(
    before: P,
    after: P,
    resp: RequestSecurityTokenResponse<T>,
    decode: F,
    encode: G,
    r: Result<(), DeviceCredentialError>,
) -> bool {
    match resp.key_name() {
        None => r == Err::<(), DeviceCredentialError>(DeviceCredentialError::MissingKeyInfo)
            && after == before,
        Some(name) => match r {
            Ok(_) => token_written::<P, T, F, G>(
                before,
                after,
                DEVICE_TOKENS@,
                name,
                resp.token,
                decode,
                encode,
                Ok(()),
            ),
            Err(DeviceCredentialError::Storage(e)) => token_written::<P, T, F, G>(
                before,
                after,
                DEVICE_TOKENS@,
                name,
                resp.token,
                decode,
                encode,
                Err(e),
            ),
            Err(_) => false,
        },
    }
}

/// Keeps the token of a response, under the name of its key.
pub fn save_device_sts_token<
    P: TokenBackend,
    E: ExpiringTokenBackend,
    T,
    F: Fn(&[u8]) -> Result<TokenStore<T>, TokenStoreError>,
    G: Fn(&TokenStore<T>) -> Result<Vec<u8>, TokenStoreError>,
>(
    tokens: &mut TokenManager<P, E>,
    resp: Box<RequestSecurityTokenResponse<T>>,
    decode: F,
    encode: G,
) -> (r: Result<(), DeviceCredentialError>)
    requires
        forall|b: &[u8]| #[trigger] call_requires(decode, (b,)),
        forall|s: &TokenStore<T>| #[trigger] call_requires(encode, (s,)),
    ensures
        sts_token_saved::<P, T, F, G>(
            old(tokens).storage(),
            final(tokens).storage(),
            *resp,
            decode,
            encode,
            r,
        ),
        r matches Err(DeviceCredentialError::Storage(e)) ==> read_fails::<P, TokenStore<T>, F>(
            old(tokens).storage(),
            DEVICE_TOKENS@,
            decode,
            e,
        ) || encoding_fails::<TokenStore<T>, G>(encode, e),
        final(tokens).cached() == old(tokens).cached(),
        final(tokens).latest() == old(tokens).latest(),
        final(tokens).clock() == old(tokens).clock(),
{
    let resp = *resp;
    let key_name = match resp.requested_security_token.encrypted_data {
        Some(data) => match data.key_info.key_name {
            Some(name) => name,
            None => {
                return Err(DeviceCredentialError::MissingKeyInfo);
            },
        },
        None => {
            return Err(DeviceCredentialError::MissingKeyInfo);
        },
    };
    match tokens.save_device_token(key_name, resp.token, decode, encode) {
        Ok(()) => Ok(()),
        Err(e) => Err(DeviceCredentialError::Storage(e)),
    }
}

/// Keeps the token of the service's answer to an authentication. An answer without a single token
/// response changes nothing.
pub fn save_authentication<
    P: TokenBackend,
    E: ExpiringTokenBackend,
    T,
    F: Fn(&[u8]) -> Result<TokenStore<T>, TokenStoreError>,
    G: Fn(&TokenStore<T>) -> Result<Vec<u8>, TokenStoreError>,
>(
    tokens: &mut TokenManager<P, E>,
    body: BodyContent<RequestSecurityTokenResponse<T>>,
    decode: F,
    encode: G,
) -> (r: Result<(), DeviceCredentialError>)
    requires
        forall|b: &[u8]| #[trigger] call_requires(decode, (b,)),
        forall|s: &TokenStore<T>| #[trigger] call_requires(encode, (s,)),
    ensures
        match body {
            BodyContent::RequestSecurityTokenResponse(resp) => sts_token_saved::<P, T, F, G>(
                old(tokens).storage(),
                final(tokens).storage(),
                *resp,
                decode,
                encode,
                r,
            ),
            _ => r is Ok && *final(tokens) == *old(tokens),
        },
        r matches Err(DeviceCredentialError::Storage(e)) ==> read_fails::<P, TokenStore<T>, F>(
            old(tokens).storage(),
            DEVICE_TOKENS@,
            decode,
            e,
        ) || encoding_fails::<TokenStore<T>, G>(encode, e),
        final(tokens).cached() == old(tokens).cached(),
        final(tokens).latest() == old(tokens).latest(),
        final(tokens).clock() == old(tokens).clock(),
{
    match body {
        BodyContent::RequestSecurityTokenResponse(resp) => save_device_sts_token(
            tokens,
            resp,
            decode,
            encode,
        ),
        _ => Ok(()),
    }
}

/// Keeping the token of a response leaves the license of the device as it was.
pub proof fn keeping_a_token_keeps_the_license<
    P: TokenBackend,
    T,
    F: Fn(&[u8]) -> Result<TokenStore<T>, TokenStoreError>,
    G: Fn(&TokenStore<T>) -> Result<Vec<u8>, TokenStoreError>,
>(
    before: P,
    after: P,
    resp: RequestSecurityTokenResponse<T>,
    decode: F,
    encode: G,
    r: Result<(), DeviceCredentialError>,
)
    requires
        sts_token_saved::<P, T, F, G>(before, after, resp, decode, encode, r),
    ensures
        entry(after.contents(), DEV_LICENSE@) == entry(before.contents(), DEV_LICENSE@),
{
    the_keys_are_apart();
    if resp.key_name() is Some {
        let kept = match r {
            Ok(_) => Ok(()),
            Err(DeviceCredentialError::Storage(e)) => Err(e),
            Err(_) => Ok(()),
        };
        saving_a_token_leaves_the_rest::<P, T, F, G>(
            before,
            after,
            DEVICE_TOKENS@,
            resp.key_name()->0,
            resp.token,
            decode,
            encode,
            kept,
            DEV_LICENSE@,
        );
    }
}

/// What has happened while the device gets its credentials. `K` is the key that it signs with, and
/// `T` a token.
pub enum CredentialEvent<K, T> {
    /// It is known what the device needs.
    Begun(CredentialStep<Device>),
    /// Random characters were drawn, for a name and a password.
    Drawn { username: String, password: String },
    /// The service was asked to take in a device of this name and password.
    Requested { username: String, password: String, answer: Result<ProvisionedDevice, String> },
    /// The license of the device was to be kept.
    Saved { device: Device, result: Result<(), TokenStoreError> },
    /// The key in the license of the device of this name was read.
    KeyRead { username: String, key: Result<K, DeviceCredentialError> },
    /// The service was asked to authenticate the device.
    Answered(Result<BodyContent<RequestSecurityTokenResponse<T>>, String>),
    /// The token in its answer was to be kept.
    Kept(Result<(), DeviceCredentialError>),
}

/// What to do for the device to get its credentials.
pub enum CredentialAction<K, T> {
    /// Draw so many random characters, for a name and a password.
    Draw { username_chars: usize, password_chars: usize },
    /// Ask the service to take in a device of this name and password, described like this.
    Request { username: String, password: String, info: DeviceInfo },
    /// Keep the license of the device.
    Save(Device),
    /// Read the key in the license of the device.
    Authenticate(Device),
    /// Ask the service to authenticate the device.
    RequestToken { username: String, key: K },
    /// Keep the token in the answer.
    Keep(BodyContent<RequestSecurityTokenResponse<T>>),
    /// It is over.
    Finish(Result<(), DeviceCredentialError>),
}

/// A `CredentialAction` by its characters.
pub enum CredentialActionView<K, T> {
    Draw { username_chars: usize, password_chars: usize },
    Request { username: Seq<char>, password: Seq<char>, info: DeviceInfoView },
    Save(DeviceView),
    Authenticate(DeviceView),
    RequestToken { username: Seq<char>, key: K },
    Keep(BodyContent<RequestSecurityTokenResponse<T>>),
    Finish(Result<(), DeviceCredentialError>),
}

impl<K, T> View for CredentialAction<K, T> {
    type V = CredentialActionView<K, T>;

    open spec fn view(&self) -> CredentialActionView<K, T> {
        match *self {
            CredentialAction::Draw { username_chars, password_chars } =>
                CredentialActionView::Draw { username_chars, password_chars },
            CredentialAction::Request { username, password, info } =>
                CredentialActionView::Request {
                username: username@,
                password: password@,
                info: info@,
            },
            CredentialAction::Save(device) => CredentialActionView::Save(device@),
            CredentialAction::Authenticate(device) => CredentialActionView::Authenticate(device@),
            CredentialAction::RequestToken { username, key } =>
                CredentialActionView::RequestToken { username: username@, key },
            CredentialAction::Keep(body) => CredentialActionView::Keep(body),
            CredentialAction::Finish(result) => CredentialActionView::Finish(result),
        }
    }
}

/// The device that was made with these credentials, as the service knows it.
pub open spec fn device_made(
    username: Seq<char>,
    password: Seq<char>,
    answer: ProvisionedDevice,
) -> DeviceView {
    DeviceView {
        puid: answer.puid@,
        hwid: answer.hw_device_id@,
        device_id: match answer.device_id {
            Some(id) => id@,
            None => Seq::empty(),
        },
        splicense: answer.splicense_block@,
        username,
        password,
    }
}

/// What follows on an event while the device gets its credentials.
pub open spec fn credential_action<K, T>(event: CredentialEvent<K, T>) -> CredentialActionView<
    K,
    T,
> {
    match event {
        CredentialEvent::Begun(step) => match step {
            CredentialStep::Provision => CredentialActionView::Draw {
                username_chars: DEVICE_NAME_CHARS,
                password_chars: DEVICE_PASSWORD_CHARS,
            },
            CredentialStep::Reauthenticate(device) => CredentialActionView::Authenticate(device@),
            CredentialStep::Done => CredentialActionView::Finish(Ok(())),
        },
        CredentialEvent::Drawn { username, password } => CredentialActionView::Request {
            username: "02"@ + username@,
            password: password@,
            info: DeviceInfoView { id: DEVICE_INFO_ID@, tpm_info: false },
        },
        CredentialEvent::Requested { username, password, answer } => match answer {
            Err(e) => CredentialActionView::Finish(Err(DeviceCredentialError::Provision(e))),
            Ok(answer) => CredentialActionView::Save(device_made(username@, password@, answer)),
        },
        CredentialEvent::Saved { device, result } => match result {
            Err(e) => CredentialActionView::Finish(Err(DeviceCredentialError::Storage(e))),
            Ok(_) => CredentialActionView::Authenticate(device@),
        },
        CredentialEvent::KeyRead { username, key } => match key {
            Err(e) => CredentialActionView::Finish(Err(e)),
            Ok(key) => CredentialActionView::RequestToken { username: username@, key },
        },
        CredentialEvent::Answered(answer) => match answer {
            Err(e) => CredentialActionView::Finish(Err(DeviceCredentialError::Authenticate(e))),
            Ok(body) => CredentialActionView::Keep(body),
        },
        CredentialEvent::Kept(result) => CredentialActionView::Finish(result),
    }
}

/// Decides what follows on an event while the device gets its credentials.
pub fn next_credential_action<K, T>(event: CredentialEvent<K, T>) -> (action: CredentialAction<
    K,
    T,
>)
    ensures
        action@ == credential_action(event),
{
    match event {
        CredentialEvent::Begun(step) => match step {
            CredentialStep::Provision => CredentialAction::Draw {
                username_chars: DEVICE_NAME_CHARS,
                password_chars: DEVICE_PASSWORD_CHARS,
            },
            CredentialStep::Reauthenticate(device) => CredentialAction::Authenticate(device),
            CredentialStep::Done => CredentialAction::Finish(Ok(())),
        },
        CredentialEvent::Drawn { username, password } => CredentialAction::Request {
            username: device_username(&username),
            password,
            info: DeviceInfo { id: String::from_str(DEVICE_INFO_ID), tpm_info: false },
        },
        CredentialEvent::Requested { username, password, answer } => match answer {
            Err(e) => CredentialAction::Finish(Err(DeviceCredentialError::Provision(e))),
            Ok(answer) => CredentialAction::Save(provisioned_device(username, password, answer)),
        },
        CredentialEvent::Saved { device, result } => match result {
            Err(e) => CredentialAction::Finish(Err(DeviceCredentialError::Storage(e))),
            Ok(()) => CredentialAction::Authenticate(device),
        },
        CredentialEvent::KeyRead { username, key } => match key {
            Err(e) => CredentialAction::Finish(Err(e)),
            Ok(key) => CredentialAction::RequestToken { username, key },
        },
        CredentialEvent::Answered(answer) => match answer {
            Err(e) => CredentialAction::Finish(Err(DeviceCredentialError::Authenticate(e))),
            Ok(body) => CredentialAction::Keep(body),
        },
        CredentialEvent::Kept(result) => CredentialAction::Finish(result),
    }
}

/// `event` tells how `action` came out.
pub open spec fn answers<K, T>(
    action: CredentialActionView<K, T>,
    event: CredentialEvent<K, T>,
) -> bool {
    match action {
        CredentialActionView::Draw { username_chars, password_chars } => event matches
            CredentialEvent::Drawn { username, password } && username@.len() == username_chars
            && password@.len() == password_chars,
        CredentialActionView::Request { username: u, password: p, .. } => event matches
            CredentialEvent::Requested { username, password, .. } && username@ == u && password@
            == p,
        CredentialActionView::Save(d) => event matches CredentialEvent::Saved { device, .. }
            && device@ == d,
        CredentialActionView::Authenticate(d) => event matches CredentialEvent::KeyRead {
            username,
            ..
        } && username@ == d.username,
        CredentialActionView::RequestToken { .. } => event is Answered,
        CredentialActionView::Keep(_) => event is Kept,
        CredentialActionView::Finish(_) => false,
    }
}

/// A run of events that begins with what the device needs, each of which answers to what followed
/// on the one before.
pub open spec fn is_run<K, T>(
    events: Seq<CredentialEvent<K, T>>,
    step: CredentialStep<Device>,
) -> bool {
    &&& events.len() > 0
    &&& events[0] == CredentialEvent::<K, T>::Begun(step)
    &&& forall|i: int|
        0 < i < events.len() ==> answers(credential_action(events[i - 1]), #[trigger] events[i])
}

/// How far a run has come with an event.
spec fn stage<K, T>(event: CredentialEvent<K, T>) -> int {
    match event {
        CredentialEvent::Begun(_) => 0,
        CredentialEvent::Drawn { .. } => 1,
        CredentialEvent::Requested { .. } => 2,
        CredentialEvent::Saved { .. } => 3,
        CredentialEvent::KeyRead { .. } => 4,
        CredentialEvent::Answered(_) => 5,
        CredentialEvent::Kept(_) => 6,
    }
}

proof fn lemma_stages_of_provisioning<K, T>(events: Seq<CredentialEvent<K, T>>, i: int)
    requires
        is_run(events, CredentialStep::Provision),
        0 <= i < events.len(),
    ensures
        stage(events[i]) == i,
    decreases i,
{
    if i > 0 {
        lemma_stages_of_provisioning(events, i - 1);
        assert(answers(credential_action(events[i - 1]), events[i]));
    }
}

/// A new device is authenticated only once its license is kept: the service has taken it in, its
/// license was saved, and it is that device which is authenticated.
pub proof fn a_new_device_is_saved_before_it_is_authenticated<K, T>(
    events: Seq<CredentialEvent<K, T>>,
    i: int,
)
    requires
        is_run(events, CredentialStep::Provision),
        0 <= i < events.len(),
        credential_action(events[i]) is Authenticate,
    ensures
        i >= 2,
        events[i] matches CredentialEvent::Saved { device, result } && result is Ok
            && credential_action(events[i - 1]) == CredentialActionView::<K, T>::Save(device@)
            && credential_action(events[i]) == CredentialActionView::<K, T>::Authenticate(device@),
        events[i - 1] matches CredentialEvent::Requested { answer, .. } && answer is Ok,
{
    lemma_stages_of_provisioning(events, i);
    assert(answers(credential_action(events[i - 1]), events[i]));
    lemma_stages_of_provisioning(events, i - 1);
}

/// Once the license of a new device is kept, whatever comes of the authentication, no step of the run
/// saves anything but a token.
pub proof fn a_kept_license_is_not_touched_again<K, T>(
    events: Seq<CredentialEvent<K, T>>,
    saved: int,
    i: int,
)
    requires
        is_run(events, CredentialStep::Provision),
        0 <= saved < i < events.len(),
        credential_action(events[saved]) is Save,
    ensures
        match credential_action(events[i]) {
            CredentialActionView::Authenticate(_) => true,
            CredentialActionView::RequestToken { .. } => true,
            CredentialActionView::Keep(_) => true,
            CredentialActionView::Finish(_) => true,
            _ => false,
        },
{
    lemma_stages_of_provisioning(events, saved);
    lemma_stages_of_provisioning(events, i);
}

/// A device that the service refuses leaves nothing behind: the refusal is how the run ends, and
/// nothing was saved in it.
pub proof fn a_refused_device_is_not_saved<K, T>(
    events: Seq<CredentialEvent<K, T>>,
    i: int,
    e: String,
    j: int,
)
    requires
        is_run(events, CredentialStep::Provision),
        0 <= i < events.len(),
        events[i] matches CredentialEvent::Requested { answer, .. } && answer == Err::<
            ProvisionedDevice,
            String,
        >(e),
        0 <= j < events.len(),
    ensures
        credential_action(events[i]) == CredentialActionView::<K, T>::Finish(
            Err(DeviceCredentialError::Provision(e)),
        ),
        i == events.len() - 1,
        !(credential_action(events[j]) is Save),
{
    lemma_stages_of_provisioning(events, i);
    lemma_stages_of_provisioning(events, j);
    if i + 1 < events.len() {
        assert(answers(credential_action(events[i + 1 - 1]), events[i + 1]));
    }
}

/// The device that is saved has the name and the password that were drawn for it, as long as they
/// have to be, and what the service said of it.
pub proof fn a_saved_device_is_the_one_that_was_drawn<K, T>(
    events: Seq<CredentialEvent<K, T>>,
    i: int,
    saved: DeviceView,
)
    requires
        is_run(events, CredentialStep::Provision),
        0 <= i < events.len(),
        credential_action(events[i]) == CredentialActionView::<K, T>::Save(saved),
    ensures
        i == 2,
        events[1] matches CredentialEvent::Drawn { username, password } && username@.len()
            == DEVICE_NAME_CHARS && password@.len() == DEVICE_PASSWORD_CHARS && saved.username
            == "02"@ + username@ && saved.password == password@,
        events[2] matches CredentialEvent::Requested { answer, .. } && answer matches Ok(answer)
            && saved == device_made(saved.username, saved.password, answer),
{
    lemma_stages_of_provisioning(events, i);
    lemma_stages_of_provisioning(events, 1);
    assert(answers(credential_action(events[0]), events[1]));
    assert(answers(credential_action(events[1]), events[2]));
}

/// A known device is only authenticated: no step of the run draws, asks for or saves a device, and
/// the name that is authenticated is that of the license.
pub proof fn a_known_device_is_only_reauthenticated<K, T>(
    events: Seq<CredentialEvent<K, T>>,
    license: Device,
    i: int,
)
    requires
        is_run(events, CredentialStep::Reauthenticate(license)),
        0 <= i < events.len(),
    ensures
        match credential_action(events[i]) {
            CredentialActionView::Authenticate(device) => i == 0 && device == license@,
            CredentialActionView::RequestToken { username, .. } => i == 1 && username
                == license.username@,
            CredentialActionView::Keep(_) => i == 2,
            CredentialActionView::Finish(_) => true,
            _ => false,
        },
    decreases i,
{
    if i > 0 {
        a_known_device_is_only_reauthenticated(events, license, i - 1);
        assert(answers(credential_action(events[i - 1]), events[i]));
    }
}

/// When the service takes a device in, the device that is to be saved is the one that it describes:
/// each id and the license stand in the place of their own, with the name and the password that the
/// device was requested with. A license that is bound to no id gives an empty one.
pub proof fn a_device_is_saved_as_the_service_knows_it<K, T>(
    username: String,
    password: String,
    answer: ProvisionedDevice,
    action: CredentialAction<K, T>,
)
    requires
        call_ensures(
            next_credential_action::<K, T>,
            (CredentialEvent::<K, T>::Requested { username, password, answer: Ok(answer) },),
            action,
        ),
    ensures
        action matches CredentialAction::Save(device) && {
            &&& device.puid@ == answer.puid@
            &&& device.hwid@ == answer.hw_device_id@
            &&& device.splicense@ == answer.splicense_block@
            &&& answer.device_id matches Some(id) ==> device.device_id@ == id@
            &&& answer.device_id is None ==> device.device_id@.len() == 0
            &&& device.username@ == username@
            &&& device.password@ == password@
        },
{
}

/// A device that was made is described by the service and by nothing else.
pub proof fn a_provisioned_device_is_what_was_answered(
    username: String,
    password: String,
    answer: ProvisionedDevice,
    device: Device,
)
    requires
        call_ensures(provisioned_device, (username, password, answer), device),
    ensures
        device.puid@ == answer.puid@,
        device.hwid@ == answer.hw_device_id@,
        device.splicense@ == answer.splicense_block@,
        answer.device_id matches Some(id) ==> device.device_id@ == id@,
        answer.device_id is None ==> device.device_id@.len() == 0,
        device.username@ == username@,
        device.password@ == password@,
{
}

/// The name of a new device is `02` and behind it all of the characters that were drawn for it; they
/// go out with the password that was drawn, in a request that tells of no TPM.
pub proof fn a_device_is_requested_under_what_was_drawn<K, T>(
    username: String,
    password: String,
    action: CredentialAction<K, T>,
)
    requires
        call_ensures(
            next_credential_action::<K, T>,
            (CredentialEvent::<K, T>::Drawn { username, password },),
            action,
        ),
    ensures
        action matches CredentialAction::Request { username: u, password: p, info } && {
            &&& u@.len() == username@.len() + 2
            &&& u@[0] == '0' && u@[1] == '2'
            &&& u@.skip(2) == username@
            &&& p@ == password@
            &&& info.id@ == "DeviceInfo"@
            &&& !info.tpm_info
        },
{
    reveal_strlit("02");
    assert(("02"@ + username@).skip(2) =~= username@);
}

/// What the device needs decides how its credentials are got: a new device is drawn with a name of
/// 14 and a password of 20 characters, a known one is authenticated as it is, and where nothing is
/// needed nothing is done.
pub proof fn credentials_begin_with_what_is_needed<K, T>(
    step: CredentialStep<Device>,
    action: CredentialAction<K, T>,
)
    requires
        call_ensures(
            next_credential_action::<K, T>,
            (CredentialEvent::<K, T>::Begun(step),),
            action,
        ),
    ensures
        match step {
            CredentialStep::Provision => action matches CredentialAction::Draw {
                username_chars,
                password_chars,
            } && username_chars == 14 && password_chars == 20,
            CredentialStep::Reauthenticate(device) => action matches CredentialAction::Authenticate(
                d,
            ) && same_device(d, device),
            CredentialStep::Done => action matches CredentialAction::Finish(Ok(_)),
        },
{
}

/// Two devices have the same ids, license, name and password.
pub open spec fn same_device(a: Device, b: Device) -> bool {
    &&& a.puid@ == b.puid@
    &&& a.hwid@ == b.hwid@
    &&& a.device_id@ == b.device_id@
    &&& a.splicense@ == b.splicense@
    &&& a.username@ == b.username@
    &&& a.password@ == b.password@
}

/// The device that was saved is the one that is authenticated, under its own name and with the key
/// in its license, and the answer to that is what is kept. How keeping it ends is how all ends.
pub proof fn a_saved_device_is_authenticated_and_the_answer_kept<K, T>(
    event: CredentialEvent<K, T>,
    action: CredentialAction<K, T>,
)
    requires
        call_ensures(next_credential_action::<K, T>, (event,), action),
    ensures
        event matches CredentialEvent::Saved { device, result: Ok(_) } ==> (action matches
            CredentialAction::Authenticate(d) && same_device(d, device)),
        event matches CredentialEvent::KeyRead { username, key: Ok(key) } ==> (action matches
            CredentialAction::RequestToken { username: u, key: k } && u@ == username@ && k == key),
        event matches CredentialEvent::Answered(Ok(body)) ==> (action matches
            CredentialAction::Keep(b) && b == body),
        event matches CredentialEvent::Kept(result) ==> (action matches CredentialAction::Finish(r)
            && r == result),
{
}

/// Each step that fails ends the run with its own error and cause: a refused device is one that
/// could not be provisioned, a license that could not be kept is a matter of storage, an unreadable
/// key is what reading it said, and a refused authentication is one.
pub proof fn a_failed_step_ends_with_its_own_error<K, T>(
    event: CredentialEvent<K, T>,
    action: CredentialAction<K, T>,
)
    requires
        call_ensures(next_credential_action::<K, T>, (event,), action),
    ensures
        event matches CredentialEvent::Requested { answer: Err(e), .. } ==> (action matches
            CredentialAction::Finish(Err(DeviceCredentialError::Provision(w))) && w == e),
        event matches CredentialEvent::Saved { result: Err(e), .. } ==> (action matches
            CredentialAction::Finish(Err(DeviceCredentialError::Storage(w))) && w == e),
        event matches CredentialEvent::KeyRead { key: Err(e), .. } ==> (action matches
            CredentialAction::Finish(Err(w)) && w == e),
        event matches CredentialEvent::Answered(Err(e)) ==> (action matches
            CredentialAction::Finish(Err(DeviceCredentialError::Authenticate(w))) && w == e),
{
}

/// Without a license that can be read, whatever the reason, a device is provisioned; with one it
/// never is. Such a device is done only with a token that is there and has not expired, and is
/// authenticated with that very license otherwise.
pub proof fn what_a_device_needs_is_told_by_license_and_token<D, T, X: Fn(&T) -> bool>(
    license: Result<D, TokenStoreError>,
    sts: Result<T, TokenStoreError>,
    expired: X,
    r: CredentialStep<D>,
)
    requires
        call_ensures(credential_step_for::<D, T, X>, (license, sts, expired), r),
    ensures
        license is Err <==> r is Provision,
        r matches CredentialStep::Reauthenticate(device) ==> license is Ok && license->Ok_0
            == device,
        license is Ok && sts is Err ==> r is Reauthenticate,
        r is Done ==> sts is Ok && exists|late: bool| #[trigger]
            call_ensures(expired, (&sts->Ok_0,), late) && !late,
        license is Ok && r is Reauthenticate && sts is Ok ==> exists|late: bool| #[trigger]
            call_ensures(expired, (&sts->Ok_0,), late) && late,
{
}

/// The token of a response is read back under the name of its key, which stands in the key info of
/// the encrypted token; a response that lacks any of this is refused and changes nothing.
pub proof fn the_token_of_a_response_goes_under_the_name_of_its_key<
    P: TokenBackend,
    T,
    F: Fn(&[u8]) -> Result<TokenStore<T>, TokenStoreError>,
    G: Fn(&TokenStore<T>) -> Result<Vec<u8>, TokenStoreError>,
>(
    before: P,
    after: P,
    resp: RequestSecurityTokenResponse<T>,
    decode: F,
    encode: G,
    r: Result<(), DeviceCredentialError>,
    meaning: spec_fn(Seq<u8>) -> Result<Map<Seq<char>, T>, TokenStoreError>,
    address: Seq<char>,
    found: Result<Option<T>, TokenStoreError>,
)
    requires
        sts_token_saved::<P, T, F, G>(before, after, resp, decode, encode, r),
        store_codec(decode, encode, meaning),
        P::reliable(),
        token_read::<P, T, F>(after, DEVICE_TOKENS@, address, decode, found),
    ensures
        match resp.requested_security_token.encrypted_data {
            Some(data) => match data.key_info.key_name {
                Some(name) => r is Ok && name@ == address ==> found == Ok::<
                    Option<T>,
                    TokenStoreError,
                >(Some(resp.token)),
                None => r is Err && r->Err_0 is MissingKeyInfo && after == before,
            },
            None => r is Err && r->Err_0 is MissingKeyInfo && after == before,
        },
        r is Err && r->Err_0 is MissingKeyInfo ==> after == before,
{
    if r is Ok && resp.key_name() == Some(address) {
        a_saved_token_is_read_back::<P, T, F, G>(
            before,
            after,
            DEVICE_TOKENS@,
            address,
            resp.token,
            decode,
            encode,
            meaning,
            address,
            found,
        );
    }
}

/// The key that a device signs with is read out of its own license, and each way to fail has its own
/// error, with the cause where there is one.
pub proof fn a_signing_key_is_the_one_in_the_license<S, K, F: Fn(S) -> Result<K, String>>(
    clep_sign_state: Result<Option<S>, String>,
    read_key: F,
    r: Result<K, DeviceCredentialError>,
)
    requires
        call_ensures(device_signing_key::<S, K, F>, (clep_sign_state, read_key), r),
    ensures
        clep_sign_state matches Err(e) ==> r is Err && r->Err_0 is LicenseParse
            && r->Err_0->LicenseParse_0 == e,
        clep_sign_state matches Ok(None) ==> r is Err && r->Err_0 is MissingClepSignState,
        clep_sign_state matches Ok(Some(state)) ==> (r matches Ok(key) ==> call_ensures(
            read_key,
            (state,),
            Ok(key),
        )),
        clep_sign_state matches Ok(Some(state)) ==> (r matches Err(e) ==> e is RsaKey
            && call_ensures(read_key, (state,), Err(e->RsaKey_0))),
{
}

/// An error that has a cause ends its words with the cause.
pub proof fn a_credential_error_ends_with_its_cause(error: DeviceCredentialError, words: String)
    requires
        call_ensures(DeviceCredentialError::message, (&error,), words),
    ensures
        match error {
            DeviceCredentialError::Provision(e) => words@ == "could not provision a new device: "@
                + e@,
            DeviceCredentialError::Authenticate(e) => words@
                == "could not authenticate the device: "@ + e@,
            DeviceCredentialError::LicenseParse(e) => words@
                == "could not parse the device's SPLicense: "@ + e@,
            DeviceCredentialError::RsaKey(e) => words@
                == "could not parse the device's RSA signing key: "@ + e@,
            DeviceCredentialError::MissingClepSignState => words@
                == "device SPLicense is missing its signing key"@,
            DeviceCredentialError::MissingKeyInfo => words@
                == "device authentication response is missing key info"@,
            DeviceCredentialError::Storage(TokenStoreError::NotFound) => words@
                == "failed to persist device credentials: "@ + "not found"@,
            DeviceCredentialError::Storage(TokenStoreError::Json(e)) => words@
                == "failed to persist device credentials: "@ + e@,
            DeviceCredentialError::Storage(TokenStoreError::Backend(e)) => words@
                == "failed to persist device credentials: "@ + e@,
        },
{
}

/// What a device needs is read off what is kept of it: it is provisioned only if its license cannot
/// be read, authenticated anew only with the license that is read, for a token of the token service
/// that cannot be read or has expired, and done only with such a token that has not.
pub proof fn what_a_device_needs_is_read_off_what_is_kept<
    P: TokenBackend,
    E: ExpiringTokenBackend,
    D,
    T,
    F: Fn(&[u8]) -> Result<D, TokenStoreError>,
    G: Fn(&[u8]) -> Result<TokenStore<T>, TokenStoreError>,
    X: Fn(&T) -> bool,
>(
    tokens: TokenManager<P, E>,
    decode_license: F,
    decode_tokens: G,
    expired: X,
    r: CredentialStep<D>,
) -> (read: (Result<D, TokenStoreError>, Result<T, TokenStoreError>))
    requires
        call_ensures(
            credential_step::<P, E, D, T, F, G, X>,
            (&tokens, decode_license, decode_tokens, expired),
            r,
        ),
    ensures
        document_read::<P, D, F>(tokens.storage(), "dev_license"@, decode_license, read.0),
        r is Provision <==> read.0 is Err,
        read.0 is Ok ==> token_owed_read::<P, T, G>(
            tokens.storage(),
            "device-tokens"@,
            "http://Passport.NET/STS"@,
            decode_tokens,
            read.1,
        ),
        r matches CredentialStep::Reauthenticate(device) ==> read.0 is Ok && read.0->Ok_0 == device
            && (read.1 matches Ok(token) ==> call_ensures(expired, (&token,), true)),
        r is Done ==> read.1 is Ok && call_ensures(expired, (&read.1->Ok_0,), false),
{
    let license = choose|license: Result<D, TokenStoreError>| #[trigger]
        document_read::<P, D, F>(tokens.storage(), DEV_LICENSE@, decode_license, license)
            && match license {
            Err(_) => r == CredentialStep::<D>::Provision,
            Ok(_) => step_with_license::<P, D, T, G, X>(
                tokens.storage(),
                license,
                decode_tokens,
                expired,
                r,
            ),
        };
    let sts = choose|sts: Result<T, TokenStoreError>| #[trigger]
        token_owed_read::<P, T, G>(
            tokens.storage(),
            DEVICE_TOKENS@,
            PASSPORT_STS@,
            decode_tokens,
            sts,
        ) && step_chosen(license, sts, expired, r);
    (license, sts)
}

} // verus!
