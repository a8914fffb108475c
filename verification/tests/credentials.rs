use xodus::names::NameMap;
use xodus::soap::{BodyContent, CipherData, EncryptedData, KeyInfoWrap};
use xodus::tokens::device::{
    credential_step, credential_step_for, device_signing_key, device_username,
    next_credential_action, provisioned_device, save_authentication, save_device_sts_token,
    CredentialAction, CredentialEvent, CredentialStep, Device, DeviceCredentialError,
    ProvisionedDevice, RequestSecurityTokenResponse, RequestedSecurityToken,
};
use xodus::tokens::manager::{TokenManager, PASSPORT_STS};
use xodus::tokens::store::{TokenStore, TokenStoreError};
use xodus::xbox::{
    next_sign_in_action, user_token, ExchangeUserTokenOutcome, PolicyReference, SignInAction, SignInEvent, Token, XboxAuthError,
};

fn encode_text(text: &String) -> Result<Vec<u8>, TokenStoreError> {
    Ok(text.clone().into_bytes())
}

fn decode_text(bytes: &[u8]) -> Result<String, TokenStoreError> {
    Ok(String::from_utf8(bytes.to_vec()).unwrap())
}

fn encode_store(store: &TokenStore<String>) -> Result<Vec<u8>, TokenStoreError> {
    let mut lines = String::new();
    for i in 0..store.tokens.len() {
        lines += &format!("{}={}\n", store.tokens.name_at(i), store.tokens.value_at(i));
    }
    Ok(lines.into_bytes())
}

fn decode_store(bytes: &[u8]) -> Result<TokenStore<String>, TokenStoreError> {
    let mut tokens = NameMap::new();
    for line in decode_text(bytes)?.lines() {
        let (name, token) = line
            .split_once('=')
            .ok_or(TokenStoreError::Json("no token".to_string()))?;
        tokens.insert(name.to_string(), token.to_string());
    }
    Ok(TokenStore { tokens })
}

fn never(_: &String) -> bool {
    false
}

fn response(key_name: Option<&str>) -> RequestSecurityTokenResponse<String> {
    RequestSecurityTokenResponse {
        requested_security_token: RequestedSecurityToken {
            encrypted_data: Some(EncryptedData {
                id: String::new(),
                xmlns: String::new(),
                el_type: String::new(),
                key_info: KeyInfoWrap {
                    key_name: key_name.map(|n| n.to_string()),
                    security_token_reference: None,
                },
                cipher_data: CipherData::new(String::new()),
            }),
        },
        token: "token".to_string(),
    }
}

#[test]
fn a_device_is_provisioned_then_authenticated_then_done() {
    let mut tokens = TokenManager::with_memory();
    assert!(matches!(
        credential_step(&tokens, decode_text, decode_store, never),
        CredentialStep::Provision
    ));
    tokens
        .save_device_license(&"license".to_string(), encode_text)
        .unwrap();
    assert!(matches!(
        credential_step(&tokens, decode_text, decode_store, never),
        CredentialStep::Reauthenticate(license) if license == "license"
    ));
    save_device_sts_token(
        &mut tokens,
        Box::new(response(Some(PASSPORT_STS))),
        decode_store,
        encode_store,
    )
    .unwrap();
    assert!(matches!(
        credential_step(&tokens, decode_text, decode_store, never),
        CredentialStep::Done
    ));
    assert_eq!(tokens.get_device_sts_token(decode_store).unwrap(), "token");
}

#[test]
fn an_expired_token_is_renewed() {
    let expired = |token: &u8| *token == 0;
    assert!(matches!(
        credential_step_for(Ok("d"), Ok(0u8), expired),
        CredentialStep::Reauthenticate("d")
    ));
    assert!(matches!(
        credential_step_for(Ok("d"), Ok(1u8), expired),
        CredentialStep::Done
    ));
    assert!(matches!(
        credential_step_for(Ok("d"), Err(TokenStoreError::NotFound), expired),
        CredentialStep::Reauthenticate("d")
    ));
    assert!(matches!(
        credential_step_for::<&str, u8, _>(Err(TokenStoreError::NotFound), Ok(1), expired),
        CredentialStep::Provision
    ));

    let mut tokens = TokenManager::with_memory();
    tokens
        .save_device_license(&"license".to_string(), encode_text)
        .unwrap();
    save_device_sts_token(
        &mut tokens,
        Box::new(response(Some(PASSPORT_STS))),
        decode_store,
        encode_store,
    )
    .unwrap();
    assert!(matches!(
        credential_step(&tokens, decode_text, decode_store, |t: &String| t == "token"),
        CredentialStep::Reauthenticate(license) if license == "license"
    ));
}

type Step = CredentialEvent<u8, String>;

fn device_named(username: &str) -> Device {
    provisioned_device(
        username.to_string(),
        "p".to_string(),
        ProvisionedDevice {
            puid: "puid".to_string(),
            hw_device_id: "hwid".to_string(),
            device_id: None,
            splicense_block: "block".to_string(),
        },
    )
}

#[test]
fn a_new_device_is_drawn_requested_saved_and_authenticated() {
    let CredentialAction::Draw {
        username_chars,
        password_chars,
    } = next_credential_action(Step::Begun(CredentialStep::Provision))
    else {
        panic!("nothing drawn");
    };
    assert_eq!((username_chars, password_chars), (14, 20));
    let CredentialAction::Request {
        username,
        password,
        info,
    } = next_credential_action(Step::Drawn {
        username: "abcdefghijklmn".to_string(),
        password: "p".repeat(20),
    })
    else {
        panic!("nothing requested");
    };
    assert_eq!(info.id, "DeviceInfo");
    assert!(!info.tpm_info);
    assert_eq!(username, "02abcdefghijklmn");
    assert_eq!(password, "p".repeat(20));
    let CredentialAction::Save(device) = next_credential_action(Step::Requested {
        username,
        password,
        answer: Ok(ProvisionedDevice {
            puid: "puid".to_string(),
            hw_device_id: "hwid".to_string(),
            device_id: None,
            splicense_block: "block".to_string(),
        }),
    }) else {
        panic!("nothing saved");
    };
    assert_eq!(device.username, "02abcdefghijklmn");
    assert_eq!(device.password, "p".repeat(20));
    assert_eq!(device.device_id, "");
    let CredentialAction::Authenticate(device) = next_credential_action(Step::Saved {
        device,
        result: Ok(()),
    }) else {
        panic!("not authenticated");
    };
    assert_eq!(device.splicense, "block");
    assert!(matches!(
        next_credential_action(Step::KeyRead { username: device.username, key: Ok(7) }),
        CredentialAction::RequestToken { username, key: 7 } if username == "02abcdefghijklmn"
    ));
    assert!(matches!(
        next_credential_action(Step::Answered(Ok(BodyContent::Other))),
        CredentialAction::Keep(BodyContent::Other)
    ));
    assert!(matches!(
        next_credential_action(Step::Kept(Ok(()))),
        CredentialAction::Finish(Ok(()))
    ));
}

#[test]
fn a_known_device_is_authenticated_and_a_complete_one_left_alone() {
    assert!(matches!(
        next_credential_action(Step::Begun(CredentialStep::Reauthenticate(device_named("u")))),
        CredentialAction::Authenticate(device) if device.username == "u"
    ));
    assert!(matches!(
        next_credential_action(Step::Begun(CredentialStep::Done)),
        CredentialAction::Finish(Ok(()))
    ));
}

#[test]
fn the_first_error_ends_the_way_to_credentials() {
    let error = |event: Step| match next_credential_action(event) {
        CredentialAction::Finish(Err(e)) => e,
        _ => panic!("no error"),
    };
    let text = |t: &str| t.to_string();
    assert!(matches!(
        error(Step::Requested { username: text("u"), password: text("p"), answer: Err(text("no")) }),
        DeviceCredentialError::Provision(e) if e == "no"
    ));
    assert!(matches!(
        error(Step::Saved {
            device: device_named("u"),
            result: Err(TokenStoreError::NotFound)
        }),
        DeviceCredentialError::Storage(TokenStoreError::NotFound)
    ));
    assert!(matches!(
        error(Step::KeyRead {
            username: text("u"),
            key: Err(DeviceCredentialError::MissingClepSignState)
        }),
        DeviceCredentialError::MissingClepSignState
    ));
    assert!(matches!(
        error(Step::Answered(Err(text("down")))),
        DeviceCredentialError::Authenticate(e) if e == "down"
    ));
    assert!(matches!(
        error(Step::Kept(Err(DeviceCredentialError::MissingKeyInfo))),
        DeviceCredentialError::MissingKeyInfo
    ));
}

#[test]
fn a_response_that_names_no_key_is_refused() {
    let mut tokens = TokenManager::with_memory();
    let err = save_device_sts_token(
        &mut tokens,
        Box::new(response(None)),
        decode_store,
        encode_store,
    )
    .unwrap_err();
    assert!(matches!(err, DeviceCredentialError::MissingKeyInfo));
    let mut bare = response(Some("a"));
    bare.requested_security_token.encrypted_data = None;
    assert!(matches!(
        save_device_sts_token(&mut tokens, Box::new(bare), decode_store, encode_store),
        Err(DeviceCredentialError::MissingKeyInfo)
    ));
    assert!(matches!(
        save_device_sts_token(
            &mut tokens,
            Box::new(response(Some("a"))),
            decode_store,
            |_: &TokenStore<String>| Err(TokenStoreError::Backend("full".to_string()))
        ),
        Err(DeviceCredentialError::Storage(TokenStoreError::Backend(_)))
    ));
    assert_eq!(
        tokens.get_device_token_for("a", decode_store).unwrap(),
        None
    );
}

#[test]
fn only_a_single_response_is_saved() {
    let mut tokens = TokenManager::with_memory();
    save_authentication(&mut tokens, BodyContent::Other, decode_store, encode_store).unwrap();
    save_authentication(
        &mut tokens,
        BodyContent::RequestSecurityTokenResponseCollection(vec![response(Some("a"))]),
        decode_store,
        encode_store,
    )
    .unwrap();
    assert_eq!(
        tokens.get_device_token_for("a", decode_store).unwrap(),
        None
    );
    save_authentication(
        &mut tokens,
        BodyContent::RequestSecurityTokenResponse(Box::new(response(Some("a")))),
        decode_store,
        encode_store,
    )
    .unwrap();
    assert_eq!(
        tokens
            .get_device_token_for("a", decode_store)
            .unwrap()
            .as_deref(),
        Some("token")
    );
}

#[test]
fn a_device_signs_with_the_key_in_its_license() {
    let read = |state: u8| -> Result<u8, String> {
        if state == 1 {
            Ok(10)
        } else {
            Err("bad key".to_string())
        }
    };
    assert_eq!(device_signing_key(Ok(Some(1)), read).unwrap(), 10);
    assert!(matches!(
        device_signing_key(Ok(Some(2)), read),
        Err(DeviceCredentialError::RsaKey(e)) if e == "bad key"
    ));
    assert!(matches!(
        device_signing_key(Ok(None), read),
        Err(DeviceCredentialError::MissingClepSignState)
    ));
    assert!(matches!(
        device_signing_key(Err("no license".to_string()), read),
        Err(DeviceCredentialError::LicenseParse(_))
    ));
}

#[test]
fn a_provisioned_device_keeps_what_it_was_made_with() {
    assert_eq!(device_username("abc"), "02abc");
    let answer = |device_id: Option<&str>| ProvisionedDevice {
        puid: "puid".to_string(),
        hw_device_id: "hwid".to_string(),
        device_id: device_id.map(|d| d.to_string()),
        splicense_block: "block".to_string(),
    };
    let device = provisioned_device("u".to_string(), "p".to_string(), answer(Some("id")));
    assert_eq!(device.username, "u");
    assert_eq!(device.password, "p");
    assert_eq!(device.puid, "puid");
    assert_eq!(device.hwid, "hwid");
    assert_eq!(device.device_id, "id");
    assert_eq!(device.splicense, "block");
    let device = provisioned_device("u".to_string(), "p".to_string(), answer(None));
    assert_eq!(device.device_id, "");
}

#[test]
fn credential_errors_are_told_in_words() {
    let e = || "e".to_string();
    for (error, words) in [
        (
            DeviceCredentialError::Provision(e()),
            "could not provision a new device: e",
        ),
        (
            DeviceCredentialError::Authenticate(e()),
            "could not authenticate the device: e",
        ),
        (
            DeviceCredentialError::LicenseParse(e()),
            "could not parse the device's SPLicense: e",
        ),
        (
            DeviceCredentialError::MissingClepSignState,
            "device SPLicense is missing its signing key",
        ),
        (
            DeviceCredentialError::RsaKey(e()),
            "could not parse the device's RSA signing key: e",
        ),
        (
            DeviceCredentialError::MissingKeyInfo,
            "device authentication response is missing key info",
        ),
        (
            DeviceCredentialError::Storage(TokenStoreError::Json(e())),
            "failed to persist device credentials: e",
        ),
        (
            DeviceCredentialError::Storage(TokenStoreError::NotFound),
            "failed to persist device credentials: not found",
        ),
        (
            DeviceCredentialError::Storage(TokenStoreError::Backend(e())),
            "failed to persist device credentials: e",
        ),
    ] {
        assert_eq!(error.message(), words);
    }
}

fn issued(
    body: BodyContent<Token<u8, u8>>,
) -> Result<ExchangeUserTokenOutcome<Token<u8, u8>>, String> {
    Ok(ExchangeUserTokenOutcome::Issued(body))
}

#[test]
fn the_first_token_of_an_exchange_has_to_be_compact() {
    assert_eq!(
        user_token(issued(BodyContent::RequestSecurityTokenResponseCollection(vec![Token::Compact(1), Token::Legacy(2)]))).unwrap(),
        1
    );
    assert_eq!(
        user_token(issued(BodyContent::RequestSecurityTokenResponse(Box::new(Token::Compact(3))))).unwrap(),
        3
    );
    for answer in [
        issued(BodyContent::RequestSecurityTokenResponseCollection(vec![Token::Legacy(2), Token::Compact(1)])),
        issued(BodyContent::RequestSecurityTokenResponse(Box::new(Token::Legacy(2)))),
        issued(BodyContent::Other),
    ] {
        assert!(matches!(
            user_token(answer),
            Err(XboxAuthError::UnsupportedTokenType)
        ));
    }
    assert!(matches!(
        user_token(issued(BodyContent::RequestSecurityTokenResponseCollection(vec![]))),
        Err(XboxAuthError::EmptyTokenCollection)
    ));
    assert!(matches!(
        user_token::<u8, u8>(Ok(ExchangeUserTokenOutcome::Fault)),
        Err(XboxAuthError::TokenExchangeFault)
    ));
    assert!(matches!(
        user_token::<u8, u8>(Err("down".to_string())),
        Err(XboxAuthError::ExchangeUserToken(e)) if e == "down"
    ));
}

type Event = SignInEvent<u8, u8, u16, u32>;
type Action = SignInAction<u8, u16, u32>;

#[test]
fn a_sign_in_goes_from_exchange_to_token() {
    let Action::Exchange(request) = next_sign_in_action(Event::Begun) else {
        panic!("no exchange");
    };
    assert_eq!(request.username, "USERNAME");
    assert_eq!(request.mode, "Silent");
    assert_eq!(request.application, "{d6d5a677-0872-4ab0-9442-bb792fce85c5}");
    assert_eq!(request.relying_party, "user.auth.xboxlive.com");
    assert_eq!(request.policy, Some(PolicyReference::MbiSsl));
    assert!(matches!(
        next_sign_in_action(Event::Exchanged(issued(
            BodyContent::RequestSecurityTokenResponse(Box::new(Token::Compact(5)))
        ))),
        Action::Authenticate(5)
    ));
    assert!(matches!(
        next_sign_in_action(Event::Authenticated(Ok(6))),
        Action::RequestToken(6)
    ));
    assert!(matches!(
        next_sign_in_action(Event::TokenRequested(Ok(7))),
        Action::Finish(Ok(7))
    ));
}

#[test]
fn a_sign_in_ends_with_the_first_error() {
    let words = |event: Event| match next_sign_in_action(event) {
        Action::Finish(Err(e)) => e.message(),
        _ => panic!("no error"),
    };
    let e = || "e".to_string();
    assert_eq!(
        words(Event::Exchanged(Err(e()))),
        "Failed to exchange MS user token: e"
    );
    assert_eq!(
        words(Event::Exchanged(Ok(ExchangeUserTokenOutcome::Fault))),
        "MS user token exchange returned a fault"
    );
    assert_eq!(
        words(Event::Exchanged(issued(
            BodyContent::RequestSecurityTokenResponseCollection(vec![])
        ))),
        "Expected RequestSecurityTokenResponse but token collection was empty"
    );
    assert_eq!(
        words(Event::Exchanged(issued(BodyContent::Other))),
        "Unsupported token type, expected Compact token"
    );
    assert_eq!(
        words(Event::Authenticated(Err(e()))),
        "Failed to authenticate Xbox user: e"
    );
    assert_eq!(
        words(Event::TokenRequested(Err(e()))),
        "Failed to obtain XSTS token: e"
    );
}
