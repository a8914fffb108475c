use serde_json::Value;
use xodus::names::NameMap;
use xodus::time::UtcTime;
use xodus::tokens::backend::MemoryBackend;
use xodus::tokens::manager::{
    TokenManager, DEVICE_TOKENS, PASSPORT_STS, XSTS_CACHE_EXPIRY_MARGIN,
};
use xodus::tokens::store::{
    decode_document, find_token, merge_token, Contents, ExpiringTokenBackend, KeyText,
    TokenBackend, TokenStore, TokenStoreError,
};
use xodus::xbox::{DisplayClaims, XstsResponse, XuiClaim};

fn json(e: serde_json::Error) -> TokenStoreError {
    TokenStoreError::Json(e.to_string())
}

fn encode_text(text: &String) -> Result<Vec<u8>, TokenStoreError> {
    serde_json::to_vec(text).map_err(json)
}

fn decode_text(bytes: &[u8]) -> Result<String, TokenStoreError> {
    serde_json::from_slice(bytes).map_err(json)
}

fn encode_store(store: &TokenStore<String>) -> Result<Vec<u8>, TokenStoreError> {
    let mut object = serde_json::Map::new();
    for i in 0..store.tokens.len() {
        object.insert(
            store.tokens.name_at(i).clone(),
            Value::String(store.tokens.value_at(i).clone()),
        );
    }
    serde_json::to_vec(&Value::Object(object)).map_err(json)
}

fn decode_store(bytes: &[u8]) -> Result<TokenStore<String>, TokenStoreError> {
    let value: Value = serde_json::from_slice(bytes).map_err(json)?;
    let mut tokens = NameMap::new();
    for (name, token) in value.as_object().ok_or(TokenStoreError::NotFound)? {
        tokens.insert(name.clone(), token.as_str().unwrap().to_string());
    }
    Ok(TokenStore { tokens })
}

fn encode_xsts(token: &XstsResponse) -> Result<Vec<u8>, TokenStoreError> {
    serde_json::to_vec(&(
        token.not_after.seconds(),
        token.not_after.nanos(),
        &token.token,
        &token.display_claims.xui[0].uhs,
    ))
    .map_err(json)
}

fn decode_xsts(bytes: &[u8]) -> Result<XstsResponse, TokenStoreError> {
    let (seconds, nanos, token, uhs): (i64, u32, String, String) =
        serde_json::from_slice(bytes).map_err(json)?;
    Ok(XstsResponse {
        not_after: UtcTime::new(seconds, nanos).ok_or(TokenStoreError::NotFound)?,
        token,
        display_claims: DisplayClaims {
            xui: vec![XuiClaim { uhs }],
        },
    })
}

fn xsts_at(seconds: i64) -> XstsResponse {
    XstsResponse {
        not_after: UtcTime::new(seconds, 0).unwrap(),
        token: "t".to_string(),
        display_claims: DisplayClaims {
            xui: vec![XuiClaim {
                uhs: "h".to_string(),
            }],
        },
    }
}

fn xsts_expiring_in(seconds: i64) -> XstsResponse {
    xsts_at(UtcTime::now().seconds() + seconds)
}

#[test]
fn a_token_expiring_within_the_safety_margin_is_treated_as_already_expired() {
    let mut tokens = TokenManager::with_memory();
    tokens.cache_xsts("rp", &xsts_expiring_in(30), encode_xsts);

    assert!(tokens.get_cached_xsts("rp", decode_xsts).is_none());
}

#[test]
fn a_token_expiring_well_past_the_safety_margin_is_still_cached() {
    let mut tokens = TokenManager::with_memory();
    tokens.cache_xsts("rp", &xsts_expiring_in(300), encode_xsts);

    assert!(tokens.get_cached_xsts("rp", decode_xsts).is_some());
}

#[test]
fn a_cached_token_is_found_until_only_the_margin_is_left() {
    let mut tokens = TokenManager::with_memory();
    let now = UtcTime::new(1_000, 500_000_000).unwrap();
    // 99.5 seconds are left, 39.5 of them before the margin.
    tokens.cache_xsts_at("rp", &xsts_at(1_100), &now, 7, encode_xsts);
    let found = tokens
        .get_cached_xsts_at("rp", 7 + 39_499_999_999, decode_xsts)
        .unwrap();
    assert_eq!(found.token, "t");
    assert_eq!(found.display_claims.xui[0].uhs, "h");
    assert_eq!(found.not_after.seconds(), 1_100);
    assert!(tokens
        .get_cached_xsts_at("rp", 7 + 39_500_000_000, decode_xsts)
        .is_none());
    assert!(tokens
        .get_cached_xsts_at("other", 7, decode_xsts)
        .is_none());
    assert_eq!(XSTS_CACHE_EXPIRY_MARGIN, 60);
}

#[test]
fn each_relying_party_has_its_own_token() {
    let mut tokens = TokenManager::with_memory();
    let now = UtcTime::new(1_000, 0).unwrap();
    tokens.cache_xsts_at("one", &xsts_at(1_100), &now, 0, encode_xsts);
    tokens.cache_xsts_at("two", &xsts_at(1_200), &now, 0, encode_xsts);
    let expiry = |party: &str| {
        tokens
            .get_cached_xsts_at(party, 0, decode_xsts)
            .map(|token| token.not_after.seconds())
    };
    assert_eq!(expiry("one"), Some(1_100));
    assert_eq!(expiry("two"), Some(1_200));
}

#[test]
fn a_token_with_just_the_margin_left_is_never_found() {
    let mut tokens = TokenManager::with_memory();
    let now = UtcTime::new(1_000, 0).unwrap();
    tokens.cache_xsts_at("rp", &xsts_at(1_060), &now, 0, encode_xsts);
    assert!(tokens.get_cached_xsts_at("rp", 0, decode_xsts).is_none());
    tokens.cache_xsts_at("rp", &xsts_at(500), &now, 0, encode_xsts);
    assert!(tokens.get_cached_xsts_at("rp", 0, decode_xsts).is_none());
}

#[test]
fn a_token_that_cannot_be_encoded_is_not_cached() {
    let mut tokens = TokenManager::with_memory();
    let now = UtcTime::new(1_000, 0).unwrap();
    tokens.cache_xsts_at("rp", &xsts_at(2_000), &now, 0, |_: &XstsResponse| {
        Err(TokenStoreError::NotFound)
    });
    assert!(tokens.get_cached_xsts_at("rp", 0, decode_xsts).is_none());
}

#[test]
fn a_cached_value_that_cannot_be_decoded_is_not_found() {
    let mut tokens = TokenManager::with_memory();
    let now = UtcTime::new(1_000, 0).unwrap();
    tokens.cache_xsts_at("rp", &xsts_at(2_000), &now, 0, |_: &XstsResponse| {
        Ok(b"no json".to_vec())
    });
    assert!(tokens.get_cached_xsts_at("rp", 0, decode_xsts).is_none());
}

#[test]
fn a_saved_token_is_read_back_beside_the_others() {
    let mut tokens = TokenManager::with_memory();
    for (address, token) in [("a", "1"), ("b", "2"), ("a", "3")] {
        tokens
            .save_device_token(
                address.to_string(),
                token.to_string(),
                decode_store,
                encode_store,
            )
            .unwrap();
    }
    let read = |address: &str| tokens.get_device_token_for(address, decode_store).unwrap();
    assert_eq!(read("a").as_deref(), Some("3"));
    assert_eq!(read("b").as_deref(), Some("2"));
    assert_eq!(read("c"), None);
    assert_eq!(tokens.get_user_token_for("a", decode_store).unwrap(), None);
}

#[test]
fn tokens_of_device_and_user_are_kept_apart() {
    let mut tokens = TokenManager::with_memory();
    let sts = || PASSPORT_STS.to_string();
    assert!(matches!(
        tokens.get_device_sts_token(decode_store),
        Err(TokenStoreError::NotFound)
    ));
    assert!(matches!(
        tokens.get_user_sts_token(decode_store),
        Err(TokenStoreError::NotFound)
    ));
    tokens
        .save_device_token(sts(), "device".to_string(), decode_store, encode_store)
        .unwrap();
    tokens
        .save_user_token(sts(), "user".to_string(), decode_store, encode_store)
        .unwrap();
    assert_eq!(
        tokens.get_device_sts_token(decode_store).unwrap(),
        "device"
    );
    assert_eq!(tokens.get_user_sts_token(decode_store).unwrap(), "user");
}

#[test]
fn forgetting_tokens_and_user_keeps_the_license() {
    let mut tokens = TokenManager::with_memory();
    assert!(matches!(
        tokens.get_device_license(decode_text),
        Err(TokenStoreError::NotFound)
    ));
    tokens
        .save_device_license(&"license".to_string(), encode_text)
        .unwrap();
    tokens.save_user(&"user".to_string(), encode_text).unwrap();
    tokens
        .save_user_token(
            "a".to_string(),
            "1".to_string(),
            decode_store,
            encode_store,
        )
        .unwrap();
    assert_eq!(tokens.get_user(decode_text).unwrap(), "user");
    tokens.remove_persistent().unwrap();
    assert!(matches!(
        tokens.get_user(decode_text),
        Err(TokenStoreError::NotFound)
    ));
    assert_eq!(tokens.get_user_token_for("a", decode_store).unwrap(), None);
    assert_eq!(tokens.get_device_license(decode_text).unwrap(), "license");
    tokens.remove_device_license().unwrap();
    assert!(matches!(
        tokens.get_device_license(decode_text),
        Err(TokenStoreError::NotFound)
    ));
}

#[test]
fn an_empty_store_is_written_over_but_not_read() {
    let mut keychain = MemoryBackend::default();
    keychain.set(DEVICE_TOKENS, &[]).unwrap();
    let mut tokens = TokenManager::with_keychain_and_memory(keychain);
    assert!(matches!(
        tokens.get_device_token_for("a", decode_store),
        Err(TokenStoreError::Json(_))
    ));
    tokens
        .save_device_token(
            "a".to_string(),
            "1".to_string(),
            decode_store,
            encode_store,
        )
        .unwrap();
    assert_eq!(
        tokens
            .get_device_token_for("a", decode_store)
            .unwrap()
            .as_deref(),
        Some("1")
    );
}

#[test]
fn a_broken_store_is_neither_read_nor_written_over() {
    let mut keychain = MemoryBackend::default();
    keychain.set(DEVICE_TOKENS, b"no json").unwrap();
    let mut tokens = TokenManager::new(keychain, MemoryBackend::default());
    assert!(matches!(
        tokens.save_device_token(
            "a".to_string(),
            "1".to_string(),
            decode_store,
            encode_store,
        ),
        Err(TokenStoreError::Json(_))
    ));
    assert!(matches!(
        tokens.get_device_token_for("a", decode_store),
        Err(TokenStoreError::Json(_))
    ));
}

#[test]
fn what_a_backend_refuses_is_passed_on() {
    let refused = || Err(TokenStoreError::Backend("locked".to_string()));
    assert!(matches!(
        decode_document(refused(), decode_text),
        Err(TokenStoreError::Backend(_))
    ));
    assert!(matches!(
        find_token(refused(), "a", decode_store),
        Err(TokenStoreError::Backend(_))
    ));
    assert!(matches!(
        merge_token(refused(), "a".to_string(), "1".to_string(), decode_store),
        Err(TokenStoreError::Backend(_))
    ));
}

#[test]
fn memory_keeps_entries_and_expiring_entries_apart() {
    let mut memory = MemoryBackend::default();
    memory.set("k", &[1]).unwrap();
    memory.set_with_expiry("k", &[2], 10).unwrap();
    assert_eq!(memory.get("k").unwrap(), Some(vec![1]));
    assert_eq!(memory.get_at("k", 9).unwrap(), Some(vec![2]));
    assert_eq!(memory.get_at("k", 10).unwrap(), None);
    memory.remove("k").unwrap();
    assert_eq!(memory.get("k").unwrap(), None);
    assert_eq!(memory.get_at("k", 9).unwrap(), Some(vec![2]));
}

#[test]
fn the_calendar_has_an_end_and_leap_seconds() {
    assert!(UtcTime::new(8_210_266_876_799, 0).is_some());
    assert!(UtcTime::new(8_210_266_876_800, 0).is_none());
    assert!(UtcTime::new(-8_334_601_228_800, 0).is_some());
    assert!(UtcTime::new(-8_334_601_228_801, 0).is_none());
    assert!(UtcTime::new(0, 1_000_000_000).is_none());
    assert!(UtcTime::new(59, 1_999_999_999).is_some());
    assert!(UtcTime::new(-1, 1_000_000_000).is_some());
    assert!(UtcTime::new(59, 2_000_000_000).is_none());
}

#[test]
fn spans_are_counted_in_nanoseconds() {
    let t = |seconds: i64, nanos: u32| UtcTime::new(seconds, nanos).unwrap();
    assert_eq!(t(100, 5).nanos_since(&t(40, 7)), 59_999_999_998);
    assert_eq!(t(40, 7).nanos_since(&t(100, 5)), -59_999_999_998);
    assert_eq!(
        t(8_210_266_876_799, 0).nanos_since(&t(-8_334_601_228_800, 0)),
        16_544_868_105_599_000_000_000
    );
    // A leap second counts from the times of the day around it.
    assert_eq!(t(60, 0).nanos_since(&t(59, 1_500_000_000)), 500_000_000);
    assert_eq!(t(59, 1_500_000_000).nanos_since(&t(58, 0)), 2_500_000_000);
    assert_eq!(t(59, 1_500_000_000).nanos_since(&t(60, 0)), -500_000_000);
    assert_eq!(
        t(86_400, 0).nanos_since(&t(59, 1_500_000_000)),
        86_339_500_000_000
    );
}

/// Refuses to forget one key.
struct Stubborn {
    memory: MemoryBackend,
    key: &'static str,
    forgotten: std::rc::Rc<std::cell::RefCell<Vec<String>>>,
}

impl TokenBackend for Stubborn {
    fn contents(&self) -> Contents {
        unreachable!()
    }

    fn reliable() -> bool {
        unreachable!()
    }

    fn refuses(&self, _: KeyText, _: TokenStoreError) -> bool {
        unreachable!()
    }

    fn get(&self, key: &str) -> Result<Option<Vec<u8>>, TokenStoreError> {
        self.memory.get(key)
    }

    fn set(&mut self, key: &str, value: &[u8]) -> Result<(), TokenStoreError> {
        self.memory.set(key, value)
    }

    fn remove(&mut self, key: &str) -> Result<(), TokenStoreError> {
        if key == self.key {
            return Err(TokenStoreError::Backend(format!("{key} stays")));
        }
        self.forgotten.borrow_mut().push(key.to_string());
        self.memory.remove(key)
    }
}

#[test]
fn forgetting_goes_in_order_up_to_the_first_refusal() {
    for (key, expected) in [
        ("device-tokens", vec![]),
        ("user-tokens", vec!["device-tokens"]),
        ("user-DA", vec!["device-tokens", "user-tokens"]),
    ] {
        let forgotten = std::rc::Rc::new(std::cell::RefCell::new(vec![]));
        let mut tokens = TokenManager::with_keychain_and_memory(Stubborn {
            memory: MemoryBackend::default(),
            key,
            forgotten: forgotten.clone(),
        });
        assert_eq!(
            tokens.remove_persistent().unwrap_err().message(),
            format!("{key} stays")
        );
        assert_eq!(*forgotten.borrow(), expected);
    }
}

#[test]
fn the_present_lies_in_no_leap_second() {
    assert!(UtcTime::now().nanos() < 1_000_000_000);
}

struct Locked {
    memory: MemoryBackend,
    read_error: Option<&'static str>,
    written: std::rc::Rc<std::cell::RefCell<Vec<String>>>,
}

impl TokenBackend for Locked {
    fn contents(&self) -> Contents {
        unreachable!()
    }

    fn reliable() -> bool {
        unreachable!()
    }

    fn refuses(&self, _: KeyText, _: TokenStoreError) -> bool {
        unreachable!()
    }

    fn get(&self, key: &str) -> Result<Option<Vec<u8>>, TokenStoreError> {
        match self.read_error {
            Some(e) => Err(TokenStoreError::Backend(format!("{key}: {e}"))),
            None => self.memory.get(key),
        }
    }

    fn set(&mut self, key: &str, _: &[u8]) -> Result<(), TokenStoreError> {
        self.written.borrow_mut().push(key.to_string());
        Err(TokenStoreError::Backend(format!("{key}: read-only")))
    }

    fn remove(&mut self, key: &str) -> Result<(), TokenStoreError> {
        self.memory.remove(key)
    }
}

#[test]
fn a_refused_read_comes_back_as_it_was_refused() {
    let written = std::rc::Rc::new(std::cell::RefCell::new(vec![]));
    let mut tokens = TokenManager::with_keychain_and_memory(Locked {
        memory: MemoryBackend::default(),
        read_error: Some("locked"),
        written: written.clone(),
    });
    let device = "device-tokens: locked";
    let user = "user-tokens: locked";
    assert_eq!(
        tokens.get_device_license(decode_text).unwrap_err().message(),
        "dev_license: locked"
    );
    assert_eq!(
        tokens.get_user(decode_text).unwrap_err().message(),
        "user-DA: locked"
    );
    assert_eq!(
        tokens.get_device_token_for("a", decode_store).unwrap_err().message(),
        device
    );
    assert_eq!(
        tokens.get_user_token_for("a", decode_store).unwrap_err().message(),
        user
    );
    assert_eq!(
        tokens.get_device_sts_token(decode_store).unwrap_err().message(),
        device
    );
    assert_eq!(
        tokens.get_user_sts_token(decode_store).unwrap_err().message(),
        user
    );

    // A store that cannot be read is not written either.
    let saved = tokens.save_device_token(
        "a".to_string(),
        "t".to_string(),
        decode_store,
        encode_store,
    );
    assert_eq!(saved.unwrap_err().message(), device);
    let saved =
        tokens.save_user_token("a".to_string(), "t".to_string(), decode_store, encode_store);
    assert_eq!(saved.unwrap_err().message(), user);
    assert!(written.borrow().is_empty());
}

#[test]
fn a_refused_write_comes_back_as_it_was_refused() {
    let written = std::rc::Rc::new(std::cell::RefCell::new(vec![]));
    let mut tokens = TokenManager::with_keychain_and_memory(Locked {
        memory: MemoryBackend::default(),
        read_error: None,
        written: written.clone(),
    });
    let text = "x".to_string();
    assert_eq!(
        tokens.save_device_license(&text, encode_text).unwrap_err().message(),
        "dev_license: read-only"
    );
    assert_eq!(
        tokens.save_user(&text, encode_text).unwrap_err().message(),
        "user-DA: read-only"
    );
    let saved = tokens.save_device_token(
        "a".to_string(),
        "t".to_string(),
        decode_store,
        encode_store,
    );
    assert_eq!(saved.unwrap_err().message(), "device-tokens: read-only");
    let saved =
        tokens.save_user_token("a".to_string(), "t".to_string(), decode_store, encode_store);
    assert_eq!(saved.unwrap_err().message(), "user-tokens: read-only");
    assert_eq!(
        *written.borrow(),
        ["dev_license", "user-DA", "device-tokens", "user-tokens"]
    );

    // What cannot be encoded is not written.
    let failed = |_: &String| Err(TokenStoreError::Json("no json".to_string()));
    assert_eq!(
        tokens.save_user(&text, failed).unwrap_err().message(),
        "no json"
    );
    assert_eq!(written.borrow().len(), 4);
}

#[test]
fn the_user_has_a_token_for_the_token_service_once_it_is_saved() {
    let mut tokens = TokenManager::with_memory();
    tokens
        .save_device_token(
            PASSPORT_STS.to_string(),
            "d".to_string(),
            decode_store,
            encode_store,
        )
        .unwrap();
    tokens
        .save_user_token("a".to_string(), "u".to_string(), decode_store, encode_store)
        .unwrap();
    assert!(matches!(
        tokens.get_user_sts_token(decode_store),
        Err(TokenStoreError::NotFound)
    ));
    tokens
        .save_user_token(
            PASSPORT_STS.to_string(),
            "s".to_string(),
            decode_store,
            encode_store,
        )
        .unwrap();
    assert_eq!(tokens.get_user_sts_token(decode_store).unwrap(), "s");
    assert_eq!(tokens.get_device_sts_token(decode_store).unwrap(), "d");
    assert_eq!(
        tokens.get_user_token_for("a", decode_store).unwrap().unwrap(),
        "u"
    );
}

#[test]
fn saving_a_user_token_changes_no_other_read() {
    let mut tokens = TokenManager::with_memory();
    tokens.save_device_license(&"l".to_string(), encode_text).unwrap();
    tokens.save_user(&"n".to_string(), encode_text).unwrap();
    tokens
        .save_device_token("a".to_string(), "d".to_string(), decode_store, encode_store)
        .unwrap();
    let now = UtcTime::new(1_000, 0).unwrap();
    tokens.cache_xsts_at("rp", &xsts_at(1_100), &now, 7, encode_xsts);
    tokens
        .save_user_token("a".to_string(), "u".to_string(), decode_store, encode_store)
        .unwrap();
    assert_eq!(tokens.get_device_license(decode_text).unwrap(), "l");
    assert_eq!(tokens.get_user(decode_text).unwrap(), "n");
    assert_eq!(
        tokens.get_device_token_for("a", decode_store).unwrap().unwrap(),
        "d"
    );
    assert!(tokens.get_device_token_for("b", decode_store).unwrap().is_none());
    assert!(tokens.get_cached_xsts_at("rp", 8, decode_xsts).is_some());
}

#[test]
fn the_license_outlasts_other_changes() {
    let mut tokens = TokenManager::with_memory();
    assert!(matches!(
        tokens.get_device_license(decode_text),
        Err(TokenStoreError::NotFound)
    ));
    tokens.save_device_license(&"l".to_string(), encode_text).unwrap();
    for address in ["a", "b"] {
        tokens
            .save_device_token(
                address.to_string(),
                "d".to_string(),
                decode_store,
                encode_store,
            )
            .unwrap();
        tokens
            .save_user_token(
                address.to_string(),
                "u".to_string(),
                decode_store,
                encode_store,
            )
            .unwrap();
        tokens.save_user(&address.to_string(), encode_text).unwrap();
        tokens.remove_persistent().unwrap();
        assert_eq!(tokens.get_device_license(decode_text).unwrap(), "l");
    }
}

#[test]
fn a_broken_license_is_not_a_missing_one() {
    let mut memory = MemoryBackend::default();
    memory.set("dev_license", b"{").unwrap();
    let tokens = TokenManager::new(memory, MemoryBackend::default());
    assert!(matches!(
        tokens.get_device_license(decode_text),
        Err(TokenStoreError::Json(_))
    ));
}

#[test]
fn a_cached_token_runs_out_as_the_clock_runs() {
    let mut tokens = TokenManager::with_memory();
    let now = UtcTime::now();
    let mut token = xsts_at(0);
    // Two seconds before the margin.
    token.not_after = UtcTime::new(now.seconds() + 62, now.nanos()).unwrap();
    let started = std::time::Instant::now();
    tokens.cache_xsts("rp", &token, encode_xsts);
    assert!(tokens.get_cached_xsts("rp", decode_xsts).is_some());

    // Nothing that happens in between sets the clock back.
    while started.elapsed().as_millis() < 2_100 {
        tokens.cache_xsts("other", &token, encode_xsts);
        tokens.save_user(&"n".to_string(), encode_text).unwrap();
        tokens.remove_persistent().unwrap();
    }
    assert!(tokens.get_cached_xsts("rp", decode_xsts).is_none());
    assert!(tokens.get_cached_xsts("other", decode_xsts).is_none());
}
