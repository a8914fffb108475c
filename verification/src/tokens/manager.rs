//! The tokens of a device and its user.

use vstd::prelude::*;

use crate::time::{
    clock_end, utc_reading, MonotonicClock, UtcTime, NANOS_PER_SECOND,
};
use crate::tokens::backend::MemoryBackend;
use crate::tokens::store::{
    decode_document, decodes, document_of, entry, find_token, merge_token, merged_store_of,
    read_outcome, removal_outcome, stored_bytes, token_of, unexpired, write_outcome, ExpiringTokenBackend,
    TokenBackend, TokenStore, TokenStoreError,
};
use crate::xbox::XstsResponse;

verus! {

/// Where the license of the device is kept.
pub const DEV_LICENSE: &'static str = "dev_license";

/// Where the tokens of the device are kept.
pub const DEVICE_TOKENS: &'static str = "device-tokens";

/// Where the tokens of the user are kept.
pub const USER_TOKENS: &'static str = "user-tokens";

/// Where what is known of the user is kept.
pub const USER_INFO: &'static str = "user-DA";

/// The address of the token service itself.
pub const PASSPORT_STS: &'static str = "http://Passport.NET/STS";

/// An XSTS token leaves the cache this many seconds before it expires, so that one that comes out
/// of the cache does not run out before it is used.
pub const XSTS_CACHE_EXPIRY_MARGIN: u64 = 60;

/// Keeps credentials of the device and its user in one place for good, and short-lived XSTS tokens
/// in another up to their expiry.
pub struct TokenManager<P, E> {
    persistent: P,
    ephemeral: E,
    clock: MonotonicClock,
    /// The moment of the clock at which something was last cached.
    latest: u128,
}

impl TokenManager<MemoryBackend, MemoryBackend> {
    /// Keeps everything in memory.
    pub fn with_memory() -> (out: Self)
        ensures
            out.saved() == Map::<Seq<char>, Seq<u8>>::empty(),
            out.cached() == Map::<Seq<char>, (Seq<u8>, u128)>::empty(),
            out.latest() == 0,
            out.clock().starts_at_a_present(),
    {
        Self::new(MemoryBackend::default(), MemoryBackend::default())
    }
}

impl<K: TokenBackend> TokenManager<K, MemoryBackend> {
    /// Keeps credentials in `keychain`, and short-lived tokens in memory.
    pub fn with_keychain_and_memory(keychain: K) -> (out: Self)
        ensures
            out.storage() == keychain,
            out.cached() == Map::<Seq<char>, (Seq<u8>, u128)>::empty(),
            out.latest() == 0,
            out.clock().starts_at_a_present(),
    {
        Self::new(keychain, MemoryBackend::default())
    }
}

impl<P: TokenBackend, E: ExpiringTokenBackend> TokenManager<P, E> {
    /// Where things are kept for good.
    pub closed spec fn storage(&self) -> P {
        self.persistent
    }

    /// What is kept for good.
    pub open spec fn saved(&self) -> Map<Seq<char>, Seq<u8>> {
        self.storage().contents()
    }

    /// The clock by which short-lived tokens expire.
    pub closed spec fn clock(&self) -> MonotonicClock {
        self.clock
    }

    /// The moment of the manager's clock at which `cache_xsts` last cached something.
    pub closed spec fn latest(&self) -> u128 {
        self.latest
    }

    /// What is kept up to its expiry, in nanoseconds on the manager's clock.
    pub closed spec fn cached(&self) -> Map<Seq<char>, (Seq<u8>, u128)> {
        self.ephemeral.expiring()
    }

    /// A manager over two places of storage.
    pub fn new(persistent: P, ephemeral: E) -> (out: Self)
        ensures
            out.storage() == persistent,
            out.cached() == ephemeral.expiring(),
            out.latest() == 0,
            out.clock().starts_at_a_present(),
    {
        TokenManager { persistent, ephemeral, clock: MonotonicClock::start(), latest: 0 }
    }

    /// Forgets the tokens of the device, those of the user, and the user, in this order, up to the
    /// first refusal, which comes back. The license of the device stays.
    pub fn remove_persistent(&mut self) -> (r: Result<(), TokenStoreError>)
        ensures
            removed_in_order(old(self).storage(), final(self).storage(), r),
            r is Ok ==> final(self).saved() == old(self).saved().remove(DEVICE_TOKENS@).remove(
                USER_TOKENS@,
            ).remove(USER_INFO@),
            final(self).saved().remove(DEVICE_TOKENS@).remove(USER_TOKENS@).remove(USER_INFO@)
                == old(self).saved().remove(DEVICE_TOKENS@).remove(USER_TOKENS@).remove(USER_INFO@),
            P::reliable() ==> r is Ok,
            final(self).cached() == old(self).cached(),
            final(self).latest() == old(self).latest(),
            final(self).clock() == old(self).clock(),
    {
        let ghost start = self.storage();
        if let Err(e) = self.persistent.remove(DEVICE_TOKENS) {
            assert(removal_outcome(start, self.storage(), DEVICE_TOKENS@, Err(e)));
            return Err(e);
        }
        let ghost first = self.storage();
        assert(removal_outcome(start, first, DEVICE_TOKENS@, Ok(())));
        if let Err(e) = self.persistent.remove(USER_TOKENS) {
            assert(removal_outcome(first, self.storage(), USER_TOKENS@, Err(e)));
            proof {
                lemma_removals_commute(self.saved());
                lemma_removals_commute(first.contents());
                lemma_removals_commute(start.contents());
            }
            return Err(e);
        }
        let ghost second = self.storage();
        assert(removal_outcome(first, second, USER_TOKENS@, Ok(())));
        let r = self.persistent.remove(USER_INFO);
        assert(removal_outcome(second, self.storage(), USER_INFO@, r));
        proof {
            lemma_removals_commute(self.saved());
            lemma_removals_commute(second.contents());
            lemma_removals_commute(start.contents());
        }
        r
    }

    /// The license of the device.
    pub fn get_device_license<D, F: Fn(&[u8]) -> Result<D, TokenStoreError>>(&self, decode: F) -> (r:
        Result<D, TokenStoreError>)
        requires
            forall|b: &[u8]| #[trigger] call_requires(decode, (b,)),
        ensures
            document_read::<P, D, F>(self.storage(), DEV_LICENSE@, decode, r),
            r matches Err(e) ==> read_fails::<P, D, F>(self.storage(), DEV_LICENSE@, decode, e) || (entry(
                self.saved(),
                DEV_LICENSE@,
            ) is None && e is NotFound),
    {
        self.read_document(DEV_LICENSE, decode)
    }

    /// Keeps the license of the device, in place of the one before.
    pub fn save_device_license<D, F: Fn(&D) -> Result<Vec<u8>, TokenStoreError>>(
        &mut self,
        device: &D,
        encode: F,
    ) -> (r: Result<(), TokenStoreError>)
        requires
            call_requires(encode, (device,)),
        ensures
            document_written::<P, D, F>(
                old(self).storage(),
                final(self).storage(),
                DEV_LICENSE@,
                *device,
                encode,
                r,
            ),
            r matches Err(e) ==> old(self).storage().refuses(DEV_LICENSE@, e) || call_ensures(
                encode,
                (device,),
                Err(e),
            ),
            final(self).saved().remove("dev_license"@) == old(self).saved().remove("dev_license"@),
            final(self).cached() == old(self).cached(),
            final(self).latest() == old(self).latest(),
            final(self).clock() == old(self).clock(),
    {
        self.write_document(DEV_LICENSE, device, encode)
    }

    /// Forgets the license of the device.
    pub fn remove_device_license(&mut self) -> (r: Result<(), TokenStoreError>)
        ensures
            removal_outcome(old(self).storage(), final(self).storage(), DEV_LICENSE@, r),
            final(self).saved().remove("dev_license"@) == old(self).saved().remove("dev_license"@),
            r is Ok ==> !final(self).saved().contains_key("dev_license"@),
            final(self).cached() == old(self).cached(),
            final(self).latest() == old(self).latest(),
            final(self).clock() == old(self).clock(),
    {
        self.persistent.remove(DEV_LICENSE)
    }

    /// The token of the device that applies to `address`, if there is one.
    pub fn get_device_token_for<T, F: Fn(&[u8]) -> Result<TokenStore<T>, TokenStoreError>>(
        &self,
        address: &str,
        decode: F,
    ) -> (r: Result<Option<T>, TokenStoreError>)
        requires
            forall|b: &[u8]| #[trigger] call_requires(decode, (b,)),
        ensures
            token_read::<P, T, F>(self.storage(), DEVICE_TOKENS@, address@, decode, r),
            r matches Err(e) ==> read_fails::<P, TokenStore<T>, F>(
                self.storage(),
                DEVICE_TOKENS@,
                decode,
                e,
            ),
    {
        self.read_token_store(DEVICE_TOKENS, address, decode)
    }

    /// Keeps a token of the device for `address`, beside those for other addresses.
    pub fn save_device_token<
        T,
        F: Fn(&[u8]) -> Result<TokenStore<T>, TokenStoreError>,
        G: Fn(&TokenStore<T>) -> Result<Vec<u8>, TokenStoreError>,
    >(&mut self, address: String, token: T, decode: F, encode: G) -> (r: Result<(), TokenStoreError>)
        requires
            forall|b: &[u8]| #[trigger] call_requires(decode, (b,)),
            forall|s: &TokenStore<T>| #[trigger] call_requires(encode, (s,)),
        ensures
            token_written::<P, T, F, G>(
                old(self).storage(),
                final(self).storage(),
                DEVICE_TOKENS@,
                address@,
                token,
                decode,
                encode,
                r,
            ),
            r matches Err(e) ==> read_fails::<P, TokenStore<T>, F>(
                old(self).storage(),
                DEVICE_TOKENS@,
                decode,
                e,
            ) || encoding_fails::<TokenStore<T>, G>(encode, e),
            final(self).saved().remove("device-tokens"@) == old(self).saved().remove("device-tokens"@),
            final(self).cached() == old(self).cached(),
            final(self).latest() == old(self).latest(),
            final(self).clock() == old(self).clock(),
    {
        self.write_token_store(DEVICE_TOKENS, address, token, decode, encode)
    }

    /// The token of the device for the token service itself.
    pub fn get_device_sts_token<T, F: Fn(&[u8]) -> Result<TokenStore<T>, TokenStoreError>>(
        &self,
        decode: F,
    ) -> (r: Result<T, TokenStoreError>)
        requires
            forall|b: &[u8]| #[trigger] call_requires(decode, (b,)),
        ensures
            token_owed_read::<P, T, F>(self.storage(), DEVICE_TOKENS@, PASSPORT_STS@, decode, r),
            r matches Err(e) ==> e is NotFound || read_fails::<P, TokenStore<T>, F>(
                self.storage(),
                DEVICE_TOKENS@,
                decode,
                e,
            ),
    {
        let found = self.get_device_token_for(PASSPORT_STS, decode);
        token_owed(found)
    }

    /// The token of the user that applies to `address`, if there is one.
    pub fn get_user_token_for<T, F: Fn(&[u8]) -> Result<TokenStore<T>, TokenStoreError>>(
        &self,
        address: &str,
        decode: F,
    ) -> (r: Result<Option<T>, TokenStoreError>)
        requires
            forall|b: &[u8]| #[trigger] call_requires(decode, (b,)),
        ensures
            token_read::<P, T, F>(self.storage(), USER_TOKENS@, address@, decode, r),
            r matches Err(e) ==> read_fails::<P, TokenStore<T>, F>(
                self.storage(),
                USER_TOKENS@,
                decode,
                e,
            ),
    {
        self.read_token_store(USER_TOKENS, address, decode)
    }

    /// Keeps a token of the user for `address`, beside those for other addresses.
    pub fn save_user_token<
        T,
        F: Fn(&[u8]) -> Result<TokenStore<T>, TokenStoreError>,
        G: Fn(&TokenStore<T>) -> Result<Vec<u8>, TokenStoreError>,
    >(&mut self, address: String, token: T, decode: F, encode: G) -> (r: Result<(), TokenStoreError>)
        requires
            forall|b: &[u8]| #[trigger] call_requires(decode, (b,)),
            forall|s: &TokenStore<T>| #[trigger] call_requires(encode, (s,)),
        ensures
            token_written::<P, T, F, G>(
                old(self).storage(),
                final(self).storage(),
                USER_TOKENS@,
                address@,
                token,
                decode,
                encode,
                r,
            ),
            r matches Err(e) ==> read_fails::<P, TokenStore<T>, F>(
                old(self).storage(),
                USER_TOKENS@,
                decode,
                e,
            ) || encoding_fails::<TokenStore<T>, G>(encode, e),
            final(self).saved().remove("user-tokens"@) == old(self).saved().remove("user-tokens"@),
            final(self).cached() == old(self).cached(),
            final(self).latest() == old(self).latest(),
            final(self).clock() == old(self).clock(),
    {
        self.write_token_store(USER_TOKENS, address, token, decode, encode)
    }

    /// The token of the user for the token service itself.
    pub fn get_user_sts_token<T, F: Fn(&[u8]) -> Result<TokenStore<T>, TokenStoreError>>(
        &self,
        decode: F,
    ) -> (r: Result<T, TokenStoreError>)
        requires
            forall|b: &[u8]| #[trigger] call_requires(decode, (b,)),
        ensures
            token_owed_read::<P, T, F>(self.storage(), USER_TOKENS@, PASSPORT_STS@, decode, r),
            r matches Err(e) ==> e is NotFound || read_fails::<P, TokenStore<T>, F>(
                self.storage(),
                USER_TOKENS@,
                decode,
                e,
            ),
    {
        let found = self.get_user_token_for(PASSPORT_STS, decode);
        token_owed(found)
    }

    /// What is known of the user.
    pub fn get_user<D, F: Fn(&[u8]) -> Result<D, TokenStoreError>>(&self, decode: F) -> (r: Result<
        D,
        TokenStoreError,
    >)
        requires
            forall|b: &[u8]| #[trigger] call_requires(decode, (b,)),
        ensures
            document_read::<P, D, F>(self.storage(), USER_INFO@, decode, r),
            r matches Err(e) ==> read_fails::<P, D, F>(self.storage(), USER_INFO@, decode, e) || (entry(
                self.saved(),
                USER_INFO@,
            ) is None && e is NotFound),
    {
        self.read_document(USER_INFO, decode)
    }

    /// Keeps what is known of the user, in place of what was known before.
    pub fn save_user<D, F: Fn(&D) -> Result<Vec<u8>, TokenStoreError>>(
        &mut self,
        user: &D,
        encode: F,
    ) -> (r: Result<(), TokenStoreError>)
        requires
            call_requires(encode, (user,)),
        ensures
            document_written::<P, D, F>(
                old(self).storage(),
                final(self).storage(),
                USER_INFO@,
                *user,
                encode,
                r,
            ),
            r matches Err(e) ==> old(self).storage().refuses(USER_INFO@, e) || call_ensures(
                encode,
                (user,),
                Err(e),
            ),
            final(self).saved().remove("user-DA"@) == old(self).saved().remove("user-DA"@),
            final(self).cached() == old(self).cached(),
            final(self).latest() == old(self).latest(),
            final(self).clock() == old(self).clock(),
    {
        self.write_document(USER_INFO, user, encode)
    }

    /// The XSTS token for a relying party, if one was cached and has not expired at the moment
    /// `now` of the manager's clock.
    pub fn get_cached_xsts_at<X, F: Fn(&[u8]) -> Result<X, TokenStoreError>>(
        &self,
        relying_party: &str,
        now: u128,
        decode: F,
    ) -> (r: Option<X>)
        requires
            forall|b: &[u8]| #[trigger] call_requires(decode, (b,)),
        ensures
            cache_read::<E, X, F>(self.cached(), relying_party@, now, decode, r),
    {
        let stored = self.ephemeral.get_at(relying_party, now);
        assert(cache_outcome::<E>(self.cached(), relying_party@, now, stored_bytes(stored)));
        match stored {
            Ok(Some(bytes)) => {
                let decoded = decode(bytes.as_slice());
                assert(decodes(decode, bytes@, decoded));
                match decoded {
                    Ok(token) => Some(token),
                    Err(_) => None,
                }
            },
            _ => None,
        }
    }

    /// The XSTS token for a relying party, if one was cached and has not expired.
    pub fn get_cached_xsts<X, F: Fn(&[u8]) -> Result<X, TokenStoreError>>(
        &self,
        relying_party: &str,
        decode: F,
    ) -> (r: Option<X>)
        requires
            forall|b: &[u8]| #[trigger] call_requires(decode, (b,)),
        ensures
            cache_read_now::<E, X, F>(
                self.clock(),
                self.cached(),
                relying_party@,
                self.latest(),
                decode,
                r,
            ),
    {
        let now: u128 = self.present();
        self.get_cached_xsts_at(relying_party, now, decode)
    }

    /// Caches an XSTS token for a relying party, at the moment `now` of the manager's clock, which
    /// is the moment `utc_now` of the calendar. The entry expires a margin before the token does,
    /// and at once if the token has no more left than the margin. A token that cannot be encoded
    /// is not cached.
    pub fn cache_xsts_at<F: Fn(&XstsResponse) -> Result<Vec<u8>, TokenStoreError>>(
        &mut self,
        relying_party: &str,
        token: &XstsResponse,
        utc_now: &UtcTime,
        now: u128,
        encode: F,
    )
        requires
            call_requires(encode, (token,)),
        ensures
            cache_written::<E, F>(
                old(self).cached(),
                final(self).cached(),
                relying_party@,
                *token,
                *utc_now,
                now,
                encode,
            ),
            final(self).storage() == old(self).storage(),
            final(self).latest() == old(self).latest(),
            final(self).clock() == old(self).clock(),
    {
        let encoded = encode(token);
        assert(call_ensures(encode, (token,), encoded));
        if let Ok(bytes) = encoded {
            let span: i128 = token.not_after.nanos_since(utc_now);
            let margin: i128 = XSTS_CACHE_EXPIRY_MARGIN as i128 * NANOS_PER_SECOND;
            let remaining: u128 = if span > margin {
                (span - margin) as u128
            } else {
                0
            };
            let _ = self.ephemeral.set_with_expiry(
                relying_party,
                bytes.as_slice(),
                now.saturating_add(remaining),
            );
        }
    }

    /// Caches an XSTS token for a relying party, up to a margin before it expires.
    pub fn cache_xsts<F: Fn(&XstsResponse) -> Result<Vec<u8>, TokenStoreError>>(
        &mut self,
        relying_party: &str,
        token: &XstsResponse,
        encode: F,
    )
        requires
            call_requires(encode, (token,)),
        ensures
            cache_written_now::<E, F>(
                old(self).clock(),
                old(self).cached(),
                final(self).cached(),
                old(self).latest(),
                final(self).latest(),
                relying_party@,
                *token,
                encode,
            ),
            final(self).storage() == old(self).storage(),
            final(self).clock() == old(self).clock(),
    {
        let ghost before = self.cached();
        let utc_now = UtcTime::now();
        let now: u128 = self.present();
        self.latest = now;
        self.cache_xsts_at(relying_party, token, &utc_now, now, encode);
        assert(cache_written::<E, F>(
            before,
            self.cached(),
            relying_party@,
            *token,
            utc_now,
            now,
            encode,
        ));
    }

    /// What the manager's clock reads, and no earlier than what was last cached.
    fn present(&self) -> (now: u128)
        ensures
            is_present(self.clock(), now, self.latest()),
    {
        let now: u128 = self.clock.now();
        if now < self.latest {
            self.latest
        } else {
            now
        }
    }

    fn read_document<D, F: Fn(&[u8]) -> Result<D, TokenStoreError>>(
        &self,
        key: &str,
        decode: F,
    ) -> (r: Result<D, TokenStoreError>)
        requires
            forall|b: &[u8]| #[trigger] call_requires(decode, (b,)),
        ensures
            document_read::<P, D, F>(self.storage(), key@, decode, r),
            r matches Err(e) ==> read_fails::<P, D, F>(self.storage(), key@, decode, e) || (entry(
                self.saved(),
                key@,
            ) is None && e is NotFound),
    {
        let stored = self.persistent.get(key);
        assert(read_outcome(self.storage(), key@, stored_bytes(stored)));
        decode_document(stored, decode)
    }

    fn write_document<D, F: Fn(&D) -> Result<Vec<u8>, TokenStoreError>>(
        &mut self,
        key: &str,
        document: &D,
        encode: F,
    ) -> (r: Result<(), TokenStoreError>)
        requires
            call_requires(encode, (document,)),
        ensures
            document_written::<P, D, F>(
                old(self).storage(),
                final(self).storage(),
                key@,
                *document,
                encode,
                r,
            ),
            r matches Err(e) ==> old(self).storage().refuses(key@, e) || call_ensures(
                encode,
                (document,),
                Err(e),
            ),
            final(self).cached() == old(self).cached(),
            final(self).latest() == old(self).latest(),
            final(self).clock() == old(self).clock(),
    {
        match encode(document) {
            Err(e) => Err(e),
            Ok(bytes) => self.persistent.set(key, bytes.as_slice()),
        }
    }

    fn read_token_store<T, F: Fn(&[u8]) -> Result<TokenStore<T>, TokenStoreError>>(
        &self,
        key: &str,
        address: &str,
        decode: F,
    ) -> (r: Result<Option<T>, TokenStoreError>)
        requires
            forall|b: &[u8]| #[trigger] call_requires(decode, (b,)),
        ensures
            token_read::<P, T, F>(self.storage(), key@, address@, decode, r),
            r matches Err(e) ==> read_fails::<P, TokenStore<T>, F>(
                self.storage(),
                key@,
                decode,
                e,
            ),
    {
        let stored = self.persistent.get(key);
        assert(read_outcome(self.storage(), key@, stored_bytes(stored)));
        find_token(stored, address, decode)
    }

    fn write_token_store<
        T,
        F: Fn(&[u8]) -> Result<TokenStore<T>, TokenStoreError>,
        G: Fn(&TokenStore<T>) -> Result<Vec<u8>, TokenStoreError>,
    >(&mut self, key: &str, address: String, token: T, decode: F, encode: G) -> (r: Result<
        (),
        TokenStoreError,
    >)
        requires
            forall|b: &[u8]| #[trigger] call_requires(decode, (b,)),
            forall|s: &TokenStore<T>| #[trigger] call_requires(encode, (s,)),
        ensures
            token_written::<P, T, F, G>(
                old(self).storage(),
                final(self).storage(),
                key@,
                address@,
                token,
                decode,
                encode,
                r,
            ),
            r matches Err(e) ==> read_fails::<P, TokenStore<T>, F>(
                old(self).storage(),
                key@,
                decode,
                e,
            ) || encoding_fails::<TokenStore<T>, G>(encode, e),
            final(self).cached() == old(self).cached(),
            final(self).latest() == old(self).latest(),
            final(self).clock() == old(self).clock(),
    {
        let stored = self.persistent.get(key);
        assert(read_outcome(self.storage(), key@, stored_bytes(stored)));
        let merged = merge_token(stored, address, token, decode);
        assert(merged_store_of(stored_bytes(stored), address@, token, decode, merged));
        match merged {
            Err(e) => Err(e),
            Ok(store) => match encode(&store) {
                Err(e) => Err(e),
                Ok(bytes) => self.persistent.set(key, bytes.as_slice()),
            },
        }
    }
}

proof fn lemma_removals_commute(m: Map<Seq<char>, Seq<u8>>)
    ensures
        m.remove(USER_TOKENS@).remove(DEVICE_TOKENS@).remove(USER_INFO@) == m.remove(
            DEVICE_TOKENS@,
        ).remove(USER_TOKENS@).remove(USER_INFO@),
        m.remove(USER_INFO@).remove(DEVICE_TOKENS@).remove(USER_TOKENS@) == m.remove(
            DEVICE_TOKENS@,
        ).remove(USER_TOKENS@).remove(USER_INFO@),
        m.remove(DEVICE_TOKENS@).remove(DEVICE_TOKENS@) == m.remove(DEVICE_TOKENS@),
{
    assert(m.remove(USER_TOKENS@).remove(DEVICE_TOKENS@).remove(USER_INFO@) =~= m.remove(
        DEVICE_TOKENS@,
    ).remove(USER_TOKENS@).remove(USER_INFO@));
    assert(m.remove(USER_INFO@).remove(DEVICE_TOKENS@).remove(USER_TOKENS@) =~= m.remove(
        DEVICE_TOKENS@,
    ).remove(USER_TOKENS@).remove(USER_INFO@));
    assert(m.remove(DEVICE_TOKENS@).remove(DEVICE_TOKENS@) =~= m.remove(DEVICE_TOKENS@));
}

/// Forgetting tokens and user made `after` of `before` and returned `r`: the tokens of the device,
/// those of the user and the user were forgotten in this order, and the first refusal ended it.
pub open spec fn removed_in_order<P: TokenBackend>(
    before: P,
    after: P,
    r: Result<(), TokenStoreError>,
) -> bool {
    ||| r is Err && removal_outcome(before, after, DEVICE_TOKENS@, r)
    ||| exists|first: P| #[trigger]
        removal_outcome(before, first, DEVICE_TOKENS@, Ok(())) && user_removed_in_order(
            first,
            after,
            r,
        )
}

/// What `removed_in_order` says of the tokens of the user and the user.
pub open spec fn user_removed_in_order<P: TokenBackend>(
    before: P,
    after: P,
    r: Result<(), TokenStoreError>,
) -> bool {
    ||| r is Err && removal_outcome(before, after, USER_TOKENS@, r)
    ||| exists|second: P| #[trigger]
        removal_outcome(before, second, USER_TOKENS@, Ok(())) && removal_outcome(
            second,
            after,
            USER_INFO@,
            r,
        )
}

/// Reading what stands under `key` can fail with `e`: the backend has it for a request about the key,
/// or the bytes that stand there decode to it.
pub open spec fn read_fails<P: TokenBackend, D, F: Fn(&[u8]) -> Result<D, TokenStoreError>>(
    storage: P,
    key: Seq<char>,
    decode: F,
    e: TokenStoreError,
) -> bool {
    ||| storage.refuses(key, e)
    ||| entry(storage.contents(), key) matches Some(bytes) && decodes(
        decode,
        bytes,
        Err::<D, TokenStoreError>(e),
    )
}

/// Encoding a document can fail with `e`.
pub open spec fn encoding_fails<D, F: Fn(&D) -> Result<Vec<u8>, TokenStoreError>>(
    encode: F,
    e: TokenStoreError,
) -> bool {
    exists|document: D| #[trigger] call_ensures(encode, (&document,), Err(e))
}

/// `r` is the document under `key`, or why there is none.
pub open spec fn document_read<P: TokenBackend, D, F: Fn(&[u8]) -> Result<D, TokenStoreError>>(
    storage: P,
    key: Seq<char>,
    decode: F,
    r: Result<D, TokenStoreError>,
) -> bool {
    exists|stored: Result<Option<Seq<u8>>, TokenStoreError>| #[trigger]
        read_outcome(storage, key, stored) && document_of(stored, decode, r)
}

/// Putting `document` under `key` made `after` of `before` and returned `r`.
pub open spec fn document_written<
    P: TokenBackend,
    D,
    F: Fn(&D) -> Result<Vec<u8>, TokenStoreError>,
>(
    before: P,
    after: P,
    key: Seq<char>,
    document: D,
    encode: F,
    r: Result<(), TokenStoreError>,
) -> bool {
    exists|encoded: Result<Vec<u8>, TokenStoreError>| #[trigger]
        call_ensures(encode, (&document,), encoded) && match encoded {
            Err(e) => r == Err::<(), TokenStoreError>(e) && after == before,
            Ok(bytes) => write_outcome(before, after, key, bytes@, r),
        }
}

/// `r` is the token for `address` in the store under `key`, or why it could not be read.
pub open spec fn token_read<
    P: TokenBackend,
    T,
    F: Fn(&[u8]) -> Result<TokenStore<T>, TokenStoreError>,
>(
    storage: P,
    key: Seq<char>,
    address: Seq<char>,
    decode: F,
    r: Result<Option<T>, TokenStoreError>,
) -> bool {
    exists|stored: Result<Option<Seq<u8>>, TokenStoreError>| #[trigger]
        read_outcome(storage, key, stored) && token_of(stored, address, decode, r)
}

/// `r` is the token for `address` in the store under `key`, which has to be there.
pub open spec fn token_owed_read<
    P: TokenBackend,
    T,
    F: Fn(&[u8]) -> Result<TokenStore<T>, TokenStoreError>,
>(
    storage: P,
    key: Seq<char>,
    address: Seq<char>,
    decode: F,
    r: Result<T, TokenStoreError>,
) -> bool {
    exists|found: Result<Option<T>, TokenStoreError>| #[trigger]
        token_read::<P, T, F>(storage, key, address, decode, found) && r == owed(found)
}

/// Putting `token` for `address` into the store under `key` made `after` of `before` and returned
/// `r`.
pub open spec fn token_written<
    P: TokenBackend,
    T,
    F: Fn(&[u8]) -> Result<TokenStore<T>, TokenStoreError>,
    G: Fn(&TokenStore<T>) -> Result<Vec<u8>, TokenStoreError>,
>(
    before: P,
    after: P,
    key: Seq<char>,
    address: Seq<char>,
    token: T,
    decode: F,
    encode: G,
    r: Result<(), TokenStoreError>,
) -> bool {
    exists|
        stored: Result<Option<Seq<u8>>, TokenStoreError>,
        merged: Result<TokenStore<T>, TokenStoreError>,
    |
        #![trigger merged_store_of(stored, address, token, decode, merged)]
        {
            &&& read_outcome(before, key, stored)
            &&& merged_store_of(stored, address, token, decode, merged)
            &&& match merged {
                Err(e) => r == Err::<(), TokenStoreError>(e) && after == before,
                Ok(store) => document_written::<P, TokenStore<T>, G>(
                    before,
                    after,
                    key,
                    store,
                    encode,
                    r,
                ),
            }
        }
}

/// `now` can be the present of `clock` where its latest known moment is `latest`: it is what that
/// clock reads, or that moment if the clock reads less.
pub open spec fn is_present(clock: MonotonicClock, now: u128, latest: u128) -> bool {
    exists|reading: u128| #[trigger]
        clock.reads(reading) && reading <= clock_end() && now == if reading < latest {
            latest
        } else {
            reading
        }
}

/// What a read of `key` at the moment `now` can tell where `cached` is kept: the truth, or a
/// refusal if the cache may refuse.
pub open spec fn cache_outcome<E: ExpiringTokenBackend>(
    cached: Map<Seq<char>, (Seq<u8>, u128)>,
    key: Seq<char>,
    now: u128,
    stored: Result<Option<Seq<u8>>, TokenStoreError>,
) -> bool {
    match stored {
        Ok(found) => found == unexpired(cached, key, now),
        Err(_) => !E::never_refuses(),
    }
}

/// `r` is what is cached for `key` at the moment `now`. What cannot be read or decoded is as good
/// as not cached.
pub open spec fn cache_read<
    E: ExpiringTokenBackend,
    X,
    F: Fn(&[u8]) -> Result<X, TokenStoreError>,
>(
    cached: Map<Seq<char>, (Seq<u8>, u128)>,
    key: Seq<char>,
    now: u128,
    decode: F,
    r: Option<X>,
) -> bool {
    exists|stored: Result<Option<Seq<u8>>, TokenStoreError>| #[trigger]
        cache_outcome::<E>(cached, key, now, stored) && match stored {
            Ok(Some(bytes)) => decoded_if_any(bytes, decode, r),
            _ => r is None,
        }
}

/// `r` is what `bytes` decode to, if they decode at all.
pub open spec fn decoded_if_any<X, F: Fn(&[u8]) -> Result<X, TokenStoreError>>(
    bytes: Seq<u8>,
    decode: F,
    r: Option<X>,
) -> bool {
    exists|d: Result<X, TokenStoreError>| #[trigger]
        decodes(decode, bytes, d) && r == match d {
            Ok(x) => Some(x),
            Err(_) => None,
        }
}

/// How long a token is cached, in nanoseconds: as long as it lasts, less the margin.
pub open spec fn cache_time(not_after: UtcTime, utc_now: UtcTime) -> int {
    let left = not_after.span_since(utc_now) - XSTS_CACHE_EXPIRY_MARGIN * 1_000_000_000;
    if left > 0 {
        left
    } else {
        0
    }
}

/// When an entry made at the moment `now` expires.
pub open spec fn cache_deadline(not_after: UtcTime, utc_now: UtcTime, now: u128) -> u128 {
    if now + cache_time(not_after, utc_now) > u128::MAX {
        u128::MAX
    } else {
        (now + cache_time(not_after, utc_now)) as u128
    }
}

/// Caching `token` for `key` made `after` of `before`.
pub open spec fn cache_written<
    E: ExpiringTokenBackend,
    F: Fn(&XstsResponse) -> Result<Vec<u8>, TokenStoreError>,
>(
    before: Map<Seq<char>, (Seq<u8>, u128)>,
    after: Map<Seq<char>, (Seq<u8>, u128)>,
    key: Seq<char>,
    token: XstsResponse,
    utc_now: UtcTime,
    now: u128,
    encode: F,
) -> bool {
    exists|encoded: Result<Vec<u8>, TokenStoreError>| #[trigger]
        call_ensures(encode, (&token,), encoded) && match encoded {
            Err(_) => after == before,
            Ok(bytes) => {
                ||| after == before.insert(
                    key,
                    (bytes@, cache_deadline(token.not_after, utc_now, now)),
                )
                ||| !E::never_refuses() && after.remove(key) == before.remove(key)
            },
        }
}

/// `r` is what is cached for `key` at the present of `clock`, where its latest known moment is
/// `latest`.
pub open spec fn cache_read_now<
    E: ExpiringTokenBackend,
    X,
    F: Fn(&[u8]) -> Result<X, TokenStoreError>,
>(
    clock: MonotonicClock,
    cached: Map<Seq<char>, (Seq<u8>, u128)>,
    key: Seq<char>,
    latest: u128,
    decode: F,
    r: Option<X>,
) -> bool {
    exists|now: u128| #[trigger]
        cache_read::<E, X, F>(cached, key, now, decode, r) && is_present(clock, now, latest)
}

/// Caching `token` for `key` at the present of `clock` made `after` of `before`, and the present is now
/// its latest known moment. The calendar's clock was read for it too.
pub open spec fn cache_written_now<
    E: ExpiringTokenBackend,
    F: Fn(&XstsResponse) -> Result<Vec<u8>, TokenStoreError>,
>(
    clock: MonotonicClock,
    before: Map<Seq<char>, (Seq<u8>, u128)>,
    after: Map<Seq<char>, (Seq<u8>, u128)>,
    latest_before: u128,
    latest_after: u128,
    key: Seq<char>,
    token: XstsResponse,
    encode: F,
) -> bool {
    &&& is_present(clock, latest_after, latest_before)
    &&& exists|utc_now: UtcTime| #[trigger]
        cache_written::<E, F>(before, after, key, token, utc_now, latest_after, encode)
            && utc_reading(utc_now.spec_seconds(), utc_now.spec_nanos()) && utc_now.spec_nanos()
            < 1_000_000_000
}

/// A token that has to be there.
pub open spec fn owed<T>(found: Result<Option<T>, TokenStoreError>) -> Result<T, TokenStoreError> {
    match found {
        Ok(Some(token)) => Ok(token),
        Ok(None) => Err(TokenStoreError::NotFound),
        Err(e) => Err(e),
    }
}

fn token_owed<T>(found: Result<Option<T>, TokenStoreError>) -> (r: Result<T, TokenStoreError>)
    ensures
        r == owed(found),
{
    match found {
        Ok(Some(token)) => Ok(token),
        Ok(None) => Err(TokenStoreError::NotFound),
        Err(e) => Err(e),
    }
}

} // verus!
