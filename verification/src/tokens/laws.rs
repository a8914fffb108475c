//! What holds between the operations of the token manager.

use vstd::prelude::*;

use crate::time::{utc_reading, MonotonicClock, UtcTime};
use crate::tokens::manager::{
    cache_deadline, cache_outcome, cache_read, cache_read_now, cache_written, cache_written_now,
    decoded_if_any, document_read, document_written, is_present, owed, removed_in_order,
    token_owed_read, token_read, token_written, user_removed_in_order, TokenManager, DEVICE_TOKENS,
    DEV_LICENSE, PASSPORT_STS, USER_INFO, USER_TOKENS, XSTS_CACHE_EXPIRY_MARGIN,
};
use crate::tokens::store::{
    decodes, document_of, entry, merged_store_of, read_outcome, removal_outcome, token_decoded,
    token_in, token_of, unexpired, ExpiringTokenBackend, TokenBackend, TokenStore, TokenStoreError,
};
use crate::xbox::XstsResponse;

verus! {

/// The tokens of a store, or the error in its place.
pub open spec fn store_view<T>(d: Result<TokenStore<T>, TokenStoreError>) -> Result<
    Map<Seq<char>, T>,
    TokenStoreError,
> {
    match d {
        Ok(store) => Ok(store.tokens@),
        Err(e) => Err(e),
    }
}

/// `decode` reads token stores as `meaning` says, and `encode` writes them so that they are read
/// back as they were.
pub open spec fn store_codec<
    T,
    F: Fn(&[u8]) -> Result<TokenStore<T>, TokenStoreError>,
    G: Fn(&TokenStore<T>) -> Result<Vec<u8>, TokenStoreError>,
>(
    decode: F,
    encode: G,
    meaning: spec_fn(Seq<u8>) -> Result<Map<Seq<char>, T>, TokenStoreError>,
) -> bool {
    &&& forall|bytes: Seq<u8>, d: Result<TokenStore<T>, TokenStoreError>| #[trigger]
        decodes(decode, bytes, d) ==> store_view(d) == meaning(bytes)
    &&& forall|s: TokenStore<T>, e: Vec<u8>| #[trigger]
        call_ensures(encode, (&s,), Ok(e)) ==> meaning(e@) == Ok::<
            Map<Seq<char>, T>,
            TokenStoreError,
        >(s.tokens@)
}

/// The tokens that stand in the store under `key`. Where nothing is kept, or only an empty value,
/// there are none.
pub open spec fn tokens_under<T>(
    saved: Map<Seq<char>, Seq<u8>>,
    key: Seq<char>,
    meaning: spec_fn(Seq<u8>) -> Result<Map<Seq<char>, T>, TokenStoreError>,
) -> Map<Seq<char>, T> {
    match entry(saved, key) {
        Some(bytes) => if bytes.len() == 0 {
            Map::empty()
        } else {
            meaning(bytes)->Ok_0
        },
        None => Map::empty(),
    }
}

/// After a token was saved for one address, the token for that address is the one that was saved,
/// and the token for any other address is what it was before.
pub proof fn a_saved_token_is_read_back<
    P: TokenBackend,
    T,
    F: Fn(&[u8]) -> Result<TokenStore<T>, TokenStoreError>,
    G: Fn(&TokenStore<T>) -> Result<Vec<u8>, TokenStoreError>,
>(
    before: P,
    after: P,
    key: Seq<char>,
    address: Seq<char>,
    token: T,
    decode: F,
    encode: G,
    meaning: spec_fn(Seq<u8>) -> Result<Map<Seq<char>, T>, TokenStoreError>,
    read_address: Seq<char>,
    found: Result<Option<T>, TokenStoreError>,
)
    requires
        store_codec(decode, encode, meaning),
        token_written::<P, T, F, G>(before, after, key, address, token, decode, encode, Ok(())),
        token_read::<P, T, F>(after, key, read_address, decode, found),
        found is Ok || P::reliable(),
    ensures
        read_address == address ==> found == Ok::<Option<T>, TokenStoreError>(Some(token)),
        read_address != address ==> found == Ok::<Option<T>, TokenStoreError>(
            entry(tokens_under(before.contents(), key, meaning), read_address),
        ),
{
    let (stored, merged) = choose|
        stored: Result<Option<Seq<u8>>, TokenStoreError>,
        merged: Result<TokenStore<T>, TokenStoreError>,
    |
        #![trigger merged_store_of(stored, address, token, decode, merged)]
        {
            &&& read_outcome(before, key, stored)
            &&& merged_store_of(stored, address, token, decode, merged)
            &&& match merged {
                Err(e) => Ok::<(), TokenStoreError>(()) == Err::<(), TokenStoreError>(e) && after
                    == before,
                Ok(store) => document_written::<P, TokenStore<T>, G>(
                    before,
                    after,
                    key,
                    store,
                    encode,
                    Ok(()),
                ),
            }
        };
    let store = merged->Ok_0;
    assert(store.tokens@ == tokens_under(before.contents(), key, meaning).insert(address, token));
    let encoded = choose|encoded: Result<Vec<u8>, TokenStoreError>| #[trigger]
        call_ensures(encode, (&store,), encoded) && encoded is Ok && after.contents() == before.contents().insert(
            key,
            encoded->Ok_0@,
        );
    let bytes = encoded->Ok_0@;
    assert(encoded == Ok::<Vec<u8>, TokenStoreError>(encoded->Ok_0));
    assert(meaning(bytes) == Ok::<Map<Seq<char>, T>, TokenStoreError>(store.tokens@));
    let read = choose|read: Result<Option<Seq<u8>>, TokenStoreError>| #[trigger]
        read_outcome(after, key, read) && token_of(read, read_address, decode, found);
    assert(read == Ok::<Option<Seq<u8>>, TokenStoreError>(Some(bytes)));
    assert(token_decoded(bytes, read_address, decode, found));
    let d = choose|d: Result<TokenStore<T>, TokenStoreError>| #[trigger]
        decodes(decode, bytes, d) && found == token_in(d, read_address);
    assert(store_view(d) == meaning(bytes));
}

/// A license, or a user, that was saved is what is read afterwards, where `decode` undoes
/// `encode`.
pub proof fn a_saved_document_is_read_back<
    P: TokenBackend,
    D,
    F: Fn(&[u8]) -> Result<D, TokenStoreError>,
    G: Fn(&D) -> Result<Vec<u8>, TokenStoreError>,
>(
    before: P,
    after: P,
    key: Seq<char>,
    document: D,
    decode: F,
    encode: G,
    found: Result<D, TokenStoreError>,
)
    requires
        forall|e: Vec<u8>, d: Result<D, TokenStoreError>|
            #![trigger call_ensures(encode, (&document,), Ok(e)), decodes(decode, e@, d)]
            call_ensures(encode, (&document,), Ok(e)) && decodes(decode, e@, d) ==> d == Ok::<
                D,
                TokenStoreError,
            >(document),
        document_written::<P, D, G>(before, after, key, document, encode, Ok(())),
        document_read::<P, D, F>(after, key, decode, found),
        found is Ok || P::reliable(),
    ensures
        found == Ok::<D, TokenStoreError>(document),
{
    let encoded = choose|encoded: Result<Vec<u8>, TokenStoreError>| #[trigger]
        call_ensures(encode, (&document,), encoded) && encoded is Ok && after.contents() == before.contents().insert(
            key,
            encoded->Ok_0@,
        );
    assert(encoded == Ok::<Vec<u8>, TokenStoreError>(encoded->Ok_0));
    let read = choose|read: Result<Option<Seq<u8>>, TokenStoreError>| #[trigger]
        read_outcome(after, key, read) && document_of(read, decode, found);
    assert(read == Ok::<Option<Seq<u8>>, TokenStoreError>(Some(encoded->Ok_0@)));
    assert(decodes(decode, encoded->Ok_0@, found));
}

/// The license of the device, its tokens, the tokens of the user and the user are kept under
/// different keys.
pub proof fn the_keys_are_apart()
    ensures
        DEV_LICENSE@ != DEVICE_TOKENS@,
        DEV_LICENSE@ != USER_TOKENS@,
        DEV_LICENSE@ != USER_INFO@,
        DEVICE_TOKENS@ != USER_TOKENS@,
        DEVICE_TOKENS@ != USER_INFO@,
        USER_TOKENS@ != USER_INFO@,
{
    reveal_strlit("dev_license");
    reveal_strlit("device-tokens");
    reveal_strlit("user-tokens");
    reveal_strlit("user-DA");
    assert(DEV_LICENSE@[0] == 'd' && DEV_LICENSE@[3] == '_');
    assert(DEVICE_TOKENS@[0] == 'd' && DEVICE_TOKENS@[3] == 'i');
    assert(USER_TOKENS@[0] == 'u' && USER_TOKENS@[5] == 't');
    assert(USER_INFO@[0] == 'u' && USER_INFO@[5] == 'D');
}

/// Saving a token under one key leaves what is kept under any other key as it was, whether the
/// token could be saved or not.
pub proof fn saving_a_token_leaves_the_rest<
    P: TokenBackend,
    T,
    F: Fn(&[u8]) -> Result<TokenStore<T>, TokenStoreError>,
    G: Fn(&TokenStore<T>) -> Result<Vec<u8>, TokenStoreError>,
>(
    before: P,
    after: P,
    key: Seq<char>,
    address: Seq<char>,
    token: T,
    decode: F,
    encode: G,
    r: Result<(), TokenStoreError>,
    other: Seq<char>,
)
    requires
        token_written::<P, T, F, G>(before, after, key, address, token, decode, encode, r),
        other != key,
    ensures
        entry(after.contents(), other) == entry(before.contents(), other),
{
    assert(after.contents().remove(key) == before.contents().remove(key));
    lemma_rest_of(before.contents(), after.contents(), key, other);
}

/// Saving a license or a user under one key leaves what is kept under any other key as it was.
pub proof fn saving_a_document_leaves_the_rest<
    P: TokenBackend,
    D,
    G: Fn(&D) -> Result<Vec<u8>, TokenStoreError>,
>(
    before: P,
    after: P,
    key: Seq<char>,
    document: D,
    encode: G,
    r: Result<(), TokenStoreError>,
    other: Seq<char>,
)
    requires
        document_written::<P, D, G>(before, after, key, document, encode, r),
        other != key,
    ensures
        entry(after.contents(), other) == entry(before.contents(), other),
{
    assert(after.contents().remove(key) == before.contents().remove(key));
    lemma_rest_of(before.contents(), after.contents(), key, other);
}

proof fn lemma_rest_of(
    before: Map<Seq<char>, Seq<u8>>,
    after: Map<Seq<char>, Seq<u8>>,
    key: Seq<char>,
    other: Seq<char>,
)
    requires
        after.remove(key) == before.remove(key),
        other != key,
    ensures
        entry(after, other) == entry(before, other),
{
    assert(after.remove(key).contains_key(other) == after.contains_key(other));
    assert(before.remove(key).contains_key(other) == before.contains_key(other));
    if after.contains_key(other) {
        assert(after.remove(key)[other] == after[other]);
        assert(before.remove(key)[other] == before[other]);
    }
}

/// Whatever comes of forgetting tokens and user, the license of the device stays; where it was
/// done, no token and no user is left; where the first step was refused, the tokens of the user and
/// the user stay too, and the user is forgotten only once their tokens are.
pub proof fn forgetting_the_user_keeps_the_license<P: TokenBackend>(
    before: P,
    after: P,
    r: Result<(), TokenStoreError>,
)
    requires
        removed_in_order(before, after, r),
    ensures
        keeps_license(before, after),
        r is Ok ==> entry(after.contents(), DEVICE_TOKENS@) is None && entry(
            after.contents(),
            USER_TOKENS@,
        ) is None && entry(after.contents(), USER_INFO@) is None,
        r is Err ==> entry(after.contents(), DEVICE_TOKENS@) is None || (entry(
            after.contents(),
            USER_TOKENS@,
        ) == entry(before.contents(), USER_TOKENS@) && entry(after.contents(), USER_INFO@) == entry(
            before.contents(),
            USER_INFO@,
        )),
        r is Err ==> entry(after.contents(), USER_TOKENS@) is None || entry(
            after.contents(),
            USER_INFO@,
        ) == entry(before.contents(), USER_INFO@),
{
    the_keys_are_apart();
    if r is Err && removal_outcome(before, after, DEVICE_TOKENS@, r) {
        lemma_rest_of(before.contents(), after.contents(), DEVICE_TOKENS@, DEV_LICENSE@);
        lemma_rest_of(before.contents(), after.contents(), DEVICE_TOKENS@, USER_TOKENS@);
        lemma_rest_of(before.contents(), after.contents(), DEVICE_TOKENS@, USER_INFO@);
    } else {
        let first = choose|first: P| #[trigger]
            removal_outcome(before, first, DEVICE_TOKENS@, Ok(())) && user_removed_in_order(
                first,
                after,
                r,
            );
        if r is Err && removal_outcome(first, after, USER_TOKENS@, r) {
            lemma_rest_of(first.contents(), after.contents(), USER_TOKENS@, DEV_LICENSE@);
            lemma_rest_of(first.contents(), after.contents(), USER_TOKENS@, DEVICE_TOKENS@);
            lemma_rest_of(first.contents(), after.contents(), USER_TOKENS@, USER_INFO@);
        } else {
            let second = choose|second: P| #[trigger]
                removal_outcome(first, second, USER_TOKENS@, Ok(())) && removal_outcome(
                    second,
                    after,
                    USER_INFO@,
                    r,
                );
            lemma_rest_of(second.contents(), after.contents(), USER_INFO@, DEV_LICENSE@);
            lemma_rest_of(second.contents(), after.contents(), USER_INFO@, DEVICE_TOKENS@);
            lemma_rest_of(second.contents(), after.contents(), USER_INFO@, USER_TOKENS@);
        }
    }
}

/// After a token was saved for one address, a read of any other address under the same key finds
/// what it found before, where the empty value decodes to no store.
pub proof fn a_saved_token_leaves_other_addresses<
    P: TokenBackend,
    T,
    F: Fn(&[u8]) -> Result<TokenStore<T>, TokenStoreError>,
    G: Fn(&TokenStore<T>) -> Result<Vec<u8>, TokenStoreError>,
>(
    before: P,
    after: P,
    key: Seq<char>,
    address: Seq<char>,
    token: T,
    decode: F,
    encode: G,
    meaning: spec_fn(Seq<u8>) -> Result<Map<Seq<char>, T>, TokenStoreError>,
    other: Seq<char>,
    found_before: Option<T>,
    found: Result<Option<T>, TokenStoreError>,
)
    requires
        store_codec(decode, encode, meaning),
        meaning(Seq::empty()) is Err,
        token_written::<P, T, F, G>(before, after, key, address, token, decode, encode, Ok(())),
        other != address,
        token_read::<P, T, F>(before, key, other, decode, Ok(found_before)),
        token_read::<P, T, F>(after, key, other, decode, found),
        found is Ok || P::reliable(),
    ensures
        found == Ok::<Option<T>, TokenStoreError>(found_before),
{
    a_saved_token_is_read_back::<P, T, F, G>(
        before,
        after,
        key,
        address,
        token,
        decode,
        encode,
        meaning,
        other,
        found,
    );
    let earlier: Result<Option<T>, TokenStoreError> = Ok(found_before);
    let stored = choose|stored: Result<Option<Seq<u8>>, TokenStoreError>| #[trigger]
        read_outcome(before, key, stored) && token_of(stored, other, decode, earlier);
    if let Ok(Some(bytes)) = stored {
        let d = choose|d: Result<TokenStore<T>, TokenStoreError>| #[trigger]
            decodes(decode, bytes, d) && earlier == token_in(d, other);
        assert(store_view(d) == meaning(bytes));
        if bytes.len() == 0 {
            assert(bytes =~= Seq::<u8>::empty());
        }
    }
}

/// Where two states of a backend agree on a key, a read of a document under it finds the same in
/// both.
pub proof fn an_untouched_document_reads_the_same<
    P: TokenBackend,
    D,
    F: Fn(&[u8]) -> Result<D, TokenStoreError>,
>(before: P, after: P, key: Seq<char>, decode: F, found: Result<D, TokenStoreError>)
    requires
        entry(after.contents(), key) == entry(before.contents(), key),
        found is Ok || P::reliable(),
    ensures
        document_read::<P, D, F>(after, key, decode, found) <==> document_read::<P, D, F>(
            before,
            key,
            decode,
            found,
        ),
{
    let same: Result<Option<Seq<u8>>, TokenStoreError> = Ok(entry(before.contents(), key));
    assert(read_outcome(before, key, same));
    assert(read_outcome(after, key, same));
}

/// Where two states of a backend agree on a key, a read of a token under it finds the same in both.
pub proof fn an_untouched_token_reads_the_same<
    P: TokenBackend,
    T,
    F: Fn(&[u8]) -> Result<TokenStore<T>, TokenStoreError>,
>(
    before: P,
    after: P,
    key: Seq<char>,
    address: Seq<char>,
    decode: F,
    found: Result<Option<T>, TokenStoreError>,
)
    requires
        entry(after.contents(), key) == entry(before.contents(), key),
        found is Ok || P::reliable(),
    ensures
        token_read::<P, T, F>(after, key, address, decode, found) <==> token_read::<P, T, F>(
            before,
            key,
            address,
            decode,
            found,
        ),
{
    let same: Result<Option<Seq<u8>>, TokenStoreError> = Ok(entry(before.contents(), key));
    assert(read_outcome(before, key, same));
    assert(read_outcome(after, key, same));
}

/// Whether a token of the user could be saved or not, the tokens of the device, its license and the
/// user read as they did before. The cache is not touched either: `save_user_token` says so itself.
pub proof fn saving_a_user_token_leaves_other_reads<
    P: TokenBackend,
    T,
    F: Fn(&[u8]) -> Result<TokenStore<T>, TokenStoreError>,
    G: Fn(&TokenStore<T>) -> Result<Vec<u8>, TokenStoreError>,
    S,
    H: Fn(&[u8]) -> Result<TokenStore<S>, TokenStoreError>,
    D,
    K: Fn(&[u8]) -> Result<D, TokenStoreError>,
>(
    before: P,
    after: P,
    address: Seq<char>,
    token: T,
    decode: F,
    encode: G,
    r: Result<(), TokenStoreError>,
    device_address: Seq<char>,
    decode_device_tokens: H,
    device_token: Result<Option<S>, TokenStoreError>,
    decode_document: K,
    document: Result<D, TokenStoreError>,
)
    requires
        token_written::<P, T, F, G>(
            before,
            after,
            USER_TOKENS@,
            address,
            token,
            decode,
            encode,
            r,
        ),
        device_token is Ok || P::reliable(),
        document is Ok || P::reliable(),
    ensures
        token_read::<P, S, H>(
            after,
            DEVICE_TOKENS@,
            device_address,
            decode_device_tokens,
            device_token,
        ) <==> token_read::<P, S, H>(
            before,
            DEVICE_TOKENS@,
            device_address,
            decode_device_tokens,
            device_token,
        ),
        document_read::<P, D, K>(after, DEV_LICENSE@, decode_document, document)
            <==> document_read::<P, D, K>(before, DEV_LICENSE@, decode_document, document),
        document_read::<P, D, K>(after, USER_INFO@, decode_document, document) <==> document_read::<
            P,
            D,
            K,
        >(before, USER_INFO@, decode_document, document),
{
    the_keys_are_apart();
    saving_a_token_leaves_the_rest::<P, T, F, G>(
        before,
        after,
        USER_TOKENS@,
        address,
        token,
        decode,
        encode,
        r,
        DEVICE_TOKENS@,
    );
    saving_a_token_leaves_the_rest::<P, T, F, G>(
        before,
        after,
        USER_TOKENS@,
        address,
        token,
        decode,
        encode,
        r,
        DEV_LICENSE@,
    );
    saving_a_token_leaves_the_rest::<P, T, F, G>(
        before,
        after,
        USER_TOKENS@,
        address,
        token,
        decode,
        encode,
        r,
        USER_INFO@,
    );
    an_untouched_token_reads_the_same::<P, S, H>(
        before,
        after,
        DEVICE_TOKENS@,
        device_address,
        decode_device_tokens,
        device_token,
    );
    an_untouched_document_reads_the_same::<P, D, K>(
        before,
        after,
        DEV_LICENSE@,
        decode_document,
        document,
    );
    an_untouched_document_reads_the_same::<P, D, K>(
        before,
        after,
        USER_INFO@,
        decode_document,
        document,
    );
}

/// A token that has to be there is the one that was saved for its address.
pub proof fn a_saved_token_is_no_longer_owed<
    P: TokenBackend,
    T,
    F: Fn(&[u8]) -> Result<TokenStore<T>, TokenStoreError>,
    G: Fn(&TokenStore<T>) -> Result<Vec<u8>, TokenStoreError>,
>(
    before: P,
    after: P,
    key: Seq<char>,
    address: Seq<char>,
    token: T,
    decode: F,
    encode: G,
    meaning: spec_fn(Seq<u8>) -> Result<Map<Seq<char>, T>, TokenStoreError>,
    found: Result<T, TokenStoreError>,
)
    requires
        store_codec(decode, encode, meaning),
        token_written::<P, T, F, G>(before, after, key, address, token, decode, encode, Ok(())),
        token_owed_read::<P, T, F>(after, key, address, decode, found),
        found is Ok || P::reliable(),
    ensures
        found == Ok::<T, TokenStoreError>(token),
{
    let read = choose|read: Result<Option<T>, TokenStoreError>| #[trigger]
        token_read::<P, T, F>(after, key, address, decode, read) && found == owed(read);
    a_saved_token_is_read_back::<P, T, F, G>(
        before,
        after,
        key,
        address,
        token,
        decode,
        encode,
        meaning,
        address,
        read,
    );
}

/// A token of the device for the token service, and a token of the user for another address, do not
/// make up for the user's own token for the token service: where no token of the user was kept, it
/// is still not found once both are saved.
pub proof fn the_user_needs_a_service_token_of_their_own<
    P: TokenBackend,
    S,
    H: Fn(&[u8]) -> Result<TokenStore<S>, TokenStoreError>,
    K: Fn(&TokenStore<S>) -> Result<Vec<u8>, TokenStoreError>,
    T,
    F: Fn(&[u8]) -> Result<TokenStore<T>, TokenStoreError>,
    G: Fn(&TokenStore<T>) -> Result<Vec<u8>, TokenStoreError>,
>(
    start: P,
    with_device_token: P,
    after: P,
    device_token: S,
    decode_device_tokens: H,
    encode_device_tokens: K,
    address: Seq<char>,
    token: T,
    decode: F,
    encode: G,
    meaning: spec_fn(Seq<u8>) -> Result<Map<Seq<char>, T>, TokenStoreError>,
    found: Result<T, TokenStoreError>,
)
    requires
        P::reliable(),
        entry(start.contents(), USER_TOKENS@) is None,
        token_written::<P, S, H, K>(
            start,
            with_device_token,
            DEVICE_TOKENS@,
            PASSPORT_STS@,
            device_token,
            decode_device_tokens,
            encode_device_tokens,
            Ok(()),
        ),
        store_codec(decode, encode, meaning),
        address != PASSPORT_STS@,
        token_written::<P, T, F, G>(
            with_device_token,
            after,
            USER_TOKENS@,
            address,
            token,
            decode,
            encode,
            Ok(()),
        ),
        token_owed_read::<P, T, F>(after, USER_TOKENS@, PASSPORT_STS@, decode, found),
    ensures
        found == Err::<T, TokenStoreError>(TokenStoreError::NotFound),
{
    the_keys_are_apart();
    saving_a_token_leaves_the_rest::<P, S, H, K>(
        start,
        with_device_token,
        DEVICE_TOKENS@,
        PASSPORT_STS@,
        device_token,
        decode_device_tokens,
        encode_device_tokens,
        Ok(()),
        USER_TOKENS@,
    );
    let read = choose|read: Result<Option<T>, TokenStoreError>| #[trigger]
        token_read::<P, T, F>(after, USER_TOKENS@, PASSPORT_STS@, decode, read) && found == owed(
            read,
        );
    a_saved_token_is_read_back::<P, T, F, G>(
        with_device_token,
        after,
        USER_TOKENS@,
        address,
        token,
        decode,
        encode,
        meaning,
        PASSPORT_STS@,
        read,
    );
}

/// What is kept as the license of the device is the same in both states of a backend.
pub open spec fn keeps_license<P: TokenBackend>(before: P, after: P) -> bool {
    entry(after.contents(), DEV_LICENSE@) == entry(before.contents(), DEV_LICENSE@)
}

/// Saving a token of the device or of the user keeps the license, whether it could be saved or not.
pub proof fn saving_a_token_keeps_the_license<
    P: TokenBackend,
    T,
    F: Fn(&[u8]) -> Result<TokenStore<T>, TokenStoreError>,
    G: Fn(&TokenStore<T>) -> Result<Vec<u8>, TokenStoreError>,
>(
    before: P,
    after: P,
    key: Seq<char>,
    address: Seq<char>,
    token: T,
    decode: F,
    encode: G,
    r: Result<(), TokenStoreError>,
)
    requires
        key == DEVICE_TOKENS@ || key == USER_TOKENS@,
        token_written::<P, T, F, G>(before, after, key, address, token, decode, encode, r),
    ensures
        keeps_license(before, after),
{
    the_keys_are_apart();
    saving_a_token_leaves_the_rest::<P, T, F, G>(
        before,
        after,
        key,
        address,
        token,
        decode,
        encode,
        r,
        DEV_LICENSE@,
    );
}

/// Saving the user keeps the license, whether it could be saved or not.
pub proof fn saving_the_user_keeps_the_license<
    P: TokenBackend,
    D,
    G: Fn(&D) -> Result<Vec<u8>, TokenStoreError>,
>(before: P, after: P, user: D, encode: G, r: Result<(), TokenStoreError>)
    requires
        document_written::<P, D, G>(before, after, USER_INFO@, user, encode, r),
    ensures
        keeps_license(before, after),
{
    the_keys_are_apart();
    saving_a_document_leaves_the_rest::<P, D, G>(
        before,
        after,
        USER_INFO@,
        user,
        encode,
        r,
        DEV_LICENSE@,
    );
}

/// A license that was saved is what is read, however many changes that keep the license came in
/// between, where `decode` undoes `encode`.
pub proof fn a_license_outlasts_other_changes<
    P: TokenBackend,
    D,
    F: Fn(&[u8]) -> Result<D, TokenStoreError>,
    G: Fn(&D) -> Result<Vec<u8>, TokenStoreError>,
>(
    before: P,
    states: Seq<P>,
    device: D,
    decode: F,
    encode: G,
    found: Result<D, TokenStoreError>,
)
    requires
        forall|e: Vec<u8>, d: Result<D, TokenStoreError>|
            #![trigger call_ensures(encode, (&device,), Ok(e)), decodes(decode, e@, d)]
            call_ensures(encode, (&device,), Ok(e)) && decodes(decode, e@, d) ==> d == Ok::<
                D,
                TokenStoreError,
            >(device),
        states.len() > 0,
        document_written::<P, D, G>(before, states[0], DEV_LICENSE@, device, encode, Ok(())),
        forall|i: int, j: int|
            0 <= i && j == i + 1 && j < states.len() ==> #[trigger] keeps_license(
                states[i],
                states[j],
            ),
        document_read::<P, D, F>(states.last(), DEV_LICENSE@, decode, found),
        found is Ok || P::reliable(),
    ensures
        found == Ok::<D, TokenStoreError>(device),
    decreases states.len(),
{
    if states.len() == 1 {
        a_saved_document_is_read_back::<P, D, F, G>(
            before,
            states[0],
            DEV_LICENSE@,
            device,
            decode,
            encode,
            found,
        );
    } else {
        let earlier = states.drop_last();
        assert(keeps_license(states[states.len() - 2], states[states.len() - 1]));
        an_untouched_document_reads_the_same::<P, D, F>(
            earlier.last(),
            states.last(),
            DEV_LICENSE@,
            decode,
            found,
        );
        assert forall|i: int, j: int|
            0 <= i && j == i + 1 && j < earlier.len() implies #[trigger] keeps_license(
            earlier[i],
            earlier[j],
        ) by {
            assert(keeps_license(states[i], states[j]));
        }
        a_license_outlasts_other_changes::<P, D, F, G>(
            before,
            earlier,
            device,
            decode,
            encode,
            found,
        );
    }
}

/// A license, or a user, of which nothing is kept is not found; where something is kept, the read
/// gives what it decodes to, be it a document or an error.
pub proof fn a_document_is_not_found_or_decoded<
    P: TokenBackend,
    D,
    F: Fn(&[u8]) -> Result<D, TokenStoreError>,
>(storage: P, key: Seq<char>, decode: F, found: Result<D, TokenStoreError>)
    requires
        document_read::<P, D, F>(storage, key, decode, found),
        P::reliable(),
    ensures
        match entry(storage.contents(), key) {
            None => found == Err::<D, TokenStoreError>(TokenStoreError::NotFound),
            Some(bytes) => decodes(decode, bytes, found),
        },
{
}

/// A license, or a user, that is kept but does not decode is told apart from one that is not kept,
/// as long as the decoder does not call it missing.
pub proof fn a_document_that_does_not_decode_is_not_missing<
    P: TokenBackend,
    D,
    F: Fn(&[u8]) -> Result<D, TokenStoreError>,
>(storage: P, key: Seq<char>, bytes: Seq<u8>, decode: F, found: Result<D, TokenStoreError>)
    requires
        entry(storage.contents(), key) == Some(bytes),
        forall|d: Result<D, TokenStoreError>| #[trigger]
            decodes(decode, bytes, d) ==> d is Err && !(d->Err_0 is NotFound),
        document_read::<P, D, F>(storage, key, decode, found),
        P::reliable(),
    ensures
        found is Err,
        !(found->Err_0 is NotFound),
{
    a_document_is_not_found_or_decoded::<P, D, F>(storage, key, decode, found);
}

/// Where nothing is kept under a key, there is no token for any address.
pub proof fn no_store_holds_no_token<
    P: TokenBackend,
    T,
    F: Fn(&[u8]) -> Result<TokenStore<T>, TokenStoreError>,
>(
    storage: P,
    key: Seq<char>,
    address: Seq<char>,
    decode: F,
    found: Result<Option<T>, TokenStoreError>,
)
    requires
        entry(storage.contents(), key) is None,
        token_read::<P, T, F>(storage, key, address, decode, found),
    ensures
        found is Ok ==> found == Ok::<Option<T>, TokenStoreError>(None),
        P::reliable() ==> found is Ok,
{
}

/// A token that comes out of the cache lasts longer than the margin: at the moment `later` of the
/// read, more than the margin is left between then and the moment at which it expires.
pub proof fn a_cache_hit_outlasts_the_margin<
    E: ExpiringTokenBackend,
    X,
    F: Fn(&XstsResponse) -> Result<Vec<u8>, TokenStoreError>,
    G: Fn(&[u8]) -> Result<X, TokenStoreError>,
>(
    before: Map<Seq<char>, (Seq<u8>, u128)>,
    after: Map<Seq<char>, (Seq<u8>, u128)>,
    key: Seq<char>,
    token: XstsResponse,
    utc_now: UtcTime,
    now: u128,
    encode: F,
    later: u128,
    decode: G,
    found: Option<X>,
)
    requires
        E::never_refuses(),
        forall|e: Result<Vec<u8>, TokenStoreError>| #[trigger]
            call_ensures(encode, (&token,), e) ==> e is Ok,
        cache_written::<E, F>(before, after, key, token, utc_now, now, encode),
        now <= later,
        cache_read::<E, X, G>(after, key, later, decode, found),
        found is Some,
    ensures
        (later - now) + XSTS_CACHE_EXPIRY_MARGIN * 1_000_000_000 < token.not_after.span_since(
            utc_now,
        ),
{
    assert(after.contains_key(key) && after[key].1 == cache_deadline(token.not_after, utc_now, now));
    let stored = choose|stored: Result<Option<Seq<u8>>, TokenStoreError>| #[trigger]
        cache_outcome::<E>(after, key, later, stored) && match stored {
            Ok(Some(bytes)) => decoded_if_any(bytes, decode, found),
            _ => found is None,
        };
    assert(stored is Ok && stored->Ok_0 is Some);
    assert(later < after[key].1);
}

/// A token that `get_cached_xsts` finds behind `cache_xsts` lasts longer than the margin at the
/// moment `later` of the read, whatever else was cached in between. One clock is read for both, and
/// the read does not come before the caching.
pub proof fn a_token_found_at_present_outlasts_the_margin<
    E: ExpiringTokenBackend,
    X,
    F: Fn(&XstsResponse) -> Result<Vec<u8>, TokenStoreError>,
    G: Fn(&[u8]) -> Result<X, TokenStoreError>,
>(
    clock: MonotonicClock,
    before: Map<Seq<char>, (Seq<u8>, u128)>,
    after: Map<Seq<char>, (Seq<u8>, u128)>,
    latest_before: u128,
    latest_after: u128,
    key: Seq<char>,
    token: XstsResponse,
    encode: F,
    cached: Map<Seq<char>, (Seq<u8>, u128)>,
    latest: u128,
    decode: G,
    found: Option<X>,
)
    requires
        E::never_refuses(),
        forall|e: Result<Vec<u8>, TokenStoreError>| #[trigger]
            call_ensures(encode, (&token,), e) ==> e is Ok,
        cache_written_now::<E, F>(
            clock,
            before,
            after,
            latest_before,
            latest_after,
            key,
            token,
            encode,
        ),
        entry(cached, key) == entry(after, key),
        latest_after <= latest,
        cache_read_now::<E, X, G>(clock, cached, key, latest, decode, found),
        found is Some,
    ensures
        is_present(clock, latest_after, latest_before),
        exists|utc_now: UtcTime, later: u128|
            #![trigger cache_written::<E, F>(before, after, key, token, utc_now, latest_after, encode), cache_read::<
                E,
                X,
                G,
            >(cached, key, later, decode, found)]
            {
                &&& cache_written::<E, F>(before, after, key, token, utc_now, latest_after, encode)
                &&& cache_read::<E, X, G>(cached, key, later, decode, found)
                &&& is_present(clock, later, latest)
                &&& latest_after <= later
                &&& (later - latest_after) + XSTS_CACHE_EXPIRY_MARGIN * 1_000_000_000
                    < token.not_after.span_since(utc_now)
            },
{
    let utc_now = choose|utc_now: UtcTime| #[trigger]
        cache_written::<E, F>(before, after, key, token, utc_now, latest_after, encode)
            && utc_reading(utc_now.spec_seconds(), utc_now.spec_nanos()) && utc_now.spec_nanos()
            < 1_000_000_000;
    let later = choose|later: u128| #[trigger]
        cache_read::<E, X, G>(cached, key, later, decode, found) && is_present(
            clock,
            later,
            latest,
        );
    let stored = choose|stored: Result<Option<Seq<u8>>, TokenStoreError>| #[trigger]
        cache_outcome::<E>(cached, key, later, stored) && match stored {
            Ok(Some(bytes)) => decoded_if_any(bytes, decode, found),
            _ => found is None,
        };
    assert(cache_outcome::<E>(after, key, later, stored));
    a_cache_hit_outlasts_the_margin::<E, X, F, G>(
        before,
        after,
        key,
        token,
        utc_now,
        latest_after,
        encode,
        later,
        decode,
        found,
    );
}

/// A token that has no more than the margin left is never found in the cache.
pub proof fn a_token_within_the_margin_is_not_found<
    E: ExpiringTokenBackend,
    X,
    F: Fn(&XstsResponse) -> Result<Vec<u8>, TokenStoreError>,
    G: Fn(&[u8]) -> Result<X, TokenStoreError>,
>(
    before: Map<Seq<char>, (Seq<u8>, u128)>,
    after: Map<Seq<char>, (Seq<u8>, u128)>,
    key: Seq<char>,
    token: XstsResponse,
    utc_now: UtcTime,
    now: u128,
    encode: F,
    later: u128,
    decode: G,
    found: Option<X>,
)
    requires
        E::never_refuses(),
        forall|e: Result<Vec<u8>, TokenStoreError>| #[trigger]
            call_ensures(encode, (&token,), e) ==> e is Ok,
        cache_written::<E, F>(before, after, key, token, utc_now, now, encode),
        token.not_after.span_since(utc_now) <= XSTS_CACHE_EXPIRY_MARGIN * 1_000_000_000,
        now <= later,
        cache_read::<E, X, G>(after, key, later, decode, found),
    ensures
        found is None,
{
    if found is Some {
        assert(after.contains_key(key) && after[key].1 == cache_deadline(
            token.not_after,
            utc_now,
            now,
        ));
    }
}

/// A token that has more than the margin left is found in the cache as it was put in, until only
/// the margin is left.
pub proof fn a_cached_token_is_read_back<
    E: ExpiringTokenBackend,
    F: Fn(&XstsResponse) -> Result<Vec<u8>, TokenStoreError>,
    G: Fn(&[u8]) -> Result<XstsResponse, TokenStoreError>,
>(
    before: Map<Seq<char>, (Seq<u8>, u128)>,
    after: Map<Seq<char>, (Seq<u8>, u128)>,
    key: Seq<char>,
    token: XstsResponse,
    utc_now: UtcTime,
    now: u128,
    encode: F,
    later: u128,
    decode: G,
    found: Option<XstsResponse>,
)
    requires
        E::never_refuses(),
        forall|e: Result<Vec<u8>, TokenStoreError>| #[trigger]
            call_ensures(encode, (&token,), e) ==> e is Ok,
        forall|e: Vec<u8>, d: Result<XstsResponse, TokenStoreError>|
            #![trigger call_ensures(encode, (&token,), Ok(e)), decodes(decode, e@, d)]
            call_ensures(encode, (&token,), Ok(e)) && decodes(decode, e@, d) ==> d == Ok::<
                XstsResponse,
                TokenStoreError,
            >(token),
        cache_written::<E, F>(before, after, key, token, utc_now, now, encode),
        now <= later < u128::MAX,
        (later - now) + XSTS_CACHE_EXPIRY_MARGIN * 1_000_000_000 < token.not_after.span_since(
            utc_now,
        ),
        cache_read::<E, XstsResponse, G>(after, key, later, decode, found),
    ensures
        found == Some(token),
{
    let encoded = choose|encoded: Result<Vec<u8>, TokenStoreError>| #[trigger]
        call_ensures(encode, (&token,), encoded) && encoded is Ok && after == before.insert(
            key,
            (encoded->Ok_0@, cache_deadline(token.not_after, utc_now, now)),
        );
    assert(encoded == Ok::<Vec<u8>, TokenStoreError>(encoded->Ok_0));
    assert(after[key].1 == cache_deadline(token.not_after, utc_now, now));
    let stored = choose|stored: Result<Option<Seq<u8>>, TokenStoreError>| #[trigger]
        cache_outcome::<E>(after, key, later, stored) && match stored {
            Ok(Some(bytes)) => decoded_if_any(bytes, decode, found),
            _ => found is None,
        };
    assert(stored == Ok::<Option<Seq<u8>>, TokenStoreError>(Some(encoded->Ok_0@)));
    assert(decoded_if_any(encoded->Ok_0@, decode, found));
}

/// Caching a token for one relying party leaves what is cached for any other as it was.
pub proof fn caching_for_one_party_leaves_the_others<
    E: ExpiringTokenBackend,
    F: Fn(&XstsResponse) -> Result<Vec<u8>, TokenStoreError>,
>(
    before: Map<Seq<char>, (Seq<u8>, u128)>,
    after: Map<Seq<char>, (Seq<u8>, u128)>,
    key: Seq<char>,
    token: XstsResponse,
    utc_now: UtcTime,
    now: u128,
    encode: F,
    other: Seq<char>,
)
    requires
        cache_written::<E, F>(before, after, key, token, utc_now, now, encode),
        other != key,
    ensures
        entry(after, other) == entry(before, other),
{
    if after.remove(key) == before.remove(key) {
        assert(after.remove(key).contains_key(other) == after.contains_key(other));
        assert(before.remove(key).contains_key(other) == before.contains_key(other));
        if after.contains_key(other) {
            assert(after.remove(key)[other] == after[other]);
            assert(before.remove(key)[other] == before[other]);
        }
    }
}

/// Where the license of the device, its tokens, the tokens of the user and the user are kept, and the
/// address of the token service, are fixed: what was kept once is found again.
pub proof fn things_are_kept_under_fixed_names()
    ensures
        DEV_LICENSE@ == "dev_license"@,
        DEVICE_TOKENS@ == "device-tokens"@,
        USER_TOKENS@ == "user-tokens"@,
        USER_INFO@ == "user-DA"@,
        PASSPORT_STS@ == "http://Passport.NET/STS"@,
{
}

/// A token with more than a minute left is cached until a minute before it expires, and one with a
/// minute or less is cached for no time at all.
pub proof fn a_token_leaves_the_cache_a_minute_before_it_expires(
    not_after: UtcTime,
    utc_now: UtcTime,
    now: u128,
)
    requires
        now + not_after.span_since(utc_now) <= u128::MAX,
    ensures
        not_after.span_since(utc_now) > 60_000_000_000 ==> cache_deadline(not_after, utc_now, now)
            == now + not_after.span_since(utc_now) - 60_000_000_000,
        not_after.span_since(utc_now) <= 60_000_000_000 ==> cache_deadline(not_after, utc_now, now)
            == now,
{
}

/// What is cached for a key is found, as it was put in, up to its deadline and no longer; nothing is
/// found under another key.
pub proof fn a_cached_value_is_found_before_its_deadline(
    cached: Map<Seq<char>, (Seq<u8>, u128)>,
    key: Seq<char>,
    value: Seq<u8>,
    deadline: u128,
    other: Seq<char>,
    now: u128,
)
    requires
        other != key,
    ensures
        now < deadline ==> unexpired(cached.insert(key, (value, deadline)), key, now) == Some(value),
        now >= deadline ==> unexpired(cached.insert(key, (value, deadline)), key, now) is None,
        unexpired(cached.insert(key, (value, deadline)), other, now) == unexpired(
            cached,
            other,
            now,
        ),
        unexpired(Map::empty(), key, now) is None,
{
}

/// A token that has to be there is missed only if it is not there, and a reason why it could not be
/// looked for comes back as it is.
pub proof fn an_owed_token_is_given_or_missed<T>(found: Result<Option<T>, TokenStoreError>)
    ensures
        found matches Ok(Some(token)) ==> owed(found) is Ok && owed(found)->Ok_0 == token,
        found matches Ok(None) ==> owed(found) is Err && owed(found)->Err_0 is NotFound,
        found matches Err(e) ==> owed(found) is Err && owed(found)->Err_0 == e,
{
}

/// The license, the user, and the tokens of device and user are each read from the one place where
/// they are kept, tokens under the address that is asked for.
pub proof fn each_thing_is_read_from_its_own_place<
    P: TokenBackend,
    E: ExpiringTokenBackend,
    D,
    F: Fn(&[u8]) -> Result<D, TokenStoreError>,
    T,
    G: Fn(&[u8]) -> Result<TokenStore<T>, TokenStoreError>,
>(
    tokens: TokenManager<P, E>,
    decode: F,
    address: &str,
    decode_tokens: G,
    license: Result<D, TokenStoreError>,
    user: Result<D, TokenStoreError>,
    device_token: Result<Option<T>, TokenStoreError>,
    user_token: Result<Option<T>, TokenStoreError>,
)
    requires
        call_ensures(TokenManager::<P, E>::get_device_license::<D, F>, (&tokens, decode), license),
        call_ensures(TokenManager::<P, E>::get_user::<D, F>, (&tokens, decode), user),
        call_ensures(
            TokenManager::<P, E>::get_device_token_for::<T, G>,
            (&tokens, address, decode_tokens),
            device_token,
        ),
        call_ensures(
            TokenManager::<P, E>::get_user_token_for::<T, G>,
            (&tokens, address, decode_tokens),
            user_token,
        ),
    ensures
        document_read::<P, D, F>(tokens.storage(), "dev_license"@, decode, license),
        document_read::<P, D, F>(tokens.storage(), "user-DA"@, decode, user),
        token_read::<P, T, G>(
            tokens.storage(),
            "device-tokens"@,
            address@,
            decode_tokens,
            device_token,
        ),
        token_read::<P, T, G>(tokens.storage(), "user-tokens"@, address@, decode_tokens, user_token),
{
}

/// The tokens for the token service are those of device and user under the address of the service,
/// and one that is not there is missed.
pub proof fn service_tokens_stand_under_the_address_of_the_service<
    P: TokenBackend,
    E: ExpiringTokenBackend,
    T,
    G: Fn(&[u8]) -> Result<TokenStore<T>, TokenStoreError>,
>(
    tokens: TokenManager<P, E>,
    decode: G,
    device: Result<T, TokenStoreError>,
    user: Result<T, TokenStoreError>,
)
    requires
        call_ensures(TokenManager::<P, E>::get_device_sts_token::<T, G>, (&tokens, decode), device),
        call_ensures(TokenManager::<P, E>::get_user_sts_token::<T, G>, (&tokens, decode), user),
    ensures
        device matches Ok(token) ==> token_read::<P, T, G>(
            tokens.storage(),
            "device-tokens"@,
            "http://Passport.NET/STS"@,
            decode,
            Ok(Some(token)),
        ),
        user matches Ok(token) ==> token_read::<P, T, G>(
            tokens.storage(),
            "user-tokens"@,
            "http://Passport.NET/STS"@,
            decode,
            Ok(Some(token)),
        ),
        device matches Err(e) ==> token_read::<P, T, G>(
            tokens.storage(),
            "device-tokens"@,
            "http://Passport.NET/STS"@,
            decode,
            Err(e),
        ) || (e is NotFound && token_read::<P, T, G>(
            tokens.storage(),
            "device-tokens"@,
            "http://Passport.NET/STS"@,
            decode,
            Ok(None),
        )),
        user matches Err(e) ==> token_read::<P, T, G>(
            tokens.storage(),
            "user-tokens"@,
            "http://Passport.NET/STS"@,
            decode,
            Err(e),
        ) || (e is NotFound && token_read::<P, T, G>(
            tokens.storage(),
            "user-tokens"@,
            "http://Passport.NET/STS"@,
            decode,
            Ok(None),
        )),
{
}

} // verus!
