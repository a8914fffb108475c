//! What the token manager asks of the places where it keeps its data.

use vstd::prelude::*;
use vstd::string::StringExecFns;

use crate::names::NameMap;

verus! {

/// Why a token could not be read or kept.
#[derive(Clone, Debug)]
pub enum TokenStoreError {
    /// Nothing is stored there.
    NotFound,
    /// What is stored, or is to be stored, is no JSON of the expected shape.
    Json(String),
    /// The place where it is kept refused.
    Backend(String),
}

impl TokenStoreError {
    /// The error in words.
    pub open spec fn words(&self) -> Seq<char> {
        match *self {
            TokenStoreError::NotFound => "not found"@,
            TokenStoreError::Json(e) => e@,
            TokenStoreError::Backend(e) => e@,
        }
    }

    /// The error in words.
    pub fn message(&self) -> (out: String)
        ensures
            out@ == self.words(),
    {
        match self {
            TokenStoreError::NotFound => String::from_str("not found"),
            TokenStoreError::Json(e) => String::from_str(e),
            TokenStoreError::Backend(e) => String::from_str(e),
        }
    }
}

/// Tokens by the address that they apply to.
pub struct TokenStore<T> {
    pub tokens: NameMap<T>,
}

/// What a backend tells of a key: the value, or that there is none.
pub open spec fn stored_bytes(r: Result<Option<Vec<u8>>, TokenStoreError>) -> Result<
    Option<Seq<u8>>,
    TokenStoreError,
> {
    match r {
        Ok(Some(bytes)) => Ok(Some(bytes@)),
        Ok(None) => Ok(None),
        Err(e) => Err(e),
    }
}

/// The entry of `key` in a map.
pub open spec fn entry<V>(map: Map<Seq<char>, V>, key: Seq<char>) -> Option<V> {
    if map.contains_key(key) {
        Some(map[key])
    } else {
        None
    }
}

/// A key, by its characters.
pub type KeyText = Seq<char>;

/// Bytes by key.
pub type Contents = Map<Seq<char>, Seq<u8>>;

/// Bytes by key, with the moment at which they expire.
pub type ExpiringContents = Map<Seq<char>, (Seq<u8>, u128)>;

/// A place that keeps bytes by key for good.
pub trait TokenBackend {
    /// What is kept.
    spec fn contents(&self) -> Contents;

    /// Whether no request is ever refused.
    spec fn reliable() -> bool;

    /// A request about `key` can be refused with `e`.
    spec fn refuses(&self, key: KeyText, e: TokenStoreError) -> bool;

    /// The bytes of `key`, if there are any.
    fn get(&self, key: &str) -> (r: Result<Option<Vec<u8>>, TokenStoreError>)
        ensures
            r is Ok ==> stored_bytes(r) == Ok::<Option<Seq<u8>>, TokenStoreError>(
                entry(self.contents(), key@),
            ),
            r matches Err(e) ==> self.refuses(key@, e),
            Self::reliable() ==> r is Ok,
    ;

    /// Keeps `value` under `key`, in place of what stood there. No other key is touched.
    fn set(&mut self, key: &str, value: &[u8]) -> (r: Result<(), TokenStoreError>)
        ensures
            r is Ok ==> final(self).contents() == old(self).contents().insert(key@, value@),
            final(self).contents().remove(key@) == old(self).contents().remove(key@),
            r matches Err(e) ==> old(self).refuses(key@, e),
            Self::reliable() ==> r is Ok,
    ;

    /// Forgets what stands under `key`. No other key is touched.
    fn remove(&mut self, key: &str) -> (r: Result<(), TokenStoreError>)
        ensures
            r is Ok ==> final(self).contents() == old(self).contents().remove(key@),
            final(self).contents().remove(key@) == old(self).contents().remove(key@),
            r matches Err(e) ==> old(self).refuses(key@, e),
            Self::reliable() ==> r is Ok,
    ;
}

/// A place that keeps bytes by key up to a moment. Moments are nanoseconds on a clock that never
/// goes back.
pub trait ExpiringTokenBackend {
    /// What was put in, with the moment at which it expires.
    spec fn expiring(&self) -> ExpiringContents;

    /// Whether no request is ever refused.
    spec fn never_refuses() -> bool;

    /// The bytes of `key`, if there are any that have not expired at the moment `now`.
    fn get_at(&self, key: &str, now: u128) -> (r: Result<Option<Vec<u8>>, TokenStoreError>)
        ensures
            r is Ok ==> stored_bytes(r) == Ok::<Option<Seq<u8>>, TokenStoreError>(
                unexpired(self.expiring(), key@, now),
            ),
            Self::never_refuses() ==> r is Ok,
    ;

    /// Keeps `value` under `key` up to the moment `expires_at`, in place of what stood there. No
    /// other key is touched.
    fn set_with_expiry(&mut self, key: &str, value: &[u8], expires_at: u128) -> (r: Result<
        (),
        TokenStoreError,
    >)
        ensures
            r is Ok ==> final(self).expiring() == old(self).expiring().insert(
                key@,
                (value@, expires_at),
            ),
            final(self).expiring().remove(key@) == old(self).expiring().remove(key@),
            Self::never_refuses() ==> r is Ok,
    ;
}

/// The bytes of `key` that have not expired at the moment `now`.
pub open spec fn unexpired(
    expiring: Map<Seq<char>, (Seq<u8>, u128)>,
    key: Seq<char>,
    now: u128,
) -> Option<Seq<u8>> {
    if expiring.contains_key(key) && now < expiring[key].1 {
        Some(expiring[key].0)
    } else {
        None
    }
}

/// What a read of `key` can tell of a backend: the truth, or a refusal with an error that the backend
/// has for it.
pub open spec fn read_outcome<P: TokenBackend>(
    storage: P,
    key: Seq<char>,
    stored: Result<Option<Seq<u8>>, TokenStoreError>,
) -> bool {
    match stored {
        Ok(found) => found == entry(storage.contents(), key),
        Err(e) => storage.refuses(key, e) && !P::reliable(),
    }
}

/// What putting `value` under `key` can do to a backend: keep it, or refuse with an error that the
/// backend has for it. Either way no other key is touched.
pub open spec fn write_outcome<P: TokenBackend>(
    before: P,
    after: P,
    key: Seq<char>,
    value: Seq<u8>,
    r: Result<(), TokenStoreError>,
) -> bool {
    &&& r is Ok ==> after.contents() == before.contents().insert(key, value)
    &&& after.contents().remove(key) == before.contents().remove(key)
    &&& r matches Err(e) ==> before.refuses(key, e)
    &&& P::reliable() ==> r is Ok
}

/// What forgetting `key` can do to a backend: forget it, or refuse with an error that the backend
/// has for it. Either way no other key is touched.
pub open spec fn removal_outcome<P: TokenBackend>(
    before: P,
    after: P,
    key: Seq<char>,
    r: Result<(), TokenStoreError>,
) -> bool {
    &&& r is Ok ==> after.contents() == before.contents().remove(key)
    &&& after.contents().remove(key) == before.contents().remove(key)
    &&& r matches Err(e) ==> before.refuses(key, e)
    &&& P::reliable() ==> r is Ok
}

/// `decode` may turn the bytes into `d`.
pub open spec fn decodes<D, F: Fn(&[u8]) -> Result<D, TokenStoreError>>(
    decode: F,
    bytes: Seq<u8>,
    d: Result<D, TokenStoreError>,
) -> bool {
    exists|b: &[u8]| b@ == bytes && #[trigger] call_ensures(decode, (b,), d)
}

/// `r` is the document that a backend tells of in `stored`.
pub open spec fn document_of<D, F: Fn(&[u8]) -> Result<D, TokenStoreError>>(
    stored: Result<Option<Seq<u8>>, TokenStoreError>,
    decode: F,
    r: Result<D, TokenStoreError>,
) -> bool {
    match stored {
        Err(e) => r == Err::<D, TokenStoreError>(e),
        Ok(None) => r == Err::<D, TokenStoreError>(TokenStoreError::NotFound),
        Ok(Some(bytes)) => decodes(decode, bytes, r),
    }
}

/// Decodes the document that a backend tells of.
pub fn decode_document<D, F: Fn(&[u8]) -> Result<D, TokenStoreError>>(
    stored: Result<Option<Vec<u8>>, TokenStoreError>,
    decode: F,
) -> (r: Result<D, TokenStoreError>)
    requires
        forall|b: &[u8]| #[trigger] call_requires(decode, (b,)),
    ensures
        document_of(stored_bytes(stored), decode, r),
{
    match stored {
        Err(e) => Err(e),
        Ok(None) => Err(TokenStoreError::NotFound),
        Ok(Some(bytes)) => decode(bytes.as_slice()),
    }
}

/// `r` is the token for `address` in the store that a backend tells of in `stored`.
pub open spec fn token_of<T, F: Fn(&[u8]) -> Result<TokenStore<T>, TokenStoreError>>(
    stored: Result<Option<Seq<u8>>, TokenStoreError>,
    address: Seq<char>,
    decode: F,
    r: Result<Option<T>, TokenStoreError>,
) -> bool {
    match stored {
        Err(e) => r == Err::<Option<T>, TokenStoreError>(e),
        Ok(None) => r == Ok::<Option<T>, TokenStoreError>(None),
        Ok(Some(bytes)) => token_decoded(bytes, address, decode, r),
    }
}

/// `r` is the token for `address` in the store that `bytes` decode to.
pub open spec fn token_decoded<T, F: Fn(&[u8]) -> Result<TokenStore<T>, TokenStoreError>>(
    bytes: Seq<u8>,
    address: Seq<char>,
    decode: F,
    r: Result<Option<T>, TokenStoreError>,
) -> bool {
    exists|d: Result<TokenStore<T>, TokenStoreError>| #[trigger]
        decodes(decode, bytes, d) && r == token_in(d, address)
}

/// The token for `address` in a store.
pub open spec fn token_in<T>(
    store: Result<TokenStore<T>, TokenStoreError>,
    address: Seq<char>,
) -> Result<Option<T>, TokenStoreError> {
    match store {
        Ok(store) => Ok(entry(store.tokens@, address)),
        Err(e) => Err(e),
    }
}

/// Finds the token for `address` in the store that a backend tells of.
pub fn find_token<T, F: Fn(&[u8]) -> Result<TokenStore<T>, TokenStoreError>>(
    stored: Result<Option<Vec<u8>>, TokenStoreError>,
    address: &str,
    decode: F,
) -> (r: Result<Option<T>, TokenStoreError>)
    requires
        forall|b: &[u8]| #[trigger] call_requires(decode, (b,)),
    ensures
        token_of(stored_bytes(stored), address@, decode, r),
{
    let bytes = match stored {
        Err(e) => {
            return Err(e);
        },
        Ok(None) => {
            return Ok(None);
        },
        Ok(Some(bytes)) => bytes,
    };
    let decoded = decode(bytes.as_slice());
    assert(decodes(decode, bytes@, decoded));
    let found = match decoded {
        Err(e) => Err(e),
        Ok(store) => {
            let mut tokens = store.tokens;
            Ok(tokens.remove(address))
        },
    };
    assert(found == token_in(decoded, address@));
    assert(token_decoded(bytes@, address@, decode, found));
    found
}

/// `r` is the store that a backend tells of in `stored`, with `token` for `address` in it. A
/// store of which nothing is kept, or only an empty value, is an empty store.
pub open spec fn merged_store_of<T, F: Fn(&[u8]) -> Result<TokenStore<T>, TokenStoreError>>(
    stored: Result<Option<Seq<u8>>, TokenStoreError>,
    address: Seq<char>,
    token: T,
    decode: F,
    r: Result<TokenStore<T>, TokenStoreError>,
) -> bool {
    match stored {
        Err(e) => r == Err::<TokenStore<T>, TokenStoreError>(e),
        Ok(None) => r matches Ok(merged) && merged.tokens@ == Map::<Seq<char>, T>::empty().insert(
            address,
            token,
        ),
        Ok(Some(bytes)) => if bytes.len() == 0 {
            r matches Ok(merged) && merged.tokens@ == Map::<Seq<char>, T>::empty().insert(
                address,
                token,
            )
        } else {
            exists|d: Result<TokenStore<T>, TokenStoreError>| #[trigger]
                decodes(decode, bytes, d) && match d {
                    Err(e) => r == Err::<TokenStore<T>, TokenStoreError>(e),
                    Ok(store) => r matches Ok(merged) && merged.tokens@ == store.tokens@.insert(
                        address,
                        token,
                    ),
                }
        },
    }
}

/// Puts `token` for `address` into the store that a backend tells of.
pub fn merge_token<T, F: Fn(&[u8]) -> Result<TokenStore<T>, TokenStoreError>>(
    stored: Result<Option<Vec<u8>>, TokenStoreError>,
    address: String,
    token: T,
    decode: F,
) -> (r: Result<TokenStore<T>, TokenStoreError>)
    requires
        forall|b: &[u8]| #[trigger] call_requires(decode, (b,)),
    ensures
        merged_store_of(stored_bytes(stored), address@, token, decode, r),
{
    let mut tokens: NameMap<T> = NameMap::new();
    match stored {
        Err(e) => {
            return Err(e);
        },
        Ok(Some(bytes)) => {
            if bytes.len() > 0 {
                let decoded = decode(bytes.as_slice());
                assert(decodes(decode, bytes@, decoded));
                match decoded {
                    Err(e) => {
                        return Err(e);
                    },
                    Ok(store) => {
                        tokens = store.tokens;
                    },
                }
            }
        },
        Ok(None) => {},
    }
    tokens.insert(address, token);
    Ok(TokenStore { tokens })
}

/// An error that has a cause is told in the words of its cause.
pub proof fn a_store_error_is_told_by_its_cause(error: TokenStoreError, words: String)
    requires
        call_ensures(TokenStoreError::message, (&error,), words),
    ensures
        match error {
            TokenStoreError::NotFound => words@ == "not found"@,
            TokenStoreError::Json(e) => words@ == e@,
            TokenStoreError::Backend(e) => words@ == e@,
        },
{
}

/// A token that is put into a store is the one for its address, and every other address keeps what
/// the store had for it; a store of which nothing is kept, or only an empty value, had nothing. What
/// cannot be read or decoded is not written over.
pub proof fn a_merged_token_stands_beside_the_others<
    T,
    F: Fn(&[u8]) -> Result<TokenStore<T>, TokenStoreError>,
>(
    stored: Result<Option<Vec<u8>>, TokenStoreError>,
    address: String,
    token: T,
    decode: F,
    decoded: Result<TokenStore<T>, TokenStoreError>,
    r: Result<TokenStore<T>, TokenStoreError>,
    other: Seq<char>,
)
    requires
        call_ensures(merge_token::<T, F>, (stored, address, token, decode), r),
        forall|b: &[u8], d: Result<TokenStore<T>, TokenStoreError>| #[trigger]
            call_ensures(decode, (b,), d) ==> d == decoded,
        other != address@,
    ensures
        r matches Ok(store) ==> store.tokens@.contains_key(address@) && store.tokens@[address@]
            == token,
        stored matches Err(e) ==> r is Err && r->Err_0 == e,
        (stored matches Ok(Some(bytes)) && bytes@.len() > 0) ==> match decoded {
            Err(e) => r is Err && r->Err_0 == e,
            Ok(before) => r is Ok && (r->Ok_0.tokens@.contains_key(other)
                <==> before.tokens@.contains_key(other)) && (before.tokens@.contains_key(other)
                ==> r->Ok_0.tokens@[other] == before.tokens@[other]),
        },
        (stored matches Ok(None)) || (stored matches Ok(Some(bytes)) && bytes@.len() == 0) ==> r is Ok
            && !r->Ok_0.tokens@.contains_key(other),
{
}

/// A token is looked for under its address in what the stored bytes decode to, and nowhere else.
/// Without stored bytes there is none, and a refusal comes back as it is.
pub proof fn a_token_is_found_under_its_address<
    T,
    F: Fn(&[u8]) -> Result<TokenStore<T>, TokenStoreError>,
>(
    stored: Result<Option<Vec<u8>>, TokenStoreError>,
    address: &str,
    decode: F,
    decoded: Result<TokenStore<T>, TokenStoreError>,
    r: Result<Option<T>, TokenStoreError>,
)
    requires
        call_ensures(find_token::<T, F>, (stored, address, decode), r),
        forall|b: &[u8], d: Result<TokenStore<T>, TokenStoreError>| #[trigger]
            call_ensures(decode, (b,), d) ==> d == decoded,
    ensures
        stored matches Err(e) ==> r is Err && r->Err_0 == e,
        stored matches Ok(None) ==> r is Ok && r->Ok_0 is None,
        stored matches Ok(Some(_)) ==> match decoded {
            Err(e) => r is Err && r->Err_0 == e,
            Ok(store) => r is Ok && (r->Ok_0 is Some <==> store.tokens@.contains_key(address@)) && (
            r->Ok_0 is Some ==> r->Ok_0->0 == store.tokens@[address@]),
        },
{
}

/// A document is what its bytes decode to. Without bytes it is not found, and a refusal comes back as
/// it is.
pub proof fn a_document_is_what_its_bytes_decode_to<D, F: Fn(&[u8]) -> Result<D, TokenStoreError>>(
    stored: Result<Option<Vec<u8>>, TokenStoreError>,
    decode: F,
    decoded: Result<D, TokenStoreError>,
    r: Result<D, TokenStoreError>,
)
    requires
        call_ensures(decode_document::<D, F>, (stored, decode), r),
        forall|b: &[u8], d: Result<D, TokenStoreError>| #[trigger]
            call_ensures(decode, (b,), d) ==> d == decoded,
    ensures
        stored matches Err(e) ==> r is Err && r->Err_0 == e,
        stored matches Ok(None) ==> r is Err && r->Err_0 is NotFound,
        stored matches Ok(Some(_)) ==> r == decoded,
{
}

} // verus!
