//! Storage in memory.

use vstd::prelude::*;
use vstd::slice::slice_to_vec;
use vstd::string::StringExecFns;

use crate::names::NameMap;
use crate::tokens::store::{ExpiringTokenBackend, TokenBackend, TokenStoreError};

verus! {

/// Keeps everything in memory, and so never refuses.
pub struct MemoryBackend {
    entries: NameMap<Vec<u8>>,
    expiring: NameMap<(Vec<u8>, u128)>,
}

impl MemoryBackend {
    /// What is kept for good.
    pub closed spec fn kept(&self) -> Map<Seq<char>, Seq<u8>> {
        self.entries@.map_values(|v: Vec<u8>| v@)
    }

    /// What is kept up to a moment.
    pub closed spec fn kept_until(&self) -> Map<Seq<char>, (Seq<u8>, u128)> {
        self.expiring@.map_values(|v: (Vec<u8>, u128)| (v.0@, v.1))
    }
}

impl Default for MemoryBackend {
    /// An empty backend.
    fn default() -> (out: Self)
        ensures
            out.kept() == Map::<Seq<char>, Seq<u8>>::empty(),
            out.kept_until() == Map::<Seq<char>, (Seq<u8>, u128)>::empty(),
    {
        let out = MemoryBackend { entries: NameMap::new(), expiring: NameMap::new() };
        assert(out.kept() =~= Map::<Seq<char>, Seq<u8>>::empty());
        assert(out.kept_until() =~= Map::<Seq<char>, (Seq<u8>, u128)>::empty());
        out
    }
}

impl TokenBackend for MemoryBackend {
    open spec fn contents(&self) -> Map<Seq<char>, Seq<u8>> {
        self.kept()
    }

    open spec fn reliable() -> bool {
        true
    }

    open spec fn refuses(&self, key: Seq<char>, e: TokenStoreError) -> bool {
        false
    }

    fn get(&self, key: &str) -> (r: Result<Option<Vec<u8>>, TokenStoreError>) {
        match self.entries.get(key) {
            Some(value) => Ok(Some(slice_to_vec(value.as_slice()))),
            None => Ok(None),
        }
    }

    fn set(&mut self, key: &str, value: &[u8]) -> (r: Result<(), TokenStoreError>)
        ensures
            final(self).kept_until() == old(self).kept_until(),
    {
        let ghost before = self.kept();
        self.entries.insert(String::from_str(key), slice_to_vec(value));
        assert(self.kept() =~= before.insert(key@, value@));
        assert(before.insert(key@, value@).remove(key@) =~= before.remove(key@));
        Ok(())
    }

    fn remove(&mut self, key: &str) -> (r: Result<(), TokenStoreError>)
        ensures
            final(self).kept_until() == old(self).kept_until(),
    {
        let ghost before = self.kept();
        let _ = self.entries.remove(key);
        assert(self.kept() =~= before.remove(key@));
        assert(before.remove(key@).remove(key@) =~= before.remove(key@));
        Ok(())
    }
}

impl ExpiringTokenBackend for MemoryBackend {
    open spec fn expiring(&self) -> Map<Seq<char>, (Seq<u8>, u128)> {
        self.kept_until()
    }

    open spec fn never_refuses() -> bool {
        true
    }

    fn get_at(&self, key: &str, now: u128) -> (r: Result<Option<Vec<u8>>, TokenStoreError>) {
        match self.expiring.get(key) {
            Some(value) => if now < value.1 {
                Ok(Some(slice_to_vec(value.0.as_slice())))
            } else {
                Ok(None)
            },
            None => Ok(None),
        }
    }

    fn set_with_expiry(&mut self, key: &str, value: &[u8], expires_at: u128) -> (r: Result<
        (),
        TokenStoreError,
    >)
        ensures
            final(self).kept() == old(self).kept(),
    {
        let ghost before = self.kept_until();
        self.expiring.insert(String::from_str(key), (slice_to_vec(value), expires_at));
        assert(self.kept_until() =~= before.insert(key@, (value@, expires_at)));
        assert(before.insert(key@, (value@, expires_at)).remove(key@) =~= before.remove(key@));
        Ok(())
    }
}

} // verus!
