//! The files of a package, as its metadata lists them.

use vstd::prelude::*;
use vstd::string::StringExecFns;

use crate::names::NameMap;
use crate::text::{decimal, decimal_text, replace_char, replaced, same_text};

verus! {

/// Packages are hashed and encrypted by pages of this many bytes.
pub const PAGE_SIZE: u64 = 4096;

/// A file in a package.
#[derive(Clone, Debug)]
pub struct SegmentFile {
    /// Where it starts in the package.
    pub offset: u64,
    /// How many bytes it has.
    pub length: u64,
    /// The hash of each of its pages.
    pub data_hashs: Vec<Vec<u8>>,
    /// Whether it stays encrypted when it is stored.
    pub keep_encrypted: bool,
}

impl SegmentFile {
    /// The hashes as sequences.
    pub open spec fn hashes(&self) -> Seq<Seq<u8>> {
        self.data_hashs@.map_values(|h: Vec<u8>| h@)
    }

    /// How many pages the file has, the last one counted though it may not be full.
    pub open spec fn pages(&self) -> int {
        (self.length + PAGE_SIZE - 1) / PAGE_SIZE as int
    }

    /// Whether every page of the file has a hash, and there is no hash beyond.
    pub fn hashes_cover_pages(&self) -> (r: bool)
        ensures
            r == (self.hashes().len() == self.pages()),
    {
        let full: u64 = self.length / PAGE_SIZE;
        let pages: u64 = if self.length % PAGE_SIZE == 0 {
            full
        } else {
            full + 1
        };
        pages == self.data_hashs.len() as u64
    }

    /// The file in words, behind the name that it has: where it stands and how long it is.
    pub fn describe(&self, name: &str) -> (out: String)
        ensures
            out@ == name@ + ": "@ + decimal(self.offset as nat) + " "@ + decimal(self.length as nat),
    {
        let mut out = String::from_str(name);
        out.append(": ");
        out.append(&decimal_text(self.offset));
        out.append(" ");
        out.append(&decimal_text(self.length));
        out
    }
}

/// Whether two files have the same hashes.
pub fn same_hashes(a: &SegmentFile, b: &SegmentFile) -> (r: bool)
    ensures
        r == (a.hashes() == b.hashes()),
{
    if a.data_hashs.len() != b.data_hashs.len() {
        assert(a.hashes().len() != b.hashes().len());
        return false;
    }
    let mut i: usize = 0;
    while i < a.data_hashs.len()
        invariant
            i <= a.data_hashs@.len(),
            a.data_hashs@.len() == b.data_hashs@.len(),
            forall|j: int| 0 <= j < i ==> a.hashes()[j] == b.hashes()[j],
        decreases a.data_hashs@.len() - i,
    {
        let x = &a.data_hashs[i];
        let y = &b.data_hashs[i];
        assert(a.hashes()[i as int] == x@ && b.hashes()[i as int] == y@);
        if x.len() != y.len() {
            return false;
        }
        let mut k: usize = 0;
        while k < x.len()
            invariant
                k <= x@.len(),
                x@.len() == y@.len(),
                a.hashes()[i as int] == x@,
                b.hashes()[i as int] == y@,
                forall|j: int| 0 <= j < k ==> x@[j] == y@[j],
            decreases x@.len() - k,
        {
            if x[k] != y[k] {
                return false;
            }
            k += 1;
        }
        assert(x@ =~= y@);
        i += 1;
    }
    assert(a.hashes() =~= b.hashes());
    true
}

/// Filtering a sequence with one more element.
pub(crate) proof fn lemma_filter_push<A>(s: Seq<A>, a: A, keep: spec_fn(A) -> bool)
    ensures
        s.push(a).filter(keep) == if keep(a) {
            s.filter(keep).push(a)
        } else {
            s.filter(keep)
        },
{
    reveal(Seq::filter);
    assert(s.push(a).drop_last() =~= s);
}

/// The places in a sequence of the elements that a filter keeps, in order.
pub(crate) proof fn lemma_filter_places<A>(s: Seq<A>, keep: spec_fn(A) -> bool) -> (at: Seq<int>)
    ensures
        at.len() == s.filter(keep).len(),
        forall|k: int, l: int| #![trigger at[k], at[l]] 0 <= k < l < at.len() ==> at[k] < at[l],
        forall|k: int|
            0 <= k < at.len() ==> 0 <= #[trigger] at[k] < s.len() && s.filter(keep)[k] == s[at[k]],
        forall|i: int| 0 <= i < s.len() ==> (#[trigger] at.contains(i) <==> keep(s[i])),
    decreases s.len(),
{
    if s.len() == 0 {
        reveal(Seq::filter);
        Seq::empty()
    } else {
        let front = s.drop_last();
        let last = s.len() - 1;
        let before = lemma_filter_places(front, keep);
        lemma_filter_push(front, s.last(), keep);
        assert(front.push(s.last()) =~= s);
        if keep(s.last()) {
            let at = before.push(last);
            assert forall|i: int| 0 <= i < s.len() implies (#[trigger] at.contains(i) <==> keep(
                s[i],
            )) by {
                if i == last {
                    assert(at[before.len() as int] == i);
                } else {
                    assert(before.contains(i) <==> keep(front[i]));
                    if before.contains(i) {
                        let k = choose|k: int| 0 <= k < before.len() && before[k] == i;
                        assert(at[k] == i);
                    }
                    if at.contains(i) {
                        let k = choose|k: int| 0 <= k < at.len() && at[k] == i;
                        assert(before[k] == i);
                    }
                }
            }
            assert forall|k: int| 0 <= k < at.len() implies 0 <= #[trigger] at[k] < s.len()
                && s.filter(keep)[k] == s[at[k]] by {
                if k < before.len() {
                    assert(before[k] == at[k]);
                }
            }
            assert forall|k: int, l: int|
                #![trigger at[k], at[l]]
                0 <= k < l < at.len() implies at[k] < at[l] by {
                assert(before[k] == at[k]);
                if l < before.len() {
                    assert(before[l] == at[l]);
                }
            }
            at
        } else {
            assert forall|i: int| 0 <= i < s.len() implies (#[trigger] before.contains(i) <==> keep(
                s[i],
            )) by {
                if i == last {
                    if before.contains(i) {
                        let k = choose|k: int| 0 <= k < before.len() && before[k] == i;
                        assert(0 <= before[k] < front.len());
                    }
                } else {
                    assert(before.contains(i) <==> keep(front[i]));
                }
            }
            before
        }
    }
}

/// The user file of a package that lists its files.
pub const SEGMENT_METADATA: &'static str = "SegmentMetadata.bin";

/// Whether a user file of a package is the one that lists its files.
pub fn is_segment_metadata(name: &str) -> (r: bool)
    ensures
        r == (name@ == SEGMENT_METADATA@),
{
    same_text(name, SEGMENT_METADATA)
}

/// Whether the file system inside a package has to be read for its files: always, unless it is to
/// be skipped and the metadata lists files.
pub fn needs_ntfs(try_skip_ntfs: bool, listed: &NameMap<SegmentFile>) -> (r: bool)
    ensures
        r == (!try_skip_ntfs || listed@ == Map::<Seq<char>, SegmentFile>::empty()),
{
    !try_skip_ntfs || listed.is_empty()
}

/// The files of a package: those that its metadata lists, and those that its file system holds. A
/// file that stands in both is as the file system has it.
pub fn all_files(
    listed: Option<NameMap<SegmentFile>>,
    ntfs: Option<NameMap<SegmentFile>>,
) -> (files: NameMap<SegmentFile>)
    ensures
        files@ == files_of(listed).union_prefer_right(files_of(ntfs)),
{
    let mut files = match listed {
        Some(files) => files,
        None => NameMap::new(),
    };
    match ntfs {
        Some(more) => {
            files.extend(more);
        },
        None => {
            assert(files@ =~= files_of(listed).union_prefer_right(files_of(ntfs)));
        },
    }
    files
}

/// The files of a table, if there is one.
pub open spec fn files_of(files: Option<NameMap<SegmentFile>>) -> Map<Seq<char>, SegmentFile> {
    match files {
        Some(files) => files@,
        None => Map::empty(),
    }
}

/// The path of a packaged file below the directory that it is stored in. Packages write paths with
/// backslashes.
pub fn stored_path(name: &str) -> (path: String)
    ensures
        path@ == replaced(name@, '\\', '/'),
{
    replace_char(name, '\\', '/')
}

/// A license that does not have exactly one key for its content.
#[derive(Clone, Copy, Debug, PartialEq, Eq, Structural)]
pub struct ContentKeyError {
    /// How many it has.
    pub count: usize,
}

impl ContentKeyError {
    /// The error in words.
    pub fn message(&self) -> (out: String)
        ensures
            out@ == "unexpected number of content keys "@ + decimal(self.count as nat),
    {
        let mut out = String::from_str("unexpected number of content keys ");
        out.append(&decimal_text(self.count as u64));
        out
    }
}

/// The one key that a license has for its content.
pub fn single_content_key<K>(keys: Vec<K>) -> (r: Result<K, ContentKeyError>)
    ensures
        keys@.len() == 1 ==> r == Ok::<K, ContentKeyError>(keys@[0]),
        keys@.len() != 1 ==> r == Err::<K, ContentKeyError>(
            ContentKeyError { count: keys@.len() as usize },
        ),
{
    let mut keys = keys;
    if keys.len() != 1 {
        return Err(ContentKeyError { count: keys.len() });
    }
    Ok(keys.remove(0))
}

/// The market that a license is asked for: the one given, or `neutral`.
pub fn license_market(market: Option<String>) -> (out: String)
    ensures
        market matches Some(m) ==> out == m,
        market is None ==> out@ == "neutral"@,
{
    match market {
        Some(market) => market,
        None => String::from_str("neutral"),
    }
}

/// Hashes cover a file exactly if a page of 4096 bytes for each of them holds the file, and one page
/// less would not.
pub proof fn hashes_cover_a_file_page_by_page(file: SegmentFile, r: bool)
    requires
        call_ensures(SegmentFile::hashes_cover_pages, (&file,), r),
    ensures
        r <==> file.length <= 4096 * file.data_hashs@.len() && (file.data_hashs@.len() > 0
            ==> file.length > 4096 * (file.data_hashs@.len() - 1)),
{
}

/// Files have the same hashes exactly if they have as many, and those of each page are the same
/// bytes.
pub proof fn hashes_are_compared_page_by_page(a: SegmentFile, b: SegmentFile, r: bool)
    requires
        call_ensures(same_hashes, (&a, &b), r),
    ensures
        r ==> a.data_hashs@.len() == b.data_hashs@.len(),
        r ==> forall|i: int|
            0 <= i < a.data_hashs@.len() ==> (#[trigger] a.data_hashs@[i])@ == b.data_hashs@[i]@,
        !r ==> a.data_hashs@.len() != b.data_hashs@.len() || exists|i: int|
            0 <= i < a.data_hashs@.len() && (#[trigger] a.data_hashs@[i])@ != b.data_hashs@[i]@,
{
    if r {
        assert forall|i: int| 0 <= i < a.data_hashs@.len() implies (#[trigger] a.data_hashs@[i])@
            == b.data_hashs@[i]@ by {
            assert(a.hashes()[i] == b.hashes()[i]);
        }
    } else if a.data_hashs@.len() == b.data_hashs@.len() && forall|i: int|
        0 <= i < a.data_hashs@.len() ==> (#[trigger] a.data_hashs@[i])@ == b.data_hashs@[i]@ {
        assert(a.hashes() =~= b.hashes());
    }
}

/// Every file of the metadata and of the file system is a file of the package, and no other is. One
/// that the file system holds is as the file system has it; the rest are as they are listed.
pub proof fn a_package_has_the_files_of_both_tables(
    listed: Option<NameMap<SegmentFile>>,
    ntfs: Option<NameMap<SegmentFile>>,
    files: NameMap<SegmentFile>,
    name: Seq<char>,
)
    requires
        call_ensures(all_files, (listed, ntfs), files),
    ensures
        ({
            let in_listed = listed is Some && listed->0@.contains_key(name);
            let in_ntfs = ntfs is Some && ntfs->0@.contains_key(name);
            &&& files@.contains_key(name) <==> in_listed || in_ntfs
            &&& in_ntfs ==> files@[name] == ntfs->0@[name]
            &&& in_listed && !in_ntfs ==> files@[name] == listed->0@[name]
        }),
{
}

/// A file is stored under its own name, in which only the backslashes became slashes.
pub proof fn a_stored_path_differs_in_its_backslashes_only(name: &str, path: String)
    requires
        call_ensures(stored_path, (name,), path),
    ensures
        path@.len() == name@.len(),
        forall|i: int| 0 <= i < name@.len() && name@[i] == '\\' ==> #[trigger] path@[i] == '/',
        forall|i: int|
            0 <= i < name@.len() && name@[i] != '\\' ==> #[trigger] path@[i] == name@[i],
{
}

/// The file system is left unread only on request, and only if the metadata lists some file.
pub proof fn the_file_system_is_skipped_only_for_listed_files(
    try_skip_ntfs: bool,
    listed: NameMap<SegmentFile>,
    r: bool,
)
    requires
        call_ensures(needs_ntfs, (try_skip_ntfs, &listed), r),
    ensures
        !try_skip_ntfs ==> r,
        try_skip_ntfs ==> forall|name: Seq<char>| #[trigger] listed@.contains_key(name) ==> !r,
        try_skip_ntfs && !r ==> exists|name: Seq<char>| #[trigger] listed@.contains_key(name),
{
    if try_skip_ntfs && !r && forall|name: Seq<char>| !#[trigger] listed@.contains_key(name) {
        assert(listed@ =~= Map::<Seq<char>, SegmentFile>::empty());
    }
}

/// Only one user file lists the files of a package.
pub proof fn only_one_user_file_lists_files(name: &str, r: bool)
    requires
        call_ensures(is_segment_metadata, (name,), r),
    ensures
        r <==> name@ == "SegmentMetadata.bin"@,
{
}

/// A file is described by its name, and where it stands comes before how long it is.
pub proof fn a_file_is_described_by_place_and_length(file: SegmentFile, name: &str, out: String)
    requires
        call_ensures(SegmentFile::describe, (&file, name), out),
    ensures
        out@ == name@ + (": "@ + (decimal(file.offset as nat) + (" "@ + decimal(
            file.length as nat,
        )))),
{
    assert(out@ =~= name@ + (": "@ + (decimal(file.offset as nat) + (" "@ + decimal(
        file.length as nat,
    )))));
}

/// The key of a license is the only one that it has; with none, or with several, it is refused with
/// their number.
pub proof fn a_content_has_exactly_one_key<K>(keys: Vec<K>, r: Result<K, ContentKeyError>)
    requires
        call_ensures(single_content_key::<K>, (keys,), r),
    ensures
        r matches Ok(key) ==> keys@ == seq![key],
        r matches Err(e) ==> e.count == keys@.len() && e.count != 1,
{
    assert(keys.len() == keys@.len());
    if keys@.len() == 1 {
        assert(keys@ =~= seq![keys@[0]]);
    }
}

/// A license is asked for in the market that was given, and in the neutral one only without any.
pub proof fn a_given_market_is_kept(market: Option<String>, out: String)
    requires
        call_ensures(license_market, (market,), out),
    ensures
        market is Some ==> out@ == market->0@,
        market is None ==> out@ == "neutral"@,
{
}

} // verus!
