//! Starting an installed game.

use vstd::prelude::*;
use vstd::string::StringExecFns;

use crate::names::NameMap;
use crate::segments::{lemma_filter_places, lemma_filter_push, SegmentFile, PAGE_SIZE};
use crate::text::{
    base_name, base_name_of, lemma_trimmed_end, lemma_trimmed_start, replace_char, replaced, same_text, signed_decimal,
    signed_decimal_text, trim_end, trim_start, trimmed_end, trimmed_start,
};

verus! {

/// Whether the file behind a name has to be decrypted before the game starts.
pub open spec fn is_encrypted(pair: (Seq<char>, SegmentFile)) -> bool {
    pair.1.keep_encrypted
}

/// The names of the files that have to be decrypted before the game starts, in the order in which
/// they are listed.
pub fn encrypted_files(files: &NameMap<SegmentFile>) -> (names: Vec<String>)
    ensures
        names@.map_values(|n: String| n@) == files.pairs().filter(
            |p: (Seq<char>, SegmentFile)| is_encrypted(p),
        ).map_values(|p: (Seq<char>, SegmentFile)| p.0),
{
    let ghost keep = |p: (Seq<char>, SegmentFile)| is_encrypted(p);
    let ghost name_of = |p: (Seq<char>, SegmentFile)| p.0;
    let mut names: Vec<String> = Vec::new();
    let n: usize = files.len();
    let mut i: usize = 0;
    assert(files.pairs().take(0).filter(keep).map_values(name_of) =~= Seq::<Seq<char>>::empty()) by {
        reveal(Seq::filter);
    }
    while i < n
        invariant
            i <= n == files.pairs().len(),
            keep == (|p: (Seq<char>, SegmentFile)| is_encrypted(p)),
            name_of == (|p: (Seq<char>, SegmentFile)| p.0),
            names@.map_values(|n: String| n@) == files.pairs().take(i as int).filter(
                keep,
            ).map_values(name_of),
        decreases n - i,
    {
        let ghost before = files.pairs().take(i as int);
        let ghost pair = files.pairs()[i as int];
        let ghost listed = names@.map_values(|n: String| n@);
        proof {
            assert(files.pairs().take(i + 1) =~= before.push(pair));
            lemma_filter_push(before, pair, keep);
        }
        if files.value_at(i).keep_encrypted {
            names.push(String::from_str(files.name_at(i)));
            assert(names@.map_values(|n: String| n@) =~= listed.push(pair.0));
            assert(before.filter(keep).push(pair).map_values(name_of) =~= before.filter(
                keep,
            ).map_values(name_of).push(pair.0));
        }
        i += 1;
    }
    assert(files.pairs().take(n as int) =~= files.pairs());
    names
}

/// How many bytes a memory disk needs for the encrypted files: each with four pages to spare.
pub open spec fn disk_bytes(pairs: Seq<(Seq<char>, SegmentFile)>) -> int
    decreases pairs.len(),
{
    if pairs.len() == 0 {
        0
    } else {
        disk_bytes(pairs.drop_last()) + if is_encrypted(pairs.last()) {
            pairs.last().1.length + 4 * PAGE_SIZE
        } else {
            0
        }
    }
}

proof fn lemma_disk_bytes_grow(pairs: Seq<(Seq<char>, SegmentFile)>, n: int)
    requires
        0 <= n <= pairs.len(),
    ensures
        0 <= disk_bytes(pairs.take(n)) <= disk_bytes(pairs),
    decreases pairs.len(),
{
    if n == pairs.len() {
        assert(pairs.take(n) =~= pairs);
        if n > 0 {
            lemma_disk_bytes_grow(pairs.drop_last(), n - 1);
            assert(pairs.drop_last().take(n - 1) =~= pairs.drop_last());
        }
    } else {
        lemma_disk_bytes_grow(pairs.drop_last(), n);
        assert(pairs.drop_last().take(n) =~= pairs.take(n));
    }
}

/// The size of the memory disk that holds the decrypted files, in blocks of 256 bytes. There has
/// to be a file to decrypt.
pub fn ram_disk_blocks(files: &NameMap<SegmentFile>) -> (blocks: u64)
    requires
        exists|i: int| 0 <= i < files.pairs().len() && is_encrypted(#[trigger] files.pairs()[i]),
        disk_bytes(files.pairs()) <= u64::MAX,
    ensures
        blocks == (disk_bytes(files.pairs()) + 255) / 256,
{
    let n: usize = files.len();
    let mut size: u64 = 0;
    let mut i: usize = 0;
    while i < n
        invariant
            i <= n == files.pairs().len(),
            disk_bytes(files.pairs()) <= u64::MAX,
            size == disk_bytes(files.pairs().take(i as int)),
        decreases n - i,
    {
        proof {
            lemma_disk_bytes_grow(files.pairs(), i + 1);
            assert(files.pairs().take(i + 1).drop_last() =~= files.pairs().take(i as int));
        }
        let file = files.value_at(i);
        if file.keep_encrypted {
            size = size + (file.length + 4 * PAGE_SIZE);
        }
        i += 1;
    }
    assert(files.pairs().take(n as int) =~= files.pairs());
    let full: u64 = size / 256;
    if size % 256 == 0 {
        full
    } else {
        full + 1
    }
}

/// A decrypted file that the game finds behind an open descriptor.
pub struct MappedFile {
    /// Its name in the package.
    pub name: String,
    /// The descriptor.
    pub fd: i32,
}

/// How the game is started.
#[derive(Clone, Debug)]
pub struct LaunchPlan {
    /// The executable, as Wine names it.
    pub nt_entry: String,
    /// Which descriptor stands for which path.
    pub dll_file_map: String,
}

/// The directory of the game with backslashes, and none at its end.
pub open spec fn nt_prefix(game_dir: Seq<char>) -> Seq<char> {
    trimmed_end(replaced(game_dir, '/', '\\'), '\\')
}

/// The path of a packaged file, as Wine names it.
pub open spec fn nt_path(game_dir: Seq<char>, name: Seq<char>) -> Seq<char> {
    "\\??\\Z:"@ + nt_prefix(game_dir) + "\\"@ + trimmed_start(name, '\\')
}

/// A file is the one that is to be started: it has that name, or its last part is that of the
/// name.
pub open spec fn is_target(name: Seq<char>, target: Seq<char>) -> bool {
    target == name || (base_name(target).len() > 0 && base_name(target) == base_name(name))
}

/// The descriptors with their paths, such as `5:\??\Z:\game\a.exe`, with bars between them.
pub open spec fn file_map(game_dir: Seq<char>, files: Seq<MappedFile>) -> Seq<char>
    decreases files.len(),
{
    if files.len() == 0 {
        Seq::empty()
    } else {
        let last = signed_decimal(files.last().fd as int) + ":"@ + nt_path(
            game_dir,
            files.last().name@,
        );
        if files.len() == 1 {
            last
        } else {
            file_map(game_dir, files.drop_last()).push('|') + last
        }
    }
}

/// The file that is started: the last one that is the target.
pub open spec fn entry_of(files: Seq<MappedFile>, target: Seq<char>) -> Option<MappedFile>
    decreases files.len(),
{
    if files.len() == 0 {
        None
    } else if is_target(files.last().name@, target) {
        Some(files.last())
    } else {
        entry_of(files.drop_last(), target)
    }
}

/// The file that is started is one of those that are mapped; it is the target, and none behind it
/// is. Where no file is started, none is the target.
pub proof fn the_started_file_is_mapped(files: Seq<MappedFile>, target: Seq<char>)
    ensures
        match entry_of(files, target) {
            Some(file) => exists|i: int|
                0 <= i < files.len() && #[trigger] files[i] == file && is_target(file.name@, target)
                    && forall|j: int|
                    i < j < files.len() ==> !is_target(#[trigger] files[j].name@, target),
            None => forall|j: int|
                0 <= j < files.len() ==> !is_target(#[trigger] files[j].name@, target),
        },
    decreases files.len(),
{
    if files.len() > 0 {
        let rest = files.drop_last();
        the_started_file_is_mapped(rest, target);
        if is_target(files.last().name@, target) {
            assert(files[files.len() - 1] == files.last());
        } else {
            match entry_of(rest, target) {
                Some(file) => {
                    let i = choose|i: int|
                        0 <= i < rest.len() && #[trigger] rest[i] == file && is_target(
                            file.name@,
                            target,
                        ) && forall|j: int|
                            i < j < rest.len() ==> !is_target(#[trigger] rest[j].name@, target);
                    assert(files[i] == file);
                    assert forall|j: int| i < j < files.len() implies !is_target(
                        #[trigger] files[j].name@,
                        target,
                    ) by {
                        if j < rest.len() {
                            assert(rest[j] == files[j]);
                        }
                    }
                },
                None => {
                    assert forall|j: int| 0 <= j < files.len() implies !is_target(
                        #[trigger] files[j].name@,
                        target,
                    ) by {
                        if j < rest.len() {
                            assert(rest[j] == files[j]);
                        }
                    }
                },
            }
        }
    }
}

/// A target that no file is.
pub struct NoSuchExecutable {
    pub target: String,
}

impl NoSuchExecutable {
    /// The error in words.
    pub fn message(&self) -> (out: String)
        ensures
            out@ == "Could not find .exe matching '"@ + self.target@ + "'"@,
    {
        let mut out = String::from_str("Could not find .exe matching '");
        out.append(&self.target);
        out.append("'");
        out
    }
}

fn nt_path_of(prefix: &str, name: &str) -> (out: String)
    ensures
        out@ == "\\??\\Z:"@ + prefix@ + "\\"@ + trimmed_start(name@, '\\'),
{
    let mut out = String::from_str("\\??\\Z:");
    out.append(prefix);
    out.append("\\");
    out.append(&trim_start(name, '\\'));
    out
}

/// Plans the start of a game in `game_dir`: which of its decrypted files is started, and which
/// descriptor stands for which path.
pub fn plan_launch(game_dir: &str, target: &str, files: &Vec<MappedFile>) -> (r: Result<
    LaunchPlan,
    NoSuchExecutable,
>)
    ensures
        match entry_of(files@, target@) {
            Some(file) => r matches Ok(plan) && plan.nt_entry@ == nt_path(game_dir@, file.name@)
                && plan.dll_file_map@ == file_map(game_dir@, files@),
            None => r matches Err(e) && e.target@ == target@,
        },
{
    let prefix = trim_end(&replace_char(game_dir, '/', '\\'), '\\');
    let target_base = base_name_of(target);
    let has_base = !same_text(&target_base, "");
    proof {
        reveal_strlit("");
        assert(""@ =~= Seq::<char>::empty());
        if target_base@.len() == 0 {
            assert(target_base@ =~= ""@);
        }
    }
    let mut map = String::new();
    let mut entry: Option<String> = None;
    let mut i: usize = 0;
    while i < files.len()
        invariant
            i <= files@.len(),
            prefix@ == nt_prefix(game_dir@),
            target_base@ == base_name(target@),
            has_base == (base_name(target@).len() > 0),
            map@ == file_map(game_dir@, files@.take(i as int)),
            match entry_of(files@.take(i as int), target@) {
                Some(file) => entry matches Some(path) && path@ == nt_path(game_dir@, file.name@),
                None => entry is None,
            },
        decreases files@.len() - i,
    {
        let file = &files[i];
        assert(files@.take(i + 1).drop_last() =~= files@.take(i as int));
        if i > 0 {
            map.push('|');
        }
        let path = nt_path_of(&prefix, &file.name);
        if same_text(target, &file.name) || (has_base && same_text(
            &target_base,
            &base_name_of(&file.name),
        )) {
            entry = Some(nt_path_of(&prefix, &file.name));
        }
        let ghost head = map@;
        map.append(&signed_decimal_text(file.fd));
        map.append(":");
        map.append(&path);
        assert(map@ =~= head + (signed_decimal(file.fd as int) + ":"@ + nt_path(
            game_dir@,
            file.name@,
        )));
        assert(map@ =~= file_map(game_dir@, files@.take(i + 1)));
        i += 1;
    }
    assert(files@.take(files@.len() as int) =~= files@);
    match entry {
        Some(nt_entry) => Ok(LaunchPlan { nt_entry, dll_file_map: map }),
        None => Err(NoSuchExecutable { target: String::from_str(target) }),
    }
}

/// The exit code that a game's own exit code amounts to: its low eight bits, and zero where a
/// signal ended the game.
pub fn exit_code(code: Option<i32>) -> (r: u8)
    ensures
        r == match code {
            Some(c) => c as int % 256,
            None => 0,
        },
{
    match code {
        Some(c) => {
            let low: i32 = c % 256;
            if low < 0 {
                (low + 256) as u8
            } else {
                low as u8
            }
        },
        None => 0,
    }
}

proof fn lemma_encrypted_places(pairs: Seq<(Seq<char>, SegmentFile)>) -> (at: Seq<int>)
    ensures
        at.len() == pairs.filter(|p: (Seq<char>, SegmentFile)| is_encrypted(p)).len(),
        forall|k: int, l: int| #![trigger at[k], at[l]] 0 <= k < l < at.len() ==> at[k] < at[l],
        forall|k: int|
            0 <= k < at.len() ==> 0 <= #[trigger] at[k] < pairs.len() && pairs.filter(
                |p: (Seq<char>, SegmentFile)| is_encrypted(p),
            )[k] == pairs[at[k]],
        forall|i: int|
            0 <= i < pairs.len() ==> (#[trigger] at.contains(i) <==> is_encrypted(pairs[i])),
{
    let keep = |p: (Seq<char>, SegmentFile)| is_encrypted(p);
    let at = lemma_filter_places(pairs, keep);
    assert forall|i: int| 0 <= i < pairs.len() implies (#[trigger] at.contains(i) <==> is_encrypted(
        pairs[i],
    )) by {
        assert(at.contains(i) <==> keep(pairs[i]));
    }
    at
}

/// What has to be decrypted are the files that were stored encrypted, each of them and no other, in
/// the order in which they are listed: at the places `at` that come back.
pub proof fn the_files_stored_encrypted_are_decrypted(
    files: NameMap<SegmentFile>,
    names: Vec<String>,
) -> (at: Seq<int>)
    requires
        call_ensures(encrypted_files, (&files,), names),
    ensures
        at.len() == names@.len(),
        forall|k: int, l: int| #![trigger at[k], at[l]] 0 <= k < l < at.len() ==> at[k] < at[l],
        forall|k: int|
            0 <= k < names@.len() ==> 0 <= at[k] < files.pairs().len() && (#[trigger] names@[k])@
                == files.pairs()[at[k]].0,
        forall|i: int|
            0 <= i < files.pairs().len() ==> (#[trigger] at.contains(i)
                <==> files.pairs()[i].1.keep_encrypted),
{
    let pairs = files.pairs();
    let at = lemma_encrypted_places(pairs);
    let views = names@.map_values(|n: String| n@);
    let kept = pairs.filter(|p: (Seq<char>, SegmentFile)| is_encrypted(p));
    assert(views == kept.map_values(|p: (Seq<char>, SegmentFile)| p.0));
    assert(views.len() == kept.len());
    assert forall|k: int| 0 <= k < names@.len() implies 0 <= at[k] < files.pairs().len() && (
    #[trigger] names@[k])@ == files.pairs()[at[k]].0 by {
        assert(views[k] == names@[k]@);
        assert(0 <= at[k] < pairs.len());
    }
    at
}

/// The room on a memory disk is counted file by file: none without files, nothing for a file that is
/// stored as it is, and for one that is stored encrypted its length and four pages of 4096 bytes.
pub proof fn the_disk_has_room_for_each_encrypted_file(
    files: Seq<(Seq<char>, SegmentFile)>,
    name: Seq<char>,
    file: SegmentFile,
)
    ensures
        disk_bytes(Seq::empty()) == 0,
        !file.keep_encrypted ==> disk_bytes(files.push((name, file))) == disk_bytes(files),
        file.keep_encrypted ==> disk_bytes(files.push((name, file))) == disk_bytes(files)
            + file.length + 16384,
{
    assert(files.push((name, file)).drop_last() =~= files);
}

/// The blocks of 256 bytes that a memory disk gets hold what it needs, and one block less would not.
pub proof fn the_disk_has_no_block_to_spare(files: NameMap<SegmentFile>, blocks: u64)
    requires
        call_ensures(ram_disk_blocks, (&files,), blocks),
    ensures
        256 * blocks - 256 < disk_bytes(files.pairs()) <= 256 * blocks,
{
}

/// A path as Wine names it is the directory of the game on drive Z and the name of the file, with one
/// backslash between them: the directory with backslashes for its slashes and none at its end, the
/// name without backslashes at its start. Both come back.
pub proof fn a_path_for_wine_is_directory_and_name(game_dir: Seq<char>, name: Seq<char>) -> (parts: (
    Seq<char>,
    Seq<char>,
))
    ensures
        nt_path(game_dir, name) == "\\??\\Z:"@ + parts.0 + seq!['\\'] + parts.1,
        parts.0.len() <= game_dir.len(),
        forall|i: int|
            0 <= i < parts.0.len() && game_dir[i] == '/' ==> #[trigger] parts.0[i] == '\\',
        forall|i: int|
            0 <= i < parts.0.len() && game_dir[i] != '/' ==> #[trigger] parts.0[i] == game_dir[i],
        parts.0.len() > 0 ==> parts.0.last() != '\\',
        forall|i: int|
            parts.0.len() <= i < game_dir.len() ==> #[trigger] game_dir[i] == '/' || game_dir[i]
                == '\\',
        parts.1.len() <= name.len(),
        name.skip(name.len() - parts.1.len()) == parts.1,
        forall|i: int| 0 <= i < name.len() - parts.1.len() ==> #[trigger] name[i] == '\\',
        parts.1.len() > 0 ==> parts.1[0] != '\\',
{
    let turned = replaced(game_dir, '/', '\\');
    let dir = nt_prefix(game_dir);
    let rest = trimmed_start(name, '\\');
    lemma_trimmed_end(turned, '\\');
    lemma_trimmed_start(name, '\\');
    reveal_strlit("\\");
    assert("\\"@ =~= seq!['\\']);
    assert forall|i: int| 0 <= i < dir.len() implies #[trigger] dir[i] == turned[i] by {
        assert(turned.take(dir.len() as int)[i] == turned[i]);
    }
    assert forall|i: int| dir.len() <= i < game_dir.len() implies #[trigger] game_dir[i] == '/'
        || game_dir[i] == '\\' by {
        assert(turned[i] == '\\');
    }
    (dir, rest)
}

/// A game is started with the last of its files that is the target, by its whole name or by the name
/// that its path ends with. There is no start exactly if no file is, and then the target is told.
pub proof fn the_last_file_that_is_the_target_is_started(
    game_dir: &str,
    target: &str,
    files: Vec<MappedFile>,
    r: Result<LaunchPlan, NoSuchExecutable>,
) -> (started: int)
    requires
        call_ensures(plan_launch, (game_dir, target, &files), r),
    ensures
        r matches Ok(plan) ==> {
            let name = files@[started].name@;
            &&& 0 <= started < files@.len()
            &&& name == target@ || (base_name(name).len() > 0 && base_name(name) == base_name(
                target@,
            ))
            &&& plan.nt_entry@ == nt_path(game_dir@, name)
            &&& forall|j: int|
                started < j < files@.len() ==> (#[trigger] files@[j]).name@ != target@ && (base_name(
                    files@[j].name@,
                ).len() > 0 ==> base_name(files@[j].name@) != base_name(target@))
        },
        r matches Err(e) ==> e.target@ == target@ && forall|j: int|
            0 <= j < files@.len() ==> (#[trigger] files@[j]).name@ != target@ && (base_name(
                files@[j].name@,
            ).len() > 0 ==> base_name(files@[j].name@) != base_name(target@)),
{
    the_started_file_is_mapped(files@, target@);
    assert forall|j: int|
        0 <= j < files@.len() && !is_target((#[trigger] files@[j]).name@, target@) implies files@[j].name@
        != target@ && (base_name(files@[j].name@).len() > 0 ==> base_name(files@[j].name@)
        != base_name(target@)) by {}
    match entry_of(files@, target@) {
        Some(file) => {
            let i = choose|i: int|
                0 <= i < files@.len() && #[trigger] files@[i] == file && is_target(
                    file.name@,
                    target@,
                ) && forall|j: int|
                    i < j < files@.len() ==> !is_target(#[trigger] files@[j].name@, target@);
            assert forall|j: int| i < j < files@.len() implies (#[trigger] files@[j]).name@
                != target@ && (base_name(files@[j].name@).len() > 0 ==> base_name(files@[j].name@)
                != base_name(target@)) by {
                assert(!is_target(files@[j].name@, target@));
            }
            i
        },
        None => {
            assert forall|j: int| 0 <= j < files@.len() implies (#[trigger] files@[j]).name@
                != target@ && (base_name(files@[j].name@).len() > 0 ==> base_name(files@[j].name@)
                != base_name(target@)) by {
                assert(!is_target(files@[j].name@, target@));
            }
            0
        },
    }
}

/// The map of descriptors is made file by file: a file alone is its descriptor, a colon and its path,
/// and what is mapped of further files stands behind a bar.
pub proof fn descriptors_are_mapped_file_by_file(
    game_dir: Seq<char>,
    file: MappedFile,
    files: Seq<MappedFile>,
    more: Seq<MappedFile>,
)
    requires
        files.len() > 0,
        more.len() > 0,
    ensures
        file_map(game_dir, Seq::empty()).len() == 0,
        file_map(game_dir, seq![file]) == signed_decimal(file.fd as int) + seq![':'] + nt_path(
            game_dir,
            file.name@,
        ),
        file_map(game_dir, files + more) == file_map(game_dir, files) + seq!['|'] + file_map(
            game_dir,
            more,
        ),
    decreases more.len(),
{
    reveal_strlit(":");
    assert(":"@ =~= seq![':']);
    assert((files + more).drop_last() =~= files + more.drop_last());
    if more.len() == 1 {
        assert(files + more.drop_last() =~= files);
    } else {
        descriptors_are_mapped_file_by_file(game_dir, file, files, more.drop_last());
    }
    assert(file_map(game_dir, files + more) =~= file_map(game_dir, files) + seq!['|'] + file_map(
        game_dir,
        more,
    ));
}

/// A plan maps every file that it was given.
pub proof fn a_launch_maps_all_files(
    game_dir: &str,
    target: &str,
    files: Vec<MappedFile>,
    plan: LaunchPlan,
)
    requires
        call_ensures(plan_launch, (game_dir, target, &files), Ok(plan)),
    ensures
        plan.dll_file_map@ == file_map(game_dir@, files@),
{
}

/// The exit code keeps the low eight bits of that of the game.
pub proof fn an_exit_code_keeps_the_low_bits(code: Option<i32>, r: u8)
    requires
        call_ensures(exit_code, (code,), r),
    ensures
        code is Some ==> (code->0 - r) % 256 == 0,
        code is None ==> r == 0,
{
}

/// A target that no file is, is told by its name.
pub proof fn a_missing_executable_is_told_by_name(error: NoSuchExecutable, words: String)
    requires
        call_ensures(NoSuchExecutable::message, (&error,), words),
    ensures
        words@ == "Could not find .exe matching '"@ + (error.target@ + "'"@),
{
    assert(words@ =~= "Could not find .exe matching '"@ + (error.target@ + "'"@));
}

} // verus!
