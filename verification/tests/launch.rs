use xodus::launch::{encrypted_files, exit_code, plan_launch, ram_disk_blocks, MappedFile};
use xodus::names::NameMap;
use xodus::segments::SegmentFile;

fn file(length: u64, keep_encrypted: bool) -> SegmentFile {
    SegmentFile {
        offset: 0,
        length,
        data_hashs: vec![],
        keep_encrypted,
    }
}

fn mapped(files: &[(&str, i32)]) -> Vec<MappedFile> {
    files
        .iter()
        .map(|(name, fd)| MappedFile {
            name: name.to_string(),
            fd: *fd,
        })
        .collect()
}

#[test]
fn a_game_is_started_by_its_nt_path() {
    let files = mapped(&[("\\bin\\Game.exe", 5), ("lib.dll", 12)]);
    let plan = plan_launch("/home/u/game/", "\\bin\\Game.exe", &files)
        .ok()
        .unwrap();
    assert_eq!(plan.nt_entry, "\\??\\Z:\\home\\u\\game\\bin\\Game.exe");
    assert_eq!(
        plan.dll_file_map,
        "5:\\??\\Z:\\home\\u\\game\\bin\\Game.exe|12:\\??\\Z:\\home\\u\\game\\lib.dll"
    );
}

#[test]
fn a_target_is_matched_by_its_last_part_too() {
    let files = mapped(&[("Game.exe", 5)]);
    let plan = plan_launch("/g", "somewhere/Game.exe", &files).ok().unwrap();
    assert_eq!(plan.nt_entry, "\\??\\Z:\\g\\Game.exe");
}

#[test]
fn the_last_file_that_matches_is_started() {
    let files = mapped(&[("a/Game.exe", 5), ("b/Game.exe", 6), ("other", 7)]);
    let plan = plan_launch("/g", "Game.exe", &files).ok().unwrap();
    assert_eq!(plan.nt_entry, "\\??\\Z:\\g\\b/Game.exe");
}

#[test]
fn a_target_that_no_file_is_cannot_be_started() {
    let files = mapped(&[("Game.exe", 5), ("x/..", 6)]);
    let err = plan_launch("/g", "Other.exe", &files).err().unwrap();
    assert_eq!(err.message(), "Could not find .exe matching 'Other.exe'");
    // Neither ends with a name, so their last parts are not compared.
    assert!(plan_launch("/g", "y/..", &files).is_err());
    assert!(plan_launch("/g", "Game.exe", &vec![]).is_err());
}

#[test]
fn only_encrypted_files_are_mapped() {
    let mut files = NameMap::new();
    files.insert("a".to_string(), file(1, true));
    files.insert("b".to_string(), file(2, false));
    files.insert("c".to_string(), file(3, true));
    assert_eq!(encrypted_files(&files), vec!["a", "c"]);
}

#[test]
fn a_memory_disk_has_room_for_the_encrypted_files() {
    let mut files = NameMap::new();
    files.insert("a".to_string(), file(1, true));
    files.insert("b".to_string(), file(1_000_000, false));
    // One byte and four pages, in blocks of 256 bytes.
    assert_eq!(ram_disk_blocks(&files), 65);
    files.insert("c".to_string(), file(255, true));
    assert_eq!(ram_disk_blocks(&files), 129);
}

#[test]
fn an_exit_code_keeps_its_low_bits() {
    assert_eq!(exit_code(Some(0)), 0);
    assert_eq!(exit_code(Some(3)), 3);
    assert_eq!(exit_code(Some(256)), 0);
    assert_eq!(exit_code(Some(-1)), 255);
    assert_eq!(exit_code(Some(i32::MIN)), 0);
    assert_eq!(exit_code(Some(-255)), 1);
    assert_eq!(exit_code(None), 0);
}
