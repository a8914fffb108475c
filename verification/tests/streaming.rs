use xodus::names::NameMap;
use xodus::progress::{progress_line, ProgressBoard, ProgressEvent, ProgressMeter, RESUMED_ID};
use xodus::segments::{
    all_files, is_segment_metadata, license_market, needs_ntfs, same_hashes, single_content_key,
    stored_path, SegmentFile,
};
use xodus::streaming::{
    already_have, concurrency, opening_events, plan_jobs, plan_update, show_name, start_job,
    update_size, JobStart, SpaceError,
};

fn file(length: u64, hashes: &[u8]) -> SegmentFile {
    SegmentFile {
        offset: 7,
        length,
        data_hashs: hashes.iter().map(|h| vec![*h]).collect(),
        keep_encrypted: true,
    }
}

fn files(list: &[(&str, u64, &[u8])]) -> NameMap<SegmentFile> {
    let mut map = NameMap::new();
    for (name, length, hashes) in list {
        map.insert(name.to_string(), file(*length, hashes));
    }
    map
}

#[test]
fn only_outdated_files_are_fetched() {
    let remote = files(&[
        ("same", 1, &[1]),
        ("changed", 2, &[1]),
        ("unknown", 4, &[]),
        ("new", 8, &[1]),
    ]);
    let local = files(&[
        ("same", 1, &[1]),
        ("changed", 2, &[2]),
        ("unknown", 4, &[]),
        ("gone", 16, &[1]),
    ]);
    let jobs = plan_jobs(&remote, &local);
    let names: Vec<&str> = jobs.iter().map(|j| j.name.as_str()).collect();
    assert_eq!(names, vec!["changed", "unknown", "new"]);
    assert_eq!(jobs[0].content.length, 2);
    assert_eq!(jobs[0].content.offset, 7);
    assert!(jobs[0].content.keep_encrypted);
    assert!(jobs[0].content.data_hashs.is_empty());
    assert_eq!(update_size(&remote, &local), Some(14));
}

#[test]
fn an_up_to_date_game_has_no_jobs() {
    let remote = files(&[("a", 1, &[1]), ("b", 2, &[2, 3])]);
    assert!(plan_jobs(&remote, &remote).is_empty());
    assert_eq!(update_size(&remote, &remote), Some(0));
    let huge = files(&[("a", u64::MAX, &[1]), ("b", 1, &[1])]);
    assert_eq!(update_size(&huge, &files(&[])), None);
}

#[test]
fn an_update_needs_room() {
    let remote = files(&[("a", 10, &[1])]);
    let local = files(&[]);
    let plan = plan_update(&remote, &local, Ok(10)).ok().unwrap();
    assert_eq!(plan.total_size, 10);
    assert_eq!(plan.jobs.len(), 1);
    let err = plan_update(&remote, &local, Ok(9)).err().unwrap();
    assert!(matches!(
        err,
        SpaceError::NotEnough {
            required: 10,
            available: 9
        }
    ));
    assert_eq!(
        err.message("/g"),
        "not enough free disk space on /g: need 10 bytes, have 9 bytes (files: 10)"
    );
    let err = plan_update(&remote, &local, Err("why".to_string()))
        .err()
        .unwrap();
    assert_eq!(
        err.message("/g"),
        "failed to determine available space for /g: why"
    );
}

#[test]
fn a_job_goes_on_before_the_last_whole_page() {
    let start = |existing: Option<u64>| start_job(existing, 20_000, false);
    assert_eq!(
        start(None),
        JobStart {
            resume_bytes: 0,
            truncate: true,
            reported: 0
        }
    );
    assert_eq!(start(Some(4095)).resume_bytes, 0);
    assert_eq!(start(Some(4096)).resume_bytes, 0);
    assert_eq!(start(Some(8191)).resume_bytes, 0);
    assert_eq!(
        start(Some(8192)),
        JobStart {
            resume_bytes: 4096,
            truncate: false,
            reported: 4096
        }
    );
    assert_eq!(start(Some(12_287)).resume_bytes, 4096);
    assert_eq!(start(Some(u64::MAX)).reported, 20_000);
    assert_eq!(start_job(Some(100_000), 20_000, true).resume_bytes, 0);
    assert!(start_job(Some(100_000), 20_000, true).truncate);
}

#[test]
fn what_was_fetched_counts_once() {
    let remote = files(&[("a", 20_000, &[1]), ("b", 5_000, &[1]), ("c", 1, &[1])]);
    let plan = plan_update(&remote, &files(&[]), Ok(u64::MAX)).ok().unwrap();
    let existing = vec![Some(8192), Some(1_000_000), None];
    assert_eq!(already_have(&plan.jobs, &existing), 4096 + 5_000);

    let mut board = ProgressBoard::new(99);
    for event in opening_events(&plan, &existing, false) {
        board.apply(event, 0);
    }
    assert_eq!(board.message(), "Downloading");
    assert_eq!(board.length(), 25_001);
    assert_eq!(board.position(), 9_096);
    let mut left = 0;
    for (job, existing) in plan.jobs.iter().zip(&existing) {
        left += job.content.length - start_job(*existing, job.content.length, false).reported;
    }
    assert_eq!(board.position() + left, board.length());

    assert_eq!(opening_events(&plan, &existing, true).len(), 1);
    let nothing = vec![None, None, None];
    assert_eq!(opening_events(&plan, &nothing, false).len(), 1);
    assert!(matches!(
        opening_events(&plan, &existing, false)[1],
        ProgressEvent::Advanced {
            id: RESUMED_ID,
            delta: 9_096
        }
    ));
}

#[test]
fn a_step_that_could_not_be_told_is_part_of_the_next() {
    let mut meter = ProgressMeter::new(4096);
    assert_eq!(meter.delta(5000), 904);
    meter.note(5000, true);
    assert_eq!(meter.delta(6000), 1000);
    meter.note(6000, false);
    assert_eq!(meter.delta(7000), 2000);
    meter.note(7000, true);
    assert_eq!(meter.told, 7000);
}

#[test]
fn a_board_follows_jobs_and_total() {
    let mut board = ProgressBoard::new(100);
    assert_eq!(board.message(), "Initializing");
    let started = |id: usize| ProgressEvent::Started {
        id,
        name: format!("job {id}"),
        total: 50,
    };
    assert_eq!(board.apply(started(1), 1000), None);
    assert_eq!(board.apply(started(2), 1000), None);
    assert_eq!(
        board.apply(ProgressEvent::Advanced { id: 1, delta: 5 }, 200),
        None
    );
    assert_eq!(
        board.apply(ProgressEvent::Advanced { id: 9, delta: 6 }, 201),
        Some((11, 100))
    );
    assert_eq!(board.bar(1).unwrap().position, 5);
    assert_eq!(board.bar(1).unwrap().name, "job 1");
    assert_eq!(board.bar(2).unwrap().position, 0);
    assert_eq!(board.bar(2).unwrap().total, 50);
    assert!(board.bar(9).is_none());
    board.apply(ProgressEvent::Finished { id: 1 }, 0);
    assert!(board.bar(1).is_none());
    assert!(board.bar(2).is_some());
    board.apply(
        ProgressEvent::UpdateRemaining {
            name: "Downloading".to_string(),
            total: 30,
        },
        0,
    );
    assert_eq!(board.length(), 41);
    board.apply(
        ProgressEvent::UpdateStatus {
            name: "Downloading ntfs...".to_string(),
        },
        0,
    );
    assert_eq!(board.message(), "Downloading ntfs...");
    assert_eq!(board.position(), 11);
}

#[test]
fn progress_is_printed_for_other_programs() {
    assert_eq!(
        progress_line(11, 41, 26, 1000),
        "HEROIC_PROGRESS 11/41 26% 1000"
    );
}

#[test]
fn long_names_are_shown_by_their_end() {
    assert_eq!(show_name("short"), "short");
    let thirty = "a".repeat(30);
    assert_eq!(show_name(&thirty), thirty);
    let long = format!("dropped{}", "b".repeat(27));
    assert_eq!(show_name(&long), format!("...{}", "b".repeat(27)));
    let wide = format!("{}{}", "ä".repeat(10), "é".repeat(13) + "x");
    assert_eq!(show_name(&wide), format!("...{}x", "é".repeat(13)));
}

#[test]
fn four_jobs_run_at_a_time_unless_told_otherwise() {
    assert_eq!(concurrency(None), 4);
    assert_eq!(concurrency(Some(0)), 0);
    assert_eq!(concurrency(Some(9)), 9);
}

#[test]
fn the_files_of_a_package_come_from_metadata_and_file_system() {
    let listed = files(&[("a", 1, &[1]), ("b", 2, &[1])]);
    let ntfs = files(&[("b", 3, &[1]), ("c", 4, &[1])]);
    let all = all_files(Some(listed), Some(ntfs));
    assert_eq!(all.len(), 3);
    assert_eq!(all.get("b").unwrap().length, 3);
    assert!(all_files(None, None).is_empty());
    assert!(is_segment_metadata("SegmentMetadata.bin"));
    assert!(!is_segment_metadata("segmentmetadata.bin"));
    assert!(needs_ntfs(false, &all));
    assert!(!needs_ntfs(true, &all));
    assert!(needs_ntfs(true, &files(&[])));
}

#[test]
fn hashes_cover_every_page() {
    assert!(file(0, &[]).hashes_cover_pages());
    assert!(file(1, &[1]).hashes_cover_pages());
    assert!(file(4096, &[1]).hashes_cover_pages());
    assert!(!file(4097, &[1]).hashes_cover_pages());
    assert!(file(4097, &[1, 2]).hashes_cover_pages());
    assert!(!file(u64::MAX, &[1]).hashes_cover_pages());
    assert_eq!(file(5, &[]).describe("x"), "x: 7 5");
    assert!(same_hashes(&file(1, &[1, 2]), &file(9, &[1, 2])));
    assert!(!same_hashes(&file(1, &[1, 2]), &file(1, &[1, 3])));
    assert!(!same_hashes(&file(1, &[1, 2]), &file(1, &[1])));
}

#[test]
fn a_license_has_one_content_key() {
    assert_eq!(single_content_key(vec!["k"]).unwrap(), "k");
    assert_eq!(
        single_content_key::<u8>(vec![]).unwrap_err().message(),
        "unexpected number of content keys 0"
    );
    assert_eq!(single_content_key(vec![1, 2]).unwrap_err().count, 2);
    assert_eq!(license_market(None), "neutral");
    assert_eq!(license_market(Some("US".to_string())), "US");
    assert_eq!(stored_path("a\\b/c"), "a/b/c");
}

#[test]
fn positions_are_sums_of_steps() {
    let mut board = ProgressBoard::new(0);
    let started = |id: usize, total: u64| ProgressEvent::Started {
        id,
        name: format!("job {id}"),
        total,
    };
    let advanced = |id: usize, delta: u64| ProgressEvent::Advanced { id, delta };
    let events = vec![
        advanced(RESUMED_ID, 100),
        started(1, 10),
        advanced(1, 3),
        started(2, 20),
        advanced(2, 4),
        ProgressEvent::UpdateRemaining {
            name: "Downloading".to_string(),
            total: 23,
        },
        advanced(1, 5),
        ProgressEvent::Finished { id: 7 },
        advanced(7, 1_000),
        started(2, 21),
        advanced(2, 6),
        ProgressEvent::UpdateStatus {
            name: "Checking".to_string(),
        },
        advanced(2, 7),
    ];
    for event in events {
        board.apply(event, 0);
    }
    assert_eq!(board.position(), 100 + 3 + 4 + 5 + 1_000 + 6 + 7);
    assert_eq!(board.length(), 100 + 3 + 4 + 23);
    assert_eq!(board.bar(1).unwrap().position, 3 + 5);
    assert_eq!(board.bar(2).unwrap().position, 6 + 7);
    assert_eq!(board.bar(2).unwrap().total, 21);
    assert!(board.bar(7).is_none());

    board.apply(ProgressEvent::Finished { id: 7 }, 0);
    assert_eq!(board.position(), 1_125);
    assert_eq!(board.bar(1).unwrap().position, 8);
    board.apply(ProgressEvent::Finished { id: 1 }, 0);
    board.apply(advanced(1, 9), 0);
    assert!(board.bar(1).is_none());
    assert_eq!(board.position(), 1_134);
}
