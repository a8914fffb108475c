//! Bringing an installed game up to date from a package.

use vstd::pervasive::unreached;
use vstd::prelude::*;
use vstd::string::StringExecFns;
use vstd::utf8::*;

use crate::names::NameMap;
use crate::progress::{BoardView, ProgressEvent, RESUMED_ID};
use crate::segments::{
    lemma_filter_places, lemma_filter_push, same_hashes, SegmentFile, PAGE_SIZE,
};
use crate::text::{decimal, decimal_text, text_from_utf8};

verus! {

/// A file that has to be fetched.
pub struct Job {
    pub name: String,
    pub content: SegmentFile,
}

/// A `Job` by its characters. The hashes of the file do not belong to it.
pub struct JobView {
    pub name: Seq<char>,
    pub offset: u64,
    pub length: u64,
    pub keep_encrypted: bool,
}

impl View for Job {
    type V = JobView;

    open spec fn view(&self) -> JobView {
        JobView {
            name: self.name@,
            offset: self.content.offset,
            length: self.content.length,
            keep_encrypted: self.content.keep_encrypted,
        }
    }
}

/// A file of the package has to be fetched: it is not installed, or it is installed with other
/// hashes, or there are no hashes to tell.
pub open spec fn is_outdated(
    pair: (Seq<char>, SegmentFile),
    local: Map<Seq<char>, SegmentFile>,
) -> bool {
    local.contains_key(pair.0) ==> pair.1.hashes() != local[pair.0].hashes() || pair.1.hashes().len()
        == 0
}

/// The jobs that fetch the outdated files, in the order in which the package lists them.
pub open spec fn jobs_for(
    remote: Seq<(Seq<char>, SegmentFile)>,
    local: Map<Seq<char>, SegmentFile>,
) -> Seq<JobView> {
    remote.filter(|p: (Seq<char>, SegmentFile)| is_outdated(p, local)).map_values(
        |p: (Seq<char>, SegmentFile)| job_of(p),
    )
}

/// The job that fetches a file.
pub open spec fn job_of(pair: (Seq<char>, SegmentFile)) -> JobView {
    JobView {
        name: pair.0,
        offset: pair.1.offset,
        length: pair.1.length,
        keep_encrypted: pair.1.keep_encrypted,
    }
}

fn outdated(name: &str, file: &SegmentFile, local: &NameMap<SegmentFile>) -> (r: bool)
    ensures
        r == is_outdated((name@, *file), local@),
{
    match local.get(name) {
        Some(installed) => !same_hashes(file, installed) || file.data_hashs.len() == 0,
        None => true,
    }
}

proof fn lemma_jobs_push(
    remote: Seq<(Seq<char>, SegmentFile)>,
    i: int,
    local: Map<Seq<char>, SegmentFile>,
)
    requires
        0 <= i < remote.len(),
    ensures
        jobs_for(remote.take(i + 1), local) == if is_outdated(remote[i], local) {
            jobs_for(remote.take(i), local).push(job_of(remote[i]))
        } else {
            jobs_for(remote.take(i), local)
        },
{
    let keep = |p: (Seq<char>, SegmentFile)| is_outdated(p, local);
    let f = |p: (Seq<char>, SegmentFile)| job_of(p);
    assert(remote.take(i + 1) =~= remote.take(i).push(remote[i]));
    lemma_filter_push(remote.take(i), remote[i], keep);
    assert(remote.take(i).filter(keep).push(remote[i]).map_values(f) =~= remote.take(i).filter(
        keep,
    ).map_values(f).push(job_of(remote[i])));
}

/// Lists the jobs that bring what is installed up to date.
pub fn plan_jobs(remote: &NameMap<SegmentFile>, local: &NameMap<SegmentFile>) -> (jobs: Vec<Job>)
    ensures
        jobs@.map_values(|j: Job| j@) == jobs_for(remote.pairs(), local@),
        forall|i: int| 0 <= i < jobs@.len() ==> (#[trigger] jobs@[i]).content.hashes().len() == 0,
{
    let mut jobs: Vec<Job> = Vec::new();
    let n: usize = remote.len();
    let mut i: usize = 0;
    assert(jobs@.map_values(|j: Job| j@) =~= jobs_for(remote.pairs().take(0), local@)) by {
        reveal(Seq::filter);
    }
    while i < n
        invariant
            i <= n == remote.pairs().len(),
            jobs@.map_values(|j: Job| j@) == jobs_for(remote.pairs().take(i as int), local@),
            forall|k: int|
                0 <= k < jobs@.len() ==> (#[trigger] jobs@[k]).content.hashes().len() == 0,
        decreases n - i,
    {
        proof {
            lemma_jobs_push(remote.pairs(), i as int, local@);
        }
        let name = remote.name_at(i);
        let file = remote.value_at(i);
        let ghost listed = jobs@.map_values(|j: Job| j@);
        if outdated(name, file, local) {
            let content = SegmentFile {
                offset: file.offset,
                length: file.length,
                data_hashs: Vec::new(),
                keep_encrypted: file.keep_encrypted,
            };
            let job = Job { name: String::from_str(name), content };
            let ghost view = job@;
            jobs.push(job);
            assert(jobs@.map_values(|j: Job| j@) =~= listed.push(view));
        }
        i += 1;
    }
    assert(remote.pairs().take(n as int) =~= remote.pairs());
    jobs
}

/// How many bytes the jobs fetch.
pub open spec fn jobs_size(jobs: Seq<JobView>) -> int
    decreases jobs.len(),
{
    if jobs.len() == 0 {
        0
    } else {
        jobs_size(jobs.drop_last()) + jobs.last().length
    }
}

proof fn lemma_jobs_size_grows(jobs: Seq<JobView>, n: int)
    requires
        0 <= n <= jobs.len(),
    ensures
        0 <= jobs_size(jobs.take(n)) <= jobs_size(jobs),
    decreases jobs.len(),
{
    if n == jobs.len() {
        assert(jobs.take(n) =~= jobs);
        if n > 0 {
            lemma_jobs_size_grows(jobs.drop_last(), n - 1);
            assert(jobs.drop_last().take(n - 1) =~= jobs.drop_last());
        }
    } else {
        lemma_jobs_size_grows(jobs.drop_last(), n);
        assert(jobs.drop_last().take(n) =~= jobs.take(n));
    }
}

/// How many bytes have to be fetched to bring what is installed up to date; nothing, if they are
/// more than 64 bits can count.
pub fn update_size(remote: &NameMap<SegmentFile>, local: &NameMap<SegmentFile>) -> (r: Option<u64>)
    ensures
        r is Some <==> jobs_size(jobs_for(remote.pairs(), local@)) <= u64::MAX,
        r matches Some(size) ==> size == jobs_size(jobs_for(remote.pairs(), local@)),
{
    let n: usize = remote.len();
    let ghost all = jobs_for(remote.pairs(), local@);
    let mut size: u64 = 0;
    let mut i: usize = 0;
    assert(jobs_for(remote.pairs().take(0), local@) =~= Seq::<JobView>::empty()) by {
        reveal(Seq::filter);
    }
    while i < n
        invariant
            i <= n == remote.pairs().len(),
            size == jobs_size(jobs_for(remote.pairs().take(i as int), local@)),
            all == jobs_for(remote.pairs(), local@),
        decreases n - i,
    {
        let ghost jobs = jobs_for(remote.pairs().take(i as int), local@);
        proof {
            lemma_jobs_push(remote.pairs(), i as int, local@);
            lemma_jobs_prefix(remote.pairs(), i + 1, local@);
            let next = jobs_for(remote.pairs().take(i + 1), local@);
            lemma_jobs_size_grows(all, next.len() as int);
            assert(all.take(next.len() as int) == next);
            assert(jobs.push(job_of(remote.pairs()[i as int])).drop_last() =~= jobs);
        }
        let name = remote.name_at(i);
        let file = remote.value_at(i);
        if outdated(name, file, local) {
            match size.checked_add(file.length) {
                Some(sum) => {
                    size = sum;
                },
                None => {
                    return None;
                },
            }
        }
        i += 1;
    }
    assert(remote.pairs().take(n as int) =~= remote.pairs());
    Some(size)
}

proof fn lemma_jobs_prefix(
    remote: Seq<(Seq<char>, SegmentFile)>,
    n: int,
    local: Map<Seq<char>, SegmentFile>,
)
    requires
        0 <= n <= remote.len(),
    ensures
        jobs_for(remote.take(n), local).len() <= jobs_for(remote, local).len(),
        jobs_for(remote, local).take(jobs_for(remote.take(n), local).len() as int) == jobs_for(
            remote.take(n),
            local,
        ),
    decreases remote.len() - n,
{
    if n == remote.len() {
        assert(remote.take(n) =~= remote);
        assert(jobs_for(remote, local).take(jobs_for(remote, local).len() as int) =~= jobs_for(
            remote,
            local,
        ));
    } else {
        lemma_jobs_push(remote, n, local);
        lemma_jobs_prefix(remote, n + 1, local);
        let all = jobs_for(remote, local);
        let part = jobs_for(remote.take(n), local);
        let next = jobs_for(remote.take(n + 1), local);
        assert(all.take(next.len() as int).take(part.len() as int) =~= all.take(part.len() as int));
        assert(next.take(part.len() as int) =~= part);
    }
}

/// Why what has to be fetched cannot be stored.
#[derive(Clone, Debug)]
pub enum SpaceError {
    /// It is not known how much room there is.
    Unknown(String),
    /// There is too little room.
    NotEnough { required: u64, available: u64 },
}

impl SpaceError {
    /// The error in words, for the directory `place`.
    pub fn message(&self, place: &str) -> (out: String)
        ensures
            out@ == match *self {
                SpaceError::Unknown(e) => "failed to determine available space for "@ + place@
                    + ": "@ + e@,
                SpaceError::NotEnough { required, available } => "not enough free disk space on "@
                    + place@ + ": need "@ + decimal(required as nat) + " bytes, have "@ + decimal(
                    available as nat,
                ) + " bytes (files: "@ + decimal(required as nat) + ")"@,
            },
    {
        match self {
            SpaceError::Unknown(e) => {
                let mut out = String::from_str("failed to determine available space for ");
                out.append(place);
                out.append(": ");
                out.append(e);
                out
            },
            SpaceError::NotEnough { required, available } => {
                let mut out = String::from_str("not enough free disk space on ");
                out.append(place);
                out.append(": need ");
                out.append(&decimal_text(*required));
                out.append(" bytes, have ");
                out.append(&decimal_text(*available));
                out.append(" bytes (files: ");
                out.append(&decimal_text(*required));
                out.append(")");
                out
            },
        }
    }
}

/// What has to be fetched.
pub struct UpdatePlan {
    pub jobs: Vec<Job>,
    /// How many bytes the jobs fetch.
    pub total_size: u64,
}

/// Plans what has to be fetched to bring what is installed up to date, if there is room for it.
pub fn plan_update(
    remote: &NameMap<SegmentFile>,
    local: &NameMap<SegmentFile>,
    available: Result<u64, String>,
) -> (r: Result<UpdatePlan, SpaceError>)
    requires
        jobs_size(jobs_for(remote.pairs(), local@)) <= u64::MAX,
    ensures
        ({
            let jobs = jobs_for(remote.pairs(), local@);
            match available {
                Err(e) => r == Err::<UpdatePlan, SpaceError>(SpaceError::Unknown(e)),
                Ok(space) => if space < jobs_size(jobs) {
                    r == Err::<UpdatePlan, SpaceError>(
                        SpaceError::NotEnough {
                            required: jobs_size(jobs) as u64,
                            available: space,
                        },
                    )
                } else {
                    r matches Ok(plan) && plan.jobs@.map_values(|j: Job| j@) == jobs
                        && plan.total_size == jobs_size(jobs)
                },
            }
        }),
        r matches Ok(plan) ==> forall|i: int|
            0 <= i < plan.jobs@.len() ==> (#[trigger] plan.jobs@[i]).content.hashes().len() == 0,
{
    let required: u64 = match update_size(remote, local) {
        Some(size) => size,
        None => unreached(),
    };
    match available {
        Err(e) => Err(SpaceError::Unknown(e)),
        Ok(space) => if space < required {
            Err(SpaceError::NotEnough { required, available: space })
        } else {
            Ok(UpdatePlan { jobs: plan_jobs(remote, local), total_size: required })
        },
    }
}

/// What is told before the jobs start: how much there is to fetch and, where it is not nothing, how
/// much of it counts as fetched.
pub fn opening_events(plan: &UpdatePlan, existing: &Vec<Option<u64>>, local_source: bool) -> (events:
    Vec<ProgressEvent>)
    requires
        plan.jobs@.len() == existing@.len(),
        jobs_size(plan.jobs@.map_values(|j: Job| j@)) <= u64::MAX,
    ensures
        ({
            let resumed = resumed_size(plan.jobs@.map_values(|j: Job| j@), existing@);
            &&& events@.len() == if !local_source && resumed > 0 {
                2int
            } else {
                1int
            }
            &&& events@[0] matches ProgressEvent::UpdateRemaining { name, total } && name@
                == "Downloading"@ && total == plan.total_size
            &&& events@.len() == 2 ==> events@[1] == (ProgressEvent::Advanced {
                id: RESUMED_ID,
                delta: resumed as u64,
            })
        }),
{
    let mut events: Vec<ProgressEvent> = Vec::new();
    events.push(
        ProgressEvent::UpdateRemaining {
            name: String::from_str("Downloading"),
            total: plan.total_size,
        },
    );
    if !local_source {
        let resumed: u64 = already_have(&plan.jobs, existing);
        if resumed > 0 {
            events.push(ProgressEvent::Advanced { id: RESUMED_ID, delta: resumed });
        }
    }
    events
}

/// How many bytes of a file of `existing` bytes are trusted: its whole pages but the last, which a
/// loss of power may have torn.
pub open spec fn trusted_bytes(existing: int) -> int {
    if existing / PAGE_SIZE as int > 0 {
        (existing / PAGE_SIZE as int - 1) * PAGE_SIZE
    } else {
        0
    }
}

fn trusted(existing: u64) -> (r: u64)
    ensures
        r == trusted_bytes(existing as int),
        r <= existing,
{
    let full_pages: u64 = existing / PAGE_SIZE;
    let safe_pages: u64 = full_pages.saturating_sub(1);
    safe_pages * PAGE_SIZE
}

/// How a job starts.
#[derive(Clone, Copy, Debug, PartialEq, Eq, Structural)]
pub struct JobStart {
    /// Where fetching goes on. What was fetched up to there is kept.
    pub resume_bytes: u64,
    /// Whether the file is emptied first.
    pub truncate: bool,
    /// How many bytes of the file count as fetched.
    pub reported: u64,
}

/// Where a job goes on that finds a file of `existing` bytes. A package on this machine is always
/// read from its start, so nothing is kept.
pub open spec fn resume_point(existing: Option<u64>, local_source: bool) -> int {
    if local_source {
        0
    } else {
        match existing {
            Some(len) => trusted_bytes(len as int),
            None => 0,
        }
    }
}

/// The lesser of two numbers.
pub open spec fn lesser(a: int, b: int) -> int {
    if a <= b {
        a
    } else {
        b
    }
}

/// Decides how a job for `length` bytes starts that finds a file of `existing` bytes, or none.
pub fn start_job(existing: Option<u64>, length: u64, local_source: bool) -> (r: JobStart)
    ensures
        r.resume_bytes == resume_point(existing, local_source),
        r.truncate == (r.resume_bytes == 0),
        r.reported == lesser(resume_point(existing, local_source), length as int),
{
    let resume_bytes: u64 = if local_source {
        0
    } else {
        match existing {
            Some(len) => trusted(len),
            None => 0,
        }
    };
    let reported: u64 = if resume_bytes <= length {
        resume_bytes
    } else {
        length
    };
    JobStart { resume_bytes, truncate: resume_bytes == 0, reported }
}

/// How many bytes of the jobs count as fetched before they start, where `existing` tells how long
/// the file of each is.
pub open spec fn resumed_size(jobs: Seq<JobView>, existing: Seq<Option<u64>>) -> int
    decreases jobs.len(),
{
    if jobs.len() == 0 {
        0
    } else {
        resumed_size(jobs.drop_last(), existing.drop_last()) + lesser(
            resume_point(existing.last(), false),
            jobs.last().length as int,
        )
    }
}

/// How many bytes of the jobs count as fetched before they start.
pub fn already_have(jobs: &Vec<Job>, existing: &Vec<Option<u64>>) -> (r: u64)
    requires
        jobs@.len() == existing@.len(),
        jobs_size(jobs@.map_values(|j: Job| j@)) <= u64::MAX,
    ensures
        r == resumed_size(jobs@.map_values(|j: Job| j@), existing@),
{
    let ghost all = jobs@.map_values(|j: Job| j@);
    let mut sum: u64 = 0;
    let mut i: usize = 0;
    while i < jobs.len()
        invariant
            i <= jobs@.len() == existing@.len(),
            all == jobs@.map_values(|j: Job| j@),
            jobs_size(all) <= u64::MAX,
            sum == resumed_size(all.take(i as int), existing@.take(i as int)),
            sum <= jobs_size(all.take(i as int)),
        decreases jobs@.len() - i,
    {
        proof {
            lemma_jobs_size_grows(all, i + 1);
            assert(all.take(i + 1).drop_last() =~= all.take(i as int));
            assert(existing@.take(i + 1).drop_last() =~= existing@.take(i as int));
        }
        let start = start_job(existing[i], jobs[i].content.length, false);
        sum = sum + start.reported;
        i += 1;
    }
    assert(all.take(all.len() as int) =~= all);
    assert(existing@.take(existing@.len() as int) =~= existing@);
    sum
}

/// The bytes that jobs report while they run: for each, what is left behind the bytes that counted
/// as fetched when it started.
pub open spec fn left_to_report(jobs: Seq<JobView>, existing: Seq<Option<u64>>) -> int
    decreases jobs.len(),
{
    if jobs.len() == 0 {
        0
    } else {
        left_to_report(jobs.drop_last(), existing.drop_last()) + (jobs.last().length - lesser(
            resume_point(existing.last(), false),
            jobs.last().length as int,
        ))
    }
}

/// What counts as fetched up front, and what the jobs report while they run, add up to what has to
/// be fetched: nothing counts twice.
pub proof fn progress_adds_up(jobs: Seq<JobView>, existing: Seq<Option<u64>>)
    requires
        jobs.len() == existing.len(),
    ensures
        resumed_size(jobs, existing) + left_to_report(jobs, existing) == jobs_size(jobs),
        0 <= resumed_size(jobs, existing) <= jobs_size(jobs),
    decreases jobs.len(),
{
    if jobs.len() > 0 {
        progress_adds_up(jobs.drop_last(), existing.drop_last());
    }
}

/// A board that was told what there is to fetch, and what of it counts as fetched, stands at its
/// length once the jobs have told the rest.
pub proof fn a_finished_update_reaches_its_length(
    board: BoardView,
    jobs: Seq<JobView>,
    existing: Seq<Option<u64>>,
    name: String,
)
    requires
        jobs.len() == existing.len(),
        board.position + jobs_size(jobs) <= u64::MAX,
    ensures
        ({
            let told = board.after(
                ProgressEvent::UpdateRemaining { name, total: jobs_size(jobs) as u64 },
            ).after(
                ProgressEvent::Advanced {
                    id: RESUMED_ID,
                    delta: resumed_size(jobs, existing) as u64,
                },
            );
            told.position + left_to_report(jobs, existing) == told.length
        }),
{
    progress_adds_up(jobs, existing);
    lemma_jobs_size_grows(jobs, 0);
}

/// A job goes on at the start of a page. The page before the end of what was fetched is fetched
/// again, and with it less than a page of what follows it; no more than that is fetched twice.
pub proof fn resuming_trusts_all_but_the_last_page(existing: u64)
    ensures
        resume_point(Some(existing), false) % PAGE_SIZE as int == 0,
        existing >= PAGE_SIZE ==> resume_point(Some(existing), false) + PAGE_SIZE <= existing
            < resume_point(Some(existing), false) + 2 * PAGE_SIZE,
        existing < PAGE_SIZE ==> resume_point(Some(existing), false) == 0,
{
}

/// A file that no job fetches is installed with the hashes that the package gives for it, and the
/// package gives some.
pub proof fn files_without_a_job_are_up_to_date(
    remote: Seq<(Seq<char>, SegmentFile)>,
    local: Map<Seq<char>, SegmentFile>,
    i: int,
)
    requires
        0 <= i < remote.len(),
        !jobs_for(remote, local).contains(job_of(remote[i])),
    ensures
        local.contains_key(remote[i].0),
        local[remote[i].0].hashes() == remote[i].1.hashes(),
        remote[i].1.hashes().len() > 0,
{
    lemma_jobs_push(remote, i, local);
    lemma_jobs_prefix(remote, i + 1, local);
    if is_outdated(remote[i], local) {
        let part = jobs_for(remote.take(i + 1), local);
        let all = jobs_for(remote, local);
        assert(part.last() == job_of(remote[i]));
        assert(all[part.len() - 1] == all.take(part.len() as int)[part.len() - 1]);
    }
}

/// Where everything is installed as the package has it, nothing is fetched.
pub proof fn an_up_to_date_game_needs_nothing(
    remote: Seq<(Seq<char>, SegmentFile)>,
    local: Map<Seq<char>, SegmentFile>,
)
    requires
        forall|i: int|
            0 <= i < remote.len() ==> !is_outdated(#[trigger] remote[i], local),
    ensures
        jobs_for(remote, local).len() == 0,
        jobs_size(jobs_for(remote, local)) == 0,
{
    lemma_nothing_outdated(remote, local, remote.len() as int);
    assert(remote.take(remote.len() as int) =~= remote);
}

proof fn lemma_nothing_outdated(
    remote: Seq<(Seq<char>, SegmentFile)>,
    local: Map<Seq<char>, SegmentFile>,
    n: int,
)
    requires
        0 <= n <= remote.len(),
        forall|i: int|
            0 <= i < remote.len() ==> !is_outdated(#[trigger] remote[i], local),
    ensures
        jobs_for(remote.take(n), local).len() == 0,
    decreases n,
{
    if n == 0 {
        reveal(Seq::filter);
    } else {
        lemma_nothing_outdated(remote, local, n - 1);
        lemma_jobs_push(remote, n - 1, local);
    }
}

/// How many jobs run at a time: as many as asked for, or four. Zero stands for no limit.
pub fn concurrency(parallel: Option<usize>) -> (r: usize)
    ensures
        r == match parallel {
            Some(n) => n,
            None => 4,
        },
{
    match parallel {
        Some(n) => n,
        None => 4,
    }
}

/// A name as it is shown: one of more than 30 bytes loses all but its last 27.
pub open spec fn shown_name(name: Seq<char>) -> Seq<char> {
    let bytes = encode_utf8(name);
    if bytes.len() > 30 {
        "..."@ + decode_utf8(bytes.skip(bytes.len() - 27))
    } else {
        name
    }
}

/// A name as it is shown. Where a long name is cut, a character has to begin.
pub fn show_name(name: &str) -> (out: String)
    requires
        encode_utf8(name@).len() > 30 ==> is_char_boundary(
            encode_utf8(name@),
            encode_utf8(name@).len() - 27,
        ),
    ensures
        out@ == shown_name(name@),
{
    let bytes = name.as_bytes();
    if bytes.len() <= 30 {
        return String::from_str(name);
    }
    let start: usize = bytes.len() - 27;
    let mut tail: Vec<u8> = Vec::new();
    let mut i: usize = start;
    while i < bytes.len()
        invariant
            start <= i <= bytes@.len(),
            tail@ == bytes@.subrange(start as int, i as int),
        decreases bytes@.len() - i,
    {
        tail.push(bytes[i]);
        i += 1;
    }
    proof {
        encode_utf8_valid_utf8(name@);
        valid_utf8_split(bytes@, start as int);
        assert(bytes@.subrange(start as int, bytes@.len() as int) =~= bytes@.skip(start as int));
    }
    match text_from_utf8(tail) {
        Some(rest) => {
            let mut out = String::from_str("...");
            out.append(&rest);
            out
        },
        None => unreached(),
    }
}

/// The sum of the lengths of the files that jobs fetch.
pub open spec fn total_length(jobs: Seq<Job>) -> int
    decreases jobs.len(),
{
    if jobs.len() == 0 {
        0
    } else {
        total_length(jobs.drop_last()) + jobs.last().content.length
    }
}

proof fn lemma_total_length(jobs: Seq<Job>)
    ensures
        total_length(jobs) == jobs_size(jobs.map_values(|j: Job| j@)),
    decreases jobs.len(),
{
    if jobs.len() > 0 {
        lemma_total_length(jobs.drop_last());
        assert(jobs.map_values(|j: Job| j@).drop_last() =~= jobs.drop_last().map_values(
            |j: Job| j@,
        ));
    }
}

proof fn lemma_job_places(
    remote: Seq<(Seq<char>, SegmentFile)>,
    local: Map<Seq<char>, SegmentFile>,
) -> (at: Seq<int>)
    ensures
        at.len() == jobs_for(remote, local).len(),
        forall|k: int, l: int| #![trigger at[k], at[l]] 0 <= k < l < at.len() ==> at[k] < at[l],
        forall|k: int|
            0 <= k < at.len() ==> 0 <= #[trigger] at[k] < remote.len() && jobs_for(remote, local)[k]
                == job_of(remote[at[k]]),
        forall|i: int|
            0 <= i < remote.len() ==> (#[trigger] at.contains(i) <==> is_outdated(
                remote[i],
                local,
            )),
{
    let keep = |p: (Seq<char>, SegmentFile)| is_outdated(p, local);
    let at = lemma_filter_places(remote, keep);
    assert forall|i: int| 0 <= i < remote.len() implies (#[trigger] at.contains(i) <==> is_outdated(
        remote[i],
        local,
    )) by {
        assert(at.contains(i) <==> keep(remote[i]));
    }
    at
}

/// Each job of a plan fetches one file of the package, under that file's own name, from where it
/// stands in the package, as long as it is, and stored encrypted or not as the package has it. The
/// jobs come in the order of the files, at the places `at` that come back, and a file has a job
/// exactly if it is not installed, or installed with another number of hashes or another hash, or if
/// the package has no hashes for it.
pub proof fn jobs_fetch_the_outdated_files_as_the_package_has_them(
    remote: NameMap<SegmentFile>,
    local: NameMap<SegmentFile>,
    jobs: Vec<Job>,
) -> (at: Seq<int>)
    requires
        call_ensures(plan_jobs, (&remote, &local), jobs),
    ensures
        at.len() == jobs@.len(),
        forall|k: int, l: int| #![trigger at[k], at[l]] 0 <= k < l < at.len() ==> at[k] < at[l],
        forall|k: int|
            0 <= k < jobs@.len() ==> {
                let (name, file) = remote.pairs()[at[k]];
                &&& 0 <= at[k] < remote.pairs().len()
                &&& (#[trigger] jobs@[k]).name@ == name
                &&& jobs@[k].content.offset == file.offset
                &&& jobs@[k].content.length == file.length
                &&& jobs@[k].content.keep_encrypted == file.keep_encrypted
                &&& jobs@[k].content.data_hashs@.len() == 0
            },
        forall|i: int|
            0 <= i < remote.pairs().len() ==> (#[trigger] at.contains(i) <==> {
                let (name, file) = remote.pairs()[i];
                ||| !local@.contains_key(name)
                ||| file.data_hashs@.len() == 0
                ||| file.data_hashs@.len() != local@[name].data_hashs@.len()
                ||| exists|h: int|
                    0 <= h < file.data_hashs@.len() && (#[trigger] file.data_hashs@[h])@
                        != local@[name].data_hashs@[h]@
            }),
{
    let pairs = remote.pairs();
    let at = lemma_job_places(pairs, local@);
    let views = jobs@.map_values(|j: Job| j@);
    assert forall|k: int| 0 <= k < jobs@.len() implies {
        let (name, file) = remote.pairs()[at[k]];
        &&& 0 <= at[k] < remote.pairs().len()
        &&& (#[trigger] jobs@[k]).name@ == name
        &&& jobs@[k].content.offset == file.offset
        &&& jobs@[k].content.length == file.length
        &&& jobs@[k].content.keep_encrypted == file.keep_encrypted
        &&& jobs@[k].content.data_hashs@.len() == 0
    } by {
        assert(views[k] == jobs@[k]@);
        assert(views[k] == jobs_for(pairs, local@)[k]);
        assert(0 <= at[k] < pairs.len());
        assert(jobs@[k].content.hashes().len() == 0);
    }
    assert forall|i: int| 0 <= i < remote.pairs().len() implies (#[trigger] at.contains(i) <==> {
        let (name, file) = remote.pairs()[i];
        ||| !local@.contains_key(name)
        ||| file.data_hashs@.len() == 0
        ||| file.data_hashs@.len() != local@[name].data_hashs@.len()
        ||| exists|h: int|
            0 <= h < file.data_hashs@.len() && (#[trigger] file.data_hashs@[h])@
                != local@[name].data_hashs@[h]@
    }) by {
        let (name, file) = pairs[i];
        assert(at.contains(i) <==> is_outdated(pairs[i], local@));
        if local@.contains_key(name) {
            let other = local@[name];
            if file.data_hashs@.len() == other.data_hashs@.len() {
                if file.hashes() == other.hashes() {
                    assert forall|h: int| 0 <= h < file.data_hashs@.len() implies (
                    #[trigger] file.data_hashs@[h])@ == other.data_hashs@[h]@ by {
                        assert(file.hashes()[h] == other.hashes()[h]);
                    }
                } else if forall|h: int|
                    0 <= h < file.data_hashs@.len() ==> (#[trigger] file.data_hashs@[h])@
                        == other.data_hashs@[h]@ {
                    assert(file.hashes() =~= other.hashes());
                }
            } else {
                assert(file.hashes().len() != other.hashes().len());
            }
        }
    }
    at
}

/// The size of an update is the sum of the lengths of the files that its jobs fetch; it is unknown
/// only where 64 bits cannot count it.
pub proof fn an_update_is_as_large_as_its_jobs(
    remote: NameMap<SegmentFile>,
    local: NameMap<SegmentFile>,
    jobs: Vec<Job>,
    size: Option<u64>,
)
    requires
        call_ensures(plan_jobs, (&remote, &local), jobs),
        call_ensures(update_size, (&remote, &local), size),
    ensures
        size is Some <==> total_length(jobs@) <= u64::MAX,
        size is Some ==> size->0 == total_length(jobs@),
{
    lemma_total_length(jobs@);
}

/// An update is planned exactly if the room that there is, is known and no less than the lengths of
/// all files that have to be fetched. The plan fetches just those files, and a refusal says how much
/// is needed and how much there is.
pub proof fn an_update_is_planned_where_there_is_room(
    remote: NameMap<SegmentFile>,
    local: NameMap<SegmentFile>,
    available: Result<u64, String>,
    jobs: Vec<Job>,
    r: Result<UpdatePlan, SpaceError>,
)
    requires
        total_length(jobs@) <= u64::MAX,
        call_ensures(plan_jobs, (&remote, &local), jobs),
        call_ensures(plan_update, (&remote, &local, available), r),
    ensures
        r is Ok <==> available is Ok && available->Ok_0 >= total_length(jobs@),
        r matches Ok(plan) ==> plan.total_size == total_length(plan.jobs@) && plan.jobs@.len()
            == jobs@.len() && forall|k: int|
            0 <= k < jobs@.len() ==> (#[trigger] plan.jobs@[k]).name@ == jobs@[k].name@
                && plan.jobs@[k].content.offset == jobs@[k].content.offset
                && plan.jobs@[k].content.length == jobs@[k].content.length
                && plan.jobs@[k].content.keep_encrypted == jobs@[k].content.keep_encrypted,
        r matches Err(SpaceError::Unknown(e)) ==> available is Err && available->Err_0 == e,
        r matches Err(SpaceError::NotEnough { required, available: room }) ==> available is Ok
            && room == available->Ok_0 && required == total_length(jobs@) && room < required,
{
    lemma_total_length(jobs@);
    if r is Ok {
        let plan = r->Ok_0;
        lemma_total_length(plan.jobs@);
        let a = plan.jobs@.map_values(|j: Job| j@);
        let b = jobs@.map_values(|j: Job| j@);
        assert(a == b);
        assert(a.len() == b.len());
        assert forall|k: int| 0 <= k < jobs@.len() implies (#[trigger] plan.jobs@[k]).name@
            == jobs@[k].name@ && plan.jobs@[k].content.offset == jobs@[k].content.offset
            && plan.jobs@[k].content.length == jobs@[k].content.length
            && plan.jobs@[k].content.keep_encrypted == jobs@[k].content.keep_encrypted by {
            assert(a[k] == b[k]);
        }
    }
}

/// A job goes on where a page of 4096 bytes begins. It keeps less than what it finds, by a page and
/// less than two; from a package on this machine, or where it finds nothing or not even a page, it
/// starts over. What is kept counts as fetched, as far as the file is long.
pub proof fn a_job_keeps_all_but_the_last_page(
    existing: Option<u64>,
    length: u64,
    local_source: bool,
    start: JobStart,
)
    requires
        call_ensures(start_job, (existing, length, local_source), start),
    ensures
        start.resume_bytes % 4096 == 0,
        !local_source && existing is Some && existing->0 >= 4096 ==> start.resume_bytes + 4096
            <= existing->0 < start.resume_bytes + 8192,
        local_source || existing is None || existing->0 < 4096 ==> start.resume_bytes == 0,
        start.truncate <==> start.resume_bytes == 0,
        start.reported <= start.resume_bytes,
        start.reported <= length,
        start.reported == start.resume_bytes || start.reported == length,
{
}

proof fn lemma_resumed_size_adds(
    jobs: Seq<JobView>,
    existing: Seq<Option<u64>>,
    more_jobs: Seq<JobView>,
    more_existing: Seq<Option<u64>>,
)
    requires
        jobs.len() == existing.len(),
        more_jobs.len() == more_existing.len(),
    ensures
        resumed_size(jobs + more_jobs, existing + more_existing) == resumed_size(jobs, existing)
            + resumed_size(more_jobs, more_existing),
    decreases more_jobs.len(),
{
    if more_jobs.len() == 0 {
        assert(jobs + more_jobs =~= jobs);
        assert(existing + more_existing =~= existing);
    } else {
        lemma_resumed_size_adds(jobs, existing, more_jobs.drop_last(), more_existing.drop_last());
        assert((jobs + more_jobs).drop_last() =~= jobs + more_jobs.drop_last());
        assert((existing + more_existing).drop_last() =~= existing + more_existing.drop_last());
    }
}

/// What counts as fetched before the jobs start is, job by job, what each of them counts when it
/// starts, and nothing without a job.
pub proof fn what_counts_as_fetched_is_what_each_job_counts(
    jobs: Vec<Job>,
    existing: Vec<Option<u64>>,
    have: u64,
    job: Job,
    found: Option<u64>,
    start: JobStart,
    longer: Vec<Job>,
    longer_existing: Vec<Option<u64>>,
    longer_have: u64,
)
    requires
        jobs@.len() == existing@.len(),
        longer@ == jobs@.push(job),
        longer_existing@ == existing@.push(found),
        call_ensures(already_have, (&jobs, &existing), have),
        call_ensures(start_job, (found, job.content.length, false), start),
        call_ensures(already_have, (&longer, &longer_existing), longer_have),
    ensures
        longer_have == have + start.reported,
        jobs@.len() == 0 ==> have == 0,
{
    let a = jobs@.map_values(|j: Job| j@);
    let one = seq![job@];
    let f = seq![found];
    lemma_resumed_size_adds(a, existing@, one, f);
    assert(longer@.map_values(|j: Job| j@) =~= a + one);
    assert(longer_existing@ =~= existing@ + f);
    assert(one.drop_last() =~= Seq::<JobView>::empty());
    assert(f.drop_last() =~= Seq::<Option<u64>>::empty());
    assert(resumed_size(one.drop_last(), f.drop_last()) == 0);
}

/// Before the jobs start it is told how much there is to fetch. What the jobs find of it is told once
/// and as one step, unless it is nothing or the package stands on this machine.
pub proof fn an_update_opens_with_its_size_and_what_is_there(
    plan: UpdatePlan,
    existing: Vec<Option<u64>>,
    local_source: bool,
    have: u64,
    events: Vec<ProgressEvent>,
)
    requires
        call_ensures(already_have, (&plan.jobs, &existing), have),
        call_ensures(opening_events, (&plan, &existing, local_source), events),
    ensures
        events@.len() == 1 || events@.len() == 2,
        events@[0] matches ProgressEvent::UpdateRemaining { name, total } && name@
            == "Downloading"@ && total == plan.total_size,
        events@.len() == 2 <==> !local_source && have > 0,
        events@.len() == 2 ==> (events@[1] matches ProgressEvent::Advanced { id, delta } && id
            == usize::MAX - 1 && delta == have),
{
}

/// A name of up to 30 bytes is shown as it is. A longer one is shown in 30 bytes: three dots, and the
/// last 27 bytes of the name.
pub proof fn a_long_name_shows_its_end(name: &str, out: String)
    requires
        encode_utf8(name@).len() > 30 ==> is_char_boundary(
            encode_utf8(name@),
            encode_utf8(name@).len() - 27,
        ),
        call_ensures(show_name, (name,), out),
    ensures
        encode_utf8(name@).len() <= 30 ==> out@ == name@,
        encode_utf8(name@).len() > 30 ==> out@.len() >= 3 && out@.take(3) == seq!['.', '.', '.']
            && encode_utf8(out@.skip(3)) == encode_utf8(name@).skip(encode_utf8(name@).len() - 27),
{
    let bytes = encode_utf8(name@);
    if bytes.len() > 30 {
        let start = bytes.len() - 27;
        reveal_strlit("...");
        encode_utf8_valid_utf8(name@);
        valid_utf8_split(bytes, start);
        assert(bytes.subrange(start, bytes.len() as int) =~= bytes.skip(start));
        decode_utf8_encode_utf8(bytes.skip(start));
        assert(out@.take(3) =~= seq!['.', '.', '.']);
        assert(out@.skip(3) =~= decode_utf8(bytes.skip(start)));
    }
}

/// As many jobs run at a time as were asked for, and four without any wish.
pub proof fn a_wish_for_jobs_at_a_time_is_kept(parallel: Option<usize>, r: usize)
    requires
        call_ensures(concurrency, (parallel,), r),
    ensures
        parallel is Some ==> r == parallel->0,
        parallel is None ==> r == 4,
{
}

/// What is said of too little room names the place, then how much is needed and how much there is.
pub proof fn too_little_room_is_told_with_place_and_amounts(
    error: SpaceError,
    place: &str,
    words: String,
)
    requires
        call_ensures(SpaceError::message, (&error, place), words),
    ensures
        match error {
            SpaceError::Unknown(e) => words@ == "failed to determine available space for "@ + place@
                + ": "@ + e@,
            SpaceError::NotEnough { required, available } => words@
                == "not enough free disk space on "@ + place@ + ": need "@ + decimal(
                required as nat,
            ) + " bytes, have "@ + decimal(available as nat) + " bytes (files: "@ + decimal(
                required as nat,
            ) + ")"@,
        },
{
}

} // verus!
