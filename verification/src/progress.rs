//! Reporting how far a download has come.

use std::collections::HashMap;

use vstd::prelude::*;
use vstd::string::StringExecFns;

use crate::text::{decimal, decimal_text};

verus! {

/// Stands for the package itself where progress is told by job.
pub const SOURCE_ID: usize = usize::MAX;

/// Stands for all that was fetched before the jobs start.
pub const RESUMED_ID: usize = usize::MAX - 1;

/// Progress is printed when more than this many milliseconds have passed since it was last.
pub const PRINT_INTERVAL_MILLIS: u128 = 200;

/// Something that changes how far a download has come.
#[derive(Clone, Debug)]
pub enum ProgressEvent {
    /// A job that fetches `total` bytes has started.
    Started { id: usize, name: String, total: u64 },
    /// `delta` more bytes are fetched.
    Advanced { id: usize, delta: u64 },
    /// A job is done.
    Finished { id: usize },
    /// `total` bytes are left to fetch.
    UpdateRemaining { name: String, total: u64 },
    /// Something else is going on.
    UpdateStatus { name: String },
}

/// Turns positions into the steps between them. A step that could not be told is part of the next
/// one.
#[derive(Clone, Copy, Debug, PartialEq, Eq, Structural)]
pub struct ProgressMeter {
    /// Up to where progress was told.
    pub told: u64,
}

impl ProgressMeter {
    /// A meter that stands at `start`.
    pub fn new(start: u64) -> (out: Self)
        ensures
            out.told == start,
    {
        ProgressMeter { told: start }
    }

    /// The step to `position`, which has not been told yet.
    pub fn delta(&self, position: u64) -> (delta: u64)
        requires
            self.told <= position,
        ensures
            delta == position - self.told,
    {
        position - self.told
    }

    /// Notes whether the step to `position` could be told.
    pub fn note(&mut self, position: u64, told: bool)
        ensures
            *final(self) == (if told {
                ProgressMeter { told: position }
            } else {
                *old(self)
            }),
    {
        if told {
            self.told = position;
        }
    }
}

/// The meter after some positions, each with whether the step to it could be told.
pub open spec fn meter_after(start: ProgressMeter, reports: Seq<(u64, bool)>) -> ProgressMeter
    decreases reports.len(),
{
    if reports.len() == 0 {
        start
    } else if reports.last().1 {
        ProgressMeter { told: reports.last().0 }
    } else {
        meter_after(start, reports.drop_last())
    }
}

/// The sum of the steps that could be told.
pub open spec fn told_sum(start: ProgressMeter, reports: Seq<(u64, bool)>) -> int
    decreases reports.len(),
{
    if reports.len() == 0 {
        0
    } else {
        told_sum(start, reports.drop_last()) + if reports.last().1 {
            reports.last().0 - meter_after(start, reports.drop_last()).told
        } else {
            0
        }
    }
}

/// However many steps could not be told, those that could add up to the way from the start to the
/// position told last.
pub proof fn told_steps_add_up(start: ProgressMeter, reports: Seq<(u64, bool)>)
    ensures
        told_sum(start, reports) == meter_after(start, reports).told - start.told,
    decreases reports.len(),
{
    if reports.len() > 0 {
        told_steps_add_up(start, reports.drop_last());
    }
}

/// How far one job has come.
#[derive(Clone, Debug)]
pub struct Bar {
    pub name: String,
    pub total: u64,
    pub position: u64,
}

/// A `Bar` by its characters.
pub struct BarView {
    pub name: Seq<char>,
    pub total: u64,
    pub position: u64,
}

impl View for Bar {
    type V = BarView;

    open spec fn view(&self) -> BarView {
        BarView { name: self.name@, total: self.total, position: self.position }
    }
}

/// How far a download and each of its jobs have come.
pub struct ProgressBoard {
    message: String,
    position: u64,
    length: u64,
    bars: HashMap<usize, Bar>,
}

/// What a `ProgressBoard` shows.
#[verifier::ext_equal]
pub struct BoardView {
    pub message: Seq<char>,
    pub position: u64,
    pub length: u64,
    pub bars: Map<usize, BarView>,
}

impl View for ProgressBoard {
    type V = BoardView;

    closed spec fn view(&self) -> BoardView {
        BoardView {
            message: self.message@,
            position: self.position,
            length: self.length,
            bars: self.bars@.map_values(|b: Bar| b@),
        }
    }
}

/// `a + b` on a counter of 64 bits that starts over at its end.
pub open spec fn counted(a: u64, b: u64) -> u64 {
    if a + b > u64::MAX {
        (a + b - 0x1_0000_0000_0000_0000) as u64
    } else {
        (a + b) as u64
    }
}

impl BoardView {
    /// The board after an event.
    pub open spec fn after(self, event: ProgressEvent) -> BoardView {
        match event {
            ProgressEvent::Started { id, name, total } => BoardView {
                bars: self.bars.insert(id, BarView { name: name@, total, position: 0 }),
                ..self
            },
            ProgressEvent::Advanced { id, delta } => BoardView {
                position: counted(self.position, delta),
                bars: if self.bars.contains_key(id) {
                    self.bars.insert(
                        id,
                        BarView {
                            position: counted(self.bars[id].position, delta),
                            ..self.bars[id]
                        },
                    )
                } else {
                    self.bars
                },
                ..self
            },
            ProgressEvent::Finished { id } => BoardView { bars: self.bars.remove(id), ..self },
            ProgressEvent::UpdateRemaining { name, total } => BoardView {
                message: name@,
                length: (self.position + total) as u64,
                ..self
            },
            ProgressEvent::UpdateStatus { name } => BoardView { message: name@, ..self },
        }
    }
}

impl ProgressBoard {
    /// A board for a package of `length` bytes, of which nothing has come yet.
    pub fn new(length: u64) -> (out: Self)
        ensures
            out@ == (BoardView {
                message: "Initializing"@,
                position: 0,
                length,
                bars: Map::empty(),
            }),
    {
        let out = ProgressBoard {
            message: String::from_str("Initializing"),
            position: 0,
            length,
            bars: HashMap::new(),
        };
        assert(out@.bars =~= Map::<usize, BarView>::empty());
        out
    }

    /// What is going on.
    pub fn message(&self) -> (message: &String)
        ensures
            message@ == self@.message,
    {
        &self.message
    }

    /// How many bytes are fetched.
    pub fn position(&self) -> (position: u64)
        ensures
            position == self@.position,
    {
        self.position
    }

    /// How many bytes there are, those that are fetched included.
    pub fn length(&self) -> (length: u64)
        ensures
            length == self@.length,
    {
        self.length
    }

    /// How far a job has come, while it runs.
    pub fn bar(&self, id: usize) -> (r: Option<&Bar>)
        ensures
            r is Some <==> self@.bars.contains_key(id),
            r matches Some(bar) ==> bar@ == self@.bars[id],
    {
        broadcast use vstd::std_specs::hash::group_hash_axioms;

        self.bars.get(&id)
    }

    /// Takes note of an event. Where a step is to be printed, since the last print lies
    /// `millis_since_print` milliseconds back, it comes back as position and length.
    pub fn apply(&mut self, event: ProgressEvent, millis_since_print: u128) -> (print: Option<
        (u64, u64),
    >)
        requires
            event matches ProgressEvent::UpdateRemaining { total, .. } ==> old(self)@.position + total
                <= u64::MAX,
        ensures
            final(self)@ == old(self)@.after(event),
            print is Some <==> event is Advanced && millis_since_print > 200,
            print matches Some((position, length)) ==> position == final(self)@.position && length
                == final(self)@.length,
            print == if event is Advanced && millis_since_print > PRINT_INTERVAL_MILLIS {
                Some((final(self)@.position, final(self)@.length))
            } else {
                None
            },
    {
        broadcast use vstd::std_specs::hash::group_hash_axioms;

        let ghost before = self@;
        match event {
            ProgressEvent::Started { id, name, total } => {
                self.bars.insert(id, Bar { name, total, position: 0 });
                assert(self@ =~= before.after(event));
                None
            },
            ProgressEvent::Advanced { id, delta } => {
                if let Some(bar) = self.bars.remove(&id) {
                    let moved = Bar {
                        name: bar.name,
                        total: bar.total,
                        position: bar.position.wrapping_add(delta),
                    };
                    self.bars.insert(id, moved);
                }
                self.position = self.position.wrapping_add(delta);
                assert(self@ =~= before.after(event));
                if millis_since_print > PRINT_INTERVAL_MILLIS {
                    Some((self.position, self.length))
                } else {
                    None
                }
            },
            ProgressEvent::Finished { id } => {
                let _ = self.bars.remove(&id);
                assert(self@ =~= before.after(event));
                None
            },
            ProgressEvent::UpdateRemaining { name, total } => {
                self.message = name;
                self.length = self.position + total;
                assert(self@ =~= before.after(event));
                None
            },
            ProgressEvent::UpdateStatus { name } => {
                self.message = name;
                assert(self@ =~= before.after(event));
                None
            },
        }
    }
}

/// The line that tells other programs how far a download has come.
pub fn progress_line(position: u64, length: u64, percent: u8, bytes_per_second: u64) -> (out: String)
    ensures
        out@ == "HEROIC_PROGRESS "@ + decimal(position as nat) + "/"@ + decimal(length as nat) + " "@
            + decimal(percent as nat) + "% "@ + decimal(bytes_per_second as nat),
{
    let mut out = String::from_str("HEROIC_PROGRESS ");
    out.append(&decimal_text(position));
    out.append("/");
    out.append(&decimal_text(length));
    out.append(" ");
    out.append(&decimal_text(percent as u64));
    out.append("% ");
    out.append(&decimal_text(bytes_per_second));
    out
}

/// A job's step moves the job, if it runs, and the whole download by the same number of bytes, and
/// no other job.
pub proof fn a_step_moves_one_job_and_the_total(
    board: BoardView,
    id: usize,
    delta: u64,
    other: usize,
)
    requires
        board.position + delta <= u64::MAX,
        board.bars.contains_key(id) ==> board.bars[id].position + delta <= u64::MAX,
        other != id,
    ensures
        ({
            let after = board.after(ProgressEvent::Advanced { id, delta });
            &&& after.position == board.position + delta
            &&& after.bars.dom() == board.bars.dom()
            &&& board.bars.contains_key(id) ==> after.bars[id].position == board.bars[id].position
                + delta
            &&& board.bars.contains_key(other) ==> after.bars[other] == board.bars[other]
            &&& after.length == board.length
        }),
{
    let after = board.after(ProgressEvent::Advanced { id, delta });
    assert(after.bars.dom() =~= board.bars.dom());
}

/// Once it is known how much is left, the length is what was fetched and what is left.
pub proof fn the_length_covers_what_is_left(board: BoardView, name: String, total: u64)
    requires
        board.position + total <= u64::MAX,
    ensures
        ({
            let after = board.after(ProgressEvent::UpdateRemaining { name, total });
            after.length - after.position == total && after.position == board.position
        }),
{
}

/// A job that does not run can be finished again without anything changing.
pub proof fn finishing_an_unknown_job_changes_nothing(board: BoardView, id: usize)
    requires
        !board.bars.contains_key(id),
    ensures
        board.after(ProgressEvent::Finished { id }) == board,
{
    assert(board.bars.remove(id) =~= board.bars);
}

/// The board after some events, one by one.
pub open spec fn board_after(board: BoardView, events: Seq<ProgressEvent>) -> BoardView
    decreases events.len(),
{
    if events.len() == 0 {
        board
    } else {
        board_after(board, events.drop_last()).after(events.last())
    }
}

/// The sum of all steps among the events, those of jobs that never started included.
pub open spec fn steps(events: Seq<ProgressEvent>) -> nat
    decreases events.len(),
{
    if events.len() == 0 {
        0
    } else {
        steps(events.drop_last()) + match events.last() {
            ProgressEvent::Advanced { delta, .. } => delta as nat,
            _ => 0,
        }
    }
}

/// The sum of the steps of one job among the events.
pub open spec fn steps_of(events: Seq<ProgressEvent>, job: usize) -> nat
    decreases events.len(),
{
    if events.len() == 0 {
        0
    } else {
        steps_of(events.drop_last(), job) + match events.last() {
            ProgressEvent::Advanced { id, delta } => if id == job {
                delta as nat
            } else {
                0
            },
            _ => 0,
        }
    }
}

/// The event starts the job.
pub open spec fn starts(event: ProgressEvent, job: usize) -> bool {
    event matches ProgressEvent::Started { id, .. } && id == job
}

/// The event finishes the job.
pub open spec fn finishes(event: ProgressEvent, job: usize) -> bool {
    event matches ProgressEvent::Finished { id } && id == job
}

/// Whatever jobs start, advance and finish, the whole download stands at the sum of all steps.
pub proof fn the_position_is_the_sum_of_all_steps(board: BoardView, events: Seq<ProgressEvent>)
    requires
        board.position + steps(events) <= u64::MAX,
    ensures
        board_after(board, events).position == board.position + steps(events),
    decreases events.len(),
{
    if events.len() > 0 {
        the_position_is_the_sum_of_all_steps(board, events.drop_last());
    }
}

/// While a job runs, it stands at the sum of its own steps since it started, under the name and
/// the total that it started with.
pub proof fn a_job_stands_at_the_sum_of_its_steps(
    board: BoardView,
    events: Seq<ProgressEvent>,
    start: int,
    job: usize,
)
    requires
        0 <= start < events.len(),
        starts(events[start], job),
        forall|i: int|
            start < i < events.len() ==> !starts(#[trigger] events[i], job) && !finishes(
                events[i],
                job,
            ),
        steps_of(events.skip(start + 1), job) <= u64::MAX,
    ensures
        ({
            let bars = board_after(board, events).bars;
            &&& bars.contains_key(job)
            &&& bars[job].position == steps_of(events.skip(start + 1), job)
            &&& bars[job].name == events[start]->Started_name@
            &&& bars[job].total == events[start]->Started_total
        }),
    decreases events.len(),
{
    let rest = events.skip(start + 1);
    if start == events.len() - 1 {
        assert(rest.len() == 0);
    } else {
        let before = events.drop_last();
        assert(before.skip(start + 1) =~= rest.drop_last());
        assert(rest.last() == events.last());
        assert forall|i: int| start < i < before.len() implies !starts(#[trigger] before[i], job)
            && !finishes(before[i], job) by {
            assert(before[i] == events[i]);
        }
        a_job_stands_at_the_sum_of_its_steps(board, before, start, job);
        assert(!starts(events[events.len() - 1], job));
    }
}

/// Once a job is finished it has no bar, until it starts again.
pub proof fn a_finished_job_has_no_bar(
    board: BoardView,
    events: Seq<ProgressEvent>,
    end: int,
    job: usize,
)
    requires
        0 <= end < events.len(),
        finishes(events[end], job),
        forall|i: int| end < i < events.len() ==> !starts(#[trigger] events[i], job),
    ensures
        !board_after(board, events).bars.contains_key(job),
    decreases events.len(),
{
    if end < events.len() - 1 {
        let before = events.drop_last();
        assert forall|i: int| end < i < before.len() implies !starts(#[trigger] before[i], job) by {
            assert(before[i] == events[i]);
        }
        a_finished_job_has_no_bar(board, before, end, job);
        assert(!starts(events[events.len() - 1], job));
    }
}

/// A job that never started has no bar, whatever steps are told of it.
pub proof fn a_job_that_never_started_has_no_bar(
    board: BoardView,
    events: Seq<ProgressEvent>,
    job: usize,
)
    requires
        !board.bars.contains_key(job),
        forall|i: int| 0 <= i < events.len() ==> !starts(#[trigger] events[i], job),
    ensures
        !board_after(board, events).bars.contains_key(job),
    decreases events.len(),
{
    if events.len() > 0 {
        let before = events.drop_last();
        assert forall|i: int| 0 <= i < before.len() implies !starts(#[trigger] before[i], job) by {
            assert(before[i] == events[i]);
        }
        a_job_that_never_started_has_no_bar(board, before, job);
        assert(!starts(events[events.len() - 1], job));
    }
}

/// The length stays what was fetched and what was left when it was last known how much is left.
pub proof fn the_length_is_kept_until_the_rest_is_known_anew(
    board: BoardView,
    events: Seq<ProgressEvent>,
    known: int,
)
    requires
        0 <= known < events.len(),
        events[known] is UpdateRemaining,
        forall|i: int| known < i < events.len() ==> !(#[trigger] events[i] is UpdateRemaining),
        board.position + steps(events.take(known)) + events[known]->UpdateRemaining_total
            <= u64::MAX,
    ensures
        board_after(board, events).length == board.position + steps(events.take(known))
            + events[known]->UpdateRemaining_total,
    decreases events.len(),
{
    let before = events.drop_last();
    assert(before.take(known) =~= events.take(known));
    if known == events.len() - 1 {
        assert(before =~= events.take(known));
        the_position_is_the_sum_of_all_steps(board, before);
    } else {
        assert forall|i: int| known < i < before.len() implies !(
        #[trigger] before[i] is UpdateRemaining) by {
            assert(before[i] == events[i]);
        }
        the_length_is_kept_until_the_rest_is_known_anew(board, before, known);
        assert(!(events[events.len() - 1] is UpdateRemaining));
    }
}

/// The event says what is going on.
pub open spec fn tells_message(event: ProgressEvent) -> bool {
    event is UpdateRemaining || event is UpdateStatus
}

/// A board shows what it was last told is going on, and what it showed before where it was told
/// nothing since.
pub proof fn a_board_shows_what_it_was_last_told(board: BoardView, event: ProgressEvent)
    ensures
        event matches ProgressEvent::UpdateRemaining { name, .. } ==> board.after(event).message
            == name@,
        event matches ProgressEvent::UpdateStatus { name } ==> board.after(event).message == name@,
        !tells_message(event) ==> board.after(event).message == board.message,
        !(event is UpdateRemaining) ==> board.after(event).length == board.length,
        !(event is Advanced) ==> board.after(event).position == board.position,
        tells_message(event) ==> board.after(event).bars == board.bars,
{
}

/// Counters start over at the end of 64 bits, and lose nothing else.
pub proof fn a_counter_loses_only_whole_rounds(a: u64, b: u64)
    ensures
        a + b - counted(a, b) == 0 || a + b - counted(a, b) == 0x1_0000_0000_0000_0000,
{
}

/// The line for other programs tells, in this order, what is fetched, what there is to fetch, the
/// share of it and the speed.
pub proof fn a_progress_line_tells_its_numbers_in_order(
    position: u64,
    length: u64,
    percent: u8,
    bytes_per_second: u64,
    line: String,
)
    requires
        call_ensures(progress_line, (position, length, percent, bytes_per_second), line),
    ensures
        line@ == "HEROIC_PROGRESS "@ + (decimal(position as nat) + ("/"@ + (decimal(length as nat) + (
        " "@ + (decimal(percent as nat) + ("% "@ + decimal(bytes_per_second as nat))))))),
{
    assert(line@ =~= "HEROIC_PROGRESS "@ + (decimal(position as nat) + ("/"@ + (decimal(
        length as nat,
    ) + (" "@ + (decimal(percent as nat) + ("% "@ + decimal(bytes_per_second as nat))))))));
}

/// The ids for the package itself and for what was fetched before are the last two that there are, so
/// that the place of a job in a list is neither of them.
pub proof fn reserved_ids_are_the_last_two(job: usize)
    requires
        job < usize::MAX - 1,
    ensures
        job != SOURCE_ID,
        job != RESUMED_ID,
        SOURCE_ID == RESUMED_ID + 1,
        SOURCE_ID == usize::MAX,
{
}

} // verus!
