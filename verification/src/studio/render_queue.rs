//! Render queue.
//!
//! Each entry pairs a composition with an output. Entries can be paused,
//! resumed, cancelled and reordered. The queue lives in memory only.

use crate::clock::{nanos_since, wall_counts};
use crate::media::av_sync::{rounded, rounded_is_nearest};
use crate::model::composition::{swap_items, swapped, swapped_multiset, CompId};
use crate::seqs::{first_where, first_where_is_first, group_views, views};
use crate::studio::export::text_view;
use std::time::SystemTime;
use vstd::prelude::*;

verus! {

#[derive(Clone, Copy, Debug, PartialEq, Eq, Structural)]
pub enum QueueState {
    Pending,
    Running,
    Paused,
    Done,
    Cancelled,
    Failed,
}

#[derive(Clone, Copy, Debug, PartialEq, Eq, Structural)]
pub enum OutputKind {
    H264,
    H265,
    Prores422,
    Prores4444,
    Gif,
    PngSequence,
    ExrSequence,
    Wav,
}

/// The name of `kind` in the interface.
pub open spec fn output_label(kind: OutputKind) -> Seq<char> {
    match kind {
        OutputKind::H264 => "H.264"@,
        OutputKind::H265 => "H.265"@,
        OutputKind::Prores422 => "ProRes 422"@,
        OutputKind::Prores4444 => "ProRes 4444"@,
        OutputKind::Gif => "GIF"@,
        OutputKind::PngSequence => "PNG seq"@,
        OutputKind::ExrSequence => "EXR seq"@,
        OutputKind::Wav => "WAV"@,
    }
}

impl OutputKind {
    pub fn label(&self) -> (r: &'static str)
        ensures
            r@ == output_label(*self),
    {
        match self {
            OutputKind::H264 => "H.264",
            OutputKind::H265 => "H.265",
            OutputKind::Prores422 => "ProRes 422",
            OutputKind::Prores4444 => "ProRes 4444",
            OutputKind::Gif => "GIF",
            OutputKind::PngSequence => "PNG seq",
            OutputKind::ExrSequence => "EXR seq",
            OutputKind::Wav => "WAV",
        }
    }
}

#[derive(Clone, Debug, PartialEq, Eq)]
pub struct QueueEntry {
    pub id: u64,
    pub comp_id: CompId,
    pub comp_name: String,
    pub output: OutputKind,
    pub out_path: String,
    pub state: QueueState,
    pub frames_done: u32,
    pub frames_total: u32,
    pub started: Option<SystemTime>,
    pub finished: Option<SystemTime>,
    pub last_error: Option<String>,
}

/// What a queue entry holds.
#[verifier::ext_equal]
pub struct EntryModel {
    pub id: u64,
    pub comp_id: CompId,
    pub comp_name: Seq<char>,
    pub output: OutputKind,
    pub out_path: Seq<char>,
    pub state: QueueState,
    pub frames_done: u32,
    pub frames_total: u32,
    pub started: Option<SystemTime>,
    pub finished: Option<SystemTime>,
    pub last_error: Option<Seq<char>>,
}

impl View for QueueEntry {
    type V = EntryModel;

    open spec fn view(&self) -> EntryModel {
        EntryModel {
            id: self.id,
            comp_id: self.comp_id,
            comp_name: self.comp_name@,
            output: self.output,
            out_path: self.out_path@,
            state: self.state,
            frames_done: self.frames_done,
            frames_total: self.frames_total,
            started: self.started,
            finished: self.finished,
            last_error: text_view(self.last_error),
        }
    }
}

/// Nanoseconds that the frames still to come take, at the pace of those done
/// in `elapsed` nanoseconds. There is no telling before the start, before the
/// first frame, and by a clock that was set back.
pub open spec fn eta_nanos(e: EntryModel, elapsed: Option<u128>) -> Option<int> {
    match elapsed {
        None => None,
        Some(t) => if e.started is None || e.frames_done == 0 {
            None
        } else {
            let left = if e.frames_total > e.frames_done {
                e.frames_total - e.frames_done
            } else {
                0
            };
            Some(rounded(t * left, e.frames_done as int))
        },
    }
}

/// The nanoseconds of the longest `Duration`.
pub const LONGEST_NANOS: u128 = 18_446_744_073_709_551_615_999_999_999;

/// A count of nanoseconds, at most that of the longest `Duration`.
pub open spec fn lasting(n: Option<u128>) -> Option<u128> {
    match n {
        Some(n) => Some(
            if n > LONGEST_NANOS {
                LONGEST_NANOS
            } else {
                n
            },
        ),
        None => None,
    }
}

/// Whether `r` is the number that `s` is.
pub open spec fn same_number(r: Option<u128>, s: Option<int>) -> bool {
    match (r, s) {
        (Some(a), Some(b)) => a == b,
        (None, None) => true,
        _ => false,
    }
}

impl QueueEntry {
    /// Nanoseconds still to go, `elapsed` nanoseconds after the start.
    pub fn eta_after(&self, elapsed: Option<u128>) -> (r: Option<u128>)
        requires
            elapsed matches Some(t) ==> t <= LONGEST_NANOS,
        ensures
            same_number(r, eta_nanos(self@, elapsed)),
    {
        let t: u128 = match elapsed {
            Some(t) => t,
            None => {
                return None;
            },
        };
        if self.started.is_none() || self.frames_done == 0 {
            return None;
        }
        let left: u32 = if self.frames_total > self.frames_done {
            self.frames_total - self.frames_done
        } else {
            0
        };
        proof {
            assert(0 <= t * left <= 18_446_744_073_709_551_615_999_999_999 * 0xffff_ffff)
                by (nonlinear_arith)
                requires
                    0 <= t <= 18_446_744_073_709_551_615_999_999_999,
                    0 <= left <= 0xffff_ffff,
            ;
        }
        let n: u128 = t * (left as u128);
        let d: u128 = self.frames_done as u128;
        Some((2 * n + d) / (2 * d))
    }

    /// Nanoseconds still to go, at the pace so far: the time from the start to
    /// now is what the frames done took.
    pub fn eta(&self) -> (r: Option<u128>)
        ensures
            self@.started is None ==> r is None,
            self@.frames_done == 0 ==> r is None,
            self@.started matches Some(t) ==> exists|now: SystemTime, n: Option<u128>| #[trigger]
                call_ensures(SystemTime::now, (), now) && #[trigger] wall_counts(now, t, n)
                    && same_number(r, eta_nanos(self@, lasting(n))),
    {
        let started = match self.started {
            None => {
                return None;
            },
            Some(t) => t,
        };
        let n = nanos_since(started);
        let elapsed: Option<u128> = match n {
            None => None,
            Some(n) => if n > LONGEST_NANOS {
                Some(LONGEST_NANOS)
            } else {
                Some(n)
            },
        };
        proof {
            let now = choose|now: SystemTime| #[trigger]
                call_ensures(SystemTime::now, (), now) && wall_counts(now, started, n);
            assert(call_ensures(SystemTime::now, (), now) && wall_counts(now, started, n));
            assert(elapsed == lasting(n));
        }
        self.eta_after(elapsed)
    }
}

#[derive(Debug)]
pub struct RenderQueue {
    entries: Vec<QueueEntry>,
    next_id: u64,
}

/// What a queue holds: its entries in order and the next id.
#[verifier::ext_equal]
pub struct QueueModel {
    pub entries: Seq<EntryModel>,
    pub next_id: u64,
}

impl View for RenderQueue {
    type V = QueueModel;

    closed spec fn view(&self) -> QueueModel {
        QueueModel { entries: views(self.entries@), next_id: self.next_id }
    }
}

/// A new entry that waits its turn.
pub open spec fn new_entry(
    id: u64,
    comp_id: CompId,
    comp_name: Seq<char>,
    output: OutputKind,
    out_path: Seq<char>,
    frames_total: u32,
) -> EntryModel {
    EntryModel {
        id,
        comp_id,
        comp_name,
        output,
        out_path,
        state: QueueState::Pending,
        frames_done: 0,
        frames_total,
        started: None,
        finished: None,
        last_error: None,
    }
}

/// The test for an entry's id.
pub open spec fn is_entry(id: u64) -> spec_fn(EntryModel) -> bool {
    |e: EntryModel| e.id == id
}

/// The position of the entry with `id`.
pub open spec fn entry_index(q: QueueModel, id: u64) -> Option<int> {
    first_where(q.entries, is_entry(id), 0)
}

/// `q` with the entry `id`, if there is one, replaced by what `f` makes of it.
pub open spec fn with_entry(
    q: QueueModel,
    id: u64,
    f: spec_fn(EntryModel) -> EntryModel,
) -> QueueModel {
    match entry_index(q, id) {
        Some(i) => QueueModel { entries: q.entries.update(i, f(q.entries[i])), ..q },
        None => q,
    }
}

/// `q` with the entry cancelled at `now`.
pub open spec fn cancelled(q: QueueModel, id: u64, now: SystemTime) -> QueueModel {
    with_entry(
        q,
        id,
        |e: EntryModel|
            EntryModel { state: QueueState::Cancelled, finished: Some(now), ..e },
    )
}

/// `q` with the entry paused, if it runs or waits.
pub open spec fn queue_paused(q: QueueModel, id: u64) -> QueueModel {
    with_entry(
        q,
        id,
        |e: EntryModel|
            if e.state == QueueState::Running || e.state == QueueState::Pending {
                EntryModel { state: QueueState::Paused, ..e }
            } else {
                e
            },
    )
}

/// `q` with the entry waiting again, if it was paused.
pub open spec fn queue_resumed(q: QueueModel, id: u64) -> QueueModel {
    with_entry(
        q,
        id,
        |e: EntryModel|
            if e.state == QueueState::Paused {
                EntryModel { state: QueueState::Pending, ..e }
            } else {
                e
            },
    )
}

/// `q` with the entry running since `now`.
pub open spec fn running(q: QueueModel, id: u64, now: SystemTime) -> QueueModel {
    with_entry(
        q,
        id,
        |e: EntryModel| EntryModel { state: QueueState::Running, started: Some(now), ..e },
    )
}

/// `q` with `done` frames of the entry done.
pub open spec fn progressed(q: QueueModel, id: u64, done: u32) -> QueueModel {
    with_entry(q, id, |e: EntryModel| EntryModel { frames_done: done, ..e })
}

/// `q` with the entry done at `now`, all frames included.
pub open spec fn completed(q: QueueModel, id: u64, now: SystemTime) -> QueueModel {
    with_entry(
        q,
        id,
        |e: EntryModel|
            EntryModel {
                state: QueueState::Done,
                finished: Some(now),
                frames_done: e.frames_total,
                ..e
            },
    )
}

/// `q` with the entry failed at `now`.
pub open spec fn failed(q: QueueModel, id: u64, error: Seq<char>, now: SystemTime) -> QueueModel {
    with_entry(
        q,
        id,
        |e: EntryModel|
            EntryModel {
                state: QueueState::Failed,
                last_error: Some(error),
                finished: Some(now),
                ..e
            },
    )
}

/// `q` with the entry exchanged with the one before it.
pub open spec fn entry_moved_up(q: QueueModel, id: u64) -> QueueModel {
    match entry_index(q, id) {
        Some(i) => if i > 0 {
            QueueModel { entries: swapped(q.entries, i - 1, i), ..q }
        } else {
            q
        },
        None => q,
    }
}

/// `q` with the entry exchanged with the one after it.
pub open spec fn entry_moved_down(q: QueueModel, id: u64) -> QueueModel {
    match entry_index(q, id) {
        Some(i) => if i + 1 < q.entries.len() {
            QueueModel { entries: swapped(q.entries, i, i + 1), ..q }
        } else {
            q
        },
        None => q,
    }
}

/// The test for an entry that waits its turn.
pub open spec fn is_pending() -> spec_fn(EntryModel) -> bool {
    |e: EntryModel| e.state == QueueState::Pending
}

/// Whether ids are unique and below the next one.
pub open spec fn queue_ids_unique(q: QueueModel) -> bool {
    &&& forall|i: int| 0 <= i < q.entries.len() ==> (#[trigger] q.entries[i]).id < q.next_id
    &&& forall|i: int, j: int|
        0 <= i < j < q.entries.len() ==> (#[trigger] q.entries[i]).id != (
        #[trigger] q.entries[j]).id
}

/// `q` with a new entry at the end.
pub open spec fn enqueued(
    q: QueueModel,
    comp_id: CompId,
    comp_name: Seq<char>,
    output: OutputKind,
    out_path: Seq<char>,
    frames_total: u32,
) -> QueueModel {
    QueueModel {
        entries: q.entries.push(
            new_entry(q.next_id, comp_id, comp_name, output, out_path, frames_total),
        ),
        next_id: (q.next_id + 1) as u64,
    }
}

/// Queueing keeps ids unique and gives the new entry an id of its own.
pub proof fn queued_ids_unique(
    q: QueueModel,
    comp_id: CompId,
    comp_name: Seq<char>,
    output: OutputKind,
    out_path: Seq<char>,
    frames_total: u32,
)
    requires
        queue_ids_unique(q),
        q.next_id < u64::MAX,
    ensures
        queue_ids_unique(enqueued(q, comp_id, comp_name, output, out_path, frames_total)),
        entry_index(q, q.next_id) is None,
        entry_index(
            enqueued(q, comp_id, comp_name, output, out_path, frames_total),
            q.next_id,
        ) == Some(q.entries.len() as int),
{
    let r = enqueued(q, comp_id, comp_name, output, out_path, frames_total);
    first_where_is_first(q.entries, is_entry(q.next_id), 0);
    first_where_is_first(r.entries, is_entry(q.next_id), 0);
    assert forall|i: int| 0 <= i < q.entries.len() implies r.entries[i]
        == #[trigger] q.entries[i] by {}
    assert(is_entry(q.next_id)(r.entries[q.entries.len() as int]));
}

/// Whatever is done to an entry, ids stay unique, and the queue keeps its
/// length and the next id.
pub proof fn ids_stay_unique(
    q: QueueModel,
    id: u64,
    now: SystemTime,
    done: u32,
    error: Seq<char>,
)
    requires
        queue_ids_unique(q),
    ensures
        queue_ids_unique(cancelled(q, id, now)),
        queue_ids_unique(queue_paused(q, id)),
        queue_ids_unique(queue_resumed(q, id)),
        queue_ids_unique(running(q, id, now)),
        queue_ids_unique(progressed(q, id, done)),
        queue_ids_unique(completed(q, id, now)),
        queue_ids_unique(failed(q, id, error, now)),
        queue_ids_unique(entry_moved_up(q, id)),
        queue_ids_unique(entry_moved_down(q, id)),
        cancelled(q, id, now).entries.len() == q.entries.len(),
        entry_moved_up(q, id).entries.len() == q.entries.len(),
        entry_moved_down(q, id).entries.len() == q.entries.len(),
{
    first_where_is_first(q.entries, is_entry(id), 0);
}

/// Where ids are unique, moving an entry down undoes moving it up, unless it
/// was the first, and moving it up undoes moving it down, unless it was the
/// last.
pub proof fn moving_back(q: QueueModel, id: u64, i: int)
    requires
        queue_ids_unique(q),
        entry_index(q, id) == Some(i),
    ensures
        i > 0 ==> entry_moved_down(entry_moved_up(q, id), id) == q,
        i + 1 < q.entries.len() ==> entry_moved_up(entry_moved_down(q, id), id) == q,
{
    first_where_is_first(q.entries, is_entry(id), 0);
    let up = entry_moved_up(q, id);
    let down = entry_moved_down(q, id);
    if i > 0 {
        moved_to(q, id, i, i - 1);
        assert(up.entries =~= swapped(q.entries, i, i - 1));
        assert(entry_moved_down(up, id) =~= q);
    }
    if i + 1 < q.entries.len() {
        moved_to(q, id, i, i + 1);
        assert(entry_moved_up(down, id) =~= q);
    }
}

/// An entry that is exchanged with another is found in its new place.
proof fn moved_to(q: QueueModel, id: u64, i: int, j: int)
    requires
        queue_ids_unique(q),
        entry_index(q, id) == Some(i),
        0 <= j < q.entries.len(),
    ensures
        entry_index(QueueModel { entries: swapped(q.entries, i, j), ..q }, id) == Some(j),
{
    let r = swapped(q.entries, i, j);
    first_where_is_first(q.entries, is_entry(id), 0);
    first_where_is_first(r, is_entry(id), 0);
    assert(is_entry(id)(r[j]));
    assert forall|k: int| 0 <= k < j implies !is_entry(id)(#[trigger] r[k]) by {
        assert(q.entries[i].id == id);
    }
}

/// Reordering keeps every entry.
pub proof fn moving_keeps_entries(q: QueueModel, id: u64)
    ensures
        entry_moved_up(q, id).entries.to_multiset() == q.entries.to_multiset(),
        entry_moved_down(q, id).entries.to_multiset() == q.entries.to_multiset(),
{
    first_where_is_first(q.entries, is_entry(id), 0);
    if let Some(i) = entry_index(q, id) {
        if i > 0 {
            swapped_multiset(q.entries, i - 1, i);
        }
        if i + 1 < q.entries.len() {
            swapped_multiset(q.entries, i, i + 1);
        }
    }
}

/// An entry that waits, is paused and then resumed waits as before.
pub proof fn pause_then_resume(q: QueueModel, id: u64)
    requires
        entry_index(q, id) matches Some(i) ==> q.entries[i].state == QueueState::Pending,
    ensures
        queue_resumed(queue_paused(q, id), id) == q,
{
    first_where_is_first(q.entries, is_entry(id), 0);
    let p = queue_paused(q, id);
    first_where_is_first(p.entries, is_entry(id), 0);
    if let Some(i) = entry_index(q, id) {
        assert(is_entry(id)(p.entries[i]));
        assert forall|j: int| 0 <= j < i implies !is_entry(id)(#[trigger] p.entries[j]) by {
            assert(p.entries[j] == q.entries[j]);
        }
        assert(entry_index(p, id) == Some(i));
        assert(queue_resumed(p, id).entries =~= q.entries);
    }
}

impl RenderQueue {
    /// An empty queue.
    pub fn new() -> (r: Self)
        ensures
            r@ == (QueueModel { entries: Seq::empty(), next_id: 0 }),
            queue_ids_unique(r@),
    {
        let r = RenderQueue { entries: Vec::new(), next_id: 0 };
        assert(r@.entries =~= Seq::<EntryModel>::empty());
        r
    }

    /// Adds an entry at the end and returns its id.
    pub fn enqueue(
        &mut self,
        comp_id: CompId,
        comp_name: String,
        output: OutputKind,
        out_path: String,
        frames_total: u32,
    ) -> (r: u64)
        requires
            old(self)@.next_id < u64::MAX,
        ensures
            r == old(self)@.next_id,
            final(self)@ == enqueued(
                old(self)@,
                comp_id,
                comp_name@,
                output,
                out_path@,
                frames_total,
            ),
    {
        broadcast use group_views;

        let id: u64 = self.next_id;
        self.next_id = id + 1;
        self.entries.push(
            QueueEntry {
                id,
                comp_id,
                comp_name,
                output,
                out_path,
                state: QueueState::Pending,
                frames_done: 0,
                frames_total,
                started: None,
                finished: None,
                last_error: None,
            },
        );
        id
    }

    fn position(&self, id: u64) -> (r: Option<usize>)
        ensures
            match entry_index(self@, id) {
                Some(i) => r == Some(i as usize) && 0 <= i < self.entries.len(),
                None => r is None,
            },
    {
        let mut i: usize = 0;
        while i < self.entries.len()
            invariant
                i <= self.entries.len(),
                entry_index(self@, id) == first_where(self@.entries, is_entry(id), i as int),
            decreases self.entries.len() - i,
        {
            assert(self@.entries[i as int] == self.entries@[i as int]@);
            if self.entries[i].id == id {
                return Some(i);
            }
            i = i + 1;
        }
        None
    }

    /// Cancels an entry at `now`.
    pub fn cancel_at(&mut self, id: u64, now: SystemTime)
        ensures
            final(self)@ == cancelled(old(self)@, id, now),
    {
        broadcast use group_views;

        if let Some(i) = self.position(id) {
            self.entries[i].state = QueueState::Cancelled;
            self.entries[i].finished = Some(now);
            assert(self@.entries =~= cancelled(old(self)@, id, now).entries);
        }
    }

    /// Cancels an entry.
    pub fn cancel(&mut self, id: u64)
        ensures
            exists|now: SystemTime| #[trigger]
                call_ensures(SystemTime::now, (), now) && final(self)@ == cancelled(old(self)@, id, now),
    {
        let clock = SystemTime::now;
        let now = clock();
        self.cancel_at(id, now);
        assert(call_ensures(SystemTime::now, (), now));
    }

    /// Pauses an entry that runs or waits.
    pub fn pause(&mut self, id: u64)
        ensures
            final(self)@ == queue_paused(old(self)@, id),
    {
        broadcast use group_views;

        if let Some(i) = self.position(id) {
            assert(self@.entries[i as int] == self.entries@[i as int]@);
            match self.entries[i].state {
                QueueState::Running | QueueState::Pending => {
                    self.entries[i].state = QueueState::Paused;
                },
                _ => {},
            }
            assert(self@.entries =~= queue_paused(old(self)@, id).entries);
        }
    }

    /// Puts a paused entry back in line.
    pub fn resume(&mut self, id: u64)
        ensures
            final(self)@ == queue_resumed(old(self)@, id),
    {
        broadcast use group_views;

        if let Some(i) = self.position(id) {
            assert(self@.entries[i as int] == self.entries@[i as int]@);
            match self.entries[i].state {
                QueueState::Paused => {
                    self.entries[i].state = QueueState::Pending;
                },
                _ => {},
            }
            assert(self@.entries =~= queue_resumed(old(self)@, id).entries);
        }
    }

    pub fn move_up(&mut self, id: u64)
        ensures
            final(self)@ == entry_moved_up(old(self)@, id),
    {
        if let Some(i) = self.position(id) {
            if i > 0 {
                swap_items(&mut self.entries, i - 1, i);
                assert(self@.entries =~= swapped(old(self)@.entries, i - 1, i as int));
            }
        }
    }

    pub fn move_down(&mut self, id: u64)
        ensures
            final(self)@ == entry_moved_down(old(self)@, id),
    {
        if let Some(i) = self.position(id) {
            if i + 1 < self.entries.len() {
                swap_items(&mut self.entries, i, i + 1);
                assert(self@.entries =~= swapped(old(self)@.entries, i as int, i + 1));
            }
        }
    }

    /// The entries in order.
    pub fn entries(&self) -> (r: &Vec<QueueEntry>)
        ensures
            views(r@) == self@.entries,
    {
        &self.entries
    }

    /// The first entry that waits its turn.
    pub fn next_pending(&self) -> (r: Option<&QueueEntry>)
        ensures
            match first_where(self@.entries, is_pending(), 0) {
                Some(i) => r is Some && r->0@ == self@.entries[i],
                None => r is None,
            },
    {
        let mut i: usize = 0;
        while i < self.entries.len()
            invariant
                i <= self.entries.len(),
                first_where(self@.entries, is_pending(), 0) == first_where(
                    self@.entries,
                    is_pending(),
                    i as int,
                ),
            decreases self.entries.len() - i,
        {
            assert(self@.entries[i as int] == self.entries@[i as int]@);
            if self.entries[i].state == QueueState::Pending {
                return Some(&self.entries[i]);
            }
            i = i + 1;
        }
        None
    }

    /// Marks an entry as running since `now`.
    pub fn mark_running_at(&mut self, id: u64, now: SystemTime)
        ensures
            final(self)@ == running(old(self)@, id, now),
    {
        broadcast use group_views;

        if let Some(i) = self.position(id) {
            self.entries[i].state = QueueState::Running;
            self.entries[i].started = Some(now);
            assert(self@.entries =~= running(old(self)@, id, now).entries);
        }
    }

    /// Marks an entry as running from now on.
    pub fn mark_running(&mut self, id: u64)
        ensures
            exists|now: SystemTime| #[trigger]
                call_ensures(SystemTime::now, (), now) && final(self)@ == running(old(self)@, id, now),
    {
        let clock = SystemTime::now;
        let now = clock();
        self.mark_running_at(id, now);
        assert(call_ensures(SystemTime::now, (), now));
    }

    pub fn record_progress(&mut self, id: u64, done: u32)
        ensures
            final(self)@ == progressed(old(self)@, id, done),
    {
        broadcast use group_views;

        if let Some(i) = self.position(id) {
            self.entries[i].frames_done = done;
            assert(self@.entries =~= progressed(old(self)@, id, done).entries);
        }
    }

    /// Marks an entry as done at `now`.
    pub fn mark_done_at(&mut self, id: u64, now: SystemTime)
        ensures
            final(self)@ == completed(old(self)@, id, now),
    {
        broadcast use group_views;

        if let Some(i) = self.position(id) {
            self.entries[i].state = QueueState::Done;
            self.entries[i].finished = Some(now);
            let total: u32 = self.entries[i].frames_total;
            self.entries[i].frames_done = total;
            assert(self@.entries =~= completed(old(self)@, id, now).entries);
        }
    }

    /// Marks an entry as done.
    pub fn mark_done(&mut self, id: u64)
        ensures
            exists|now: SystemTime| #[trigger]
                call_ensures(SystemTime::now, (), now) && final(self)@ == completed(old(self)@, id, now),
    {
        let clock = SystemTime::now;
        let now = clock();
        self.mark_done_at(id, now);
        assert(call_ensures(SystemTime::now, (), now));
    }

    /// Marks an entry as failed at `now`.
    pub fn mark_failed_at(&mut self, id: u64, err: String, now: SystemTime)
        ensures
            final(self)@ == failed(old(self)@, id, err@, now),
    {
        broadcast use group_views;

        if let Some(i) = self.position(id) {
            self.entries[i].state = QueueState::Failed;
            self.entries[i].last_error = Some(err);
            self.entries[i].finished = Some(now);
            assert(self@.entries =~= failed(old(self)@, id, err@, now).entries);
        }
    }

    /// Marks an entry as failed.
    pub fn mark_failed(&mut self, id: u64, err: String)
        ensures
            exists|now: SystemTime| #[trigger]
                call_ensures(SystemTime::now, (), now) && final(self)@ == failed(old(self)@, id, err@, now),
    {
        let clock = SystemTime::now;
        let now = clock();
        self.mark_failed_at(id, err, now);
        assert(call_ensures(SystemTime::now, (), now));
    }

    /// Applies what the user did in the queue panel.
    pub fn apply(&mut self, action: QueueAction)
        ensures
            match action {
                QueueAction::Cancel(id) => exists|now: SystemTime| #[trigger]
                    call_ensures(SystemTime::now, (), now) && final(self)@ == cancelled(old(self)@, id, now),
                QueueAction::Pause(id) => final(self)@ == queue_paused(old(self)@, id),
                QueueAction::Resume(id) => final(self)@ == queue_resumed(old(self)@, id),
                QueueAction::MoveUp(id) => final(self)@ == entry_moved_up(old(self)@, id),
                QueueAction::MoveDown(id) => final(self)@ == entry_moved_down(old(self)@, id),
            },
    {
        match action {
            QueueAction::Cancel(id) => self.cancel(id),
            QueueAction::Pause(id) => self.pause(id),
            QueueAction::Resume(id) => self.resume(id),
            QueueAction::MoveUp(id) => self.move_up(id),
            QueueAction::MoveDown(id) => self.move_down(id),
        }
    }
}

impl Default for RenderQueue {
    fn default() -> (r: Self)
        ensures
            r@ == (QueueModel { entries: Seq::empty(), next_id: 0 }),
            queue_ids_unique(r@),
    {
        RenderQueue::new()
    }
}

/// What the user can do in the queue panel.
#[derive(Clone, Copy, Debug, PartialEq, Eq, Structural)]
pub enum QueueAction {
    Cancel(u64),
    Pause(u64),
    Resume(u64),
    MoveUp(u64),
    MoveDown(u64),
}

/// Whether `after` is `before` with at most the entry at `i` replaced.
pub open spec fn only_entry_differs(before: QueueModel, after: QueueModel, i: int) -> bool {
    &&& after.next_id == before.next_id
    &&& after.entries.len() == before.entries.len()
    &&& forall|j: int|
        0 <= j < before.entries.len() && j != i ==> after.entries[j] == #[trigger] before.entries[j]
}

/// Starting, ending and reporting touch one entry only.
pub proof fn reports_touch_one_entry(
    q: QueueModel,
    id: u64,
    i: int,
    now: SystemTime,
    done: u32,
    error: Seq<char>,
)
    requires
        entry_index(q, id) == Some(i),
    ensures
        only_entry_differs(q, cancelled(q, id, now), i),
        only_entry_differs(q, queue_paused(q, id), i),
        only_entry_differs(q, queue_resumed(q, id), i),
        only_entry_differs(q, running(q, id, now), i),
        only_entry_differs(q, progressed(q, id, done), i),
        only_entry_differs(q, completed(q, id, now), i),
        only_entry_differs(q, failed(q, id, error, now), i),
        q.entries[i].id == id,
{
    first_where_is_first(q.entries, is_entry(id), 0);
}

/// An entry that starts runs from now on; one that ends is done, cancelled or
/// failed since now. A completed entry has all its frames, a failed one keeps
/// the error, and the rest of each entry stays as it was.
pub proof fn reports_are_kept(
    q: QueueModel,
    id: u64,
    i: int,
    now: SystemTime,
    n: u32,
    error: Seq<char>,
)
    requires
        entry_index(q, id) == Some(i),
    ensures
        ({
            let e = q.entries[i];
            let r = running(q, id, now).entries[i];
            let p = progressed(q, id, n).entries[i];
            let d = completed(q, id, now).entries[i];
            let c = cancelled(q, id, now).entries[i];
            let f = failed(q, id, error, now).entries[i];
            &&& r.state == QueueState::Running
            &&& r.started == Some(now)
            &&& EntryModel { state: e.state, started: e.started, ..r } == e
            &&& p.frames_done == n
            &&& EntryModel { frames_done: e.frames_done, ..p } == e
            &&& d.state == QueueState::Done
            &&& d.finished == Some(now)
            &&& d.frames_done == d.frames_total
            &&& EntryModel {
                state: e.state,
                finished: e.finished,
                frames_done: e.frames_done,
                ..d
            } == e
            &&& c.state == QueueState::Cancelled
            &&& c.finished == Some(now)
            &&& EntryModel { state: e.state, finished: e.finished, ..c } == e
            &&& f.state == QueueState::Failed
            &&& f.finished == Some(now)
            &&& f.last_error == Some(error)
            &&& EntryModel {
                state: e.state,
                finished: e.finished,
                last_error: e.last_error,
                ..f
            } == e
        }),
{
    first_where_is_first(q.entries, is_entry(id), 0);
}

/// Only an entry that waits or runs can be paused, and only a paused one can
/// be resumed, which makes it wait again. Nothing but its state changes.
pub proof fn pausing_changes_the_state(q: QueueModel, id: u64, i: int)
    requires
        entry_index(q, id) == Some(i),
    ensures
        ({
            let e = q.entries[i];
            let p = queue_paused(q, id).entries[i];
            let r = queue_resumed(q, id).entries[i];
            &&& p.state != e.state ==> p.state == QueueState::Paused && (e.state
                == QueueState::Running || e.state == QueueState::Pending)
            &&& e.state == QueueState::Running || e.state == QueueState::Pending ==> p.state
                == QueueState::Paused
            &&& EntryModel { state: e.state, ..p } == e
            &&& r.state == if e.state == QueueState::Paused {
                QueueState::Pending
            } else {
                e.state
            }
            &&& EntryModel { state: e.state, ..r } == e
        }),
{
    first_where_is_first(q.entries, is_entry(id), 0);
}

/// A new entry waits at the end of the queue, with what was asked for and no
/// frame done. The other entries stay as they were.
pub proof fn new_entry_waits(
    q: QueueModel,
    comp_id: CompId,
    comp_name: Seq<char>,
    output: OutputKind,
    out_path: Seq<char>,
    frames_total: u32,
)
    requires
        q.next_id < u64::MAX,
    ensures
        ({
            let after = enqueued(q, comp_id, comp_name, output, out_path, frames_total);
            let e = after.entries.last();
            &&& after.entries.drop_last() == q.entries
            &&& after.next_id == q.next_id + 1
            &&& e.id == q.next_id
            &&& e.comp_id == comp_id
            &&& e.comp_name == comp_name
            &&& e.output == output
            &&& e.out_path == out_path
            &&& e.frames_total == frames_total
            &&& e.frames_done == 0
            &&& e.state == QueueState::Pending
            &&& e.started is None
            &&& e.finished is None
            &&& e.last_error is None
        }),
{
    assert(enqueued(q, comp_id, comp_name, output, out_path, frames_total).entries.drop_last()
        =~= q.entries);
}

/// An entry that is moved up comes one place earlier, and one that is moved
/// down one place later.
pub proof fn moved_entry_changes_places(q: QueueModel, id: u64, i: int)
    requires
        entry_index(q, id) == Some(i),
    ensures
        i > 0 ==> entry_moved_up(q, id).entries[i - 1] == q.entries[i] && entry_moved_up(
            q,
            id,
        ).entries[i] == q.entries[i - 1],
        i + 1 < q.entries.len() ==> entry_moved_down(q, id).entries[i + 1] == q.entries[i]
            && entry_moved_down(q, id).entries[i] == q.entries[i + 1],
{
    first_where_is_first(q.entries, is_entry(id), 0);
}

/// The time that is left is to the time that has passed as the frames that are
/// left are to the frames that are done, to the nearest nanosecond.
pub proof fn eta_is_in_proportion(e: EntryModel, elapsed: u128)
    requires
        e.started is Some,
        0 < e.frames_done,
    ensures
        eta_nanos(e, Some(elapsed)) is Some,
        e.frames_total <= e.frames_done ==> eta_nanos(e, Some(elapsed)) == Some(0int),
        e.frames_done <= e.frames_total ==> {
            let apart = eta_nanos(e, Some(elapsed)).unwrap() * e.frames_done - elapsed * (
            e.frames_total - e.frames_done);
            -e.frames_done < 2 * apart <= e.frames_done
        },
        e.frames_total == 2 * e.frames_done ==> eta_nanos(e, Some(elapsed)) == Some(elapsed as int),
{
    let d = e.frames_done as int;
    let left = if e.frames_total > e.frames_done {
        e.frames_total - e.frames_done
    } else {
        0
    };
    let t = elapsed as int;
    assert(t * left >= 0) by (nonlinear_arith)
        requires
            t >= 0,
            left >= 0,
    ;
    rounded_is_nearest(t * left, d);
    let r = rounded(t * left, d);
    if left == 0 {
        assert(t * left == 0) by (nonlinear_arith)
            requires
                left == 0,
        ;
        assert(r == 0) by (nonlinear_arith)
            requires
                r >= 0,
                2 * (r * d) <= d,
                d > 0,
        ;
    }
    if e.frames_total == 2 * e.frames_done {
        assert(r == t) by (nonlinear_arith)
            requires
                -d < 2 * (r * d - t * d) <= d,
                d > 0,
        {
            assert((r - t) * d == r * d - t * d);
            if r > t {
                assert((r - t) * d >= d);
            }
            if r < t {
                assert((r - t) * d <= -d);
            }
        }
    }
}

/// The output that the queue calls `label`.
pub open spec fn output_called(label: Seq<char>) -> Option<OutputKind> {
    if label == "H.264"@ {
        Some(OutputKind::H264)
    } else if label == "H.265"@ {
        Some(OutputKind::H265)
    } else if label == "ProRes 422"@ {
        Some(OutputKind::Prores422)
    } else if label == "ProRes 4444"@ {
        Some(OutputKind::Prores4444)
    } else if label == "GIF"@ {
        Some(OutputKind::Gif)
    } else if label == "PNG seq"@ {
        Some(OutputKind::PngSequence)
    } else if label == "EXR seq"@ {
        Some(OutputKind::ExrSequence)
    } else if label == "WAV"@ {
        Some(OutputKind::Wav)
    } else {
        None
    }
}

/// The label of an output tells which it is.
pub proof fn outputs_are_told_by_their_labels(x: OutputKind)
    ensures
        output_called(output_label(x)) == Some(x),
{
    reveal_strlit("H.264");
    reveal_strlit("H.265");
    reveal_strlit("ProRes 422");
    reveal_strlit("ProRes 4444");
    reveal_strlit("GIF");
    reveal_strlit("PNG seq");
    reveal_strlit("EXR seq");
    reveal_strlit("WAV");
    match x {
        OutputKind::H264 => {},
        OutputKind::H265 => {
            assert("H.265"@[4] != "H.264"@[4]);
        },
        OutputKind::Prores422 => {
            assert("ProRes 422"@.len() != "H.264"@.len());
            assert("ProRes 422"@.len() != "H.265"@.len());
        },
        OutputKind::Prores4444 => {
            assert("ProRes 4444"@.len() != "H.264"@.len());
            assert("ProRes 4444"@.len() != "H.265"@.len());
            assert("ProRes 4444"@.len() != "ProRes 422"@.len());
        },
        OutputKind::Gif => {
            assert("GIF"@.len() != "H.264"@.len());
            assert("GIF"@.len() != "H.265"@.len());
            assert("GIF"@.len() != "ProRes 422"@.len());
            assert("GIF"@.len() != "ProRes 4444"@.len());
        },
        OutputKind::PngSequence => {
            assert("PNG seq"@.len() != "H.264"@.len());
            assert("PNG seq"@.len() != "H.265"@.len());
            assert("PNG seq"@.len() != "ProRes 422"@.len());
            assert("PNG seq"@.len() != "ProRes 4444"@.len());
            assert("PNG seq"@.len() != "GIF"@.len());
        },
        OutputKind::ExrSequence => {
            assert("EXR seq"@.len() != "H.264"@.len());
            assert("EXR seq"@.len() != "H.265"@.len());
            assert("EXR seq"@.len() != "ProRes 422"@.len());
            assert("EXR seq"@.len() != "ProRes 4444"@.len());
            assert("EXR seq"@.len() != "GIF"@.len());
            assert("EXR seq"@[0] != "PNG seq"@[0]);
        },
        OutputKind::Wav => {
            assert("WAV"@.len() != "H.264"@.len());
            assert("WAV"@.len() != "H.265"@.len());
            assert("WAV"@.len() != "ProRes 422"@.len());
            assert("WAV"@.len() != "ProRes 4444"@.len());
            assert("WAV"@[0] != "GIF"@[0]);
            assert("WAV"@.len() != "PNG seq"@.len());
            assert("WAV"@.len() != "EXR seq"@.len());
        },
    }
}

/// Entries that wait come before all others, in the order of the queue: the
/// next one is the first that neither runs nor rests nor has ended.
pub proof fn next_entry_is_the_first_that_waits(q: QueueModel, i: int)
    requires
        0 <= i < q.entries.len(),
        q.entries[i].state == QueueState::Pending,
        forall|j: int| 0 <= j < i ==> (#[trigger] q.entries[j]).state != QueueState::Pending,
    ensures
        first_where(q.entries, is_pending(), 0) == Some(i),
{
    first_where_is_first(q.entries, is_pending(), 0);
    assert(is_pending()(q.entries[i]));
}

/// Where no entry waits there is no next one.
pub proof fn nothing_is_next_if_none_waits(q: QueueModel)
    requires
        forall|j: int|
            0 <= j < q.entries.len() ==> (#[trigger] q.entries[j]).state != QueueState::Pending,
    ensures
        first_where(q.entries, is_pending(), 0) is None,
{
    first_where_is_first(q.entries, is_pending(), 0);
}

/// A time that is told is the one that was counted, unless it is longer than a
/// duration can be; where none was counted none is told.
pub proof fn told_time_is_the_counted_one(r: Option<u128>, s: Option<int>)
    ensures
        same_number(r, s) <==> (r is Some == s is Some && (r is Some ==> r->0 == s->0)),
        r matches Some(n) && n <= LONGEST_NANOS ==> lasting(r) == r,
        r matches Some(n) && n > LONGEST_NANOS ==> lasting(r) == Some(LONGEST_NANOS),
        r is None ==> lasting(r) is None,
{
}

/// A report on an entry that is not there changes nothing.
pub proof fn missing_entry_changes_nothing(
    q: QueueModel,
    id: u64,
    now: SystemTime,
    n: u32,
    error: Seq<char>,
)
    requires
        forall|i: int| 0 <= i < q.entries.len() ==> (#[trigger] q.entries[i]).id != id,
    ensures
        cancelled(q, id, now) == q,
        queue_paused(q, id) == q,
        queue_resumed(q, id) == q,
        running(q, id, now) == q,
        progressed(q, id, n) == q,
        completed(q, id, now) == q,
        failed(q, id, error, now) == q,
        entry_moved_up(q, id) == q,
        entry_moved_down(q, id) == q,
{
    first_where_is_first(q.entries, is_entry(id), 0);
}

/// The first entry cannot go up, nor the last one down.
pub proof fn end_entries_stay(q: QueueModel, id: u64, i: int)
    requires
        entry_index(q, id) == Some(i),
    ensures
        i == 0 ==> entry_moved_up(q, id) == q,
        i + 1 == q.entries.len() ==> entry_moved_down(q, id) == q,
{
}

} // verus!
