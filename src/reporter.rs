//! Reporting of decode outcomes, once per processing cycle, into a bounded queue. Nothing here
//! waits, and a cycle allocates nothing: a report keeps a frame's raw bytes in a buffer of `N`
//! bytes, where the host chooses `N` as the longest event it delivers, and the queue's storage
//! is reserved when it is made. A report that finds the queue full, or a frame longer than `N`,
//! is dropped and counted.
use crate::decoder::{decode, spec_decode};
use crate::event::DecodeOutcome;
use std::collections::VecDeque;
use vstd::array::array_fill_for_copy_types;
use vstd::prelude::*;
use vstd::slice::slice_subrange;

verus! {

/// One raw MIDI message as the host delivers it, with its frame offset within the cycle. The
/// bytes stay the host's: they are borrowed for the cycle only.
pub struct RawMidiFrame<'a> {
    pub timestamp: u32,
    pub bytes: &'a [u8],
}

/// What a report holds: the timestamp, the outcome, and the frame's raw bytes.
pub type ReportView = (u32, DecodeOutcome, Seq<u8>);

/// A decode outcome, with the timestamp of the frame it came from and a copy of its raw bytes,
/// which outlives the frame. The copy lives in a buffer of `N` bytes, of which the first `len`
/// are the frame's.
pub struct Report<const N: usize> {
    timestamp: u32,
    outcome: DecodeOutcome,
    raw: [u8; N],
    len: usize,
}

impl<const N: usize> View for Report<N> {
    type V = ReportView;

    closed spec fn view(&self) -> Self::V {
        (self.timestamp, self.outcome, self.raw@.take(if self.len <= N {
            self.len as int
        } else {
            N as int
        }))
    }
}

impl<const N: usize> Report<N> {
    /// Decodes a frame that fits in `N` bytes and copies its bytes, without allocating.
    pub fn from_frame(frame: &RawMidiFrame) -> (r: Report<N>)
        requires
            frame.bytes@.len() <= N,
        ensures
            r@ == report_of(*frame),
    {
        let outcome = decode(frame.bytes);
        let n = frame.bytes.len();
        let mut raw: [u8; N] = array_fill_for_copy_types(0u8);
        let mut i: usize = 0;
        while i < n
            invariant
                n == frame.bytes@.len(),
                n <= N,
                i <= n,
                raw@.len() == N,
                raw@.take(i as int) == frame.bytes@.take(i as int),
            decreases n - i,
        {
            raw[i] = frame.bytes[i];
            assert(raw@.take(i as int + 1) =~= frame.bytes@.take(i as int + 1));
            i = i + 1;
        }
        assert(frame.bytes@.take(n as int) =~= frame.bytes@);
        Report { timestamp: frame.timestamp, outcome, raw, len: n }
    }

    /// The timestamp of the frame.
    pub fn timestamp(&self) -> (t: u32)
        ensures
            t == self@.0,
    {
        self.timestamp
    }

    /// What decoding the frame gave.
    pub fn outcome(&self) -> (o: DecodeOutcome)
        ensures
            o == self@.1,
    {
        self.outcome
    }

    /// The frame's raw bytes.
    pub fn raw(&self) -> (b: &[u8])
        ensures
            b@ == self@.2,
    {
        let n: usize = if self.len <= N {
            self.len
        } else {
            N
        };
        slice_subrange(self.raw.as_slice(), 0, n)
    }
}

/// Whether the host should go on calling the processing callback.
#[derive(Debug, Clone, Copy, PartialEq, Eq, Structural)]
pub enum Control {
    Continue,
    Quit,
}

/// The report that a frame gives: its timestamp, the outcome of decoding it, and all its bytes.
pub open spec fn report_of(f: RawMidiFrame) -> ReportView {
    (f.timestamp, spec_decode(f.bytes@), f.bytes@)
}

/// The reports of the frames that fit in `max` bytes, in the order the frames came.
pub open spec fn cycle_reports(frames: Seq<RawMidiFrame>, max: nat) -> Seq<ReportView>
    decreases frames.len(),
{
    if frames.len() == 0 {
        Seq::empty()
    } else if frames.last().bytes@.len() <= max {
        cycle_reports(frames.drop_last(), max).push(report_of(frames.last()))
    } else {
        cycle_reports(frames.drop_last(), max)
    }
}

proof fn lemma_cycle_reports_len(frames: Seq<RawMidiFrame>, max: nat)
    ensures
        cycle_reports(frames, max).len() <= frames.len(),
    decreases frames.len(),
{
    if frames.len() > 0 {
        lemma_cycle_reports_len(frames.drop_last(), max);
    }
}

/// How many of `n` new reports a queue holding `len` of at most `capacity` takes.
pub open spec fn accepted(len: nat, capacity: nat, n: nat) -> nat {
    if n <= capacity - len {
        n
    } else {
        (capacity - len) as nat
    }
}

/// The contents of a queue after a cycle: the reports of the frames that fit in `max` bytes,
/// appended in frame order as far as there is room.
pub open spec fn after_cycle(
    q: Seq<ReportView>,
    capacity: nat,
    max: nat,
    frames: Seq<RawMidiFrame>,
) -> Seq<ReportView> {
    q + cycle_reports(frames, max).take(
        accepted(q.len(), capacity, cycle_reports(frames, max).len()) as int,
    )
}

/// How many of a cycle's frames are dropped: those longer than `max` bytes, and those that find
/// no room.
pub open spec fn dropped_in_cycle(
    q: Seq<ReportView>,
    capacity: nat,
    max: nat,
    frames: Seq<RawMidiFrame>,
) -> nat {
    (frames.len() - accepted(q.len(), capacity, cycle_reports(frames, max).len())) as nat
}

/// `count + n`, held at `u64::MAX`.
pub open spec fn saturating_sum(count: u64, n: nat) -> u64 {
    if count + n > u64::MAX {
        u64::MAX
    } else {
        (count + n) as u64
    }
}

/// A first-in first-out queue of reports that holds at most `capacity` of them. A push on a
/// full queue drops the new report and counts it, instead of waiting for room. Room for
/// `capacity` reports is reserved when the queue is made, so a push never allocates.
pub struct ReportQueue<const N: usize> {
    items: VecDeque<Report<N>>,
    capacity: usize,
    dropped: u64,
}

impl<const N: usize> ReportQueue<N> {
    /// The reports held, oldest first.
    pub closed spec fn spec_contents(&self) -> Seq<ReportView> {
        self.items@.map_values(|r: Report<N>| r@)
    }

    /// The most reports the queue holds.
    pub closed spec fn spec_capacity(&self) -> nat {
        self.capacity as nat
    }

    /// How many reports were dropped, held at `u64::MAX`.
    pub closed spec fn spec_dropped(&self) -> u64 {
        self.dropped
    }

    /// The queue never holds more than its capacity.
    pub closed spec fn well_formed(&self) -> bool {
        self.items@.len() <= self.capacity
    }

    /// A well-formed queue holds no more reports than its capacity.
    pub proof fn lemma_within_capacity(&self)
        requires
            self.well_formed(),
        ensures
            self.spec_contents().len() <= self.spec_capacity(),
    {
    }

    /// An empty queue that holds at most `capacity` reports.
    pub fn new(capacity: usize) -> (q: ReportQueue<N>)
        ensures
            q.well_formed(),
            q.spec_contents() == Seq::<ReportView>::empty(),
            q.spec_capacity() == capacity,
            q.spec_dropped() == 0,
    {
        let q = ReportQueue { items: VecDeque::with_capacity(capacity), capacity, dropped: 0 };
        assert(q.spec_contents() =~= Seq::<ReportView>::empty());
        q
    }

    /// Counts one report as dropped.
    fn count_dropped(&mut self)
        ensures
            *final(self) == (ReportQueue {
                dropped: saturating_sum(old(self).dropped, 1),
                ..*old(self)
            }),
    {
        if self.dropped < u64::MAX {
            self.dropped = self.dropped + 1;
        }
    }

    /// Appends `r` if there is room and returns `true`; on a full queue drops `r`, counts it,
    /// and returns `false`. It never waits.
    pub fn try_push(&mut self, r: Report<N>) -> (pushed: bool)
        requires
            old(self).well_formed(),
        ensures
            final(self).well_formed(),
            final(self).spec_capacity() == old(self).spec_capacity(),
            pushed == (old(self).spec_contents().len() < old(self).spec_capacity()),
            pushed ==> final(self).spec_contents() == old(self).spec_contents().push(r@),
            pushed ==> final(self).spec_dropped() == old(self).spec_dropped(),
            !pushed ==> final(self).spec_contents() == old(self).spec_contents(),
            !pushed ==> final(self).spec_dropped() == saturating_sum(old(self).spec_dropped(), 1),
    {
        if self.items.len() < self.capacity {
            let ghost before = self.items@;
            let ghost v = r@;
            self.items.push_back(r);
            assert(self.spec_contents() =~= before.map_values(|x: Report<N>| x@).push(v));
            true
        } else {
            self.count_dropped();
            false
        }
    }

    /// Takes the oldest report out, or returns `None` on an empty queue.
    pub fn pop(&mut self) -> (r: Option<Report<N>>)
        requires
            old(self).well_formed(),
        ensures
            final(self).well_formed(),
            final(self).spec_capacity() == old(self).spec_capacity(),
            final(self).spec_dropped() == old(self).spec_dropped(),
            old(self).spec_contents().len() == 0 ==> r is None && final(self).spec_contents()
                == old(self).spec_contents(),
            old(self).spec_contents().len() > 0 ==> r is Some && r->0@ == old(
                self,
            ).spec_contents()[0] && final(self).spec_contents() == old(
                self,
            ).spec_contents().drop_first(),
    {
        let r = self.items.pop_front();
        proof {
            if r is Some {
                assert(self.spec_contents() =~= old(self).spec_contents().drop_first());
            }
        }
        r
    }

    /// How many reports the queue holds.
    pub fn len(&self) -> (n: usize)
        ensures
            n == self.spec_contents().len(),
    {
        self.items.len()
    }

    /// The most reports the queue can hold.
    pub fn capacity(&self) -> (n: usize)
        ensures
            n == self.spec_capacity(),
    {
        self.capacity
    }

    /// How many reports were dropped, because the queue was full or the frame was longer than
    /// `N` bytes, held at `u64::MAX`.
    pub fn dropped(&self) -> (n: u64)
        ensures
            n == self.spec_dropped(),
    {
        self.dropped
    }
}

/// Decodes each frame of a cycle, in order, and pushes its report onto `queue`. A frame longer
/// than `N` bytes, and a report that finds the queue full, is dropped and counted; nothing waits
/// or allocates, and the loop runs once per frame.
/// A frame that fails to decode is reported like any other and does not stop the cycle.
pub fn on_cycle<const N: usize>(frames: &[RawMidiFrame], queue: &mut ReportQueue<N>) -> (c:
    Control)
    requires
        old(queue).well_formed(),
    ensures
        c == Control::Continue,
        final(queue).well_formed(),
        final(queue).spec_capacity() == old(queue).spec_capacity(),
        final(queue).spec_contents() == after_cycle(
            old(queue).spec_contents(),
            old(queue).spec_capacity(),
            N as nat,
            frames@,
        ),
        final(queue).spec_dropped() == saturating_sum(
            old(queue).spec_dropped(),
            dropped_in_cycle(
                old(queue).spec_contents(),
                old(queue).spec_capacity(),
                N as nat,
                frames@,
            ),
        ),
{
    let ghost q0 = queue.spec_contents();
    let ghost cap = queue.spec_capacity();
    let ghost d0 = queue.spec_dropped();
    let mut i: usize = 0;
    while i < frames.len()
        invariant
            i <= frames@.len(),
            queue.well_formed(),
            queue.spec_capacity() == cap,
            q0.len() <= cap,
            queue.spec_contents() == after_cycle(q0, cap, N as nat, frames@.take(i as int)),
            queue.spec_dropped() == saturating_sum(
                d0,
                dropped_in_cycle(q0, cap, N as nat, frames@.take(i as int)),
            ),
        decreases frames@.len() - i,
    {
        let ghost prev = cycle_reports(frames@.take(i as int), N as nat);
        let ghost fs = frames@.take(i as int + 1);
        let ghost dropped_before = dropped_in_cycle(q0, cap, N as nat, frames@.take(i as int));
        proof {
            lemma_cycle_reports_len(frames@.take(i as int), N as nat);
            assert(fs.len() == i + 1);
        }
        assert(fs.drop_last() =~= frames@.take(i as int));
        assert(fs.last() == frames@[i as int]);
        if frames[i].bytes.len() <= N {
            let report = Report::<N>::from_frame(&frames[i]);
            queue.try_push(report);
            proof {
                assert(cycle_reports(fs, N as nat) == prev.push(report_of(frames@[i as int])));
                if prev.len() < cap - q0.len() {
                    assert(cycle_reports(fs, N as nat).take(prev.len() + 1int) =~= prev.take(
                        prev.len() as int,
                    ).push(report_of(frames@[i as int])));
                    assert(prev.take(prev.len() as int) =~= prev);
                    assert(dropped_in_cycle(q0, cap, N as nat, fs) == dropped_before);
                } else {
                    assert(dropped_in_cycle(q0, cap, N as nat, fs) == dropped_before + 1);
                    assert(cycle_reports(fs, N as nat).take(cap - q0.len()) =~= prev.take(
                        cap - q0.len(),
                    ));
                }
                assert(queue.spec_contents() =~= after_cycle(q0, cap, N as nat, fs));
            }
        } else {
            queue.count_dropped();
            proof {
                assert(cycle_reports(fs, N as nat) == prev);
                assert(dropped_in_cycle(q0, cap, N as nat, fs) == dropped_before + 1);
            }
        }
        i = i + 1;
    }
    assert(frames@.take(i as int) =~= frames@);
    Control::Continue
}

/// When every frame fits in `max` bytes, each of them gives a report, in frame order.
pub proof fn fitting_frames_all_report(frames: Seq<RawMidiFrame>, max: nat)
    requires
        forall|k: int| 0 <= k < frames.len() ==> (#[trigger] frames[k]).bytes@.len() <= max,
    ensures
        cycle_reports(frames, max) == frames.map_values(|f: RawMidiFrame| report_of(f)),
    decreases frames.len(),
{
    if frames.len() > 0 {
        let init = frames.drop_last();
        assert forall|k: int| 0 <= k < init.len() implies (#[trigger] init[k]).bytes@.len()
            <= max by {
            assert(init[k] == frames[k]);
        }
        fitting_frames_all_report(init, max);
        assert(frames.last() == frames[frames.len() - 1]);
        assert(frames.map_values(|f: RawMidiFrame| report_of(f)) =~= init.map_values(
            |f: RawMidiFrame| report_of(f),
        ).push(report_of(frames.last())));
    }
}

/// A cycle's reports reach the queue in the order of its frames: what the queue held stays in
/// front, and the new reports follow in frame order. Where every frame fits in `max` bytes and
/// there is room for all of them, each frame's report is appended, in order.
pub proof fn reports_keep_frame_order(
    q: Seq<ReportView>,
    capacity: nat,
    max: nat,
    frames: Seq<RawMidiFrame>,
)
    requires
        q.len() <= capacity,
    ensures
        after_cycle(q, capacity, max, frames).len() == q.len() + accepted(
            q.len(),
            capacity,
            cycle_reports(frames, max).len(),
        ),
        after_cycle(q, capacity, max, frames).take(q.len() as int) == q,
        forall|k: int|
            0 <= k < accepted(q.len(), capacity, cycle_reports(frames, max).len())
                ==> #[trigger] after_cycle(q, capacity, max, frames)[q.len() + k] == cycle_reports(
                frames,
                max,
            )[k],
        (forall|k: int| 0 <= k < frames.len() ==> (#[trigger] frames[k]).bytes@.len() <= max)
            && frames.len() <= capacity - q.len() ==> after_cycle(q, capacity, max, frames) == q
            + frames.map_values(|f: RawMidiFrame| report_of(f)),
{
    let a = after_cycle(q, capacity, max, frames);
    assert(a.take(q.len() as int) =~= q);
    if (forall|k: int| 0 <= k < frames.len() ==> (#[trigger] frames[k]).bytes@.len() <= max)
        && frames.len() <= capacity - q.len() {
        fitting_frames_all_report(frames, max);
        let r = cycle_reports(frames, max);
        assert(r.take(r.len() as int) =~= r);
    }
}

/// On a queue that is already full, a cycle leaves the contents as they were and every one of
/// its frames is dropped.
pub proof fn full_queue_drops_cycle(
    q: Seq<ReportView>,
    capacity: nat,
    max: nat,
    frames: Seq<RawMidiFrame>,
)
    requires
        q.len() == capacity,
    ensures
        after_cycle(q, capacity, max, frames) == q,
        dropped_in_cycle(q, capacity, max, frames) == frames.len(),
{
    assert(after_cycle(q, capacity, max, frames) =~= q);
}

} // verus!
