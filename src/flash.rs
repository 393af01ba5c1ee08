//! Image Writer: the decisions of one flashing operation, as a state machine
//! that the caller drives. The caller performs each requested action (open
//! the source, read a block, write it, report progress, release the device)
//! and hands back what happened as an event.
use vstd::arithmetic::div_mod::{lemma_basic_div, lemma_div_plus_one};
use vstd::prelude::*;

verus! {

/// Why a flashing operation failed.
#[derive(Debug, Clone, Copy, PartialEq, Eq, Structural)]
pub enum FlashError {
    /// The device could not be opened, with this platform error code.
    Open(u32),
    /// The source image could not be opened or read.
    SourceIo,
    /// The device took fewer bytes of a block than it was given.
    ShortWrite { requested: usize, written: u32 },
    /// The device refused a block, with this platform error code.
    DeviceWrite(u32),
    /// The source delivered more bytes than a 64-bit counter can hold.
    CounterOverflow,
}

/// Where a flashing operation stands.
#[derive(Debug, Clone, Copy, PartialEq, Eq, Structural)]
pub enum Phase {
    /// The device is being opened.
    Opening,
    /// The device is open; the source image is being opened.
    Preparing,
    /// The device is open; the next block is being read from the source.
    Reading,
    /// The device is open; a block that was read is being written.
    Writing,
    /// The operation is over; the device is being released.
    Closing,
    /// The operation is over and nothing is held.
    Done,
}

/// What the caller reports back after performing an action.
#[derive(Debug, Clone, Copy, PartialEq, Eq, Structural)]
pub enum FlashEvent {
    DeviceOpened,
    DeviceOpenFailed(u32),
    /// The source image is open and holds this many bytes.
    SourceOpened(u64),
    SourceFailed,
    /// This many bytes were read into the block buffer; 0 is the end of the source.
    BlockRead(usize),
    ReadFailed,
    /// The device reports this many bytes of the block written.
    BlockWritten(u32),
    WriteFailed(u32),
    DeviceClosed,
}

/// What the caller is asked to do next.
#[derive(Debug, Clone, Copy, PartialEq, Eq, Structural)]
pub enum FlashAction {
    OpenSource,
    ReadBlock,
    /// Write the first this-many bytes of the block buffer to the device.
    WriteBlock(usize),
    /// Report (bytes written so far, total size), then read the next block.
    ReportProgress(u64, u64),
    CloseDevice,
    /// Stop; the operation's result is in the session.
    Exit,
}

/// One flashing operation.
#[derive(Debug, Clone, Copy)]
pub struct FlashSession {
    pub phase: Phase,
    pub block_size: usize,
    pub total_size: u64,
    /// Bytes written to the device so far.
    pub written: u64,
    /// Bytes of the block that is being written.
    pub pending: usize,
    pub result: Result<(), FlashError>,
}

/// The phases in which the device is open and owned by the session.
pub open spec fn holds_device(p: Phase) -> bool {
    p == Phase::Preparing || p == Phase::Reading || p == Phase::Writing
}

impl FlashSession {
    pub open spec fn wf(self) -> bool {
        &&& self.block_size <= u32::MAX
        &&& self.phase == Phase::Writing ==> {
            &&& 0 < self.pending <= self.block_size
            &&& self.written + self.pending <= u64::MAX
        }
    }

    /// The session goes to `Closing` with `result`, asking for the device to
    /// be released.
    pub open spec fn closing_with(self, result: Result<(), FlashError>) -> (Self, FlashAction) {
        (FlashSession { phase: Phase::Closing, result, ..self }, FlashAction::CloseDevice)
    }

    /// `e` is an event that can follow the action last asked for.
    pub open spec fn accepts(self, e: FlashEvent) -> bool {
        match self.phase {
            Phase::Opening => e is DeviceOpened || e is DeviceOpenFailed,
            Phase::Preparing => e is SourceOpened || e is SourceFailed,
            Phase::Reading => match e {
                FlashEvent::BlockRead(n) => n <= self.block_size,
                FlashEvent::ReadFailed => true,
                _ => false,
            },
            Phase::Writing => e is BlockWritten || e is WriteFailed,
            Phase::Closing => e is DeviceClosed,
            Phase::Done => false,
        }
    }

    /// The session after `e`, and the action it asks for.
    pub open spec fn next(self, e: FlashEvent) -> (Self, FlashAction)
        recommends
            self.accepts(e),
    {
        match e {
            FlashEvent::DeviceOpened => (
                FlashSession { phase: Phase::Preparing, ..self },
                FlashAction::OpenSource,
            ),
            FlashEvent::DeviceOpenFailed(code) => (
                FlashSession { phase: Phase::Done, result: Err(FlashError::Open(code)), ..self },
                FlashAction::Exit,
            ),
            FlashEvent::SourceOpened(total) => (
                FlashSession { phase: Phase::Reading, total_size: total, ..self },
                FlashAction::ReadBlock,
            ),
            FlashEvent::SourceFailed => self.closing_with(Err(FlashError::SourceIo)),
            FlashEvent::BlockRead(n) => if n == 0 {
                self.closing_with(Ok(()))
            } else if self.written + n > u64::MAX {
                self.closing_with(Err(FlashError::CounterOverflow))
            } else {
                (
                    FlashSession { phase: Phase::Writing, pending: n, ..self },
                    FlashAction::WriteBlock(n),
                )
            },
            FlashEvent::ReadFailed => self.closing_with(Err(FlashError::SourceIo)),
            FlashEvent::BlockWritten(k) => if k as nat == self.pending as nat {
                let w = (self.written + self.pending) as u64;
                (
                    FlashSession { phase: Phase::Reading, written: w, ..self },
                    FlashAction::ReportProgress(w, self.total_size),
                )
            } else {
                self.closing_with(
                    Err(FlashError::ShortWrite { requested: self.pending, written: k }),
                )
            },
            FlashEvent::WriteFailed(code) => self.closing_with(
                Err(FlashError::DeviceWrite(code)),
            ),
            FlashEvent::DeviceClosed => (FlashSession { phase: Phase::Done, ..self }, FlashAction::Exit),
        }
    }

    /// A session that writes in blocks of `block_size` bytes; the caller is
    /// asked to open the device first.
    pub fn new(block_size: usize) -> (r: Self)
        requires
            block_size <= u32::MAX,
        ensures
            r.wf(),
            r.phase == Phase::Opening,
            r.block_size == block_size,
            r.total_size == 0,
            r.written == 0,
            r.result == Ok::<(), FlashError>(()),
    {
        FlashSession {
            phase: Phase::Opening,
            block_size,
            total_size: 0,
            written: 0,
            pending: 0,
            result: Ok(()),
        }
    }

    /// Whether `e` can follow the action last asked for.
    pub fn accepts_event(&self, e: FlashEvent) -> (r: bool)
        ensures
            r == self.accepts(e),
    {
        match self.phase {
            Phase::Opening => matches!(e, FlashEvent::DeviceOpened | FlashEvent::DeviceOpenFailed(_)),
            Phase::Preparing => matches!(e, FlashEvent::SourceOpened(_) | FlashEvent::SourceFailed),
            Phase::Reading => match e {
                FlashEvent::BlockRead(n) => n <= self.block_size,
                FlashEvent::ReadFailed => true,
                _ => false,
            },
            Phase::Writing => matches!(e, FlashEvent::BlockWritten(_) | FlashEvent::WriteFailed(_)),
            Phase::Closing => matches!(e, FlashEvent::DeviceClosed),
            Phase::Done => false,
        }
    }

    fn close_with(&mut self, result: Result<(), FlashError>) -> (r: FlashAction)
        ensures
            (*final(self), r) == old(self).closing_with(result),
    {
        self.phase = Phase::Closing;
        self.result = result;
        FlashAction::CloseDevice
    }

    /// Takes in what happened and returns the next action.
    pub fn step(&mut self, e: FlashEvent) -> (r: FlashAction)
        requires
            old(self).wf(),
            old(self).accepts(e),
        ensures
            final(self).wf(),
            (*final(self), r) == old(self).next(e),
    {
        match e {
            FlashEvent::DeviceOpened => {
                self.phase = Phase::Preparing;
                FlashAction::OpenSource
            },
            FlashEvent::DeviceOpenFailed(code) => {
                self.phase = Phase::Done;
                self.result = Err(FlashError::Open(code));
                FlashAction::Exit
            },
            FlashEvent::SourceOpened(total) => {
                self.phase = Phase::Reading;
                self.total_size = total;
                FlashAction::ReadBlock
            },
            FlashEvent::SourceFailed => self.close_with(Err(FlashError::SourceIo)),
            FlashEvent::BlockRead(n) => {
                if n == 0 {
                    self.close_with(Ok(()))
                } else if n as u64 > u64::MAX - self.written {
                    self.close_with(Err(FlashError::CounterOverflow))
                } else {
                    self.phase = Phase::Writing;
                    self.pending = n;
                    FlashAction::WriteBlock(n)
                }
            },
            FlashEvent::ReadFailed => self.close_with(Err(FlashError::SourceIo)),
            FlashEvent::BlockWritten(k) => {
                if k as usize == self.pending {
                    self.written = self.written + self.pending as u64;
                    self.phase = Phase::Reading;
                    FlashAction::ReportProgress(self.written, self.total_size)
                } else {
                    let requested = self.pending;
                    self.close_with(Err(FlashError::ShortWrite { requested, written: k }))
                }
            },
            FlashEvent::WriteFailed(code) => self.close_with(Err(FlashError::DeviceWrite(code))),
            FlashEvent::DeviceClosed => {
                self.phase = Phase::Done;
                FlashAction::Exit
            },
        }
    }
}

/// The session and the actions after the events `events`, in order.
pub open spec fn run(s: FlashSession, events: Seq<FlashEvent>) -> (FlashSession, Seq<FlashAction>)
    decreases events.len(),
{
    if events.len() == 0 {
        (s, Seq::empty())
    } else {
        let (t, a) = s.next(events[0]);
        let (u, rest) = run(t, events.drop_first());
        (u, seq![a] + rest)
    }
}

/// Each of `events` can follow the action before it.
pub open spec fn accepted_run(s: FlashSession, events: Seq<FlashEvent>) -> bool
    decreases events.len(),
{
    events.len() == 0 || (s.accepts(events[0]) && accepted_run(s.next(events[0]).0, events.drop_first()))
}

/// The progress reports among `actions`, in order.
pub open spec fn reported(actions: Seq<FlashAction>) -> Seq<(nat, nat)>
    decreases actions.len(),
{
    if actions.len() == 0 {
        Seq::empty()
    } else {
        let rest = reported(actions.drop_first());
        match actions[0] {
            FlashAction::ReportProgress(w, t) => seq![(w as nat, t as nat)] + rest,
            _ => rest,
        }
    }
}

/// Size of the block that a source of `total` bytes delivers after `w`
/// bytes, when it fills each block of `block` bytes that it can.
pub open spec fn block_len(total: nat, block: nat, w: nat) -> nat {
    if total - w < block {
        (total - w) as nat
    } else {
        block
    }
}

/// The events of a source of `total` bytes, from `w` bytes on, that fills
/// every block it can, onto a device that takes every block whole.
pub open spec fn full_block_events(total: nat, block: nat, w: nat) -> Seq<FlashEvent>
    decreases total - w,
{
    if w >= total || block == 0 {
        seq![FlashEvent::BlockRead(0)]
    } else {
        let n = block_len(total, block, w);
        seq![FlashEvent::BlockRead(n as usize), FlashEvent::BlockWritten(n as u32)]
            + full_block_events(total, block, w + n)
    }
}

/// The progress reported by such a source from `w` bytes on.
pub open spec fn full_block_progress(total: nat, block: nat, w: nat) -> Seq<(nat, nat)>
    decreases total - w,
{
    if w >= total || block == 0 {
        Seq::empty()
    } else {
        let n = block_len(total, block, w);
        seq![(w + n, total)] + full_block_progress(total, block, w + n)
    }
}

/// The number of blocks of `block` bytes that `total` bytes fill, the last
/// one perhaps in part.
pub open spec fn blocks_for(total: nat, block: nat) -> nat
    recommends
        block > 0,
{
    ((total + block - 1) / (block as int)) as nat
}

proof fn lemma_full_block_run(s: FlashSession, total: nat, block: nat, w: nat)
    requires
        s.wf(),
        s.phase == Phase::Reading,
        s.written == w,
        s.total_size == total,
        s.block_size == block,
        block > 0,
        w <= total,
    ensures
        accepted_run(s, full_block_events(total, block, w)),
        run(s, full_block_events(total, block, w)).0.phase == Phase::Closing,
        run(s, full_block_events(total, block, w)).0.result == Ok::<(), FlashError>(()),
        run(s, full_block_events(total, block, w)).0.written == total,
        reported(run(s, full_block_events(total, block, w)).1) == full_block_progress(
            total,
            block,
            w,
        ),
    decreases total - w,
{
    let ev = full_block_events(total, block, w);
    if w >= total {
        let e0 = FlashEvent::BlockRead(0);
        assert(ev == seq![e0]);
        let (t, a) = s.next(e0);
        assert(ev.drop_first() =~= Seq::<FlashEvent>::empty());
        assert(run(t, ev.drop_first()) == (t, Seq::<FlashAction>::empty()));
        assert(accepted_run(t, ev.drop_first()));
        let acts = run(s, ev).1;
        assert(acts =~= seq![a]);
        assert(acts.drop_first() =~= Seq::<FlashAction>::empty());
        assert(reported(acts.drop_first()) == Seq::<(nat, nat)>::empty());
    } else {
        let n = block_len(total, block, w);
        let rest = full_block_events(total, block, w + n);
        let e1 = FlashEvent::BlockRead(n as usize);
        let e2 = FlashEvent::BlockWritten(n as u32);
        assert(ev == seq![e1, e2] + rest);
        assert(s.accepts(e1));
        let (t1, a1) = s.next(e1);
        assert(t1.phase == Phase::Writing && t1.pending == n);
        assert(t1.accepts(e2));
        let (t2, a2) = t1.next(e2);
        assert(ev[0] == e1);
        assert(ev.drop_first() =~= seq![e2] + rest);
        assert((seq![e2] + rest)[0] == e2);
        assert((seq![e2] + rest).drop_first() =~= rest);
        assert(t2.written == w + n);
        assert(t2.wf());
        lemma_full_block_run(t2, total, block, w + n);
        let (u, acts2) = run(t2, rest);
        let acts1 = run(t1, ev.drop_first()).1;
        assert(acts1 == seq![a2] + acts2);
        assert((seq![a2] + acts2).drop_first() =~= acts2);
        assert(accepted_run(t1, ev.drop_first()));
        let acts = run(s, ev).1;
        assert(acts == seq![a1] + acts1);
        assert((seq![a1] + acts1).drop_first() =~= acts1);
        assert(reported(acts1) =~= seq![(w + n, total)] + reported(acts2));
    }
}

proof fn lemma_progress_shape(total: nat, block: nat, w: nat)
    requires
        block > 0,
        w <= total,
    ensures
        full_block_progress(total, block, w).len() == blocks_for((total - w) as nat, block),
        forall|i: int|
            0 <= i < full_block_progress(total, block, w).len() ==> {
                &&& w < (#[trigger] full_block_progress(total, block, w)[i]).0 <= total
                &&& full_block_progress(total, block, w)[i].1 == total
            },
        forall|i: int, j: int|
            0 <= i < j < full_block_progress(total, block, w).len() ==> (
            #[trigger] full_block_progress(total, block, w)[i]).0 < (
            #[trigger] full_block_progress(total, block, w)[j]).0,
        w < total ==> full_block_progress(total, block, w).last().0 == total,
    decreases total - w,
{
    let x = (total - w) as nat;
    let p = full_block_progress(total, block, w);
    if w >= total {
        lemma_basic_div(block - 1, block as int);
    } else {
        let n = block_len(total, block, w);
        let q = full_block_progress(total, block, w + n);
        lemma_progress_shape(total, block, w + n);
        assert(p == seq![(w + n, total)] + q);
        lemma_div_plus_one(x - 1, block as int);
        if x < block {
            lemma_basic_div(x - 1, block as int);
            lemma_basic_div(block - 1, block as int);
            assert(q.len() == 0);
        } else {
            assert((x - block) + block - 1 == x - 1);
        }
        assert forall|i: int| 0 < i < p.len() implies p[i] == q[i - 1] by {}
        assert forall|i: int, j: int| 0 <= i < j < p.len() implies p[i].0 < p[j].0 by {
            assert(p[j] == q[j - 1]);
            if i > 0 {
                assert(p[i] == q[i - 1]);
            }
        }
        if q.len() > 0 {
            assert(p.last() == q.last());
        }
    }
}

/// A source of `total` bytes that fills every block it can, written onto a
/// device that takes every block whole, ends in success after exactly
/// `blocks_for(total, block)` progress reports; each report carries the
/// total size, the reported counts strictly increase, and the last one is
/// `total`.
pub proof fn lemma_full_block_progress(s: FlashSession)
    requires
        s.wf(),
        s.phase == Phase::Reading,
        s.written == 0,
        s.block_size > 0,
    ensures
        ({
            let events = full_block_events(s.total_size as nat, s.block_size as nat, 0);
            let (t, actions) = run(s, events);
            let p = reported(actions);
            &&& accepted_run(s, events)
            &&& t.phase == Phase::Closing
            &&& t.result == Ok::<(), FlashError>(())
            &&& p.len() == blocks_for(s.total_size as nat, s.block_size as nat)
            &&& forall|i: int| 0 <= i < p.len() ==> (#[trigger] p[i]).1 == s.total_size
            &&& forall|i: int, j: int| 0 <= i < j < p.len() ==> (#[trigger] p[i]).0 < (#[trigger] p[j]).0
            &&& s.total_size > 0 ==> p.last().0 == s.total_size
        }),
{
    lemma_full_block_run(s, s.total_size as nat, s.block_size as nat, 0);
    lemma_progress_shape(s.total_size as nat, s.block_size as nat, 0);
}

/// The device is released exactly once per successful open: only a step that
/// leaves the phases holding the device asks for its release, every such
/// step does, only a successful open enters those phases, and once released
/// the device is never held again. Nothing is written unless it is held.
pub proof fn lemma_device_released_once(s: FlashSession, e: FlashEvent)
    requires
        s.wf(),
        s.accepts(e),
    ensures
        ({
            let (t, a) = s.next(e);
            &&& (a == FlashAction::CloseDevice) == (holds_device(s.phase) && !holds_device(t.phase))
            &&& (holds_device(t.phase) && !holds_device(s.phase)) ==> (s.phase == Phase::Opening
                && e == FlashEvent::DeviceOpened)
            &&& (!holds_device(s.phase) && s.phase != Phase::Opening) ==> !holds_device(t.phase)
            &&& t.phase != Phase::Opening
            &&& a is WriteBlock ==> holds_device(t.phase)
            &&& a == FlashAction::Exit ==> t.phase == Phase::Done
        }),
{
}

/// Progress never goes back: no step lowers the count of bytes written, and
/// each progress report carries the new count, above the one before, with
/// the total size.
pub proof fn lemma_progress_increases(s: FlashSession, e: FlashEvent)
    requires
        s.wf(),
        s.accepts(e),
    ensures
        ({
            let (t, a) = s.next(e);
            &&& s.written <= t.written
            &&& t.total_size == s.total_size || e is SourceOpened
            &&& match a {
                FlashAction::ReportProgress(w, total) => {
                    &&& w == t.written
                    &&& s.written < w
                    &&& total == s.total_size
                },
                _ => t.written == s.written,
            }
        }),
{
}

} // verus!
