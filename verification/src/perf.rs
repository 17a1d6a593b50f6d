//! Performance monitoring: the log of events that the performance counter has queued, and the
//! settings of the counter.
//!
//! The counter itself is a set of hardware registers. The functions here say what to write to
//! them and take what was read from them.

use vstd::prelude::*;

verus! {

/// Size in bytes of the memory that holds the log.
pub const BUFLEN: usize = 1024 * 512;

/// Size in bytes of one entry of the log.
pub const ENTRY_LEN: usize = 8;

/// Size in bytes of a page of memory.
pub const PAGE_LEN: usize = 4096;

/// A logged event.
#[derive(Clone, Copy, Debug, PartialEq, Eq, Structural)]
pub struct PerfLogEntry {
    /// The code that the event was logged with.
    pub code: u32,
    /// The time of the event, in samples.
    pub ts: u32,
}

/// A write to a register.
#[derive(Clone, Copy, Debug, PartialEq, Eq, Structural)]
pub enum CsrWrite {
    /// Stop the counter: 1 into the `STOP` field of `RUN`.
    RunStop,
    /// Reset the counter and run it: 1 into the `RESET_RUN` field of `RUN`.
    RunResetRun,
    /// The low word of the saturation limit.
    SaturateLimit0(u32),
    /// The high word of the saturation limit.
    SaturateLimit1(u32),
    /// The fields of the configuration register.
    Config { prescaler: u32, saturate: u32, event_width_minus_one: u32 },
    /// The code of an event that happens now.
    PerfEventCode(u32),
}

/// Why events could not be logged.
#[derive(Clone, Copy, Debug, PartialEq, Eq, Structural)]
pub enum PerfError {
    /// The log is full.
    OutOfMemory,
}

/// What to do next in a flush.
#[derive(Clone, Copy, Debug, PartialEq, Eq, Structural)]
pub enum FlushAction {
    /// Read the next event of the queue and record it.
    ReadEvent,
    /// End the flush.
    Finish,
}

/// An event as the queue holds it.
#[derive(Clone, Copy, Debug, PartialEq, Eq, Structural)]
pub struct QueuedEvent {
    /// The code that the event was logged with.
    pub code: u32,
    /// The time of the event, in samples since the last reset of the counter.
    pub ts: u32,
    /// The index of the event in the queue.
    pub index: u32,
}

/// A flush that is under way.
#[derive(Clone, Copy, Debug, PartialEq, Eq, Structural)]
pub struct FlushRun {
    /// The time of the last event that was read, counted from the last reset of the counter.
    pub ts_offset: u32,
    /// The number of events recorded, which is the index that the next one should have.
    pub expected_i: u32,
    /// Whether an event was left in the queue for want of room in the log.
    pub oom: bool,
    /// Whether the index of an event only has twelve bits.
    pub index_wraps: bool,
}

/// What a last flush is told.
#[derive(Clone, Copy, Debug, PartialEq, Eq, Structural)]
pub enum FlushInput {
    /// The flush is to begin.
    Begin,
    /// Whether the queue holds an event, which a status of 1 says.
    Status(u32),
    /// The event that was read from the queue.
    Event(QueuedEvent),
}

/// What a last flush asks for.
#[derive(Clone, Copy, Debug, PartialEq, Eq)]
pub enum FlushOutput {
    /// Write to a register, then tell the status of the queue.
    Write(CsrWrite),
    /// Read the next event of the queue.
    ReadEvent,
    /// Tell the status of the queue. The flag says whether the event that was recorded has the
    /// expected index.
    ReadStatus { in_order: bool },
    /// Nothing: the flush has ended with this outcome.
    Done(Result<u32, PerfError>),
}

/// Client for performance monitoring: it can log events, but neither empty the queue nor notice
/// that it is full.
///
/// `C` is the access to the registers of an event port. All event ports have the same registers.
#[derive(Debug)]
pub struct PerfClient<C> {
    /// The event port.
    pub event_csr: C,
}

impl<C> PerfClient<C> {
    /// A client that logs through the given event port.
    pub fn new(event_csr: C) -> (client: Self)
        ensures
            client.event_csr == event_csr,
    {
        PerfClient { event_csr }
    }

    /// Logs an event, whether or not the queue has room for it.
    pub fn log_event_unchecked(&self, code: u32) -> (write: CsrWrite)
        ensures
            write == CsrWrite::PerfEventCode(code),
    {
        CsrWrite::PerfEventCode(code)
    }
}

/// The state of a [`PerfMgr`].
pub struct PerfState {
    /// The log. The first `log_index` entries are in use.
    pub data: Seq<PerfLogEntry>,
    pub log_index: int,
    /// The time of the last reset of the counter.
    pub ts_cont: int,
    pub saturation_limit: int,
    pub prescaler: int,
    pub saturate: bool,
    pub event_bit_width: int,
    /// The number of events ever copied into the log.
    pub count: int,
}

/// Manager for performance monitoring: the log, and the settings of the counter.
pub struct PerfMgr {
    data: Vec<PerfLogEntry>,
    log_index: usize,
    ts_cont: u64,
    // As the hardware takes them.
    saturation_limit: u64,
    prescaler: u16,
    saturate: bool,
    event_bit_width: u8,
    count: u32,
}

/// A log of `n` blank entries.
pub open spec fn blank_log(n: nat) -> Seq<PerfLogEntry> {
    Seq::new(n, |i: int| PerfLogEntry { code: 0, ts: 0 })
}

/// The entry for `event`, where `ts_cont` is the time of the last reset of the counter.
pub open spec fn log_entry(ts_cont: int, event: QueuedEvent) -> PerfLogEntry {
    PerfLogEntry { code: event.code, ts: (ts_cont % 0x1_0000_0000 + event.ts) as u32 }
}

/// The state after one more event has been recorded.
pub open spec fn state_recorded(s: PerfState, event: QueuedEvent) -> PerfState {
    PerfState {
        data: s.data.update(s.log_index, log_entry(s.ts_cont, event)),
        log_index: s.log_index + 1,
        count: s.count + 1,
        ..s
    }
}

/// The flush after one more event has been recorded.
pub open spec fn run_recorded(run: FlushRun, event: QueuedEvent) -> FlushRun {
    FlushRun { ts_offset: event.ts, expected_i: (run.expected_i + 1) as u32, ..run }
}

/// The index that the next event of a flush should have.
pub open spec fn expected_index(run: FlushRun) -> int {
    if run.index_wraps {
        run.expected_i as int % 4096
    } else {
        run.expected_i as int
    }
}

/// The state when time has moved on to the last event of a flush.
pub open spec fn time_advanced(s: PerfState, run: FlushRun) -> PerfState {
    PerfState { ts_cont: s.ts_cont + run.ts_offset, ..s }
}

/// The outcome of a last flush: the number of entries of the log that are in use, or an error where
/// an event was left in the queue.
pub open spec fn last_flush_outcome(s: PerfState, run: FlushRun) -> Result<u32, PerfError> {
    if run.oom {
        Err(PerfError::OutOfMemory)
    } else {
        Ok(s.log_index as u32)
    }
}

/// A flush before it has seen the queue.
pub open spec fn flush_start() -> FlushRun {
    FlushRun { ts_offset: 0, expected_i: 0, oom: false, index_wraps: true }
}

/// A last flush before it has seen the queue.
pub open spec fn last_flush_start() -> FlushRun {
    FlushRun { ts_offset: 0, expected_i: 0, oom: false, index_wraps: false }
}

/// One step of a last flush: the counter is stopped, then events are recorded as long as the queue
/// holds one and the log has room, then time moves on.
pub open spec fn last_flush_step(s: PerfState, run: FlushRun, input: FlushInput) -> (
    PerfState,
    FlushRun,
    FlushOutput,
) {
    match input {
        FlushInput::Begin => (s, last_flush_start(), FlushOutput::Write(CsrWrite::RunStop)),
        FlushInput::Status(readable) => if flush_goes_on(s, readable) {
            (s, run, FlushOutput::ReadEvent)
        } else {
            let end = FlushRun { oom: run.oom || readable == 1, ..run };
            (time_advanced(s, end), end, FlushOutput::Done(last_flush_outcome(s, end)))
        },
        FlushInput::Event(event) => (
            state_recorded(s, event),
            run_recorded(run, event),
            FlushOutput::ReadStatus { in_order: event.index == expected_index(run) },
        ),
    }
}

impl View for PerfMgr {
    type V = PerfState;

    closed spec fn view(&self) -> PerfState {
        PerfState {
            data: self.data@,
            log_index: self.log_index as int,
            ts_cont: self.ts_cont as int,
            saturation_limit: self.saturation_limit as int,
            prescaler: self.prescaler as int,
            saturate: self.saturate,
            event_bit_width: self.event_bit_width as int,
            count: self.count as int,
        }
    }
}

/// Whether a flush that waits on the queue goes on, given the status of the queue.
pub open spec fn flush_goes_on(s: PerfState, readable: u32) -> bool {
    readable == 1 && s.log_index < s.data.len()
}

/// The state of a new manager.
pub open spec fn new_state() -> PerfState {
    PerfState {
        data: blank_log((BUFLEN / ENTRY_LEN) as nat),
        log_index: 0,
        ts_cont: 0,
        saturation_limit: 0xffff_ffff,
        prescaler: 0,
        saturate: true,
        event_bit_width: 31,
        count: 0,
    }
}

/// The state in which the log has been blanked.
pub open spec fn blanked(s: PerfState) -> PerfState {
    PerfState { data: blank_log(s.data.len()), ..s }
}

/// The state in which the log and time start over.
pub open spec fn started_over(s: PerfState) -> PerfState {
    PerfState { log_index: 0, ts_cont: 0, ..s }
}

/// The log has its full length, the entries in use lie in it, and the others are blank.
pub open spec fn perf_inv(s: PerfState) -> bool {
    &&& s.data.len() == BUFLEN / ENTRY_LEN
    &&& 0 <= s.log_index <= s.data.len()
    &&& forall|i: int|
        s.log_index <= i < s.data.len() ==> #[trigger] s.data[i] == (PerfLogEntry {
            code: 0,
            ts: 0,
        })
}

impl PerfMgr {
    /// What holds of the manager at all times.
    pub open spec fn wf(self) -> bool {
        perf_inv(self@)
    }

    /// A manager with a blank log, for a counter that counts every clock, stops after 32 bits and
    /// takes event codes of 32 bits.
    pub fn new() -> (mgr: Self)
        ensures
            mgr.wf(),
            mgr@ == new_state(),
    {
        let mut data: Vec<PerfLogEntry> = Vec::new();
        let n: usize = BUFLEN / ENTRY_LEN;
        let mut i: usize = 0;
        while i < n
            invariant
                i <= n,
                data@ =~= blank_log(i as nat),
            decreases n - i,
        {
            data.push(PerfLogEntry { code: 0, ts: 0 });
            i = i + 1;
        }
        PerfMgr {
            data,
            log_index: 0,
            ts_cont: 0,
            saturation_limit: 0xffff_ffff,
            prescaler: 0,
            saturate: true,
            event_bit_width: 31,
            count: 0,
        }
    }

    /// Sets the limit at which the counter stops, in clock cycles. With `None` the counter rolls
    /// over freely.
    pub fn sat_limit(&mut self, limit: Option<u64>)
        ensures
            final(self)@ == (PerfState {
                saturation_limit: match limit {
                    Some(l) => l as int,
                    None => u64::MAX as int,
                },
                saturate: limit is Some,
                ..old(self)@
            }),
    {
        if let Some(l) = limit {
            self.saturation_limit = l;
            self.saturate = true;
        } else {
            self.saturate = false;
            self.saturation_limit = u64::MAX;
        }
    }

    /// Sets the number of clocks per sample, which is not zero.
    pub fn clocks_per_sample(&mut self, cps: u16)
        requires
            cps != 0,
        ensures
            final(self)@ == (PerfState { prescaler: cps - 1, ..old(self)@ }),
    {
        self.prescaler = cps - 1;
    }

    /// Sets the width of the event code in bits, which is not zero. A width above 32 stands for
    /// 32.
    pub fn code_bitwidth(&mut self, bitwidth: u8)
        requires
            bitwidth != 0,
        ensures
            final(self)@ == (PerfState {
                event_bit_width: (if bitwidth > 32 {
                    32
                } else {
                    bitwidth as int
                }) - 1,
                ..old(self)@
            }),
    {
        if bitwidth > 32 {
            self.event_bit_width = 31;
        } else {
            self.event_bit_width = bitwidth - 1;
        }
    }

    /// Starts a reset: blanks the log. The counter is to be stopped, then its queue emptied as
    /// long as [`PerfMgr::reset_drains`] says so, then [`PerfMgr::configure`] ends the reset.
    pub fn stop_and_reset(&mut self) -> (write: CsrWrite)
        ensures
            write == CsrWrite::RunStop,
            final(self)@ == blanked(old(self)@),
    {
        let n: usize = self.data.len();
        let ghost before = self@;
        let mut i: usize = 0;
        while i < n
            invariant
                i <= n,
                n == before.data.len(),
                self@ == (PerfState { data: self@.data, ..before }),
                self@.data.len() == n,
                forall|j: int|
                    0 <= j < i ==> #[trigger] self@.data[j] == (PerfLogEntry { code: 0, ts: 0 }),
            decreases n - i,
        {
            self.data[i] = PerfLogEntry { code: 0, ts: 0 };
            i = i + 1;
        }
        assert(self@.data =~= blank_log(n as nat));
        CsrWrite::RunStop
    }

    /// Whether the queue still holds an event that a reset has to take out.
    pub fn reset_drains(&self, readable: u32) -> (more: bool)
        ensures
            more == (readable == 1),
    {
        readable == 1
    }

    /// Ends a reset, which has blanked the log: the log starts over, and so does time. Returns the
    /// settings to write.
    pub fn configure(&mut self) -> (writes: [CsrWrite; 3])
        requires
            old(self).wf(),
            old(self)@.data == blank_log(old(self)@.data.len()),
        ensures
            final(self).wf(),
            final(self)@ == started_over(old(self)@),
            writes@ == seq![
                CsrWrite::SaturateLimit0((old(self)@.saturation_limit % 0x1_0000_0000) as u32),
                CsrWrite::SaturateLimit1((old(self)@.saturation_limit / 0x1_0000_0000) as u32),
                CsrWrite::Config {
                    prescaler: old(self)@.prescaler as u32,
                    saturate: if old(self)@.saturate {
                        1
                    } else {
                        0
                    },
                    event_width_minus_one: old(self)@.event_bit_width as u32,
                },
            ],
    {
        let limit: u64 = self.saturation_limit;
        assert(limit as u32 == limit % 0x1_0000_0000) by (bit_vector);
        assert((limit >> 32) as u32 == limit / 0x1_0000_0000) by (bit_vector);
        let writes: [CsrWrite; 3] = [
            CsrWrite::SaturateLimit0(limit as u32),
            CsrWrite::SaturateLimit1((limit >> 32) as u32),
            CsrWrite::Config {
                prescaler: self.prescaler as u32,
                saturate: if self.saturate {
                    1
                } else {
                    0
                },
                event_width_minus_one: self.event_bit_width as u32,
            },
        ];
        self.log_index = 0;
        self.ts_cont = 0;
        writes
    }

    /// Starts the counter.
    pub fn start(&self) -> (write: CsrWrite)
        ensures
            write == CsrWrite::RunResetRun,
    {
        CsrWrite::RunResetRun
    }

    /// Logs an event after the queue has been looked after, with `flushed` as the outcome of
    /// [`PerfMgr::flush_if_full`]: the event is lost where the log overflowed.
    ///
    /// The check adds noise to the measurement. For counts that are exact to the cycle, use
    /// [`PerfMgr::log_event_unchecked`] and flush by hand.
    pub fn log_event(&self, code: u32, flushed: Result<(), PerfError>) -> (write: Result<
        CsrWrite,
        PerfError,
    >)
        ensures
            write == (match flushed {
                Ok(_) => Ok::<CsrWrite, PerfError>(CsrWrite::PerfEventCode(code)),
                Err(e) => Err(e),
            }),
    {
        match flushed {
            Ok(_) => Ok(CsrWrite::PerfEventCode(code)),
            Err(e) => Err(e),
        }
    }

    /// Logs an event, whether or not the queue has room for it.
    pub fn log_event_unchecked(&self, code: u32) -> (write: CsrWrite)
        ensures
            write == CsrWrite::PerfEventCode(code),
    {
        CsrWrite::PerfEventCode(code)
    }

    /// Starts to move the queue into the log. The counter is to be stopped first, and
    /// [`PerfMgr::finish_flush`] ends the flush.
    pub fn flush(&self) -> (r: (FlushRun, CsrWrite))
        ensures
            r.0 == flush_start(),
            r.1 == CsrWrite::RunStop,
    {
        (
            FlushRun { ts_offset: 0, expected_i: 0, oom: false, index_wraps: true },
            CsrWrite::RunStop,
        )
    }

    /// Starts a flush where the queue is full, which a nonzero `status_full` says.
    pub fn flush_if_full(&self, status_full: u32) -> (r: Option<(FlushRun, CsrWrite)>)
        ensures
            r == (if status_full != 0 {
                Some((flush_start(), CsrWrite::RunStop))
            } else {
                None
            }),
    {
        if status_full != 0 {
            Some(self.flush())
        } else {
            None
        }
    }

    /// Moves the queue into the log for the last time, step by step: takes what came of the last
    /// step and returns what is to be done next. The counter is stopped first, and stays so. The
    /// outcome is the number of entries of the log that are in use, or an error where the log is
    /// full and an event was left in the queue. Time goes on from the last event, so the counter
    /// could be started again.
    pub fn stop_and_flush(&mut self, run: &mut FlushRun, input: FlushInput) -> (output: FlushOutput)
        requires
            old(self).wf(),
            match input {
                FlushInput::Begin => true,
                FlushInput::Status(readable) => !flush_goes_on(old(self)@, readable)
                    ==> old(self)@.ts_cont + old(run).ts_offset <= u64::MAX,
                FlushInput::Event(event) => {
                    &&& old(self)@.log_index < old(self)@.data.len()
                    &&& old(run).expected_i <= old(self)@.log_index
                    &&& old(self)@.count < u32::MAX
                    &&& old(self)@.ts_cont % 0x1_0000_0000 + event.ts <= u32::MAX
                },
            },
        ensures
            final(self).wf(),
            (final(self)@, *final(run), output) == last_flush_step(old(self)@, *old(run), input),
    {
        match input {
            FlushInput::Begin => {
                *run = FlushRun { ts_offset: 0, expected_i: 0, oom: false, index_wraps: false };
                FlushOutput::Write(CsrWrite::RunStop)
            },
            FlushInput::Status(readable) => match self.flush_step(run, readable) {
                FlushAction::ReadEvent => FlushOutput::ReadEvent,
                FlushAction::Finish => FlushOutput::Done(self.finish_stop_and_flush(run)),
            },
            FlushInput::Event(event) => {
                let in_order: bool = self.record(run, event);
                FlushOutput::ReadStatus { in_order }
            },
        }
    }

    /// Goes on with a flush, given whether the queue holds an event. Where it does and the log is
    /// full, the flush ends and notes the lack of memory.
    pub fn flush_step(&self, run: &mut FlushRun, readable: u32) -> (action: FlushAction)
        ensures
            action == (if flush_goes_on(self@, readable) {
                FlushAction::ReadEvent
            } else {
                FlushAction::Finish
            }),
            *final(run) == (FlushRun {
                oom: old(run).oom || (readable == 1 && self@.log_index >= self@.data.len()),
                ..*old(run)
            }),
    {
        if readable == 1 {
            if self.log_index < self.data.len() {
                FlushAction::ReadEvent
            } else {
                run.oom = true;
                FlushAction::Finish
            }
        } else {
            FlushAction::Finish
        }
    }

    /// Records an event that was read from the queue. Says whether its index is the expected one.
    pub fn record(&mut self, run: &mut FlushRun, event: QueuedEvent) -> (in_order: bool)
        requires
            old(self).wf(),
            old(self)@.log_index < old(self)@.data.len(),
            old(run).expected_i <= old(self)@.log_index,
            old(self)@.count < u32::MAX,
            old(self)@.ts_cont % 0x1_0000_0000 + event.ts <= u32::MAX,
        ensures
            final(self).wf(),
            final(self)@ == state_recorded(old(self)@, event),
            final(self)@.data[old(self)@.log_index].code == event.code,
            final(self)@.data[old(self)@.log_index].ts == old(self)@.ts_cont % 0x1_0000_0000
                + event.ts,
            *final(run) == run_recorded(*old(run), event),
            final(run).expected_i <= final(self)@.log_index,
            in_order == (event.index == expected_index(*old(run))),
    {
        let cont: u64 = self.ts_cont;
        assert(cont as u32 == cont % 0x1_0000_0000) by (bit_vector);
        self.count = self.count + 1;
        let at: usize = self.log_index;
        self.data[at] = PerfLogEntry { code: event.code, ts: cont as u32 + event.ts };
        run.ts_offset = event.ts;
        let expected: u32 = run.expected_i;
        assert(expected & 0xfff == expected % 4096) by (bit_vector);
        let in_order: bool = if run.index_wraps {
            event.index == expected & 0xfff
        } else {
            event.index == expected
        };
        run.expected_i = expected + 1;
        self.log_index = at + 1;
        in_order
    }

    /// Moves the start of time on to the last event that was read.
    fn advance_time(&mut self, run: &FlushRun)
        requires
            old(self).wf(),
            old(self)@.ts_cont + run.ts_offset <= u64::MAX,
        ensures
            final(self).wf(),
            final(self)@ == time_advanced(old(self)@, *run),
    {
        self.ts_cont = self.ts_cont + run.ts_offset as u64;
    }

    /// Ends a flush: time goes on from the last event, and the counter is to be restarted. The
    /// outcome is an error where an event was left in the queue.
    pub fn finish_flush(&mut self, run: &FlushRun) -> (r: (CsrWrite, Result<(), PerfError>))
        requires
            old(self).wf(),
            old(self)@.ts_cont + run.ts_offset <= u64::MAX,
        ensures
            final(self).wf(),
            final(self)@ == time_advanced(old(self)@, *run),
            r.0 == CsrWrite::RunResetRun,
            r.1 == (if run.oom {
                Err::<(), PerfError>(PerfError::OutOfMemory)
            } else {
                Ok(())
            }),
    {
        self.advance_time(run);
        if !run.oom {
            (CsrWrite::RunResetRun, Ok(()))
        } else {
            (CsrWrite::RunResetRun, Err(PerfError::OutOfMemory))
        }
    }

    /// Ends the last flush.
    fn finish_stop_and_flush(&mut self, run: &FlushRun) -> (r: Result<u32, PerfError>)
        requires
            old(self).wf(),
            old(self)@.ts_cont + run.ts_offset <= u64::MAX,
        ensures
            final(self).wf(),
            final(self)@ == time_advanced(old(self)@, *run),
            r == last_flush_outcome(old(self)@, *run),
    {
        self.advance_time(run);
        if !run.oom {
            Ok(self.log_index as u32)
        } else {
            Err(PerfError::OutOfMemory)
        }
    }

    /// The log.
    pub fn log(&self) -> (log: &Vec<PerfLogEntry>)
        ensures
            log@ == self@.data,
    {
        &self.data
    }

    /// The number of entries of the log that are in use.
    pub fn log_len(&self) -> (n: usize)
        ensures
            n == self@.log_index,
    {
        self.log_index
    }

    /// The number of events ever copied into the log.
    pub fn events_copied(&self) -> (n: u32)
        ensures
            n == self@.count,
    {
        self.count
    }

    /// The time of the last reset of the counter.
    pub fn time_base(&self) -> (t: u64)
        ensures
            t == self@.ts_cont,
    {
        self.ts_cont
    }

    /// The offsets of the pages of the log's memory, in order.
    pub fn page_offsets(&self) -> (offsets: Vec<usize>)
        ensures
            offsets@ == Seq::new((BUFLEN / PAGE_LEN) as nat, |i: int| (i * PAGE_LEN) as usize),
    {
        let mut offsets: Vec<usize> = Vec::new();
        let mut page: usize = 0;
        while page < BUFLEN
            invariant
                page <= BUFLEN,
                page == offsets@.len() * PAGE_LEN,
                offsets@ =~= Seq::new(offsets@.len(), |i: int| (i * PAGE_LEN) as usize),
            decreases BUFLEN - page,
        {
            offsets.push(page);
            page = page + PAGE_LEN;
        }
        offsets
    }
}

/// The state and the flush when the queue, which holds `queue`, has been gone through step by
/// step.
pub open spec fn flush_steps(s: PerfState, run: FlushRun, queue: Seq<QueuedEvent>) -> (
    PerfState,
    FlushRun,
)
    decreases queue.len(),
{
    if queue.len() == 0 {
        (s, run)
    } else if flush_goes_on(s, 1) {
        let event = queue[0];
        flush_steps(state_recorded(s, event), run_recorded(run, event), queue.skip(1))
    } else {
        (s, FlushRun { oom: true, ..run })
    }
}

/// The number of events of a queue of length `queued` that the log has room for.
pub open spec fn events_that_fit(s: PerfState, queued: nat) -> int {
    if queued <= s.data.len() - s.log_index {
        queued as int
    } else {
        s.data.len() - s.log_index
    }
}

/// A flush copies the queue into the log behind the entries in use, in order, as far as there is
/// room; it leaves all other entries alone, counts what it copied, remembers the time of the
/// last event copied, and reports a lack of memory exactly where events were left over.
pub proof fn law_flush_copies_queue(s: PerfState, run: FlushRun, queue: Seq<QueuedEvent>)
    requires
        0 <= s.log_index <= s.data.len(),
        !run.oom,
    ensures
        ({
            let n = events_that_fit(s, queue.len());
            let (t, end) = flush_steps(s, run, queue);
            &&& t == (PerfState {
                data: t.data,
                log_index: s.log_index + n,
                count: s.count + n,
                ..s
            })
            &&& t.data.len() == s.data.len()
            &&& forall|i: int|
                0 <= i < n ==> #[trigger] t.data[s.log_index + i] == log_entry(
                    s.ts_cont,
                    queue[i],
                )
            &&& forall|i: int|
                0 <= i < s.data.len() && !(s.log_index <= i < s.log_index + n)
                    ==> #[trigger] t.data[i] == s.data[i]
            &&& end.oom == (n < queue.len())
            &&& end.ts_offset == (if n > 0 {
                queue[n - 1].ts
            } else {
                run.ts_offset
            })
        }),
    decreases queue.len(),
{
    if queue.len() > 0 && flush_goes_on(s, 1) {
        let event = queue[0];
        let next = state_recorded(s, event);
        let rest = queue.skip(1);
        law_flush_copies_queue(next, run_recorded(run, event), rest);
        let n = events_that_fit(s, queue.len());
        let (t, end) = flush_steps(s, run, queue);
        assert forall|i: int| 0 <= i < n implies #[trigger] t.data[s.log_index + i] == log_entry(
            s.ts_cont,
            queue[i],
        ) by {
            if i == 0 {
                assert(t.data[s.log_index] == next.data[s.log_index]);
            } else {
                assert(rest[i - 1] == queue[i]);
                assert(t.data[next.log_index + (i - 1)] == t.data[s.log_index + i]);
            }
        }
    }
}

/// The state and the outcome when the steps of a last flush have gone through the queue, which
/// holds `queue`.
pub open spec fn last_flush_steps(s: PerfState, run: FlushRun, queue: Seq<QueuedEvent>) -> (
    PerfState,
    FlushOutput,
)
    decreases queue.len(),
{
    let status = FlushInput::Status(
        if queue.len() > 0 {
            1
        } else {
            0
        },
    );
    let (t, next, output) = last_flush_step(s, run, status);
    if output == FlushOutput::ReadEvent && queue.len() > 0 {
        let (u, after, _) = last_flush_step(t, next, FlushInput::Event(queue[0]));
        last_flush_steps(u, after, queue.skip(1))
    } else {
        (t, output)
    }
}

/// A last flush returns the number of entries that the log then holds where the whole queue has
/// found room, and otherwise an error. Either way the log holds what fits of the queue, as after
/// any flush, and time goes on from the last event that was copied.
pub proof fn law_last_flush_counts_entries(s: PerfState, queue: Seq<QueuedEvent>)
    requires
        0 <= s.log_index <= s.data.len(),
    ensures
        ({
            let (begun, run, _) = last_flush_step(s, last_flush_start(), FlushInput::Begin);
            let (t, output) = last_flush_steps(begun, run, queue);
            let (copied, end) = flush_steps(s, last_flush_start(), queue);
            &&& t == time_advanced(copied, end)
            &&& t.log_index == s.log_index + events_that_fit(s, queue.len())
            &&& output == FlushOutput::Done(
                if s.log_index + queue.len() <= s.data.len() {
                    Ok::<u32, PerfError>((s.log_index + queue.len()) as u32)
                } else {
                    Err(PerfError::OutOfMemory)
                },
            )
        }),
{
    lemma_last_flush_steps(s, last_flush_start(), queue);
    law_flush_copies_queue(s, last_flush_start(), queue);
}

proof fn lemma_last_flush_steps(s: PerfState, run: FlushRun, queue: Seq<QueuedEvent>)
    requires
        !run.oom,
    ensures
        ({
            let (copied, end) = flush_steps(s, run, queue);
            last_flush_steps(s, run, queue) == (
                time_advanced(copied, end),
                FlushOutput::Done(last_flush_outcome(copied, end)),
            )
        }),
    decreases queue.len(),
{
    if queue.len() > 0 && flush_goes_on(s, 1) {
        lemma_last_flush_steps(
            state_recorded(s, queue[0]),
            run_recorded(run, queue[0]),
            queue.skip(1),
        );
    }
}

/// A use of the manager that changes its state.
pub enum PerfCall {
    /// The settings of the counter become these.
    Settings { saturation_limit: int, prescaler: int, saturate: bool, event_bit_width: int },
    /// The log is blanked, then it and time start over.
    Reset,
    /// A flush, which finds this in the queue.
    Flush(Seq<QueuedEvent>),
    /// A last flush, which finds this in the queue.
    LastFlush(Seq<QueuedEvent>),
}

/// The state after a flush that starts with `run` and finds `queue` in the queue.
pub open spec fn flushed(s: PerfState, run: FlushRun, queue: Seq<QueuedEvent>) -> PerfState {
    let (copied, end) = flush_steps(s, run, queue);
    time_advanced(copied, end)
}

/// The state after one use of the manager.
pub open spec fn after_call(s: PerfState, call: PerfCall) -> PerfState {
    match call {
        PerfCall::Settings { saturation_limit, prescaler, saturate, event_bit_width } => PerfState {
            saturation_limit,
            prescaler,
            saturate,
            event_bit_width,
            ..s
        },
        PerfCall::Reset => started_over(blanked(s)),
        PerfCall::Flush(queue) => flushed(s, flush_start(), queue),
        PerfCall::LastFlush(queue) => flushed(s, last_flush_start(), queue),
    }
}

/// The state of a manager after its uses, one after the other.
pub open spec fn after_calls(calls: Seq<PerfCall>) -> PerfState
    decreases calls.len(),
{
    if calls.len() == 0 {
        new_state()
    } else {
        after_call(after_calls(calls.drop_last()), calls.last())
    }
}

/// The entries for the events of `queue` that a flush takes out of it.
pub open spec fn taken_entries(s: PerfState, queue: Seq<QueuedEvent>) -> Seq<PerfLogEntry> {
    Seq::new(
        events_that_fit(s, queue.len()) as nat,
        |i: int| log_entry(s.ts_cont, queue[i]),
    )
}

/// The entries for the events that flushes have taken out of the queue since the manager was made
/// or last reset, in the order in which they were taken.
pub open spec fn taken_since_reset(calls: Seq<PerfCall>) -> Seq<PerfLogEntry>
    decreases calls.len(),
{
    if calls.len() == 0 {
        Seq::empty()
    } else {
        let s = after_calls(calls.drop_last());
        let before = taken_since_reset(calls.drop_last());
        match calls.last() {
            PerfCall::Settings { .. } => before,
            PerfCall::Reset => Seq::empty(),
            PerfCall::Flush(queue) => before + taken_entries(s, queue),
            PerfCall::LastFlush(queue) => before + taken_entries(s, queue),
        }
    }
}

/// However a manager has been used, the entries of its log that are in use are exactly those for the
/// events that flushes have taken out of the queue since it was made or last reset, in order and
/// without a gap, and all other entries are blank.
pub proof fn law_log_holds_events_since_reset(calls: Seq<PerfCall>)
    ensures
        ({
            let s = after_calls(calls);
            let taken = taken_since_reset(calls);
            &&& perf_inv(s)
            &&& s.log_index == taken.len()
            &&& s.data.take(s.log_index) == taken
        }),
    decreases calls.len(),
{
    if calls.len() == 0 {
        assert(new_state().data.take(0) =~= Seq::empty());
    } else {
        let front = calls.drop_last();
        law_log_holds_events_since_reset(front);
        let s = after_calls(front);
        match calls.last() {
            PerfCall::Settings { .. } => {},
            PerfCall::Reset => {
                assert(after_calls(calls).data.take(0) =~= Seq::empty());
            },
            PerfCall::Flush(queue) => {
                lemma_flush_appends(s, flush_start(), queue, taken_since_reset(front));
            },
            PerfCall::LastFlush(queue) => {
                lemma_flush_appends(s, last_flush_start(), queue, taken_since_reset(front));
            },
        }
    }
}

proof fn lemma_flush_appends(
    s: PerfState,
    run: FlushRun,
    queue: Seq<QueuedEvent>,
    before: Seq<PerfLogEntry>,
)
    requires
        perf_inv(s),
        !run.oom,
        s.log_index == before.len(),
        s.data.take(s.log_index) == before,
    ensures
        ({
            let t = flushed(s, run, queue);
            &&& perf_inv(t)
            &&& t.log_index == (before + taken_entries(s, queue)).len()
            &&& t.data.take(t.log_index) == before + taken_entries(s, queue)
        }),
{
    law_flush_copies_queue(s, run, queue);
    let t = flushed(s, run, queue);
    let taken = taken_entries(s, queue);
    let n = events_that_fit(s, queue.len());
    assert forall|i: int| 0 <= i < t.log_index implies #[trigger] t.data[i] == (before + taken)[i] by {
        if i < s.log_index {
            assert(s.data.take(s.log_index)[i] == before[i]);
        } else {
            assert(t.data[s.log_index + (i - s.log_index)] == log_entry(
                s.ts_cont,
                queue[i - s.log_index],
            ));
        }
    }
    assert(t.data.take(t.log_index) =~= before + taken);
}

/// Recording an event writes one entry: the code is that of the event, and the time is that of the
/// last reset of the counter plus that of the event, wherever 32 bits hold it. All other entries stay,
/// one more entry is in use, one more event has been copied, and neither time nor the settings
/// change. The flush remembers the time of the event and that it has seen one more.
pub proof fn law_recorded_entry(s: PerfState, run: FlushRun, event: QueuedEvent, i: int)
    requires
        0 <= s.log_index < s.data.len(),
        0 <= i < s.data.len(),
        run.expected_i < u32::MAX,
    ensures
        ({
            let t = state_recorded(s, event);
            let next = run_recorded(run, event);
            &&& t.data.len() == s.data.len()
            &&& t.data[s.log_index].code == event.code
            &&& s.ts_cont >= 0 && s.ts_cont + event.ts < 0x1_0000_0000 ==> t.data[s.log_index].ts
                == s.ts_cont + event.ts
            &&& s.ts_cont % 0x1_0000_0000 + event.ts < 0x1_0000_0000 ==> t.data[s.log_index].ts
                == s.ts_cont % 0x1_0000_0000 + event.ts
            &&& i != s.log_index ==> t.data[i] == s.data[i]
            &&& t.log_index == s.log_index + 1
            &&& t.count == s.count + 1
            &&& t.ts_cont == s.ts_cont
            &&& t.saturation_limit == s.saturation_limit
            &&& t.prescaler == s.prescaler
            &&& t.saturate == s.saturate
            &&& t.event_bit_width == s.event_bit_width
            &&& next.ts_offset == event.ts
            &&& next.expected_i == run.expected_i + 1
            &&& next.oom == run.oom
            &&& next.index_wraps == run.index_wraps
        }),
{
}

/// A flush puts the `i`-th event of the queue behind the entries that were in use, with the code of
/// the event and with its time counted from when time began, wherever 32 bits hold it. It copies
/// every event that there is room for and no other, and time goes on from the last event copied.
pub proof fn law_flush_keeps_codes_and_times(
    s: PerfState,
    run: FlushRun,
    queue: Seq<QueuedEvent>,
    i: int,
)
    requires
        0 <= s.log_index <= s.data.len(),
        0 <= s.ts_cont,
        !run.oom,
        run.ts_offset == 0,
        0 <= i < queue.len(),
    ensures
        ({
            let t = flushed(s, run, queue);
            let at = s.log_index + i;
            let room = s.data.len() - s.log_index;
            &&& at < s.data.len() ==> t.data[at].code == queue[i].code
            &&& at < s.data.len() && s.ts_cont + queue[i].ts < 0x1_0000_0000 ==> t.data[at].ts
                == s.ts_cont + queue[i].ts
            &&& queue.len() <= room ==> t.log_index == s.log_index + queue.len() && t.ts_cont
                == s.ts_cont + queue.last().ts
            &&& queue.len() > room ==> t.log_index == s.data.len()
            &&& queue.len() > room > 0 ==> t.ts_cont == s.ts_cont + queue[room - 1].ts
            &&& room == 0 ==> t.ts_cont == s.ts_cont
            &&& flush_steps(s, run, queue).1.oom == (queue.len() > room)
        }),
{
    law_flush_copies_queue(s, run, queue);
    let t = flushed(s, run, queue);
    if s.log_index + i < s.data.len() {
        assert(t.data[s.log_index + i] == log_entry(s.ts_cont, queue[i]));
    }
}

/// A flush of an empty queue leaves everything as it was.
pub proof fn law_empty_flush_changes_nothing(s: PerfState)
    ensures
        flushed(s, flush_start(), Seq::empty()) == s,
        flushed(s, last_flush_start(), Seq::empty()) == s,
        !flush_steps(s, flush_start(), Seq::empty()).1.oom,
        !flush_steps(s, last_flush_start(), Seq::empty()).1.oom,
{
}

/// Times in the log are continuous: the difference of the times of two entries is the number of
/// samples between their events, also where a flush lies between them. The time of an event is
/// counted from the reset of the counter that the flush before it ends with.
pub proof fn law_times_go_on_across_flushes(
    s: PerfState,
    first: Seq<QueuedEvent>,
    second: Seq<QueuedEvent>,
    i: int,
    j: int,
)
    requires
        0 <= s.log_index,
        s.log_index + first.len() + second.len() <= s.data.len(),
        0 <= s.ts_cont,
        0 <= i < first.len(),
        0 <= j < second.len(),
        first[i].ts <= first.last().ts,
        s.ts_cont + first.last().ts + second[j].ts < 0x1_0000_0000,
    ensures
        ({
            let t = flushed(flushed(s, flush_start(), first), flush_start(), second);
            let a = t.data[s.log_index + i];
            let b = t.data[s.log_index + first.len() + j];
            &&& a.code == first[i].code
            &&& b.code == second[j].code
            &&& a.ts == s.ts_cont + first[i].ts
            &&& b.ts - a.ts == (first.last().ts - first[i].ts) + second[j].ts
        }),
{
    let m = flushed(s, flush_start(), first);
    law_flush_keeps_codes_and_times(s, flush_start(), first, i);
    law_flush_copies_queue(s, flush_start(), first);
    law_flush_keeps_codes_and_times(m, flush_start(), second, j);
    law_flush_copies_queue(m, flush_start(), second);
    let t = flushed(m, flush_start(), second);
    assert(t.data[s.log_index + i] == m.data[s.log_index + i]);
}

/// The `i`-th event of a flush is in order where its index is `i`, of which twelve bits count; in a
/// last flush all bits count.
pub proof fn law_indices_count_up(
    s: PerfState,
    run: FlushRun,
    queue: Seq<QueuedEvent>,
)
    requires
        run == flush_start() || run == last_flush_start(),
        0 <= s.log_index,
        s.log_index + queue.len() <= s.data.len(),
        queue.len() < u32::MAX,
    ensures
        ({
            let next = flush_steps(s, run, queue).1;
            &&& run == flush_start() ==> expected_index(next) == queue.len() % 4096
            &&& run == last_flush_start() ==> expected_index(next) == queue.len()
        }),
{
    lemma_expected_i(s, run, queue);
}

proof fn lemma_expected_i(s: PerfState, run: FlushRun, queue: Seq<QueuedEvent>)
    requires
        0 <= s.log_index,
        s.log_index + queue.len() <= s.data.len(),
        run.expected_i + queue.len() < u32::MAX,
    ensures
        flush_steps(s, run, queue).1.expected_i == run.expected_i + queue.len(),
        flush_steps(s, run, queue).1.index_wraps == run.index_wraps,
    decreases queue.len(),
{
    if queue.len() > 0 {
        lemma_expected_i(
            state_recorded(s, queue[0]),
            run_recorded(run, queue[0]),
            queue.skip(1),
        );
    }
}

/// A step of a last flush. It begins by stopping the counter. It asks for an event exactly where the
/// queue holds one and the log has room. Where it ends, time moves on by the time of the last event,
/// the log stays, and the outcome is the number of entries in use, or the lack of memory where the
/// queue holds an event still. An event that was read is recorded, and its index is compared with
/// the number of events seen before.
pub proof fn law_last_flush_step(s: PerfState, run: FlushRun, readable: u32, event: QueuedEvent)
    requires
        0 <= s.log_index <= s.data.len(),
        s.data.len() <= u32::MAX,
        !run.oom,
    ensures
        ({
            let (t, next, output) = last_flush_step(s, run, FlushInput::Begin);
            &&& t == s
            &&& output == FlushOutput::Write(CsrWrite::RunStop)
            &&& next.ts_offset == 0
            &&& next.expected_i == 0
            &&& !next.oom
            &&& !next.index_wraps
        }),
        ({
            let (t, next, output) = last_flush_step(s, run, FlushInput::Status(readable));
            &&& output == FlushOutput::ReadEvent <==> readable == 1 && s.log_index < s.data.len()
            &&& output == FlushOutput::ReadEvent ==> t == s && next == run
            &&& readable != 1 ==> (output matches FlushOutput::Done(Ok(n)) && n == s.log_index)
            &&& readable == 1 && s.log_index == s.data.len() ==> output == FlushOutput::Done(
                Err(PerfError::OutOfMemory),
            )
            &&& output is Done ==> t.ts_cont == s.ts_cont + run.ts_offset && t.data == s.data
                && t.log_index == s.log_index && t.count == s.count
        }),
        ({
            let (t, next, output) = last_flush_step(s, run, FlushInput::Event(event));
            &&& t == state_recorded(s, event)
            &&& next == run_recorded(run, event)
            &&& !run.index_wraps ==> output == (FlushOutput::ReadStatus {
                in_order: event.index == run.expected_i,
            })
        }),
{
}

/// A new manager has a log of 65536 blank entries, none of them in use. Time starts at zero, and the
/// counter counts every clock, stops after 32 bits and takes codes of 32 bits.
pub proof fn law_new_manager_is_blank(i: int)
    requires
        0 <= i < 65536,
    ensures
        ({
            let s = new_state();
            &&& s.data.len() == 65536
            &&& s.data[i].code == 0
            &&& s.data[i].ts == 0
            &&& s.log_index == 0
            &&& s.ts_cont == 0
            &&& s.count == 0
            &&& s.saturation_limit == 0xffff_ffff
            &&& s.prescaler == 0
            &&& s.saturate
            &&& s.event_bit_width == 31
        }),
{
}

/// A reset leaves a blank log of the same length with no entry in use, and time starts over. The
/// settings and the number of events ever copied stay.
pub proof fn law_reset_blanks(s: PerfState, i: int)
    requires
        0 <= i < s.data.len(),
    ensures
        blanked(s).data.len() == s.data.len(),
        blanked(s).data[i].code == 0,
        blanked(s).data[i].ts == 0,
        blanked(s) == (PerfState { data: blanked(s).data, ..s }),
        started_over(s).data == s.data,
        started_over(s).log_index == 0,
        started_over(s).ts_cont == 0,
        started_over(s) == (PerfState { log_index: 0, ts_cont: 0, ..s }),
{
}

/// However a manager has been used, its log has 65536 entries, and those that are not in use are
/// blank.
pub proof fn law_unused_entries_are_blank(calls: Seq<PerfCall>, i: int)
    ensures
        ({
            let s = after_calls(calls);
            &&& s.data.len() == 65536
            &&& 0 <= s.log_index <= 65536
            &&& s.log_index <= i < 65536 ==> s.data[i].code == 0 && s.data[i].ts == 0
        }),
{
    law_log_holds_events_since_reset(calls);
}

/// A flush asks for the next event exactly where the queue holds one and the log has room. Where it
/// ends, time moves on by the time of the last event, and nothing else changes. It starts without a
/// last event, with none seen and with nothing left over, and expects indices of twelve bits; a last
/// flush expects indices of any size, and its outcome is the number of entries in use unless
/// something was left over.
pub proof fn law_flush_begins_and_ends(s: PerfState, run: FlushRun, readable: u32)
    ensures
        flush_goes_on(s, readable) <==> readable == 1 && s.log_index < s.data.len(),
        time_advanced(s, run).ts_cont == s.ts_cont + run.ts_offset,
        time_advanced(s, run) == (PerfState { ts_cont: s.ts_cont + run.ts_offset, ..s }),
        run.index_wraps ==> expected_index(run) == run.expected_i % 4096,
        !run.index_wraps ==> expected_index(run) == run.expected_i,
        flush_start().ts_offset == 0,
        flush_start().expected_i == 0,
        !flush_start().oom,
        flush_start().index_wraps,
        last_flush_start().ts_offset == 0,
        last_flush_start().expected_i == 0,
        !last_flush_start().oom,
        !last_flush_start().index_wraps,
        run.oom ==> last_flush_outcome(s, run) == Err::<u32, PerfError>(PerfError::OutOfMemory),
        !run.oom && 0 <= s.log_index <= u32::MAX ==> (last_flush_outcome(s, run) matches Ok(n) && n
            == s.log_index),
{
}

/// A last flush that ends changes nothing but the time, and one that has left an event over fails.
pub proof fn law_last_flush_ends(s: PerfState, run: FlushRun, readable: u32)
    requires
        readable != 1 || s.log_index >= s.data.len(),
    ensures
        ({
            let (t, next, output) = last_flush_step(s, run, FlushInput::Status(readable));
            &&& t == (PerfState { ts_cont: s.ts_cont + run.ts_offset, ..s })
            &&& output is Done
            &&& run.oom || readable == 1 ==> output == FlushOutput::Done(
                Err(PerfError::OutOfMemory),
            )
            &&& next == (FlushRun { oom: next.oom, ..run })
            &&& next.oom == (run.oom || readable == 1)
        }),
{
}

} // verus!
