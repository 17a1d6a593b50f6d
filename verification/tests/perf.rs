use xous_services::perf::{
    CsrWrite, FlushAction, FlushInput, FlushOutput, FlushRun, PerfClient, PerfError, PerfLogEntry, PerfMgr, QueuedEvent,
    BUFLEN, ENTRY_LEN, PAGE_LEN,
};

const CAPACITY: usize = BUFLEN / ENTRY_LEN;

fn event(code: u32, ts: u32, index: u32) -> QueuedEvent {
    QueuedEvent { code, ts, index }
}

/// Moves a queue into the log, as far as there is room, and returns the indices out of order.
fn drain(mgr: &mut PerfMgr, run: &mut FlushRun, queue: &[QueuedEvent]) -> Vec<u32> {
    let mut out_of_order = vec![];
    let mut next = 0;
    loop {
        let readable = if next < queue.len() { 1 } else { 0 };
        match mgr.flush_step(run, readable) {
            FlushAction::ReadEvent => {
                if !mgr.record(run, queue[next]) {
                    out_of_order.push(queue[next].index);
                }
                next += 1;
            }
            FlushAction::Finish => return out_of_order,
        }
    }
}

/// Goes through the last flush of a queue. Returns the outcome and the indices out of order.
fn last_flush(mgr: &mut PerfMgr, queue: &[QueuedEvent]) -> (Result<u32, PerfError>, Vec<u32>) {
    let (mut run, _) = mgr.flush();
    let mut out_of_order = vec![];
    let mut next = 0;
    assert_eq!(
        mgr.stop_and_flush(&mut run, FlushInput::Begin),
        FlushOutput::Write(CsrWrite::RunStop)
    );
    assert!(!run.index_wraps);
    loop {
        let readable = if next < queue.len() { 1 } else { 0 };
        match mgr.stop_and_flush(&mut run, FlushInput::Status(readable)) {
            FlushOutput::ReadEvent => {
                let event = queue[next];
                match mgr.stop_and_flush(&mut run, FlushInput::Event(event)) {
                    FlushOutput::ReadStatus { in_order: true } => {}
                    FlushOutput::ReadStatus { in_order: false } => out_of_order.push(event.index),
                    output => panic!("{:?}", output),
                }
                next += 1;
            }
            FlushOutput::Done(outcome) => return (outcome, out_of_order),
            output => panic!("{:?}", output),
        }
    }
}

#[test]
fn client_logs_through_its_port() {
    let client = PerfClient::new(7u8);
    assert_eq!(client.event_csr, 7);
    assert_eq!(client.log_event_unchecked(0xdead), CsrWrite::PerfEventCode(0xdead));
}

#[test]
fn new_log_is_blank_and_has_full_length() {
    let mgr = PerfMgr::new();
    assert_eq!(mgr.log().len(), 65536);
    assert_eq!(CAPACITY, 65536);
    assert!(mgr.log().iter().all(|e| *e == PerfLogEntry { code: 0, ts: 0 }));
    assert_eq!(mgr.log_len(), 0);
    assert_eq!(mgr.events_copied(), 0);
    assert_eq!(mgr.time_base(), 0);
}

#[test]
fn default_settings() {
    let mut mgr = PerfMgr::new();
    assert_eq!(
        mgr.configure(),
        [
            CsrWrite::SaturateLimit0(0xffff_ffff),
            CsrWrite::SaturateLimit1(0),
            CsrWrite::Config { prescaler: 0, saturate: 1, event_width_minus_one: 31 },
        ]
    );
}

#[test]
fn settings_reach_the_registers() {
    let mut mgr = PerfMgr::new();
    mgr.sat_limit(Some(0x1_2345_6789));
    mgr.clocks_per_sample(100);
    mgr.code_bitwidth(8);
    assert_eq!(
        mgr.configure(),
        [
            CsrWrite::SaturateLimit0(0x2345_6789),
            CsrWrite::SaturateLimit1(1),
            CsrWrite::Config { prescaler: 99, saturate: 1, event_width_minus_one: 7 },
        ]
    );
    mgr.sat_limit(None);
    mgr.clocks_per_sample(u16::MAX);
    mgr.code_bitwidth(33);
    assert_eq!(
        mgr.configure(),
        [
            CsrWrite::SaturateLimit0(u32::MAX),
            CsrWrite::SaturateLimit1(u32::MAX),
            CsrWrite::Config { prescaler: 65534, saturate: 0, event_width_minus_one: 31 },
        ]
    );
    mgr.code_bitwidth(32);
    assert_eq!(
        mgr.configure()[2],
        CsrWrite::Config { prescaler: 65534, saturate: 0, event_width_minus_one: 31 }
    );
    mgr.code_bitwidth(1);
    assert_eq!(
        mgr.configure()[2],
        CsrWrite::Config { prescaler: 65534, saturate: 0, event_width_minus_one: 0 }
    );
}

#[test]
fn starting_resets_and_runs() {
    let mgr = PerfMgr::new();
    assert_eq!(mgr.start(), CsrWrite::RunResetRun);
    assert_eq!(mgr.log_event_unchecked(5), CsrWrite::PerfEventCode(5));
}

#[test]
fn events_are_logged_unless_the_log_overflowed() {
    let mgr = PerfMgr::new();
    assert_eq!(mgr.log_event(9, Ok(())), Ok(CsrWrite::PerfEventCode(9)));
    assert_eq!(mgr.log_event(9, Err(PerfError::OutOfMemory)), Err(PerfError::OutOfMemory));
}

#[test]
fn flush_only_if_full() {
    let mgr = PerfMgr::new();
    assert_eq!(mgr.flush_if_full(0), None);
    let (run, write) = mgr.flush_if_full(1).unwrap();
    assert_eq!(write, CsrWrite::RunStop);
    assert_eq!(run, FlushRun { ts_offset: 0, expected_i: 0, oom: false, index_wraps: true });
    assert_eq!(mgr.flush_if_full(2), Some((run, write)));
}

#[test]
fn flush_copies_the_queue_in_order() {
    let mut mgr = PerfMgr::new();
    let (mut run, stop) = mgr.flush();
    assert_eq!(stop, CsrWrite::RunStop);
    let strays = drain(&mut mgr, &mut run, &[event(1, 10, 0), event(2, 20, 1), event(3, 35, 2)]);
    assert!(strays.is_empty());
    assert_eq!(mgr.finish_flush(&run), (CsrWrite::RunResetRun, Ok(())));
    assert_eq!(mgr.time_base(), 35);
    // Time goes on from the last event.
    let (mut run, _) = mgr.flush();
    drain(&mut mgr, &mut run, &[event(4, 5, 0)]);
    assert_eq!(mgr.finish_flush(&run), (CsrWrite::RunResetRun, Ok(())));
    assert_eq!(
        mgr.log()[..5],
        [
            PerfLogEntry { code: 1, ts: 10 },
            PerfLogEntry { code: 2, ts: 20 },
            PerfLogEntry { code: 3, ts: 35 },
            PerfLogEntry { code: 4, ts: 40 },
            PerfLogEntry { code: 0, ts: 0 },
        ]
    );
    assert_eq!(mgr.log_len(), 4);
    assert_eq!(mgr.events_copied(), 4);
    assert_eq!(mgr.time_base(), 40);
}

#[test]
fn empty_flush_changes_nothing() {
    let mut mgr = PerfMgr::new();
    let (mut run, _) = mgr.flush();
    drain(&mut mgr, &mut run, &[]);
    assert_eq!(mgr.finish_flush(&run), (CsrWrite::RunResetRun, Ok(())));
    assert_eq!((mgr.log_len(), mgr.time_base()), (0, 0));
}

#[test]
fn last_flush_returns_the_number_of_events() {
    let mut mgr = PerfMgr::new();
    let (mut run, _) = mgr.flush();
    drain(&mut mgr, &mut run, &[event(1, 1, 0), event(2, 2, 1)]);
    let _ = mgr.finish_flush(&run);
    assert_eq!(last_flush(&mut mgr, &[event(3, 3, 0)]), (Ok(3), vec![]));
    assert_eq!(mgr.log()[2], PerfLogEntry { code: 3, ts: 5 });
    assert_eq!((mgr.log_len(), mgr.time_base()), (3, 5));
    // Without events the outcome is the same, and nothing changes.
    assert_eq!(last_flush(&mut mgr, &[]), (Ok(3), vec![]));
    assert_eq!((mgr.log_len(), mgr.time_base()), (3, 5));
}

#[test]
fn full_log_is_reported() {
    let mut mgr = PerfMgr::new();
    let queue: Vec<QueuedEvent> =
        (0..CAPACITY as u32 + 2).map(|i| event(i + 1, i, i % 4096)).collect();
    let (mut run, _) = mgr.flush();
    let strays = drain(&mut mgr, &mut run, &queue);
    assert!(strays.is_empty());
    assert!(run.oom);
    assert_eq!(
        mgr.finish_flush(&run),
        (CsrWrite::RunResetRun, Err(PerfError::OutOfMemory))
    );
    assert_eq!(mgr.log_len(), CAPACITY);
    assert_eq!(mgr.log()[CAPACITY - 1].code, CAPACITY as u32);
    // The last flush fails as well while an event is left.
    assert_eq!(last_flush(&mut mgr, &[event(1, 0, 0)]).0, Err(PerfError::OutOfMemory));
    // With an empty queue it succeeds, though the log is full.
    assert_eq!(last_flush(&mut mgr, &[]).0, Ok(CAPACITY as u32));
}

#[test]
fn exactly_full_log_is_no_error() {
    let mut mgr = PerfMgr::new();
    let queue: Vec<QueuedEvent> = (0..CAPACITY as u32).map(|i| event(i, 0, i % 4096)).collect();
    let (mut run, _) = mgr.flush();
    drain(&mut mgr, &mut run, &queue);
    assert_eq!(mgr.finish_flush(&run), (CsrWrite::RunResetRun, Ok(())));
}

#[test]
fn indices_out_of_order_are_noticed() {
    let mut mgr = PerfMgr::new();
    let (mut run, _) = mgr.flush();
    assert_eq!(drain(&mut mgr, &mut run, &[event(1, 0, 0), event(2, 0, 5), event(3, 0, 2)]), [5]);
    // Twelve bits of the index count in a flush, all of them in the last one.
    let queue: Vec<QueuedEvent> = (0..4097).map(|i| event(1, 0, i % 4096)).collect();
    let (mut run, _) = mgr.flush();
    assert!(drain(&mut mgr, &mut run, &queue).is_empty());
    assert_eq!(last_flush(&mut mgr, &queue).1, [0]);
}

#[test]
fn reset_blanks_the_log() {
    let mut mgr = PerfMgr::new();
    let (mut run, _) = mgr.flush();
    drain(&mut mgr, &mut run, &[event(1, 10, 0)]);
    let _ = mgr.finish_flush(&run);
    assert_eq!(mgr.stop_and_reset(), CsrWrite::RunStop);
    assert!(mgr.reset_drains(1));
    assert!(!mgr.reset_drains(0));
    let _ = mgr.configure();
    assert!(mgr.log().iter().all(|e| *e == PerfLogEntry { code: 0, ts: 0 }));
    assert_eq!((mgr.log_len(), mgr.time_base()), (0, 0));
    // The number of events ever copied is kept, and the last flush counts the entries in the log.
    assert_eq!(mgr.events_copied(), 1);
    assert_eq!(last_flush(&mut mgr, &[event(7, 1, 0), event(8, 2, 1)]).0, Ok(2));
    assert_eq!(mgr.events_copied(), 3);
}

#[test]
fn log_holds_the_events_since_the_reset() {
    let mut mgr = PerfMgr::new();
    let (mut run, _) = mgr.flush();
    drain(&mut mgr, &mut run, &[event(1, 10, 0), event(2, 20, 1)]);
    let _ = mgr.finish_flush(&run);
    let _ = mgr.stop_and_reset();
    let _ = mgr.configure();
    for (code, ts) in [(3, 5), (4, 6)] {
        let (mut run, _) = mgr.flush();
        drain(&mut mgr, &mut run, &[event(code, ts, 0)]);
        let _ = mgr.finish_flush(&run);
    }
    assert_eq!(last_flush(&mut mgr, &[event(5, 7, 0)]).0, Ok(3));
    assert_eq!(
        mgr.log()[..3],
        [
            PerfLogEntry { code: 3, ts: 5 },
            PerfLogEntry { code: 4, ts: 11 },
            PerfLogEntry { code: 5, ts: 18 },
        ]
    );
    assert!(mgr.log()[3..].iter().all(|e| *e == PerfLogEntry { code: 0, ts: 0 }));
}

#[test]
fn pages_cover_the_log() {
    let offsets = PerfMgr::new().page_offsets();
    assert_eq!(offsets.len(), 128);
    assert_eq!(offsets[..3], [0, 4096, 8192]);
    assert_eq!(offsets[127] + PAGE_LEN, BUFLEN);
}
