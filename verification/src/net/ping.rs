//! The pinger: it sends a series of echo requests and takes stock of the answers.

use crate::net::clock::{abs, instant_after, instant_distance};
use crate::net::icmp::EchoReply;
use crate::net::network_order::{
    be_value, law_be_value_of_eight, read_i64, signed_64, write_i64,
};
use std::collections::HashMap;
use vstd::prelude::*;

verus! {

broadcast use vstd::std_specs::hash::group_hash_axioms;

/// The number of requests in a series.
pub const PING_COUNT: u16 = 10;

/// The time between two requests, in milliseconds.
pub const PING_INTERVAL_MS: u64 = 1000;

/// The time after which a request counts as lost, in milliseconds.
pub const PING_TIMEOUT_MS: u64 = 10_000;

/// The identifier of the requests.
pub const PING_IDENT: u16 = 0x22b;

/// The address that the requests go to.
pub const PING_TARGET: [u8; 4] = [10, 0, 245, 1];

/// The length of the payload of a request.
pub const PING_PAYLOAD_LEN: usize = 40;

/// The state of a [`Pinger`].
#[verifier::ext_equal]
pub struct PingState {
    /// When the next request is due.
    pub send_at: int,
    /// The sequence number of the next request; one more than the length of the series once the
    /// series has been reported.
    pub seq_no: int,
    /// The number of answers.
    pub received: int,
    /// The requests without an answer, with the time they were sent.
    pub waiting: Map<u16, i64>,
}

/// The number of requests that have been sent.
pub open spec fn sent(s: PingState) -> int {
    if s.seq_no <= PING_COUNT {
        s.seq_no
    } else {
        PING_COUNT as int
    }
}

/// Whether a request is to be sent.
pub open spec fn request_due(s: PingState, can_send: bool, timestamp: i64) -> bool {
    can_send && s.seq_no < PING_COUNT && s.send_at <= timestamp
}

/// The state after a request has been sent.
pub open spec fn after_request(s: PingState, timestamp: i64) -> PingState {
    PingState {
        send_at: s.send_at + PING_INTERVAL_MS,
        seq_no: s.seq_no + 1,
        waiting: s.waiting.insert(s.seq_no as u16, timestamp),
        ..s
    }
}

/// The state after an answer to request `seq_no` has come in.
pub open spec fn after_reply(s: PingState, seq_no: u16) -> PingState {
    if s.waiting.contains_key(seq_no) {
        PingState { received: s.received + 1, waiting: s.waiting.remove(seq_no), ..s }
    } else {
        s
    }
}

/// Whether a request sent at `from` is lost at `timestamp`.
pub open spec fn timed_out(from: i64, timestamp: i64) -> bool {
    abs(timestamp - from) >= PING_TIMEOUT_MS
}

/// The requests below `seq_no` that are lost at `timestamp`, in order.
pub open spec fn lost_below(waiting: Map<u16, i64>, seq_no: int, timestamp: i64) -> Seq<u16>
    decreases seq_no,
{
    if seq_no <= 0 {
        Seq::empty()
    } else {
        let front = lost_below(waiting, seq_no - 1, timestamp);
        let last = (seq_no - 1) as u16;
        if waiting.contains_key(last) && timed_out(waiting[last], timestamp) {
            front.push(last)
        } else {
            front
        }
    }
}

/// The requests that are not lost at `timestamp`.
pub open spec fn still_waiting(waiting: Map<u16, i64>, timestamp: i64) -> Map<u16, i64> {
    waiting.restrict(
        Set::new(|seq: u16| waiting.contains_key(seq) && !timed_out(waiting[seq], timestamp)),
    )
}

/// Whether the series is to be reported.
pub open spec fn report_due(s: PingState) -> bool {
    s.seq_no == PING_COUNT && s.waiting.dom() == Set::<u16>::empty()
}

/// The state after requests that have waited too long at `timestamp` have been given up.
pub open spec fn after_expiry(s: PingState, timestamp: i64) -> PingState {
    PingState { waiting: still_waiting(s.waiting, timestamp), ..s }
}

/// The state after the series has been reported, if a report was due.
pub open spec fn after_report(s: PingState) -> PingState {
    if report_due(s) {
        PingState { seq_no: s.seq_no + 1, ..s }
    } else {
        s
    }
}

/// The state of a new pinger.
pub open spec fn new_pinger() -> PingState {
    PingState { send_at: 0, seq_no: 0, received: 0, waiting: Map::empty() }
}

/// Whether the next request can be sent: the time of the one after it can be told.
pub open spec fn request_in_time(s: PingState, can_send: bool, timestamp: i64) -> bool {
    request_due(s, can_send, timestamp) ==> s.send_at + PING_INTERVAL_MS <= i64::MAX
}

/// Whether the time that each request has waited can be told.
pub open spec fn waits_in_time(s: PingState, timestamp: i64) -> bool {
    forall|seq: u16| #[trigger]
        s.waiting.contains_key(seq) ==> i64::MIN < timestamp - s.waiting[seq] <= i64::MAX
}

/// What holds of the series at all times: requests are numbered below those that have been sent, and
/// no more are answered or waiting than have been sent.
pub open spec fn ping_series(s: PingState) -> bool {
    &&& 0 <= s.seq_no <= PING_COUNT + 1
    &&& 0 <= s.received
    &&& s.waiting.dom().finite()
    &&& forall|seq: u16| #[trigger] s.waiting.contains_key(seq) ==> seq < sent(s)
    &&& s.received + s.waiting.dom().len() <= sent(s)
}

/// What holds of the pinger at all times.
pub open spec fn ping_inv(s: PingState) -> bool {
    &&& ping_series(s)
    &&& i64::MIN <= s.send_at <= i64::MAX
}

/// An echo request.
#[derive(Debug)]
pub struct EchoRequest {
    pub ident: u16,
    pub seq_no: u16,
    pub payload: Vec<u8>,
}

/// An answer to one of the requests.
#[derive(Clone, Copy, Debug, PartialEq, Eq, Structural)]
pub struct Pong {
    /// The length of the payload that came back.
    pub len: usize,
    pub seq_no: u16,
    /// The time from the request to the answer, in milliseconds.
    pub time_ms: i64,
}

/// The outcome of a series.
#[derive(Clone, Copy, Debug, PartialEq, Eq, Structural)]
pub struct PingReport {
    pub transmitted: u16,
    pub received: u16,
}

/// The payload of a request that is sent at `timestamp`: the time, then filler.
pub open spec fn is_ping_payload(payload: Seq<u8>, timestamp: i64) -> bool {
    &&& payload.len() == PING_PAYLOAD_LEN
    &&& signed_64(be_value(payload.take(8)) as int) == timestamp
    &&& forall|i: int| 8 <= i < payload.len() ==> #[trigger] payload[i] == 0xff
}

/// The time that a payload carries.
pub open spec fn payload_time(payload: Seq<u8>) -> int {
    signed_64(be_value(payload.take(8)) as int)
}

/// Makes the payload of a request that is sent at `timestamp`.
pub fn echo_payload(timestamp: i64) -> (payload: Vec<u8>)
    ensures
        is_ping_payload(payload@, timestamp),
{
    let mut payload: Vec<u8> = Vec::new();
    let mut i: usize = 0;
    while i < PING_PAYLOAD_LEN
        invariant
            i <= PING_PAYLOAD_LEN,
            payload@.len() == i,
            forall|j: int| 0 <= j < i ==> #[trigger] payload@[j] == 0xff,
        decreases PING_PAYLOAD_LEN - i,
    {
        payload.push(0xff);
        i = i + 1;
    }
    let ghost filler = payload@;
    write_i64(payload.as_mut_slice(), timestamp);
    proof {
        assert forall|j: int| 8 <= j < payload@.len() implies #[trigger] payload@[j] == 0xff by {
            assert(payload@.skip(8)[j - 8] == filler.skip(8)[j - 8]);
        }
    }
    payload
}

/// The pinger.
pub struct Pinger {
    send_at: i64,
    seq_no: u16,
    received: u16,
    waiting: HashMap<u16, i64>,
}

impl View for Pinger {
    type V = PingState;

    closed spec fn view(&self) -> PingState {
        PingState {
            send_at: self.send_at as int,
            seq_no: self.seq_no as int,
            received: self.received as int,
            waiting: self.waiting@,
        }
    }
}

impl Pinger {
    /// What holds of the pinger at all times.
    pub open spec fn wf(self) -> bool {
        ping_inv(self@)
    }

    /// A pinger at the start of its series.
    pub fn new() -> (pinger: Self)
        ensures
            pinger.wf(),
            pinger@ == new_pinger(),
    {
        Pinger { send_at: 0, seq_no: 0, received: 0, waiting: HashMap::new() }
    }

    /// Notes that the socket has been bound: the next request is due at once.
    pub fn bound(&mut self, timestamp: i64)
        requires
            old(self).wf(),
        ensures
            final(self).wf(),
            final(self)@ == (PingState { send_at: timestamp as int, ..old(self)@ }),
    {
        self.send_at = timestamp;
    }

    /// The next request, where one is due and the socket can take it.
    pub fn next_request(&mut self, can_send: bool, timestamp: i64) -> (request: Option<EchoRequest>)
        requires
            old(self).wf(),
            request_in_time(old(self)@, can_send, timestamp),
        ensures
            final(self).wf(),
            request is Some <==> request_due(old(self)@, can_send, timestamp),
            request is Some ==> final(self)@ == after_request(old(self)@, timestamp),
            request is None ==> final(self)@ == old(self)@,
            request matches Some(r) ==> {
                &&& r.ident == PING_IDENT
                &&& r.seq_no == old(self)@.seq_no
                &&& is_ping_payload(r.payload@, timestamp)
            },
    {
        if can_send && self.seq_no < PING_COUNT && self.send_at <= timestamp {
            let payload: Vec<u8> = echo_payload(timestamp);
            let seq_no: u16 = self.seq_no;
            proof {
                assert(!self@.waiting.contains_key(seq_no));
            }
            self.waiting.insert(seq_no, timestamp);
            self.seq_no = seq_no + 1;
            self.send_at = instant_after(self.send_at, PING_INTERVAL_MS);
            Some(EchoRequest { ident: PING_IDENT, seq_no, payload })
        } else {
            None
        }
    }

    /// Whether [`Pinger::next_request`] can be called: the time of the request after the next one
    /// can be told.
    pub fn can_request(&self, can_send: bool, timestamp: i64) -> (r: bool)
        requires
            self.wf(),
        ensures
            r == request_in_time(self@, can_send, timestamp),
    {
        !(can_send && self.seq_no < PING_COUNT && self.send_at <= timestamp) || self.send_at
            <= i64::MAX - PING_INTERVAL_MS as i64
    }

    /// Whether [`Pinger::expire`] can be called: the time that each request has waited can be told.
    pub fn can_expire(&self, timestamp: i64) -> (r: bool)
        requires
            self.wf(),
        ensures
            r == waits_in_time(self@, timestamp),
    {
        let n: u16 = self.seq_no;
        let mut seq: u16 = 0;
        while seq < n
            invariant
                seq <= n,
                n == self@.seq_no,
                self.wf(),
                forall|s: u16| #[trigger]
                    self@.waiting.contains_key(s) && s < seq ==> i64::MIN < timestamp
                        - self@.waiting[s] <= i64::MAX,
            decreases n - seq,
        {
            if let Some(from) = self.waiting.get(&seq) {
                let waited: i128 = timestamp as i128 - *from as i128;
                if waited <= i64::MIN as i128 || waited > i64::MAX as i128 {
                    assert(self@.waiting.contains_key(seq));
                    return false;
                }
            }
            seq = seq + 1;
        }
        true
    }

    /// Whether a request is still without an answer.
    pub fn is_waiting(&self, seq_no: u16) -> (waiting: bool)
        ensures
            waiting == self@.waiting.contains_key(seq_no),
    {
        self.waiting.contains_key(&seq_no)
    }

    /// Takes an answer. It counts where its request is still waiting.
    pub fn reply(&mut self, reply: &EchoReply, timestamp: i64) -> (pong: Option<Pong>)
        requires
            old(self).wf(),
            old(self)@.waiting.contains_key(reply.seq_no) ==> {
                &&& reply.data@.len() >= 8
                &&& i64::MIN <= timestamp - payload_time(reply.data@) <= i64::MAX
            },
        ensures
            final(self).wf(),
            final(self)@ == after_reply(old(self)@, reply.seq_no),
            pong is Some <==> old(self)@.waiting.contains_key(reply.seq_no),
            pong matches Some(p) ==> {
                &&& p.len == reply.data@.len()
                &&& p.seq_no == reply.seq_no
                &&& p.time_ms == timestamp - payload_time(reply.data@)
            },
    {
        let seq_no: u16 = reply.seq_no;
        if self.waiting.contains_key(&seq_no) {
            let sent_ms: i64 = read_i64(reply.data.as_slice());
            self.waiting.remove(&seq_no);
            self.received = self.received + 1;
            Some(Pong { len: reply.data.len(), seq_no, time_ms: timestamp - sent_ms })
        } else {
            None
        }
    }

    /// Gives up the requests that have waited too long, and returns their sequence numbers in
    /// order.
    pub fn expire(&mut self, timestamp: i64) -> (lost: Vec<u16>)
        requires
            old(self).wf(),
            waits_in_time(old(self)@, timestamp),
        ensures
            final(self).wf(),
            final(self)@ == after_expiry(old(self)@, timestamp),
            lost@ == lost_below(old(self)@.waiting, old(self)@.seq_no, timestamp),
    {
        let ghost before = self@;
        let n: u16 = self.seq_no;
        let mut lost: Vec<u16> = Vec::new();
        let mut seq: u16 = 0;
        while seq < n
            invariant
                seq <= n,
                n == before.seq_no,
                ping_inv(before),
                self@ == (PingState { waiting: self@.waiting, ..before }),
                waits_in_time(before, timestamp),
                self@.waiting.submap_of(before.waiting),
                forall|s: u16| #[trigger]
                    self@.waiting.contains_key(s) <==> before.waiting.contains_key(s) && (s < seq
                        ==> !timed_out(before.waiting[s], timestamp)),
                lost@ == lost_below(before.waiting, seq as int, timestamp),
            decreases n - seq,
        {
            let expired: bool = match self.waiting.get(&seq) {
                Some(from) => instant_distance(timestamp, *from) >= PING_TIMEOUT_MS,
                None => false,
            };
            if expired {
                self.waiting.remove(&seq);
                lost.push(seq);
            }
            seq = seq + 1;
        }
        proof {
            assert(self@.waiting =~= still_waiting(before.waiting, timestamp));
            vstd::set_lib::lemma_len_subset(self@.waiting.dom(), before.waiting.dom());
        }
        lost
    }

    /// The outcome of the series, once every request has been answered or given up.
    pub fn report(&mut self) -> (report: Option<PingReport>)
        requires
            old(self).wf(),
        ensures
            final(self).wf(),
            report == (if report_due(old(self)@) {
                Some(
                    PingReport {
                        transmitted: PING_COUNT,
                        received: old(self)@.received as u16,
                    },
                )
            } else {
                None
            }),
            final(self)@ == after_report(old(self)@),
            report is Some <==> old(self)@.seq_no == PING_COUNT && (forall|seq: u16|
                !#[trigger] old(self)@.waiting.contains_key(seq)),
            report is Some ==> final(self)@.seq_no == PING_COUNT + 1,
    {
        proof {
            law_finished_series_is_reported(self@, Seq::empty());
        }
        if self.seq_no == PING_COUNT && self.waiting.is_empty() {
            let report: PingReport = PingReport {
                transmitted: self.seq_no,
                received: self.received,
            };
            // The series is reported once.
            self.seq_no = self.seq_no + 1;
            Some(report)
        } else {
            None
        }
    }
}

/// A payload that comes back as it was sent tells the time at which it was sent, so the time of an
/// answer is counted from its request.
pub proof fn law_payload_carries_time(payload: Seq<u8>, sent_at: i64)
    requires
        is_ping_payload(payload, sent_at),
    ensures
        payload.len() >= 8,
        payload_time(payload) == sent_at,
{
}

/// There are never more answers than requests, so the loss is never negative.
pub proof fn law_answers_within_requests(s: PingState)
    requires
        ping_inv(s),
    ensures
        0 <= s.received <= sent(s) <= PING_COUNT,
{
}

/// A second answer to the same request changes nothing.
pub proof fn law_answer_counts_once(s: PingState, seq_no: u16)
    ensures
        after_reply(after_reply(s, seq_no), seq_no) == after_reply(s, seq_no),
{
}

/// After the report the series is over: no request and no further report is due, whatever
/// answers come in and whatever is given up.
pub proof fn law_report_ends_series(s: PingState, seq_no: u16, can_send: bool, timestamp: i64)
    requires
        s.seq_no > PING_COUNT,
    ensures
        !request_due(s, can_send, timestamp),
        !report_due(s),
        after_reply(s, seq_no).seq_no > PING_COUNT,
        after_expiry(s, timestamp).seq_no > PING_COUNT,
{
}

/// A request is given up exactly where it has waited too long, and then no longer waits.
pub proof fn law_lost_requests_stop_waiting(s: PingState, timestamp: i64, seq: u16)
    requires
        ping_series(s),
    ensures
        lost_below(s.waiting, s.seq_no, timestamp).contains(seq) <==> s.waiting.contains_key(seq)
            && !still_waiting(s.waiting, timestamp).contains_key(seq),
{
    lemma_lost_below(s.waiting, s.seq_no, timestamp, seq);
}

/// A step of the pinger.
pub enum PingStep {
    /// The socket has been bound.
    Bound(i64),
    /// A request is sent, if one is due.
    Request { can_send: bool, timestamp: i64 },
    /// An answer with this sequence number has come in.
    Reply(u16),
    /// Requests that have waited too long are given up.
    Expire(i64),
    /// The series is reported, if a report is due.
    Report,
}

/// The state after one step.
pub open spec fn after_step(s: PingState, step: PingStep) -> PingState {
    match step {
        PingStep::Bound(timestamp) => PingState { send_at: timestamp as int, ..s },
        PingStep::Request { can_send, timestamp } => if request_due(s, can_send, timestamp) {
            after_request(s, timestamp)
        } else {
            s
        },
        PingStep::Reply(seq_no) => after_reply(s, seq_no),
        PingStep::Expire(timestamp) => after_expiry(s, timestamp),
        PingStep::Report => after_report(s),
    }
}

/// The state of a pinger after its steps, one after the other.
pub open spec fn after_steps(steps: Seq<PingStep>) -> PingState
    decreases steps.len(),
{
    if steps.len() == 0 {
        new_pinger()
    } else {
        after_step(after_steps(steps.drop_last()), steps.last())
    }
}

/// The sequence numbers of the requests that are sent in the steps, in order.
pub open spec fn requests_sent(steps: Seq<PingStep>) -> Seq<int>
    decreases steps.len(),
{
    if steps.len() == 0 {
        Seq::empty()
    } else {
        let s = after_steps(steps.drop_last());
        let before = requests_sent(steps.drop_last());
        match steps.last() {
            PingStep::Request { can_send, timestamp } => if request_due(s, can_send, timestamp) {
                before.push(s.seq_no)
            } else {
                before
            },
            _ => before,
        }
    }
}

/// The sequence numbers of the answers that count in the steps, in order: those to requests that
/// are still waiting.
pub open spec fn answers_counted(steps: Seq<PingStep>) -> Seq<int>
    decreases steps.len(),
{
    if steps.len() == 0 {
        Seq::empty()
    } else {
        let s = after_steps(steps.drop_last());
        let before = answers_counted(steps.drop_last());
        match steps.last() {
            PingStep::Reply(seq_no) => if s.waiting.contains_key(seq_no) {
                before.push(seq_no as int)
            } else {
                before
            },
            _ => before,
        }
    }
}

/// The sequence numbers of the requests that are given up in the steps, by step and then in order.
pub open spec fn requests_lost(steps: Seq<PingStep>) -> Seq<int>
    decreases steps.len(),
{
    if steps.len() == 0 {
        Seq::empty()
    } else {
        let s = after_steps(steps.drop_last());
        let before = requests_lost(steps.drop_last());
        match steps.last() {
            PingStep::Expire(timestamp) => before + lost_below(
                s.waiting,
                s.seq_no,
                timestamp,
            ).map_values(|seq: u16| seq as int),
            _ => before,
        }
    }
}

/// The number of reports in the steps.
pub open spec fn reports_made(steps: Seq<PingStep>) -> int
    decreases steps.len(),
{
    if steps.len() == 0 {
        0
    } else {
        let s = after_steps(steps.drop_last());
        let before = reports_made(steps.drop_last());
        if steps.last() is Report && report_due(s) {
            before + 1
        } else {
            before
        }
    }
}

/// Whatever happens, in whatever order: at most ten requests are sent, numbered from 0 on in order.
/// Each of them is waiting, has been answered or has been given up. An answer counts once for each
/// request at most, so there are never more answers than requests.
pub proof fn law_series_of_requests(steps: Seq<PingStep>, seq: int)
    ensures
        ({
            let s = after_steps(steps);
            let requests = requests_sent(steps);
            let answers = answers_counted(steps);
            &&& ping_series(s)
            &&& requests == Seq::new(requests.len(), |i: int| i)
            &&& requests.len() == sent(s) <= PING_COUNT
            &&& answers.no_duplicates()
            &&& answers.len() == s.received <= requests.len()
            &&& answers.contains(seq) ==> 0 <= seq < requests.len() && !s.waiting.contains_key(
                seq as u16,
            )
            &&& 0 <= seq < requests.len() ==> s.waiting.contains_key(seq as u16)
                || answers.contains(seq) || requests_lost(steps).contains(seq)
        }),
    decreases steps.len(),
{
    if steps.len() == 0 {
        assert(requests_sent(steps) =~= Seq::new(0, |i: int| i));
    } else {
        let front = steps.drop_last();
        let s = after_steps(front);
        let t = after_steps(steps);
        law_series_of_requests(front, seq);
        lemma_step_keeps_series(s, steps.last());
        match steps.last() {
            PingStep::Request { can_send, timestamp } => {
                if request_due(s, can_send, timestamp) {
                    assert(requests_sent(steps) =~= Seq::new(
                        requests_sent(steps).len(),
                        |i: int| i,
                    ));
                }
            },
            PingStep::Reply(seq_no) => {
                if s.waiting.contains_key(seq_no) {
                    law_series_of_requests(front, seq_no as int);
                    let before = answers_counted(front);
                    let answers = before.push(seq_no as int);
                    assert(answers.no_duplicates()) by {
                        assert forall|i: int, j: int|
                            0 <= i < answers.len() && 0 <= j < answers.len() && i
                                != j implies answers[i] != answers[j] by {
                            if i == before.len() {
                                assert(before.contains(before[j]));
                            } else if j == before.len() {
                                assert(before.contains(before[i]));
                            }
                        }
                    }
                    lemma_push_contains(before, seq_no as int, seq);
                }
            },
            PingStep::Expire(timestamp) => {
                let lost = lost_below(s.waiting, s.seq_no, timestamp);
                let numbers = lost.map_values(|n: u16| n as int);
                let before = requests_lost(front);
                let all = before + numbers;
                if before.contains(seq) {
                    let i = choose|i: int| 0 <= i < before.len() && before[i] == seq;
                    assert(all[i] == seq);
                }
                if 0 <= seq < requests_sent(front).len() && s.waiting.contains_key(seq as u16)
                    && !t.waiting.contains_key(seq as u16) {
                    law_lost_requests_stop_waiting(s, timestamp, seq as u16);
                    let i = choose|i: int| 0 <= i < lost.len() && lost[i] == seq as u16;
                    assert(all[before.len() + i] == seq);
                }
            },
            _ => {},
        }
    }
}

/// The series is reported at most once, and only when all of its requests have been sent and none
/// of them is waiting. The report tells how many answers counted.
pub proof fn law_series_is_reported_once(steps: Seq<PingStep>)
    ensures
        0 <= reports_made(steps) <= 1,
        reports_made(steps) == 1 <==> after_steps(steps).seq_no > PING_COUNT,
        report_due(after_steps(steps)) ==> {
            &&& reports_made(steps) == 0
            &&& requests_sent(steps).len() == PING_COUNT
            &&& forall|seq: u16| !#[trigger] after_steps(steps).waiting.contains_key(seq)
            &&& after_steps(steps).received == answers_counted(steps).len()
        },
    decreases steps.len(),
{
    law_series_of_requests(steps, 0);
    if report_due(after_steps(steps)) {
        assert forall|seq: u16| !#[trigger] after_steps(steps).waiting.contains_key(seq) by {
            assert(!Set::<u16>::empty().contains(seq));
        }
    }
    if steps.len() > 0 {
        law_series_is_reported_once(steps.drop_last());
        law_series_of_requests(steps.drop_last(), 0);
    }
}

proof fn lemma_step_keeps_series(s: PingState, step: PingStep)
    requires
        ping_series(s),
    ensures
        ping_series(after_step(s, step)),
{
    let t = after_step(s, step);
    match step {
        PingStep::Request { can_send, timestamp } => {
            if request_due(s, can_send, timestamp) {
                assert(!s.waiting.contains_key(s.seq_no as u16));
                assert(t.waiting.dom() =~= s.waiting.dom().insert(s.seq_no as u16));
            }
        },
        PingStep::Reply(seq_no) => {
            if s.waiting.contains_key(seq_no) {
                assert(t.waiting.dom() =~= s.waiting.dom().remove(seq_no));
            }
        },
        PingStep::Expire(timestamp) => {
            assert(t.waiting.dom().subset_of(s.waiting.dom()));
            vstd::set_lib::lemma_len_subset(t.waiting.dom(), s.waiting.dom());
        },
        _ => {},
    }
}

proof fn lemma_push_contains(s: Seq<int>, last: int, x: int)
    ensures
        s.push(last).contains(x) <==> s.contains(x) || last == x,
{
    if s.contains(x) {
        let i = choose|i: int| 0 <= i < s.len() && s[i] == x;
        assert(s.push(last)[i] == x);
    }
    assert(s.push(last)[s.len() as int] == last);
}

proof fn lemma_lost_below(waiting: Map<u16, i64>, n: int, timestamp: i64, seq: u16)
    requires
        0 <= n <= PING_COUNT + 1,
    ensures
        lost_below(waiting, n, timestamp).contains(seq) <==> seq < n && waiting.contains_key(seq)
            && timed_out(waiting[seq], timestamp),
    decreases n,
{
    if n > 0 {
        lemma_lost_below(waiting, n - 1, timestamp, seq);
        let front = lost_below(waiting, n - 1, timestamp);
        let last = (n - 1) as u16;
        let all = lost_below(waiting, n, timestamp);
        if waiting.contains_key(last) && timed_out(waiting[last], timestamp) {
            assert(all == front.push(last));
            assert(all[front.len() as int] == last);
            if front.contains(seq) {
                let i = choose|i: int| 0 <= i < front.len() && front[i] == seq;
                assert(all[i] == seq);
            }
        }
    }
}

/// A request is sent exactly where the socket can take it, fewer than ten have been sent, and its
/// time has come.
pub proof fn law_request_is_due(s: PingState, can_send: bool, timestamp: i64)
    requires
        0 <= s.seq_no,
    ensures
        can_send && s.seq_no < 10 && s.send_at <= timestamp ==> request_due(s, can_send, timestamp),
        !can_send ==> !request_due(s, can_send, timestamp),
        s.seq_no >= 10 ==> !request_due(s, can_send, timestamp),
        s.send_at > timestamp ==> !request_due(s, can_send, timestamp),
{
}

/// A request that is sent waits from then on, next to those that wait already. The next one has the
/// next number, and is due a second after this one was due.
pub proof fn law_request_waits(s: PingState, timestamp: i64, other: u16)
    requires
        0 <= s.seq_no < 10,
    ensures
        ({
            let t = after_request(s, timestamp);
            &&& t.seq_no == s.seq_no + 1
            &&& t.send_at == s.send_at + 1000
            &&& t.received == s.received
            &&& t.waiting.contains_key(s.seq_no as u16)
            &&& t.waiting[s.seq_no as u16] == timestamp
            &&& other != s.seq_no ==> t.waiting.contains_key(other) == s.waiting.contains_key(other)
            &&& other != s.seq_no && s.waiting.contains_key(other) ==> t.waiting[other]
                == s.waiting[other]
        }),
{
}

/// An answer to a request that waits counts, and the request waits no longer. Any other answer
/// changes nothing. The other requests go on waiting.
pub proof fn law_answer_to_waiting_request_counts(s: PingState, seq_no: u16, other: u16)
    ensures
        ({
            let t = after_reply(s, seq_no);
            &&& s.waiting.contains_key(seq_no) ==> t.received == s.received + 1
            &&& !s.waiting.contains_key(seq_no) ==> t == s
            &&& !t.waiting.contains_key(seq_no)
            &&& other != seq_no ==> t.waiting.contains_key(other) == s.waiting.contains_key(other)
            &&& other != seq_no && s.waiting.contains_key(other) ==> t.waiting[other]
                == s.waiting[other]
            &&& t.seq_no == s.seq_no
            &&& t.send_at == s.send_at
        }),
{
}

/// A request goes on waiting, since when it was sent, exactly where that is less than ten seconds
/// away, and nothing but the waiting changes.
pub proof fn law_requests_wait_ten_seconds(s: PingState, timestamp: i64, seq: u16)
    ensures
        ({
            let t = after_expiry(s, timestamp);
            let waited = timestamp - s.waiting[seq];
            &&& t.waiting.contains_key(seq) <==> s.waiting.contains_key(seq) && -10_000 < waited
                < 10_000
            &&& t.waiting.contains_key(seq) ==> t.waiting[seq] == s.waiting[seq]
            &&& t.seq_no == s.seq_no
            &&& t.send_at == s.send_at
            &&& t.received == s.received
        }),
{
}

/// The requests that are given up are those that have waited for ten seconds, each named once and in
/// order.
pub proof fn law_lost_requests_are_named(s: PingState, timestamp: i64, seq: u16, i: int, j: int)
    requires
        ping_series(s),
    ensures
        ({
            let lost = lost_below(s.waiting, s.seq_no, timestamp);
            let waited = timestamp - s.waiting[seq];
            &&& lost.contains(seq) <==> s.waiting.contains_key(seq) && (waited >= 10_000 || waited
                <= -10_000)
            &&& 0 <= i < j < lost.len() ==> lost[i] < lost[j]
        }),
{
    lemma_lost_below(s.waiting, s.seq_no, timestamp, seq);
    lemma_lost_in_order(s.waiting, s.seq_no, timestamp, i, j);
}

proof fn lemma_lost_in_order(waiting: Map<u16, i64>, n: int, timestamp: i64, i: int, j: int)
    requires
        0 <= n <= PING_COUNT + 1,
    ensures
        ({
            let lost = lost_below(waiting, n, timestamp);
            &&& 0 <= i < j < lost.len() ==> lost[i] < lost[j]
            &&& 0 <= i < lost.len() ==> lost[i] < n
        }),
    decreases n,
{
    if n > 0 {
        lemma_lost_in_order(waiting, n - 1, timestamp, i, j);
        lemma_lost_in_order(waiting, n - 1, timestamp, j, i);
    }
}

/// Once ten requests have been sent and none of them waits any more, a report is due, however many
/// answers counted, until it has been made. It is due at no other time. It ends the series and
/// changes nothing else.
pub proof fn law_finished_series_is_reported(s: PingState, steps: Seq<PingStep>)
    ensures
        s.seq_no == 10 && (forall|seq: u16| !#[trigger] s.waiting.contains_key(seq))
            ==> report_due(s) && after_report(s).seq_no == 11,
        report_due(s) ==> s.seq_no == 10 && (forall|seq: u16| !#[trigger]
            s.waiting.contains_key(seq)),
        !report_due(s) ==> after_report(s) == s,
        after_report(s).received == s.received,
        after_report(s).waiting == s.waiting,
        after_report(s).send_at == s.send_at,
        requests_sent(steps).len() == 10 && reports_made(steps) == 0 && (forall|seq: u16|
            !#[trigger] after_steps(steps).waiting.contains_key(seq)) ==> report_due(
            after_steps(steps),
        ) && reports_made(steps.push(PingStep::Report)) == 1,
{
    if forall|seq: u16| !#[trigger] s.waiting.contains_key(seq) {
        assert(s.waiting.dom() =~= Set::<u16>::empty());
    }
    if report_due(s) {
        assert forall|seq: u16| !#[trigger] s.waiting.contains_key(seq) by {
            assert(!Set::<u16>::empty().contains(seq));
        }
    }
    let t = after_steps(steps);
    law_series_of_requests(steps, 0);
    law_series_is_reported_once(steps);
    assert(steps.push(PingStep::Report).drop_last() =~= steps);
    if forall|seq: u16| !#[trigger] t.waiting.contains_key(seq) {
        assert(t.waiting.dom() =~= Set::<u16>::empty());
    }
}

/// A series in which every request was answered or given up ends in a report: where ten requests
/// have been sent, and each of them has been answered or has waited for ten seconds when requests
/// are given up, a report is due right after that unless one was made before.
pub proof fn law_every_series_ends_in_a_report(steps: Seq<PingStep>, timestamp: i64)
    requires
        requests_sent(steps).len() == 10,
        reports_made(steps) == 0,
        forall|seq: u16| #[trigger]
            after_steps(steps).waiting.contains_key(seq) ==> timestamp
                - after_steps(steps).waiting[seq] >= 10_000,
    ensures
        ({
            let s = after_steps(steps.push(PingStep::Expire(timestamp)));
            &&& report_due(s)
            &&& s.received == answers_counted(steps).len()
        }),
{
    let all = steps.push(PingStep::Expire(timestamp));
    let s = after_steps(steps);
    let t = after_steps(all);
    assert(all.drop_last() =~= steps);
    law_series_of_requests(steps, 0);
    law_series_is_reported_once(steps);
    assert forall|seq: u16| !#[trigger] t.waiting.contains_key(seq) by {
        law_requests_wait_ten_seconds(s, timestamp, seq);
    }
    law_finished_series_is_reported(t, all);
}

/// The pinger starts with nothing sent, answered or waiting, and may send at once.
pub proof fn law_new_pinger_has_done_nothing(seq: u16)
    ensures
        new_pinger().seq_no == 0,
        new_pinger().received == 0,
        new_pinger().send_at == 0,
        !new_pinger().waiting.contains_key(seq),
{
}

/// The payload of a request has 40 bytes: the time in eight bytes, most significant first and in
/// two's complement, then filler.
pub proof fn law_payload_bytes(payload: Seq<u8>, timestamp: i64, i: int)
    requires
        is_ping_payload(payload, timestamp),
    ensures
        payload.len() == 40,
        8 <= i < 40 ==> payload[i] == 0xff,
        0x100_0000_0000_0000 * payload[0] + 0x1_0000_0000_0000 * payload[1] + 0x100_0000_0000
            * payload[2] + 0x1_0000_0000 * payload[3] + 0x100_0000 * payload[4] + 0x1_0000
            * payload[5] + 0x100 * payload[6] + payload[7] == (if timestamp >= 0 {
            timestamp as int
        } else {
            timestamp + 0x1_0000_0000_0000_0000
        }),
        payload_time(payload) == timestamp,
{
    law_be_value_of_eight(payload.take(8));
}

/// There is always time for a request, but for one that is due later than a second before the end of
/// time.
pub proof fn law_time_for_requests(s: PingState, can_send: bool, timestamp: i64)
    ensures
        s.send_at + 1000 <= i64::MAX ==> request_in_time(s, can_send, timestamp),
        !can_send || s.seq_no >= 10 || s.send_at > timestamp ==> request_in_time(
            s,
            can_send,
            timestamp,
        ),
        can_send && s.seq_no < 10 && s.send_at <= timestamp && s.send_at + 1000 > i64::MAX
            ==> !request_in_time(s, can_send, timestamp),
{
}

/// The time that the requests have waited can be told where it can be for each of them, which is so
/// of all times that are not negative.
pub proof fn law_time_of_waiting(s: PingState, timestamp: i64, seq: u16)
    ensures
        waits_in_time(s, timestamp) && s.waiting.contains_key(seq) ==> i64::MIN < timestamp
            - s.waiting[seq] <= i64::MAX,
        (forall|n: u16| #[trigger]
            s.waiting.contains_key(n) ==> i64::MIN < timestamp - s.waiting[n] <= i64::MAX)
            ==> waits_in_time(s, timestamp),
        timestamp >= 0 && (forall|n: u16| #[trigger]
            s.waiting.contains_key(n) ==> s.waiting[n] >= 0) ==> waits_in_time(s, timestamp),
{
}

} // verus!
