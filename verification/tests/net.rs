use xous_services::net::clock::SmoltcpTimer;
use xous_services::net::com::{
    enabled_interrupts, interface_setup, interrupt_actions, set_ipv4_addr, ComAction,
    ComIntSources,
};
use xous_services::net::dns::{address_number, DnsHooks, HookKind, Ipv4Conf, ScalarHook};
use xous_services::net::icmp::{
    echo_request_packet, read_echo_reply, ChecksumUse, MalformedMessage,
};
use xous_services::net::ping::{echo_payload, Pinger, Pong, PING_TARGET};
use xous_services::net::udp::NetMemResponse;
use xous_services::net::wait::{poll_plan, wait_step, PollPlan, WaitOp, WaitStep};

#[test]
fn timer_reads_are_points_in_time() {
    let timer = SmoltcpTimer::new();
    assert_eq!(timer.now(0), 0);
    assert_eq!(timer.now(123_456), 123_456);
    assert_eq!(timer.now(u64::MAX), -1);
    assert_eq!(timer.now(1 << 63), i64::MIN);
}

#[test]
fn payload_starts_with_the_time() {
    let payload = echo_payload(0x0102_0304_0506_0708);
    assert_eq!(payload.len(), 40);
    assert_eq!(payload[..8], [1, 2, 3, 4, 5, 6, 7, 8]);
    assert!(payload[8..].iter().all(|b| *b == 0xff));
    assert_eq!(echo_payload(-2)[..8], [0xff, 0xff, 0xff, 0xff, 0xff, 0xff, 0xff, 0xfe]);
}

#[test]
fn echo_request_bytes_are_laid_out() {
    let data = vec![0xab, 0xcd];
    let packet = echo_request_packet(ChecksumUse::Neither, 0x022b, 0x0105, &data);
    assert_eq!(packet, [8, 0, 0, 0, 0x02, 0x2b, 0x01, 0x05, 0xab, 0xcd]);
    assert_eq!(echo_request_packet(ChecksumUse::Rx, 0x022b, 0x0105, &data), packet);
}

#[test]
fn echo_request_checksum_is_computed() {
    let data = vec![0xab, 0xcd];
    // The one's complement of the one's complement sum of the words.
    let sum: u32 = 0x0800 + 0x022b + 0x0105 + 0xabcd;
    let checksum = !(sum as u16);
    let mut expected = vec![8, 0];
    expected.extend_from_slice(&checksum.to_be_bytes());
    expected.extend_from_slice(&[0x02, 0x2b, 0x01, 0x05, 0xab, 0xcd]);
    assert_eq!(echo_request_packet(ChecksumUse::Both, 0x022b, 0x0105, &data), expected);
    assert_eq!(echo_request_packet(ChecksumUse::Tx, 0x022b, 0x0105, &data), expected);
}

#[test]
fn echo_request_checksum_of_odd_length() {
    // The last byte is the upper half of a word, and a carry is added back in.
    let sum: u32 = 0x0800 + 0xffff + 0xffff + 0xab00;
    let checksum = !((sum & 0xffff) as u16 + (sum >> 16) as u16);
    let packet = echo_request_packet(ChecksumUse::Tx, 0xffff, 0xffff, &vec![0xab]);
    assert_eq!(packet[2..4], checksum.to_be_bytes());
    assert!(read_echo_reply(ChecksumUse::Rx, &packet).is_ok());
}

#[test]
fn unreachable_destinations_are_no_answers() {
    // A report that quotes an IPv4 header and eight bytes.
    let mut report = vec![3, 1, 0, 0, 0, 0, 0, 0];
    report.extend_from_slice(&[0x45, 0, 0, 28]);
    report.extend_from_slice(&[0; 24]);
    assert!(matches!(read_echo_reply(ChecksumUse::Neither, &report), Ok(None)));
    report.pop();
    assert!(read_echo_reply(ChecksumUse::Neither, &report).is_err());
    // Other kinds of messages, and echo messages with a code, are not supported.
    assert!(read_echo_reply(ChecksumUse::Neither, &[11, 0, 0, 0, 0, 0, 0, 0]).is_err());
    assert!(read_echo_reply(ChecksumUse::Neither, &[0, 1, 0, 0, 0, 0, 0, 0]).is_err());
}

/// The answer to an echo request: the same message with the type of an answer.
fn answer_to(request: &[u8]) -> Vec<u8> {
    let mut answer = request.to_vec();
    answer[0] = 0;
    answer
}

#[test]
fn answers_mirror_requests() {
    let data = vec![1, 2, 3];
    let request = echo_request_packet(ChecksumUse::Neither, 0x22b, 0x1234, &data);
    let reply = read_echo_reply(ChecksumUse::Neither, &answer_to(&request)).unwrap().unwrap();
    assert_eq!(reply.seq_no, 0x1234);
    assert_eq!(reply.data, data);
}

#[test]
fn other_messages_are_no_answers() {
    let data = vec![1, 2, 3];
    let request = echo_request_packet(ChecksumUse::Both, 0x22b, 1, &data);
    assert!(matches!(read_echo_reply(ChecksumUse::Both, &request), Ok(None)));
}

#[test]
fn malformed_messages_are_refused() {
    assert!(matches!(
        read_echo_reply(ChecksumUse::Neither, &[0, 0, 0, 0, 0, 0, 0]),
        Err(MalformedMessage {})
    ));
    // A wrong checksum counts only where checksums are verified.
    let request = echo_request_packet(ChecksumUse::Both, 0x22b, 1, &vec![9]);
    assert!(read_echo_reply(ChecksumUse::Both, &answer_to(&request)).is_err());
    assert!(read_echo_reply(ChecksumUse::Rx, &answer_to(&request)).is_err());
    assert!(read_echo_reply(ChecksumUse::Tx, &answer_to(&request)).is_ok());
}

/// The answer that the pinger gets when its request comes back.
fn pong_of(pinger: &mut Pinger, seq_no: u16, sent_at: i64, now: i64) -> Option<Pong> {
    let request =
        echo_request_packet(ChecksumUse::Neither, 0x22b, seq_no, &echo_payload(sent_at));
    let reply = read_echo_reply(ChecksumUse::Neither, &answer_to(&request)).unwrap().unwrap();
    pinger.reply(&reply, now)
}

#[test]
fn series_of_ten_requests() {
    let mut pinger = Pinger::new();
    pinger.bound(5000);
    let mut now = 5000;
    for i in 0..10 {
        assert!(pinger.next_request(false, now).is_none());
        let request = pinger.next_request(true, now).unwrap();
        assert_eq!((request.ident, request.seq_no), (0x22b, i));
        assert_eq!(request.payload, echo_payload(now));
        // The next one is due a second later.
        assert!(pinger.next_request(true, now).is_none());
        assert!(pinger.next_request(true, now + 999).is_none());
        assert_eq!(
            pong_of(&mut pinger, i, now, now + 30),
            Some(Pong { len: 40, seq_no: i, time_ms: 30 })
        );
        if i < 9 {
            assert!(pinger.report().is_none());
        }
        now += 1000;
    }
    assert!(pinger.next_request(true, now).is_none());
    let report = pinger.report().unwrap();
    assert_eq!((report.transmitted, report.received), (10, 10));
    // Once.
    assert!(pinger.report().is_none());
    assert!(pinger.next_request(true, now + 100_000).is_none());
}

#[test]
fn requests_go_to_the_router() {
    assert_eq!(PING_TARGET, [10, 0, 245, 1]);
}

#[test]
fn answers_count_once() {
    let mut pinger = Pinger::new();
    assert!(pinger.next_request(true, 0).is_some());
    assert!(pinger.is_waiting(0));
    assert!(!pinger.is_waiting(1));
    assert!(pong_of(&mut pinger, 0, 0, 7).is_some());
    assert!(!pinger.is_waiting(0));
    assert!(pong_of(&mut pinger, 0, 0, 8).is_none());
    assert!(pong_of(&mut pinger, 1, 0, 8).is_none());
}

#[test]
fn lost_requests_are_given_up() {
    let mut pinger = Pinger::new();
    pinger.bound(0);
    for i in 0..10i64 {
        assert!(pinger.next_request(true, 1000 * i).is_some());
    }
    assert!(pinger.expire(9999).is_empty());
    assert_eq!(pinger.expire(11_500), [0, 1]);
    assert!(pong_of(&mut pinger, 0, 0, 11_500).is_none());
    assert!(pong_of(&mut pinger, 5, 5000, 11_500).is_some());
    assert!(pinger.report().is_none());
    assert_eq!(pinger.expire(1_000_000), [2, 3, 4, 6, 7, 8, 9]);
    let report = pinger.report().unwrap();
    assert_eq!((report.transmitted, report.received), (10, 1));
}

#[test]
fn series_is_over_after_the_report() {
    let mut pinger = Pinger::new();
    pinger.bound(0);
    let (mut requests, mut answers, mut reports) = (vec![], 0, 0);
    for step in 0..40 {
        let now = 700 * step;
        if let Some(request) = pinger.next_request(step % 3 != 0, now) {
            requests.push(request.seq_no);
        }
        for seq_no in 0..5 {
            if pong_of(&mut pinger, 2 * seq_no, 0, now).is_some() {
                answers += 1;
            }
        }
        pinger.expire(now);
        if let Some(report) = pinger.report() {
            assert_eq!((report.transmitted, report.received), (10, answers));
            reports += 1;
        }
    }
    assert_eq!(requests, [0, 1, 2, 3, 4, 5, 6, 7, 8, 9]);
    assert_eq!((answers, reports), (5, 1));
}

#[test]
fn times_out_of_range_are_noticed() {
    let mut pinger = Pinger::new();
    pinger.bound(i64::MAX - 999);
    assert!(pinger.can_request(true, i64::MAX - 1000));
    assert!(pinger.can_request(false, i64::MAX));
    assert!(!pinger.can_request(true, i64::MAX));
    // A negative time is as good as any other.
    pinger.bound(-5000);
    assert!(pinger.can_request(true, -5000));
    assert!(pinger.next_request(true, -5000).is_some());
    assert!(pinger.can_expire(-5000));
    assert!(pinger.can_expire(i64::MIN));
    assert!(!pinger.can_expire(i64::MAX));
    assert!(pinger.can_expire(i64::MAX - 5000));
    assert_eq!(pinger.expire(5000), [0]);
    assert!(pinger.can_expire(i64::MAX));
}

#[test]
fn timeout_is_ten_seconds_to_the_millisecond() {
    let mut pinger = Pinger::new();
    assert!(pinger.next_request(true, 100).is_some());
    assert!(pinger.expire(10_099).is_empty());
    assert_eq!(pinger.expire(10_100), [0]);
}

fn hook(cid: u32) -> ScalarHook {
    ScalarHook { cid, op: 17, args: [Some(1), None, None, None] }
}

const CONFIG: Ipv4Conf = Ipv4Conf {
    mac: [2, 3, 4, 5, 6, 7],
    addr: [10, 0, 245, 70],
    gtwy: [10, 0, 245, 1],
    dns1: [8, 8, 4, 4],
    dns2: [0, 0, 0, 0],
};

#[test]
fn hooks_have_one_listener() {
    let mut hooks = DnsHooks::new();
    for kind in [HookKind::Ipv4, HookKind::Ipv6, HookKind::AllClear] {
        assert!(!hooks.is_set(kind));
        assert_eq!(hooks.add(kind, hook(1)), NetMemResponse::Done);
        assert!(hooks.is_set(kind));
        assert_eq!(hooks.add(kind, hook(2)), NetMemResponse::AlreadyUsed);
    }
    assert_eq!(hooks.ipv4.unwrap().cid, 1);
    assert_eq!(hooks.ipv6.unwrap().cid, 1);
    assert_eq!(hooks.allclear.unwrap().cid, 1);
}

#[test]
fn hooks_are_independent() {
    let mut hooks = DnsHooks::new();
    assert_eq!(hooks.add(HookKind::Ipv6, hook(1)), NetMemResponse::Done);
    assert!(!hooks.is_set(HookKind::Ipv4));
    assert_eq!(hooks.add(HookKind::Ipv4, hook(2)), NetMemResponse::Done);
}

#[test]
fn unhooking_frees_all_hooks() {
    let mut hooks = DnsHooks::new();
    hooks.add(HookKind::Ipv4, hook(1));
    hooks.add(HookKind::AllClear, hook(1));
    assert_eq!(hooks.clear(), 1);
    assert!(!hooks.is_set(HookKind::Ipv4));
    assert!(!hooks.is_set(HookKind::AllClear));
    assert_eq!(hooks.add(HookKind::Ipv4, hook(3)), NetMemResponse::Done);
}

#[test]
fn addresses_are_numbers() {
    assert_eq!(address_number([8, 8, 4, 4]), 0x0808_0404);
    assert_eq!(address_number([255, 0, 0, 1]), 0xff00_0001);
}

#[test]
fn resolver_is_told_of_name_servers() {
    let mut hooks = DnsHooks::new();
    assert!(hooks.config_changed(&CONFIG).is_empty());
    hooks.add(HookKind::Ipv4, hook(4));
    hooks.add(HookKind::AllClear, hook(5));
    hooks.add(HookKind::Ipv6, hook(6));
    let calls = hooks.config_changed(&CONFIG);
    assert_eq!(calls.len(), 2);
    assert_eq!((calls[0].hook.cid, calls[0].custom_args), (5, None));
    assert_eq!(
        (calls[1].hook.cid, calls[1].custom_args),
        (4, Some([Some(0x0808_0404), None, None, None]))
    );
    let calls = hooks.config_changed(&Ipv4Conf { dns2: [0, 0, 0, 1], ..CONFIG });
    assert_eq!(calls.len(), 3);
    assert_eq!(
        (calls[2].hook.cid, calls[2].custom_args),
        (4, Some([Some(1), None, None, None]))
    );
}

#[test]
fn interface_follows_the_configuration() {
    let setup = interface_setup(&CONFIG);
    assert_eq!(setup.mac, CONFIG.mac);
    assert_eq!(setup.addr, CONFIG.addr);
    assert_eq!(setup.prefix_len, 24);
    assert_eq!(setup.gateway, CONFIG.gtwy);
}

#[test]
fn first_address_is_replaced() {
    let mut addrs = ["old", "other"];
    set_ipv4_addr(&mut addrs, "new");
    assert_eq!(addrs, ["new", "other"]);
}

#[test]
fn interrupts_enabled() {
    assert_eq!(
        enabled_interrupts(),
        [
            ComIntSources::WlanIpConfigUpdate,
            ComIntSources::WlanRxReady,
            ComIntSources::BatteryCritical
        ]
    );
}

#[test]
fn packets_wait_for_a_configuration() {
    let rx = vec![ComIntSources::WlanRxReady];
    assert!(interrupt_actions(&rx, false, Some(60)).is_empty());
    assert_eq!(
        interrupt_actions(&rx, true, Some(60)),
        [ComAction::PushRx(60), ComAction::Pump]
    );
    assert_eq!(interrupt_actions(&rx, true, None), [ComAction::ReportNoLength]);
    let both = vec![
        ComIntSources::WlanRxReady,
        ComIntSources::WlanIpConfigUpdate,
        ComIntSources::WlanRxReady,
    ];
    assert_eq!(
        interrupt_actions(&both, false, Some(60)),
        [ComAction::Reconfigure, ComAction::PushRx(60), ComAction::Pump]
    );
}

#[test]
fn other_interrupts() {
    let list = vec![
        ComIntSources::BatteryCritical,
        ComIntSources::Invalid,
        ComIntSources::WlanSsidScanDone,
        ComIntSources::Other,
    ];
    assert_eq!(
        interrupt_actions(&list, true, None),
        [
            ComAction::ReportVectorError,
            ComAction::WarnBattery,
            ComAction::ReportUnknown,
            ComAction::NoteScanDone,
            ComAction::ReportUnknown,
        ]
    );
    assert!(interrupt_actions(&vec![], true, Some(1)).is_empty());
}

#[test]
fn wait_operations_have_numbers() {
    assert_eq!(WaitOp::WaitMs.to_usize(), 0);
    assert_eq!(WaitOp::PollAt.to_usize(), 1);
    assert_eq!(WaitOp::Quit.to_usize(), 2);
    for op in [WaitOp::WaitMs, WaitOp::PollAt, WaitOp::Quit] {
        assert_eq!(WaitOp::from_usize(op.to_usize()), Some(op));
    }
    assert_eq!(WaitOp::from_usize(3), None);
}

#[test]
fn waiting_for_a_time() {
    assert_eq!(wait_step(0, 250, 0, 7), WaitStep::Sleep { ms: 250, out_of_bounds: false });
    assert_eq!(wait_step(0, 250, 1, 7), WaitStep::Sleep { ms: 250, out_of_bounds: true });
}

#[test]
fn waiting_for_a_point_in_time() {
    assert_eq!(wait_step(1, 1000, 0, 400), WaitStep::Sleep { ms: 600, out_of_bounds: false });
    assert_eq!(wait_step(1, 1000, 0, 1000), WaitStep::Skip);
    assert_eq!(wait_step(1, 1000, 0, 1001), WaitStep::Skip);
    let at = (5u64 << 32) + 10;
    assert_eq!(wait_step(1, 10, 5, at - 3), WaitStep::Sleep { ms: 3, out_of_bounds: false });
}

#[test]
fn waiting_ends() {
    assert_eq!(wait_step(2, 0, 0, 0), WaitStep::Quit);
    assert_eq!(wait_step(99, 0, 0, 0), WaitStep::Unknown);
}

#[test]
fn next_poll() {
    assert_eq!(poll_plan(100, None), PollPlan::Idle);
    assert_eq!(poll_plan(100, Some(100)), PollPlan::Now);
    assert_eq!(poll_plan(100, Some(-5)), PollPlan::Now);
    assert_eq!(poll_plan(100, Some(101)), PollPlan::At { lsb: 101, msb: 0 });
    assert_eq!(
        poll_plan(100, Some(0x1_2345_6789_abcd)),
        PollPlan::At { lsb: 0x6789_abcd, msb: 0x1_2345 }
    );
}

#[test]
fn poll_time_reads_back() {
    for at in [1i64, 0xffff_ffff, 0x1_0000_0000, 0xfff_ffff_ffff_ffff] {
        match poll_plan(0, Some(at)) {
            PollPlan::At { lsb, msb } => assert_eq!(
                wait_step(WaitOp::PollAt.to_usize(), lsb, msb, at as u64 - 1),
                WaitStep::Sleep { ms: 1, out_of_bounds: false }
            ),
            plan => panic!("{:?}", plan),
        }
    }
}
