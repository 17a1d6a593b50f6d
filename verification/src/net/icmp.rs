//! ICMP echo messages.

use smoltcp::phy::{Checksum, ChecksumCapabilities};
use smoltcp::wire::{Icmpv4Packet, Icmpv4Repr};
use vstd::prelude::*;

verus! {

/// An error of the network stack.
#[verifier::external_type_specification]
#[verifier::external_body]
pub struct ExSmoltcpError(smoltcp::Error);

/// When the checksum of ICMP messages is in use.
#[derive(Clone, Copy, Debug, PartialEq, Eq, Structural)]
pub enum ChecksumUse {
    /// It is verified on receipt and computed for sending.
    Both,
    /// It is verified on receipt.
    Rx,
    /// It is computed for sending.
    Tx,
    /// It is ignored.
    Neither,
}

impl ChecksumUse {
    /// Whether the checksum is verified on receipt.
    pub open spec fn rx(self) -> bool {
        self is Both || self is Rx
    }

    /// Whether the checksum is computed for sending.
    pub open spec fn tx(self) -> bool {
        self is Both || self is Tx
    }
}

/// An answer to an echo request.
#[derive(Debug)]
pub struct EchoReply {
    /// The sequence number of the request.
    pub seq_no: u16,
    /// The payload of the request, as it came back.
    pub data: Vec<u8>,
}

/// The bytes of an integer in network byte order.
pub open spec fn be16(n: u16) -> Seq<u8> {
    seq![(n / 256) as u8, (n % 256) as u8]
}

/// The sum of the 16-bit words of a message, most significant byte first. An odd byte at the end is
/// the upper half of a word.
pub open spec fn word_sum(bytes: Seq<u8>) -> nat
    decreases bytes.len(),
{
    if bytes.len() == 0 {
        0
    } else if bytes.len() == 1 {
        256 * bytes[0] as nat
    } else {
        256 * bytes[0] as nat + bytes[1] as nat + word_sum(bytes.skip(2))
    }
}

/// A sum in 16 bits, with all carries added back in.
pub open spec fn carried(sum: nat) -> int {
    if sum == 0 {
        0
    } else {
        1 + (sum - 1) % 0xffff
    }
}

/// The checksum of a message whose own checksum is zero.
pub open spec fn checksum_of(bytes: Seq<u8>) -> u16 {
    (0xffff - carried(word_sum(bytes))) as u16
}

/// Whether the checksum that a message holds is right.
pub open spec fn checksum_holds(bytes: Seq<u8>) -> bool {
    carried(word_sum(bytes)) == 0xffff
}

/// The bytes of an echo request with the given checksum.
pub open spec fn echo_request_bytes(checksum: u16, ident: u16, seq_no: u16, data: Seq<u8>) -> Seq<
    u8,
> {
    seq![8u8, 0u8] + be16(checksum) + be16(ident) + be16(seq_no) + data
}

/// The bytes of an echo request as it is sent. The checksum is zero unless it is computed for
/// sending.
pub open spec fn sent_request(
    checksum: ChecksumUse,
    ident: u16,
    seq_no: u16,
    data: Seq<u8>,
) -> Seq<u8> {
    let sum = if checksum.tx() {
        checksum_of(echo_request_bytes(0, ident, seq_no, data))
    } else {
        0
    };
    echo_request_bytes(sum, ident, seq_no, data)
}

/// Whether `bytes` start with an IPv4 header whose lengths fit, and hold at least eight bytes behind
/// it.
pub open spec fn quotes_datagram(bytes: Seq<u8>) -> bool {
    let header_len = 4 * (bytes[0] as int % 16);
    let total_len = 256 * bytes[2] + bytes[3];
    &&& bytes.len() >= 20
    &&& header_len <= total_len <= bytes.len()
    &&& bytes.len() - header_len >= 8
}

/// Whether `bytes` are a supported ICMP message, with the checksum verified or not: an echo request
/// or reply, or a report of an unreachable destination that quotes the datagram.
pub open spec fn acceptable(rx_checksum: bool, bytes: Seq<u8>) -> bool {
    &&& bytes.len() >= 8
    &&& rx_checksum ==> checksum_holds(bytes)
    &&& match bytes[0] {
        0 => bytes[1] == 0,
        8 => bytes[1] == 0,
        3 => quotes_datagram(bytes.skip(8)),
        _ => false,
    }
}

/// Lays out an echo request with `smoltcp`'s `Icmpv4Repr::emit`. The contract says what the bytes
/// are: message type 8, code 0, checksum, identifier, sequence number and payload. The checksum is
/// the complement of the sum of the 16-bit words, carries added back in, or zero where it is not
/// computed for sending. The bound on the length keeps the sum within 32 bits.
#[verifier::external_body]
pub(crate) fn emit_echo_request(
    checksum: ChecksumUse,
    ident: u16,
    seq_no: u16,
    data: &[u8],
) -> (packet: Vec<u8>)
    requires
        data@.len() <= 0xffff,
    ensures
        packet@ == sent_request(checksum, ident, seq_no, data@),
{
    let mut caps = ChecksumCapabilities::default();
    caps.icmpv4 = match checksum {
        ChecksumUse::Both => Checksum::Both,
        ChecksumUse::Rx => Checksum::Rx,
        ChecksumUse::Tx => Checksum::Tx,
        ChecksumUse::Neither => Checksum::None,
    };
    let repr = Icmpv4Repr::EchoRequest { ident, seq_no, data };
    let mut packet = vec![0u8; repr.buffer_len()];
    repr.emit(&mut Icmpv4Packet::new_unchecked(&mut packet[..]), &caps);
    packet
}

/// Reads an ICMP message with `smoltcp`'s `Icmpv4Packet::new_checked` and `Icmpv4Repr::parse`.
///
/// The contract says which messages are accepted: those of at least eight bytes that are an echo
/// request, an echo reply or a report of an unreachable destination, with a right checksum where it
/// is verified. An accepted message is an echo reply where its type is 0; its sequence number is in
/// bytes 6 and 7, and its payload is what follows them. The bound on the length keeps the sum of
/// the words within 32 bits.
#[verifier::external_body]
pub(crate) fn parse_echo_reply(checksum: ChecksumUse, bytes: &[u8]) -> (reply: Result<
    Option<EchoReply>,
    smoltcp::Error,
>)
    requires
        bytes@.len() <= 0xffff,
    ensures
        reply is Ok <==> acceptable(checksum.rx(), bytes@),
        reply matches Ok(r) ==> (r is Some <==> bytes@[0] == 0),
        reply matches Ok(Some(r)) ==> r.seq_no == 256 * bytes@[6] + bytes@[7] && r.data@
            == bytes@.skip(8),
{
    let mut caps = ChecksumCapabilities::default();
    caps.icmpv4 = match checksum {
        ChecksumUse::Both => Checksum::Both,
        ChecksumUse::Rx => Checksum::Rx,
        ChecksumUse::Tx => Checksum::Tx,
        ChecksumUse::Neither => Checksum::None,
    };
    match Icmpv4Repr::parse(&Icmpv4Packet::new_checked(bytes)?, &caps)? {
        Icmpv4Repr::EchoReply { seq_no, data, .. } => Ok(Some(EchoReply { seq_no, data: data.to_vec() })),
        _ => Ok(None),
    }
}

/// An ICMP message could not be read: it is too short, its checksum is wrong, or it is of a kind
/// that is not supported.
#[derive(Clone, Copy, Debug, PartialEq, Eq, Structural)]
pub struct MalformedMessage {}

/// The bytes of an echo request.
pub fn echo_request_packet(checksum: ChecksumUse, ident: u16, seq_no: u16, data: &Vec<u8>) -> (
    packet: Vec<u8>)
    requires
        data@.len() <= 0xffff,
    ensures
        packet@ == sent_request(checksum, ident, seq_no, data@),
{
    emit_echo_request(checksum, ident, seq_no, data.as_slice())
}

/// The echo reply in an ICMP message, or `None` where the message is of another kind.
pub fn read_echo_reply(checksum: ChecksumUse, bytes: &[u8]) -> (reply: Result<
    Option<EchoReply>,
    MalformedMessage,
>)
    requires
        bytes@.len() <= 0xffff,
    ensures
        reply is Ok <==> acceptable(checksum.rx(), bytes@),
        reply matches Ok(r) ==> (r is Some <==> bytes@[0] == 0),
        reply matches Ok(Some(r)) ==> r.seq_no == 256 * bytes@[6] + bytes@[7] && r.data@
            == bytes@.skip(8),
{
    match parse_echo_reply(checksum, bytes) {
        Ok(reply) => Ok(reply),
        Err(_) => Err(MalformedMessage {  }),
    }
}

/// A message with the checksum that [`checksum_of`] gives has a right checksum.
pub proof fn law_checksum_verifies(kind: u8, code: u8, rest: Seq<u8>)
    ensures
        ({
            let checksum = checksum_of(seq![kind, code] + be16(0) + rest);
            checksum_holds(seq![kind, code] + be16(checksum) + rest)
        }),
{
    let zeroed = seq![kind, code] + be16(0) + rest;
    let checksum = checksum_of(zeroed);
    let n = word_sum(zeroed);
    lemma_word_sum_head(kind, code, 0, rest);
    lemma_word_sum_head(kind, code, checksum, rest);
    assert(checksum == 0xffff - carried(n));
    assert(carried(n + checksum as nat) == 0xffff);
}

proof fn lemma_word_sum_head(kind: u8, code: u8, checksum: u16, rest: Seq<u8>)
    ensures
        word_sum(seq![kind, code] + be16(checksum) + rest) == 256 * kind + code + checksum
            + word_sum(rest),
{
    let all = seq![kind, code] + be16(checksum) + rest;
    let tail = all.skip(2);
    assert(tail =~= be16(checksum) + rest);
    assert(tail.skip(2) =~= rest);
    assert(tail[0] == checksum / 256 && tail[1] == checksum % 256);
    assert(word_sum(tail) == checksum + word_sum(rest));
}

/// An echo request as it is sent is accepted by whoever reads it, with the checksum verified or
/// not. Where the checksum is not computed, it must not be verified.
pub proof fn law_request_is_accepted(
    checksum: ChecksumUse,
    rx_checksum: bool,
    ident: u16,
    seq_no: u16,
    data: Seq<u8>,
)
    requires
        rx_checksum ==> checksum.tx(),
    ensures
        acceptable(rx_checksum, sent_request(checksum, ident, seq_no, data)),
{
    let rest = be16(ident) + be16(seq_no) + data;
    law_checksum_verifies(8, 0, rest);
    let zeroed = echo_request_bytes(0, ident, seq_no, data);
    assert(zeroed =~= seq![8u8, 0u8] + be16(0) + rest);
    let sum = checksum_of(zeroed);
    assert(echo_request_bytes(sum, ident, seq_no, data) =~= seq![8u8, 0u8] + be16(sum) + rest);
}

/// The answer to an echo request holds the sequence number and the payload of the request where
/// [`read_echo_reply`] finds them.
pub proof fn law_answer_mirrors_request(
    checksum: u16,
    answer_checksum: u16,
    ident: u16,
    seq_no: u16,
    data: Seq<u8>,
)
    ensures
        ({
            let request = echo_request_bytes(checksum, ident, seq_no, data);
            let answer = seq![0u8, 0u8] + be16(answer_checksum) + request.skip(4);
            &&& answer.len() >= 8
            &&& 256 * answer[6] + answer[7] == seq_no
            &&& answer.skip(8) == data
        }),
{
    let request = echo_request_bytes(checksum, ident, seq_no, data);
    let answer = seq![0u8, 0u8] + be16(answer_checksum) + request.skip(4);
    assert(answer[6] == request[6] && answer[7] == request[7]);
    assert(answer.skip(8) =~= data);
}

/// The layout of an echo request: type 8, code 0, checksum, identifier and sequence number with the
/// most significant byte first, then the payload. Where the checksum is not computed it is zero, and
/// where it is computed it is right.
pub proof fn law_request_layout(
    checksum: ChecksumUse,
    ident: u16,
    seq_no: u16,
    data: Seq<u8>,
    i: int,
)
    ensures
        ({
            let bytes = sent_request(checksum, ident, seq_no, data);
            &&& bytes.len() == 8 + data.len()
            &&& bytes[0] == 8
            &&& bytes[1] == 0
            &&& checksum is Neither || checksum is Rx ==> bytes[2] == 0 && bytes[3] == 0
            &&& checksum is Both || checksum is Tx ==> carried(word_sum(bytes)) == 0xffff
            &&& 256 * bytes[4] + bytes[5] == ident
            &&& 256 * bytes[6] + bytes[7] == seq_no
            &&& 0 <= i < data.len() ==> bytes[8 + i] == data[i]
        }),
{
    law_request_is_accepted(checksum, checksum.tx(), ident, seq_no, data);
}

/// The sum of the words of a message goes over its words in order, most significant byte first; an
/// odd byte at the end counts as the upper half of a word. With its carries added back in, a sum
/// keeps its rest modulo 65535, and only that of nothing is zero.
pub proof fn law_word_sum(high: u8, low: u8, rest: Seq<u8>, sum: nat)
    ensures
        word_sum(Seq::empty()) == 0,
        word_sum(seq![high]) == 256 * high,
        word_sum(seq![high, low] + rest) == 256 * high + low + word_sum(rest),
        0 <= carried(sum) <= 0xffff,
        carried(sum) % 0xffff == sum % 0xffff,
        carried(sum) == 0 <==> sum == 0,
{
    let all = seq![high, low] + rest;
    assert(all.skip(2) =~= rest);
}

/// A message is not accepted where it is shorter than eight bytes, where its checksum is verified and
/// wrong, where it is an echo message with a code, or where it is none of the three kinds. An echo
/// message without a code is accepted otherwise.
pub proof fn law_accepted_messages(rx_checksum: bool, bytes: Seq<u8>)
    ensures
        bytes.len() < 8 ==> !acceptable(rx_checksum, bytes),
        rx_checksum && carried(word_sum(bytes)) != 0xffff ==> !acceptable(rx_checksum, bytes),
        bytes[0] != 0 && bytes[0] != 3 && bytes[0] != 8 ==> !acceptable(rx_checksum, bytes),
        (bytes[0] == 0 || bytes[0] == 8) && bytes[1] != 0 ==> !acceptable(rx_checksum, bytes),
        bytes.len() >= 8 && (bytes[0] == 0 || bytes[0] == 8) && bytes[1] == 0 && (!rx_checksum
            || carried(word_sum(bytes)) == 0xffff) ==> acceptable(rx_checksum, bytes),
{
}

/// Whoever sends a request back as an answer, with the checksum that belongs to it, is understood:
/// the answer is accepted, and its sequence number and payload are those of the request.
pub proof fn law_answer_is_accepted(
    checksum: ChecksumUse,
    rx_checksum: bool,
    ident: u16,
    seq_no: u16,
    data: Seq<u8>,
)
    ensures
        ({
            let rest = sent_request(checksum, ident, seq_no, data).skip(4);
            let zeroed = seq![0u8, 0u8] + be16(0) + rest;
            let answer = seq![0u8, 0u8] + be16(checksum_of(zeroed)) + rest;
            &&& acceptable(rx_checksum, answer)
            &&& answer[0] == 0
            &&& 256 * answer[6] + answer[7] == seq_no
            &&& answer.skip(8) == data
        }),
{
    let request = sent_request(checksum, ident, seq_no, data);
    let rest = request.skip(4);
    law_checksum_verifies(0, 0, rest);
    let answer = seq![0u8, 0u8] + be16(checksum_of(seq![0u8, 0u8] + be16(0) + rest)) + rest;
    assert(answer[6] == request[6] && answer[7] == request[7]);
    assert(answer.skip(8) =~= data);
}

/// A report of an unreachable destination is accepted exactly where it quotes an IPv4 header, whose
/// two lengths fit in what it quotes, and at least eight bytes behind the header.
pub proof fn law_accepted_reports(rx_checksum: bool, bytes: Seq<u8>)
    requires
        bytes.len() >= 8,
        bytes[0] == 3,
        rx_checksum ==> carried(word_sum(bytes)) == 0xffff,
    ensures
        acceptable(rx_checksum, bytes) <==> {
            let header_len = 4 * (bytes[8] as int % 16);
            let total_len = 256 * bytes[10] + bytes[11];
            &&& bytes.len() >= 28
            &&& header_len <= total_len
            &&& 8 + total_len <= bytes.len()
            &&& 16 + header_len <= bytes.len()
        },
{
}

} // verus!
