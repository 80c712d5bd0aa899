//! Single bus transactions: what goes out, in which order the hardware is driven,
//! and what the device's reply means.
use crate::encoding;
use crate::encoding::{
    build_data, build_token, MAX_DATA_PACKET_BYTES, MAX_DATA_PACKET_WORDS, MAX_DATA_PAYLOAD_BYTES,
    MAX_ENCODED_PACKET_BYTES,
};
use crate::line_code;
use crate::pid;
use crate::pid::{
    USB_PID_ACK, USB_PID_DATA0, USB_PID_DATA1, USB_PID_IN, USB_PID_NAK, USB_PID_OUT, USB_PID_SETUP,
    USB_PID_STALL,
};
use crate::rx_driver;
use crate::rx_driver::RxPacketStatus;
use crate::tx_driver;
use crate::types::PipeError;
use vstd::prelude::*;

verus! {

/// Size of the buffer that takes a handshake.
pub const HANDSHAKE_BUFFER_BYTES: usize = 8;

/// Classified response to an IN token.
#[derive(Debug, Clone, Copy, PartialEq, Eq, Structural)]
pub enum InReply {
    /// No response was captured after the IN token.
    NoReply,
    /// Device returned a NAK handshake.
    Nak,
    /// Device returned DATA0/DATA1.
    Data {
        /// Raw PID byte (`DATA0` or `DATA1`).
        pid: u8,
        /// Whether CRC16 and DATA PID checks passed.
        valid_crc: bool,
        /// Payload bytes, excluding SYNC, PID, and CRC16.
        payload_len: usize,
    },
    /// Any other non-terminal response.
    Other,
}

/// One step of a transaction.
#[derive(Debug, Clone, Copy, PartialEq, Eq, Structural)]
pub enum BusStep {
    /// Arm the receiver.
    PrepareReceive,
    /// Transmit the first packet.
    TransmitFirst,
    /// Transmit the second packet.
    TransmitSecond,
    /// Clear stale receive flags: the reply comes from here on.
    StartReceive,
    /// Stage the ACK and leave the bus to the device.
    PrepareAck,
    /// Capture the device's reply.
    Receive,
    /// Fire the staged ACK.
    StartTx,
    /// Note the time of the activity.
    MarkActivity,
    /// Wait until the ACK is out.
    WaitTx,
}

/// A token and the DATA packet behind it, both ready for the FIFO.
pub struct OutPackets {
    token: [u32; 3],
    data: [u32; 40],
    data_len: usize,
}

impl OutPackets {
    /// The words of the token.
    pub closed spec fn token_words(&self) -> Seq<u32> {
        self.token@
    }

    /// The words of the DATA packet.
    pub closed spec fn data_words(&self) -> Seq<u32> {
        self.data@.take(self.data_len as int)
    }

    /// The DATA packet's words stand in the buffer.
    pub closed spec fn wf(&self) -> bool {
        self.data_len <= 40
    }

    /// The words of the token packet.
    pub fn token(&self) -> (words: &[u32; 3])
        ensures
            words@ == self.token_words(),
    {
        &self.token
    }

    /// The words of the DATA packet.
    pub fn data(&self) -> (words: &[u32])
        requires
            self.wf(),
        ensures
            words@ == self.data_words(),
    {
        let words = vstd::slice::slice_subrange(self.data.as_slice(), 0, self.data_len);
        assert(words@ =~= self.data_words());
        words
    }
}

/// Build a token and the DATA packet that follows it, if the payload fits a packet.
fn build_out(
    token_pid: u8,
    addr: u8,
    ep: u8,
    data1: bool,
    data: &[u8],
) -> (r: Option<OutPackets>)
    ensures
        match r {
            Some(p) => {
                &&& data@.len() <= MAX_DATA_PAYLOAD_BYTES
                &&& p.wf()
                &&& p.token_words() == line_code::packet_words(encoding::token_packet(token_pid, addr, ep))
                &&& p.data_words() == line_code::packet_words(
                    encoding::data_packet(pid::data_pid(data1), data@),
                )
            },
            None => data@.len() > MAX_DATA_PAYLOAD_BYTES,
        },
{
    let token = build_token(token_pid, addr, ep);
    let data_pid = if data1 {
        USB_PID_DATA1
    } else {
        USB_PID_DATA0
    };
    let mut packet = [0u8; MAX_DATA_PACKET_BYTES];
    let mut scratch = [0u8; MAX_ENCODED_PACKET_BYTES];
    let mut words = [0u32; MAX_DATA_PACKET_WORDS];
    proof {
        encoding::law_data_buffers_suffice(data_pid, data@);
    }
    let data_len = match build_data(data_pid, data, &mut packet, &mut scratch, &mut words) {
        Some(built) => built.len(),
        None => {
            return None;
        },
    };
    let r = OutPackets { token, data: words, data_len };
    assert(r.data_words() =~= line_code::packet_words(
        encoding::data_packet(pid::data_pid(data1), data@),
    ));
    Some(r)
}

/// The words of an OUT transaction: those of its token and those of its DATA packet.
pub open spec fn out_words(addr: u8, ep: u8, data1: bool, data: Seq<u8>) -> (Seq<u32>, Seq<u32>) {
    (
        line_code::packet_words(encoding::token_packet(USB_PID_OUT, addr, ep)),
        line_code::packet_words(encoding::data_packet(pid::data_pid(data1), data)),
    )
}

/// The words of a SETUP transaction: those of its token and those of its DATA packet.
pub open spec fn setup_words(addr: u8, ep: u8, setup: Seq<u8>) -> (Seq<u32>, Seq<u32>) {
    (
        line_code::packet_words(encoding::token_packet(USB_PID_SETUP, addr, ep)),
        line_code::packet_words(encoding::data_packet(USB_PID_DATA0, setup)),
    )
}

/// The words of an IN token.
pub open spec fn in_token_words(addr: u8, ep: u8) -> Seq<u32> {
    line_code::packet_words(encoding::token_packet(USB_PID_IN, addr, ep))
}

/// One **OUT** transaction (interrupt/bulk or one control-OUT data packet): OUT token + DATA,
/// then the device handshake. `data1` selects the DATA1/DATA0 toggle.
///
/// Returns the packets to send. They hold a single DATA packet; callers that need
/// multi-packet OUT transfers must split the payload and manage toggles.
pub fn out_once(addr: u8, ep: u8, data1: bool, data: &[u8]) -> (r: Result<OutPackets, PipeError>)
    ensures
        match r {
            Ok(p) => {
                &&& data@.len() <= MAX_DATA_PAYLOAD_BYTES
                &&& p.wf()
                &&& p.token_words() == line_code::packet_words(
                    encoding::token_packet(USB_PID_OUT, addr, ep),
                )
                &&& p.data_words() == line_code::packet_words(
                    encoding::data_packet(pid::data_pid(data1), data@),
                )
            },
            Err(e) => data@.len() > MAX_DATA_PAYLOAD_BYTES && e == PipeError::BufferOverflow,
        },
        r matches Ok(p) ==> (p.token_words(), p.data_words()) == out_words(addr, ep, data1, data@),
{
    match build_out(USB_PID_OUT, addr, ep, data1, data) {
        Some(p) => Ok(p),
        None => Err(PipeError::BufferOverflow),
    }
}

/// The SETUP token and DATA0 setup packet, which expect an ACK handshake.
pub fn control_setup(addr: u8, ep: u8, setup: &[u8; 8]) -> (p: OutPackets)
    ensures
        p.wf(),
        p.token_words() == line_code::packet_words(encoding::token_packet(USB_PID_SETUP, addr, ep)),
        p.data_words() == line_code::packet_words(encoding::data_packet(USB_PID_DATA0, setup@)),
        (p.token_words(), p.data_words()) == setup_words(addr, ep, setup@),
{
    match build_out(USB_PID_SETUP, addr, ep, false, setup.as_slice()) {
        Some(p) => p,
        None => vstd::pervasive::unreached(),
    }
}

/// The IN token of an endpoint.
pub fn in_token(addr: u8, ep: u8) -> (words: [u32; 3])
    ensures
        words@ == line_code::packet_words(encoding::token_packet(USB_PID_IN, addr, ep)),
        words@ == in_token_words(addr, ep),
{
    build_token(USB_PID_IN, addr, ep)
}

/// Transmitting one or two packets with the receiver armed for the reply.
pub open spec fn transmit_for_reply_steps(two: bool) -> Seq<BusStep> {
    if two {
        seq![
            BusStep::PrepareReceive,
            BusStep::TransmitFirst,
            BusStep::TransmitSecond,
            BusStep::StartReceive,
        ]
    } else {
        seq![BusStep::PrepareReceive, BusStep::TransmitFirst, BusStep::StartReceive]
    }
}

/// Transmitting one or two packets and capturing the handshake.
pub open spec fn handshake_steps(two: bool) -> Seq<BusStep> {
    transmit_for_reply_steps(two) + seq![BusStep::Receive, BusStep::MarkActivity]
}

/// Asking for DATA, up to its capture.
pub open spec fn in_request_steps() -> Seq<BusStep> {
    transmit_for_reply_steps(false) + seq![BusStep::PrepareAck, BusStep::Receive]
}

/// What follows the capture: a valid DATA packet is ACKed first of all.
pub open spec fn in_finish_steps(n: nat, status: RxPacketStatus, pid: u8) -> Seq<BusStep> {
    if status is ValidData {
        if n >= 2 && pid::is_data_pid(pid) {
            seq![BusStep::StartTx, BusStep::MarkActivity, BusStep::WaitTx]
        } else {
            seq![BusStep::StartTx, BusStep::MarkActivity]
        }
    } else {
        seq![BusStep::MarkActivity]
    }
}

/// Step `i` of transmitting one or two packets, then arming RX for the device reply;
/// `None` behind the last step.
///
/// Used for token-only IN transactions and token+DATA OUT/SETUP transactions.
pub fn transmit_for_reply(two: bool, i: usize) -> (step: Option<BusStep>)
    ensures
        step == tx_driver::step_at(transmit_for_reply_steps(two), i as int),
{
    if i == 0 {
        Some(BusStep::PrepareReceive)
    } else if i == 1 {
        Some(BusStep::TransmitFirst)
    } else if two && i == 2 {
        Some(BusStep::TransmitSecond)
    } else if (two && i == 3) || (!two && i == 2) {
        Some(BusStep::StartReceive)
    } else {
        None
    }
}

/// Step `i` of transmitting a token or token+DATA pair and capturing the device
/// handshake; `None` behind the last step.
pub fn transmit_and_check_ack(two: bool, i: usize) -> (step: Option<BusStep>)
    ensures
        step == tx_driver::step_at(handshake_steps(two), i as int),
{
    let sent: usize = if two {
        4
    } else {
        3
    };
    if i < sent {
        transmit_for_reply(two, i)
    } else if i == sent {
        Some(BusStep::Receive)
    } else if i == sent + 1 {
        Some(BusStep::MarkActivity)
    } else {
        None
    }
}

/// The buffer in which a handshake is captured.
pub fn handshake_buffer() -> (buffer: [u8; HANDSHAKE_BUFFER_BYTES])
    ensures
        buffer@ == Seq::new(HANDSHAKE_BUFFER_BYTES as nat, |i: int| 0u8),
{
    let buffer = [0u8; HANDSHAKE_BUFFER_BYTES];
    assert(buffer@ =~= Seq::new(HANDSHAKE_BUFFER_BYTES as nat, |i: int| 0u8));
    buffer
}

/// What a handshake of `n` bytes with the PID byte `pid` means.
pub open spec fn handshake_meaning(n: nat, pid: u8) -> Result<bool, PipeError> {
    if n >= 2 && pid == USB_PID_STALL {
        Err(PipeError::Stall)
    } else {
        Ok(n >= 2 && pid == USB_PID_ACK)
    }
}

/// Interpret the device handshake, `n` bytes long with the PID byte `pid`.
///
/// Returns `Ok(true)` for ACK, `Ok(false)` for no reply/NAK/other non-ACK
/// response, and `Err(PipeError::Stall)` for STALL.
pub fn check_ack(n: usize, pid: u8) -> (r: Result<bool, PipeError>)
    ensures
        r == handshake_meaning(n as nat, pid),
{
    if n < 2 {
        return Ok(false);
    }
    if pid == USB_PID_ACK {
        Ok(true)
    } else if pid == USB_PID_STALL {
        Err(PipeError::Stall)
    } else {
        Ok(false)
    }
}

/// Step `i` of sending an IN token and catching the device reply; `None` behind the
/// last step.
///
/// USB handshakes have tight response timing after EOP (USB 2.0 §7.1.18.2), so
/// the ACK is preloaded before receiving and fired with a single SM-enable write.
/// The bus is released last so the device reply is not collided with during capture.
pub fn in_request(i: usize) -> (step: Option<BusStep>)
    ensures
        step == tx_driver::step_at(in_request_steps(), i as int),
{
    if i < 3 {
        transmit_for_reply(false, i)
    } else if i == 3 {
        Some(BusStep::PrepareAck)
    } else if i == 4 {
        Some(BusStep::Receive)
    } else {
        None
    }
}

/// Step `i` of what follows the capture of a reply of `n` bytes with the PID byte
/// `pid`: valid DATA is ACKed immediately; `None` behind the last step.
pub fn receive_data_and_ack(n: usize, status: RxPacketStatus, pid: u8, i: usize) -> (step: Option<BusStep>)
    ensures
        step == tx_driver::step_at(in_finish_steps(n as nat, status, pid), i as int),
{
    let acked = match status {
        RxPacketStatus::ValidData => true,
        _ => false,
    };
    if acked {
        if i == 0 {
            Some(BusStep::StartTx)
        } else if i == 1 {
            Some(BusStep::MarkActivity)
        } else if i == 2 && n >= 2 && (pid == USB_PID_DATA0 || pid == USB_PID_DATA1) {
            Some(BusStep::WaitTx)
        } else {
            None
        }
    } else if i == 0 {
        Some(BusStep::MarkActivity)
    } else {
        None
    }
}

/// What the reply to an IN token means.
pub open spec fn in_meaning(n: nat, status: RxPacketStatus, pid: u8) -> Result<InReply, PipeError> {
    if status is Overflow {
        Err(PipeError::Babble)
    } else if n < 2 {
        Ok(InReply::NoReply)
    } else if pid == USB_PID_STALL {
        Err(PipeError::Stall)
    } else if pid == USB_PID_NAK {
        Ok(InReply::Nak)
    } else if pid::is_data_pid(pid) {
        Ok(
            InReply::Data {
                pid,
                valid_crc: status is ValidData,
                payload_len: if n >= 4 {
                    (n - 4) as usize
                } else {
                    0
                },
            },
        )
    } else {
        Ok(InReply::Other)
    }
}

/// Classify the reply to an IN token: `n` captured bytes, their status, and the PID
/// byte `pid`.
pub fn in_reply(n: usize, status: RxPacketStatus, pid: u8) -> (r: Result<InReply, PipeError>)
    ensures
        r == in_meaning(n as nat, status, pid),
{
    match status {
        RxPacketStatus::Overflow => {
            return Err(PipeError::Babble);
        },
        _ => {},
    }
    if n < 2 {
        return Ok(InReply::NoReply);
    }
    if pid == USB_PID_STALL {
        Err(PipeError::Stall)
    } else if pid == USB_PID_NAK {
        Ok(InReply::Nak)
    } else if pid == USB_PID_DATA0 || pid == USB_PID_DATA1 {
        let valid_crc = match status {
            RxPacketStatus::ValidData => true,
            _ => false,
        };
        let payload_len = if n >= 4 {
            n - 4
        } else {
            0
        };
        Ok(InReply::Data { pid, valid_crc, payload_len })
    } else {
        Ok(InReply::Other)
    }
}

/// The host ACKs a captured packet exactly when it is a DATA packet with a good
/// CRC16 that fitted the buffer, and then reports its whole payload as valid.
pub proof fn law_ack_means_intact_data(bytes: Seq<u8>, capacity: nat)
    requires
        capacity <= usize::MAX,
        2 <= bytes.len(),
    ensures
        ({
            let n = rx_driver::captured_len(bytes, capacity);
            let status = rx_driver::eop_status(bytes, capacity);
            let acked = in_finish_steps(n, status, bytes[1]).contains(BusStep::StartTx);
            &&& acked <==> bytes.len() <= capacity && rx_driver::is_data_packet(bytes)
            &&& acked <==> in_meaning(n, status, bytes[1]) == Ok::<InReply, PipeError>(
                InReply::Data { pid: bytes[1], valid_crc: true, payload_len: (bytes.len() - 4) as usize },
            )
        }),
{
    let n = rx_driver::captured_len(bytes, capacity);
    let status = rx_driver::eop_status(bytes, capacity);
    let steps = in_finish_steps(n, status, bytes[1]);
    if status is ValidData {
        assert(steps[0] == BusStep::StartTx);
    } else {
        assert(steps.len() == 1 && steps[0] == BusStep::MarkActivity);
    }
}

/// The receiver is armed before anything is transmitted, and its stale flags are
/// cleared when all of it is on the wire, right before the reply is captured or the
/// ACK staged.
pub proof fn law_receiver_armed_around_transmission(two: bool)
    ensures
        handshake_steps(two)[0] == BusStep::PrepareReceive,
        handshake_steps(two)[handshake_steps(two).len() - 3] == BusStep::StartReceive,
        handshake_steps(two)[handshake_steps(two).len() - 2] == BusStep::Receive,
        in_request_steps()[0] == BusStep::PrepareReceive,
        in_request_steps().last() == BusStep::Receive,
        in_request_steps()[in_request_steps().len() - 2] == BusStep::PrepareAck,
{
}

/// Only an ACK counts as one; a STALL is the one error; without two bytes there is no
/// handshake.
pub proof fn law_handshakes(n: nat, pid: u8)
    ensures
        handshake_meaning(n, pid) == Ok::<bool, PipeError>(true) <==> n >= 2 && pid == 0xD2,
        handshake_meaning(n, pid) is Err <==> n >= 2 && pid == 0x1E,
        handshake_meaning(n, pid) is Err ==> handshake_meaning(n, pid)->Err_0 is Stall,
{
}

/// What replies to an IN token mean. A reply that does not fit is babble, whatever it
/// is; one of less than two bytes is none; of the others the PID decides. A DATA packet
/// is reported with its PID, its validity and the bytes between PID and CRC16.
pub proof fn law_in_replies(n: nat, status: RxPacketStatus, pid: u8)
    requires
        n <= usize::MAX,
    ensures
        ({
            let r = in_meaning(n, status, pid);
            let read = !(status is Overflow) && n >= 2;
            &&& r == Err::<InReply, PipeError>(PipeError::Babble) <==> status is Overflow
            &&& r == Err::<InReply, PipeError>(PipeError::Stall) <==> read && pid == 0x1E
            &&& r is Err ==> r->Err_0 is Babble || r->Err_0 is Stall
            &&& r == Ok::<InReply, PipeError>(InReply::NoReply) <==> !(status is Overflow) && n < 2
            &&& r == Ok::<InReply, PipeError>(InReply::Nak) <==> read && pid == 0x5A
            &&& (r is Ok && r->Ok_0 is Data) <==> read && (pid == 0xC3 || pid == 0x4B)
            &&& r matches Ok(InReply::Data { pid: reported, valid_crc, payload_len }) ==> {
                &&& reported == pid
                &&& valid_crc == (status is ValidData)
                &&& n >= 4 ==> payload_len + 4 == n
                &&& n < 4 ==> payload_len == 0
            }
        }),
{
}

/// Behind a captured packet the host notes the activity. If it ACKs the packet, that is
/// the first thing it does, and waiting until the ACK is out is the last, whichever of
/// the DATA PIDs the packet has.
pub proof fn law_ack_is_first_and_awaited(bytes: Seq<u8>, capacity: nat)
    ensures
        ({
            let n = rx_driver::captured_len(bytes, capacity);
            let status = rx_driver::eop_status(bytes, capacity);
            let steps = in_finish_steps(n, status, bytes[1]);
            let acked = steps.contains(BusStep::StartTx);
            &&& acked <==> bytes.len() <= capacity && rx_driver::is_data_packet(bytes)
            &&& acked ==> steps.len() == 3 && steps[0] is StartTx && steps[1] is MarkActivity
                && steps[2] is WaitTx
            &&& !acked ==> steps.len() == 1 && steps[0] is MarkActivity
        }),
{
    let n = rx_driver::captured_len(bytes, capacity);
    let status = rx_driver::eop_status(bytes, capacity);
    let steps = in_finish_steps(n, status, bytes[1]);
    if status is ValidData {
        assert(steps[0] == BusStep::StartTx);
    } else {
        assert(steps.len() == 1 && steps[0] == BusStep::MarkActivity);
    }
}

/// Nothing is ACKed without valid DATA.
pub proof fn law_no_ack_without_valid_data(n: nat, status: RxPacketStatus, pid: u8)
    requires
        !(status is ValidData),
    ensures
        in_finish_steps(n, status, pid).len() == 1,
        in_finish_steps(n, status, pid)[0] is MarkActivity,
{
}

/// A transaction arms the receiver, sends its token and, if it has one, the packet
/// behind it, has the receiver start afresh, and only then captures the reply; for an IN
/// token the ACK is staged right before that.
pub proof fn law_transaction_order(two: bool, i: int)
    ensures
        ({
            let sent: int = if two {
                3
            } else {
                2
            };
            let t = transmit_for_reply_steps(two);
            let h = handshake_steps(two);
            let r = in_request_steps();
            &&& t.len() == sent + 1 && h.len() == sent + 3 && r.len() == 5
            &&& 0 <= i < t.len() ==> {
                &&& t[i] == h[i]
                &&& t[i] is PrepareReceive <==> i == 0
                &&& t[i] is TransmitFirst <==> i == 1
                &&& t[i] is TransmitSecond <==> two && i == 2
                &&& t[i] is StartReceive <==> i == sent
            }
            &&& 0 <= i < h.len() ==> {
                &&& h[i] is Receive <==> i == sent + 1
                &&& h[i] is MarkActivity <==> i == sent + 2
            }
            &&& 0 <= i < 3 ==> r[i] == transmit_for_reply_steps(false)[i]
            &&& r[3] is PrepareAck && r[4] is Receive
        }),
{
}

/// What a device decodes from an OUT transaction: an OUT token for it and its endpoint, and
/// a DATA packet with the toggle and all of the data.
pub proof fn law_out_transaction_on_the_wire(addr: u8, ep: u8, data1: bool, data: Seq<u8>)
    ensures
        ({
            let (token, packet) = out_words(addr, ep, data1, data);
            let bytes = line_code::line_decode(packet);
            &&& encoding::carries_field(
                line_code::line_decode(token),
                0xE1,
                (addr % 128) + 128 * (ep % 16),
            )
            &&& bytes.len() == data.len() + 4
            &&& bytes[0] == 0x80
            &&& bytes[1] == (if data1 {
                0x4Bu8
            } else {
                0xC3u8
            })
            &&& bytes.subrange(2, data.len() as int + 2) == data
        }),
{
    encoding::law_token_reaches_its_endpoint(USB_PID_OUT, addr, ep);
    encoding::law_data_packet_carries_payload(pid::data_pid(data1), data);
}

/// What a device decodes from a SETUP transaction: a SETUP token for it and its endpoint,
/// and the request in a DATA0 packet.
pub proof fn law_setup_transaction_on_the_wire(addr: u8, ep: u8, setup: Seq<u8>)
    ensures
        ({
            let (token, packet) = setup_words(addr, ep, setup);
            let bytes = line_code::line_decode(packet);
            &&& encoding::carries_field(
                line_code::line_decode(token),
                0x2D,
                (addr % 128) + 128 * (ep % 16),
            )
            &&& bytes.len() == setup.len() + 4
            &&& bytes[0] == 0x80
            &&& bytes[1] == 0xC3
            &&& bytes.subrange(2, setup.len() as int + 2) == setup
        }),
{
    encoding::law_token_reaches_its_endpoint(USB_PID_SETUP, addr, ep);
    encoding::law_data_packet_carries_payload(USB_PID_DATA0, setup);
}

/// What a device decodes from an IN token: that it and its endpoint are asked for data.
pub proof fn law_in_token_on_the_wire(addr: u8, ep: u8)
    ensures
        encoding::carries_field(
            line_code::line_decode(in_token_words(addr, ep)),
            0x69,
            (addr % 128) + 128 * (ep % 16),
        ),
{
    encoding::law_token_reaches_its_endpoint(USB_PID_IN, addr, ep);
}

} // verus!
