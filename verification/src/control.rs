//! Control transfers, as decisions between bus transactions.
//!
//! A transfer says what to do next and takes what came of it, until it is finished.
use crate::bus::Bus;
use crate::encoding;
use crate::encoding::{MAX_DATA_PACKET_BYTES, MAX_DATA_PAYLOAD_BYTES};
use crate::line_code;
use crate::pid;
use crate::pid::{USB_PID_DATA0, USB_PID_DATA1, USB_PID_IN, USB_PID_OUT, USB_PID_SETUP};
use crate::rx_driver;
use crate::transaction;
use crate::transaction::{control_setup, in_token, out_once, InReply, OutPackets};
use crate::types::PipeError;
use vstd::prelude::*;

verus! {

/// `control_out` STATUS-stage IN polls before giving up.
///
/// Devices may NAK the write-status IN while processing requests such as
/// `SET_CONFIGURATION`; retrying the whole transfer too early restarts the request.
pub const STATUS_POLL_ATTEMPTS: u32 = 400;

/// `control_in` DATA-stage NAK-poll budget per packet.
///
/// The budget resets after each successfully received packet so a slow multi-packet
/// descriptor cannot spend the entire allowance before later packets are ready.
pub const DATA_STALL_BUDGET: u32 = 64;

/// Absolute `control_in` poll cap for the whole DATA stage.
///
/// This bounds devices that keep returning full-size packets or NAK forever.
pub const DATA_TOTAL_CAP: u32 = 400;

/// Size of the buffer that takes the reply to a status IN token. A zero-length packet
/// takes half of it.
pub const STATUS_BUFFER_BYTES: usize = 8;

/// Where a control-IN transfer stands.
#[derive(Debug, Clone, Copy, PartialEq, Eq, Structural)]
pub enum InStage {
    /// A keep-alive comes before anything else.
    Start,
    /// Another keep-alive comes before the SETUP packet.
    BeforeSetup,
    /// The SETUP packet is to be sent.
    Setup,
    /// DATA packets are polled.
    Data,
    /// The status packet is to be sent.
    Status,
    /// The transfer has succeeded with this many bytes.
    Done(usize),
    /// The transfer has failed.
    Failed(PipeError),
}

/// What a control-IN transfer wants done next.
#[derive(Debug, Clone, Copy, PartialEq, Eq)]
pub enum InAction {
    /// Send a keep-alive if one is due, then call [`ControlIn::keepalive_done`].
    Keepalive,
    /// Send [`ControlIn::setup_packets`] and pass the handshake to [`ControlIn::handshake`].
    SendSetup,
    /// Send [`ControlIn::poll_token`] and pass the reply to [`ControlIn::polled`].
    PollIn,
    /// Send [`ControlIn::status_packets`] and pass the handshake to [`ControlIn::handshake`].
    SendStatus,
    /// The transfer is over.
    Finish(Result<usize, PipeError>),
}

/// The action at each stage of a control-IN transfer.
pub open spec fn in_action(stage: InStage) -> InAction {
    match stage {
        InStage::Start => InAction::Keepalive,
        InStage::BeforeSetup => InAction::Keepalive,
        InStage::Setup => InAction::SendSetup,
        InStage::Data => InAction::PollIn,
        InStage::Status => InAction::SendStatus,
        InStage::Done(n) => InAction::Finish(Ok(n)),
        InStage::Failed(e) => InAction::Finish(Err(e)),
    }
}

/// A control-IN transfer, seen as what it has received and counted.
pub struct InTransfer {
    /// Requested length, from the SETUP packet.
    pub wlen: int,
    /// Maximum packet size.
    pub mps: int,
    /// Size of the caller's buffer.
    pub capacity: int,
    pub stage: InStage,
    /// The payload bytes taken so far.
    pub received: Seq<u8>,
    /// Whether the next packet in sequence is a DATA1.
    pub expect_data1: bool,
    /// IN polls since the last packet was taken.
    pub stall_polls: int,
    /// IN polls in all.
    pub total_polls: int,
    /// Status attempts that were not acknowledged.
    pub status_tries: int,
}

/// What came of an action of a control transfer.
pub enum Outcome {
    /// A keep-alive was sent if one was due.
    KeptAlive,
    /// A handshake: acknowledged or not, or an error.
    Handshake(Result<bool, PipeError>),
    /// A reply to an IN token, with its payload.
    Reply(Result<InReply, PipeError>, Seq<u8>),
}

/// The `wLength` of a SETUP packet: its last two bytes, low byte first.
pub open spec fn setup_wlen(setup: Seq<u8>) -> int {
    setup[6] + 256 * setup[7]
}

/// The data toggle of a valid DATA reply.
pub open spec fn data_toggle(reply: InReply) -> Option<bool> {
    match reply {
        InReply::Data { pid, valid_crc, payload_len } => if !valid_crc {
            None
        } else if pid == USB_PID_DATA0 {
            Some(false)
        } else if pid == USB_PID_DATA1 {
            Some(true)
        } else {
            None
        },
        _ => None,
    }
}

/// Whether a reply is the status packet of a control write: a valid zero-length DATA1.
pub open spec fn is_status(reply: InReply) -> bool {
    reply == (InReply::Data { pid: USB_PID_DATA1, valid_crc: true, payload_len: 0 })
}

/// The payload of a reply that was captured in `pkt`.
pub open spec fn reply_payload(reply: Result<InReply, PipeError>, pkt: Seq<u8>) -> Seq<u8> {
    match reply {
        Ok(InReply::Data { pid, valid_crc, payload_len }) => pkt.subrange(2, 2 + payload_len),
        _ => Seq::empty(),
    }
}

/// The words of the status packet of a control read: those of its token and those of its
/// DATA packet.
pub open spec fn status_words(addr: u8, ep: u8) -> (Seq<u32>, Seq<u32>) {
    transaction::out_words(addr, ep, true, Seq::empty())
}

impl InTransfer {
    /// A transfer that has not begun.
    pub open spec fn fresh(wlen: int, mps: int, capacity: int) -> InTransfer {
        InTransfer {
            wlen,
            mps,
            capacity,
            stage: InStage::Start,
            received: Seq::empty(),
            expect_data1: true,
            stall_polls: 0,
            total_polls: 0,
            status_tries: 0,
        }
    }

    /// Whether a reply is the next packet in sequence.
    pub open spec fn in_sequence(self, reply: Result<InReply, PipeError>) -> bool {
        reply is Ok && data_toggle(reply->Ok_0) == Some(self.expect_data1)
    }

    /// Behind a keep-alive. A request for more than the buffer holds is refused
    /// before anything is sent for it.
    pub open spec fn kept_alive(self) -> InTransfer {
        let stage = if self.stage is BeforeSetup {
            InStage::Setup
        } else if self.wlen > self.capacity {
            InStage::Failed(PipeError::BufferOverflow)
        } else {
            InStage::BeforeSetup
        };
        InTransfer { stage, ..self }
    }

    /// Behind the handshake of the SETUP or the status packet. SETUP is tried once;
    /// the status packet until it is acknowledged, 64 times at most.
    pub open spec fn shaken(self, r: Result<bool, PipeError>) -> InTransfer {
        match r {
            Err(e) => InTransfer { stage: InStage::Failed(e), ..self },
            Ok(ack) => if self.stage is Setup {
                let stage = if !ack {
                    InStage::Failed(PipeError::Timeout)
                } else if self.wlen == 0 {
                    InStage::Status
                } else {
                    InStage::Data
                };
                InTransfer { stage, ..self }
            } else if ack {
                InTransfer { stage: InStage::Done(self.received.len() as usize), ..self }
            } else {
                let stage = if self.status_tries + 1 >= DATA_STALL_BUDGET {
                    InStage::Failed(PipeError::Timeout)
                } else {
                    InStage::Status
                };
                InTransfer { stage, status_tries: self.status_tries + 1, ..self }
            },
        }
    }

    /// Behind a reply to an IN token.
    ///
    /// A packet in sequence is taken whole; it ends the DATA stage if it is short or
    /// completes the requested length. Everything else, a repeated packet included,
    /// only counts as a poll.
    pub open spec fn replied(self, reply: Result<InReply, PipeError>, payload: Seq<u8>) -> InTransfer {
        if let Err(e) = reply {
            InTransfer { stage: InStage::Failed(e), ..self }
        } else if self.in_sequence(reply) {
            if self.received.len() + payload.len() > self.capacity {
                InTransfer { stage: InStage::Failed(PipeError::BufferOverflow), ..self }
            } else {
                let received = self.received + payload;
                let stage = if payload.len() < self.mps || received.len() >= self.wlen {
                    InStage::Status
                } else if self.total_polls + 1 >= DATA_TOTAL_CAP {
                    InStage::Failed(PipeError::Timeout)
                } else {
                    InStage::Data
                };
                InTransfer {
                    stage,
                    received,
                    expect_data1: !self.expect_data1,
                    stall_polls: 0,
                    total_polls: self.total_polls + 1,
                    ..self
                }
            }
        } else {
            let stage = if self.stall_polls + 1 >= DATA_STALL_BUDGET || self.total_polls + 1
                >= DATA_TOTAL_CAP {
                InStage::Failed(PipeError::Timeout)
            } else {
                InStage::Data
            };
            InTransfer {
                stage,
                stall_polls: self.stall_polls + 1,
                total_polls: self.total_polls + 1,
                ..self
            }
        }
    }

    /// The counters are within their budgets, and the buffer holds what was received.
    pub open spec fn wf(self) -> bool {
        &&& self.received.len() <= self.capacity <= usize::MAX
        &&& self.wlen >= 0
        &&& self.mps >= 0
        &&& self.stage is Data ==> 0 <= self.stall_polls < DATA_STALL_BUDGET && 0 <= self.total_polls
            < DATA_TOTAL_CAP
        &&& self.stage is Status ==> 0 <= self.status_tries < DATA_STALL_BUDGET
        &&& self.stage is Start || self.stage is BeforeSetup || self.stage is Setup ==> {
            &&& self.received.len() == 0
            &&& self.expect_data1
            &&& self.stall_polls == 0
            &&& self.total_polls == 0
        }
        &&& !(self.stage is Status || self.stage is Done || self.stage is Failed) ==> self.status_tries == 0
        &&& self.stage is Done ==> self.stage->Done_0 == self.received.len()
    }

    /// Whether an outcome is one of the action that the transfer is at.
    pub open spec fn expects(self, outcome: Outcome) -> bool {
        match outcome {
            Outcome::KeptAlive => self.stage is Start || self.stage is BeforeSetup,
            Outcome::Handshake(_) => self.stage is Setup || self.stage is Status,
            Outcome::Reply(_, _) => self.stage is Data,
        }
    }

    /// Behind the outcome of an action.
    pub open spec fn step(self, outcome: Outcome) -> InTransfer {
        match outcome {
            Outcome::KeptAlive => self.kept_alive(),
            Outcome::Handshake(r) => self.shaken(r),
            Outcome::Reply(reply, payload) => self.replied(reply, payload),
        }
    }

    /// Behind a sequence of outcomes.
    pub open spec fn run(self, outcomes: Seq<Outcome>) -> InTransfer
        decreases outcomes.len(),
    {
        if outcomes.len() == 0 {
            self
        } else {
            self.run(outcomes.drop_last()).step(outcomes.last())
        }
    }

    /// Whether each outcome is one of the action that the transfer is at by then.
    pub open spec fn follows(self, outcomes: Seq<Outcome>) -> bool
        decreases outcomes.len(),
    {
        outcomes.len() == 0 || (self.follows(outcomes.drop_last()) && self.run(
            outcomes.drop_last(),
        ).expects(outcomes.last()))
    }

    /// A bound on how many actions are left.
    pub open spec fn actions_left(self) -> int {
        match self.stage {
            InStage::Start => 3 + DATA_TOTAL_CAP + DATA_STALL_BUDGET,
            InStage::BeforeSetup => 2 + DATA_TOTAL_CAP + DATA_STALL_BUDGET,
            InStage::Setup => 1 + DATA_TOTAL_CAP + DATA_STALL_BUDGET,
            InStage::Data => DATA_TOTAL_CAP - self.total_polls + DATA_STALL_BUDGET,
            InStage::Status => DATA_STALL_BUDGET - self.status_tries,
            InStage::Done(_) => 0,
            InStage::Failed(_) => 0,
        }
    }
}

/// A control-IN transfer.
///
/// Sends SETUP, polls IN packets until the requested length or a short packet is
/// received, then completes the status OUT stage.
pub struct ControlIn {
    addr: u8,
    ep: u8,
    mps: u16,
    setup: [u8; 8],
    capacity: usize,
    stage: InStage,
    total: usize,
    expect_data1: bool,
    stall_polls: u32,
    total_polls: u32,
    status_tries: u32,
}

impl ControlIn {
    /// The transfer, `data` being the contents of the caller's buffer.
    pub closed spec fn transfer(&self, data: Seq<u8>) -> InTransfer {
        InTransfer {
            wlen: setup_wlen(self.setup@),
            mps: self.mps as int,
            capacity: self.capacity as int,
            stage: self.stage,
            received: data.take(self.total as int),
            expect_data1: self.expect_data1,
            stall_polls: self.stall_polls as int,
            total_polls: self.total_polls as int,
            status_tries: self.status_tries as int,
        }
    }

    /// Where the transfer stands, whatever the buffer holds.
    pub open spec fn at(&self) -> InStage {
        self.transfer(Seq::new(self.capacity(), |i: int| 0u8)).stage
    }

    /// Device address and endpoint.
    pub closed spec fn target(&self) -> (u8, u8) {
        (self.addr, self.ep)
    }

    /// The SETUP packet.
    pub closed spec fn setup(&self) -> Seq<u8> {
        self.setup@
    }

    /// The size of the caller's buffer.
    pub closed spec fn capacity(&self) -> nat {
        self.capacity as nat
    }

    /// How many bytes the transfer has put into the buffer.
    pub closed spec fn received_len(&self) -> nat {
        self.total as nat
    }

    /// The transfer is in order with any buffer of its capacity.
    pub closed spec fn wf(&self) -> bool {
        &&& self.total <= self.capacity
        &&& forall|data: Seq<u8>| data.len() == self.capacity ==> (#[trigger] self.transfer(data)).wf()
    }

    /// The same transfer to the same target.
    pub open spec fn same_request(&self, other: &ControlIn) -> bool {
        &&& self.target() == other.target()
        &&& self.setup() == other.setup()
        &&& self.capacity() == other.capacity()
    }

    /// What to do next.
    pub fn action(&self) -> (action: InAction)
        ensures
            action == in_action(self.at()),
    {
        match self.stage {
            InStage::Start => InAction::Keepalive,
            InStage::BeforeSetup => InAction::Keepalive,
            InStage::Setup => InAction::SendSetup,
            InStage::Data => InAction::PollIn,
            InStage::Status => InAction::SendStatus,
            InStage::Done(n) => InAction::Finish(Ok(n)),
            InStage::Failed(e) => InAction::Finish(Err(e)),
        }
    }

    /// The SETUP token and packet.
    pub fn setup_packets(&self) -> (p: OutPackets)
        ensures
            p.wf(),
            p.token_words() == line_code::packet_words(
                encoding::token_packet(USB_PID_SETUP, self.target().0, self.target().1),
            ),
            p.data_words() == line_code::packet_words(
                encoding::data_packet(USB_PID_DATA0, self.setup()),
            ),
            (p.token_words(), p.data_words()) == transaction::setup_words(
                self.target().0,
                self.target().1,
                self.setup(),
            ),
    {
        control_setup(self.addr, self.ep, &self.setup)
    }

    /// The IN token.
    pub fn poll_token(&self) -> (words: [u32; 3])
        ensures
            words@ == line_code::packet_words(
                encoding::token_packet(USB_PID_IN, self.target().0, self.target().1),
            ),
            words@ == transaction::in_token_words(self.target().0, self.target().1),
    {
        in_token(self.addr, self.ep)
    }

    /// The buffer in which the reply to the IN token is captured: it holds the largest
    /// DATA packet, and a longer reply is [`PipeError::Babble`].
    pub fn capture_buffer(&self) -> (buffer: [u8; MAX_DATA_PACKET_BYTES])
        ensures
            buffer@.len() == MAX_DATA_PACKET_BYTES,
            buffer@ == Seq::new(MAX_DATA_PACKET_BYTES as nat, |i: int| 0u8),
    {
        let buffer = [0u8; MAX_DATA_PACKET_BYTES];
        assert(buffer@ =~= Seq::new(MAX_DATA_PACKET_BYTES as nat, |i: int| 0u8));
        buffer
    }

    /// The status packet: OUT with a zero-length DATA1.
    pub fn status_packets(&self) -> (p: OutPackets)
        ensures
            p.wf(),
            p.token_words() == line_code::packet_words(
                encoding::token_packet(USB_PID_OUT, self.target().0, self.target().1),
            ),
            p.data_words() == line_code::packet_words(
                encoding::data_packet(USB_PID_DATA1, Seq::empty()),
            ),
            (p.token_words(), p.data_words()) == status_words(self.target().0, self.target().1),
    {
        let none: [u8; 0] = [];
        assert(none@ =~= Seq::empty());
        match out_once(self.addr, self.ep, true, none.as_slice()) {
            Ok(p) => p,
            Err(_) => vstd::pervasive::unreached(),
        }
    }

    /// Take note that a keep-alive was sent if one was due.
    pub fn keepalive_done(&mut self)
        requires
            old(self).wf(),
            old(self).at() is Start || old(self).at() is BeforeSetup,
        ensures
            final(self).wf(),
            final(self).same_request(old(self)),
            forall|data: Seq<u8>|
                data.len() == old(self).capacity() ==> #[trigger] final(self).transfer(data) == old(
                    self,
                ).transfer(data).kept_alive(),
    {
        let ghost old_self = *self;
        match self.stage {
            InStage::BeforeSetup => {
                self.stage = InStage::Setup;
            },
            _ => {
                // wLength from the SETUP request.
                let wlen = self.setup[6] as usize + 256 * (self.setup[7] as usize);
                self.stage = if wlen > self.capacity {
                    InStage::Failed(PipeError::BufferOverflow)
                } else {
                    InStage::BeforeSetup
                };
            },
        }
        proof {
            assert forall|data: Seq<u8>| data.len() == self.capacity implies (#[trigger] self.transfer(
                data,
            )).wf() && self.transfer(data) == old_self.transfer(data).kept_alive() by {
                assert(old_self.transfer(data).wf());
            }
        }
    }

    /// Take the device's handshake to the SETUP or the status packet.
    pub fn handshake(&mut self, r: Result<bool, PipeError>)
        requires
            old(self).wf(),
            old(self).at() is Setup || old(self).at() is Status,
        ensures
            final(self).wf(),
            final(self).same_request(old(self)),
            forall|data: Seq<u8>|
                data.len() == old(self).capacity() ==> #[trigger] final(self).transfer(data) == old(
                    self,
                ).transfer(data).shaken(r),
    {
        let ghost old_self = *self;
        proof {
            let data = Seq::new(self.capacity as nat, |i: int| 0u8);
            assert(self.transfer(data).wf());
        }
        match r {
            Err(e) => {
                self.stage = InStage::Failed(e);
            },
            Ok(ack) => {
                match self.stage {
                    InStage::Setup => {
                        self.stage = if !ack {
                            InStage::Failed(PipeError::Timeout)
                        } else if self.setup[6] == 0 && self.setup[7] == 0 {
                            InStage::Status
                        } else {
                            InStage::Data
                        };
                    },
                    _ => {
                        if ack {
                            self.stage = InStage::Done(self.total);
                        } else {
                            self.status_tries += 1;
                            if self.status_tries >= DATA_STALL_BUDGET {
                                self.stage = InStage::Failed(PipeError::Timeout);
                            }
                        }
                    },
                }
            },
        }
        proof {
            assert forall|data: Seq<u8>| data.len() == self.capacity implies (#[trigger] self.transfer(
                data,
            )).wf() && self.transfer(data) == old_self.transfer(data).shaken(r) by {
                assert(old_self.transfer(data).wf());
            }
        }
    }

    /// Take the device's reply to the IN token, captured in `pkt`, and copy the
    /// payload of a packet in sequence into `data`.
    pub fn polled(&mut self, r: Result<InReply, PipeError>, pkt: &[u8], data: &mut [u8])
        requires
            old(self).wf(),
            old(self).at() is Data,
            old(data)@.len() == old(self).capacity(),
            r matches Ok(InReply::Data { pid, valid_crc, payload_len }) ==> payload_len + 2 <= pkt@.len(),
        ensures
            final(self).wf(),
            final(self).same_request(old(self)),
            final(data)@.len() == old(data)@.len(),
            final(self).transfer(final(data)@) == old(self).transfer(old(data)@).replied(
                r,
                reply_payload(r, pkt@),
            ),
            final(self).received_len() == final(self).transfer(final(data)@).received.len(),
            forall|d: Seq<u8>|
                d.len() == old(data)@.len() ==> #[trigger] final(self).transfer(d) == (InTransfer {
                    received: d.take(final(self).received_len() as int),
                    ..final(self).transfer(final(data)@)
                }),
            forall|i: int|
                final(self).received_len() <= i < old(data)@.len() ==> final(data)@[i] == old(data)@[i],
    {
        let ghost old_self = *self;
        let ghost old_data = data@;
        proof {
            assert(self.transfer(data@).wf());
        }
        let reply = match r {
            Ok(reply) => reply,
            Err(e) => {
                self.stage = InStage::Failed(e);
                proof {
                    self.lemma_wf(data@);
                }
                return;
            },
        };
        let (taken, payload_len) = match reply {
            InReply::Data { pid, valid_crc, payload_len } => (
                valid_crc && ((pid == USB_PID_DATA1 && self.expect_data1) || (pid == USB_PID_DATA0
                    && !self.expect_data1)),
                payload_len,
            ),
            _ => (false, 0),
        };
        if taken && payload_len > self.capacity - self.total {
            self.stage = InStage::Failed(PipeError::BufferOverflow);
            proof {
                self.lemma_wf(data@);
            }
            return;
        }
        self.stall_polls += 1;
        self.total_polls += 1;
        let mut completed = false;
        if taken {
            let mut i: usize = 0;
            let start = self.total;
            let captured = pkt.len();
            while i < payload_len
                invariant
                    i <= payload_len,
                    payload_len + 2 <= captured == pkt@.len(),
                    start + payload_len <= self.capacity == data@.len(),
                    data@.len() == old_data.len(),
                    forall|k: int| start <= k < start + i ==> data@[k] == pkt@[k - start + 2],
                    forall|k: int| 0 <= k < start ==> data@[k] == old_data[k],
                    forall|k: int| start + i <= k < old_data.len() ==> data@[k] == old_data[k],
                decreases payload_len - i,
            {
                data[start + i] = pkt[2 + i];
                i += 1;
            }
            self.total = start + payload_len;
            self.expect_data1 = !self.expect_data1;
            self.stall_polls = 0;  // progress: give the next packet a fresh budget
            let wlen = self.setup[6] as usize + 256 * (self.setup[7] as usize);
            if payload_len < self.mps as usize || self.total >= wlen {
                completed = true;
            }
            assert(data@.take(self.total as int) =~= old_data.take(start as int) + pkt@.subrange(
                2,
                2 + payload_len,
            ));
        }
        if completed {
            self.stage = InStage::Status;
        } else if self.stall_polls >= DATA_STALL_BUDGET || self.total_polls >= DATA_TOTAL_CAP {
            self.stage = InStage::Failed(PipeError::Timeout);
        }
        proof {
            self.lemma_wf(data@);
        }
    }

    /// Whether the transfer is in order does not depend on what the buffer holds.
    proof fn lemma_wf(&self, data: Seq<u8>)
        requires
            self.total <= self.capacity,
            data.len() == self.capacity,
            self.transfer(data).wf(),
        ensures
            self.wf(),
    {
        assert forall|other: Seq<u8>| other.len() == self.capacity implies (#[trigger] self.transfer(
            other,
        )).wf() by {
            assert(other.take(self.total as int).len() == data.take(self.total as int).len());
        }
    }
}

/// The payloads of the packets in sequence among the outcomes, one behind the other,
/// and whether the next one is a DATA1: the first packet of a control-IN is one, and
/// the toggles alternate.
pub open spec fn collected(outcomes: Seq<Outcome>) -> (Seq<u8>, bool)
    decreases outcomes.len(),
{
    if outcomes.len() == 0 {
        (Seq::empty(), true)
    } else {
        let (bytes, expect_data1) = collected(outcomes.drop_last());
        match outcomes.last() {
            Outcome::Reply(Ok(reply), payload) => if data_toggle(reply) == Some(expect_data1) {
                (bytes + payload, !expect_data1)
            } else {
                (bytes, expect_data1)
            },
            _ => (bytes, expect_data1),
        }
    }
}

/// Every outcome of the action at hand brings the transfer nearer to its end and
/// keeps it in order.
pub proof fn law_control_in_progresses(t: InTransfer, outcome: Outcome)
    requires
        t.wf(),
        t.expects(outcome),
    ensures
        t.step(outcome).wf(),
        0 <= t.step(outcome).actions_left() < t.actions_left(),
{
}

/// A transfer is over after at most 467 actions, whatever the device does: 2
/// keep-alives, the SETUP packet, 400 IN polls and 64 status packets.
pub proof fn law_control_in_ends(wlen: int, mps: int, capacity: int, outcomes: Seq<Outcome>)
    requires
        0 <= wlen,
        0 <= mps,
        0 <= capacity <= usize::MAX,
        InTransfer::fresh(wlen, mps, capacity).follows(outcomes),
    ensures
        outcomes.len() <= 467,
        InTransfer::fresh(wlen, mps, capacity).run(outcomes).wf(),
        outcomes.len() + InTransfer::fresh(wlen, mps, capacity).run(outcomes).actions_left() <= 467,
        InTransfer::fresh(wlen, mps, capacity).run(outcomes).actions_left() >= 0,
    decreases outcomes.len(),
{
    if outcomes.len() > 0 {
        law_control_in_ends(wlen, mps, capacity, outcomes.drop_last());
        law_control_in_progresses(
            InTransfer::fresh(wlen, mps, capacity).run(outcomes.drop_last()),
            outcomes.last(),
        );
    }
}

/// As long as a transfer has not failed, its buffer holds the payloads of the packets
/// in sequence and nothing else: no packet is lost, and a repeated one is not taken
/// twice. A transfer that succeeds reports how many bytes that is.
pub proof fn law_control_in_collects(wlen: int, mps: int, capacity: int, outcomes: Seq<Outcome>)
    requires
        0 <= wlen,
        0 <= mps,
        0 <= capacity <= usize::MAX,
        InTransfer::fresh(wlen, mps, capacity).follows(outcomes),
        !(InTransfer::fresh(wlen, mps, capacity).run(outcomes).stage is Failed),
    ensures
        ({
            let t = InTransfer::fresh(wlen, mps, capacity).run(outcomes);
            &&& t.received == collected(outcomes).0
            &&& t.expect_data1 == collected(outcomes).1
            &&& t.capacity == capacity
            &&& t.received.len() <= capacity
            &&& t.stage matches InStage::Done(n) ==> n == t.received.len()
        }),
    decreases outcomes.len(),
{
    let fresh = InTransfer::fresh(wlen, mps, capacity);
    law_control_in_ends(wlen, mps, capacity, outcomes);
    if outcomes.len() > 0 {
        let less = outcomes.drop_last();
        assert(fresh.run(less).expects(outcomes.last()));
        law_control_in_collects(wlen, mps, capacity, less);
    }
}

/// A transfer fails with the error that a transaction reports.
pub proof fn law_control_in_passes_errors_on(t: InTransfer, payload: Seq<u8>, e: PipeError)
    ensures
        t.step(Outcome::Handshake(Err(e))).stage == InStage::Failed(e),
        t.step(Outcome::Reply(Err(e), payload)).stage == InStage::Failed(e),
{
}

/// The DATA stage of a transfer ends well exactly when a packet in sequence fits the
/// buffer and is short or completes the requested length.
pub proof fn law_control_in_data_stage_end(t: InTransfer, reply: Result<InReply, PipeError>, payload: Seq<u8>)
    requires
        t.wf(),
        t.stage is Data,
    ensures
        t.replied(reply, payload).stage is Status <==> {
            &&& t.in_sequence(reply)
            &&& t.received.len() + payload.len() <= t.capacity
            &&& payload.len() < t.mps || t.received.len() + payload.len() >= t.wlen
        },
{
}

/// The number of replies to IN tokens among the outcomes.
pub open spec fn polls(outcomes: Seq<Outcome>) -> nat
    decreases outcomes.len(),
{
    if outcomes.len() == 0 {
        0
    } else if outcomes.last() is Reply {
        polls(outcomes.drop_last()) + 1
    } else {
        polls(outcomes.drop_last())
    }
}

/// Whether the last outcome is a packet in sequence.
pub open spec fn took_packet(outcomes: Seq<Outcome>) -> bool {
    match outcomes.last() {
        Outcome::Reply(Ok(reply), payload) => data_toggle(reply) == Some(
            collected(outcomes.drop_last()).1,
        ),
        _ => false,
    }
}

/// The number of replies to IN tokens behind the last packet in sequence.
pub open spec fn stalled(outcomes: Seq<Outcome>) -> nat
    decreases outcomes.len(),
{
    if outcomes.len() == 0 || took_packet(outcomes) {
        0
    } else if outcomes.last() is Reply {
        stalled(outcomes.drop_last()) + 1
    } else {
        stalled(outcomes.drop_last())
    }
}

/// The payload of the last packet in sequence, if there was one.
pub open spec fn last_packet(outcomes: Seq<Outcome>) -> Option<Seq<u8>>
    decreases outcomes.len(),
{
    if outcomes.len() == 0 {
        None
    } else if took_packet(outcomes) {
        Some(outcomes.last()->Reply_1)
    } else {
        last_packet(outcomes.drop_last())
    }
}

/// A transfer sends at most 400 IN tokens in all and at most 64 behind the last packet
/// in sequence. A DATA stage that times out has spent the one or the other.
pub proof fn law_control_in_poll_caps(wlen: int, mps: int, capacity: int, outcomes: Seq<Outcome>)
    requires
        0 <= wlen,
        0 <= mps,
        0 <= capacity <= usize::MAX,
        InTransfer::fresh(wlen, mps, capacity).follows(outcomes),
    ensures
        polls(outcomes) <= DATA_TOTAL_CAP,
        stalled(outcomes) <= DATA_STALL_BUDGET,
        ({
            let t = InTransfer::fresh(wlen, mps, capacity).run(outcomes);
            &&& !(t.stage is Failed) ==> t.total_polls == polls(outcomes)
            &&& t.stage is Data ==> {
                &&& t.stall_polls == stalled(outcomes)
                &&& polls(outcomes) < DATA_TOTAL_CAP
                &&& stalled(outcomes) < DATA_STALL_BUDGET
            }
            &&& outcomes.len() > 0 && outcomes.last() is Reply && outcomes.last()->Reply_0 is Ok
                && t.stage == InStage::Failed(PipeError::Timeout) ==> polls(outcomes) == DATA_TOTAL_CAP
                || stalled(outcomes) == DATA_STALL_BUDGET
        }),
    decreases outcomes.len(),
{
    let fresh = InTransfer::fresh(wlen, mps, capacity);
    if outcomes.len() > 0 {
        let less = outcomes.drop_last();
        let t = fresh.run(less);
        law_control_in_poll_caps(wlen, mps, capacity, less);
        law_control_in_ends(wlen, mps, capacity, less);
        assert(t.expects(outcomes.last()));
        law_control_in_collects(wlen, mps, capacity, less);
        if t.stage is Setup {
            lemma_no_polls(wlen, mps, capacity, less);
        }
    }
}

/// Before the DATA stage nothing is polled.
proof fn lemma_no_polls(wlen: int, mps: int, capacity: int, outcomes: Seq<Outcome>)
    requires
        0 <= wlen,
        0 <= mps,
        0 <= capacity <= usize::MAX,
        InTransfer::fresh(wlen, mps, capacity).follows(outcomes),
        ({
            let stage = InTransfer::fresh(wlen, mps, capacity).run(outcomes).stage;
            stage is Start || stage is BeforeSetup || stage is Setup
        }),
    ensures
        polls(outcomes) == 0,
        stalled(outcomes) == 0,
        last_packet(outcomes) is None,
    decreases outcomes.len(),
{
    if outcomes.len() > 0 {
        let less = outcomes.drop_last();
        assert(InTransfer::fresh(wlen, mps, capacity).run(less).expects(outcomes.last()));
        lemma_no_polls(wlen, mps, capacity, less);
    }
}

/// A transfer gets through its DATA stage, and so succeeds, only if nothing was
/// requested and nothing polled, or it has all that was requested, or the last packet
/// was short.
pub proof fn law_control_in_success(wlen: int, mps: int, capacity: int, outcomes: Seq<Outcome>)
    requires
        0 <= wlen,
        0 <= mps,
        0 <= capacity <= usize::MAX,
        InTransfer::fresh(wlen, mps, capacity).follows(outcomes),
        ({
            let stage = InTransfer::fresh(wlen, mps, capacity).run(outcomes).stage;
            stage is Status || stage is Done
        }),
    ensures
        ({
            let t = InTransfer::fresh(wlen, mps, capacity).run(outcomes);
            let n = collected(outcomes).0.len();
            &&& t.stage matches InStage::Done(reported) ==> reported == n
            &&& {
                ||| wlen == 0 && polls(outcomes) == 0
                ||| n >= wlen && last_packet(outcomes) is Some
                ||| last_packet(outcomes) is Some && last_packet(outcomes)->0.len() < mps
            }
        }),
    decreases outcomes.len(),
{
    let fresh = InTransfer::fresh(wlen, mps, capacity);
    law_control_in_collects(wlen, mps, capacity, outcomes);
    let less = outcomes.drop_last();
    let t = fresh.run(less);
    assert(t.expects(outcomes.last()));
    law_control_in_ends(wlen, mps, capacity, less);
    law_control_in_collects(wlen, mps, capacity, less);
    lemma_in_parameters(fresh, less);
    if t.stage is Status {
        law_control_in_success(wlen, mps, capacity, less);
    } else if t.stage is Setup {
        lemma_no_polls(wlen, mps, capacity, less);
    }
}

/// A transfer keeps its parameters.
proof fn lemma_in_parameters(t: InTransfer, outcomes: Seq<Outcome>)
    ensures
        t.run(outcomes).wlen == t.wlen,
        t.run(outcomes).mps == t.mps,
        t.run(outcomes).capacity == t.capacity,
    decreases outcomes.len(),
{
    if outcomes.len() > 0 {
        lemma_in_parameters(t, outcomes.drop_last());
    }
}

/// A packet has a budget of 64 polls: with fewer replies that bring nothing the
/// transfer goes on, and it times out at the 64th, or at the 400th poll of the DATA
/// stage where that comes first.
pub proof fn law_control_in_poll_budget(t: InTransfer, replies: Seq<Outcome>)
    requires
        t.wf(),
        t.stage is Data,
        t.stall_polls == 0,
        replies.len() <= DATA_STALL_BUDGET,
        t.total_polls + replies.len() <= DATA_TOTAL_CAP,
        forall|i: int|
            0 <= i < replies.len() ==> (#[trigger] replies[i] matches Outcome::Reply(Ok(reply), payload)
                && data_toggle(reply) != Some(t.expect_data1)),
    ensures
        t.run(replies) == (InTransfer {
            stage: if replies.len() == DATA_STALL_BUDGET || t.total_polls + replies.len()
                == DATA_TOTAL_CAP {
                InStage::Failed(PipeError::Timeout)
            } else {
                InStage::Data
            },
            stall_polls: replies.len() as int,
            total_polls: t.total_polls + replies.len(),
            ..t
        }),
    decreases replies.len(),
{
    if replies.len() > 0 {
        let less = replies.drop_last();
        assert forall|i: int| 0 <= i < less.len() implies (#[trigger] less[i] matches Outcome::Reply(
            Ok(reply),
            payload,
        ) && data_toggle(reply) != Some(t.expect_data1)) by {
            assert(less[i] == replies[i]);
        }
        law_control_in_poll_budget(t, less);
        assert(replies.last() == replies[replies.len() - 1]);
    }
}

impl Bus {
    /// Begin one control-IN transfer into a buffer of `capacity` bytes.
    ///
    /// `wLength` from the SETUP request ends the data stage too, not only a short
    /// packet: essential when the configured `mps` doesn't match the device's real
    /// mps0 (e.g. the bootstrap device-descriptor read at mps=8, where the device's
    /// single 18-byte packet is never "< mps").
    pub fn control_in(&self, addr: u8, ep: u8, mps: u16, setup: &[u8; 8], capacity: usize) -> (r: ControlIn)
        ensures
            r.wf(),
            r.target() == (addr, ep),
            r.setup() == setup@,
            r.capacity() == capacity,
            forall|data: Seq<u8>|
                data.len() == capacity ==> #[trigger] r.transfer(data) == InTransfer::fresh(
                    setup_wlen(setup@),
                    mps as int,
                    capacity as int,
                ),
    {
        let r = ControlIn {
            addr,
            ep,
            mps,
            setup: *setup,
            capacity,
            stage: InStage::Start,
            total: 0,
            expect_data1: true,
            stall_polls: 0,
            total_polls: 0,
            status_tries: 0,
        };
        proof {
            assert forall|data: Seq<u8>| data.len() == capacity implies #[trigger] r.transfer(data)
                == InTransfer::fresh(setup_wlen(setup@), mps as int, capacity as int) by {
                assert(data.take(0) =~= Seq::empty());
            }
        }
        r
    }
}

/// Where a control-OUT transfer stands.
#[derive(Debug, Clone, Copy, PartialEq, Eq, Structural)]
pub enum OutStage {
    /// A keep-alive comes before anything else.
    Start,
    /// The SETUP packet is to be sent.
    Setup,
    /// A DATA packet is to be sent.
    Data,
    /// The status packet is polled.
    Status,
    /// The transfer has succeeded.
    Done,
    /// The transfer has failed.
    Failed(PipeError),
}

/// What a control-OUT transfer wants done next.
#[derive(Debug, Clone, Copy, PartialEq, Eq)]
pub enum OutAction {
    /// Send a keep-alive if one is due, then call [`ControlOut::keepalive_done`].
    Keepalive,
    /// Send [`ControlOut::setup_packets`] and pass the handshake to [`ControlOut::handshake`].
    SendSetup,
    /// Send [`ControlOut::data_packets`] and pass the handshake to [`ControlOut::handshake`].
    SendData,
    /// Send [`ControlOut::poll_token`] and pass the reply to [`ControlOut::polled`].
    PollStatus,
    /// The transfer is over.
    Finish(Result<(), PipeError>),
}

/// The action at each stage of a control-OUT transfer.
pub open spec fn out_action(stage: OutStage) -> OutAction {
    match stage {
        OutStage::Start => OutAction::Keepalive,
        OutStage::Setup => OutAction::SendSetup,
        OutStage::Data => OutAction::SendData,
        OutStage::Status => OutAction::PollStatus,
        OutStage::Done => OutAction::Finish(Ok(())),
        OutStage::Failed(e) => OutAction::Finish(Err(e)),
    }
}

/// A control-OUT transfer, seen as how far it has come.
pub struct OutTransfer {
    /// Maximum packet size, at least one.
    pub mps: int,
    /// Length of the data stage.
    pub len: int,
    pub stage: OutStage,
    /// How many bytes the device has acknowledged.
    pub off: int,
    /// Whether the packet at `off` is a DATA1.
    pub data1: bool,
    /// Attempts at the packet at `off` that were not acknowledged.
    pub tries: int,
    /// Status polls without a valid DATA packet.
    pub polls: int,
}

impl OutTransfer {
    /// A transfer that has not begun.
    pub open spec fn fresh(mps: int, len: int) -> OutTransfer {
        OutTransfer {
            mps: if mps < 1 {
                1
            } else {
                mps
            },
            len,
            stage: OutStage::Start,
            off: 0,
            data1: true,
            tries: 0,
            polls: 0,
        }
    }

    /// The end of the packet at `off`.
    pub open spec fn packet_end(self) -> int {
        if self.len - self.off <= self.mps {
            self.len
        } else {
            self.off + self.mps
        }
    }

    /// Behind a keep-alive.
    pub open spec fn kept_alive(self) -> OutTransfer {
        OutTransfer { stage: OutStage::Setup, ..self }
    }

    /// Behind the handshake of the SETUP or a DATA packet. SETUP is tried once; a
    /// DATA packet until it is acknowledged, 64 times at most.
    pub open spec fn shaken(self, r: Result<bool, PipeError>) -> OutTransfer {
        match r {
            Err(e) => OutTransfer { stage: OutStage::Failed(e), ..self },
            Ok(ack) => if self.stage is Setup {
                let stage = if !ack {
                    OutStage::Failed(PipeError::Timeout)
                } else if self.len == 0 {
                    OutStage::Status
                } else {
                    OutStage::Data
                };
                OutTransfer { stage, ..self }
            } else if ack {
                let stage = if self.packet_end() == self.len {
                    OutStage::Status
                } else {
                    OutStage::Data
                };
                OutTransfer { stage, off: self.packet_end(), data1: !self.data1, tries: 0, ..self }
            } else {
                let stage = if self.tries + 1 >= DATA_STALL_BUDGET {
                    OutStage::Failed(PipeError::Timeout)
                } else {
                    OutStage::Data
                };
                OutTransfer { stage, tries: self.tries + 1, ..self }
            },
        }
    }

    /// Behind a reply to the status IN token. Only a valid zero-length DATA1 is the
    /// status; anything else counts as a poll.
    pub open spec fn replied(self, reply: Result<InReply, PipeError>) -> OutTransfer {
        match reply {
            Err(e) => OutTransfer { stage: OutStage::Failed(e), ..self },
            Ok(reply) => if is_status(reply) {
                OutTransfer { stage: OutStage::Done, ..self }
            } else {
                let stage = if self.polls + 1 >= STATUS_POLL_ATTEMPTS {
                    OutStage::Failed(PipeError::Timeout)
                } else {
                    OutStage::Status
                };
                OutTransfer { stage, polls: self.polls + 1, ..self }
            },
        }
    }

    /// How many packets precede offset `off`.
    pub open spec fn packets_before(self) -> int {
        (self.off + self.mps - 1) / self.mps
    }

    /// The counters are within their budgets, `off` is where a packet starts or the
    /// end, and the toggle is that of the packet there: DATA1 for the first, then
    /// alternating.
    pub open spec fn wf(self) -> bool {
        &&& self.mps >= 1
        &&& 0 <= self.off <= self.len <= usize::MAX
        &&& self.off % self.mps == 0 || self.off == self.len
        &&& self.data1 == (self.packets_before() % 2 == 0)
        &&& self.stage is Data ==> self.off < self.len && 0 <= self.tries < DATA_STALL_BUDGET
        &&& self.stage is Status || self.stage is Done ==> self.off == self.len
        &&& self.stage is Status ==> 0 <= self.polls < STATUS_POLL_ATTEMPTS
        &&& self.stage is Start || self.stage is Setup ==> self.off == 0 && self.tries == 0
        &&& self.stage is Start || self.stage is Setup || self.stage is Data ==> self.polls == 0
    }

    /// Whether an outcome is one of the action that the transfer is at.
    pub open spec fn expects(self, outcome: Outcome) -> bool {
        match outcome {
            Outcome::KeptAlive => self.stage is Start,
            Outcome::Handshake(_) => self.stage is Setup || self.stage is Data,
            Outcome::Reply(_, _) => self.stage is Status,
        }
    }

    /// Behind the outcome of an action.
    pub open spec fn step(self, outcome: Outcome) -> OutTransfer {
        match outcome {
            Outcome::KeptAlive => self.kept_alive(),
            Outcome::Handshake(r) => self.shaken(r),
            Outcome::Reply(reply, payload) => self.replied(reply),
        }
    }

    /// Behind a sequence of outcomes.
    pub open spec fn run(self, outcomes: Seq<Outcome>) -> OutTransfer
        decreases outcomes.len(),
    {
        if outcomes.len() == 0 {
            self
        } else {
            self.run(outcomes.drop_last()).step(outcomes.last())
        }
    }

    /// Whether each outcome is one of the action that the transfer is at by then.
    pub open spec fn follows(self, outcomes: Seq<Outcome>) -> bool
        decreases outcomes.len(),
    {
        outcomes.len() == 0 || (self.follows(outcomes.drop_last()) && self.run(
            outcomes.drop_last(),
        ).expects(outcomes.last()))
    }

    /// A bound on how many actions are left: 64 attempts for each packet, counted as
    /// if each byte were one, and 400 status polls.
    pub open spec fn actions_left(self) -> int {
        match self.stage {
            OutStage::Start => 2 + DATA_STALL_BUDGET * self.len + STATUS_POLL_ATTEMPTS,
            OutStage::Setup => 1 + DATA_STALL_BUDGET * self.len + STATUS_POLL_ATTEMPTS,
            OutStage::Data => DATA_STALL_BUDGET * (self.len - self.off) - self.tries
                + STATUS_POLL_ATTEMPTS,
            OutStage::Status => STATUS_POLL_ATTEMPTS - self.polls,
            OutStage::Done => 0,
            OutStage::Failed(_) => 0,
        }
    }
}

/// A control-OUT transfer: SETUP(token + DATA0 request), optional OUT **data
/// stage**, STATUS (host IN, device returns a zero-length DATA1, host ACK).
///
/// With no data this is a no-data control write (`SET_ADDRESS`,
/// `SET_CONFIGURATION`, HID `SET_IDLE`/`SET_PROTOCOL`, hub port features). With data
/// it is a control write *with* an OUT data stage, e.g. HID `SET_REPORT`.
/// The data stage starts on the **DATA1** toggle and is split into `mps`-sized packets;
/// each is retried on NAK. The control STATUS stage of a write is always an **IN**
/// (device returns a ZLP), regardless of whether there was an OUT data stage.
pub struct ControlOut {
    addr: u8,
    ep: u8,
    mps: usize,
    setup: [u8; 8],
    len: usize,
    stage: OutStage,
    off: usize,
    data1: bool,
    tries: u32,
    polls: u32,
}

impl ControlOut {
    /// The transfer.
    pub closed spec fn transfer(&self) -> OutTransfer {
        OutTransfer {
            mps: self.mps as int,
            len: self.len as int,
            stage: self.stage,
            off: self.off as int,
            data1: self.data1,
            tries: self.tries as int,
            polls: self.polls as int,
        }
    }

    /// Device address and endpoint.
    pub closed spec fn target(&self) -> (u8, u8) {
        (self.addr, self.ep)
    }

    /// The SETUP packet.
    pub closed spec fn setup(&self) -> Seq<u8> {
        self.setup@
    }

    /// The same transfer to the same target.
    pub open spec fn same_request(&self, other: &ControlOut) -> bool {
        &&& self.target() == other.target()
        &&& self.setup() == other.setup()
    }

    /// What to do next.
    pub fn action(&self) -> (action: OutAction)
        ensures
            action == out_action(self.transfer().stage),
    {
        match self.stage {
            OutStage::Start => OutAction::Keepalive,
            OutStage::Setup => OutAction::SendSetup,
            OutStage::Data => OutAction::SendData,
            OutStage::Status => OutAction::PollStatus,
            OutStage::Done => OutAction::Finish(Ok(())),
            OutStage::Failed(e) => OutAction::Finish(Err(e)),
        }
    }

    /// The SETUP token and packet.
    pub fn setup_packets(&self) -> (p: OutPackets)
        ensures
            p.wf(),
            p.token_words() == line_code::packet_words(
                encoding::token_packet(USB_PID_SETUP, self.target().0, self.target().1),
            ),
            p.data_words() == line_code::packet_words(
                encoding::data_packet(USB_PID_DATA0, self.setup()),
            ),
            (p.token_words(), p.data_words()) == transaction::setup_words(
                self.target().0,
                self.target().1,
                self.setup(),
            ),
    {
        control_setup(self.addr, self.ep, &self.setup)
    }

    /// The OUT token and the next DATA packet, out of the data of the whole transfer.
    ///
    /// A packet that is longer than a DATA packet carries is an error, which is to be
    /// passed to [`Self::handshake`].
    pub fn data_packets(&self, data: &[u8]) -> (r: Result<OutPackets, PipeError>)
        requires
            self.transfer().wf(),
            self.transfer().stage is Data,
            data@.len() == self.transfer().len,
        ensures
            ({
                let t = self.transfer();
                let payload = data@.subrange(t.off, t.packet_end());
                match r {
                    Ok(p) => {
                        &&& payload.len() <= MAX_DATA_PAYLOAD_BYTES
                        &&& p.wf()
                        &&& p.token_words() == line_code::packet_words(
                            encoding::token_packet(USB_PID_OUT, self.target().0, self.target().1),
                        )
                        &&& p.data_words() == line_code::packet_words(
                            encoding::data_packet(pid::data_pid(t.data1), payload),
                        )
                    },
                    Err(e) => payload.len() > MAX_DATA_PAYLOAD_BYTES && e == PipeError::BufferOverflow,
                }
            }),
            r matches Ok(p) ==> (p.token_words(), p.data_words()) == transaction::out_words(
                self.target().0,
                self.target().1,
                self.transfer().data1,
                data@.subrange(self.transfer().off, self.transfer().packet_end()),
            ),
    {
        let end = self.packet_end();
        let payload = vstd::slice::slice_subrange(data, self.off, end);
        out_once(self.addr, self.ep, self.data1, payload)
    }

    /// The end of the next DATA packet.
    fn packet_end(&self) -> (end: usize)
        requires
            self.transfer().wf(),
        ensures
            end == self.transfer().packet_end(),
    {
        if self.len - self.off <= self.mps {
            self.len
        } else {
            self.off + self.mps
        }
    }

    /// The buffer in which the reply to the status IN token is captured; a longer reply
    /// is [`PipeError::Babble`].
    pub fn capture_buffer(&self) -> (buffer: [u8; STATUS_BUFFER_BYTES])
        ensures
            buffer@.len() == STATUS_BUFFER_BYTES,
            buffer@ == Seq::new(STATUS_BUFFER_BYTES as nat, |i: int| 0u8),
    {
        let buffer = [0u8; STATUS_BUFFER_BYTES];
        assert(buffer@ =~= Seq::new(STATUS_BUFFER_BYTES as nat, |i: int| 0u8));
        buffer
    }

    /// The IN token of the status stage.
    pub fn poll_token(&self) -> (words: [u32; 3])
        ensures
            words@ == line_code::packet_words(
                encoding::token_packet(USB_PID_IN, self.target().0, self.target().1),
            ),
            words@ == transaction::in_token_words(self.target().0, self.target().1),
    {
        in_token(self.addr, self.ep)
    }

    /// Take note that a keep-alive was sent if one was due.
    pub fn keepalive_done(&mut self)
        requires
            old(self).transfer().wf(),
            old(self).transfer().stage is Start,
        ensures
            final(self).transfer().wf(),
            final(self).same_request(old(self)),
            final(self).transfer() == old(self).transfer().kept_alive(),
    {
        self.stage = OutStage::Setup;
    }

    /// Take the device's handshake to the SETUP or a DATA packet.
    pub fn handshake(&mut self, r: Result<bool, PipeError>)
        requires
            old(self).transfer().wf(),
            old(self).transfer().stage is Setup || old(self).transfer().stage is Data,
        ensures
            final(self).transfer().wf(),
            final(self).same_request(old(self)),
            final(self).transfer() == old(self).transfer().shaken(r),
    {
        proof {
            law_control_out_progresses(self.transfer(), Outcome::Handshake(r));
        }
        match r {
            Err(e) => {
                self.stage = OutStage::Failed(e);
            },
            Ok(ack) => {
                match self.stage {
                    OutStage::Setup => {
                        self.stage = if !ack {
                            OutStage::Failed(PipeError::Timeout)
                        } else if self.len == 0 {
                            OutStage::Status
                        } else {
                            OutStage::Data
                        };
                    },
                    _ => {
                        if ack {
                            let end = self.packet_end();
                            self.data1 = !self.data1;
                            self.off = end;
                            self.tries = 0;
                            if end == self.len {
                                self.stage = OutStage::Status;
                            }
                        } else {
                            // NAK / no handshake: device busy, retry this same packet/toggle.
                            self.tries += 1;
                            if self.tries >= DATA_STALL_BUDGET {
                                self.stage = OutStage::Failed(PipeError::Timeout);
                            }
                        }
                    },
                }
            },
        }
    }

    /// Take the device's reply to the status IN token.
    ///
    /// The STATUS IN is polled *persistently* (not just a few times): a device NAKs the
    /// status IN while it completes the request; SET_CONFIGURATION on a multi-interface
    /// device can take milliseconds to bring up all its endpoints. Giving up early lets
    /// the caller's retry re-issue the SETUP, which RESTARTS the request before the
    /// device can send its ZLP. The transfer succeeds the instant the ZLP arrives, so a
    /// fast device/link is unaffected.
    pub fn polled(&mut self, r: Result<InReply, PipeError>)
        requires
            old(self).transfer().wf(),
            old(self).transfer().stage is Status,
        ensures
            final(self).transfer().wf(),
            final(self).same_request(old(self)),
            final(self).transfer() == old(self).transfer().replied(r),
    {
        match r {
            Err(e) => {
                self.stage = OutStage::Failed(e);
            },
            Ok(InReply::Data { pid: USB_PID_DATA1, valid_crc: true, payload_len: 0 }) => {
                self.stage = OutStage::Done;
            },
            Ok(_) => {
                self.polls += 1;
                if self.polls >= STATUS_POLL_ATTEMPTS {
                    self.stage = OutStage::Failed(PipeError::Timeout);
                }
            },
        }
    }
}

/// The packet behind the one at `off` starts a packet size further on, with the
/// other toggle.
proof fn lemma_next_packet(t: OutTransfer)
    requires
        t.wf(),
        t.stage is Data,
    ensures
        t.off < t.packet_end() <= t.len,
        t.packet_end() % t.mps == 0 || t.packet_end() == t.len,
        (t.packet_end() + t.mps - 1) / t.mps == t.packets_before() + 1,
{
    let m = t.mps;
    let q = t.off / m;
    assert(t.off == q * m) by (nonlinear_arith)
        requires
            q == t.off / m,
            t.off % m == 0,
            m >= 1,
    ;
    assert((q * m + m - 1) / m == q) by (nonlinear_arith)
        requires
            m >= 1,
            q >= 0,
    ;
    let e = t.packet_end();
    let k = e - t.off;
    assert(1 <= k <= m);
    assert((q * m + k + m - 1) / m == q + 1) by (nonlinear_arith)
        requires
            m >= 1,
            1 <= k <= m,
            q >= 0,
    ;
    if k == m {
        assert((q * m + m) % m == 0) by (nonlinear_arith)
            requires
                m >= 1,
        ;
    }
}

/// Every outcome of the action at hand brings the transfer nearer to its end and
/// keeps it in order: the packets' toggles alternate, each packet is tried at most 64
/// times, and the status is polled at most 400 times.
pub proof fn law_control_out_progresses(t: OutTransfer, outcome: Outcome)
    requires
        t.wf(),
        t.expects(outcome),
    ensures
        t.step(outcome).wf(),
        0 <= t.step(outcome).actions_left() < t.actions_left(),
{
    if t.stage is Data {
        lemma_next_packet(t);
    }
}

/// A transfer is over after a number of actions that its length bounds, whatever the
/// device does, and succeeds only after the device has acknowledged all of the data.
pub proof fn law_control_out_ends(mps: int, len: int, outcomes: Seq<Outcome>)
    requires
        0 <= mps,
        0 <= len <= usize::MAX,
        OutTransfer::fresh(mps, len).follows(outcomes),
    ensures
        ({
            let t = OutTransfer::fresh(mps, len).run(outcomes);
            &&& t.wf()
            &&& 0 <= t.actions_left()
            &&& outcomes.len() + t.actions_left() <= 2 + DATA_STALL_BUDGET * len + STATUS_POLL_ATTEMPTS
            &&& t.len == len
            &&& t.stage is Done ==> t.off == len
        }),
    decreases outcomes.len(),
{
    let fresh = OutTransfer::fresh(mps, len);
    if outcomes.len() == 0 {
        let m = fresh.mps;
        assert((0 + m - 1) / m == 0 && 0int % m == 0) by (nonlinear_arith)
            requires
                m >= 1,
        ;
    } else {
        law_control_out_ends(mps, len, outcomes.drop_last());
        law_control_out_progresses(fresh.run(outcomes.drop_last()), outcomes.last());
    }
}

/// What the device has acknowledged is the data from its beginning on: each packet
/// continues where the one before ended and is full but for the last.
pub proof fn law_control_out_packets_cover_data(t: OutTransfer, data: Seq<u8>)
    requires
        t.wf(),
        t.stage is Data,
        data.len() == t.len,
    ensures
        ({
            let after = t.shaken(Ok(true));
            let payload = data.subrange(t.off, t.packet_end());
            &&& data.take(after.off) == data.take(t.off) + payload
            &&& after.data1 == !t.data1
            &&& 0 < payload.len() <= t.mps
            &&& after.stage is Data ==> payload.len() == t.mps
            &&& after.stage is Status <==> after.off == t.len
        }),
{
    lemma_next_packet(t);
    assert(data.take(t.packet_end()) =~= data.take(t.off) + data.subrange(t.off, t.packet_end()));
}

impl OutTransfer {
    /// The packets of `data` that the device has acknowledged over a sequence of
    /// outcomes: whether each was a DATA1, and its payload.
    pub open spec fn acknowledged(self, outcomes: Seq<Outcome>, data: Seq<u8>) -> Seq<(bool, Seq<u8>)>
        decreases outcomes.len(),
    {
        if outcomes.len() == 0 {
            Seq::empty()
        } else {
            let less = outcomes.drop_last();
            let t = self.run(less);
            if t.stage is Data && outcomes.last() == Outcome::Handshake(Ok(true)) {
                self.acknowledged(less, data).push((t.data1, data.subrange(t.off, t.packet_end())))
            } else {
                self.acknowledged(less, data)
            }
        }
    }
}

/// The payloads of packets, one behind the other.
pub open spec fn payloads(packets: Seq<(bool, Seq<u8>)>) -> Seq<u8>
    decreases packets.len(),
{
    if packets.len() == 0 {
        Seq::empty()
    } else {
        payloads(packets.drop_last()) + packets.last().1
    }
}

/// What the device has acknowledged is the beginning of the data, and all of it once
/// the transfer succeeds: in packets that are DATA1 and DATA0 by turns, none empty, and
/// full but for the last.
pub proof fn law_control_out_delivers_data(mps: int, data: Seq<u8>, outcomes: Seq<Outcome>)
    requires
        0 <= mps,
        data.len() <= usize::MAX,
        OutTransfer::fresh(mps, data.len() as int).follows(outcomes),
    ensures
        ({
            let fresh = OutTransfer::fresh(mps, data.len() as int);
            let t = fresh.run(outcomes);
            let packets = fresh.acknowledged(outcomes, data);
            &&& payloads(packets) == data.take(t.off)
            &&& t.stage is Done ==> payloads(packets) == data
            &&& packets.len() == t.packets_before()
            &&& forall|i: int| 0 <= i < packets.len() ==> (#[trigger] packets[i]).0 == (i % 2 == 0)
            &&& forall|i: int|
                0 <= i < packets.len() ==> 0 < (#[trigger] packets[i]).1.len() <= fresh.mps
            &&& forall|i: int|
                0 <= i < packets.len() - 1 ==> (#[trigger] packets[i]).1.len() == fresh.mps
            &&& t.stage is Data && packets.len() > 0 ==> packets.last().1.len() == fresh.mps
        }),
    decreases outcomes.len(),
{
    let fresh = OutTransfer::fresh(mps, data.len() as int);
    law_control_out_ends(mps, data.len() as int, outcomes);
    lemma_out_parameters(fresh, outcomes);
    let m = fresh.mps;
    assert((0 + m - 1) / m == 0) by (nonlinear_arith)
        requires
            m >= 1,
    ;
    if outcomes.len() == 0 {
        assert(data.take(0) =~= Seq::empty());
    } else {
        let less = outcomes.drop_last();
        let t = fresh.run(less);
        law_control_out_delivers_data(mps, data, less);
        law_control_out_ends(mps, data.len() as int, less);
        lemma_out_parameters(fresh, less);
        assert(t.expects(outcomes.last()));
        if t.stage is Data && outcomes.last() == Outcome::Handshake(Ok(true)) {
            law_control_out_packets_cover_data(t, data);
            lemma_next_packet(t);
            let packets = fresh.acknowledged(outcomes, data);
            assert(packets.drop_last() =~= fresh.acknowledged(less, data));
        }
    }
    if fresh.run(outcomes).stage is Done {
        assert(data.take(data.len() as int) =~= data);
    }
}

/// A transfer keeps its parameters.
proof fn lemma_out_parameters(t: OutTransfer, outcomes: Seq<Outcome>)
    ensures
        t.run(outcomes).mps == t.mps,
        t.run(outcomes).len == t.len,
    decreases outcomes.len(),
{
    if outcomes.len() > 0 {
        lemma_out_parameters(t, outcomes.drop_last());
    }
}

/// The status is polled at most 400 times. A status stage that times out has been
/// polled exactly that often, and one that succeeds has had a zero-length DATA1.
pub proof fn law_control_out_status_polls(mps: int, len: int, outcomes: Seq<Outcome>)
    requires
        0 <= mps,
        0 <= len <= usize::MAX,
        OutTransfer::fresh(mps, len).follows(outcomes),
    ensures
        polls(outcomes) <= STATUS_POLL_ATTEMPTS,
        ({
            let t = OutTransfer::fresh(mps, len).run(outcomes);
            &&& t.stage is Start || t.stage is Setup || t.stage is Data ==> polls(outcomes) == 0
            &&& t.stage is Status ==> polls(outcomes) == t.polls
            &&& t.stage is Done ==> (outcomes.last() matches Outcome::Reply(Ok(reply), payload) && is_status(
                reply,
            ))
            &&& t.stage == OutStage::Failed(PipeError::Timeout) && outcomes.last() is Reply
                && outcomes.last()->Reply_0 is Ok ==> polls(outcomes) == STATUS_POLL_ATTEMPTS
        }),
    decreases outcomes.len(),
{
    if outcomes.len() > 0 {
        let less = outcomes.drop_last();
        law_control_out_status_polls(mps, len, less);
        law_control_out_ends(mps, len, less);
        assert(OutTransfer::fresh(mps, len).run(less).expects(outcomes.last()));
    }
}

/// A transfer fails with the error that a transaction reports.
pub proof fn law_control_out_passes_errors_on(t: OutTransfer, payload: Seq<u8>, e: PipeError)
    ensures
        t.step(Outcome::Handshake(Err(e))).stage == OutStage::Failed(e),
        t.step(Outcome::Reply(Err(e), payload)).stage == OutStage::Failed(e),
{
}

/// What the device sends in reply to an IN token, captured up to its end in a buffer.
pub open spec fn captured_reply(bytes: Seq<u8>, capacity: nat) -> Result<InReply, PipeError> {
    transaction::in_meaning(
        rx_driver::captured_len(bytes, capacity),
        rx_driver::eop_status(bytes, capacity),
        bytes[1],
    )
}

/// A control-IN transfer receives every DATA packet of at most 64 bytes whole, and a
/// control-OUT transfer every one of at most four, its status packet among them. Any
/// longer reply is babble.
pub proof fn law_capture_buffers(pid: u8, payload: Seq<u8>, bytes: Seq<u8>)
    requires
        pid::is_data_pid(pid),
        payload.len() <= usize::MAX,
    ensures
        payload.len() <= MAX_DATA_PAYLOAD_BYTES ==> captured_reply(
            encoding::data_packet(pid, payload),
            MAX_DATA_PACKET_BYTES as nat,
        ) == Ok::<InReply, PipeError>(
            InReply::Data { pid, valid_crc: true, payload_len: payload.len() as usize },
        ),
        payload.len() <= 4 ==> captured_reply(
            encoding::data_packet(pid, payload),
            STATUS_BUFFER_BYTES as nat,
        ) == Ok::<InReply, PipeError>(
            InReply::Data { pid, valid_crc: true, payload_len: payload.len() as usize },
        ),
        bytes.len() > MAX_DATA_PACKET_BYTES ==> captured_reply(bytes, MAX_DATA_PACKET_BYTES as nat)
            == Err::<InReply, PipeError>(PipeError::Babble),
        bytes.len() > STATUS_BUFFER_BYTES ==> captured_reply(bytes, STATUS_BUFFER_BYTES as nat)
            == Err::<InReply, PipeError>(PipeError::Babble),
{
    let pkt = encoding::data_packet(pid, payload);
    assert(pkt.subrange(2, pkt.len() - 2) =~= payload);
}

impl Bus {
    /// Begin one control-OUT transfer with `len` bytes of data.
    pub fn control_out(&self, addr: u8, ep: u8, mps: u16, setup: &[u8; 8], len: usize) -> (r: ControlOut)
        ensures
            r.target() == (addr, ep),
            r.setup() == setup@,
            r.transfer() == OutTransfer::fresh(mps as int, len as int),
            r.transfer().wf(),
    {
        let mps = if mps < 1 {
            1
        } else {
            mps as usize
        };
        proof {
            let m = mps as int;
            assert((0 + m - 1) / m == 0 && 0int % m == 0) by (nonlinear_arith)
                requires
                    m >= 1,
            ;
        }
        ControlOut {
            addr,
            ep,
            mps,
            setup: *setup,
            len,
            stage: OutStage::Start,
            off: 0,
            data1: true,
            tries: 0,
            polls: 0,
        }
    }
}

/// The action of a control-IN transfer asks for the outcome that it then expects; a
/// transfer that expects none hands out its result.
pub proof fn law_control_in_action(
    t: InTransfer,
    r: Result<bool, PipeError>,
    reply: Result<InReply, PipeError>,
    payload: Seq<u8>,
    n: usize,
    e: PipeError,
)
    ensures
        ({
            let action = in_action(t.stage);
            &&& action is Keepalive <==> t.expects(Outcome::KeptAlive)
            &&& action is SendSetup || action is SendStatus <==> t.expects(Outcome::Handshake(r))
            &&& action is SendSetup <==> t.stage is Setup
            &&& action is PollIn <==> t.expects(Outcome::Reply(reply, payload))
            &&& action == InAction::Finish(Ok(n)) <==> t.stage == InStage::Done(n)
            &&& action == InAction::Finish(Err(e)) <==> t.stage == InStage::Failed(e)
        }),
{
}

/// The action of a control-OUT transfer asks for the outcome that it then expects; a
/// transfer that expects none hands out its result.
pub proof fn law_control_out_action(
    t: OutTransfer,
    r: Result<bool, PipeError>,
    reply: Result<InReply, PipeError>,
    payload: Seq<u8>,
    e: PipeError,
)
    ensures
        ({
            let action = out_action(t.stage);
            &&& action is Keepalive <==> t.expects(Outcome::KeptAlive)
            &&& action is SendSetup || action is SendData <==> t.expects(Outcome::Handshake(r))
            &&& action is SendSetup <==> t.stage is Setup
            &&& action is PollStatus <==> t.expects(Outcome::Reply(reply, payload))
            &&& action == OutAction::Finish(Ok(())) <==> t.stage is Done
            &&& action == OutAction::Finish(Err(e)) <==> t.stage == OutStage::Failed(e)
        }),
{
}

/// Only a DATA packet with a good checksum has a toggle: the one that its PID says.
pub proof fn law_data_toggle(reply: InReply, pid: u8, valid_crc: bool, payload_len: usize)
    ensures
        data_toggle(InReply::Data { pid, valid_crc, payload_len }) == Some(true) <==> valid_crc && pid == 0x4B,
        data_toggle(InReply::Data { pid, valid_crc, payload_len }) == Some(false) <==> valid_crc && pid == 0xC3,
        !(reply is Data) ==> data_toggle(reply) is None,
{
}

/// The payload of a captured DATA packet is the bytes behind its PID, as many as the
/// reply says; another reply has none.
pub proof fn law_reply_payload(
    reply: Result<InReply, PipeError>,
    pkt: Seq<u8>,
    pid: u8,
    valid_crc: bool,
    payload_len: usize,
    i: int,
)
    requires
        payload_len + 2 <= pkt.len(),
    ensures
        ({
            let payload = reply_payload(Ok(InReply::Data { pid, valid_crc, payload_len }), pkt);
            &&& payload.len() == payload_len
            &&& 0 <= i < payload_len ==> payload[i] == pkt[i + 2]
        }),
        reply is Err || !(reply->Ok_0 is Data) ==> reply_payload(reply, pkt).len() == 0,
{
}

/// The requested length is the 16-bit number whose low byte comes first at the end of the
/// SETUP packet.
pub proof fn law_setup_wlen(setup: Seq<u8>, wlen: u16)
    requires
        setup.len() == 8,
    ensures
        setup_wlen(setup) == wlen <==> setup[6] == wlen as int % 256 && setup[7] == wlen as int / 256,
{
}

/// A control-IN transfer begins with two keep-alives, and gives up between them, before
/// anything is sent to the device, exactly if the request does not fit the buffer.
pub proof fn law_control_in_begins(wlen: int, mps: int, capacity: int)
    ensures
        ({
            let fresh = InTransfer::fresh(wlen, mps, capacity);
            let once = fresh.step(Outcome::KeptAlive);
            let twice = once.step(Outcome::KeptAlive);
            &&& fresh.stage is Start && fresh.received.len() == 0 && fresh.expect_data1
            &&& fresh.stall_polls == 0 && fresh.total_polls == 0 && fresh.status_tries == 0
            &&& fresh.wlen == wlen && fresh.mps == mps && fresh.capacity == capacity
            &&& wlen > capacity <==> once.stage == InStage::Failed(PipeError::BufferOverflow)
            &&& wlen <= capacity <==> once.stage is BeforeSetup
            &&& wlen <= capacity ==> twice == (InTransfer { stage: InStage::Setup, ..fresh })
        }),
{
}

/// The SETUP packet of a control-IN transfer has one attempt. Acknowledged, it leads to
/// the DATA stage exactly if data was requested, and else to the status stage.
pub proof fn law_control_in_setup(t: InTransfer, ack: bool)
    requires
        t.wf(),
        t.stage is Setup,
    ensures
        ({
            let after = t.step(Outcome::Handshake(Ok(ack)));
            &&& after.stage == InStage::Failed(PipeError::Timeout) <==> !ack
            &&& after.stage is Data <==> ack && t.wlen > 0
            &&& after.stage is Status <==> ack && t.wlen == 0
            &&& after == (InTransfer { stage: after.stage, ..t })
        }),
{
}

/// A packet in sequence, of any size, that fits the buffer is added to what was received.
/// The DATA stage then ends if the packet is short or completes the requested length;
/// otherwise it goes on, unless that was the 400th poll. A packet that does not fit is the
/// only one that overflows the buffer.
pub proof fn law_control_in_packet(t: InTransfer, payload: Seq<u8>, payload_len: usize)
    requires
        t.wf(),
        t.stage is Data,
    ensures
        ({
            let reply = InReply::Data {
                pid: if t.expect_data1 {
                    0x4B
                } else {
                    0xC3
                },
                valid_crc: true,
                payload_len,
            };
            let after = t.step(Outcome::Reply(Ok(reply), payload));
            let total = t.received.len() + payload.len();
            let ends = payload.len() < t.mps || total >= t.wlen;
            &&& after.stage == InStage::Failed(PipeError::BufferOverflow) <==> total > t.capacity
            &&& total <= t.capacity ==> {
                &&& after.received.len() == total
                &&& after.received.take(t.received.len() as int) == t.received
                &&& after.received.skip(t.received.len() as int) == payload
                &&& after.expect_data1 != t.expect_data1
                &&& after.stall_polls == 0
                &&& after.total_polls == t.total_polls + 1
                &&& after.status_tries == 0
                &&& after.stage is Status <==> ends
                &&& after.stage is Data <==> !ends && t.total_polls < 399
                &&& after.stage == InStage::Failed(PipeError::Timeout) <==> !ends && t.total_polls == 399
            }
            &&& after.wlen == t.wlen && after.mps == t.mps && after.capacity == t.capacity
        }),
{
    assert((t.received + payload).take(t.received.len() as int) =~= t.received);
    assert((t.received + payload).skip(t.received.len() as int) =~= payload);
}

/// Any other reply takes nothing and costs one poll. The transfer times out with the 64th
/// such poll in a row or the 400th poll in all, and not before.
pub proof fn law_control_in_other_reply(t: InTransfer, reply: InReply, payload: Seq<u8>)
    requires
        t.wf(),
        t.stage is Data,
        reply is Data ==> !reply->valid_crc || reply->pid != (if t.expect_data1 {
            0x4Bu8
        } else {
            0xC3u8
        }),
    ensures
        ({
            let after = t.step(Outcome::Reply(Ok(reply), payload));
            &&& after == (InTransfer {
                stage: after.stage,
                stall_polls: t.stall_polls + 1,
                total_polls: t.total_polls + 1,
                ..t
            })
            &&& after.stage is Data <==> t.stall_polls < 63 && t.total_polls < 399
            &&& after.stage == InStage::Failed(PipeError::Timeout) <==> t.stall_polls == 63 || t.total_polls
                == 399
        }),
{
}

/// The status packet of a control-IN transfer succeeds with its first acknowledgement,
/// however much was received, and has 64 attempts.
pub proof fn law_control_in_status(t: InTransfer, ack: bool)
    requires
        t.wf(),
        t.stage is Status,
    ensures
        ({
            let after = t.step(Outcome::Handshake(Ok(ack)));
            &&& ack <==> after.stage is Done
            &&& ack ==> after.stage->Done_0 == t.received.len()
            &&& after.stage is Status <==> !ack && t.status_tries < 63
            &&& after.stage == InStage::Failed(PipeError::Timeout) <==> !ack && t.status_tries == 63
            &&& after == (InTransfer { stage: after.stage, status_tries: after.status_tries, ..t })
            &&& !ack ==> after.status_tries == t.status_tries + 1
        }),
{
}

/// A control-OUT transfer begins with a keep-alive, at the start of its data and with
/// DATA1. A packet size of zero counts as one.
pub proof fn law_control_out_begins(mps: int, len: int)
    requires
        0 <= mps,
    ensures
        ({
            let fresh = OutTransfer::fresh(mps, len);
            &&& mps > 0 ==> fresh.mps == mps
            &&& mps == 0 ==> fresh.mps == 1
            &&& fresh.len == len && fresh.off == 0 && fresh.data1 && fresh.tries == 0 && fresh.polls == 0
            &&& fresh.stage is Start
            &&& fresh.step(Outcome::KeptAlive) == (OutTransfer { stage: OutStage::Setup, ..fresh })
        }),
{
}

/// The SETUP packet of a control-OUT transfer has one attempt. Acknowledged, it leads to
/// the DATA stage exactly if there is data, and else to the status stage.
pub proof fn law_control_out_setup(t: OutTransfer, ack: bool)
    requires
        t.wf(),
        t.stage is Setup,
    ensures
        ({
            let after = t.step(Outcome::Handshake(Ok(ack)));
            &&& after.stage == OutStage::Failed(PipeError::Timeout) <==> !ack
            &&& after.stage is Data <==> ack && t.len > 0
            &&& after.stage is Status <==> ack && t.len == 0
            &&& after == (OutTransfer { stage: after.stage, ..t })
        }),
{
}

/// An acknowledged packet moves a control-OUT transfer on by the packet size, or to the
/// end of the data where that is nearer, and flips the toggle. One that is not
/// acknowledged is tried again as it was, 64 times in all.
pub proof fn law_control_out_data(t: OutTransfer, ack: bool)
    requires
        t.wf(),
        t.stage is Data,
    ensures
        ({
            let after = t.step(Outcome::Handshake(Ok(ack)));
            let rest = t.len - t.off;
            &&& ack ==> after.off - t.off == (if rest < t.mps {
                rest
            } else {
                t.mps
            })
            &&& ack ==> after.data1 != t.data1 && after.tries == 0
            &&& !ack ==> after.off == t.off && after.data1 == t.data1 && after.tries == t.tries + 1
            &&& after.stage is Status <==> ack && rest <= t.mps
            &&& after.stage is Data <==> if ack {
                rest > t.mps
            } else {
                t.tries < 63
            }
            &&& after.stage == OutStage::Failed(PipeError::Timeout) <==> !ack && t.tries == 63
            &&& after.mps == t.mps && after.len == t.len && after.polls == t.polls
        }),
{
}

/// The status stage of a control-OUT transfer ends well with a valid zero-length DATA1 and
/// with no other reply, however long its data was. Any other reply costs one poll, and the
/// transfer times out with the 400th and not before.
pub proof fn law_control_out_status(t: OutTransfer, reply: InReply, payload: Seq<u8>)
    requires
        t.wf(),
        t.stage is Status,
    ensures
        ({
            let after = t.step(Outcome::Reply(Ok(reply), payload));
            let status = reply is Data && reply->pid == 0x4B && reply->valid_crc && reply->payload_len == 0;
            &&& after.stage is Done <==> status
            &&& after.stage is Status <==> !status && t.polls < 399
            &&& after.stage == OutStage::Failed(PipeError::Timeout) <==> !status && t.polls == 399
            &&& !status ==> after.polls == t.polls + 1
            &&& after == (OutTransfer { stage: after.stage, polls: after.polls, ..t })
        }),
{
}

/// How many handshakes at the end of the outcomes were no acknowledgement.
pub open spec fn refusals(outcomes: Seq<Outcome>) -> nat
    decreases outcomes.len(),
{
    if outcomes.len() == 0 || outcomes.last() != Outcome::Handshake(Ok(false)) {
        0
    } else {
        refusals(outcomes.drop_last()) + 1
    }
}

/// How many handshakes among the outcomes were acknowledgements.
pub open spec fn acks(outcomes: Seq<Outcome>) -> nat
    decreases outcomes.len(),
{
    if outcomes.len() == 0 {
        0
    } else if outcomes.last() == Outcome::Handshake(Ok(true)) {
        acks(outcomes.drop_last()) + 1
    } else {
        acks(outcomes.drop_last())
    }
}

/// How far a control-IN transfer is follows from what came of its actions: two
/// keep-alives, the SETUP packet, IN polls until everything requested or a short packet
/// has come, and the status packet until it is acknowledged.
pub proof fn law_control_in_position(wlen: int, mps: int, capacity: int, outcomes: Seq<Outcome>)
    requires
        0 <= wlen,
        0 <= mps,
        0 <= capacity <= usize::MAX,
        InTransfer::fresh(wlen, mps, capacity).follows(outcomes),
        !(InTransfer::fresh(wlen, mps, capacity).run(outcomes).stage is Failed),
    ensures
        ({
            let t = InTransfer::fresh(wlen, mps, capacity).run(outcomes);
            let complete = wlen == 0 || (last_packet(outcomes) is Some && (last_packet(outcomes)->0.len() < mps
                || collected(outcomes).0.len() >= wlen));
            &&& t.stage is Start <==> outcomes.len() == 0
            &&& t.stage is BeforeSetup <==> outcomes.len() == 1
            &&& t.stage is Setup <==> outcomes.len() == 2
            &&& t.stage is Data <==> outcomes.len() >= 3 && !complete
            &&& t.stage is Done <==> outcomes.len() >= 4 && complete && outcomes.last() == Outcome::Handshake(
                Ok(true),
            )
            &&& t.stage is Status <==> outcomes.len() >= 3 && complete && !(outcomes.len() >= 4
                && outcomes.last() == Outcome::Handshake(Ok(true)))
            &&& t.stage is Status ==> t.status_tries == refusals(outcomes)
            &&& outcomes.len() > 0 ==> wlen <= capacity
            &&& outcomes.len() <= 2 || (outcomes.len() == 3 && outcomes.last() == Outcome::Handshake(Ok(true)))
                ==> last_packet(outcomes) is None
            &&& outcomes.len() == 3 ==> outcomes.last() == Outcome::Handshake(Ok(true))
        }),
    decreases outcomes.len(),
{
    let fresh = InTransfer::fresh(wlen, mps, capacity);
    lemma_in_parameters(fresh, outcomes);
    law_control_in_collects(wlen, mps, capacity, outcomes);
    if outcomes.len() > 0 {
        let less = outcomes.drop_last();
        let t = fresh.run(less);
        assert(t.expects(outcomes.last()));
        law_control_in_ends(wlen, mps, capacity, less);
        law_control_in_collects(wlen, mps, capacity, less);
        lemma_in_parameters(fresh, less);
        law_control_in_position(wlen, mps, capacity, less);
    }
}

/// A control-IN transfer fails for these causes and no others: the request is longer than
/// the buffer; a transaction reports an error, which is passed on; the SETUP packet or 64
/// status packets in a row are not acknowledged; the packets in sequence do not fit the
/// buffer; 400 polls in all or 64 without a packet in sequence are spent. And with the
/// cause the failure comes at once.
pub proof fn law_control_in_failure_causes(
    wlen: int,
    mps: int,
    capacity: int,
    outcomes: Seq<Outcome>,
    e: PipeError,
)
    requires
        0 <= wlen,
        0 <= mps,
        0 <= capacity <= usize::MAX,
        outcomes.len() > 0,
        InTransfer::fresh(wlen, mps, capacity).follows(outcomes),
    ensures
        ({
            let complete = last_packet(outcomes) is Some && (last_packet(outcomes)->0.len() < mps || collected(
                outcomes,
            ).0.len() >= wlen);
            let overflows = collected(outcomes).0.len() > capacity;
            InTransfer::fresh(wlen, mps, capacity).run(outcomes).stage == InStage::Failed(e) <==> match outcomes.last() {
                Outcome::KeptAlive => wlen > capacity && e == PipeError::BufferOverflow,
                Outcome::Handshake(Err(reported)) => e == reported,
                Outcome::Handshake(Ok(ack)) => {
                    &&& !ack
                    &&& outcomes.len() == 3 || refusals(outcomes) == 64
                    &&& e == PipeError::Timeout
                },
                Outcome::Reply(Err(reported), _) => e == reported,
                Outcome::Reply(Ok(_), _) => if overflows {
                    e == PipeError::BufferOverflow
                } else {
                    &&& !complete
                    &&& polls(outcomes) == 400 || stalled(outcomes) == 64
                    &&& e == PipeError::Timeout
                },
            }
        }),
{
    let fresh = InTransfer::fresh(wlen, mps, capacity);
    let less = outcomes.drop_last();
    let t = fresh.run(less);
    assert(t.expects(outcomes.last()));
    law_control_in_ends(wlen, mps, capacity, less);
    law_control_in_collects(wlen, mps, capacity, less);
    law_control_in_position(wlen, mps, capacity, less);
    law_control_in_poll_caps(wlen, mps, capacity, less);
    lemma_in_parameters(fresh, less);
}

/// How far a control-OUT transfer is follows from what came of its actions: a keep-alive,
/// the SETUP packet, each packet of the data until it is acknowledged, and status polls
/// until a valid zero-length DATA1.
pub proof fn law_control_out_position(mps: int, len: int, outcomes: Seq<Outcome>)
    requires
        0 <= mps,
        0 <= len <= usize::MAX,
        OutTransfer::fresh(mps, len).follows(outcomes),
        !(OutTransfer::fresh(mps, len).run(outcomes).stage is Failed),
    ensures
        ({
            let size = if mps == 0 {
                1
            } else {
                mps
            };
            let t = OutTransfer::fresh(mps, len).run(outcomes);
            let sent = (acks(outcomes) - 1) * size;
            let status = outcomes.len() > 0 && (outcomes.last() matches Outcome::Reply(Ok(reply), _)
                && reply is Data && reply->pid == 0x4B && reply->valid_crc && reply->payload_len == 0);
            &&& t.stage is Start <==> outcomes.len() == 0
            &&& t.stage is Setup <==> outcomes.len() == 1
            &&& t.stage is Data <==> outcomes.len() >= 2 && sent < len
            &&& t.stage is Done <==> outcomes.len() >= 2 && sent >= len && status
            &&& t.stage is Status <==> outcomes.len() >= 2 && sent >= len && !status
            &&& outcomes.len() < 2 ==> acks(outcomes) == 0
            &&& outcomes.len() >= 2 ==> {
                &&& acks(outcomes) >= 1
                &&& t.off == (if sent < len {
                    sent
                } else {
                    len
                })
            }
            &&& t.stage is Data ==> t.tries == refusals(outcomes)
            &&& t.stage is Data ==> t.data1 == (acks(outcomes) % 2 == 1)
            &&& outcomes.len() == 2 ==> outcomes.last() == Outcome::Handshake(Ok(true))
        }),
    decreases outcomes.len(),
{
    let fresh = OutTransfer::fresh(mps, len);
    let size = fresh.mps;
    lemma_out_parameters(fresh, outcomes);
    if outcomes.len() > 0 {
        let less = outcomes.drop_last();
        let t = fresh.run(less);
        assert(t.expects(outcomes.last()));
        law_control_out_ends(mps, len, less);
        lemma_out_parameters(fresh, less);
        law_control_out_position(mps, len, less);
        let n = acks(less) - 1;
        assert((n + 1) * size == n * size + size && 0 * size == 0) by (nonlinear_arith);
    }
}

/// A control-OUT transfer fails for these causes and no others: a transaction reports an
/// error, which is passed on; the SETUP packet, or a packet of the data 64 times in a row,
/// is not acknowledged; 400 status polls are spent. And with the cause the failure comes
/// at once.
pub proof fn law_control_out_failure_causes(mps: int, len: int, outcomes: Seq<Outcome>, e: PipeError)
    requires
        0 <= mps,
        0 <= len <= usize::MAX,
        outcomes.len() > 0,
        OutTransfer::fresh(mps, len).follows(outcomes),
    ensures
        OutTransfer::fresh(mps, len).run(outcomes).stage == OutStage::Failed(e) <==> match outcomes.last() {
            Outcome::KeptAlive => false,
            Outcome::Handshake(Err(reported)) => e == reported,
            Outcome::Handshake(Ok(ack)) => {
                &&& !ack
                &&& outcomes.len() == 2 || refusals(outcomes) == 64
                &&& e == PipeError::Timeout
            },
            Outcome::Reply(Err(reported), _) => e == reported,
            Outcome::Reply(Ok(reply), _) => {
                &&& !(reply is Data && reply->pid == 0x4B && reply->valid_crc && reply->payload_len == 0)
                &&& polls(outcomes) == 400
                &&& e == PipeError::Timeout
            },
        },
{
    let fresh = OutTransfer::fresh(mps, len);
    let less = outcomes.drop_last();
    let t = fresh.run(less);
    assert(t.expects(outcomes.last()));
    law_control_out_ends(mps, len, less);
    law_control_out_position(mps, len, less);
    law_control_out_status_polls(mps, len, less);
}

/// What the packets in sequence are is a matter of the replies alone: the first is a DATA1
/// and the toggles alternate; a reply with the other toggle, or none, brings nothing.
pub proof fn law_packets_in_sequence(
    outcomes: Seq<Outcome>,
    next: Outcome,
    payload: Seq<u8>,
    payload_len: usize,
)
    ensures
        collected(Seq::empty()) == (Seq::<u8>::empty(), true),
        ({
            let (bytes, expect_data1) = collected(outcomes);
            let expected = InReply::Data {
                pid: if expect_data1 {
                    0x4B
                } else {
                    0xC3
                },
                valid_crc: true,
                payload_len,
            };
            let more = outcomes.push(Outcome::Reply(Ok(expected), payload));
            &&& collected(more) == (bytes + payload, !expect_data1)
            &&& last_packet(more) == Some(payload)
            &&& stalled(more) == 0
            &&& polls(more) == polls(outcomes) + 1
        }),
        ({
            let (bytes, expect_data1) = collected(outcomes);
            let repeated = InReply::Data {
                pid: if expect_data1 {
                    0xC3
                } else {
                    0x4B
                },
                valid_crc: true,
                payload_len,
            };
            let more = outcomes.push(Outcome::Reply(Ok(repeated), payload));
            &&& collected(more) == (bytes, expect_data1)
            &&& last_packet(more) == last_packet(outcomes)
            &&& stalled(more) == stalled(outcomes) + 1
            &&& polls(more) == polls(outcomes) + 1
        }),
        !(next is Reply) ==> collected(outcomes.push(next)) == collected(outcomes) && stalled(
            outcomes.push(next),
        ) == stalled(outcomes) && polls(outcomes.push(next)) == polls(outcomes),
{
    assert(forall|o: Outcome| #[trigger] outcomes.push(o).drop_last() =~= outcomes);
}

/// What a device decodes from the status packet of a control read: an OUT token for it and
/// its endpoint, and a DATA1 packet without payload.
pub proof fn law_control_in_status_on_the_wire(addr: u8, ep: u8)
    ensures
        ({
            let (token, packet) = status_words(addr, ep);
            let bytes = line_code::line_decode(packet);
            &&& encoding::carries_field(
                line_code::line_decode(token),
                0xE1,
                (addr % 128) + 128 * (ep % 16),
            )
            &&& bytes.len() == 4
            &&& bytes[0] == 0x80
            &&& bytes[1] == 0x4B
        }),
{
    transaction::law_out_transaction_on_the_wire(addr, ep, true, Seq::empty());
}

} // verus!
