//! Register-level steps of a PIO block.
//!
//! The timing-critical paths talk to the block's registers directly. This module
//! says what each step writes; the code around the library performs the accesses.
use vstd::prelude::*;

verus! {

/// State machine that plays transmit symbols.
pub const TX_SM: u8 = 0;

/// State machine that detects edges, packet starts and packet ends.
pub const DETECTOR_SM: u8 = 1;

/// State machine that decodes NRZI.
pub const DECODER_SM: u8 = 2;

/// Number of state machines in a PIO block.
pub const STATE_MACHINES: u8 = 4;

/// One access to a PIO block.
#[derive(Debug, Clone, Copy, PartialEq, Eq, Structural)]
pub enum PioOp {
    /// Stop a state machine.
    Disable { sm: u8 },
    /// Let a state machine run.
    Enable { sm: u8 },
    /// Reset a state machine's internal state.
    Restart { sm: u8 },
    /// Drop what a state machine's FIFOs hold.
    ClearFifos { sm: u8 },
    /// Make a state machine execute an instruction.
    Exec { sm: u8, instr: u16 },
    /// Put a word into a state machine's TX FIFO.
    Push { sm: u8, word: u32 },
    /// Clear the IRQ flags in a mask.
    ClearIrq { flags: u8 },
}

/// How a state machine's two FIFOs are joined.
#[derive(Debug, Clone, Copy, PartialEq, Eq, Structural)]
pub enum Join {
    /// Four words each way.
    Duplex,
    /// Eight words to the state machine.
    TxOnly,
    /// Eight words from the state machine.
    RxOnly,
}

/// How a shift register is configured.
#[derive(Debug, Clone, Copy, PartialEq, Eq, Structural)]
pub struct Shift {
    /// Number of bits after which the register is pushed or refilled.
    pub threshold: u8,
    /// Whether it shifts to the left.
    pub left: bool,
    /// Whether pushing or refilling happens by itself.
    pub auto_fill: bool,
}

/// Whether bit `i` of a register field is set.
pub open spec fn field_bit(field: u8, i: int) -> bool {
    (field >> (i as u8)) & 1 == 1
}

/// The bit of a state machine in the per-state-machine register fields.
pub fn sm_mask(sm: u8) -> (mask: u8)
    requires
        sm < STATE_MACHINES,
    ensures
        forall|i: int| 0 <= i < 8 ==> field_bit(mask, i) == (i == sm),
{
    let mask = 1u8 << sm;
    assert forall|i: int| 0 <= i < 8 implies field_bit(mask, i) == (i == sm) by {
        let k = i as u8;
        assert(((mask >> k) & 1 == 1) == (k == sm)) by (bit_vector)
            requires
                mask == 1u8 << sm,
                sm < 4,
                k < 8,
        ;
    }
    mask
}

/// The enable field with one state machine enabled and the others as they were.
pub fn pio_sm_enable(sm_enable: u8, sm: u8) -> (r: u8)
    requires
        sm < STATE_MACHINES,
    ensures
        forall|i: int| 0 <= i < 8 ==> field_bit(r, i) == (i == sm || field_bit(sm_enable, i)),
{
    let mask = sm_mask(sm);
    let r = sm_enable | mask;
    assert forall|i: int| 0 <= i < 8 implies field_bit(r, i) == (i == sm || field_bit(sm_enable, i)) by {
        let k = i as u8;
        assert(field_bit(mask, i) == (i == sm));
        assert(((r >> k) & 1 == 1) == ((mask >> k) & 1 == 1 || (sm_enable >> k) & 1 == 1)) by (bit_vector)
            requires
                r == sm_enable | mask,
        ;
    }
    r
}

/// The enable field with one state machine disabled and the others as they were.
pub fn pio_sm_disable(sm_enable: u8, sm: u8) -> (r: u8)
    requires
        sm < STATE_MACHINES,
    ensures
        forall|i: int| 0 <= i < 8 ==> field_bit(r, i) == (i != sm && field_bit(sm_enable, i)),
{
    let mask = sm_mask(sm);
    let r = sm_enable & !mask;
    assert forall|i: int| 0 <= i < 8 implies field_bit(r, i) == (i != sm && field_bit(sm_enable, i)) by {
        let k = i as u8;
        assert(field_bit(mask, i) == (i == sm));
        assert(((r >> k) & 1 == 1) == (!((mask >> k) & 1 == 1) && (sm_enable >> k) & 1 == 1)) by (bit_vector)
            requires
                r == sm_enable & !mask,
                k < 8,
        ;
    }
    r
}

/// Whether a bit of a register field is set.
///
/// Bit `sm` of the `txfull` field: the TX FIFO of that state machine takes no
/// word. Bit `sm` of the `rxempty` field: its RX FIFO holds no word. Bit `flag` of
/// the IRQ register: that flag is raised.
pub fn register_flag(field: u8, bit: u8) -> (set: bool)
    requires
        bit < 8,
    ensures
        set == field_bit(field, bit as int),
{
    assert((field & (1u8 << bit) != 0) == ((field >> bit) & 1 == 1)) by (bit_vector)
        requires
            bit < 8,
    ;
    field & (1u8 << bit) != 0
}

/// Time between two readings of the free-running microsecond counter.
pub open spec fn elapsed(since: u32, now: u32) -> int {
    (now - since) % 0x1_0000_0000
}

/// Microseconds from one reading of the free-running counter to a later one,
/// across a wrap of the counter.
pub fn elapsed_us(since: u32, now: u32) -> (us: u32)
    ensures
        us == elapsed(since, now),
{
    now.wrapping_sub(since)
}

/// The elapsed time is the one that leads from the first reading to the second on a
/// counter of 32 bits.
pub proof fn law_elapsed_leads_from_since_to_now(since: u32, now: u32)
    ensures
        0 <= elapsed(since, now) < 0x1_0000_0000,
        (since + elapsed(since, now)) % 0x1_0000_0000 == now,
        since <= now ==> elapsed(since, now) == now - since,
{
}

/// What accesses to a PIO block do to one of its state machines.
pub struct Machine {
    pub running: bool,
    /// Instructions that it was made to execute since it was last restarted.
    pub executed: Seq<u16>,
    /// Words that were put into its TX FIFO since its FIFOs were last emptied.
    pub queued: Seq<u32>,
    /// Whether its FIFOs have been emptied.
    pub emptied: bool,
    /// Whether it has been restarted.
    pub restarted: bool,
}

/// A PIO block: its state machines and the IRQ flags that are up.
pub struct Block {
    pub machines: Seq<Machine>,
    pub raised: Set<int>,
}

impl Block {
    /// A block with all its state machines.
    pub open spec fn wf(self) -> bool {
        self.machines.len() == STATE_MACHINES
    }

    /// The block with another state of one state machine.
    pub open spec fn with(self, sm: u8, machine: Machine) -> Block {
        Block { machines: self.machines.update(sm as int, machine), ..self }
    }

    /// The block after an access.
    pub open spec fn access(self, op: PioOp) -> Block {
        match op {
            PioOp::Disable { sm } => self.with(sm, Machine { running: false, ..self.machines[sm as int] }),
            PioOp::Enable { sm } => self.with(sm, Machine { running: true, ..self.machines[sm as int] }),
            PioOp::Restart { sm } => self.with(
                sm,
                Machine { executed: Seq::empty(), restarted: true, ..self.machines[sm as int] },
            ),
            PioOp::ClearFifos { sm } => self.with(
                sm,
                Machine { queued: Seq::empty(), emptied: true, ..self.machines[sm as int] },
            ),
            PioOp::Exec { sm, instr } => self.with(
                sm,
                Machine {
                    executed: self.machines[sm as int].executed.push(instr),
                    ..self.machines[sm as int]
                },
            ),
            PioOp::Push { sm, word } => self.with(
                sm,
                Machine { queued: self.machines[sm as int].queued.push(word), ..self.machines[sm as int] },
            ),
            PioOp::ClearIrq { flags } => Block {
                raised: self.raised.filter(|i: int| !(0 <= i < 8 && field_bit(flags, i))),
                ..self
            },
        }
    }

    /// The block after a sequence of accesses.
    pub open spec fn perform(self, ops: Seq<PioOp>) -> Block
        decreases ops.len(),
    {
        if ops.len() == 0 {
            self
        } else {
            self.perform(ops.drop_last()).access(ops.last())
        }
    }
}

/// Accesses one behind the other.
pub proof fn lemma_perform_concat(block: Block, a: Seq<PioOp>, b: Seq<PioOp>)
    ensures
        block.perform(a + b) == block.perform(a).perform(b),
    decreases b.len(),
{
    if b.len() == 0 {
        assert(a + b =~= a);
    } else {
        lemma_perform_concat(block, a, b.drop_last());
        assert((a + b).drop_last() =~= a + b.drop_last());
    }
}

/// The flags in the masks that the drivers write.
pub proof fn lemma_flag_masks()
    ensures
        forall|i: int| 0 <= i < 8 ==> #[trigger] field_bit(0x01, i) == (i == 0),
        forall|i: int| 0 <= i < 8 ==> #[trigger] field_bit(0x18, i) == (i == 3 || i == 4),
        forall|i: int| 0 <= i < 8 ==> #[trigger] field_bit(0x1C, i) == (i == 2 || i == 3 || i == 4),
{
    assert forall|i: int| 0 <= i < 8 implies {
        &&& #[trigger] field_bit(0x01, i) == (i == 0)
        &&& field_bit(0x18, i) == (i == 3 || i == 4)
        &&& field_bit(0x1C, i) == (i == 2 || i == 3 || i == 4)
    } by {
        let k = i as u8;
        assert(((0x01u8 >> k) & 1 == 1) == (k == 0) && ((0x18u8 >> k) & 1 == 1) == (k == 3 || k == 4) && ((0x1Cu8
            >> k) & 1 == 1) == (k == 2 || k == 3 || k == 4)) by (bit_vector)
            requires
                k < 8,
        ;
    }
    assert forall|i: int| 0 <= i < 8 implies #[trigger] field_bit(0x18, i) == (i == 3 || i == 4) by {
        assert(field_bit(0x01, i) == (i == 0));
    }
    assert forall|i: int| 0 <= i < 8 implies #[trigger] field_bit(0x1C, i) == (i == 2 || i == 3 || i == 4) by {
        assert(field_bit(0x01, i) == (i == 0));
    }
}

/// The bits of a register field make up its value.
pub proof fn law_field_bits(field: u8)
    ensures
        field == (if field_bit(field, 0) { 1int } else { 0 }) + (if field_bit(field, 1) { 2int } else { 0 })
            + (if field_bit(field, 2) { 4int } else { 0 }) + (if field_bit(field, 3) { 8int } else { 0 })
            + (if field_bit(field, 4) { 16int } else { 0 }) + (if field_bit(field, 5) { 32int } else { 0 })
            + (if field_bit(field, 6) { 64int } else { 0 }) + (if field_bit(field, 7) { 128int } else { 0 }),
{
    assert(field == ((field >> 0) & 1) + 2 * ((field >> 1) & 1) + 4 * ((field >> 2) & 1) + 8 * ((field >> 3) & 1)
        + 16 * ((field >> 4) & 1) + 32 * ((field >> 5) & 1) + 64 * ((field >> 6) & 1) + 128 * ((field >> 7) & 1)
        && (field >> 0) & 1 < 2 && (field >> 1) & 1 < 2 && (field >> 2) & 1 < 2 && (field >> 3) & 1 < 2
        && (field >> 4) & 1 < 2 && (field >> 5) & 1 < 2 && (field >> 6) & 1 < 2 && (field >> 7) & 1 < 2)
        by (bit_vector);
}

} // verus!
