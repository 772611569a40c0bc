//! The uart module contains the register-level model of a universal
//! asynchronous receiver-transmitter (UART). The device is a 16550a UART, as
//! used in the QEMU virt machine.
//!
//! The model is a fixed-size register file plus an interrupt-pending flag.
//! CPU-driven accesses go through `load` and `store`; the background input
//! task's action on an arriving byte is `deliver_input`, one step of the
//! single-slot mailbox handshake: it refuses the byte while an unread one is
//! pending, and the caller waits until a receive-holding load clears the
//! ready bit. A store to transmit-holding returns the byte to emit, so the
//! caller can hand it to the host's output stream.

use vstd::prelude::*;

verus! {

/// The guest physical address at which the UART starts, same as the QEMU
/// virt machine.
pub const UART_BASE: u64 = 0x10000000;
/// The size of the UART register file.
pub const UART_SIZE: u64 = 0x100;
/// The interrupt request number of the UART.
pub const UART_IRQ: u64 = 10;

/// Receive holding register (for input bytes).
pub const UART_RHR: u64 = UART_BASE;
/// Transmit holding register (for output bytes); aliases the same offset as
/// the receive holding register.
pub const UART_THR: u64 = UART_BASE + 0;
/// Line control register.
pub const UART_LCR: u64 = UART_BASE + 3;
/// Line status register.
/// LSR bit 0:
///     0 = no data in the receive holding register.
///     1 = data has been received and saved in the receive holding register.
/// LSR bit 5:
///     0 = transmit holding register is full.
///     1 = transmit holding register is empty; the CPU can load the next
///         character.
pub const UART_LSR: u64 = UART_BASE + 5;

/// The receiver (RX) ready bit.
pub const UART_LSR_RX: u8 = 1;
/// The transmitter (TX) empty bit.
pub const UART_LSR_TX: u8 = 1 << 5;

/// The register-file offset that a guest physical address maps to.
pub open spec fn reg_index(addr: u64) -> int {
    addr - UART_BASE
}

/// A register file of the declared size.
pub open spec fn wf_regs(regs: Seq<u8>) -> bool {
    regs.len() == UART_SIZE
}

/// The receive-data-ready bit of the line status register is set: an unread
/// input byte is present.
pub open spec fn receive_ready(regs: Seq<u8>) -> bool {
    regs[reg_index(UART_LSR)] & UART_LSR_RX != 0
}

/// The transmit-holding-empty bit of the line status register is set.
pub open spec fn transmit_empty(regs: Seq<u8>) -> bool {
    regs[reg_index(UART_LSR)] & UART_LSR_TX != 0
}

/// The register file right after construction: all zero, except that the
/// transmitter is ready.
pub open spec fn initial_regs() -> Seq<u8> {
    Seq::new(UART_SIZE as nat, |i: int| if i == reg_index(UART_LSR) { UART_LSR_TX } else { 0u8 })
}

/// The byte a load returns: the raw register at the addressed offset.
pub open spec fn load_result(regs: Seq<u8>, addr: u64) -> u8 {
    regs[reg_index(addr)]
}

/// The register file after a load: reading receive-holding clears the
/// receive-data-ready bit; any other offset has no side effect.
pub open spec fn load_regs(regs: Seq<u8>, addr: u64) -> Seq<u8> {
    if addr == UART_RHR {
        regs.update(reg_index(UART_LSR), regs[reg_index(UART_LSR)] & !UART_LSR_RX)
    } else {
        regs
    }
}

/// The register file after a store: writing transmit-holding emits the byte
/// instead of storing it; any other offset takes the raw byte.
pub open spec fn store_regs(regs: Seq<u8>, addr: u64, value: u8) -> Seq<u8> {
    if addr == UART_THR {
        regs
    } else {
        regs.update(reg_index(addr), value)
    }
}

/// The byte a store emits to the host's output stream, if any.
pub open spec fn store_output(addr: u64, value: u8) -> Option<u8> {
    if addr == UART_THR {
        Some(value)
    } else {
        None
    }
}

/// The register file after the background task delivers an input byte: the
/// byte lands in receive-holding and the receive-data-ready bit is set.
pub open spec fn deliver_regs(regs: Seq<u8>, byte: u8) -> Seq<u8> {
    regs.update(reg_index(UART_RHR), byte).update(
        reg_index(UART_LSR),
        regs[reg_index(UART_LSR)] | UART_LSR_RX,
    )
}

/// One CPU-driven access to the device: the ghost alphabet over which the
/// multi-step laws of the device are stated.
pub enum UartOp {
    Load { addr: u64 },
    Store { addr: u64, value: u8 },
}

/// Whether an access address lies inside the device's register window.
pub open spec fn addr_in_range(addr: u64) -> bool {
    UART_BASE <= addr < UART_BASE + UART_SIZE
}

/// Whether an access's address lies inside the register window.
pub open spec fn op_in_range(op: UartOp) -> bool {
    match op {
        UartOp::Load { addr } => addr_in_range(addr),
        UartOp::Store { addr, .. } => addr_in_range(addr),
    }
}

/// Whether every access of a sequence lies inside the register window.
pub open spec fn ops_in_range(ops: Seq<UartOp>) -> bool {
    forall|i: int| 0 <= i < ops.len() ==> op_in_range(#[trigger] ops[i])
}

/// The register file after one access.
pub open spec fn op_regs(regs: Seq<u8>, op: UartOp) -> Seq<u8> {
    match op {
        UartOp::Load { addr } => load_regs(regs, addr),
        UartOp::Store { addr, value } => store_regs(regs, addr, value),
    }
}

/// The byte one access emits to the host's output stream, if any.
pub open spec fn op_output(op: UartOp) -> Option<u8> {
    match op {
        UartOp::Load { .. } => None,
        UartOp::Store { addr, value } => store_output(addr, value),
    }
}

/// The register file after a sequence of accesses, first access first.
pub open spec fn ops_regs(regs: Seq<u8>, ops: Seq<UartOp>) -> Seq<u8>
    decreases ops.len(),
{
    if ops.len() == 0 {
        regs
    } else {
        ops_regs(op_regs(regs, ops[0]), ops.skip(1))
    }
}

/// The bytes a sequence of accesses emits to the host's output stream, in
/// order.
pub open spec fn ops_outputs(ops: Seq<UartOp>) -> Seq<u8>
    decreases ops.len(),
{
    if ops.len() == 0 {
        Seq::empty()
    } else {
        match op_output(ops[0]) {
            Some(b) => seq![b] + ops_outputs(ops.skip(1)),
            None => ops_outputs(ops.skip(1)),
        }
    }
}

/// Whether an access is a store to the transmit-holding register.
pub open spec fn is_transmit(op: UartOp) -> bool {
    match op {
        UartOp::Load { .. } => false,
        UartOp::Store { addr, .. } => addr == UART_THR,
    }
}

/// The byte a store carries (irrelevant for loads).
pub open spec fn stored_value(op: UartOp) -> u8 {
    match op {
        UartOp::Load { .. } => 0,
        UartOp::Store { value, .. } => value,
    }
}

/// Whether an access is a store to the line-status register, the one access
/// that can forge the status bits by hand.
pub open spec fn writes_line_status(op: UartOp) -> bool {
    match op {
        UartOp::Load { .. } => false,
        UartOp::Store { addr, .. } => addr == UART_LSR,
    }
}

/// For every sequence of stores to transmit-holding, the output stream
/// receives exactly the stored bytes, in order, and the register file is
/// left unchanged — each store emits its byte at once, with nothing
/// buffered.
pub proof fn lemma_transmit_stream(regs: Seq<u8>, ops: Seq<UartOp>)
    requires
        forall|i: int| 0 <= i < ops.len() ==> is_transmit(#[trigger] ops[i]),
    ensures
        ops_regs(regs, ops) == regs,
        ops_outputs(ops).len() == ops.len(),
        forall|i: int| 0 <= i < ops.len() ==> ops_outputs(ops)[i] == stored_value(#[trigger] ops[i]),
    decreases ops.len(),
{
    if ops.len() > 0 {
        let rest = ops.skip(1);
        assert(forall|i: int| 0 <= i < rest.len() ==> is_transmit(#[trigger] rest[i]));
        lemma_transmit_stream(regs, rest);
        assert(op_regs(regs, ops[0]) == regs);
        assert(op_output(ops[0]) == Some(stored_value(ops[0])));
        assert forall|i: int| 1 <= i < ops.len() implies ops_outputs(ops)[i] == stored_value(
            #[trigger] ops[i],
        ) by {
            assert(ops_outputs(ops)[i] == ops_outputs(rest)[i - 1]);
            assert(rest[i - 1] == ops[i]);
        }
    }
}

/// One access neither raises the receive-ready bit nor touches the
/// transmit-empty bit, as long as it is not a raw store to the line-status
/// register.
pub proof fn lemma_status_step(regs: Seq<u8>, op: UartOp)
    requires
        wf_regs(regs),
        !writes_line_status(op),
        op_in_range(op),
    ensures
        wf_regs(op_regs(regs, op)),
        transmit_empty(op_regs(regs, op)) == transmit_empty(regs),
        !receive_ready(regs) ==> !receive_ready(op_regs(regs, op)),
{
    let s = regs[reg_index(UART_LSR)];
    match op {
        UartOp::Load { addr } => {
            if addr == UART_RHR {
                assert(((s & !UART_LSR_RX) & UART_LSR_TX) == (s & UART_LSR_TX)) by (bit_vector);
                assert(((s & !UART_LSR_RX) & UART_LSR_RX) == 0) by (bit_vector);
            }
        },
        UartOp::Store { addr, .. } => {
            if addr != UART_THR {
                assert(reg_index(addr) != reg_index(UART_LSR));
            }
        },
    }
}

/// Until an input byte is delivered, the line status is stable: any
/// sequence of CPU loads and stores that does not write the line-status
/// register by hand keeps the transmit-empty bit exactly as it was — in
/// particular set, from construction on — and never raises the
/// receive-ready bit.
pub proof fn lemma_status_without_input(regs: Seq<u8>, ops: Seq<UartOp>)
    requires
        wf_regs(regs),
        ops_in_range(ops),
        forall|i: int| 0 <= i < ops.len() ==> !writes_line_status(#[trigger] ops[i]),
    ensures
        wf_regs(ops_regs(regs, ops)),
        transmit_empty(ops_regs(regs, ops)) == transmit_empty(regs),
        !receive_ready(regs) ==> !receive_ready(ops_regs(regs, ops)),
    decreases ops.len(),
{
    if ops.len() > 0 {
        let rest = ops.skip(1);
        lemma_status_step(regs, ops[0]);
        assert(forall|i: int| 0 <= i < rest.len() ==> !writes_line_status(#[trigger] rest[i]));
        assert(ops_in_range(rest));
        lemma_status_without_input(op_regs(regs, ops[0]), rest);
    }
}

/// A single input byte delivered while receive-ready is clear: after the
/// delivery the ready bit is set and a receive-holding load returns exactly
/// that byte; that load clears the ready bit again, and a second
/// receive-holding load, absent new input, returns the same register
/// content and changes nothing.
pub proof fn lemma_single_delivery(regs: Seq<u8>, byte: u8)
    requires
        wf_regs(regs),
        !receive_ready(regs),
    ensures
        ({
            let delivered = deliver_regs(regs, byte);
            let after_load = load_regs(delivered, UART_RHR);
            &&& receive_ready(delivered)
            &&& load_result(delivered, UART_RHR) == byte
            &&& !receive_ready(after_load)
            &&& load_result(after_load, UART_RHR) == byte
            &&& load_regs(after_load, UART_RHR) == after_load
        }),
{
    let s = regs[reg_index(UART_LSR)];
    assert(((s | UART_LSR_RX) & UART_LSR_RX) != 0) by (bit_vector);
    assert((((s | UART_LSR_RX) & !UART_LSR_RX) & UART_LSR_RX) == 0) by (bit_vector);
    let delivered = deliver_regs(regs, byte);
    let after_load = load_regs(delivered, UART_RHR);
    let t = after_load[reg_index(UART_LSR)];
    assert(t == (s | UART_LSR_RX) & !UART_LSR_RX);
    assert(((s | UART_LSR_RX) & !UART_LSR_RX) & !UART_LSR_RX == (s | UART_LSR_RX) & !UART_LSR_RX)
        by (bit_vector);
    assert(load_regs(after_load, UART_RHR) =~= after_load);
}

/// One event touching the interrupt-pending flag: a byte delivery (which
/// raises it) or a poll through `is_interrupting` (which reads and clears
/// it).
pub enum IrqEvent {
    Deliver,
    Poll,
}

/// How many polls of a sequence of events return true.
pub open spec fn true_poll_count(flag: bool, events: Seq<IrqEvent>) -> nat
    decreases events.len(),
{
    if events.len() == 0 {
        0
    } else {
        match events[0] {
            IrqEvent::Deliver => true_poll_count(true, events.skip(1)),
            IrqEvent::Poll => (if flag {
                1nat
            } else {
                0nat
            }) + true_poll_count(false, events.skip(1)),
        }
    }
}

/// How many deliveries a sequence of events contains.
pub open spec fn deliver_count(events: Seq<IrqEvent>) -> nat
    decreases events.len(),
{
    if events.len() == 0 {
        0
    } else {
        (if events[0] is Deliver {
            1nat
        } else {
            0nat
        }) + deliver_count(events.skip(1))
    }
}

/// `is_interrupting` returns true at most once per delivered byte: however
/// deliveries and polls interleave, the number of polls that return true
/// never exceeds the number of deliveries, plus one for a byte already
/// pending at the start. Two deliveries with no poll between them coalesce
/// into a single pending indication, so the bound is not always reached.
pub proof fn lemma_interrupt_polls_bounded(flag: bool, events: Seq<IrqEvent>)
    ensures
        true_poll_count(flag, events) <= deliver_count(events) + (if flag {
            1int
        } else {
            0int
        }),
    decreases events.len(),
{
    if events.len() > 0 {
        match events[0] {
            IrqEvent::Deliver => lemma_interrupt_polls_bounded(true, events.skip(1)),
            IrqEvent::Poll => lemma_interrupt_polls_bounded(false, events.skip(1)),
        }
    }
}

/// The 16550a UART device model.
pub struct Uart {
    /// The register file, indexed by offset from the device's base address.
    registers: Vec<u8>,
    /// Set when an input byte arrives; consumed by `is_interrupting`.
    interrupting: bool,
}

impl Uart {
    /// The register file, as a sequence of bytes.
    pub closed spec fn regs(&self) -> Seq<u8> {
        self.registers@
    }

    /// Whether an interrupt is pending.
    pub closed spec fn interrupt_pending(&self) -> bool {
        self.interrupting
    }

    /// Create a new `Uart` object: all registers zero, the
    /// transmit-holding-empty bit set, no interrupt pending.
    pub fn new() -> (u: Uart)
        ensures
            wf_regs(u.regs()),
            u.regs() == initial_regs(),
            !u.interrupt_pending(),
            transmit_empty(u.regs()),
            !receive_ready(u.regs()),
    {
        let mut registers: Vec<u8> = Vec::new();
        let mut i: usize = 0;
        while i < 256
            invariant
                i <= 256,
                registers@.len() == i,
                forall|j: int| 0 <= j < i ==> registers@[j] == 0,
            decreases 256 - i,
        {
            registers.push(0);
            i = i + 1;
        }
        // Transmit holding register is empty.
        let lsr_offset = (UART_LSR - UART_BASE) as usize;
        let status = registers[lsr_offset] | UART_LSR_TX;
        registers.set(lsr_offset, status);
        proof {
            assert(0u8 | UART_LSR_TX == UART_LSR_TX) by (bit_vector);
            assert(UART_LSR_TX & UART_LSR_TX != 0) by (bit_vector);
            assert(UART_LSR_TX & UART_LSR_RX == 0) by (bit_vector);
            assert(registers@ =~= initial_regs());
        }
        Self { registers, interrupting: false }
    }

    /// Return true if an interrupt is pending, and clear the pending flag:
    /// the flag is consumed at most once per delivered byte.
    pub fn is_interrupting(&mut self) -> (r: bool)
        ensures
            r == old(self).interrupt_pending(),
            !final(self).interrupt_pending(),
            final(self).regs() == old(self).regs(),
    {
        let r = self.interrupting;
        self.interrupting = false;
        r
    }

    /// A CPU load from the device. Reading receive-holding clears the
    /// receive-data-ready bit and returns the held byte; reading any other
    /// offset returns the raw register with no side effect.
    pub fn load(&mut self, addr: u64) -> (r: u8)
        requires
            wf_regs(old(self).regs()),
            UART_BASE <= addr < UART_BASE + UART_SIZE,
        ensures
            wf_regs(final(self).regs()),
            final(self).regs() == load_regs(old(self).regs(), addr),
            r == load_result(old(self).regs(), addr),
            final(self).interrupt_pending() == old(self).interrupt_pending(),
            addr == UART_RHR ==> !receive_ready(final(self).regs()),
            addr != UART_RHR ==> final(self).regs() == old(self).regs(),
    {
        if addr == UART_RHR {
            let lsr_offset = (UART_LSR - UART_BASE) as usize;
            let status = self.registers[lsr_offset] & !UART_LSR_RX;
            self.registers.set(lsr_offset, status);
            proof {
                let s = old(self).regs()[reg_index(UART_LSR)];
                assert((s & !UART_LSR_RX) & UART_LSR_RX == 0) by (bit_vector);
            }
            self.registers[0]
        } else {
            self.registers[(addr - UART_BASE) as usize]
        }
    }

    /// A CPU store to the device. Writing transmit-holding leaves the
    /// registers unchanged and returns the byte to emit, synchronously, to
    /// the host's output stream; writing any other offset stores the raw
    /// byte and emits nothing.
    pub fn store(&mut self, addr: u64, value: u8) -> (out: Option<u8>)
        requires
            wf_regs(old(self).regs()),
            UART_BASE <= addr < UART_BASE + UART_SIZE,
        ensures
            wf_regs(final(self).regs()),
            final(self).regs() == store_regs(old(self).regs(), addr, value),
            out == store_output(addr, value),
            final(self).interrupt_pending() == old(self).interrupt_pending(),
    {
        if addr == UART_THR {
            Some(value)
        } else {
            self.registers.set((addr - UART_BASE) as usize, value);
            None
        }
    }

    /// One step of the background input task: deliver `byte` into the
    /// receive-holding register, set the receive-data-ready bit, and raise
    /// the interrupt-pending flag — unless an unread byte is pending, in
    /// which case nothing changes and the caller must wait until a
    /// receive-holding load clears the ready bit.
    pub fn deliver_input(&mut self, byte: u8) -> (accepted: bool)
        requires
            wf_regs(old(self).regs()),
        ensures
            wf_regs(final(self).regs()),
            accepted == !receive_ready(old(self).regs()),
            accepted ==> final(self).regs() == deliver_regs(old(self).regs(), byte),
            accepted ==> final(self).interrupt_pending(),
            accepted ==> receive_ready(final(self).regs()),
            accepted ==> load_result(final(self).regs(), UART_RHR) == byte,
            !accepted ==> final(self).regs() == old(self).regs(),
            !accepted ==> final(self).interrupt_pending() == old(self).interrupt_pending(),
    {
        let lsr_offset = (UART_LSR - UART_BASE) as usize;
        let status = self.registers[lsr_offset];
        proof {
            assert((status & UART_LSR_RX == 1) == (status & UART_LSR_RX != 0)) by (bit_vector);
        }
        if (status & UART_LSR_RX) == 1 {
            false
        } else {
            self.registers.set(0, byte);
            self.interrupting = true;
            let raised = self.registers[lsr_offset] | UART_LSR_RX;
            self.registers.set(lsr_offset, raised);
            proof {
                let s = old(self).regs()[reg_index(UART_LSR)];
                assert((s | UART_LSR_RX) & UART_LSR_RX != 0) by (bit_vector);
            }
            true
        }
    }
}

} // verus!
