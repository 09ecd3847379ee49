//! Driver for the ARM-local interrupt controller: pending-status decoding
//! and enable/disable/routing register computation.
//!
//! The status values are decoded from snapshots of the per-core source
//! registers; the configuration operations are computed as [`MmioWrite`]
//! instructions that the surrounding program performs, handing in the
//! current register value where the operation keeps the other bits.

use vstd::prelude::*;

use crate::cpu::Core;
use crate::mmio::{bit32, MmioWrite};

verus! {

/// Base address of the ARM-local interrupt controller, as an offset from
/// the MMIO base address.
pub const LOCAL_INTC_BASE: usize = 0x100_0000;

/// Local timer interrupt routing register.
pub const LOCAL_TIMER_INT_ROUTING: usize = 0x100_0024;

/// Local timer control & status register.
pub const LOCAL_TIMER_CONTROL_STATUS: usize = 0x100_0034;

/// Base address of the IRQ source registers.
pub const CORE_IRQ_SOURCE_BASE: usize = 0x100_0060;

/// Base address of the FIQ source registers.
pub const CORE_FIQ_SOURCE_BASE: usize = 0x100_0070;

/// Local interrupt controller error.
#[derive(Debug)]
pub enum Error {
    /// Invalid routing configuration.
    InvalidRoute(Core, IntType),
}

/// ARM-local interrupt source.
#[derive(Debug, Copy, Clone)]
pub enum IntSource {
    /// Local timer interrupt.
    LocalTimer,

    /// AXI-outstanding interrupt. For core 0 only, all others are 0.
    Axi,

    /// PMU interrupt.
    Pmu,

    /// GPU interrupt. Can be high in one core only.
    Gpu,

    /// Mailbox 0 interrupt.
    Mailbox0,

    /// Mailbox 1 interrupt.
    Mailbox1,

    /// Mailbox 2 interrupt.
    Mailbox2,

    /// Mailbox 3 interrupt.
    Mailbox3,

    /// CNTVIRQ interrupt.
    CntvIrq,

    /// CNTHPIRQ interrupt.
    CnthpIrq,

    /// CNTPNSIRQ interrupt.
    CntpnsIrq,

    /// CNTPSIRQ interrupt (Physical Timer -1).
    CntpsIrq,
}

/// Interrupt type.
#[derive(Debug, Copy, Clone)]
pub enum IntType {
    /// Interrupt.
    Irq,

    /// Fast interrupt.
    Fiq,
}

impl IntSource {
    /// Returns the register write that enables the interrupt, given the
    /// current value of the local timer control register. Of the local
    /// sources, only the local timer interrupt is configurable here.
    pub fn enable(&self, current: u32) -> (r: MmioWrite)
        requires
            self is LocalTimer,
        ensures
            r.reg == LOCAL_TIMER_CONTROL_STATUS,
            r.value == current | (1u32 << 29),
    {
        MmioWrite { reg: LOCAL_TIMER_CONTROL_STATUS, value: current | (1u32 << 29) }
    }

    /// Returns the register write that disables the interrupt, given the
    /// current value of the local timer control register. Of the local
    /// sources, only the local timer interrupt is configurable here.
    pub fn disable(&self, current: u32) -> (r: MmioWrite)
        requires
            self is LocalTimer,
        ensures
            r.reg == LOCAL_TIMER_CONTROL_STATUS,
            r.value == current & !(1u32 << 29),
    {
        MmioWrite { reg: LOCAL_TIMER_CONTROL_STATUS, value: current & !(1u32 << 29) }
    }

    /// Returns the register write that routes the interrupt to a specific
    /// CPU core as an IRQ or an FIQ. Of the local sources, only the local
    /// timer interrupt is configurable here.
    pub fn route(&self, core: Core, ty: IntType) -> (r: Result<MmioWrite, Error>)
        requires
            self is LocalTimer,
            core.spec_value() < crate::cpu::NCORES,
        ensures
            r matches Ok(w) && w.reg == LOCAL_TIMER_INT_ROUTING && w.value == (match ty {
                IntType::Irq => core.spec_value() as u32,
                IntType::Fiq => (core.spec_value() + 4) as u32,
            }),
    {
        let val: u32 = match ty {
            IntType::Irq => core.value() as u32,
            IntType::Fiq => core.value() as u32 + 4,
        };
        Ok(MmioWrite { reg: LOCAL_TIMER_INT_ROUTING, value: val })
    }
}

/// Status of the ARM-local interrupts, decoded from a snapshot of a core's
/// IRQ or FIQ source register.
#[derive(Debug)]
pub struct Status {
    /// Value of the source register.
    reg: u32,
}

impl Status {
    /// The register snapshot, for specifications.
    pub closed spec fn spec_reg(self) -> u32 {
        self.reg
    }

    /// Returns true if the Local Timer interrupt is pending.
    pub fn pending_local_timer(&self) -> (r: bool)
        ensures
            r == bit32(self.spec_reg(), 11),
    {
        self.reg & (1u32 << 11) != 0
    }

    /// Returns true if the AXI-outstanding interrupt is pending.
    pub fn pending_axi(&self) -> (r: bool)
        ensures
            r == bit32(self.spec_reg(), 10),
    {
        self.reg & (1u32 << 10) != 0
    }

    /// Returns true if the PMU interrupt is pending.
    pub fn pending_pmu(&self) -> (r: bool)
        ensures
            r == bit32(self.spec_reg(), 9),
    {
        self.reg & (1u32 << 9) != 0
    }

    /// Returns true if the GPU interrupt is pending.
    pub fn pending_gpu(&self) -> (r: bool)
        ensures
            r == bit32(self.spec_reg(), 8),
    {
        self.reg & (1u32 << 8) != 0
    }

    /// Returns true if the mailbox 0 interrupt is pending.
    pub fn pending_mailbox0(&self) -> (r: bool)
        ensures
            r == bit32(self.spec_reg(), 4),
    {
        self.reg & (1u32 << 4) != 0
    }

    /// Returns true if the mailbox 1 interrupt is pending.
    pub fn pending_mailbox1(&self) -> (r: bool)
        ensures
            r == bit32(self.spec_reg(), 5),
    {
        self.reg & (1u32 << 5) != 0
    }

    /// Returns true if the mailbox 2 interrupt is pending.
    pub fn pending_mailbox2(&self) -> (r: bool)
        ensures
            r == bit32(self.spec_reg(), 6),
    {
        self.reg & (1u32 << 6) != 0
    }

    /// Returns true if the mailbox 3 interrupt is pending.
    pub fn pending_mailbox3(&self) -> (r: bool)
        ensures
            r == bit32(self.spec_reg(), 7),
    {
        self.reg & (1u32 << 7) != 0
    }

    /// Returns true if the CNTV interrupt is pending.
    pub fn pending_cntv(&self) -> (r: bool)
        ensures
            r == bit32(self.spec_reg(), 3),
    {
        self.reg & (1u32 << 3) != 0
    }

    /// Returns true if the CNTHP interrupt is pending.
    pub fn pending_cnthp(&self) -> (r: bool)
        ensures
            r == bit32(self.spec_reg(), 2),
    {
        self.reg & (1u32 << 2) != 0
    }

    /// Returns true if the CNTPNS interrupt is pending.
    pub fn pending_cntpns(&self) -> (r: bool)
        ensures
            r == bit32(self.spec_reg(), 1),
    {
        self.reg & (1u32 << 1) != 0
    }

    /// Returns true if the CNTPS interrupt is pending.
    pub fn pending_cntps(&self) -> (r: bool)
        ensures
            r == bit32(self.spec_reg(), 0),
    {
        self.reg & (1u32 << 0) != 0
    }
}

/// The offset of the IRQ source register of a core.
pub open spec fn spec_irq_source_reg(core: Core) -> usize {
    (CORE_IRQ_SOURCE_BASE + core.spec_value() * 4) as usize
}

/// Returns the IRQ status of the ARM-local interrupt sources for a
/// snapshot of the core's IRQ source register, together with the offset of
/// that register.
pub fn irq_status(core: Core, reg: u32) -> (r: (usize, Status))
    requires
        core.spec_value() < crate::cpu::NCORES,
    ensures
        r.0 == spec_irq_source_reg(core),
        r.1.spec_reg() == reg,
{
    (CORE_IRQ_SOURCE_BASE + core.value() * 4, Status { reg })
}

/// The offset of the FIQ source register of a core.
pub open spec fn spec_fiq_source_reg(core: Core) -> usize {
    (CORE_FIQ_SOURCE_BASE + core.spec_value() * 4) as usize
}

/// Returns the FIQ status of the ARM-local interrupt sources for a
/// snapshot of the core's FIQ source register, together with the offset of
/// that register.
pub fn fiq_status(core: Core, reg: u32) -> (r: (usize, Status))
    requires
        core.spec_value() < crate::cpu::NCORES,
    ensures
        r.0 == spec_fiq_source_reg(core),
        r.1.spec_reg() == reg,
{
    (CORE_FIQ_SOURCE_BASE + core.value() * 4, Status { reg })
}

} // verus!
