//! System Timer driver: status decoding and match-clearing register
//! computation.
//!
//! The status is decoded from a snapshot of the control/status register;
//! clearing a match is computed as a [`MmioWrite`] that the surrounding
//! program performs, as is reading the free-running counter.

use vstd::prelude::*;

use crate::mmio::{bit32, lemma_bit32_or, lemma_bit32_zero, MmioWrite};

verus! {

/// Base address of the System Timer, as an offset from the MMIO base
/// address.
pub const SYS_TIMER_BASE: usize = 0x3000;

/// System Timer Control/Status register.
pub const SYS_TIMER_CS: usize = 0x3000;

/// System Timer Counter Lower 32 bits.
pub const SYS_TIMER_CLO: usize = 0x3004;

/// System Timer Counter Higher 32 bits.
pub const SYS_TIMER_CHI: usize = 0x3008;

/// Base address of System Timer Compare registers.
pub const SYS_TIMER_CMP_BASE: usize = 0x300c;

/// Number of System Timers.
pub const NTIMERS: usize = 4;

/// The System Timer runs at 1MHz.
pub const CLOCK_FREQ: u32 = 1_000_000;

/// System Timer error.
#[derive(Debug)]
pub enum Error {
    /// Invalid System Timer.
    InvalidSystemTimer(usize),
}

/// Timer status.
#[derive(Debug, Copy, Clone)]
pub enum TimerStatus {
    /// A timer match has been detected since last cleared.
    Matched,

    /// No timer match has been detected since last cleared.
    NotMatched,

    /// Unknown timer status.
    Unknown,
}

/// Status of the system timers, decoded from a snapshot of the
/// control/status register.
#[derive(Debug)]
pub struct Status {
    /// Value of the control/status register.
    reg: u32,
}

/// Returns the status of the system timers for a snapshot of the
/// control/status register.
pub fn status(reg: u32) -> (r: Status)
    ensures
        r.spec_reg() == reg,
{
    Status { reg }
}

impl Status {
    /// The register snapshot, for specifications.
    pub closed spec fn spec_reg(self) -> u32 {
        self.reg
    }

    /// Returns true if the status of a timer is "matched".
    pub fn matched(&self, timer: SystemTimer) -> (r: bool)
        requires
            timer.spec_value() < NTIMERS,
        ensures
            r == bit32(self.spec_reg(), timer.spec_value() as u32),
    {
        self.reg & (1u32 << (timer.value as u32)) != 0
    }

    /// Returns the status of a timer.
    pub fn timer_status(&self, timer: SystemTimer) -> (r: TimerStatus)
        requires
            timer.spec_value() < NTIMERS,
        ensures
            (r is Matched) == bit32(self.spec_reg(), timer.spec_value() as u32),
            r is Matched || r is NotMatched,
    {
        if self.matched(timer) {
            TimerStatus::Matched
        } else {
            TimerStatus::NotMatched
        }
    }
}

/// Represents a System Timer.
#[derive(Debug, Copy, Clone)]
pub struct SystemTimer {
    /// The timer number, below [`NTIMERS`].
    value: usize,
}

impl SystemTimer {
    /// The timer number, for specifications.
    pub closed spec fn spec_value(self) -> usize {
        self.value
    }

    /// Returns the System Timer with the given number.
    ///
    /// # Errors
    ///
    /// This function returns `Error::InvalidSystemTimer` for numbers at or
    /// above [`NTIMERS`].
    pub fn new(n: usize) -> (r: Result<SystemTimer, Error>)
        ensures
            n < NTIMERS ==> (r matches Ok(t) && t.spec_value() == n),
            n >= NTIMERS ==> r == Err::<SystemTimer, Error>(Error::InvalidSystemTimer(n)),
    {
        if n >= NTIMERS {
            return Err(Error::InvalidSystemTimer(n));
        }
        Ok(SystemTimer { value: n })
    }

    /// Returns true if a timer match has been detected since last cleared,
    /// in the given status snapshot.
    pub fn matched(&self, status: &Status) -> (r: bool)
        requires
            self.spec_value() < NTIMERS,
        ensures
            r == bit32(status.spec_reg(), self.spec_value() as u32),
    {
        status.matched(*self)
    }

    /// Returns the register write that clears the timer match.
    pub fn clear(&self) -> (r: MmioWrite)
        requires
            self.spec_value() < NTIMERS,
        ensures
            r.reg == SYS_TIMER_CS,
            forall|b: u32| b < 32 ==> (bit32(r.value, b) == (b == self.spec_value())),
    {
        let arr = [*self];
        proof {
            assert(arr@ =~= seq![*self]);
        }
        clear(arr.as_slice())
    }

    /// Returns the register write that sets the compare value of the timer.
    pub fn set_cmp(&self, cmp: u32) -> (r: MmioWrite)
        requires
            self.spec_value() < NTIMERS,
        ensures
            r.reg == SYS_TIMER_CMP_BASE + 4 * self.spec_value(),
            r.value == cmp,
    {
        MmioWrite { reg: SYS_TIMER_CMP_BASE + self.value * 4, value: cmp }
    }
}

/// Returns the register write that clears a set of system timer matches.
#[verifier::loop_isolation(false)]
pub fn clear(timers: &[SystemTimer]) -> (r: MmioWrite)
    requires
        forall|j: int| 0 <= j < timers@.len() ==> (#[trigger] timers@[j]).spec_value()
            < NTIMERS,
    ensures
        r.reg == SYS_TIMER_CS,
        forall|b: u32| b < 32 ==> (bit32(r.value, b) == exists|j: int|
            0 <= j < timers@.len() && (#[trigger] timers@[j]).spec_value() == b),
{
    let mut mask: u32 = 0;
    let mut i: usize = 0;
    proof {
        assert forall|b: u32| b < 32 implies !bit32(0u32, b) by {
            lemma_bit32_zero(b);
        }
    }
    while i < timers.len()
        invariant
            i <= timers@.len(),
            forall|b: u32| b < 32 ==> (bit32(mask, b) == exists|j: int|
                0 <= j < i && (#[trigger] timers@[j]).spec_value() == b),
        decreases timers@.len() - i,
    {
        let timer = timers[i];
        let ghost old_mask = mask;
        mask = mask | (1u32 << (timer.value as u32));
        proof {
            assert forall|b: u32| b < 32 implies (bit32(mask, b) == exists|j: int|
                0 <= j < i + 1 && (#[trigger] timers@[j]).spec_value() == b) by {
                lemma_bit32_or(old_mask, timers@[i as int].spec_value() as u32, b);
            }
        }
        i += 1;
    }
    MmioWrite { reg: SYS_TIMER_CS, value: mask }
}

/// Returns the value of the System Timer free-running counter for a
/// snapshot of its two halves.
pub fn counter(chi: u32, clo: u32) -> (r: u64)
    ensures
        r == (chi as u64) * 0x1_0000_0000 + (clo as u64),
{
    let r = ((chi as u64) << 32) | (clo as u64);
    proof {
        assert(((chi as u64) << 32) | (clo as u64) == (chi as u64) * 0x1_0000_0000 + (
        clo as u64)) by (bit_vector);
    }
    r
}

} // verus!
