//! Exception handling: masking and unmasking computed over the exception
//! mask register.
//!
//! The mask register itself is read and written by the surrounding program;
//! the functions here compute the new register value for a given old one.

use vstd::prelude::*;

use crate::mmio::bit64;

verus! {

/// Interrupt types.
#[derive(Debug, Copy, Clone)]
pub enum Interrupt {
    /// System error exception.
    SError,

    /// IRQ exception.
    Irq,

    /// FIQ exception.
    Fiq,
}

/// Exception types.
#[derive(Debug, Copy, Clone)]
pub enum Exception {
    /// Interrupt.
    Interrupt(Interrupt),

    /// Debug Exception.
    Debug,
}

impl Exception {
    /// The bit position of the exception in the exception mask register.
    pub open spec fn spec_mask_bit(self) -> u64 {
        match self {
            Exception::Interrupt(intr) => match intr {
                Interrupt::SError => 8,
                Interrupt::Irq => 7,
                Interrupt::Fiq => 6,
            },
            Exception::Debug => 9,
        }
    }

    /// Returns the new value of the exception mask register that masks the
    /// exception, given the current value.
    pub fn mask(&self, current: u64) -> (r: u64)
        ensures
            r == current | (1u64 << self.spec_mask_bit()),
            bit64(r, self.spec_mask_bit()),
    {
        let bit: u64 = match self {
            Exception::Interrupt(intr) => match intr {
                Interrupt::SError => 8,
                Interrupt::Irq => 7,
                Interrupt::Fiq => 6,
            },
            Exception::Debug => 9,
        };
        let r = current | (1u64 << bit);
        proof {
            crate::mmio::lemma_bit64_or(current, bit, bit);
        }
        r
    }

    /// Returns the new value of the exception mask register that unmasks
    /// the exception, given the current value.
    pub fn unmask(&self, current: u64) -> (r: u64)
        ensures
            r == current & !(1u64 << self.spec_mask_bit()),
            !bit64(r, self.spec_mask_bit()),
    {
        let bit: u64 = match self {
            Exception::Interrupt(intr) => match intr {
                Interrupt::SError => 8,
                Interrupt::Irq => 7,
                Interrupt::Fiq => 6,
            },
            Exception::Debug => 9,
        };
        let r = current & !(1u64 << bit);
        proof {
            crate::mmio::lemma_bit64_and_not(current, bit, bit);
        }
        r
    }
}

impl Interrupt {
    /// The bit position of the interrupt in the hypervisor routing
    /// register.
    pub open spec fn spec_routing_bit(self) -> u64 {
        match self {
            Interrupt::SError => 5,
            Interrupt::Irq => 4,
            Interrupt::Fiq => 3,
        }
    }

    /// Returns the new value of the exception mask register that masks the
    /// interrupt, given the current value.
    pub fn mask(&self, current: u64) -> (r: u64)
        ensures
            r == current | (1u64 << Exception::Interrupt(*self).spec_mask_bit()),
    {
        Exception::Interrupt(*self).mask(current)
    }

    /// Returns the new value of the exception mask register that unmasks
    /// the interrupt, given the current value.
    pub fn unmask(&self, current: u64) -> (r: u64)
        ensures
            r == current & !(1u64 << Exception::Interrupt(*self).spec_mask_bit()),
    {
        Exception::Interrupt(*self).unmask(current)
    }
}

/// Returns the new value of the hypervisor configuration register that
/// enables physical routing for the provided interrupt, given the current
/// value.
pub fn enable_routing(intr: Interrupt, current: u64) -> (r: u64)
    ensures
        r == current | (1u64 << intr.spec_routing_bit()),
{
    let bit: u64 = match intr {
        Interrupt::SError => 5,
        Interrupt::Irq => 4,
        Interrupt::Fiq => 3,
    };
    current | (1u64 << bit)
}

} // verus!
