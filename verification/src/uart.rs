//! PL011 UART driver: register map and configuration values.
//!
//! The UART is brought up by a fixed sequence of register writes; the
//! function here computes that sequence, and the surrounding program
//! performs the volatile accesses, the pull-state delays and the mailbox
//! exchange that sets the UART clock.

use vstd::prelude::*;

use crate::gpio;
use crate::mailbox;
use crate::mmio::MmioWrite;

verus! {

/// Base address of the PL011 UART, as an offset from the MMIO base.
pub const UART_BASE: usize = 0x201000;

/// UART data register.
pub const UARTDR: usize = 0x201000;

/// UART flag register.
pub const UARTFR: usize = 0x201018;

/// Receive FIFO empty.
pub const UARTFR_RXFE: u32 = 0x10;

/// Transmit FIFO full.
pub const UARTFR_TXFF: u32 = 0x20;

/// UART integer baud rate register.
pub const UARTIBRD: usize = 0x201024;

/// UART fractional baud rate register.
pub const UARTFBRD: usize = 0x201028;

/// UART line control register.
pub const UARTLCR_H: usize = 0x20102c;

/// UART control register.
pub const UARTCR: usize = 0x201030;

/// UART interrupt mask set/clear register.
pub const UARTIMSC: usize = 0x201038;

/// UART interrupt clear register.
pub const UARTICR: usize = 0x201044;

/// UART error.
#[derive(Debug)]
pub enum Error {
    /// GPIO error.
    GpioError(gpio::Error),

    /// Mailbox error.
    MailboxError(mailbox::Error),
}

/// Returns the register writes that configure the UART after its clock has
/// been set and the pull state of its pins disabled: mask and clear all
/// interrupts, disable the UART, program the baud rate divisor for 115200
/// baud from a 3 MHz clock, select 8n1 with FIFOs, and enable transmit and
/// receive.
pub fn init_writes() -> (r: Vec<MmioWrite>)
    ensures
        r@.len() == 7,
        r@[0] == (MmioWrite { reg: UARTIMSC, value: 0x7f2 }),
        r@[1] == (MmioWrite { reg: UARTICR, value: 0x7ff }),
        r@[2] == (MmioWrite { reg: UARTCR, value: 0 }),
        r@[3] == (MmioWrite { reg: UARTIBRD, value: 1 }),
        r@[4] == (MmioWrite { reg: UARTFBRD, value: 40 }),
        r@[5] == (MmioWrite { reg: UARTLCR_H, value: 0x70 }),
        r@[6] == (MmioWrite { reg: UARTCR, value: 0x301 }),
{
    let mut writes: Vec<MmioWrite> = Vec::new();
    // Mask all UART interrupts. RIMIM, DCDMIM and DSRMIM are unsupported,
    // so their bits stay zero.
    writes.push(MmioWrite {
        reg: UARTIMSC,
        value: (1u32 << 1) | (1u32 << 4) | (1u32 << 5) | (1u32 << 6) | (1u32 << 7) | (1u32
            << 8) | (1u32 << 9) | (1u32 << 10),
    });
    // Clear all UART interrupts.
    writes.push(MmioWrite { reg: UARTICR, value: 0x7ff });
    // Disable UART.
    writes.push(MmioWrite { reg: UARTCR, value: 0 });
    // Configure the baud rate divisor.
    // BRD = UARTCLK / (16 * Baud rate) = 3000000 / (16 * 115200) = 1.6276
    // UARTIBRD = BRDi = 1
    writes.push(MmioWrite { reg: UARTIBRD, value: 1 });
    // UARTFBRD = int((BRDf * 2**6) + 0.5) = int((0.6276 * 64) + 0.5) = 40
    writes.push(MmioWrite { reg: UARTFBRD, value: 40 });
    // Set UART to 8n1 and enable FIFOs.
    writes.push(MmioWrite { reg: UARTLCR_H, value: (1u32 << 4) | (1u32 << 5) | (1u32 << 6) });
    // Enable UART, transmit and receive.
    writes.push(MmioWrite { reg: UARTCR, value: (1u32 << 0) | (1u32 << 8) | (1u32 << 9) });
    proof {
        assert((1u32 << 1) | (1u32 << 4) | (1u32 << 5) | (1u32 << 6) | (1u32 << 7) | (1u32
            << 8) | (1u32 << 9) | (1u32 << 10) == 0x7f2) by (bit_vector);
        assert((1u32 << 4) | (1u32 << 5) | (1u32 << 6) == 0x70) by (bit_vector);
        assert((1u32 << 0) | (1u32 << 8) | (1u32 << 9) == 0x301) by (bit_vector);
    }
    writes
}

} // verus!
