//! Tests for the device modules: register-value decoding and the computed
//! register writes.

use expi::cpu::exceptions::{Exception, Interrupt};
use expi::cpu::mp::current_core;
use expi::cpu::Core;
use expi::fdt::property::Reg;
use expi::fdt::{parse_mem_rsv_block, Error as FdtError, Header};
use expi::gpio::{self, Pin};
use expi::intc::{basic_status, gpu_status, GpuIrq, IrqSource};
use expi::local_intc::{IntSource, IntType};
use expi::mailbox;
use expi::print::UartWriter;
use expi::ptr::MemReader;
use expi::systimer::{self, SysTimer};
use expi::uart;

#[test]
fn test_gpio_pin_set_clear() {
    let pin = Pin::new(26).unwrap();
    let (w0, w1) = pin.set();
    assert_eq!(w0.reg, gpio::GPSET_BASE);
    assert_eq!(w0.value, 1 << 26);
    assert_eq!(w1.reg, gpio::GPSET_BASE + 4);
    assert_eq!(w1.value, 0);

    let pin = Pin::new(40).unwrap();
    let (w0, w1) = pin.clear();
    assert_eq!(w0.reg, gpio::GPCLR_BASE);
    assert_eq!(w0.value, 0);
    assert_eq!(w1.reg, gpio::GPCLR_BASE + 4);
    assert_eq!(w1.value, 1 << 8);

    assert!(Pin::new(54).is_err());
}

#[test]
fn test_gpio_levels_events() {
    let levels = gpio::levels(1 << 5, 1 << 1);
    let pin5 = Pin::new(5).unwrap();
    let pin6 = Pin::new(6).unwrap();
    let pin33 = Pin::new(33).unwrap();
    assert!(matches!(pin5.level(&levels), gpio::Level::High));
    assert!(matches!(pin6.level(&levels), gpio::Level::Low));
    assert!(matches!(pin33.level(&levels), gpio::Level::High));

    let events = gpio::events(1 << 7, 0);
    let pin7 = Pin::new(7).unwrap();
    assert!(pin7.detected(&events));
    assert!(!pin5.detected(&events));
}

#[test]
fn test_gpio_event_writes() {
    let pin = Pin::new(3).unwrap();
    let w = pin.enable_event(gpio::Event::RisingEdge, 0x10);
    assert_eq!(w.reg, gpio::GPREN_BASE);
    assert_eq!(w.value, 0x10 | (1 << 3));

    let w = pin.disable_event(gpio::Event::RisingEdge, 0x18);
    assert_eq!(w.reg, gpio::GPREN_BASE);
    assert_eq!(w.value, 0x10);

    let w = pin.clear_event();
    assert_eq!(w.reg, gpio::GPEDS_BASE);
    assert_eq!(w.value, 1 << 3);
}

#[test]
fn test_intc_status_bits() {
    let status = basic_status(1 | (1 << 9));
    assert!(status.pending_arm_timer());
    assert!(!status.pending_arm_mailbox());
    assert!(status.pending_reg_2());
    assert!(!status.pending_gpu_irq_62());

    let status = gpu_status(1 << 2, 1 << (57 - 32));
    assert!(status.pending(IrqSource::SystemTimer2).unwrap());
    assert!(!status.pending(IrqSource::SystemTimer1).unwrap());
    assert!(status.pending(IrqSource::Uart).unwrap());
    assert!(status.pending(IrqSource::Gpu(GpuIrq::new(57).unwrap())).unwrap());
    assert!(status.pending(IrqSource::ArmTimer).is_err());
}

#[test]
fn test_intc_enable_disable() {
    let w = IrqSource::Uart.enable();
    assert_eq!(w.reg, expi::intc::INTEN_BASE + 4);
    assert_eq!(w.value, 1 << 25);

    let w = IrqSource::ArmTimer.disable();
    assert_eq!(w.reg, expi::intc::INTDIS_BASE + 8);
    assert_eq!(w.value, 1);

    let (off, fiq) = IrqSource::SystemTimer1.enable_fiq();
    assert_eq!(off.reg, expi::intc::INTDIS_BASE);
    assert_eq!(off.value, 1 << 1);
    assert_eq!(fiq.reg, expi::intc::FIQCTL);
    assert_eq!(fiq.value, (1 << 7) | 1);
}

#[test]
fn test_local_intc() {
    let w = IntSource::LocalTimer.enable(0);
    assert_eq!(w.reg, expi::local_intc::LOCAL_TIMER_CONTROL_STATUS);
    assert_eq!(w.value, 1 << 29);

    let core = Core::new(2).unwrap();
    let w = IntSource::LocalTimer.route(core, IntType::Fiq).unwrap();
    assert_eq!(w.reg, expi::local_intc::LOCAL_TIMER_INT_ROUTING);
    assert_eq!(w.value, 0b110);

    let (reg, status) = expi::local_intc::irq_status(core, 1 << 11);
    assert_eq!(reg, expi::local_intc::CORE_IRQ_SOURCE_BASE + 8);
    assert!(status.pending_local_timer());
    assert!(!status.pending_cntps());
}

#[test]
fn test_exceptions_mask() {
    let masked = Interrupt::Irq.mask(0);
    assert_eq!(masked, 1 << 7);
    let unmasked = Interrupt::Irq.unmask(masked);
    assert_eq!(unmasked, 0);

    let masked = Exception::Debug.mask(0x40);
    assert_eq!(masked, 0x40 | (1 << 9));
}

#[test]
fn test_core_ids() {
    assert!(Core::new(4).is_err());
    let core = current_core(3);
    assert_eq!(core.value(), 3);
}

#[test]
fn test_systimer() {
    let status = systimer::status(0b0101);
    let t0 = SysTimer::new(0).unwrap();
    let t1 = SysTimer::new(1).unwrap();
    let t2 = SysTimer::new(2).unwrap();
    assert!(t0.matched(&status));
    assert!(!t1.matched(&status));
    assert!(t2.matched(&status));

    let w = t2.clear();
    assert_eq!(w.reg, systimer::SYSTIMER_CS);
    assert_eq!(w.value, 0b100);

    assert_eq!(systimer::counter(1, 2), 0x1_0000_0002);
    assert!(SysTimer::new(4).is_err());
}

#[test]
fn test_fdt_header_parse() {
    let mut blob = vec![0u8; 64];
    blob[0..4].copy_from_slice(&0xd00dfeedu32.to_be_bytes()); // magic
    blob[4..8].copy_from_slice(&64u32.to_be_bytes()); // totalsize
    blob[16..20].copy_from_slice(&40u32.to_be_bytes()); // off_mem_rsvmap
    blob[20..24].copy_from_slice(&17u32.to_be_bytes()); // version
    blob[24..28].copy_from_slice(&16u32.to_be_bytes()); // last_comp_version
    blob[28..32].copy_from_slice(&0xaau32.to_be_bytes()); // boot_cpuid_phys

    let header = Header::parse(0x100, &blob).unwrap();
    assert_eq!(header.ptr(), 0x100);
    assert_eq!(header.totalsize(), 64);
    assert_eq!(header.boot_cpuid_phys(), 0xaa);

    assert!(matches!(
        Header::parse(0x101, &blob),
        Err(FdtError::Unaligned)
    ));

    let mut bad = blob.clone();
    bad[0] = 0;
    assert!(matches!(
        Header::parse(0x100, &bad),
        Err(FdtError::InvalidMagic)
    ));

    let mut bad = blob.clone();
    bad[23] = 18;
    assert!(matches!(
        Header::parse(0x100, &bad),
        Err(FdtError::UnsupportedVersion(18))
    ));
}

#[test]
fn test_fdt_mem_rsv_block() {
    let mut blob = vec![0u8; 48];
    blob[0..8].copy_from_slice(&0x1000u64.to_be_bytes());
    blob[8..16].copy_from_slice(&0x2000u64.to_be_bytes());
    // Terminating pair of zeroes at offset 16.
    let regions = parse_mem_rsv_block(&blob, 0).unwrap();
    assert_eq!(regions.len(), 1);
    assert_eq!(regions[0].address(), 0x1000);
    assert_eq!(regions[0].size(), 0x2000);

    // A block without a terminator runs off the end of the blob.
    let blob = vec![1u8; 24];
    assert!(matches!(
        parse_mem_rsv_block(&blob, 0),
        Err(FdtError::OutOfBounds)
    ));
}

#[test]
fn test_fdt_reg_property() {
    let mut bytes = vec![0u8; 16];
    bytes[0..8].copy_from_slice(&0x3b40_0000u64.to_be_bytes());
    bytes[8..16].copy_from_slice(&0x04c0_0000u64.to_be_bytes());
    let mut reg = Reg::new(bytes, 2, 2);
    let (address, size) = reg.next().unwrap().unwrap();
    assert_eq!(address, 0x3b40_0000);
    assert_eq!(size, 0x4c0_0000);
    assert!(reg.next().is_none());
}

#[test]
fn test_fdt_reg_property_errors() {
    // A field width that is not an unsigned integer width.
    let bytes = vec![0u8; 24];
    let mut reg = Reg::new(bytes, 3, 2);
    assert!(matches!(
        reg.next(),
        Some(Err(FdtError::ConversionError))
    ));
    // After an error the walk is finished for good.
    assert!(reg.next().is_none());
    assert!(reg.next().is_none());

    // Truncated bytes: the bounds are checked before the width.
    let bytes = vec![0u8; 2];
    let mut reg = Reg::new(bytes, 3, 2);
    assert!(matches!(reg.next(), Some(Err(FdtError::OutOfBounds))));

    // A full address but a truncated size field.
    let bytes = vec![0u8; 6];
    let mut reg = Reg::new(bytes, 1, 1);
    assert!(matches!(reg.next(), Some(Err(FdtError::OutOfBounds))));
}

#[test]
fn test_mailbox_request() {
    let tags = mailbox::set_uartclk_freq(3_000_000);
    assert_eq!(tags, vec![0x38002, 12, 0, 2, 3_000_000, 0]);

    let buf = mailbox::build_request(&tags).unwrap();
    assert_eq!(buf.len(), mailbox::MBOX_BUFFER_WORDS);
    assert_eq!(buf[0], 4 * mailbox::MBOX_BUFFER_WORDS as u32);
    assert_eq!(buf[1], 0);
    assert_eq!(&buf[2..8], tags.as_slice());
    assert_eq!(buf[8], 0);

    assert!(mailbox::check_response(mailbox::MBOX_REQ_OK).is_ok());
    assert!(matches!(
        mailbox::check_response(0),
        Err(mailbox::Error::RequestFailed)
    ));

    let too_big = vec![0u32; mailbox::MBOX_BUFFER_WORDS];
    assert!(matches!(
        mailbox::build_request(&too_big),
        Err(mailbox::Error::RequestIsTooBig)
    ));
}

#[test]
fn test_uart_init_writes() {
    let writes = uart::init_writes();
    assert_eq!(writes.len(), 7);
    assert_eq!(writes[0].reg, uart::UARTIMSC);
    assert_eq!(writes[0].value, 0x7f2);
    assert_eq!(writes[3].reg, uart::UARTIBRD);
    assert_eq!(writes[3].value, 1);
    assert_eq!(writes[4].reg, uart::UARTFBRD);
    assert_eq!(writes[4].value, 40);
    assert_eq!(writes[6].reg, uart::UARTCR);
    assert_eq!(writes[6].value, 0x301);
}

#[test]
fn test_uart_writer_encode() {
    let writer = UartWriter;
    let out = writer.encode(b"ab\ncd\n");
    assert_eq!(out, b"ab\r\ncd\r\n");
    let out = writer.encode(b"");
    assert!(out.is_empty());
}

#[test]
fn test_mem_reader_cursor() {
    let mut reader = MemReader::new(0x100);
    assert_eq!(reader.position(), 0x100);
    reader.skip(4);
    assert_eq!(reader.position(), 0x104);
    reader.set_position(0x200);
    assert_eq!(reader.position(), 0x200);
}
