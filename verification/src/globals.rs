//! Global resources.
//!
//! [`GlobalResources`] is the singleton service object that owns the state
//! shared between modules: the free-memory set, the UART writer and the
//! parsed devicetree, each behind its own fair lock. The surrounding
//! program creates the one instance at boot and hands it to every caller.

use vstd::prelude::*;

use crate::fdt::{self, Fdt};
use crate::mm;
use crate::mutex::TicketMutex;
use crate::print::UartWriter;
use crate::range::RangeSet;
use crate::uart;

verus! {

/// Globals error.
#[derive(Debug)]
pub enum Error {
    /// UART error.
    UartError(uart::Error),

    /// Allocator error.
    AllocError(mm::Error),

    /// FDT error.
    FdtError(fdt::Error),
}

/// Contains the global resources shared between modules.
pub struct GlobalResources {
    /// [`RangeSet`] with the free memory regions.
    free_memory: TicketMutex<Option<RangeSet>>,

    /// [`UartWriter`] used to provide safe concurrent access to the UART.
    uart_writer: TicketMutex<Option<UartWriter>>,

    /// Parsed FDT.
    fdt: TicketMutex<Option<Fdt>>,
}

impl GlobalResources {
    /// The free-memory lock, for specifications.
    pub closed spec fn spec_free_memory(self) -> TicketMutex<Option<RangeSet>> {
        self.free_memory
    }

    /// The UART writer lock, for specifications.
    pub closed spec fn spec_uart_writer(self) -> TicketMutex<Option<UartWriter>> {
        self.uart_writer
    }

    /// The FDT lock, for specifications.
    pub closed spec fn spec_fdt(self) -> TicketMutex<Option<Fdt>> {
        self.fdt
    }

    /// Whether the free-memory lock is held.
    pub open spec fn spec_free_locked(self) -> bool {
        self.spec_free_memory().spec_locked()
    }

    /// The free-memory set, absent until initialization. Meaningful while
    /// the free-memory lock is not held.
    pub open spec fn spec_free_set(self) -> Option<RangeSet> {
        match self.spec_free_memory().spec_data() {
            Some(inner) => inner,
            None => None,
        }
    }

    /// The free memory ranges as a mathematical value, absent until
    /// initialization. Meaningful while the free-memory lock is not held.
    pub open spec fn spec_free_view(self) -> Option<Seq<crate::range::Range>> {
        match self.spec_free_set() {
            Some(s) => Some(s@),
            None => None,
        }
    }

    /// The structural invariant: each lock obeys its protocol, and a
    /// free-memory set, once present, is a well-formed range set.
    pub open spec fn inv(self) -> bool {
        &&& self.spec_free_memory().inv()
        &&& self.spec_uart_writer().inv()
        &&& self.spec_fdt().inv()
        &&& match self.spec_free_memory().spec_data() {
            Some(Some(set)) => set.inv(),
            _ => true,
        }
    }

    /// Whether the free-memory lock can be taken: it is not held, and its
    /// ticket counter has headroom.
    pub open spec fn spec_free_ready(self) -> bool {
        &&& !self.spec_free_memory().spec_locked()
        &&& self.spec_free_memory().spec_next_ticket() < usize::MAX
    }

    /// Whether the UART writer lock can be taken.
    pub open spec fn spec_uart_ready(self) -> bool {
        &&& !self.spec_uart_writer().spec_locked()
        &&& self.spec_uart_writer().spec_next_ticket() < usize::MAX
    }

    /// Whether the FDT lock can be taken.
    pub open spec fn spec_fdt_ready(self) -> bool {
        &&& !self.spec_fdt().spec_locked()
        &&& self.spec_fdt().spec_next_ticket() < usize::MAX
    }

    /// Creates a new [`GlobalResources`] structure with every resource
    /// uninitialized.
    pub fn new() -> (r: GlobalResources)
        ensures
            r.inv(),
            r.spec_free_ready(),
            r.spec_uart_ready(),
            r.spec_fdt_ready(),
            r.spec_free_set() is None,
            r.spec_free_memory().spec_next_ticket() == 0,
            r.spec_uart_writer().spec_data() == Some(Option::<UartWriter>::None),
            r.spec_fdt().spec_data() == Some(Option::<Fdt>::None),
    {
        GlobalResources {
            free_memory: TicketMutex::new(None),
            uart_writer: TicketMutex::new(None),
            fdt: TicketMutex::new(None),
        }
    }

    /// Returns the lock protecting the list of free memory regions.
    pub fn free_memory(&mut self) -> (r: &mut TicketMutex<Option<RangeSet>>)
        ensures
            *r == old(self).spec_free_memory(),
            final(self).spec_free_memory() == *final(r),
            final(self).spec_uart_writer() == old(self).spec_uart_writer(),
            final(self).spec_fdt() == old(self).spec_fdt(),
    {
        &mut self.free_memory
    }

    /// Returns the lock protecting the UART writer.
    pub fn uart_writer(&mut self) -> (r: &mut TicketMutex<Option<UartWriter>>)
        ensures
            *r == old(self).spec_uart_writer(),
            final(self).spec_uart_writer() == *final(r),
            final(self).spec_free_memory() == old(self).spec_free_memory(),
            final(self).spec_fdt() == old(self).spec_fdt(),
    {
        &mut self.uart_writer
    }

    /// Returns the lock protecting the parsed FDT.
    pub fn fdt(&mut self) -> (r: &mut TicketMutex<Option<Fdt>>)
        ensures
            *r == old(self).spec_fdt(),
            final(self).spec_fdt() == *final(r),
            final(self).spec_free_memory() == old(self).spec_free_memory(),
            final(self).spec_uart_writer() == old(self).spec_uart_writer(),
    {
        &mut self.fdt
    }
}

/// Initializes the global resources: publishes the UART writer, builds the
/// free-memory set from the usable regions minus the excluded ones, and
/// stores the parsed devicetree. Each step is idempotent.
///
/// # Errors
///
/// This function returns `Error::AllocError` when the free-memory set
/// cannot track the regions; the free memory then stays uninitialized.
pub fn init(
    globals: &mut GlobalResources,
    usable: &Vec<(u64, u64)>,
    reserved: &Vec<(u64, u64)>,
    fdt: Fdt,
) -> (r: Result<(), Error>)
    requires
        old(globals).inv(),
        old(globals).spec_free_ready(),
        old(globals).spec_uart_ready(),
        old(globals).spec_fdt_ready(),
        mm::regions_wf(usable@),
        mm::regions_wf(reserved@),
    ensures
        final(globals).inv(),
        !final(globals).spec_free_locked(),
        final(globals).spec_free_memory().spec_next_ticket() <= old(globals)
            .spec_free_memory().spec_next_ticket() + 1,
        old(globals).spec_free_memory().spec_next_ticket() + 1 < usize::MAX
            ==> final(globals).spec_free_ready(),
        final(globals).spec_uart_writer().spec_next_ticket() <= old(globals)
            .spec_uart_writer().spec_next_ticket() + 1,
        old(globals).spec_uart_writer().spec_next_ticket() + 1 < usize::MAX
            ==> final(globals).spec_uart_ready(),
        final(globals).spec_fdt().spec_next_ticket() <= old(globals).spec_fdt()
            .spec_next_ticket() + 1,
        old(globals).spec_fdt().spec_next_ticket() + 1 < usize::MAX
            ==> final(globals).spec_fdt_ready(),
        old(globals).spec_free_view() matches Some(v) ==> r is Ok && final(globals)
            .spec_free_view() == Some(v),
        old(globals).spec_free_view() is None ==> match r {
            Ok(()) => final(globals).spec_free_view() matches Some(v) && forall|a: u64|
                crate::range::covered(v, a) <==> (mm::region_covers(usable@, a)
                    && !mm::region_covers(reserved@, a)),
            Err(e) => (e matches Error::AllocError(mm::Error::RangeError(
                crate::range::Error::FullRangeSet,
            ))) && final(globals).spec_free_view() is None,
        },
        old(globals).spec_free_view() is None && usable@.len() + reserved@.len()
            <= crate::range::RANGE_SET_SIZE ==> r is Ok,
        r is Ok ==> (final(globals).spec_uart_writer().spec_data() matches Some(w)
            && w is Some),
{
    // Publish the UART writer so that printing works.
    let uw = globals.uart_writer();
    let mut uw_guard = uw.lock();
    if uw_guard.data.is_none() {
        uw_guard.data = Some(UartWriter);
    }
    uw.unlock(uw_guard);

    // Initialize the free-memory set.
    match mm::init(globals, usable, reserved) {
        Ok(()) => {},
        Err(e) => {
            return Err(Error::AllocError(e));
        },
    }

    // Store the parsed devicetree.
    let fl = globals.fdt();
    let mut fdt_guard = fl.lock();
    if fdt_guard.data.is_none() {
        fdt_guard.data = Some(fdt);
    }
    fl.unlock(fdt_guard);

    Ok(())
}

} // verus!
