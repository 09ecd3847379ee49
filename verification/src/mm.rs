//! Memory management.
//!
//! [`GlobalAllocator`] implements the kernel's dynamic-memory hook on top of
//! the lock-protected free-memory [`RangeSet`]: allocation is a first-fit
//! scan over the free ranges followed by a removal, deallocation an
//! insertion that merges the freed block with its free neighbours.
//! Requested sizes are rounded up onto a small ladder of size classes so
//! that freed blocks exactly match later requests of the same shape.

use vstd::prelude::*;

use crate::fdt;
use crate::globals::GlobalResources;
use crate::range;
use crate::range::{canonical, covered, Range, RangeSet, RANGE_SET_SIZE};

verus! {

/// Base address of the kernel.
pub const KERNEL_BASE: u64 = 0x80000;

/// Maximum kernel size.
///
/// A memory region of 16 MiB starting at [`KERNEL_BASE`] is reserved for
/// the kernel when the global allocator is initialized.
pub const KERNEL_MAX_SIZE: u64 = 16 * 1024 * 1024;

/// Memory management error.
#[derive(Debug)]
pub enum Error {
    /// Could not find a memory node in the devicetree.
    MissingMemoryNode,

    /// The global allocator has not been initialized.
    Uninitialized,

    /// Alignment must not be zero and it must be a power of two.
    InvalidAlign,

    /// Could not find a suitable memory region for the allocation.
    NotSatisfiable,

    /// The provided pointer cannot be null.
    NullPtr,

    /// The provided size cannot be zero.
    ZeroSize,

    /// An arithmetic operation caused an integer overflow.
    IntegerOverflow,

    /// FDT error.
    FdtError(fdt::Error),

    /// Error while dealing with ranges.
    RangeError(range::Error),
}

/// Whether `x` is a power of two.
pub open spec fn spec_is_pow2(x: u64) -> bool {
    exists|k: u64| k < 64 && x == (1u64 << k)
}

/// Returns `true` if `x` is a power of two: exactly one bit is set.
pub fn is_power_of_two(x: u64) -> (r: bool)
    ensures
        r == spec_is_pow2(x),
{
    let mut k: u64 = 0;
    while k < 64
        invariant
            k <= 64,
            forall|j: u64| j < k ==> x != (1u64 << j),
        decreases 64 - k,
    {
        if x == 1u64 << k {
            return true;
        }
        k += 1;
    }
    false
}

/// The lowest multiple of `align` that is not below `addr`.
pub open spec fn spec_align_up(addr: int, align: int) -> int {
    ((addr + align - 1) / align) * align
}

/// Rounds `addr` up to the next multiple of `align`, a power of two, by
/// adding `align - 1` and masking the low bits off, or reports that the
/// addition does not fit in an address.
fn align_up(addr: u64, align: u64) -> (r: Option<u64>)
    requires
        spec_is_pow2(align),
    ensures
        addr + align - 1 > u64::MAX ==> r is None,
        addr + align - 1 <= u64::MAX ==> r == Some(spec_align_up(addr as int, align as int)
            as u64),
        r matches Some(a) ==> {
            &&& a == spec_align_up(addr as int, align as int)
            &&& a % align == 0
            &&& addr <= a < addr + align
        },
{
    proof {
        let k = choose|k: u64| k < 64 && align == (1u64 << k);
        assert(k < 64 ==> 1u64 << k >= 1) by (bit_vector);
    }
    let mask = align - 1;
    let sum = match addr.checked_add(mask) {
        Some(s) => s,
        None => {
            return None;
        },
    };
    let aligned = sum & !mask;
    proof {
        let k = choose|k: u64| k < 64 && align == (1u64 << k);
        lemma_mask_align(sum, align, mask, k);
    }
    Some(aligned)
}

/// Masking the low `k` bits off rounds down to the enclosing multiple of
/// `2^k`.
proof fn lemma_mask_align(sum: u64, align: u64, mask: u64, k: u64)
    requires
        k < 64,
        align == (1u64 << k),
        mask + 1 == align,
    ensures
        sum & !mask == (sum / align) * align,
        (sum / align) * align == sum - sum % align,
        0 <= sum % align < align,
        ((sum / align) * align) % (align as int) == 0,
{
    assert((k < 64 && mask + 1 == (1u64 << k)) ==> ((sum & !mask) == ((sum >> k) << k)
        && ((sum >> k) << k) <= sum)) by (bit_vector);
    vstd::bits::lemma_u64_pow2_no_overflow(k as nat);
    vstd::bits::lemma_u64_shl_is_mul(1u64, k);
    assert(align == vstd::arithmetic::power2::pow2(k as nat));
    vstd::bits::lemma_u64_shr_is_div(sum, k);
    assert(sum >> k == sum as int / align as int);
    assert(0 <= sum % align < align) by (nonlinear_arith)
        requires
            align > 0,
    ;
    assert((sum as int / align as int) * align == sum - sum % align) by (nonlinear_arith)
        requires
            align > 0,
    ;
    vstd::bits::lemma_u64_shl_is_mul((sum >> k), k);
    assert(((sum as int / align as int) * align) % (align as int) == 0) by (nonlinear_arith)
        requires
            align > 0,
    ;
}

/// Returns the allocation size for a given request.
///
/// It reduces fragmentation by grouping small allocations into frequent
/// allocation sizes: the requested size, padded to the requested alignment,
/// is rounded up to the nearest of 32, 64, 128, 256 or 512 bytes; larger
/// requests are used as they are.
pub open spec fn spec_alloc_size(size: int, align: int) -> int {
    let padded = spec_align_up(size, align);
    if padded <= 32 {
        32
    } else if padded <= 64 {
        64
    } else if padded <= 128 {
        128
    } else if padded <= 256 {
        256
    } else if padded <= 512 {
        512
    } else {
        padded
    }
}

/// Returns the allocation size for a given request; see
/// [`spec_alloc_size`].
pub fn alloc_size(size: usize, align: usize) -> (r: u64)
    requires
        spec_is_pow2(align as u64),
        size + align - 1 <= u64::MAX,
    ensures
        r == spec_alloc_size(size as int, align as int),
        32 <= r,
{
    let padded = match align_up(size as u64, align as u64) {
        Some(p) => p,
        None => {
            proof {
                assert(false);
            }
            vstd::pervasive::unreached()
        },
    };

    if padded <= 32 {
        32
    } else if padded <= 64 {
        64
    } else if padded <= 128 {
        128
    } else if padded <= 256 {
        256
    } else if padded <= 512 {
        512
    } else {
        padded
    }
}

/// Whether computing the aligned candidate address inside `e` overflows:
/// either while aligning the start of the range, or while adding the
/// allocation size to the aligned address.
pub open spec fn spec_entry_overflow(e: Range, asz: int, align: int) -> bool {
    e.spec_start() + align - 1 > u64::MAX || spec_align_up(e.spec_start() as int, align)
        + asz - 1 > u64::MAX
}

/// Whether an allocation of `asz` bytes aligned to `align` fits in `e`.
pub open spec fn spec_entry_fits(e: Range, asz: int, align: int) -> bool {
    !spec_entry_overflow(e, asz, align) && spec_align_up(e.spec_start() as int, align) + asz
        - 1 <= e.spec_end()
}

/// The outcome of the first-fit scan over the free ranges.
pub enum FitResult {
    /// The first range that can hold the allocation starts it at this
    /// address.
    Fits(u64),

    /// Computing the candidate address overflowed before any range fit.
    Overflow,

    /// No range can hold the allocation.
    NoFit,
}

/// The first-fit scan: walks the ranges in ascending order and reports the
/// aligned start address inside the first range that can hold the
/// allocation, an overflow met before that, or that none fits.
pub open spec fn spec_find_fit(s: Seq<Range>, asz: int, align: int) -> FitResult
    decreases s.len(),
{
    if s.len() == 0 {
        FitResult::NoFit
    } else if spec_entry_overflow(s[0], asz, align) {
        FitResult::Overflow
    } else if spec_entry_fits(s[0], asz, align) {
        FitResult::Fits(spec_align_up(s[0].spec_start() as int, align) as u64)
    } else {
        spec_find_fit(s.drop_first(), asz, align)
    }
}

/// A step of the first-fit scan: a range that neither overflows nor fits
/// does not change the outcome.
proof fn lemma_find_fit_skip(s: Seq<Range>, i: int, asz: int, align: int)
    requires
        0 <= i < s.len(),
        !spec_entry_overflow(s[i], asz, align),
        !spec_entry_fits(s[i], asz, align),
    ensures
        spec_find_fit(s.skip(i), asz, align) == spec_find_fit(s.skip(i + 1), asz, align),
{
    assert(s.skip(i)[0] == s[i]);
    assert(s.skip(i).drop_first() =~= s.skip(i + 1));
}


/// Carves a first-fit allocation of the given size class out of the free
/// set: the verified core of [`GlobalAllocator::try_alloc`].
#[verifier::loop_isolation(false)]
#[verifier::rlimit(100)]
fn alloc_from(free_mem: &mut RangeSet, size: usize, align: usize) -> (r: Result<u64, Error>)
    requires
        old(free_mem).inv(),
        spec_is_pow2(align as u64),
        size + align - 1 <= u64::MAX,
    ensures
        final(free_mem).inv(),
        ({
            let asz = spec_alloc_size(size as int, align as int);
            match spec_find_fit(old(free_mem)@, asz, align as int) {
                FitResult::Overflow => r == Err::<u64, Error>(Error::IntegerOverflow)
                    && final(free_mem)@ == old(free_mem)@,
                FitResult::NoFit => r == Err::<u64, Error>(Error::NotSatisfiable)
                    && final(free_mem)@ == old(free_mem)@,
                FitResult::Fits(addr) => {
                    if old(free_mem)@.len() == RANGE_SET_SIZE && (exists|k: int|
                        0 <= k < old(free_mem)@.len() && (#[trigger] old(free_mem)@[k])
                            .spec_start() < addr && addr + asz - 1 < old(
                            free_mem,
                        )@[k].spec_end()) {
                        r == Err::<u64, Error>(Error::RangeError(range::Error::FullRangeSet))
                            && final(free_mem)@ == old(free_mem)@
                    } else {
                        &&& r == Ok::<u64, Error>(addr)
                        &&& forall|a: u64|
                            covered(final(free_mem)@, a) <==> (covered(old(free_mem)@, a)
                                && !(addr <= a <= addr + asz - 1))
                    }
                },
            }
        }),
{
    let ghost set0 = *free_mem;
    let size_cls = alloc_size(size, align);
    let align64 = align as u64;
    proof {
        let k = choose|k: u64| k < 64 && align64 == (1u64 << k);
        assert(k < 64 ==> 1u64 << k >= 1) by (bit_vector);
    }

    let ghost asz = spec_alloc_size(size as int, align as int);
    let mut i: usize = 0;
    let n = free_mem.ranges().len();
    proof {
        assert(set0@.skip(0) =~= set0@);
    }
    while i < n
        invariant
            n == set0@.len(),
            *free_mem == set0,
            i <= n,
            spec_find_fit(set0@, asz, align as int) == spec_find_fit(
                set0@.skip(i as int),
                asz,
                align as int,
            ),
        decreases n - i,
    {
        let region = free_mem.ranges()[i];
        proof {
            assert(set0@.skip(i as int)[0] == set0@[i as int]);
        }
        let start = match region.start().checked_add(align64 - 1) {
            Some(s) => s & !(align64 - 1),
            None => {
                proof {
                    assert(spec_entry_overflow(set0@[i as int], asz, align as int));
                }
                return Err(Error::IntegerOverflow);
            },
        };
        proof {
            let k = choose|k: u64| k < 64 && align64 == (1u64 << k);
            lemma_mask_align((region.spec_start() + align64 - 1) as u64, align64,
                (align64 - 1) as u64, k);
            assert(start == spec_align_up(region.spec_start() as int, align as int));
        }
        let end = match start.checked_add(size_cls - 1) {
            Some(e) => e,
            None => {
                proof {
                    assert(spec_entry_overflow(set0@[i as int], asz, align as int));
                }
                return Err(Error::IntegerOverflow);
            },
        };
        if end <= region.end() {
            let reserved = match Range::new(start, end) {
                Ok(range) => range,
                Err(_) => {
                    proof {
                        assert(false);
                    }
                    vstd::pervasive::unreached()
                },
            };
            proof {
                assert(!spec_entry_overflow(set0@[i as int], asz, align as int));
                assert(spec_entry_fits(set0@[i as int], asz, align as int));
                assert(spec_find_fit(set0@, asz, align as int) == FitResult::Fits(start));
            }
            let result = match free_mem.remove(reserved) {
                Ok(()) => Ok(reserved.start()),
                Err(e) => Err(Error::RangeError(e)),
            };
            proof {
                if result is Ok {
                    assert forall|a: u64|
                        covered(free_mem@, a) <==> (covered(set0@, a) && !(start <= a
                            <= start + asz - 1)) by {
                        assert(covered(free_mem@, a) <==> (covered(set0@, a)
                            && !reserved.spec_contains_point(a)));
                    }
                }
            }
            return result;
        }
        proof {
            lemma_find_fit_skip(set0@, i as int, asz, align as int);
        }
        i += 1;
    }

    proof {
        assert(set0@.skip(n as int) =~= Seq::<Range>::empty());
    }
    return Err(Error::NotSatisfiable);
}

/// Inserts a freed block back into the free set: the verified core of
/// [`GlobalAllocator::try_dealloc`].
#[verifier::rlimit(100)]
fn dealloc_into(free_mem: &mut RangeSet, addr: u64, size: usize, align: usize) -> (r: Result<
    (),
    Error,
>)
    requires
        old(free_mem).inv(),
        spec_is_pow2(align as u64),
        size + align - 1 <= u64::MAX,
        addr != 0,
    ensures
        final(free_mem).inv(),
        ({
            let asz = spec_alloc_size(size as int, align as int);
            if addr + asz - 1 > u64::MAX {
                r == Err::<(), Error>(Error::IntegerOverflow) && final(free_mem)@ == old(
                    free_mem,
                )@
            } else if old(free_mem)@.len() == RANGE_SET_SIZE && (forall|k: int|
                0 <= k < old(free_mem)@.len() ==> (#[trigger] old(free_mem)@[k])
                    .spec_start() != addr) {
                r == Err::<(), Error>(Error::RangeError(range::Error::FullRangeSet))
                    && final(free_mem)@ == old(free_mem)@
            } else {
                &&& r is Ok
                &&& forall|a: u64|
                    covered(final(free_mem)@, a) <==> (covered(old(free_mem)@, a) || (
                    addr <= a <= addr + asz - 1))
            }
        }),
{
    let size_cls = alloc_size(size, align);

    let end = match addr.checked_add(size_cls - 1) {
        Some(e) => e,
        None => {
            return Err(Error::IntegerOverflow);
        },
    };
    let reserved = match Range::new(addr, end) {
        Ok(range) => range,
        Err(_) => {
            proof {
                assert(false);
            }
            vstd::pervasive::unreached()
        },
    };

    let ghost set0 = *old(free_mem);
    let result = match free_mem.insert(reserved) {
        Ok(()) => Ok(()),
        Err(e) => Err(Error::RangeError(e)),
    };
    proof {
        if result is Ok {
            assert forall|a: u64|
                covered(free_mem@, a) <==> (covered(set0@, a) || (addr <= a <= addr
                    + spec_alloc_size(size as int, align as int) - 1)) by {
                assert(covered(free_mem@, a) <==> (covered(set0@, a)
                    || reserved.spec_contains_point(a)));
            }
        }
    }
    result
}

/// A simple allocator for the kernel's dynamic-memory hook.
///
/// It owns no data of its own: all state lives in the single lock-protected
/// free-memory set of the [`GlobalResources`] it operates on.
pub struct GlobalAllocator;

impl GlobalAllocator {
    /// Tries to allocate `size` bytes aligned to `align`, scanning the free
    /// ranges in ascending order and carving the allocation out of the
    /// first one that can hold it.
    ///
    /// A zero-size request is a legal no-op and returns the null address.
    /// A block carved out at address zero is also returned as 0: it cannot
    /// be told apart from the no-op and [`GlobalAllocator::try_dealloc`]
    /// refuses it as the null address. The boot flow never frees address
    /// zero, since [`init`] excludes the kernel region starting there.
    ///
    /// # Errors
    ///
    /// `InvalidAlign` when the alignment is not a power of two;
    /// `Uninitialized` before [`init`]; `IntegerOverflow` when computing a
    /// candidate address overflows; `NotSatisfiable` when no free range can
    /// hold the allocation; `RangeError` when carving the allocation out
    /// would split a range and the set is full. In every error case the
    /// free ranges are left unchanged.
    #[verifier::loop_isolation(false)]
    #[verifier::rlimit(100)]
    pub fn try_alloc(&self, globals: &mut GlobalResources, size: usize, align: usize) -> (r:
        Result<u64, Error>)
        requires
            old(globals).inv(),
            old(globals).spec_free_ready(),
            size + align - 1 <= u64::MAX,
        ensures
            final(globals).inv(),
            !final(globals).spec_free_locked(),
            final(globals).spec_free_memory().spec_next_ticket() <= old(globals)
                .spec_free_memory().spec_next_ticket() + 1,
            old(globals).spec_free_memory().spec_next_ticket() + 1 < usize::MAX
                ==> final(globals).spec_free_ready(),
            final(globals).spec_uart_writer() == old(globals).spec_uart_writer(),
            final(globals).spec_fdt() == old(globals).spec_fdt(),
            size == 0 ==> r == Ok::<u64, Error>(0) && *final(globals) == *old(globals),
            size != 0 && !spec_is_pow2(align as u64) ==> r == Err::<u64, Error>(
                Error::InvalidAlign,
            ) && *final(globals) == *old(globals),
            size != 0 && spec_is_pow2(align as u64) ==> match old(globals).spec_free_view() {
                None => r == Err::<u64, Error>(Error::Uninitialized) && final(globals)
                    .spec_free_view() is None,
                Some(v) => {
                let asz = spec_alloc_size(size as int, align as int);
                match spec_find_fit(v, asz, align as int) {
                    FitResult::Overflow => r == Err::<u64, Error>(Error::IntegerOverflow)
                        && final(globals).spec_free_view() == Some(v),
                    FitResult::NoFit => r == Err::<u64, Error>(Error::NotSatisfiable)
                        && final(globals).spec_free_view() == Some(v),
                    FitResult::Fits(addr) => {
                        if v.len() == RANGE_SET_SIZE && (exists|k: int|
                            0 <= k < v.len() && (#[trigger] v[k]).spec_start() < addr
                                && addr + asz - 1 < v[k].spec_end()) {
                            r == Err::<u64, Error>(Error::RangeError(
                                range::Error::FullRangeSet,
                            )) && final(globals).spec_free_view() == Some(v)
                        } else {
                            &&& r == Ok::<u64, Error>(addr)
                            &&& final(globals).spec_free_view() matches Some(after)
                            &&& forall|a: u64|
                                covered(after, a) <==> (covered(v, a)
                                    && !(addr <= a <= addr + asz - 1))
                        }
                    },
                }
                },
            },
    {
        if size == 0 {
            return Ok(0);
        }

        if !is_power_of_two(align as u64) {
            return Err(Error::InvalidAlign);
        }

        let fm = globals.free_memory();
        let mut guard = fm.lock();

        let mut free_mem = match guard.data.take() {
            Some(fm_set) => fm_set,
            None => {
                fm.unlock(guard);
                return Err(Error::Uninitialized);
            },
        };

        let result = alloc_from(&mut free_mem, size, align);
        guard.data = Some(free_mem);
        fm.unlock(guard);
        result
    }

    /// Tries to deallocate the block at `addr` that was allocated with the
    /// given `size` and `align`: the same size class is recomputed, so the
    /// freed range exactly matches what the allocation removed, and is
    /// inserted back into the free set, merging with any free neighbours.
    ///
    /// # Errors
    ///
    /// `NullPtr` for the null address, `ZeroSize` for an empty block,
    /// `InvalidAlign` when the alignment is not a power of two,
    /// `Uninitialized` before [`init`], `IntegerOverflow` when the end of
    /// the block overflows, and `RangeError` when the free set cannot track
    /// the freed range. In every error case the free ranges are left
    /// unchanged.
    #[verifier::rlimit(100)]
    pub fn try_dealloc(&self, globals: &mut GlobalResources, addr: u64, size: usize,
        align: usize) -> (r: Result<(), Error>)
        requires
            old(globals).inv(),
            old(globals).spec_free_ready(),
            size + align - 1 <= u64::MAX,
        ensures
            final(globals).inv(),
            !final(globals).spec_free_locked(),
            final(globals).spec_free_memory().spec_next_ticket() <= old(globals)
                .spec_free_memory().spec_next_ticket() + 1,
            old(globals).spec_free_memory().spec_next_ticket() + 1 < usize::MAX
                ==> final(globals).spec_free_ready(),
            final(globals).spec_uart_writer() == old(globals).spec_uart_writer(),
            final(globals).spec_fdt() == old(globals).spec_fdt(),
            addr == 0 ==> r == Err::<(), Error>(Error::NullPtr) && *final(globals)
                == *old(globals),
            addr != 0 && size == 0 ==> r == Err::<(), Error>(Error::ZeroSize)
                && *final(globals) == *old(globals),
            addr != 0 && size != 0 && !spec_is_pow2(align as u64) ==> r == Err::<(), Error>(
                Error::InvalidAlign,
            ) && *final(globals) == *old(globals),
            addr != 0 && size != 0 && spec_is_pow2(align as u64) ==> ({
                let asz = spec_alloc_size(size as int, align as int);
                match old(globals).spec_free_view() {
                    None => r == Err::<(), Error>(Error::Uninitialized) && final(globals)
                        .spec_free_view() is None,
                    Some(v) => {
                        if addr + asz - 1 > u64::MAX {
                            r == Err::<(), Error>(Error::IntegerOverflow) && final(globals)
                                .spec_free_view() == Some(v)
                        } else if v.len() == RANGE_SET_SIZE && (forall|k: int|
                            0 <= k < v.len() ==> (#[trigger] v[k]).spec_start()
                                != addr) {
                            r == Err::<(), Error>(Error::RangeError(
                                range::Error::FullRangeSet,
                            )) && final(globals).spec_free_view() == Some(v)
                        } else {
                            &&& r is Ok
                            &&& final(globals).spec_free_view() matches Some(after)
                            &&& forall|a: u64|
                                covered(after, a) <==> (covered(v, a)
                                    || (addr <= a <= addr + asz - 1))
                        }
                    },
                }
            }),
    {
        if addr == 0 {
            return Err(Error::NullPtr);
        }

        if size == 0 {
            return Err(Error::ZeroSize);
        }

        if !is_power_of_two(align as u64) {
            return Err(Error::InvalidAlign);
        }

        let fm = globals.free_memory();
        let mut guard = fm.lock();

        let mut free_mem = match guard.data.take() {
            Some(fm_set) => fm_set,
            None => {
                fm.unlock(guard);
                return Err(Error::Uninitialized);
            },
        };

        let result = dealloc_into(&mut free_mem, addr, size, align);
        guard.data = Some(free_mem);
        fm.unlock(guard);
        result
    }
}



/// Rounding up to a positive alignment never moves an address down, and
/// moves it up by less than one alignment step.
pub proof fn lemma_align_up_ge(x: int, align: int)
    requires
        align >= 1,
        x >= 0,
    ensures
        x <= spec_align_up(x, align) < x + align,
{
    assert(x <= ((x + align - 1) / align) * align < x + align) by (nonlinear_arith)
        requires
            align >= 1,
            x >= 0,
    ;
}

/// The address reported by the first-fit scan starts a block that lies
/// entirely inside free memory.
pub proof fn lemma_find_fit_covered(s: Seq<Range>, asz: int, align: int, addr: u64)
    requires
        spec_find_fit(s, asz, align) == FitResult::Fits(addr),
        forall|i: int| 0 <= i < s.len() ==> (#[trigger] s[i]).inv(),
        asz >= 1,
        align >= 1,
    ensures
        forall|a: u64| addr <= a <= addr + asz - 1 ==> covered(s, a),
    decreases s.len(),
{
    if s.len() == 0 {
    } else if spec_entry_overflow(s[0], asz, align) {
    } else if spec_entry_fits(s[0], asz, align) {
        lemma_align_up_ge(s[0].spec_start() as int, align);
        assert forall|a: u64| addr <= a <= addr + asz - 1 implies covered(s, a) by {
            assert(s[0].spec_contains_point(a));
        }
    } else {
        let t = s.drop_first();
        assert(forall|i: int| 0 <= i < t.len() ==> #[trigger] t[i] == s[i + 1]);
        lemma_find_fit_covered(t, asz, align, addr);
        assert forall|a: u64| addr <= a <= addr + asz - 1 implies covered(s, a) by {
            assert(covered(t, a));
            let k = choose|k: int| 0 <= k < t.len() && (#[trigger] t[k])
                .spec_contains_point(a);
            assert(s[k + 1].spec_contains_point(a));
        }
    }
}

/// Deallocating exactly the block an allocation carved out restores the
/// free ranges exactly: the canonical form of the restored set is the
/// original list itself.
pub proof fn lemma_alloc_dealloc_roundtrip(
    v0: Seq<Range>,
    v1: Seq<Range>,
    v2: Seq<Range>,
    addr: u64,
    asz: int,
)
    requires
        canonical(v0),
        canonical(v2),
        forall|a: u64| covered(v1, a) <==> (covered(v0, a) && !(addr <= a <= addr + asz
            - 1)),
        forall|a: u64| covered(v2, a) <==> (covered(v1, a) || (addr <= a <= addr + asz
            - 1)),
        forall|a: u64| addr <= a <= addr + asz - 1 ==> covered(v0, a),
    ensures
        v2 =~= v0,
{
    assert forall|a: u64| covered(v2, a) == covered(v0, a) by {
        assert(covered(v2, a) <==> (covered(v1, a) || (addr <= a <= addr + asz - 1)));
        assert(covered(v1, a) <==> (covered(v0, a) && !(addr <= a <= addr + asz - 1)));
    }
    range::lemma_canonical_same_cover_equal(v2, v0);
}

/// Memory is conserved: a successful allocation shrinks the free memory by
/// exactly the allocation size, so the sizes of the blocks handed out plus
/// the remaining free memory always add up to the initial total.
pub proof fn lemma_alloc_conserves_size(v0: Seq<Range>, v1: Seq<Range>, addr: u64, asz: int)
    requires
        canonical(v0),
        canonical(v1),
        asz >= 1,
        addr + asz - 1 <= u64::MAX,
        forall|a: u64| covered(v1, a) <==> (covered(v0, a) && !(addr <= a <= addr + asz
            - 1)),
        forall|a: u64| addr <= a <= addr + asz - 1 ==> covered(v0, a),
    ensures
        range::seq_total_size(v1) == range::seq_total_size(v0) - asz,
{
    range::lemma_size_after_interval_removed(v0, v1, addr, (addr + asz - 1) as u64);
}

/// Two allocations carved out one after the other never hand out
/// overlapping blocks: the second is carved from memory the first already
/// left free.
pub proof fn lemma_allocations_disjoint(
    v0: Seq<Range>,
    v1: Seq<Range>,
    addr1: u64,
    asz1: int,
    addr2: u64,
    asz2: int,
)
    requires
        asz1 >= 1,
        asz2 >= 1,
        addr1 + asz1 - 1 <= u64::MAX,
        addr2 + asz2 - 1 <= u64::MAX,
        forall|a: u64| covered(v1, a) <==> (covered(v0, a) && !(addr1 <= a <= addr1 + asz1
            - 1)),
        forall|a: u64| addr2 <= a <= addr2 + asz2 - 1 ==> covered(v1, a),
    ensures
        addr1 + asz1 - 1 < addr2 || addr2 + asz2 - 1 < addr1,
{
    if addr1 + asz1 - 1 >= addr2 && addr2 + asz2 - 1 >= addr1 {
        let m: u64 = if addr1 >= addr2 {
            addr1
        } else {
            addr2
        };
        assert(addr2 <= m <= addr2 + asz2 - 1);
        assert(covered(v1, m));
        assert(false);
    }
}

/// Whether the point `a` lies in one of the `(base, size)` regions.
pub open spec fn region_covers(regions: Seq<(u64, u64)>, a: u64) -> bool {
    exists|i: int| 0 <= i < regions.len() && (#[trigger] regions[i]).0 <= a && a < regions[i].0
        + regions[i].1
}

/// Whether every `(base, size)` region is well formed: not empty, and not
/// reaching past the end of the address space.
pub open spec fn regions_wf(regions: Seq<(u64, u64)>) -> bool {
    forall|i: int| 0 <= i < regions.len() ==> (#[trigger] regions[i]).1 >= 1 && regions[i].0
        + regions[i].1 - 1 <= u64::MAX
}

/// One more region covers its own points on top of those of the prefix.
proof fn lemma_region_take_step(regions: Seq<(u64, u64)>, i: int)
    requires
        0 <= i < regions.len(),
    ensures
        forall|a: u64| region_covers(regions.take(i + 1), a) <==> (region_covers(
            regions.take(i),
            a,
        ) || (regions[i].0 <= a < regions[i].0 + regions[i].1)),
{
    let t = regions.take(i + 1);
    let pre = regions.take(i);
    assert forall|a: u64| region_covers(t, a) implies (region_covers(pre, a) || (
        regions[i].0 <= a < regions[i].0 + regions[i].1)) by {
        let k = choose|k: int| 0 <= k < t.len() && (#[trigger] t[k]).0 <= a && a < t[k].0
            + t[k].1;
        if k < i {
            assert(pre[k].0 <= a < pre[k].0 + pre[k].1);
        }
    }
    assert forall|a: u64| (region_covers(pre, a) || (regions[i].0 <= a < regions[i].0
        + regions[i].1)) implies region_covers(t, a) by {
        if region_covers(pre, a) {
            let k = choose|k: int| 0 <= k < pre.len() && (#[trigger] pre[k]).0 <= a && a
                < pre[k].0 + pre[k].1;
            assert(t[k].0 <= a < t[k].0 + t[k].1);
        } else {
            assert(t[i].0 <= a < t[i].0 + t[i].1);
        }
    }
}

/// Initializes the free-memory set with the list of usable memory regions,
/// minus the regions to exclude. It is idempotent: once the set holds a
/// value, later calls return immediately without re-initializing.
///
/// # Errors
///
/// This function returns `Error::RangeError` when the set cannot track the
/// regions; the free memory then stays uninitialized. With at most
/// [`RANGE_SET_SIZE`] regions in both lists together it always succeeds.
#[verifier::loop_isolation(false)]
#[verifier::rlimit(100)]
pub fn init(globals: &mut GlobalResources, usable: &Vec<(u64, u64)>, reserved: &Vec<(
    u64,
    u64,
)>) -> (r: Result<(), Error>)
    requires
        old(globals).inv(),
        old(globals).spec_free_ready(),
        regions_wf(usable@),
        regions_wf(reserved@),
    ensures
        final(globals).inv(),
        !final(globals).spec_free_locked(),
        final(globals).spec_free_memory().spec_next_ticket() <= old(globals)
            .spec_free_memory().spec_next_ticket() + 1,
        old(globals).spec_free_memory().spec_next_ticket() + 1 < usize::MAX
            ==> final(globals).spec_free_ready(),
        final(globals).spec_uart_writer() == old(globals).spec_uart_writer(),
        final(globals).spec_fdt() == old(globals).spec_fdt(),
        old(globals).spec_free_view() matches Some(v) ==> r is Ok && final(globals)
            .spec_free_view() == Some(v),
        old(globals).spec_free_view() is None ==> match r {
            Ok(()) => final(globals).spec_free_view() matches Some(v) && forall|a: u64|
                covered(v, a) <==> (region_covers(usable@, a) && !region_covers(
                    reserved@,
                    a,
                )),
            Err(e) => (e matches Error::RangeError(range::Error::FullRangeSet))
                && final(globals).spec_free_view() is None,
        },
        old(globals).spec_free_view() is None && usable@.len() + reserved@.len()
            <= RANGE_SET_SIZE ==> r is Ok,
{
    let fm = globals.free_memory();
    let mut guard = fm.lock();
    if guard.data.is_some() {
        // Already initialized.
        fm.unlock(guard);
        return Ok(());
    }

    let ghost fm_locked = *fm;
    let ghost guard0 = guard;
    let mut free_mem = RangeSet::new();

    // Add the usable memory regions to the free memory set.
    let mut i: usize = 0;
    proof {
        assert(usable@.take(0) =~= Seq::<(u64, u64)>::empty());
    }
    while i < usable.len()
        invariant
            i <= usable@.len(),
            free_mem.inv(),
            free_mem@.len() <= i,
            forall|a: u64| covered(free_mem@, a) == region_covers(usable@.take(i as int), a),
            *fm == fm_locked,
            guard == guard0,
        decreases usable@.len() - i,
    {
        let (address, size) = usable[i];
        proof {
            assert(usable@[i as int].1 >= 1 && usable@[i as int].0 + usable@[i as int].1
                - 1 <= u64::MAX);
        }
        let mem_region = match Range::new(address, address + (size - 1)) {
            Ok(range) => range,
            Err(_) => {
                proof {
                    assert(false);
                }
                vstd::pervasive::unreached()
            },
        };
        let ghost pre = free_mem;
        match free_mem.insert(mem_region) {
            Ok(()) => {},
            Err(e) => {
                fm.unlock(guard);
                return Err(Error::RangeError(e));
            },
        }
        proof {
            lemma_region_take_step(usable@, i as int);
            assert forall|a: u64| covered(free_mem@, a) == region_covers(
                usable@.take(i + 1),
                a,
            ) by {
                assert(covered(free_mem@, a) <==> (covered(pre@, a)
                    || mem_region.spec_contains_point(a)));
                assert(covered(pre@, a) == region_covers(usable@.take(i as int), a));
                assert(region_covers(usable@.take(i + 1), a) <==> (region_covers(
                    usable@.take(i as int),
                    a,
                ) || (usable@[i as int].0 <= a < usable@[i as int].0
                    + usable@[i as int].1)));
            }
        }
        i += 1;
    }
    proof {
        assert(usable@.take(usable@.len() as int) =~= usable@);
    }

    // Take the excluded regions out again.
    let mut j: usize = 0;
    proof {
        assert(reserved@.take(0) =~= Seq::<(u64, u64)>::empty());
    }
    while j < reserved.len()
        invariant
            j <= reserved@.len(),
            free_mem.inv(),
            free_mem@.len() <= usable@.len() + j,
            forall|a: u64| covered(free_mem@, a) == (region_covers(usable@, a)
                && !region_covers(reserved@.take(j as int), a)),
            *fm == fm_locked,
            guard == guard0,
        decreases reserved@.len() - j,
    {
        let (address, size) = reserved[j];
        proof {
            assert(reserved@[j as int].1 >= 1 && reserved@[j as int].0
                + reserved@[j as int].1 - 1 <= u64::MAX);
        }
        let rsv = match Range::new(address, address + (size - 1)) {
            Ok(range) => range,
            Err(_) => {
                proof {
                    assert(false);
                }
                vstd::pervasive::unreached()
            },
        };
        let ghost pre = free_mem;
        match free_mem.remove(rsv) {
            Ok(()) => {},
            Err(e) => {
                fm.unlock(guard);
                return Err(Error::RangeError(e));
            },
        }
        proof {
            lemma_region_take_step(reserved@, j as int);
            assert forall|a: u64| covered(free_mem@, a) == (region_covers(usable@, a)
                && !region_covers(reserved@.take(j + 1), a)) by {
                assert(covered(free_mem@, a) <==> (covered(pre@, a)
                    && !rsv.spec_contains_point(a)));
                assert(covered(pre@, a) == (region_covers(usable@, a) && !region_covers(
                    reserved@.take(j as int),
                    a,
                )));
                assert(region_covers(reserved@.take(j + 1), a) <==> (region_covers(
                    reserved@.take(j as int),
                    a,
                ) || (reserved@[j as int].0 <= a < reserved@[j as int].0
                    + reserved@[j as int].1)));
            }
        }
        j += 1;
    }
    proof {
        assert(reserved@.take(reserved@.len() as int) =~= reserved@);
    }

    // Publish the initialized set.
    guard.data = Some(free_mem);
    fm.unlock(guard);
    Ok(())
}

/// Returns the size in bytes of the memory that is currently free.
///
/// # Errors
///
/// This function returns `Error::Uninitialized` before [`init`].
pub fn free_memory_size(globals: &mut GlobalResources) -> (r: Result<u64, Error>)
    requires
        old(globals).inv(),
        old(globals).spec_free_ready(),
        old(globals).spec_free_view() matches Some(v) ==> range::seq_total_size(v)
            <= u64::MAX,
    ensures
        final(globals).inv(),
        !final(globals).spec_free_locked(),
        final(globals).spec_free_memory().spec_next_ticket() <= old(globals)
            .spec_free_memory().spec_next_ticket() + 1,
        old(globals).spec_free_memory().spec_next_ticket() + 1 < usize::MAX
            ==> final(globals).spec_free_ready(),
        final(globals).spec_uart_writer() == old(globals).spec_uart_writer(),
        final(globals).spec_fdt() == old(globals).spec_fdt(),
        final(globals).spec_free_view() == old(globals).spec_free_view(),
        match old(globals).spec_free_view() {
            None => r == Err::<u64, Error>(Error::Uninitialized),
            Some(v) => r == Ok::<u64, Error>(range::seq_total_size(v) as u64),
        },
{
    let fm = globals.free_memory();
    let mut guard = fm.lock();

    let free_mem = match guard.data.take() {
        Some(fm_set) => fm_set,
        None => {
            fm.unlock(guard);
            return Err(Error::Uninitialized);
        },
    };

    let total = free_mem.size();
    guard.data = Some(free_mem);
    fm.unlock(guard);
    Ok(total)
}

/// Returns a snapshot of the free memory regions as `(start, end)` pairs,
/// in ascending order: the read-only diagnostic surface of the allocator.
///
/// # Errors
///
/// This function returns `Error::Uninitialized` before [`init`].
#[verifier::loop_isolation(false)]
pub fn free_ranges(globals: &mut GlobalResources) -> (r: Result<Vec<(u64, u64)>, Error>)
    requires
        old(globals).inv(),
        old(globals).spec_free_ready(),
    ensures
        final(globals).inv(),
        !final(globals).spec_free_locked(),
        final(globals).spec_free_memory().spec_next_ticket() <= old(globals)
            .spec_free_memory().spec_next_ticket() + 1,
        old(globals).spec_free_memory().spec_next_ticket() + 1 < usize::MAX
            ==> final(globals).spec_free_ready(),
        final(globals).spec_uart_writer() == old(globals).spec_uart_writer(),
        final(globals).spec_fdt() == old(globals).spec_fdt(),
        final(globals).spec_free_view() == old(globals).spec_free_view(),
        match old(globals).spec_free_view() {
            None => r == Err::<Vec<(u64, u64)>, Error>(Error::Uninitialized),
            Some(v) => r matches Ok(list) && list@.len() == v.len() && (forall|k: int|
                0 <= k < v.len() ==> #[trigger] list@[k] == (v[k].spec_start(),
                v[k].spec_end())),
        },
{
    let fm = globals.free_memory();
    let mut guard = fm.lock();

    let free_mem = match guard.data.take() {
        Some(fm_set) => fm_set,
        None => {
            fm.unlock(guard);
            return Err(Error::Uninitialized);
        },
    };

    let mut list: Vec<(u64, u64)> = Vec::new();
    let ranges = free_mem.ranges();
    let mut i: usize = 0;
    while i < ranges.len()
        invariant
            i <= ranges@.len(),
            ranges@ == free_mem@,
            list@.len() == i,
            forall|k: int| 0 <= k < i ==> #[trigger] list@[k] == (ranges@[k].spec_start(),
                ranges@[k].spec_end()),
        decreases ranges@.len() - i,
    {
        let range = ranges[i];
        list.push((range.start(), range.end()));
        i += 1;
    }

    guard.data = Some(free_mem);
    fm.unlock(guard);
    Ok(list)
}

} // verus!
