//! Flattened devicetree (FDT) parsing: the parts of the blob that describe
//! the memory layout.
//!
//! The functions here work on a byte slice holding the blob; the surrounding
//! program copies the blob out of raw memory. The header and the memory
//! reservation block are parsed and verified against byte-level
//! specifications; walking the node structure of the blob is not covered
//! here.

use vstd::prelude::*;

use crate::ptr;

pub mod property;

verus! {

/// FDT parsing error.
#[derive(Debug)]
pub enum Error {
    /// The FDT blob shall be located at an 8-byte-aligned address.
    Unaligned,

    /// The magic field of the FDT header does not match "\xd0\x0d\xfe\xed".
    InvalidMagic,

    /// Only FDT format version 17 is supported.
    UnsupportedVersion(u32),

    /// A DTSpec boot program should provide an FDT in a format which is
    /// backwards compatible with version 16.
    InvalidLastCompVersion(u32),

    /// The internal fixed-size array is full.
    FullInternalArray,

    /// Unknown token found when parsing the FDT.
    UnknownToken(u32),

    /// Malformed FDT structure block.
    MalformedStructureBlock,

    /// Malformed devicetree path.
    MalformedPath,

    /// The entity could not be found.
    NotFound,

    /// The path matches more than one node.
    AmbiguousPath,

    /// Type conversion error.
    ConversionError,

    /// Out-of-bounds access.
    OutOfBounds,

    /// Error while dealing with pointers.
    PtrError(ptr::Error),
}

/// The value of the `n` bytes of `s` starting at `off`, read as a
/// big-endian integer.
pub open spec fn spec_be(s: Seq<u8>, off: int, n: int) -> int
    decreases n,
{
    if n <= 0 {
        0
    } else {
        spec_be(s, off, n - 1) * 256 + s[off + n - 1]
    }
}

/// Reads a big-endian `u32` at `off`.
pub fn read_be_u32(bytes: &[u8], off: usize) -> (r: u32)
    requires
        off + 4 <= bytes@.len(),
    ensures
        r == spec_be(bytes@, off as int, 4),
{
    proof {
        reveal_with_fuel(spec_be, 5);
    }
    let b0 = bytes[off] as u32;
    let b1 = bytes[off + 1] as u32;
    let b2 = bytes[off + 2] as u32;
    let b3 = bytes[off + 3] as u32;
    b0 * 0x100_0000 + b1 * 0x1_0000 + b2 * 0x100 + b3
}

/// Reads a big-endian `u64` at `off`.
pub fn read_be_u64(bytes: &[u8], off: usize) -> (r: u64)
    requires
        off + 8 <= bytes@.len(),
    ensures
        r == spec_be(bytes@, off as int, 8),
{
    proof {
        reveal_with_fuel(spec_be, 9);
    }
    // Learn the slice length, so that the offsets below are known to stay
    // within the index range.
    let _len = bytes.len();
    let hi = read_be_u32(bytes, off) as u64;
    let lo = read_be_u32(bytes, off + 4) as u64;
    proof {
        assert(spec_be(bytes@, off as int, 8) == spec_be(bytes@, off as int, 4)
            * 0x1_0000_0000 + spec_be(bytes@, off + 4, 4)) by {
            reveal_with_fuel(spec_be, 9);
            lemma_spec_be_split(bytes@, off as int, 4, 4);
            assert(vstd::arithmetic::power::pow(256, 4) == 0x1_0000_0000) by {
                reveal_with_fuel(vstd::arithmetic::power::pow, 5);
            }
        }
    }
    hi * 0x1_0000_0000 + lo
}

/// Splitting a big-endian read: the first `m` bytes weigh `256^n` times
/// more than the last `n`.
proof fn lemma_spec_be_split(s: Seq<u8>, off: int, m: int, n: int)
    requires
        0 <= m,
        0 <= n,
    ensures
        spec_be(s, off, m + n) == spec_be(s, off, m) * vstd::arithmetic::power::pow(
            256,
            n as nat,
        ) + spec_be(s, off + m, n),
    decreases n,
{
    if n == 0 {
        assert(vstd::arithmetic::power::pow(256, 0) == 1) by {
            reveal_with_fuel(vstd::arithmetic::power::pow, 1);
        }
    } else {
        lemma_spec_be_split(s, off, m, n - 1);
        let p = vstd::arithmetic::power::pow(256, (n - 1) as nat);
        assert(vstd::arithmetic::power::pow(256, n as nat) == 256 * p) by {
            vstd::arithmetic::power::lemma_pow_adds(256, 1, (n - 1) as nat);
            vstd::arithmetic::power::lemma_pow1(256);
            assert(n as nat == 1 + (n - 1) as nat);
        }
        assert((spec_be(s, off, m) * p + spec_be(s, off + m, n - 1)) * 256
            == spec_be(s, off, m) * (256 * p) + spec_be(s, off + m, n - 1) * 256)
            by (nonlinear_arith);
    }
}

/// Size in bytes of the FDT header.
pub const FDT_HEADER_SIZE: usize = 40;

/// Flattened devicetree header.
#[derive(Debug)]
pub struct Header {
    /// Address of the FDT blob in memory.
    ptr: usize,

    /// FDT magic. Must be 0xd00dfeed.
    magic: u32,

    /// Total size in bytes of the FDT.
    totalsize: u32,

    /// Offset in bytes of the structure block.
    off_dt_struct: u32,

    /// Offset in bytes of the strings block.
    off_dt_strings: u32,

    /// Offset in bytes of the memory reservation block.
    off_mem_rsvmap: u32,

    /// FDT format version.
    version: u32,

    /// Lowest FDT format version with which the version used is backwards
    /// compatible. A DTSpec boot program should provide an FDT in a format
    /// which is backwards compatible with version 16, and thus this field
    /// shall always contain 16.
    last_comp_version: u32,

    /// Physical ID of the system's boot CPU.
    boot_cpuid_phys: u32,

    /// Length in bytes of the strings block.
    size_dt_strings: u32,

    /// Length in bytes of the structure block.
    size_dt_struct: u32,
}

impl Header {
    /// The blob address, for specifications.
    pub closed spec fn spec_ptr(self) -> usize {
        self.ptr
    }

    /// The total blob size, for specifications.
    pub closed spec fn spec_totalsize(self) -> u32 {
        self.totalsize
    }

    /// The offset of the memory reservation block, for specifications.
    pub closed spec fn spec_off_mem_rsvmap(self) -> u32 {
        self.off_mem_rsvmap
    }

    /// The boot CPU ID, for specifications.
    pub closed spec fn spec_boot_cpuid_phys(self) -> u32 {
        self.boot_cpuid_phys
    }

    /// Whether the first bytes of `blob` are a valid header for a blob
    /// located at address `ptr`: aligned, carrying the magic number and the
    /// supported format versions.
    pub open spec fn spec_valid(blob: Seq<u8>, ptr: usize) -> bool {
        &&& blob.len() >= FDT_HEADER_SIZE
        &&& ptr % 8 == 0
        &&& spec_be(blob, 0, 4) == 0xd00dfeed
        &&& spec_be(blob, 24, 4) == 16
        &&& spec_be(blob, 20, 4) == 17
    }

    /// Parses the FDT header at the start of `blob`, a copy of the memory
    /// at address `ptr`. This function returns an error if the header is
    /// not valid (e.g. wrong magic or version).
    pub fn parse(ptr: usize, blob: &[u8]) -> (r: Result<Header, Error>)
        requires
            blob@.len() >= FDT_HEADER_SIZE,
        ensures
            r is Ok <==> Self::spec_valid(blob@, ptr),
            r matches Ok(h) ==> {
                &&& h.spec_ptr() == ptr
                &&& h.spec_totalsize() == spec_be(blob@, 4, 4)
                &&& h.spec_off_mem_rsvmap() == spec_be(blob@, 16, 4)
                &&& h.spec_boot_cpuid_phys() == spec_be(blob@, 28, 4)
            },
    {
        // The FDT blob must be 8-byte-aligned to be DTSpec compliant.
        if ptr % 8 != 0 {
            return Err(Error::Unaligned);
        }

        let header = Header {
            ptr,
            magic: read_be_u32(blob, 0),
            totalsize: read_be_u32(blob, 4),
            off_dt_struct: read_be_u32(blob, 8),
            off_dt_strings: read_be_u32(blob, 12),
            off_mem_rsvmap: read_be_u32(blob, 16),
            version: read_be_u32(blob, 20),
            last_comp_version: read_be_u32(blob, 24),
            boot_cpuid_phys: read_be_u32(blob, 28),
            size_dt_strings: read_be_u32(blob, 32),
            size_dt_struct: read_be_u32(blob, 36),
        };

        // Check magic.
        if header.magic != 0xd00dfeed {
            return Err(Error::InvalidMagic);
        }

        // Last compatible version must be 16 to be DTSpec compliant.
        if header.last_comp_version != 16 {
            return Err(Error::InvalidLastCompVersion(header.last_comp_version));
        }

        // This parser only supports version 17.
        if header.version != 17 {
            return Err(Error::UnsupportedVersion(header.version));
        }

        Ok(header)
    }

    /// Returns the pointer to the FDT header.
    pub fn ptr(&self) -> (r: usize)
        ensures
            r == self.spec_ptr(),
    {
        self.ptr
    }

    /// Returns the total size of the FDT.
    pub fn totalsize(&self) -> (r: u32)
        ensures
            r == self.spec_totalsize(),
    {
        self.totalsize
    }

    /// Returns the physical ID of the system's boot CPU.
    pub fn boot_cpuid_phys(&self) -> (r: u32)
        ensures
            r == self.spec_boot_cpuid_phys(),
    {
        self.boot_cpuid_phys
    }
}

/// Reserved memory region.
#[derive(Debug, Copy, Clone)]
pub struct MemRsvRegion {
    /// Address of the reserved memory region.
    address: u64,

    /// Size of the reserved memory region.
    size: u64,
}

impl MemRsvRegion {
    /// The region address, for specifications.
    pub closed spec fn spec_address(self) -> u64 {
        self.address
    }

    /// The region size, for specifications.
    pub closed spec fn spec_size(self) -> u64 {
        self.size
    }

    /// Returns the address of the reserved memory region.
    pub fn address(&self) -> (r: u64)
        ensures
            r == self.spec_address(),
    {
        self.address
    }

    /// Returns the size of the reserved memory region.
    pub fn size(&self) -> (r: u64)
        ensures
            r == self.spec_size(),
    {
        self.size
    }
}

/// The entries of the memory reservation block stored at `off` in the blob:
/// pairs of big-endian address and size, up to the terminating pair of
/// zeroes. `None` when the blob ends before the terminator.
pub open spec fn spec_mem_rsv_entries(blob: Seq<u8>, off: int) -> Option<Seq<(u64, u64)>>
    decreases blob.len() - off,
{
    if off < 0 || off + 16 > blob.len() {
        None
    } else {
        let address = spec_be(blob, off, 8);
        let size = spec_be(blob, off + 8, 8);
        if address == 0 && size == 0 {
            Some(Seq::empty())
        } else {
            match spec_mem_rsv_entries(blob, off + 16) {
                Some(rest) => Some(seq![(address as u64, size as u64)] + rest),
                None => None,
            }
        }
    }
}

/// Parses the memory reservation block found at offset `off` of the blob.
///
/// # Errors
///
/// This function returns `Error::OutOfBounds` exactly when the blob ends
/// before the terminating pair of zeroes.
#[verifier::loop_isolation(false)]
pub fn parse_mem_rsv_block(blob: &[u8], off: usize) -> (r: Result<
    Vec<MemRsvRegion>,
    Error,
>)
    ensures
        match r {
            Ok(regions) => {
                &&& spec_mem_rsv_entries(blob@, off as int) matches Some(entries)
                &&& entries.len() == regions@.len()
                &&& forall|k: int| 0 <= k < regions@.len()
                    ==> ((#[trigger] regions@[k]).spec_address() == entries[k].0
                        && regions@[k].spec_size() == entries[k].1)
            },
            Err(e) => {
                &&& e is OutOfBounds
                &&& spec_mem_rsv_entries(blob@, off as int) is None
            },
        },
{
    let blob_len = blob.len();
    let mut regions: Vec<MemRsvRegion> = Vec::new();
    let mut cur: usize = off;
    loop
        invariant
            off <= cur <= usize::MAX,
            blob_len == blob@.len(),
            // The entries at the original offset are those already
            // collected followed by those at the current offset.
            ({
                match spec_mem_rsv_entries(blob@, cur as int) {
                    Some(rest) => spec_mem_rsv_entries(blob@, off as int) == Some(
                        regions@.map_values(
                            |m: MemRsvRegion| (m.spec_address(), m.spec_size()),
                        ) + rest,
                    ),
                    None => spec_mem_rsv_entries(blob@, off as int) is None,
                }
            }),
        decreases blob@.len() - cur,
    {
        if cur > usize::MAX - 16 || cur + 16 > blob_len {
            return Err(Error::OutOfBounds);
        }

        let address = read_be_u64(blob, cur);
        let size = read_be_u64(blob, cur + 8);

        if address == 0 && size == 0 {
            proof {
                let m = regions@.map_values(|m: MemRsvRegion| (m.spec_address(),
                    m.spec_size()));
                assert(spec_mem_rsv_entries(blob@, cur as int) == Some(Seq::<(u64,
                    u64)>::empty()));
                assert(m + Seq::<(u64, u64)>::empty() =~= m);
            }
            return Ok(regions);
        }

        let region = MemRsvRegion { address, size };
        let ghost old_regions = regions@;
        regions.push(region);
        proof {
            let m_old = old_regions.map_values(|m: MemRsvRegion| (m.spec_address(),
                m.spec_size()));
            let m_new = regions@.map_values(|m: MemRsvRegion| (m.spec_address(),
                m.spec_size()));
            assert(regions@.drop_last() =~= old_regions);
            if spec_mem_rsv_entries(blob@, cur + 16) is Some {
                let rest = spec_mem_rsv_entries(blob@, cur + 16)->Some_0;
                assert(spec_mem_rsv_entries(blob@, cur as int) == Some(seq![(address, size)]
                    + rest));
                assert(m_old + (seq![(address, size)] + rest) =~= m_new + rest);
            }
        }
        cur = cur + 16;
    }
}

/// EarlyFdt is a simplified version of [`Fdt`]: the result of parsing the
/// minimum necessary fields required during the early stages of the kernel
/// initialization.
#[derive(Debug)]
pub struct EarlyFdt {
    /// FDT header.
    header: Header,
}

impl EarlyFdt {
    /// Parses enough of an FDT blob to produce an [`EarlyFdt`].
    pub fn parse(ptr: usize, blob: &[u8]) -> (r: Result<EarlyFdt, Error>)
        requires
            blob@.len() >= FDT_HEADER_SIZE,
        ensures
            r is Ok <==> Header::spec_valid(blob@, ptr),
            r matches Ok(e) ==> {
                &&& e.spec_header().spec_ptr() == ptr
                &&& e.spec_header().spec_totalsize() == spec_be(blob@, 4, 4)
                &&& e.spec_header().spec_off_mem_rsvmap() == spec_be(blob@, 16, 4)
                &&& e.spec_header().spec_boot_cpuid_phys() == spec_be(blob@, 28, 4)
            },
    {
        let header = Header::parse(ptr, blob)?;
        Ok(EarlyFdt { header })
    }

    /// Returns the FDT header.
    pub fn header(&self) -> (r: &Header)
        ensures
            r == self.spec_header(),
    {
        &self.header
    }

    /// The header, for specifications.
    pub closed spec fn spec_header(self) -> Header {
        self.header
    }

    /// Parses the entries of the memory reservation block of the blob this
    /// [`EarlyFdt`] was parsed from.
    pub fn mem_rsv_block_regions(&self, blob: &[u8]) -> (r: Result<Vec<MemRsvRegion>, Error>)
        ensures
            match r {
                Ok(regions) => {
                    &&& spec_mem_rsv_entries(
                        blob@,
                        self.spec_header().spec_off_mem_rsvmap() as int,
                    ) matches Some(entries)
                    &&& entries.len() == regions@.len()
                    &&& forall|k: int| 0 <= k < regions@.len()
                        ==> ((#[trigger] regions@[k]).spec_address() == entries[k].0
                            && regions@[k].spec_size() == entries[k].1)
                },
                Err(e) => {
                    &&& e is OutOfBounds
                    &&& spec_mem_rsv_entries(
                        blob@,
                        self.spec_header().spec_off_mem_rsvmap() as int,
                    ) is None
                },
            },
    {
        parse_mem_rsv_block(blob, self.header.off_mem_rsvmap as usize)
    }
}

/// Represents a parsed Flattened Devicetree: the header and the memory
/// reservation block.
#[derive(Debug)]
pub struct Fdt {
    /// FDT header.
    header: Header,

    /// Memory reservation block.
    mem_rsv_block: Vec<MemRsvRegion>,
}

impl Fdt {
    /// Parses a Flattened Devicetree blob to produce an [`Fdt`].
    pub fn parse(ptr: usize, blob: &[u8]) -> (r: Result<Fdt, Error>)
        requires
            blob@.len() >= FDT_HEADER_SIZE,
        ensures
            r is Ok <==> (Header::spec_valid(blob@, ptr) && spec_mem_rsv_entries(
                blob@,
                spec_be(blob@, 16, 4),
            ) is Some),
            r matches Ok(f) ==> {
                &&& f.spec_header().spec_ptr() == ptr
                &&& f.spec_header().spec_totalsize() == spec_be(blob@, 4, 4)
                &&& spec_mem_rsv_entries(blob@, spec_be(blob@, 16, 4)) matches Some(entries)
                    && entries.len() == f.spec_mem_rsv_block().len()
                &&& forall|k: int| 0 <= k < f.spec_mem_rsv_block().len()
                    ==> ((#[trigger] f.spec_mem_rsv_block()[k]).spec_address()
                        == spec_mem_rsv_entries(blob@, spec_be(blob@, 16, 4))->Some_0[k].0
                        && f.spec_mem_rsv_block()[k].spec_size()
                        == spec_mem_rsv_entries(blob@, spec_be(blob@, 16, 4))->Some_0[k].1)
            },
    {
        let header = Header::parse(ptr, blob)?;
        let mem_rsv_block = parse_mem_rsv_block(blob, header.off_mem_rsvmap as usize)?;
        Ok(Fdt { header, mem_rsv_block })
    }

    /// Returns the FDT header.
    pub fn header(&self) -> (r: &Header)
        ensures
            r == self.spec_header(),
    {
        &self.header
    }

    /// The header, for specifications.
    pub closed spec fn spec_header(self) -> Header {
        self.header
    }

    /// Returns the memory reservation block.
    pub fn mem_rsv_block(&self) -> (r: &[MemRsvRegion])
        ensures
            r@ == self.spec_mem_rsv_block(),
    {
        self.mem_rsv_block.as_slice()
    }

    /// The memory reservation block, for specifications.
    pub closed spec fn spec_mem_rsv_block(self) -> Seq<MemRsvRegion> {
        self.mem_rsv_block@
    }
}

} // verus!
