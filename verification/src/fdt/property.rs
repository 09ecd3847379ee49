//! Decoders for common FDT properties.

use vstd::prelude::*;

use crate::fdt::{spec_be, read_be_u32, read_be_u64, Error};

verus! {

/// Reads the big-endian integer of `n` bytes at `off`, for the cell widths
/// a `reg` property can use.
///
/// # Errors
///
/// This function returns `Error::OutOfBounds` when the slice ends before
/// the requested bytes, and otherwise `Error::ConversionError` when `n` is
/// not the width of an unsigned integer type (1, 2, 4 or 8 bytes).
pub fn read_be_sized(bytes: &[u8], off: usize, n: usize) -> (r: Result<u64, Error>)
    ensures
        off + n > bytes@.len() ==> r == Err::<u64, Error>(Error::OutOfBounds),
        off + n <= bytes@.len() && !(n == 1 || n == 2 || n == 4 || n == 8) ==> r == Err::<
            u64,
            Error,
        >(Error::ConversionError),
        off + n <= bytes@.len() && (n == 1 || n == 2 || n == 4 || n == 8)
            ==> r == Ok::<u64, Error>(spec_be(bytes@, off as int, n as int) as u64),
{
    let blob_len = bytes.len();
    if off > blob_len || n > blob_len - off {
        return Err(Error::OutOfBounds);
    }
    if n != 1 && n != 2 && n != 4 && n != 8 {
        return Err(Error::ConversionError);
    }
    proof {
        reveal_with_fuel(spec_be, 9);
    }
    if n == 1 {
        Ok(bytes[off] as u64)
    } else if n == 2 {
        Ok((bytes[off] as u64) * 0x100 + (bytes[off + 1] as u64))
    } else if n == 4 {
        Ok(read_be_u32(bytes, off) as u64)
    } else {
        Ok(read_be_u64(bytes, off))
    }
}

/// Walks the entries of a `reg` property.
///
/// Each call to [`Reg::next`] yields the pair `(address, size)` of the next
/// entry. After an error, all successive calls yield `None`.
#[derive(Debug)]
pub struct Reg {
    /// Number of `<u32>` cells to represent the address in the reg property.
    address_cells: usize,

    /// Number of `<u32>` cells to represent the size in the reg property.
    size_cells: usize,

    /// `reg` bytes.
    bytes: Vec<u8>,

    /// Index of the next entry.
    idx: usize,

    /// If `done` is true, the walk has finished.
    done: bool,
}

impl Reg {
    /// The property bytes, for specifications.
    pub closed spec fn spec_bytes(self) -> Seq<u8> {
        self.bytes@
    }

    /// The current position, for specifications.
    pub closed spec fn spec_idx(self) -> usize {
        self.idx
    }

    /// Whether the walk has finished, for specifications.
    pub closed spec fn spec_done(self) -> bool {
        self.done
    }

    /// The width in bytes of the address field of an entry.
    pub closed spec fn spec_address_width(self) -> int {
        self.address_cells * 4
    }

    /// The width in bytes of the size field of an entry.
    pub closed spec fn spec_size_width(self) -> int {
        self.size_cells * 4
    }

    /// Creates a [`Reg`] walk over the bytes of a `reg` property.
    pub fn new(reg: Vec<u8>, address_cells: u32, size_cells: u32) -> (r: Reg)
        ensures
            r.spec_bytes() == reg@,
            r.spec_idx() == 0,
            !r.spec_done(),
            r.spec_address_width() == address_cells * 4,
            r.spec_size_width() == size_cells * 4,
    {
        Reg {
            address_cells: address_cells as usize,
            size_cells: size_cells as usize,
            bytes: reg,
            idx: 0,
            done: false,
        }
    }

    /// Returns the next `(address, size)` entry: `None` once the bytes are
    /// exhausted or after an error, an error when a full entry does not fit
    /// in the remaining bytes or a field width is not that of an unsigned
    /// integer type, and the decoded pair otherwise.
    pub fn next(&mut self) -> (r: Option<Result<(u64, u64), Error>>)
        requires
            old(self).spec_address_width() + old(self).spec_size_width() <= usize::MAX,
            old(self).spec_idx() + old(self).spec_address_width()
                + old(self).spec_size_width() <= usize::MAX,
        ensures
            final(self).spec_bytes() == old(self).spec_bytes(),
            final(self).spec_address_width() == old(self).spec_address_width(),
            final(self).spec_size_width() == old(self).spec_size_width(),
            old(self).spec_done() ==> r is None && *final(self) == *old(self),
            !old(self).spec_done() ==> ({
                let bytes = old(self).spec_bytes();
                let start = old(self).spec_idx() as int;
                let aw = old(self).spec_address_width();
                let sw = old(self).spec_size_width();
                if start >= bytes.len() {
                    r is None && final(self).spec_done() && final(self).spec_idx()
                        == old(self).spec_idx()
                } else if start + aw > bytes.len() {
                    r == Some(Err::<(u64, u64), Error>(Error::OutOfBounds))
                        && final(self).spec_done()
                } else if !(aw == 1 || aw == 2 || aw == 4 || aw == 8) {
                    r == Some(Err::<(u64, u64), Error>(Error::ConversionError))
                        && final(self).spec_done()
                } else if start + aw + sw > bytes.len() {
                    r == Some(Err::<(u64, u64), Error>(Error::OutOfBounds))
                        && final(self).spec_done()
                } else if !(sw == 1 || sw == 2 || sw == 4 || sw == 8) {
                    r == Some(Err::<(u64, u64), Error>(Error::ConversionError))
                        && final(self).spec_done()
                } else {
                    &&& r == Some(Ok::<(u64, u64), Error>((
                        spec_be(bytes, start, aw) as u64,
                        spec_be(bytes, start + aw, sw) as u64,
                    )))
                    &&& final(self).spec_idx() == old(self).spec_idx() + aw + sw
                    &&& !final(self).spec_done()
                }
            }),
    {
        if self.done {
            return None;
        }

        if self.idx >= self.bytes.len() {
            self.done = true;
            return None;
        }

        let address_idx = self.idx;
        let size_idx = address_idx + self.address_cells * 4;

        let address = match read_be_sized(self.bytes.as_slice(), address_idx,
            self.address_cells * 4) {
            Ok(v) => v,
            Err(e) => {
                self.done = true;
                return Some(Err(e));
            },
        };
        let size = match read_be_sized(self.bytes.as_slice(), size_idx,
            self.size_cells * 4) {
            Ok(v) => v,
            Err(e) => {
                self.done = true;
                return Some(Err(e));
            },
        };

        self.idx = size_idx + self.size_cells * 4;

        Some(Ok((address, size)))
    }
}

} // verus!
