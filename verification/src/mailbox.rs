//! Mailbox operations.
//!
//! The mailbox is an RPC channel to the board's co-processor. The functions
//! here build the request frames and interpret the response codes; the
//! surrounding program performs the volatile register accesses and the
//! busy-wait loops of the exchange itself.

use vstd::prelude::*;

verus! {

/// Mailbox0 read/write register offset, used for communication from the
/// co-processor. From this side it is read-only.
pub const MBOX_READ: usize = 0xb880;

/// This value is returned as a response code when the request was
/// successful.
pub const MBOX_REQ_OK: u32 = 0x8000_0000;

/// Mailbox0 status register offset.
pub const MBOX_STATUS: usize = 0xb898;

/// This bit is set in the status register if there is nothing to read from
/// the mailbox.
pub const MBOX_STATUS_EMPTY: u32 = 0x4000_0000;

/// This bit is set in the status register if there is no space to write
/// into the mailbox.
pub const MBOX_STATUS_FULL: u32 = 0x8000_0000;

/// Mailbox1 read/write register offset, used for communication to the
/// co-processor. From this side it is write-only.
pub const MBOX_WRITE: usize = 0xb8a0;

/// Property tags channel.
pub const MBOX_CHAN_PROP: u32 = 8;

/// Number of 32-bit words in the buffer used for mailbox requests.
pub const MBOX_BUFFER_WORDS: usize = 8192;

/// Mailbox error.
#[derive(Debug)]
pub enum Error {
    /// Mailbox request could not be processed.
    RequestFailed,

    /// There is not enough room in the mailbox buffer to allocate the
    /// request.
    RequestIsTooBig,
}

/// Returns the concatenated tags of a request that sets the UART clock
/// frequency to `freq` Hz. The surrounding program frames them with
/// [`build_request`] and performs the exchange.
pub fn set_uartclk_freq(freq: u32) -> (tags: Vec<u32>)
    ensures
        tags@ =~= seq![0x38002u32, 12u32, 0u32, 2u32, freq, 0u32],
{
    let mut tags: Vec<u32> = Vec::new();
    tags.push(0x38002); // "Set clock rate" tag id.
    tags.push(12); // Value buffer length.
    tags.push(0); // Bit 31 is 0 for requests.
    tags.push(2); // UART0 clock id.
    tags.push(freq); // Clock frequency.
    tags.push(0); // Do not skip setting turbo.
    tags
}

/// Builds the full request buffer for the provided concatenated tags: the
/// buffer size in bytes, the request code, the tags, and the end tag,
/// padded with zeroes to [`MBOX_BUFFER_WORDS`] words.
///
/// # Errors
///
/// This function returns `Error::RequestIsTooBig` exactly when the tags,
/// the two header words and the end tag do not fit in the buffer.
#[verifier::loop_isolation(false)]
pub fn build_request(tags: &Vec<u32>) -> (r: Result<Vec<u32>, Error>)
    ensures
        tags@.len() > MBOX_BUFFER_WORDS - 3 ==> r == Err::<Vec<u32>, Error>(
            Error::RequestIsTooBig,
        ),
        tags@.len() <= MBOX_BUFFER_WORDS - 3 ==> (r matches Ok(buf) && {
            &&& buf@.len() == MBOX_BUFFER_WORDS
            &&& buf@[0] == 4 * MBOX_BUFFER_WORDS
            &&& buf@[1] == 0
            &&& forall|k: int| 0 <= k < tags@.len() ==> buf@[2 + k] == #[trigger] tags@[k]
            &&& forall|k: int| 2 + tags@.len() <= k < MBOX_BUFFER_WORDS ==> #[trigger]
                buf@[k] == 0
        }),
{
    // There must be room for the request, the header values and the end
    // tag.
    if tags.len() > MBOX_BUFFER_WORDS - 3 {
        return Err(Error::RequestIsTooBig);
    }

    let mut buf: Vec<u32> = Vec::new();
    // Set buffer size in bytes.
    buf.push((4 * MBOX_BUFFER_WORDS) as u32);
    // Set request code to process request.
    buf.push(0);
    // Copy the tags into the buffer.
    let mut i: usize = 0;
    while i < tags.len()
        invariant
            i <= tags@.len(),
            buf@.len() == 2 + i,
            buf@[0] == 4 * MBOX_BUFFER_WORDS,
            buf@[1] == 0,
            forall|k: int| 0 <= k < i ==> buf@[2 + k] == #[trigger] tags@[k],
        decreases tags@.len() - i,
    {
        buf.push(tags[i]);
        i += 1;
    }
    // End tag, and zero padding up to the full buffer size.
    while buf.len() < MBOX_BUFFER_WORDS
        invariant
            2 + tags@.len() <= buf@.len() <= MBOX_BUFFER_WORDS,
            buf@[0] == 4 * MBOX_BUFFER_WORDS,
            buf@[1] == 0,
            forall|k: int| 0 <= k < tags@.len() ==> buf@[2 + k] == #[trigger] tags@[k],
            forall|k: int| 2 + tags@.len() <= k < buf@.len() ==> #[trigger] buf@[k] == 0,
        decreases MBOX_BUFFER_WORDS - buf@.len(),
    {
        buf.push(0);
    }
    Ok(buf)
}

/// Interprets the response code of a processed request.
///
/// # Errors
///
/// This function returns `Error::RequestFailed` exactly when the response
/// code is not the success code.
pub fn check_response(code: u32) -> (r: Result<(), Error>)
    ensures
        code == MBOX_REQ_OK <==> r is Ok,
        r matches Err(e) ==> e is RequestFailed,
{
    if code != MBOX_REQ_OK {
        return Err(Error::RequestFailed);
    }
    Ok(())
}

} // verus!
