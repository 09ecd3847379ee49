//! UART writer.
//!
//! [`UartWriter`] turns text into the byte sequence the serial line expects,
//! inserting a carriage return before every line feed. Sending the bytes is
//! left to the surrounding program.

use vstd::prelude::*;

verus! {

/// Line feed byte.
pub const LINE_FEED: u8 = 10;

/// Carriage return byte.
pub const CARRIAGE_RETURN: u8 = 13;

/// What the serial line receives for the text `s`: every line feed is
/// preceded by a carriage return.
pub open spec fn crlf_encoding(s: Seq<u8>) -> Seq<u8>
    decreases s.len(),
{
    if s.len() == 0 {
        Seq::empty()
    } else {
        (if s[0] == LINE_FEED {
            seq![CARRIAGE_RETURN, LINE_FEED]
        } else {
            seq![s[0]]
        }) + crlf_encoding(s.drop_first())
    }
}

/// Encoding one more byte appends its encoding.
proof fn lemma_crlf_take_step(s: Seq<u8>, i: int)
    requires
        0 <= i < s.len(),
    ensures
        crlf_encoding(s.take(i + 1)) == crlf_encoding(s.take(i)) + (if s[i] == LINE_FEED {
            seq![CARRIAGE_RETURN, LINE_FEED]
        } else {
            seq![s[i]]
        }),
    decreases i,
{
    if i == 0 {
        assert(s.take(1) =~= seq![s[0]]);
        assert(s.take(1).drop_first() =~= Seq::<u8>::empty());
        assert(s.take(0) =~= Seq::<u8>::empty());
        assert(crlf_encoding(Seq::<u8>::empty()) + (if s[0] == LINE_FEED {
            seq![CARRIAGE_RETURN, LINE_FEED]
        } else {
            seq![s[0]]
        }) =~= crlf_encoding(s.take(1)));
    } else {
        let t = s.drop_first();
        lemma_crlf_take_step(t, i - 1);
        assert(s.take(i + 1).drop_first() =~= t.take(i));
        assert(s.take(i).drop_first() =~= t.take(i - 1));
        assert(s.take(i + 1)[0] == s[0]);
        assert(s.take(i)[0] == s[0]);
        assert(t[i - 1] == s[i]);
        assert(crlf_encoding(s.take(i)) + (if s[i] == LINE_FEED {
            seq![CARRIAGE_RETURN, LINE_FEED]
        } else {
            seq![s[i]]
        }) =~= crlf_encoding(s.take(i + 1)));
    }
}

/// Implements a writer on top of the UART.
pub struct UartWriter;

impl UartWriter {
    /// Returns the bytes to send over the serial line for the text `bytes`:
    /// a carriage return is inserted before every line feed.
    pub fn encode(&self, bytes: &[u8]) -> (out: Vec<u8>)
        ensures
            out@ == crlf_encoding(bytes@),
    {
        let ghost s = bytes@;
        let mut out: Vec<u8> = Vec::new();
        let mut i: usize = 0;
        while i < bytes.len()
            invariant
                i <= s.len(),
                s == bytes@,
                out@ == crlf_encoding(s.take(i as int)),
            decreases s.len() - i,
        {
            proof {
                lemma_crlf_take_step(s, i as int);
            }
            let b = bytes[i];
            if b == LINE_FEED {
                out.push(CARRIAGE_RETURN);
            }
            out.push(b);
            proof {
                if s[i as int] == LINE_FEED {
                    assert(out@ =~= crlf_encoding(s.take(i as int))
                        + seq![CARRIAGE_RETURN, LINE_FEED]);
                } else {
                    assert(out@ =~= crlf_encoding(s.take(i as int)) + seq![s[i as int]]);
                }
            }
            i += 1;
        }
        proof {
            assert(s.take(s.len() as int) =~= s);
        }
        out
    }
}

} // verus!
