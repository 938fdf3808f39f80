//! Identity of a capture FIFO inode, as the capture helper reports it when it
//! retires a partially written frame.
use vstd::prelude::*;
use crate::decode::text_chars;
use crate::number::{parse_unsigned, parse_u64};
use crate::text::{words, split_whitespace_chars, chars_eq};
use vstd::slice::slice_subrange;

verus! {

#[derive(Clone, Copy, Debug, PartialEq, Eq, Structural)]
pub struct Identity {
    pub device: u64,
    pub inode: u64,
}

/// `FIFO_RESET DEVICE INODE`: exactly two whitespace-separated unsigned
/// 64-bit numbers after the prefix.
pub open spec fn reset_line_spec(line: Seq<char>) -> Option<Identity> {
    let prefix = "FIFO_RESET "@;
    if line.len() >= prefix.len() && line.subrange(0, prefix.len() as int) == prefix {
        let w = words(line.subrange(prefix.len() as int, line.len() as int));
        if w.len() == 2 && parse_unsigned(w[0], 10, u64::MAX as nat) is Some && parse_unsigned(
            w[1],
            10,
            u64::MAX as nat,
        ) is Some {
            Some(
                Identity {
                    device: parse_unsigned(w[0], 10, u64::MAX as nat).unwrap() as u64,
                    inode: parse_unsigned(w[1], 10, u64::MAX as nat).unwrap() as u64,
                },
            )
        } else {
            None
        }
    } else {
        None
    }
}

impl Identity {
    pub fn from_reset_line(line: &str) -> (r: Option<Identity>)
        ensures
            r == reset_line_spec(line@),
    {
        let text = text_chars(line);
        let prefix = text_chars("FIFO_RESET ");
        if text.len() < prefix.len() {
            return None;
        }
        let head = slice_subrange(text.as_slice(), 0, prefix.len());
        if !chars_eq(head, prefix.as_slice()) {
            return None;
        }
        let rest = slice_subrange(text.as_slice(), prefix.len(), text.len());
        let w = split_whitespace_chars(rest);
        let ghost ws = words(rest@);
        assert(w@.len() == ws.len());
        if w.len() != 2 {
            return None;
        }
        assert(ws[0] == w@[0]@);
        assert(ws[1] == w@[1]@);
        let device = match parse_u64(w[0].as_slice()) {
            Some(v) => v,
            None => {
                return None;
            },
        };
        let inode = match parse_u64(w[1].as_slice()) {
            Some(v) => v,
            None => {
                return None;
            },
        };
        Some(Identity { device, inode })
    }
}

impl Identity {
    /// Whether the FIFO found at the capture path now is still this one.
    pub fn matches(self, current: Identity) -> (r: bool)
        ensures
            r == (self == current),
    {
        self.device == current.device && self.inode == current.inode
    }
}

/// The line the capture helper writes for a retired FIFO.
pub open spec fn reset_line_text(id: Identity) -> Seq<char> {
    "FIFO_RESET "@ + crate::number::decimal(id.device as nat) + seq![' '] + crate::number::decimal(
        id.inode as nat,
    )
}

/// Reading a reset line gives back the identity it was written for.
pub proof fn lemma_reset_line_roundtrip(id: Identity)
    ensures
        reset_line_spec(reset_line_text(id)) == Some(id),
{
    let prefix = "FIFO_RESET "@;
    let d = crate::number::decimal(id.device as nat);
    let n = crate::number::decimal(id.inode as nat);
    let line = reset_line_text(id);
    crate::number::lemma_decimal_digits(id.device as nat);
    crate::number::lemma_decimal_digits(id.inode as nat);
    crate::number::lemma_parse_decimal(id.device as nat, u64::MAX as nat);
    crate::number::lemma_parse_decimal(id.inode as nat, u64::MAX as nat);
    assert(line == prefix + (d + seq![' '] + n));
    assert(line.subrange(0, prefix.len() as int) == prefix);
    assert(line.subrange(prefix.len() as int, line.len() as int) == d + seq![' '] + n);
    assert forall|i: int| 0 <= i < d.len() implies !crate::text::is_ws(#[trigger] d[i]) by {
        assert('0' <= d[i] <= '9');
    }
    assert forall|i: int| 0 <= i < n.len() implies !crate::text::is_ws(#[trigger] n[i]) by {
        assert('0' <= n[i] <= '9');
    }
    crate::text::lemma_words_of_pair(d, n);
}

} // verus!
