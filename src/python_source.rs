//! Positions in Python source text.

use vstd::prelude::*;
use vstd::string::StringSliceAdditionalSpecFns;

verus! {

/// How many newline bytes the first `n` bytes of `b` hold.
pub open spec fn newlines_in(b: Seq<u8>, n: int) -> nat
    decreases n,
{
    if n <= 0 || n > b.len() {
        0
    } else {
        newlines_in(b, n - 1) + if b[n - 1] == 10u8 {
            1nat
        } else {
            0nat
        }
    }
}

/// The line (counted from 1) that holds byte `offset` of `content`; an
/// offset past the end counts as the end. (No text in memory reaches
/// `usize::MAX` bytes.)
pub fn offset_to_line(content: &str, offset: usize) -> (r: usize)
    requires
        content.spec_bytes().len() < usize::MAX,
    ensures
        ({
            let b = content.spec_bytes();
            let end = if offset as int <= b.len() {
                offset as int
            } else {
                b.len() as int
            };
            r == newlines_in(b, end) + 1
        }),
{
    let bytes = content.as_bytes();
    let end = if offset <= bytes.len() {
        offset
    } else {
        bytes.len()
    };
    let mut count: usize = 0;
    let mut i: usize = 0;
    while i < end
        invariant
            end <= bytes@.len(),
            bytes@ == content.spec_bytes(),
            i <= end,
            count <= i,
            count == newlines_in(bytes@, i as int),
        decreases end - i,
    {
        if bytes[i] == 10u8 {
            count = count + 1;
        }
        i = i + 1;
    }
    count + 1
}

} // verus!
