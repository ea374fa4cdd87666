//! Small board-support helpers: address alignment, byte concatenation and
//! the hardware-layer error type.

use vstd::prelude::*;

verus! {

/// Errors of the hardware layer.
#[derive(Debug, Clone, Copy, PartialEq, Eq, Structural)]
pub enum HalError {
    /// Error writing to flash
    FlashError,
    /// Error with the serial connection between boards
    I2cConnectionError,
    /// A timeout occurred
    Timeout,
    /// Error with the committed array
    CommittedArrayError(crate::committed_array::CommittedArrayError),
}

/// Aligns `addr` up to the next multiple of `align`.
pub fn align_up(addr: usize, align: usize) -> (r: usize)
    requires
        align > 0,
        addr + align <= usize::MAX,
    ensures
        r % align == 0,
        addr <= r < addr + align,
{
    let rem = addr % align;
    if rem == 0 {
        addr
    } else {
        proof {
            assert(addr % align < align) by (nonlinear_arith)
                requires align > 0;
            assert((addr + (align - addr % align)) % (align as int) == 0) by (nonlinear_arith)
                requires align > 0;
        }
        addr + (align - rem)
    }
}

/// Aligns `addr` down to the previous multiple of `align`.
pub fn align_down(addr: usize, align: usize) -> (r: usize)
    requires
        align > 0,
    ensures
        r == addr - (addr % align),
        r % align == 0,
        r <= addr,
{
    proof {
        assert(addr - (addr % align) >= 0) by (nonlinear_arith)
            requires align > 0;
        assert((addr - (addr % align)) % (align as int) == 0) by (nonlinear_arith)
            requires align > 0;
    }
    addr - (addr % align)
}

/// Concatenates two byte strings.
pub fn concat(string1: &[u8], string2: &[u8]) -> (out: Vec<u8>)
    ensures
        out@ == string1@ + string2@,
{
    let mut out: Vec<u8> = Vec::new();
    out.extend_from_slice(string1);
    out.extend_from_slice(string2);
    out
}

} // verus!
