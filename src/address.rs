use vstd::prelude::*;

verus! {

/// The address of the call instruction that left `return_address` on the
/// stack: one byte before it, wrapping at zero so that every address has an
/// answer.
pub open spec fn call_site_of(return_address: usize) -> usize {
    if return_address == 0 {
        usize::MAX
    } else {
        (return_address - 1) as usize
    }
}

/// Maps a return address recorded on the stack to the address of the call
/// that produced it.
pub fn previous_pc(pc: usize) -> (r: usize)
    ensures
        r == call_site_of(pc),
{
    pc.wrapping_sub(1)
}

} // verus!
