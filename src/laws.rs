//! Properties of unwinding that hold for every request and every stack.

use vstd::prelude::*;
use crate::STACK_TRACE_MAX;
use crate::address::call_site_of;
use crate::memory::{word_bytes, StackImage};
use crate::stacktrace::{
    fast_trace,
    fast_walk,
    frame_ok,
    lemma_trace_within_depth,
    unwind_result,
    UnwindRequest,
};

verus! {

/// An unwind with an admissible depth leaves at most that many entries, and
/// so never more than the buffer's capacity.
pub proof fn lemma_trace_bounded(req: UnwindRequest, mem: StackImage, callers: Option<Seq<usize>>)
    requires
        req.max_depth <= STACK_TRACE_MAX,
    ensures
        unwind_result(req, mem, callers).len() <= req.max_depth,
        unwind_result(req, mem, callers).len() <= STACK_TRACE_MAX,
{
    lemma_trace_within_depth(req, mem, callers);
}

/// A trace is empty exactly when the depth asked for is zero, and otherwise
/// its first entry is the starting PC.
pub proof fn lemma_trace_starts_at_pc(req: UnwindRequest, mem: StackImage, callers: Option<Seq<usize>>)
    ensures
        (unwind_result(req, mem, callers).len() > 0) == (req.max_depth > 0),
        unwind_result(req, mem, callers).len() > 0 ==> unwind_result(req, mem, callers)[0]
            == req.pc,
{
}

/// Normalizing an address is a total function: the same return address
/// always gives the same call site, and address zero has one as well.
pub proof fn lemma_previous_pc_deterministic(a: usize, b: usize)
    ensures
        a == b ==> call_site_of(a) == call_site_of(b),
        call_site_of(0) == usize::MAX,
{
}

/// A frame whose saved frame pointer does not lie above it (a chain that
/// turns back on itself, as a cycle must) ends the walk right after that
/// frame's return address.
pub proof fn lemma_backward_link_ends_walk(
    mem: StackImage,
    frame: int,
    lower: int,
    top: int,
    budget: nat,
)
    requires
        frame_ok(mem, frame, lower, top),
        mem.saved_bp(frame) <= frame,
        budget >= 1,
    ensures
        fast_walk(mem, frame, lower, top, budget) == seq![mem.return_address(frame)],
{
    let rest = fast_walk(mem, mem.saved_bp(frame) as int, frame, top, (budget - 1) as nat);
    assert(rest =~= Seq::<usize>::empty());
    assert(seq![mem.return_address(frame)] + rest =~= seq![mem.return_address(frame)]);
}

/// A frame whose saved frame pointer lies outside the stack bounds (at or
/// below the bottom, or with its record reaching past a known top) ends the
/// walk right after that frame: the record outside is never read.
pub proof fn lemma_out_of_bounds_link_ends_walk(
    mem: StackImage,
    frame: int,
    lower: int,
    stack_bottom: int,
    top: int,
    budget: nat,
)
    requires
        frame_ok(mem, frame, lower, top),
        lower >= stack_bottom,
        mem.saved_bp(frame) <= stack_bottom || (top != 0 && mem.saved_bp(frame) + 2
            * word_bytes() > top),
        budget >= 1,
    ensures
        fast_walk(mem, frame, lower, top, budget) == seq![mem.return_address(frame)],
{
    let rest = fast_walk(mem, mem.saved_bp(frame) as int, frame, top, (budget - 1) as nat);
    assert(rest =~= Seq::<usize>::empty());
    assert(seq![mem.return_address(frame)] + rest =~= seq![mem.return_address(frame)]);
}

/// With a null frame pointer and no frames from unwind tables, the trace is
/// the starting PC alone.
pub proof fn lemma_no_frames_gives_pc_only(
    req: UnwindRequest,
    mem: StackImage,
    callers: Option<Seq<usize>>,
)
    requires
        req.bp == 0,
        req.max_depth >= 1,
        callers is None || callers == Some(Seq::<usize>::empty()),
    ensures
        unwind_result(req, mem, callers) == seq![req.pc],
{
    let walk = fast_walk(
        mem,
        req.bp as int,
        req.stack_bottom as int,
        req.stack_top as int,
        (req.max_depth - 1) as nat,
    );
    assert(walk =~= Seq::<usize>::empty());
    assert(fast_trace(mem, req) =~= seq![req.pc]);
    assert(seq![req.pc] + Seq::<usize>::empty() =~= seq![req.pc]);
}

/// `frames` is a chain of frame records that the walk may follow from
/// `lower`: each frame passes the checks against the one before it (against
/// `lower` for the first), and each saves the address of the next.
pub open spec fn is_frame_chain(mem: StackImage, frames: Seq<int>, lower: int, top: int) -> bool {
    &&& frame_ok(mem, frames[0], lower, top)
    &&& forall|i: int|
        #![trigger frames[i]]
        0 <= i < frames.len() - 1 ==> {
            &&& mem.saved_bp(frames[i]) as int == frames[i + 1]
            &&& frame_ok(mem, frames[i + 1], frames[i], top)
        }
}

/// The return addresses stored in the records of `frames`, in order.
pub open spec fn chain_returns(mem: StackImage, frames: Seq<int>) -> Seq<usize> {
    frames.map_values(|f: int| mem.return_address(f))
}

/// Following a well-formed chain whose last record links to no frame that
/// may be followed, with budget for all of it, yields each record's return
/// address once, innermost first.
pub proof fn lemma_frame_chain_walked_in_order(
    mem: StackImage,
    frames: Seq<int>,
    lower: int,
    top: int,
    budget: nat,
)
    requires
        frames.len() > 0,
        is_frame_chain(mem, frames, lower, top),
        !frame_ok(mem, mem.saved_bp(frames.last()) as int, frames.last(), top),
        budget >= frames.len(),
    ensures
        fast_walk(mem, frames[0], lower, top, budget) == chain_returns(mem, frames),
    decreases frames.len(),
{
    assert(frame_ok(mem, frames[0], lower, top));
    let head = seq![mem.return_address(frames[0])];
    if frames.len() == 1 {
        let rest = fast_walk(mem, mem.saved_bp(frames[0]) as int, frames[0], top, (budget - 1) as nat);
        assert(rest =~= Seq::<usize>::empty());
        assert(head + rest =~= chain_returns(mem, frames));
    } else {
        let tail = frames.subrange(1, frames.len() as int);
        assert(mem.saved_bp(frames[0]) as int == frames[1]);
        assert(frame_ok(mem, tail[0], frames[0], top));
        assert forall|i: int| #![trigger tail[i]] 0 <= i < tail.len() - 1 implies {
            &&& mem.saved_bp(tail[i]) as int == tail[i + 1]
            &&& frame_ok(mem, tail[i + 1], tail[i], top)
        } by {
            assert(frames[i + 1] == tail[i]);
        }
        assert(tail.last() == frames.last());
        lemma_frame_chain_walked_in_order(mem, tail, frames[0], top, (budget - 1) as nat);
        assert(head + chain_returns(mem, tail) =~= chain_returns(mem, frames));
    }
}

/// An unwind of a well-formed chain that starts at the request's frame
/// pointer, asked for at least one entry more than the chain has records,
/// captures the starting PC and then every record's return address in order.
pub proof fn lemma_frame_chain_fully_captured(
    req: UnwindRequest,
    mem: StackImage,
    frames: Seq<int>,
)
    requires
        frames.len() > 0,
        frames[0] == req.bp as int,
        is_frame_chain(mem, frames, req.stack_bottom as int, req.stack_top as int),
        !frame_ok(mem, mem.saved_bp(frames.last()) as int, frames.last(), req.stack_top as int),
        req.max_depth > frames.len(),
    ensures
        fast_trace(mem, req) == seq![req.pc] + chain_returns(mem, frames),
        fast_trace(mem, req).len() == frames.len() + 1,
{
    lemma_frame_chain_walked_in_order(
        mem,
        frames,
        req.stack_bottom as int,
        req.stack_top as int,
        (req.max_depth - 1) as nat,
    );
}

/// Frames of a chain lie ever higher on the stack: none lies above the last.
pub proof fn lemma_frame_chain_ascends(
    mem: StackImage,
    frames: Seq<int>,
    lower: int,
    top: int,
    k: int,
)
    requires
        is_frame_chain(mem, frames, lower, top),
        0 <= k < frames.len(),
    ensures
        frames[k] <= frames.last(),
    decreases frames.len() - k,
{
    if k < frames.len() - 1 {
        assert(frame_ok(mem, frames[k + 1], frames[k], top));
        lemma_frame_chain_ascends(mem, frames, lower, top, k + 1);
    }
}

/// A chain whose last record links back to one of its own frames (a cycle)
/// is walked once, record by record, and the walk stops there: the trace
/// holds no more entries than the chain has records.
pub proof fn lemma_cycle_ends_walk(
    mem: StackImage,
    frames: Seq<int>,
    lower: int,
    top: int,
    budget: nat,
    k: int,
)
    requires
        frames.len() > 0,
        is_frame_chain(mem, frames, lower, top),
        0 <= k < frames.len(),
        mem.saved_bp(frames.last()) as int == frames[k],
        budget >= frames.len(),
    ensures
        fast_walk(mem, frames[0], lower, top, budget) == chain_returns(mem, frames),
        fast_walk(mem, frames[0], lower, top, budget).len() == frames.len(),
{
    lemma_frame_chain_ascends(mem, frames, lower, top, k);
    lemma_frame_chain_walked_in_order(mem, frames, lower, top, budget);
}

} // verus!
