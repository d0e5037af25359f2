use vstd::prelude::*;
use crate::STACK_TRACE_MAX;
use crate::memory::{word_bytes, word_size, StackImage, StackSnapshot};

verus! {

/// The parameters of one unwind: where it starts, how deep it may go, the
/// stack bounds that frame pointers are checked against (zero when not
/// known), and whether the frame-pointer walk is preferred.
#[derive(Clone, Copy, Debug, PartialEq, Eq)]
pub struct UnwindRequest {
    pub max_depth: u32,
    pub pc: usize,
    pub bp: usize,
    pub stack_top: usize,
    pub stack_bottom: usize,
    pub prefer_fast: bool,
}

/// Whether `frame` may be followed: it lies above `lower` (the stack bottom,
/// then the previous frame, so a chain that loops or stands still is
/// refused), it is word aligned, its record ends at or below `top` when a top
/// is known, and the snapshot holds its record.
pub open spec fn frame_ok(mem: StackImage, frame: int, lower: int, top: int) -> bool {
    &&& frame > lower
    &&& frame % word_bytes() == 0
    &&& (top != 0 ==> frame + 2 * word_bytes() <= top)
    &&& mem.holds_record(frame)
}

/// The return addresses found by following the frame-pointer chain from
/// `frame`, at most `budget` of them.
pub open spec fn fast_walk(mem: StackImage, frame: int, lower: int, top: int, budget: nat) -> Seq<
    usize,
>
    decreases budget,
{
    if budget == 0 || !frame_ok(mem, frame, lower, top) {
        Seq::empty()
    } else {
        seq![mem.return_address(frame)] + fast_walk(
            mem,
            mem.saved_bp(frame) as int,
            frame,
            top,
            (budget - 1) as nat,
        )
    }
}

/// The trace of a frame-pointer walk: the starting PC, then the return
/// addresses of the chain, `max_depth` entries at most.
pub open spec fn fast_trace(mem: StackImage, req: UnwindRequest) -> Seq<usize> {
    if req.max_depth == 0 {
        Seq::empty()
    } else {
        seq![req.pc] + fast_walk(
            mem,
            req.bp as int,
            req.stack_bottom as int,
            req.stack_top as int,
            (req.max_depth - 1) as nat,
        )
    }
}

/// The trace of a table-based walk whose unwinder reported `callers`: the
/// starting PC, then the callers, cut to `max_depth` entries.
pub open spec fn precise_trace(req: UnwindRequest, callers: Seq<usize>) -> Seq<usize> {
    let all = seq![req.pc] + callers;
    if all.len() <= req.max_depth {
        all
    } else {
        all.take(req.max_depth as int)
    }
}

/// What an unwind leaves in the buffer. `callers` is what the table-based
/// unwinder reported, or `None` where no unwind tables are available. The
/// table-based walk is used when it is available and either the fast walk is
/// not preferred or the fast walk could not get past the starting frame.
pub open spec fn unwind_result(req: UnwindRequest, mem: StackImage, callers: Option<Seq<usize>>) -> Seq<
    usize,
> {
    let fast = fast_trace(mem, req);
    match callers {
        None => fast,
        Some(c) => if !req.prefer_fast || (fast.len() < 2 && req.max_depth >= 2) {
            precise_trace(req, c)
        } else {
            fast
        },
    }
}

/// A trace buffer of fixed capacity: the return addresses of the last
/// unwind, innermost first.
pub struct Stacktrace {
    frames: Vec<usize>,
}

impl View for Stacktrace {
    type V = Seq<usize>;

    closed spec fn view(&self) -> Seq<usize> {
        self.frames@
    }
}

impl Stacktrace {
    /// The buffer never holds more than its capacity.
    pub open spec fn wf(&self) -> bool {
        self@.len() <= STACK_TRACE_MAX
    }

    /// An empty buffer, with room for the largest trace allocated up front.
    pub fn new() -> (r: Stacktrace)
        ensures
            r@ == Seq::<usize>::empty(),
            r.wf(),
    {
        Stacktrace { frames: Vec::with_capacity(STACK_TRACE_MAX as usize) }
    }

    /// The captured addresses, innermost first.
    pub fn trace(&self) -> (r: &[usize])
        ensures
            r@ == self@,
    {
        self.frames.as_slice()
    }

    /// The number of captured addresses.
    pub fn len(&self) -> (r: usize)
        ensures
            r as int == self@.len(),
    {
        self.frames.len()
    }

    /// Unwinds from `pc` and `bp` by the frame-pointer chain held in `stack`,
    /// with no stack bounds and no unwind tables.
    pub fn unwind_from(&mut self, max_size: u32, pc: usize, bp: usize, stack: &StackSnapshot)
        requires
            max_size <= STACK_TRACE_MAX,
        ensures
            final(self)@ == fast_trace(
                stack@,
                UnwindRequest {
                    max_depth: max_size,
                    pc,
                    bp,
                    stack_top: 0,
                    stack_bottom: 0,
                    prefer_fast: false,
                },
            ),
            final(self).wf(),
    {
        let req = UnwindRequest {
            max_depth: max_size,
            pc,
            bp,
            stack_top: 0,
            stack_bottom: 0,
            prefer_fast: false,
        };
        self.unwind_with(&req, stack, None);
    }

    /// Carries out `req`, replacing whatever the buffer held before.
    /// `callers` is what the table-based unwinder reported for this thread,
    /// innermost first, or `None` where no unwind tables are available.
    pub fn unwind_with(
        &mut self,
        req: &UnwindRequest,
        stack: &StackSnapshot,
        callers: Option<&Vec<usize>>,
    )
        requires
            req.max_depth <= STACK_TRACE_MAX,
        ensures
            final(self)@ == unwind_result(
                *req,
                stack@,
                match callers {
                    Some(c) => Some(c@),
                    None => None,
                },
            ),
            final(self).wf(),
    {
        self.unwind_fast(req, stack);
        match callers {
            None => {},
            Some(c) => {
                if !req.prefer_fast || (self.frames.len() < 2 && req.max_depth >= 2) {
                    self.unwind_precise(req, c);
                }
            },
        }
        proof {
            lemma_trace_within_depth(*req, stack@, match callers {
                Some(c) => Some(c@),
                None => None,
            });
        }
    }

    /// Fills the buffer by the frame-pointer walk alone.
    pub fn unwind_fast(&mut self, req: &UnwindRequest, stack: &StackSnapshot)
        requires
            req.max_depth <= STACK_TRACE_MAX,
        ensures
            final(self)@ == fast_trace(stack@, *req),
    {
        self.frames.clear();
        if req.max_depth == 0 {
            assert(self.frames@ =~= fast_trace(stack@, *req));
            return ;
        }
        let max_depth = req.max_depth as usize;
        let top = req.stack_top;
        let w = word_size();
        let ghost mem = stack@;
        let ghost goal = fast_trace(mem, *req);
        self.frames.push(req.pc);
        let mut frame: usize = req.bp;
        let mut lower: usize = req.stack_bottom;
        proof {
            assert(self.frames@ + fast_walk(
                mem,
                frame as int,
                lower as int,
                top as int,
                (max_depth - 1) as nat,
            ) =~= goal);
        }
        loop
            invariant
                1 <= self.frames@.len() <= max_depth,
                max_depth == req.max_depth,
                top == req.stack_top,
                w as int == word_bytes(),
                mem == stack@,
                goal == fast_trace(mem, *req),
                self.frames@ + fast_walk(
                    mem,
                    frame as int,
                    lower as int,
                    top as int,
                    (max_depth - self.frames@.len()) as nat,
                ) == goal,
            ensures
                self.frames@ == goal,
            decreases max_depth - self.frames@.len(),
        {
            let ghost budget = (max_depth - self.frames@.len()) as nat;
            let followable = self.frames.len() < max_depth && frame > lower && frame % w == 0 && (
            top == 0 || (frame < top && top - frame >= 2 * w)) && stack.has_record(frame);
            if !followable {
                assert(fast_walk(mem, frame as int, lower as int, top as int, budget)
                    =~= Seq::<usize>::empty());
                assert(self.frames@ =~= goal);
                break ;
            }
            let (saved, ret) = stack.read_record(frame);
            proof {
                let rest = fast_walk(mem, saved as int, frame as int, top as int, (budget - 1) as nat);
                assert(fast_walk(mem, frame as int, lower as int, top as int, budget) == seq![ret]
                    + rest);
                assert(self.frames@ + (seq![ret] + rest) =~= self.frames@.push(ret) + rest);
            }
            self.frames.push(ret);
            lower = frame;
            frame = saved;
        }
    }

    /// Fills the buffer from what the table-based unwinder reported.
    pub fn unwind_precise(&mut self, req: &UnwindRequest, callers: &Vec<usize>)
        requires
            req.max_depth <= STACK_TRACE_MAX,
        ensures
            final(self)@ == precise_trace(*req, callers@),
    {
        self.frames.clear();
        let max_depth = req.max_depth as usize;
        if max_depth == 0 {
            assert(self.frames@ =~= precise_trace(*req, callers@));
            return ;
        }
        self.frames.push(req.pc);
        let mut i: usize = 0;
        while i < callers.len() && self.frames.len() < max_depth
            invariant
                max_depth == req.max_depth,
                1 <= max_depth,
                i <= callers@.len(),
                self.frames@.len() == i + 1,
                self.frames@.len() <= max_depth,
                self.frames@ =~= (seq![req.pc] + callers@).take(i + 1),
            decreases callers@.len() - i,
        {
            self.frames.push(callers[i]);
            i = i + 1;
        }
        assert(self.frames@ =~= precise_trace(*req, callers@));
    }
}

/// A frame-pointer walk yields no more return addresses than its budget.
pub proof fn lemma_fast_walk_within_budget(
    mem: StackImage,
    frame: int,
    lower: int,
    top: int,
    budget: nat,
)
    ensures
        fast_walk(mem, frame, lower, top, budget).len() <= budget,
    decreases budget,
{
    if budget > 0 && frame_ok(mem, frame, lower, top) {
        lemma_fast_walk_within_budget(
            mem,
            mem.saved_bp(frame) as int,
            frame,
            top,
            (budget - 1) as nat,
        );
    }
}

/// An unwind never leaves more entries than the depth it was asked for.
pub proof fn lemma_trace_within_depth(
    req: UnwindRequest,
    mem: StackImage,
    callers: Option<Seq<usize>>,
)
    ensures
        unwind_result(req, mem, callers).len() <= req.max_depth,
        fast_trace(mem, req).len() <= req.max_depth,
{
    if req.max_depth > 0 {
        lemma_fast_walk_within_budget(
            mem,
            req.bp as int,
            req.stack_bottom as int,
            req.stack_top as int,
            (req.max_depth - 1) as nat,
        );
    }
}

} // verus!
