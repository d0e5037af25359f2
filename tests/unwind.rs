use sanitizer_stacktrace::{previous_pc, StackSnapshot, Stacktrace, UnwindRequest, STACK_TRACE_MAX};

const W: usize = std::mem::size_of::<usize>();
const BASE: usize = 0x7000_0000;

fn addr(slot: usize) -> usize {
    BASE + slot * W
}

/// A stack of `n_words` zero words with frame records written at the given
/// slots: (slot, saved_bp, return_address).
fn stack_with(n_words: usize, records: &[(usize, usize, usize)]) -> StackSnapshot {
    let mut words = vec![0usize; n_words];
    for &(slot, saved, ret) in records {
        words[slot] = saved;
        words[slot + 1] = ret;
    }
    StackSnapshot::new(BASE, words)
}

/// A well-formed chain of `n` records at slots 0, 2, 4, ...; record k
/// returns to 0x1000 + k and the last one saves a null frame pointer.
fn chain(n: usize) -> StackSnapshot {
    let mut records = Vec::new();
    for k in 0..n {
        let saved = if k + 1 < n { addr(2 * (k + 1)) } else { 0 };
        records.push((2 * k, saved, 0x1000 + k));
    }
    stack_with(2 * n + 2, &records)
}

fn request(max_depth: u32, pc: usize, bp: usize, prefer_fast: bool) -> UnwindRequest {
    UnwindRequest { max_depth, pc, bp, stack_top: 0, stack_bottom: 0, prefer_fast }
}

#[test]
fn previous_pc_points_before_return_address() {
    assert_eq!(previous_pc(0x401000), 0x400fff);
    assert_eq!(previous_pc(1), 0);
}

#[test]
fn previous_pc_of_zero_wraps() {
    assert_eq!(previous_pc(0), usize::MAX);
}

#[test]
fn previous_pc_is_deterministic() {
    assert_eq!(previous_pc(0xdead_beef), previous_pc(0xdead_beef));
    assert_eq!(previous_pc(0), previous_pc(0));
}

#[test]
fn new_buffer_is_empty() {
    let st = Stacktrace::new();
    assert_eq!(st.len(), 0);
    assert!(st.trace().is_empty());
}

#[test]
fn zero_depth_gives_empty_trace() {
    let mut st = Stacktrace::new();
    st.unwind_from(0, 0x4242, addr(0), &chain(3));
    assert!(st.trace().is_empty());
}

#[test]
fn depth_one_gives_pc_only() {
    let mut st = Stacktrace::new();
    st.unwind_from(1, 0x4242, addr(0), &chain(3));
    assert_eq!(st.trace(), &[0x4242]);
}

#[test]
fn ten_frame_chain_is_captured_in_order() {
    // The starting frame plus nine callers.
    let mut st = Stacktrace::new();
    st.unwind_from(STACK_TRACE_MAX, 0x4242, addr(0), &chain(9));
    let mut expected = vec![0x4242];
    for k in 0..9 {
        expected.push(0x1000 + k);
    }
    assert_eq!(st.trace(), expected.as_slice());
    assert_eq!(st.len(), 10);

    st.unwind_from(10, 0x4242, addr(0), &chain(9));
    assert_eq!(st.trace(), expected.as_slice());
}

#[test]
fn depth_limit_truncates_trace() {
    let mut st = Stacktrace::new();
    st.unwind_from(5, 0x4242, addr(0), &chain(9));
    assert_eq!(st.trace(), &[0x4242, 0x1000, 0x1001, 0x1002, 0x1003]);
}

#[test]
fn largest_depth_on_a_long_chain_stops_at_capacity() {
    let mut st = Stacktrace::new();
    st.unwind_from(STACK_TRACE_MAX, 0x4242, addr(0), &chain(300));
    assert_eq!(st.len(), 255);
    assert_eq!(st.trace()[0], 0x4242);
    assert_eq!(st.trace()[254], 0x1000 + 253);
}

#[test]
fn cycle_in_chain_ends_walk() {
    // Frames at slots 0, 2, 4, 6; the fourth points back to the second.
    let stack = stack_with(
        10,
        &[
            (0, addr(2), 0xa0),
            (2, addr(4), 0xa1),
            (4, addr(6), 0xa2),
            (6, addr(2), 0xa3),
        ],
    );
    let mut st = Stacktrace::new();
    st.unwind_from(STACK_TRACE_MAX, 0x4242, addr(0), &stack);
    assert_eq!(st.trace(), &[0x4242, 0xa0, 0xa1, 0xa2, 0xa3]);
}

#[test]
fn frame_that_points_to_itself_ends_walk() {
    let stack = stack_with(6, &[(0, addr(2), 0xa0), (2, addr(2), 0xa1)]);
    let mut st = Stacktrace::new();
    st.unwind_from(STACK_TRACE_MAX, 0x4242, addr(0), &stack);
    assert_eq!(st.trace(), &[0x4242, 0xa0, 0xa1]);
}

#[test]
fn link_above_stack_top_ends_walk() {
    // The third record lies in the snapshot but past the stated stack top.
    let stack = stack_with(
        10,
        &[(0, addr(2), 0xa0), (2, addr(4), 0xa1), (4, 0, 0xa2)],
    );
    let req = UnwindRequest {
        max_depth: STACK_TRACE_MAX,
        pc: 0x4242,
        bp: addr(0),
        stack_top: addr(5),
        stack_bottom: BASE - W,
        prefer_fast: true,
    };
    let mut st = Stacktrace::new();
    st.unwind_with(&req, &stack, None);
    assert_eq!(st.trace(), &[0x4242, 0xa0, 0xa1]);
}

#[test]
fn link_below_stack_bottom_ends_walk() {
    let stack = stack_with(8, &[(2, addr(0), 0xa0), (0, addr(4), 0xa1)]);
    let req = UnwindRequest {
        max_depth: STACK_TRACE_MAX,
        pc: 0x4242,
        bp: addr(2),
        stack_top: addr(8),
        stack_bottom: addr(1),
        prefer_fast: true,
    };
    let mut st = Stacktrace::new();
    st.unwind_with(&req, &stack, None);
    assert_eq!(st.trace(), &[0x4242, 0xa0]);
}

#[test]
fn start_at_or_below_stack_bottom_gives_pc_only() {
    let req = UnwindRequest {
        max_depth: STACK_TRACE_MAX,
        pc: 0x4242,
        bp: addr(0),
        stack_top: 0,
        stack_bottom: addr(0),
        prefer_fast: true,
    };
    let mut st = Stacktrace::new();
    st.unwind_with(&req, &chain(4), None);
    assert_eq!(st.trace(), &[0x4242]);
}

#[test]
fn misaligned_frame_ends_walk() {
    let stack = stack_with(6, &[(0, addr(2) + 1, 0xa0)]);
    let mut st = Stacktrace::new();
    st.unwind_from(STACK_TRACE_MAX, 0x4242, addr(0), &stack);
    assert_eq!(st.trace(), &[0x4242, 0xa0]);
}

#[test]
fn record_outside_snapshot_ends_walk() {
    let stack = stack_with(4, &[(0, addr(3), 0xa0)]);
    let mut st = Stacktrace::new();
    st.unwind_from(STACK_TRACE_MAX, 0x4242, addr(0), &stack);
    assert_eq!(st.trace(), &[0x4242, 0xa0]);
}

#[test]
fn null_frame_pointer_gives_pc_only() {
    let mut st = Stacktrace::new();
    st.unwind_from(STACK_TRACE_MAX, 0x4242, 0, &chain(4));
    assert_eq!(st.trace(), &[0x4242]);

    st.unwind_with(&request(STACK_TRACE_MAX, 0x4242, 0, false), &chain(4), None);
    assert_eq!(st.trace(), &[0x4242]);
}

#[test]
fn empty_snapshot_gives_pc_only() {
    let mut st = Stacktrace::new();
    st.unwind_from(STACK_TRACE_MAX, 0x4242, addr(0), &StackSnapshot::empty());
    assert_eq!(st.trace(), &[0x4242]);
}

#[test]
fn second_unwind_overwrites_first() {
    let mut st = Stacktrace::new();
    st.unwind_from(STACK_TRACE_MAX, 0x4242, addr(0), &chain(9));
    assert_eq!(st.len(), 10);
    st.unwind_from(STACK_TRACE_MAX, 0x5151, addr(0), &chain(2));
    assert_eq!(st.trace(), &[0x5151, 0x1000, 0x1001]);
    st.unwind_from(STACK_TRACE_MAX, 0x6161, 0, &chain(2));
    assert_eq!(st.trace(), &[0x6161]);
}

#[test]
fn precise_walk_used_when_fast_not_preferred() {
    let callers = vec![0xc0, 0xc1, 0xc2];
    let mut st = Stacktrace::new();
    st.unwind_with(&request(STACK_TRACE_MAX, 0x4242, addr(0), false), &chain(5), Some(&callers));
    assert_eq!(st.trace(), &[0x4242, 0xc0, 0xc1, 0xc2]);
}

#[test]
fn precise_walk_is_cut_to_depth() {
    let callers = vec![0xc0, 0xc1, 0xc2];
    let mut st = Stacktrace::new();
    st.unwind_with(&request(3, 0x4242, addr(0), false), &chain(5), Some(&callers));
    assert_eq!(st.trace(), &[0x4242, 0xc0, 0xc1]);
}

#[test]
fn fast_walk_used_when_preferred_and_chain_present() {
    let callers = vec![0xc0, 0xc1, 0xc2];
    let mut st = Stacktrace::new();
    st.unwind_with(&request(STACK_TRACE_MAX, 0x4242, addr(0), true), &chain(2), Some(&callers));
    assert_eq!(st.trace(), &[0x4242, 0x1000, 0x1001]);
}

#[test]
fn precise_walk_used_when_fast_walk_stops_at_start() {
    let callers = vec![0xc0, 0xc1];
    let mut st = Stacktrace::new();
    st.unwind_with(&request(STACK_TRACE_MAX, 0x4242, 0, true), &chain(2), Some(&callers));
    assert_eq!(st.trace(), &[0x4242, 0xc0, 0xc1]);
}

#[test]
fn no_unwind_tables_falls_back_to_fast_walk() {
    let mut st = Stacktrace::new();
    st.unwind_with(&request(STACK_TRACE_MAX, 0x4242, addr(0), false), &chain(2), None);
    assert_eq!(st.trace(), &[0x4242, 0x1000, 0x1001]);
}

#[test]
fn snapshot_reports_its_extent() {
    let stack = chain(3);
    assert_eq!(stack.base(), BASE);
    assert_eq!(stack.len(), 8);
    assert!(stack.has_record(addr(0)));
    assert!(stack.has_record(addr(6)));
    assert!(!stack.has_record(addr(7)));
    assert!(!stack.has_record(addr(0) + 1));
    assert!(!stack.has_record(BASE - W));
    assert_eq!(stack.read_record(addr(2)), (addr(4), 0x1001));
}
