//! Behaviour of the bounded stack trace and the capture walk.

use crash_traces::capture::{capture, record_call};
use crash_traces::frame::{ReachedMaxTrace, StackFrameInfo, StackTrace, MAX_TRACE_SIZE};
use crash_traces::natives::{CName, Class, Func, FuncVft, StackFrame};

fn frame_info(n: u64) -> StackFrameInfo {
    StackFrameInfo { function: Some(CName(n)), class: None }
}

#[test]
fn pushes_within_capacity_keep_order() {
    let mut trace: StackTrace = Default::default();
    assert_eq!(trace.size(), 0);
    for n in 1..=3u64 {
        assert!(trace.try_push(frame_info(n)).is_ok());
    }
    assert_eq!(trace.size(), 3);
    let frames = trace.iter();
    assert_eq!(frames, vec![frame_info(1), frame_info(2), frame_info(3)]);
    let reversed: Vec<StackFrameInfo> = frames.iter().rev().cloned().collect();
    assert_eq!(reversed, vec![frame_info(3), frame_info(2), frame_info(1)]);
}

#[test]
fn push_beyond_capacity_signals_and_keeps_first_frames() {
    let mut trace: StackTrace = Default::default();
    for n in 0..MAX_TRACE_SIZE as u64 {
        assert!(trace.try_push(frame_info(n)).is_ok());
    }
    let expected: Vec<StackFrameInfo> = (0..MAX_TRACE_SIZE as u64).map(frame_info).collect();
    assert_eq!(trace.try_push(frame_info(99)), Err(ReachedMaxTrace));
    assert_eq!(trace.size(), MAX_TRACE_SIZE);
    assert_eq!(trace.iter(), expected);
}

#[test]
fn small_capacity_trace_truncates() {
    let mut trace = StackTrace::with_capacity(2);
    assert!(trace.try_push(frame_info(1)).is_ok());
    assert!(trace.try_push(frame_info(2)).is_ok());
    assert!(trace.try_push(frame_info(3)).is_err());
    assert_eq!(trace.iter(), vec![frame_info(1), frame_info(2)]);
}

/// A linear chain of `depth` frames, innermost first, with function names
/// `start`, `start + 1`, ...; every other frame owns a class named ten times
/// its function name.
fn build_chain(depth: u64, start: u64) -> StackFrame {
    let mut node: Option<Box<StackFrame>> = None;
    for i in (0..depth).rev() {
        let class = if i % 2 == 0 {
            Some(Class { name: CName((start + i) * 10) })
        } else {
            None
        };
        node = Some(Box::new(StackFrame {
            func: Func { name: CName(start + i), vft: FuncVft { class } },
            parent: node,
        }));
    }
    *node.expect("depth must be positive")
}

#[test]
fn capture_walks_chain_innermost_first() {
    let head = build_chain(3, 1);
    let trace = capture(Some(&head));
    assert_eq!(trace.size(), 3);
    let frames = trace.iter();
    assert_eq!(frames[0].function, Some(CName(1)));
    assert_eq!(frames[0].class, Some(CName(10)));
    assert_eq!(frames[1].function, Some(CName(2)));
    assert_eq!(frames[1].class, None);
    assert_eq!(frames[2].function, Some(CName(3)));
    assert_eq!(frames[2].class, Some(CName(30)));
}

#[test]
fn capture_truncates_deep_chain_at_capacity() {
    let head = build_chain(10, 1);
    let trace = capture(Some(&head));
    assert_eq!(trace.size(), 8);
    let frames = trace.iter();
    for (i, frame) in frames.iter().enumerate() {
        assert_eq!(frame.function, Some(CName(1 + i as u64)));
    }
    // the ninth and tenth chain frames are absent from the installed trace
    assert!(frames.iter().all(|f| f.function != Some(CName(9))));
    assert!(frames.iter().all(|f| f.function != Some(CName(10))));
}

#[test]
fn record_call_installs_capture_under_thread_identity() {
    let mut registry = crash_traces::registry::TraceRegistry::new();
    let head = build_chain(2, 5);
    record_call(&mut registry, 77, Some(&head));
    let pairs = registry.snapshot();
    assert_eq!(pairs.len(), 1);
    assert_eq!(pairs[0].0, 77);
    let frames = pairs[0].1.iter();
    assert_eq!(frames.len(), 2);
    assert_eq!(frames[0].function, Some(CName(5)));
    assert_eq!(frames[1].function, Some(CName(6)));
}

#[test]
fn capture_of_no_chain_is_empty() {
    let trace = capture(None);
    assert_eq!(trace.size(), 0);
    assert_eq!(trace.iter(), vec![]);
}
