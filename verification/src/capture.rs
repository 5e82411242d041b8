//! The capture algorithm: walks a frame chain from the innermost frame
//! outwards, builds a bounded stack trace, and installs it in the registry
//! under the capturing thread's identity.

use vstd::prelude::*;

use crate::frame::{StackFrameInfo, StackTrace, MAX_TRACE_SIZE};
use crate::natives::StackFrame;
use crate::registry::TraceRegistry;

verus! {

/// The descriptor the walk builds for one chain node: the frame's function
/// is always known; the class is read from the function's virtual table.
pub open spec fn frame_info(f: StackFrame) -> StackFrameInfo {
    StackFrameInfo {
        function: Some(f.func.name),
        class: match f.func.vft.class {
            Some(c) => Some(c.name),
            None => None,
        },
    }
}

/// Number of nodes on the chain starting at `f`.
pub open spec fn chain_depth(f: StackFrame) -> nat
    decreases f,
{
    match f.parent {
        None => 1,
        Some(p) => 1 + chain_depth(*p),
    }
}

/// The parent of `f` as an owned option, for walking in specifications.
pub open spec fn parent_of(f: StackFrame) -> Option<StackFrame> {
    match f.parent {
        Some(p) => Some(*p),
        None => None,
    }
}

/// The descriptors a walk collects from the chain starting at `head`,
/// innermost first, stopping after `fuel` nodes: the truncation a trace of
/// capacity `fuel` imposes.
pub open spec fn walked_frames(head: Option<StackFrame>, fuel: nat) -> Seq<StackFrameInfo>
    decreases fuel,
{
    match head {
        None => Seq::empty(),
        Some(f) => if fuel == 0 {
            Seq::empty()
        } else {
            seq![frame_info(f)] + walked_frames(parent_of(f), (fuel - 1) as nat)
        },
    }
}

/// The value of an optional borrowed chain head.
pub open spec fn opt_frame(head: Option<&StackFrame>) -> Option<StackFrame> {
    match head {
        Some(f) => Some(*f),
        None => None,
    }
}

/// Walk the chain from `f` outwards, pushing one descriptor per node, and
/// stop at the first rejected push: the remaining capacity decides how many
/// nodes are recorded.
fn walk_into(trace: &mut StackTrace, f: &StackFrame)
    requires
        old(trace).wf(),
    ensures
        final(trace).wf(),
        final(trace).spec_capacity() == old(trace).spec_capacity(),
        final(trace)@ == old(trace)@ + walked_frames(
            Some(*f),
            (old(trace).spec_capacity() - old(trace)@.len()) as nat,
        ),
    decreases chain_depth(*f),
{
    let ghost fuel: nat = (old(trace).spec_capacity() - old(trace)@.len()) as nat;
    let info = StackFrameInfo {
        function: Some(f.func.name),
        class: match &f.func.vft.class {
            Some(c) => Some(c.name),
            None => None,
        },
    };
    proof {
        assert(info == frame_info(*f));
    }
    if trace.try_push(info).is_ok() {
        proof {
            assert(fuel >= 1);
            assert(trace@ == old(trace)@.push(info));
        }
        match &f.parent {
            Some(b) => {
                walk_into(trace, b);
                proof {
                    assert(parent_of(*f) == Some(**b));
                    assert(walked_frames(Some(*f), fuel) == seq![frame_info(*f)]
                        + walked_frames(parent_of(*f), (fuel - 1) as nat));
                    assert(trace@ =~= old(trace)@ + walked_frames(Some(*f), fuel));
                }
            },
            None => {
                proof {
                    assert(parent_of(*f) is None);
                    assert(walked_frames(parent_of(*f), (fuel - 1) as nat)
                        =~= Seq::<StackFrameInfo>::empty());
                    assert(walked_frames(Some(*f), fuel) == seq![frame_info(*f)]
                        + walked_frames(parent_of(*f), (fuel - 1) as nat));
                    assert(trace@ =~= old(trace)@ + walked_frames(Some(*f), fuel));
                }
            },
        }
    } else {
        proof {
            assert(old(trace)@.len() == old(trace).spec_capacity());
            assert(fuel == 0);
            assert(walked_frames(Some(*f), fuel) =~= Seq::<StackFrameInfo>::empty());
            assert(trace@ =~= old(trace)@ + walked_frames(Some(*f), fuel));
        }
    }
}

/// Build a fresh trace of the default capacity from the chain starting at
/// `head`: one descriptor per node, innermost first, truncated at capacity.
pub fn capture(head: Option<&StackFrame>) -> (t: StackTrace)
    ensures
        t.wf(),
        t.spec_capacity() == MAX_TRACE_SIZE as nat,
        t@ == walked_frames(opt_frame(head), MAX_TRACE_SIZE as nat),
{
    let mut trace = StackTrace::default();
    match head {
        Some(f) => walk_into(&mut trace, f),
        None => {},
    }
    trace
}

/// One intercepted call boundary: capture the chain starting at `head` and
/// install the completed trace in the registry under `thread_id`, replacing
/// any prior trace for that thread. Exactly one registry write.
pub fn record_call(registry: &mut TraceRegistry, thread_id: u64, head: Option<&StackFrame>)
    ensures
        final(registry)@ == old(registry)@.insert(
            thread_id,
            walked_frames(opt_frame(head), MAX_TRACE_SIZE as nat),
        ),
{
    let trace = capture(head);
    registry.insert(thread_id, trace);
}

} // verus!
