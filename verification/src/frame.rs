//! The bounded stack trace: a fixed-capacity, append-only sequence of frame
//! descriptors for one capture event, with overflow signalling.

use vstd::prelude::*;

use crate::natives::CName;

verus! {

/// Default capacity of a [`StackTrace`].
pub const MAX_TRACE_SIZE: usize = 8;

/// One call-stack entry: the frame's function, if known, and the function's
/// owning class, if it has one. A descriptor without a function contributes
/// nothing to rendering.
#[derive(Clone, Copy, Debug, PartialEq, Eq)]
pub struct StackFrameInfo {
    pub function: Option<CName>,
    pub class: Option<CName>,
}

impl Default for StackFrameInfo {
    /// A descriptor with neither function nor class.
    fn default() -> (r: Self)
        ensures
            r.function is None,
            r.class is None,
    {
        StackFrameInfo { function: None, class: None }
    }
}

/// Signal that a push met a full trace: the caller stops walking further
/// frames. An expected boundary condition, not a fatal error.
#[derive(Debug, PartialEq, Eq)]
pub struct ReachedMaxTrace;

/// A fixed-capacity, append-only sequence of frame descriptors in
/// innermost-first order (index 0 is the most recently entered frame).
/// Its view is the sequence of stored descriptors; the capacity never
/// changes after construction.
#[derive(Clone, Debug)]
pub struct StackTrace {
    frames: Vec<StackFrameInfo>,
    capacity: usize,
}

impl View for StackTrace {
    type V = Seq<StackFrameInfo>;

    closed spec fn view(&self) -> Seq<StackFrameInfo> {
        self.frames@
    }
}

impl StackTrace {
    /// The fixed capacity this trace was constructed with.
    pub closed spec fn spec_capacity(&self) -> nat {
        self.capacity as nat
    }

    /// A trace never holds more descriptors than its capacity.
    pub open spec fn wf(&self) -> bool {
        self@.len() <= self.spec_capacity()
    }

    /// An empty trace with the given fixed capacity. The backing storage is
    /// allocated here, in full, so that pushes on the capture hot path
    /// never allocate.
    pub fn with_capacity(capacity: usize) -> (r: Self)
        ensures
            r@ == Seq::<StackFrameInfo>::empty(),
            r.spec_capacity() == capacity as nat,
    {
        StackTrace { frames: Vec::with_capacity(capacity), capacity }
    }

    /// Append `frame` at the end if the trace is not yet full; a full trace
    /// is left unchanged and the push is rejected with [`ReachedMaxTrace`].
    pub fn try_push(&mut self, frame: StackFrameInfo) -> (r: Result<(), ReachedMaxTrace>)
        ensures
            final(self).spec_capacity() == old(self).spec_capacity(),
            old(self)@.len() < old(self).spec_capacity() ==> r is Ok && final(self)@ == old(
                self,
            )@.push(frame),
            old(self)@.len() >= old(self).spec_capacity() ==> r is Err && final(self)@ == old(
                self,
            )@,
    {
        if self.frames.len() < self.capacity {
            self.frames.push(frame);
            Ok(())
        } else {
            Err(ReachedMaxTrace)
        }
    }

    /// The stored descriptors, innermost first. Rendering walks the result
    /// from the end to traverse the trace outermost first.
    pub fn iter(&self) -> (r: Vec<StackFrameInfo>)
        ensures
            r@ == self@,
    {
        let n = self.frames.len();
        let mut out: Vec<StackFrameInfo> = Vec::new();
        let mut i: usize = 0;
        while i < n
            invariant
                i <= n,
                n == self.frames@.len(),
                out@ == self.frames@.take(i as int),
            decreases n - i,
        {
            out.push(self.frames[i]);
            proof {
                assert(self.frames@.take(i as int).push(self.frames@[i as int]) =~= self.frames@.take(
                    i as int + 1,
                ));
            }
            i += 1;
        }
        proof {
            assert(self.frames@.take(n as int) =~= self.frames@);
        }
        out
    }

    /// The number of descriptors currently stored.
    pub fn size(&self) -> (n: usize)
        ensures
            n == self@.len(),
    {
        self.frames.len()
    }
}

impl Default for StackTrace {
    /// An empty trace with the default capacity [`MAX_TRACE_SIZE`].
    fn default() -> (r: Self)
        ensures
            r@ == Seq::<StackFrameInfo>::empty(),
            r.spec_capacity() == MAX_TRACE_SIZE as nat,
    {
        StackTrace::with_capacity(MAX_TRACE_SIZE)
    }
}

/// The view a trace of capacity `cap` holds after the descriptors of `frames`
/// are pushed in order onto an empty trace: each push lands while the trace
/// is below capacity and is rejected afterwards.
pub open spec fn pushed_views(cap: nat, frames: Seq<StackFrameInfo>) -> Seq<StackFrameInfo>
    decreases frames.len(),
{
    if frames.len() == 0 {
        Seq::empty()
    } else {
        let prev = pushed_views(cap, frames.drop_last());
        if prev.len() < cap {
            prev.push(frames.last())
        } else {
            prev
        }
    }
}

/// Law: pushing `k <= cap` descriptors onto an empty trace of capacity `cap`
/// stores exactly those `k` descriptors, in push order.
pub proof fn lemma_pushes_within_capacity(cap: nat, frames: Seq<StackFrameInfo>)
    requires
        frames.len() <= cap,
    ensures
        pushed_views(cap, frames) == frames,
    decreases frames.len(),
{
    if frames.len() > 0 {
        lemma_pushes_within_capacity(cap, frames.drop_last());
        assert(pushed_views(cap, frames) =~= frames);
    } else {
        assert(pushed_views(cap, frames) =~= frames);
    }
}

/// Law: pushing more descriptors than the capacity stores exactly the first
/// `cap` of them, unchanged; everything after the capacity-reached signal is
/// absent.
pub proof fn lemma_pushes_beyond_capacity(cap: nat, frames: Seq<StackFrameInfo>)
    requires
        frames.len() >= cap,
    ensures
        pushed_views(cap, frames) == frames.take(cap as int),
    decreases frames.len(),
{
    if frames.len() == cap {
        lemma_pushes_within_capacity(cap, frames);
        assert(frames.take(cap as int) =~= frames);
    } else {
        lemma_pushes_beyond_capacity(cap, frames.drop_last());
        assert(frames.drop_last().take(cap as int) =~= frames.take(cap as int));
        assert(pushed_views(cap, frames) == pushed_views(cap, frames.drop_last()));
    }
}

} // verus!
