//! The thread-indexed trace registry: a concurrent map from thread identity
//! (its process-unique numeric value) to the latest bounded stack trace
//! captured for that thread.
//!
//! The map itself comes from the `dashmap` crate and is held behind
//! [`TraceRegistry`]; this module gives its contents a name,
//! [`registry_view`], and states over that name what the operations the
//! library calls do.

use vstd::prelude::*;

use crate::frame::{StackFrameInfo, StackTrace};

verus! {

/// A concurrent mapping from thread identity to the trace last installed for
/// that thread. Many threads may insert concurrently, each under its own
/// identity; a dump takes a snapshot of all entries.
#[verifier::external_body]
pub struct TraceRegistry {
    inner: dashmap::DashMap<u64, StackTrace>,
}

/// What the registry holds: each registered thread identity mapped to the
/// view of the trace last installed for it.
pub uninterp spec fn registry_view(reg: TraceRegistry) -> Map<u64, Seq<StackFrameInfo>>;

impl View for TraceRegistry {
    type V = Map<u64, Seq<StackFrameInfo>>;

    open spec fn view(&self) -> Map<u64, Seq<StackFrameInfo>> {
        registry_view(*self)
    }
}

impl TraceRegistry {
    /// Relies on `dashmap::DashMap::new`: a newly created map holds no
    /// entry.
    #[verifier::external_body]
    pub fn new() -> (reg: Self)
        ensures
            forall|k: u64| !registry_view(reg).contains_key(k),
    {
        TraceRegistry { inner: dashmap::DashMap::new() }
    }

    /// Relies on `dashmap::DashMap::insert`: maps `key` to `trace`,
    /// replacing any prior entry for `key` and leaving every other entry
    /// unchanged.
    #[verifier::external_body]
    pub fn insert(&mut self, key: u64, trace: StackTrace)
        ensures
            final(self)@ == old(self)@.insert(key, trace@),
    {
        self.inner.insert(key, trace);
    }

    /// Relies on `dashmap::DashMap::iter`: yields every entry of the map
    /// exactly once, in no fixed order; each yielded value is the trace
    /// stored under its key.
    #[verifier::external_body]
    pub fn snapshot(&self) -> (pairs: Vec<(u64, StackTrace)>)
        ensures
            forall|i: int|
                0 <= i < pairs@.len() ==> self@.contains_key(#[trigger] pairs@[i].0)
                    && self@[pairs@[i].0] == pairs@[i].1@,
            forall|k: u64|
                self@.contains_key(k) ==> exists|i: int|
                    0 <= i < pairs@.len() && #[trigger] pairs@[i].0 == k,
            forall|i: int, j: int|
                0 <= i < pairs@.len() && 0 <= j < pairs@.len() && i != j ==> #[trigger] pairs@[i].0
                    != #[trigger] pairs@[j].0,
    {
        let mut out = Vec::new();
        for entry in self.inner.iter() {
            out.push((*entry.key(), entry.value().clone()));
        }
        out
    }
}

/// A sequence of installations interleaved from any number of threads,
/// applied in order: each installation maps one thread identity to the trace
/// view it installed.
pub open spec fn apply_inserts(
    m: Map<u64, Seq<StackFrameInfo>>,
    ops: Seq<(u64, Seq<StackFrameInfo>)>,
) -> Map<u64, Seq<StackFrameInfo>>
    decreases ops.len(),
{
    if ops.len() == 0 {
        m
    } else {
        apply_inserts(m, ops.drop_last()).insert(ops.last().0, ops.last().1)
    }
}

/// The trace view of the last installation in `ops` made under identity `k`,
/// `None` when no installation in `ops` used `k`.
pub open spec fn last_write(ops: Seq<(u64, Seq<StackFrameInfo>)>, k: u64) -> Option<
    Seq<StackFrameInfo>,
>
    decreases ops.len(),
{
    if ops.len() == 0 {
        None
    } else if ops.last().0 == k {
        Some(ops.last().1)
    } else {
        last_write(ops.drop_last(), k)
    }
}

/// Law: however installations from distinct threads interleave, no entry is
/// lost and none is mixed: after any sequence of installations, each
/// identity that installed at least once is registered with exactly the
/// trace of its own last installation, and an identity that never installed
/// keeps whatever the registry held for it before.
pub proof fn lemma_interleaved_installs(
    m: Map<u64, Seq<StackFrameInfo>>,
    ops: Seq<(u64, Seq<StackFrameInfo>)>,
    k: u64,
)
    ensures
        match last_write(ops, k) {
            Some(v) => apply_inserts(m, ops).contains_key(k) && apply_inserts(m, ops)[k] == v,
            None => (apply_inserts(m, ops).contains_key(k) <==> m.contains_key(k))
                && (m.contains_key(k) ==> apply_inserts(m, ops)[k] == m[k]),
        },
    decreases ops.len(),
{
    if ops.len() > 0 {
        lemma_interleaved_installs(m, ops.drop_last(), k);
    }
}

} // verus!
