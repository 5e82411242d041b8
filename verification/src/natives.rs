//! Plain-value models of the monitored process's call-frame data.
//!
//! In the running process these values live in foreign memory and are read
//! through an interception layer; here each type holds, as plain fields,
//! exactly what the capture and rendering logic reads from it. The
//! name-resolution service, which turns an opaque symbol handle into display
//! text, is modelled by [`NameTable`].

use vstd::prelude::*;

verus! {

/// Opaque handle naming a function or class symbol of the monitored process.
/// Only its numeric identity matters to this library; display text comes from
/// a [`NameTable`].
#[derive(Clone, Copy, Debug, PartialEq, Eq, Structural)]
pub struct CName(pub u64);

/// The class-lookup capability of a function's virtual table: the only thing
/// the capture logic asks of it is the owning class, if any.
#[derive(Clone, Debug, PartialEq, Eq)]
pub struct FuncVft {
    pub class: Option<Class>,
}

/// A class of the monitored process, as far as rendering reads it: its name.
#[derive(Clone, Copy, Debug, PartialEq, Eq)]
pub struct Class {
    pub name: CName,
}

/// A function of the monitored process: its name and its virtual table.
#[derive(Clone, Debug, PartialEq, Eq)]
pub struct Func {
    pub name: CName,
    pub vft: FuncVft,
}

/// One node of the frame chain handed over on an intercepted call: the
/// function executing in that frame and the parent (outer) frame, or `None`
/// at the outermost frame.
#[derive(Debug, PartialEq, Eq)]
pub struct StackFrame {
    pub func: Func,
    pub parent: Option<Box<StackFrame>>,
}

/// The name-resolution service as a value: pairs an opaque handle's identity
/// with its display text. A handle absent from the table is unresolvable,
/// which rendering tolerates by contributing nothing.
pub struct NameTable {
    pub entries: Vec<(u64, String)>,
}

/// The text that a table resolves a handle identity to: the first entry with
/// that identity decides, `None` when there is none.
pub open spec fn name_of(entries: Seq<(u64, String)>, id: u64) -> Option<Seq<char>>
    decreases entries.len(),
{
    if entries.len() == 0 {
        None
    } else if entries[0].0 == id {
        Some(entries[0].1@)
    } else {
        name_of(entries.drop_first(), id)
    }
}

impl CName {
    /// Resolve this handle against the given table: the first entry with this
    /// handle's identity, or `None` when the handle is unresolvable.
    pub fn resolve(&self, names: &NameTable) -> (r: Option<String>)
        ensures
            match r {
                Some(s) => name_of(names.entries@, self.0) == Some(s@),
                None => name_of(names.entries@, self.0) is None,
            },
    {
        let n = names.entries.len();
        let mut i: usize = 0;
        proof {
            assert(names.entries@.skip(0) =~= names.entries@);
        }
        while i < n
            invariant
                i <= n,
                n == names.entries@.len(),
                name_of(names.entries@, self.0) == name_of(names.entries@.skip(i as int), self.0),
            decreases n - i,
        {
            proof {
                assert(names.entries@.skip(i as int).drop_first() =~= names.entries@.skip(
                    i as int + 1,
                ));
                assert(names.entries@.skip(i as int)[0] == names.entries@[i as int]);
            }
            if names.entries[i].0 == self.0 {
                return Some(names.entries[i].1.clone());
            }
            i += 1;
        }
        proof {
            assert(names.entries@.skip(n as int) =~= Seq::<(u64, String)>::empty());
        }
        None
    }
}

} // verus!
