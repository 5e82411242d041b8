//! Rendering of captured traces into readable call-path strings.
//!
//! A frame renders as `Class::Function` when both names resolve, as
//! `Function` alone when it has no class, and contributes nothing when its
//! function is unknown or unresolvable. Function names carry a
//! `;`-delimited signature suffix that is cut off before display. A trace
//! renders outermost frame first, the segments joined by an arrow separator.

use vstd::prelude::*;

use crate::frame::StackFrameInfo;
use crate::natives::{name_of, NameTable};

verus! {

/// The separator between rendered frames of one call path.
pub const PATH_SEPARATOR: &'static str = "\n \u{21b3} ";

/// `name` up to, and without, its first `;`: the signature suffix of a
/// function name is not displayed.
pub open spec fn signature_cut(name: Seq<char>) -> Seq<char>
    decreases name.len(),
{
    if name.len() == 0 {
        name
    } else if name[0] == ';' {
        Seq::empty()
    } else {
        seq![name[0]] + signature_cut(name.drop_first())
    }
}

proof fn lemma_signature_cut_take(name: Seq<char>, idx: int)
    requires
        0 <= idx <= name.len(),
        forall|j: int| 0 <= j < idx ==> name[j] != ';',
        idx < name.len() ==> name[idx] == ';',
    ensures
        signature_cut(name) == name.take(idx),
    decreases idx,
{
    if name.len() == 0 {
        assert(name.take(idx) =~= name);
    } else if idx == 0 {
        if name[0] == ';' {
            assert(name.take(0) =~= Seq::<char>::empty());
        } else {
            assert(idx < name.len());
            assert(name[idx] == ';');
        }
    } else {
        lemma_signature_cut_take(name.drop_first(), idx - 1);
        assert(name.drop_first().take(idx - 1) =~= name.take(idx).drop_first());
        assert(signature_cut(name) == seq![name[0]] + signature_cut(name.drop_first()));
        assert(seq![name[0]] + name.take(idx).drop_first() =~= name.take(idx));
    }
}

/// Index of the first `;` in `name`, or the length when there is none.
fn find_separator(name: &str) -> (idx: usize)
    ensures
        idx <= name@.len(),
        forall|j: int| 0 <= j < idx ==> name@[j] != ';',
        idx < name@.len() ==> name@[idx as int] == ';',
{
    let n = name.unicode_len();
    let mut i: usize = 0;
    while i < n
        invariant
            i <= n,
            n == name@.len(),
            forall|j: int| 0 <= j < i ==> name@[j] != ';',
        decreases n - i,
    {
        if name.get_char(i) == ';' {
            return i;
        }
        i += 1;
    }
    i
}

/// `name` up to its first `;`, the overload or signature suffix stripped.
pub fn truncate_signature(name: &str) -> (r: String)
    ensures
        r@ == signature_cut(name@),
{
    let idx = find_separator(name);
    let cut = name.substring_char(0, idx);
    proof {
        lemma_signature_cut_take(name@, idx as int);
        assert(cut@ == name@.subrange(0, idx as int));
        assert(name@.take(idx as int) =~= name@.subrange(0, idx as int));
    }
    cut.to_owned()
}

/// What one frame contributes to a rendered path, under the given name
/// table: `Class::Function` when the function resolves and a class is
/// present and resolves; `Function` alone when there is no class or the
/// class is unresolvable; nothing when the function is absent or
/// unresolvable. Function names are cut at the first `;`.
pub open spec fn rendered_frame(info: StackFrameInfo, names: Seq<(u64, String)>) -> Seq<char> {
    match info.function {
        None => Seq::empty(),
        Some(f) => match name_of(names, f.0) {
            None => Seq::empty(),
            Some(fname) => {
                let base = signature_cut(fname);
                match info.class {
                    None => base,
                    Some(c) => match name_of(names, c.0) {
                        None => base,
                        Some(cname) => cname + "::"@ + base,
                    },
                }
            },
        },
    }
}

/// Render one frame against the name table.
pub fn render_frame(info: &StackFrameInfo, names: &NameTable) -> (r: String)
    ensures
        r@ == rendered_frame(*info, names.entries@),
{
    match info.function {
        None => String::new(),
        Some(f) => match f.resolve(names) {
            None => String::new(),
            Some(fname) => {
                let base = truncate_signature(fname.as_str());
                match info.class {
                    None => base,
                    Some(c) => match c.resolve(names) {
                        None => base,
                        Some(cname) => {
                            let mut out = cname;
                            out.append("::");
                            out.append(base.as_str());
                            out
                        },
                    },
                }
            },
        },
    }
}

/// The non-empty frame contributions of a trace, outermost frame first:
/// the reverse of storage order, frames that contribute nothing left out.
pub open spec fn trace_segments(frames: Seq<StackFrameInfo>, names: Seq<(u64, String)>) -> Seq<
    Seq<char>,
>
    decreases frames.len(),
{
    if frames.len() == 0 {
        Seq::empty()
    } else {
        let s = rendered_frame(frames.last(), names);
        let rest = trace_segments(frames.drop_last(), names);
        if s.len() == 0 {
            rest
        } else {
            seq![s] + rest
        }
    }
}

/// `segments` joined by `sep`: no separator before the first segment and
/// none after the last.
pub open spec fn joined(segments: Seq<Seq<char>>, sep: Seq<char>) -> Seq<char>
    decreases segments.len(),
{
    if segments.len() == 0 {
        Seq::empty()
    } else if segments.len() == 1 {
        segments[0]
    } else {
        joined(segments.drop_last(), sep) + sep + segments.last()
    }
}

/// A whole trace rendered as one call path: its non-empty frame
/// contributions, outermost first, joined by [`PATH_SEPARATOR`].
pub open spec fn rendered_trace(frames: Seq<StackFrameInfo>, names: Seq<(u64, String)>) -> Seq<
    char,
> {
    joined(trace_segments(frames, names), PATH_SEPARATOR@)
}

/// Join already-rendered segments with [`PATH_SEPARATOR`].
fn join_segments(segments: &Vec<String>) -> (r: String)
    ensures
        r@ == joined(segments@.map_values(|s: String| s@), PATH_SEPARATOR@),
{
    let ghost segs: Seq<Seq<char>> = segments@.map_values(|s: String| s@);
    let mut out = String::new();
    let n = segments.len();
    let mut i: usize = 0;
    while i < n
        invariant
            i <= n,
            n == segments@.len(),
            segs == segments@.map_values(|s: String| s@),
            out@ == joined(segs.take(i as int), PATH_SEPARATOR@),
        decreases n - i,
    {
        if i > 0 {
            out.append(PATH_SEPARATOR);
        }
        out.append(segments[i].as_str());
        proof {
            assert(segs.take(i as int + 1).drop_last() =~= segs.take(i as int));
            assert(segs.take(i as int + 1).last() == segs[i as int]);
            assert(segs[i as int] == segments@[i as int]@);
            if i == 0 {
                assert(joined(segs.take(1), PATH_SEPARATOR@) == segs[0]);
            }
        }
        i += 1;
    }
    proof {
        assert(segs.take(n as int) =~= segs);
    }
    out
}

/// Render a whole trace, given as its stored descriptors innermost first,
/// into one call path.
pub fn render_path(frames: &Vec<StackFrameInfo>, names: &NameTable) -> (r: String)
    ensures
        r@ == rendered_trace(frames@, names.entries@),
{
    let mut segments: Vec<String> = Vec::new();
    let n = frames.len();
    let mut k: usize = n;
    proof {
        assert(frames@.take(n as int) =~= frames@);
        assert(segments@.map_values(|s: String| s@) =~= Seq::<Seq<char>>::empty());
    }
    while k > 0
        invariant
            k <= n,
            n == frames@.len(),
            trace_segments(frames@, names.entries@) == segments@.map_values(|s: String| s@)
                + trace_segments(frames@.take(k as int), names.entries@),
        decreases k,
    {
        let s = render_frame(&frames[k - 1], names);
        proof {
            assert(frames@.take(k as int).drop_last() =~= frames@.take(k as int - 1));
            assert(frames@.take(k as int).last() == frames@[k as int - 1]);
        }
        if s.as_str().unicode_len() > 0 {
            let ghost old_segs = segments@;
            segments.push(s);
            proof {
                assert(segments@.map_values(|t: String| t@) =~= old_segs.map_values(
                    |t: String| t@,
                ).push(s@));
                assert(old_segs.map_values(|t: String| t@).push(s@) =~= old_segs.map_values(
                    |t: String| t@,
                ) + seq![s@]);
            }
        }
        k -= 1;
    }
    proof {
        assert(frames@.take(0) =~= Seq::<StackFrameInfo>::empty());
        assert(trace_segments(frames@.take(0), names.entries@) =~= Seq::<Seq<char>>::empty());
        assert(trace_segments(frames@, names.entries@) =~= segments@.map_values(
            |s: String| s@,
        ));
    }
    join_segments(&segments)
}

} // verus!
