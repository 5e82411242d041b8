//! The dump/report generator: snapshots the registry, orders the entries by
//! thread identity, renders each trace into a call path, and formats the
//! whole as a two-column tabular report with a timestamp header.

use vstd::prelude::*;

use crate::frame::{StackFrameInfo, StackTrace};
use crate::natives::NameTable;
use crate::registry::TraceRegistry;
use crate::render::{render_path, rendered_trace};

verus! {

/// Why a dump produced no report. Capacity truncation is not an error, and
/// name-resolution failures are tolerated during rendering, so only an
/// unavailable timestamp is left.
#[derive(Clone, Copy, Debug, PartialEq, Eq)]
pub enum DumpError {
    TimestampUnavailable,
}

/// Keys in strictly ascending order.
pub open spec fn strictly_sorted(keys: Seq<u64>) -> bool {
    forall|i: int, j: int| 0 <= i < j < keys.len() ==> keys[i] < keys[j]
}

/// Insert `k` into a strictly sorted vector, keeping it strictly sorted.
fn insert_sorted(out: &mut Vec<u64>, k: u64)
    requires
        strictly_sorted(old(out)@),
        !old(out)@.contains(k),
    ensures
        strictly_sorted(final(out)@),
        final(out)@.len() == old(out)@.len() + 1,
        forall|x: u64| final(out)@.contains(x) <==> (old(out)@.contains(x) || x == k),
{
    let n = out.len();
    let mut p: usize = 0;
    while p < n && out[p] < k
        invariant
            p <= n,
            n == out@.len(),
            forall|j: int| 0 <= j < p ==> out@[j] < k,
        decreases n - p,
    {
        p += 1;
    }
    proof {
        if p < n {
            assert(out@.contains(k) ==> exists|i: int| 0 <= i < out@.len() && out@[i] == k);
            assert(out@[p as int] != k);
            assert(out@[p as int] > k);
        }
    }
    let ghost before = out@;
    out.insert(p, k);
    proof {
        assert(out@ == before.insert(p as int, k));
        assert(forall|idx: int| 0 <= idx < p ==> out@[idx] == before[idx]);
        assert(out@[p as int] == k);
        assert(forall|idx: int| p < idx < out@.len() ==> out@[idx] == before[idx - 1]);
        assert forall|i: int, j: int| 0 <= i < j < out@.len() implies out@[i] < out@[j] by {
            if j < p {
            } else if i >= p + 1 {
                assert(before[i - 1] < before[j - 1]);
            } else if j == p {
                assert(out@[i] == before[i] && before[i] < k);
            } else if i == p {
                assert(out@[j] == before[j - 1] && before[j - 1] > k);
            } else {
                assert(i < p && j > p);
                assert(out@[i] == before[i] && out@[j] == before[j - 1]);
                assert(before[i] < k && k < before[j - 1]);
            }
        }
        assert forall|x: u64| final(out)@.contains(x) implies (before.contains(x) || x == k) by {
            let w = choose|w: int| 0 <= w < out@.len() && out@[w] == x;
            if w < p {
                assert(before[w] == x);
            } else if w == p {
            } else {
                assert(before[w - 1] == x);
            }
        }
        assert forall|x: u64| (before.contains(x) || x == k) implies final(out)@.contains(x) by {
            if x == k {
                assert(out@[p as int] == x);
            } else {
                let w = choose|w: int| 0 <= w < before.len() && before[w] == x;
                if w < p {
                    assert(out@[w] == x);
                } else {
                    assert(out@[w + 1] == x);
                }
            }
        }
    }
}

/// The thread identities of a snapshot, in strictly ascending order: the
/// deterministic row order of a report, independent of the order the
/// snapshot yielded them in.
fn sorted_keys_of(pairs: &Vec<(u64, StackTrace)>) -> (keys: Vec<u64>)
    requires
        forall|i: int, j: int|
            0 <= i < pairs@.len() && 0 <= j < pairs@.len() && i != j ==> #[trigger] pairs@[i].0
                != #[trigger] pairs@[j].0,
    ensures
        strictly_sorted(keys@),
        keys@.len() == pairs@.len(),
        forall|x: u64|
            keys@.contains(x) <==> (exists|i: int| 0 <= i < pairs@.len() && #[trigger] pairs@[i].0
                == x),
{
    let n = pairs.len();
    let mut keys: Vec<u64> = Vec::new();
    let mut i: usize = 0;
    while i < n
        invariant
            i <= n,
            n == pairs@.len(),
            forall|a: int, b: int|
                0 <= a < pairs@.len() && 0 <= b < pairs@.len() && a != b ==> #[trigger] pairs@[a].0
                    != #[trigger] pairs@[b].0,
            strictly_sorted(keys@),
            keys@.len() == i,
            forall|x: u64|
                keys@.contains(x) <==> (exists|a: int| 0 <= a < i && #[trigger] pairs@[a].0 == x),
        decreases n - i,
    {
        proof {
            if keys@.contains(pairs@[i as int].0) {
                let a = choose|a: int| 0 <= a < i && pairs@[a].0 == pairs@[i as int].0;
                assert(false);
            }
        }
        insert_sorted(&mut keys, pairs[i].0);
        i += 1;
    }
    keys
}

/// Index of the entry of `pairs` registered under `k`.
fn find_index(pairs: &Vec<(u64, StackTrace)>, k: u64) -> (idx: usize)
    requires
        exists|i: int| 0 <= i < pairs@.len() && #[trigger] pairs@[i].0 == k,
    ensures
        idx < pairs@.len(),
        pairs@[idx as int].0 == k,
{
    let n = pairs.len();
    let mut i: usize = 0;
    while i < n
        invariant
            i <= n,
            n == pairs@.len(),
            exists|a: int| 0 <= a < pairs@.len() && #[trigger] pairs@[a].0 == k,
            forall|j: int| 0 <= j < i ==> pairs@[j].0 != k,
        decreases n - i,
    {
        if pairs[i].0 == k {
            return i;
        }
        i += 1;
    }
    proof {
        assert(false);
    }
    0
}

/// The rows of a report for the registry contents `entries` under the name
/// table `names`: one row per registered thread, in strictly ascending
/// order of thread identity, each carrying that thread's rendered call
/// path. These conditions pin the row sequence completely.
pub open spec fn report_rows(
    entries: Map<u64, Seq<StackFrameInfo>>,
    names: Seq<(u64, String)>,
    rows: Seq<(u64, Seq<char>)>,
) -> bool {
    &&& forall|i: int, j: int| 0 <= i < j < rows.len() ==> rows[i].0 < rows[j].0
    &&& forall|i: int|
        0 <= i < rows.len() ==> entries.contains_key(#[trigger] rows[i].0) && rows[i].1
            == rendered_trace(entries[rows[i].0], names)
    &&& forall|k: u64|
        entries.contains_key(k) ==> exists|i: int| 0 <= i < rows.len() && #[trigger] rows[i].0 == k
}

/// Law: a report for a registry with no registered thread has no rows: its
/// table body is the formatted empty row sequence, while the header, label
/// and timestamp lines around it stand untouched.
pub proof fn lemma_empty_registry_rows(
    names: Seq<(u64, String)>,
    rows: Seq<(u64, Seq<char>)>,
)
    requires
        report_rows(Map::<u64, Seq<StackFrameInfo>>::empty(), names, rows),
    ensures
        rows == Seq::<(u64, Seq<char>)>::empty(),
{
    if rows.len() > 0 {
        assert(Map::<u64, Seq<StackFrameInfo>>::empty().contains_key(rows[0].0));
    }
    assert(rows =~= Seq::<(u64, Seq<char>)>::empty());
}

/// A character the table formatter lays out in exactly one column: the
/// printable ASCII range and the path arrow, each of display width one, and
/// the newline, on which the formatter splits cell text before measuring
/// it. The formatter subtracts a line's character count from its display
/// width in `usize`, so a character of display width zero (a combining or
/// control character) would drive that subtraction below zero.
pub open spec fn display_safe_char(c: char) -> bool {
    (32 <= c as int && c as int <= 126) || c == '\u{21b3}' || c == '\n'
}

/// Text every character of which the table formatter lays out safely.
pub open spec fn display_safe_text(s: Seq<char>) -> bool {
    forall|i: int| 0 <= i < s.len() ==> display_safe_char(#[trigger] s[i])
}

/// `s` with every character the table formatter cannot lay out safely
/// replaced by `?`: rendered call paths pass through this on their way to
/// the formatter, so that a dump in a crash context never panics on exotic
/// symbol text.
pub open spec fn sanitized(s: Seq<char>) -> Seq<char> {
    Seq::new(s.len(), |i: int| if display_safe_char(s[i]) { s[i] } else { '?' })
}

/// The rows of a report with each call path made display-safe.
pub open spec fn sanitize_rows(rows: Seq<(u64, Seq<char>)>) -> Seq<(u64, Seq<char>)> {
    rows.map_values(|p: (u64, Seq<char>)| (p.0, sanitized(p.1)))
}

/// Sanitized text is display-safe.
proof fn lemma_sanitized_safe(s: Seq<char>)
    ensures
        display_safe_text(sanitized(s)),
{
    assert forall|i: int| 0 <= i < sanitized(s).len() implies display_safe_char(
        #[trigger] sanitized(s)[i],
    ) by {
        if !display_safe_char(s[i]) {
            assert(sanitized(s)[i] == '?');
        }
    }
}

/// Replace every character the table formatter cannot lay out safely by `?`.
fn sanitize_text(s: &str) -> (r: String)
    ensures
        r@ == sanitized(s@),
{
    let n = s.unicode_len();
    let mut out = String::new();
    let mut i: usize = 0;
    proof {
        assert(out@ =~= sanitized(s@).take(0));
    }
    while i < n
        invariant
            i <= n,
            n == s@.len(),
            out@ == sanitized(s@).take(i as int),
        decreases n - i,
    {
        let c = s.get_char(i);
        let u = c as u32;
        if (32 <= u && u <= 126) || c == '\u{21b3}' || c == '\n' {
            let piece = s.substring_char(i, i + 1);
            out.append(piece);
            proof {
                assert(piece@ =~= seq![s@[i as int]]);
            }
        } else {
            out.append("?");
            proof {
                reveal_strlit("?");
                assert("?"@ =~= seq!['?']);
            }
        }
        proof {
            assert(sanitized(s@).take(i as int).push(sanitized(s@)[i as int]) =~= sanitized(
                s@,
            ).take(i as int + 1));
            assert(out@ =~= sanitized(s@).take(i as int + 1));
        }
        i += 1;
    }
    proof {
        assert(sanitized(s@).take(n as int) =~= sanitized(s@));
    }
    out
}

/// The text of the two-column table ("thread" against "stack trace") that
/// the table formatter produces for the given rows, each thread identity
/// shown as its full decimal value.
pub uninterp spec fn github_table(rows: Seq<(u64, Seq<char>)>) -> Seq<char>;

/// Relies on `stybulate::Table::tabulate` with `Style::Github` and the
/// column headers "thread" and "stack trace": pure text formatting, a
/// function of the given rows alone. Each thread identity goes in as a text
/// cell holding its full decimal value, so no identity is narrowed or
/// wrapped. The path texts must be display-safe, for the formatter would
/// underflow on a line whose display width is below its character count;
/// the decimal digits, the headers and the fixed borders are display-safe
/// of themselves.
#[verifier::external_body]
fn tabulate_rows(rows: &Vec<(u64, String)>) -> (r: String)
    requires
        forall|i: int| 0 <= i < rows@.len() ==> display_safe_text(#[trigger] rows@[i].1@),
    ensures
        r@ == github_table(rows@.map_values(|p: (u64, String)| (p.0, p.1@))),
{
    let mut cells: Vec<Vec<stybulate::Cell>> = Vec::new();
    for (thread, path) in rows.iter() {
        let id = thread.to_string();
        cells.push(vec![stybulate::Cell::from(id.as_str()), stybulate::Cell::from(path.as_str())]);
    }
    let headers = stybulate::Headers::from(vec!["thread", "stack trace"]);
    stybulate::Table::new(stybulate::Style::Github, cells, Some(headers)).tabulate()
}

#[verifier::external_type_specification]
#[verifier::external_body]
pub struct ExOffsetDateTime(time::OffsetDateTime);

/// Relies on `time::OffsetDateTime::now_local`: reads the clock and the
/// local offset; `None` when the local offset cannot be determined. No two
/// calls need agree, so nothing more is promised of the result. A system
/// clock set beyond the years the time crate can represent panics inside
/// its `now_utc` rather than erring: a machine-limit edge this contract
/// cannot exclude, since the clock is not a parameter.
#[verifier::external_body]
fn local_now() -> (r: Option<time::OffsetDateTime>) {
    time::OffsetDateTime::now_local().ok()
}

/// The RFC 2822 text of an instant: what the time formatter returns for
/// it, a function of the instant alone.
pub uninterp spec fn rfc2822_of(t: time::OffsetDateTime) -> Seq<char>;

/// Relies on `time::OffsetDateTime::format` with the well-known RFC 2822
/// description: formats the given instant — named [`rfc2822_of`], since the
/// result depends on the instant alone — and fails only by an `Err`,
/// converted to `None`; no panic for any instant.
#[verifier::external_body]
fn format_rfc2822(t: &time::OffsetDateTime) -> (r: Option<String>)
    ensures
        r matches Some(s) ==> s@ == rfc2822_of(*t),
{
    (*t).format(&time::format_description::well_known::Rfc2822).ok()
}

/// The local time, formatted as an RFC 2822 timestamp, when both the clock
/// and the formatter cooperate: on success the text is the RFC 2822
/// rendering of some instant.
fn current_timestamp() -> (r: Option<String>)
    ensures
        r matches Some(s) ==> exists|t: time::OffsetDateTime| s@ == #[trigger] rfc2822_of(t),
{
    match local_now() {
        Some(t) => {
            let out = format_rfc2822(&t);
            proof {
                assert(out matches Some(s) ==> s@ == rfc2822_of(t));
            }
            out
        },
        None => None,
    }
}

/// The complete report text around a formatted table body: a blank line, the
/// failure-event header with its timestamp, the fixed label line, the body,
/// and a closing blank line.
pub open spec fn report_text(timestamp: Seq<char>, body: Seq<char>) -> Seq<char> {
    "\n"@ + "Game crashed at "@ + timestamp + "\n"@ + "Traces for all game threads:"@ + "\n"@
        + body + "\n"@ + "\n"@
}

/// Assemble the report text around an already formatted table body.
pub fn build_report(timestamp: &str, body: &str) -> (r: String)
    ensures
        r@ == report_text(timestamp@, body@),
{
    let mut out = String::new();
    out.append("\n");
    out.append("Game crashed at ");
    out.append(timestamp);
    out.append("\n");
    out.append("Traces for all game threads:");
    out.append("\n");
    out.append(body);
    out.append("\n");
    out.append("\n");
    proof {
        assert(out@ =~= report_text(timestamp@, body@));
    }
    out
}

/// Render the complete report for the current registry contents under the
/// given timestamp: one row per registered thread, in ascending order of
/// thread identity, each with its rendered call path, formatted as a table
/// between the fixed header and footer lines.
pub fn render_report(registry: &TraceRegistry, names: &NameTable, timestamp: &str) -> (r: String)
    ensures
        exists|rows: Seq<(u64, Seq<char>)>|
            #[trigger] report_rows(registry@, names.entries@, rows) && r@ == report_text(
                timestamp@,
                github_table(sanitize_rows(rows)),
            ),
{
    let pairs = registry.snapshot();
    let keys = sorted_keys_of(&pairs);
    let n = keys.len();
    let mut rows: Vec<(u64, String)> = Vec::new();
    let mut i: usize = 0;
    while i < n
        invariant
            i <= n,
            n == keys@.len(),
            strictly_sorted(keys@),
            keys@.len() == pairs@.len(),
            forall|x: u64|
                keys@.contains(x) <==> (exists|a: int| 0 <= a < pairs@.len()
                    && #[trigger] pairs@[a].0 == x),
            forall|a: int|
                0 <= a < pairs@.len() ==> registry@.contains_key(#[trigger] pairs@[a].0)
                    && registry@[pairs@[a].0] == pairs@[a].1@,
            rows@.len() == i,
            forall|a: int|
                0 <= a < i ==> (#[trigger] rows@[a].0) == keys@[a] && registry@.contains_key(
                    rows@[a].0,
                ) && rows@[a].1@ == sanitized(
                    rendered_trace(registry@[rows@[a].0], names.entries@),
                ),
        decreases n - i,
    {
        let k = keys[i];
        proof {
            assert(keys@[i as int] == k);
            assert(keys@.contains(k));
        }
        let idx = find_index(&pairs, k);
        let frames = pairs[idx].1.iter();
        let path = render_path(&frames, names);
        let safe_path = sanitize_text(path.as_str());
        rows.push((k, safe_path));
        i += 1;
    }
    let ghost true_rows: Seq<(u64, Seq<char>)> = Seq::new(
        rows@.len() as nat,
        |a: int| (rows@[a].0, rendered_trace(registry@[rows@[a].0], names.entries@)),
    );
    proof {
        assert forall|k: u64| registry@.contains_key(k) implies exists|a: int|
            0 <= a < true_rows.len() && #[trigger] true_rows[a].0 == k by {
            let w = choose|w: int| 0 <= w < pairs@.len() && #[trigger] pairs@[w].0 == k;
            assert(keys@.contains(k));
            let a = choose|a: int| 0 <= a < keys@.len() && keys@[a] == k;
            assert(true_rows[a].0 == k);
        }
        assert(report_rows(registry@, names.entries@, true_rows));
        assert(rows@.map_values(|p: (u64, String)| (p.0, p.1@)) =~= sanitize_rows(true_rows));
        assert forall|a: int| 0 <= a < rows@.len() implies display_safe_text(
            #[trigger] rows@[a].1@,
        ) by {
            lemma_sanitized_safe(rendered_trace(registry@[rows@[a].0], names.entries@));
        }
    }
    let body = tabulate_rows(&rows);
    build_report(timestamp, body.as_str())
}

/// Produce the crash report for the current registry contents: the rendered,
/// deterministically ordered table between the fixed header and footer
/// lines, under the local RFC 2822 timestamp. Fails only when no timestamp
/// can be obtained; the caller reports that to a fallback channel instead of
/// letting it reach the monitored process's own failure path.
pub fn dump_traces(registry: &TraceRegistry, names: &NameTable) -> (r: Result<String, DumpError>)
    ensures
        match r {
            Ok(s) => exists|t: time::OffsetDateTime, rows: Seq<(u64, Seq<char>)>|
                report_rows(registry@, names.entries@, rows) && s@ == #[trigger] report_text(
                    rfc2822_of(t),
                    github_table(sanitize_rows(rows)),
                ),
            Err(e) => e == DumpError::TimestampUnavailable,
        },
{
    match current_timestamp() {
        Some(ts) => {
            let out = render_report(registry, names, ts.as_str());
            proof {
                let t = choose|t: time::OffsetDateTime| ts@ == #[trigger] rfc2822_of(t);
                let rows = choose|rows: Seq<(u64, Seq<char>)>|
                    #[trigger] report_rows(registry@, names.entries@, rows) && out@ == report_text(
                        ts@,
                        github_table(sanitize_rows(rows)),
                    );
                assert(report_rows(registry@, names.entries@, rows) && out@ == report_text(
                    rfc2822_of(t),
                    github_table(sanitize_rows(rows)),
                ));
            }
            Ok(out)
        },
        None => Err(DumpError::TimestampUnavailable),
    }
}

/// The crash-path entry: runs the dump for the registry as it stands. The
/// interception layer calls this on the fatal-failure trigger, hands the
/// report to the output sink, and then forwards the original arguments to
/// the monitored process's own failure handler unchanged.
pub fn crash_wrapper(registry: &TraceRegistry, names: &NameTable) -> (r: Result<String, DumpError>)
    ensures
        match r {
            Ok(s) => exists|t: time::OffsetDateTime, rows: Seq<(u64, Seq<char>)>|
                report_rows(registry@, names.entries@, rows) && s@ == #[trigger] report_text(
                    rfc2822_of(t),
                    github_table(sanitize_rows(rows)),
                ),
            Err(e) => e == DumpError::TimestampUnavailable,
        },
{
    dump_traces(registry, names)
}

} // verus!
