//! Rendering, registry ordering and report formatting.

use crash_traces::frame::{StackFrameInfo, StackTrace};
use crash_traces::natives::{CName, NameTable};
use crash_traces::registry::TraceRegistry;
use crash_traces::render::{render_frame, render_path, truncate_signature, PATH_SEPARATOR};
use crash_traces::report::{build_report, crash_wrapper, dump_traces, render_report, DumpError};

fn names() -> NameTable {
    NameTable {
        entries: vec![
            (1, String::from("OnUpdate;Signature1")),
            (2, String::from("PlayerController")),
            (3, String::from("Tick;X")),
            (4, String::from("Respawn")),
            (5, String::from("GameInstance")),
        ],
    }
}

#[test]
fn truncation_cuts_at_first_separator() {
    assert_eq!(truncate_signature("OnUpdate;Signature1"), "OnUpdate");
    assert_eq!(truncate_signature("Tick;X;Y"), "Tick");
    assert_eq!(truncate_signature("Respawn"), "Respawn");
    assert_eq!(truncate_signature(""), "");
    assert_eq!(truncate_signature(";leading"), "");
}

#[test]
fn frame_with_class_renders_qualified() {
    let info = StackFrameInfo { function: Some(CName(1)), class: Some(CName(2)) };
    assert_eq!(render_frame(&info, &names()), "PlayerController::OnUpdate");
}

#[test]
fn frame_without_class_renders_function_alone() {
    let info = StackFrameInfo { function: Some(CName(3)), class: None };
    assert_eq!(render_frame(&info, &names()), "Tick");
}

#[test]
fn frame_without_function_renders_nothing() {
    let info = StackFrameInfo { function: None, class: Some(CName(2)) };
    assert_eq!(render_frame(&info, &names()), "");
}

#[test]
fn unresolvable_function_renders_nothing() {
    let info = StackFrameInfo { function: Some(CName(77)), class: None };
    assert_eq!(render_frame(&info, &names()), "");
}

#[test]
fn resolve_finds_first_entry_or_nothing() {
    let table = names();
    assert_eq!(CName(4).resolve(&table), Some(String::from("Respawn")));
    assert_eq!(CName(77).resolve(&table), None);
}

#[test]
fn trace_renders_outermost_first_without_trailing_separator() {
    // innermost Respawn, middle Tick, outermost PlayerController::OnUpdate
    let frames = vec![
        StackFrameInfo { function: Some(CName(4)), class: None },
        StackFrameInfo { function: Some(CName(3)), class: None },
        StackFrameInfo { function: Some(CName(1)), class: Some(CName(2)) },
    ];
    let expected = format!(
        "PlayerController::OnUpdate{0}Tick{0}Respawn",
        PATH_SEPARATOR
    );
    assert_eq!(render_path(&frames, &names()), expected);
}

#[test]
fn empty_contributions_leave_no_stray_separators() {
    let frames = vec![
        StackFrameInfo { function: Some(CName(4)), class: None },
        StackFrameInfo { function: None, class: None },
        StackFrameInfo { function: Some(CName(3)), class: None },
    ];
    let expected = format!("Tick{}Respawn", PATH_SEPARATOR);
    assert_eq!(render_path(&frames, &names()), expected);
}

fn one_frame_trace(function: u64) -> StackTrace {
    let mut trace: StackTrace = Default::default();
    trace
        .try_push(StackFrameInfo { function: Some(CName(function)), class: None })
        .unwrap();
    trace
}

#[test]
fn registry_keeps_last_trace_per_thread() {
    let mut registry = TraceRegistry::new();
    for round in 0..1000u64 {
        registry.insert(21, one_frame_trace(3));
        registry.insert(42, one_frame_trace(round % 5));
        registry.insert(21, one_frame_trace(4));
    }
    let mut pairs = registry.snapshot();
    pairs.sort_by_key(|p| p.0);
    assert_eq!(pairs.len(), 2);
    assert_eq!(pairs[0].0, 21);
    assert_eq!(pairs[0].1.iter(), one_frame_trace(4).iter());
    assert_eq!(pairs[1].0, 42);
    assert_eq!(pairs[1].1.iter(), one_frame_trace(4).iter());
}

#[test]
fn report_rows_are_sorted_by_thread_identity() {
    let mut registry = TraceRegistry::new();
    registry.insert(30, one_frame_trace(4));
    registry.insert(10, one_frame_trace(3));
    registry.insert(20, one_frame_trace(1));
    let report = render_report(&registry, &names(), "Fri, 01 Jan 2021 00:00:00 +0000");
    let table = &report[report.find("threads:\n").expect("label line")..];
    let pos_10 = table.find("10").expect("row for thread 10");
    let pos_20 = table.find("20").expect("row for thread 20");
    let pos_30 = table.find("30").expect("row for thread 30");
    assert!(pos_10 < pos_20);
    assert!(pos_20 < pos_30);
    assert!(table.contains("Tick"));
    assert!(table.contains("OnUpdate"));
    assert!(table.contains("Respawn"));
}

#[test]
fn report_with_no_threads_keeps_header_and_footer() {
    let registry = TraceRegistry::new();
    let report = render_report(&registry, &names(), "SOME TIMESTAMP");
    let lines: Vec<&str> = report.split('\n').collect();
    assert_eq!(lines[0], "");
    assert_eq!(lines[1], "Game crashed at SOME TIMESTAMP");
    assert_eq!(lines[2], "Traces for all game threads:");
    // table body: header and separator rows only, no data row
    assert!(lines[3].contains("thread"));
    assert!(lines[3].contains("stack trace"));
    assert!(lines[4].starts_with("|-"));
    assert_eq!(lines[5], "");
    assert_eq!(lines[6], "");
    assert_eq!(lines.len(), 7);
}

#[test]
fn report_table_is_github_styled() {
    let mut registry = TraceRegistry::new();
    registry.insert(7, one_frame_trace(4));
    let report = render_report(&registry, &names(), "TS");
    assert!(report.contains("thread"));
    assert!(report.contains("stack trace"));
    assert!(report.contains("Respawn"));
    assert!(report.contains("|-"));
}

#[test]
fn report_shows_full_thread_identity() {
    let mut registry = TraceRegistry::new();
    registry.insert(3_000_000_000, one_frame_trace(4));
    registry.insert(u64::MAX, one_frame_trace(3));
    let report = render_report(&registry, &names(), "TS");
    let table = &report[report.find("threads:\n").expect("label line")..];
    let small = table.find("3000000000").expect("identity above the i32 range");
    let large = table.find("18446744073709551615").expect("largest identity");
    assert!(small < large);
}

#[test]
fn zero_width_characters_are_sanitized_not_fatal() {
    // U+0301 is a combining accent of display width zero; the table
    // formatter cannot lay it out, so the path shows ? in its place.
    let table = NameTable {
        entries: vec![(1, String::from("Ca\u{301}ll;Sig")), (2, String::from("Zero\u{200b}Width"))],
    };
    let mut registry = TraceRegistry::new();
    let mut trace: StackTrace = Default::default();
    trace
        .try_push(StackFrameInfo { function: Some(CName(1)), class: Some(CName(2)) })
        .unwrap();
    registry.insert(9, trace);
    let report = render_report(&registry, &table, "TS");
    assert!(report.contains("Zero?Width::Ca?ll"));
}

#[test]
fn build_report_frames_the_body() {
    let text = build_report("WHEN", "BODY");
    assert_eq!(text, "\nGame crashed at WHEN\nTraces for all game threads:\nBODY\n\n");
}

#[test]
fn dump_produces_report_or_reports_missing_timestamp() {
    let mut registry = TraceRegistry::new();
    registry.insert(5, one_frame_trace(3));
    match dump_traces(&registry, &names()) {
        Ok(report) => {
            assert!(report.contains("Game crashed at "));
            assert!(report.contains("Tick"));
        },
        Err(e) => assert_eq!(e, DumpError::TimestampUnavailable),
    }
}

#[test]
fn crash_wrapper_runs_the_dump() {
    let registry = TraceRegistry::new();
    match crash_wrapper(&registry, &names()) {
        Ok(report) => assert!(report.contains("Traces for all game threads:")),
        Err(e) => assert_eq!(e, DumpError::TimestampUnavailable),
    }
}
