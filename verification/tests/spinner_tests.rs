use spinner::{CycleOutput, LineFormat, SpinnerBuilder, SpinnerHandle, SpinnerMessage};
use std::sync::mpsc::{channel, TryRecvError};

#[test]
fn builder_defaults() {
    let st = SpinnerBuilder::new("working".to_string()).build();
    assert_eq!(st.status, "working".to_string());
    assert_eq!(st.frames.len(), 12);
    assert_eq!(st.frames[0], "\u{2581}");
    assert_eq!(st.cursor, 0);
    assert_eq!(st.step_ms, 100);
    assert!(st.format.is_none());
}

#[test]
fn builder_custom_parts() {
    let st = SpinnerBuilder::new("m".to_string())
        .spinner(vec!["a", "b"])
        .step(50)
        .build();
    assert_eq!(st.frames, vec!["a", "b"]);
    assert_eq!(st.step_ms, 50);
    assert_eq!(st.status, "m".to_string());
}

#[test]
fn frames_cycle_in_order_and_wrap() {
    let mut st = SpinnerBuilder::new("m".to_string())
        .spinner(vec!["x", "y", "z"])
        .build();
    assert_eq!(st.cursor, 0);
    st.advance();
    assert_eq!(st.cursor, 1);
    st.advance();
    assert_eq!(st.cursor, 2);
    st.advance();
    assert_eq!(st.cursor, 0);
    st.advance();
    assert_eq!(st.cursor, 1);
}

#[test]
fn frame_cursor_is_periodic() {
    let mut st = SpinnerBuilder::new("m".to_string())
        .spinner(vec!["x", "y", "z"])
        .build();
    st.advance();
    let seen = st.cursor;
    for _ in 0..3 {
        st.advance();
    }
    assert_eq!(st.cursor, seen);
}

#[test]
fn drain_keeps_last_status_and_last_message() {
    let mut st = SpinnerBuilder::new("s0".to_string())
        .spinner(vec!["a", "b"])
        .build();
    let batch = vec![
        SpinnerMessage::Status("s1".to_string()),
        SpinnerMessage::Message("m1".to_string()),
        SpinnerMessage::Status("s2".to_string()),
        SpinnerMessage::Message("m2".to_string()),
    ];
    let out: CycleOutput = st.cycle(batch, false);
    assert_eq!(st.status, "s2".to_string());
    assert_eq!(out.printed, Some("m2".to_string()));
    assert_eq!(out.line, Some("a s2".to_string()));
    assert!(!out.stop);
    assert_eq!(st.cursor, 1);
}

#[test]
fn drain_of_nothing_changes_nothing() {
    let mut st = SpinnerBuilder::new("s0".to_string())
        .spinner(vec!["a", "b"])
        .build();
    let out = st.cycle(vec![], false);
    assert_eq!(st.status, "s0".to_string());
    assert!(out.printed.is_none());
    assert_eq!(out.line, Some("a s0".to_string()));
    assert_eq!(st.cursor, 1);
}

#[test]
fn custom_format_shapes_the_line() {
    let mut st = SpinnerBuilder::new("s".to_string())
        .spinner(vec!["a"])
        .format(LineFormat {
            before: "[".to_string(),
            between: "|".to_string(),
            after: "]".to_string(),
        })
        .build();
    let out = st.cycle(vec![], false);
    assert_eq!(out.line, Some("[a|s]".to_string()));
}

#[test]
fn terminating_cycle_draws_no_line_but_surfaces_the_message() {
    let mut st = SpinnerBuilder::new("s".to_string())
        .spinner(vec!["a", "b"])
        .build();
    let batch = vec![SpinnerMessage::Message("bye".to_string())];
    let out = st.cycle(batch, true);
    assert!(out.stop);
    assert!(out.line.is_none());
    assert_eq!(out.printed, Some("bye".to_string()));
    assert_eq!(st.cursor, 0);
}

#[test]
fn handle_delivers_messages_in_order() {
    let (tx, rx) = channel();
    let h = SpinnerHandle::new(tx);
    assert!(h.update("one".to_string()).is_none());
    assert!(h.message("two".to_string()).is_none());
    let first = rx.try_recv().unwrap();
    let second = rx.try_recv().unwrap();
    assert!(matches!(first, SpinnerMessage::Status(s) if s == "one"));
    assert!(matches!(second, SpinnerMessage::Message(s) if s == "two"));
    assert!(matches!(rx.try_recv(), Err(TryRecvError::Empty)));
}

#[test]
fn send_after_loop_is_gone_returns_the_payload() {
    let (tx, rx) = channel();
    let h = SpinnerHandle::new(tx);
    drop(rx);
    assert_eq!(h.update("lost status".to_string()), Some("lost status".to_string()));
    assert_eq!(h.message("lost message".to_string()), Some("lost message".to_string()));
    h.close();
}

#[test]
fn immediate_close_terminates_cleanly() {
    let (tx, rx) = channel();
    let h = SpinnerHandle::new(tx);
    let mut st = SpinnerBuilder::new("working".to_string()).build();
    h.close();
    assert!(matches!(rx.try_recv(), Err(TryRecvError::Disconnected)));
    let out = st.cycle(vec![], true);
    assert!(out.stop);
    assert!(out.line.is_none());
    assert!(out.printed.is_none());
}
