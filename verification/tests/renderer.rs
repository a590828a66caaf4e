use bootseq::tasks::{FixedOutcome, TaskExecutor};
use bootseq::tui::{
    compose_display, draw_current_task, fail_frame, format_log, loading_frame, ok_frame, Tui,
    TuiState,
};

const GRAY: &str = "\x1b[37m";
const WHITE: &str = "\x1b[97m";

#[test]
fn empty_log_renders_empty() {
    assert_eq!(format_log(""), "");
}

#[test]
fn two_entries_render_two_lines() {
    // Every appended entry begins with its separator; the implicit empty
    // leading segment is never rendered.
    let log = "\nfirst entry\nsecond entry";
    let expected = format!(
        "{}first entry{}\n{}second entry{}\n",
        GRAY, WHITE, GRAY, WHITE
    );
    assert_eq!(format_log(log), expected);
}

#[test]
fn single_segment_without_separator_renders_empty() {
    assert_eq!(format_log("no separator before me"), "");
}

#[test]
fn trailing_separator_renders_trailing_empty_line() {
    let expected = format!("{}a{}\n{}{}\n", GRAY, WHITE, GRAY, WHITE);
    assert_eq!(format_log("\na\n"), expected);
}

#[test]
fn log_message_is_timestamped() {
    let mut st = TuiState::new();
    st.log_message(0, 0, "hello");
    let rendered = format_log(st.log_text().as_str());
    assert_eq!(
        rendered,
        format!("{}1970-01-01T00:00:00Z: hello{}\n", GRAY, WHITE)
    );
}

#[test]
fn log_message_formats_subseconds() {
    let mut st = TuiState::new();
    // 2018-02-14T00:28:07Z with half a second.
    st.log_message(1_518_568_087, 500_000_000, "tick");
    assert_eq!(
        st.log_text(),
        "\n2018-02-14T00:28:07.500000000Z: tick".to_string()
    );
}

#[test]
fn completed_lines_carry_status_frames() {
    let mut e = TaskExecutor::new();
    e.register("good", FixedOutcome { result: true });
    e.register("bad", FixedOutcome { result: false });
    e.start();

    let mut st = TuiState::new();
    st.push_completed(&e.info(0).unwrap());
    st.push_completed(&e.info(1).unwrap());
    let expected = format!(
        "\n{} good\n{} bad",
        ok_frame(),
        fail_frame()
    );
    assert_eq!(st.log_text(), expected);
}

#[test]
fn unconcluded_task_adds_no_completion_line() {
    let mut e = TaskExecutor::new();
    e.register("pending", FixedOutcome { result: true });
    let mut st = TuiState::new();
    st.push_completed(&e.info(0).unwrap());
    assert_eq!(st.log_text(), "");
}

#[test]
fn spinner_drawn_only_for_in_flight_task() {
    let mut e = TaskExecutor::new();
    e.register("work", FixedOutcome { result: true });
    let info = e.info(0);

    // Not running: nothing is drawn.
    assert_eq!(draw_current_task(false, &info, 0), "");
    // Running, task not yet concluded: spinner plus descriptor.
    let line = draw_current_task(true, &info, 3);
    assert_eq!(line, format!("{} work", loading_frame(3)));
    // Concluded task: no spinner.
    e.start();
    let done = e.info(0);
    assert_eq!(draw_current_task(true, &done, 3), "");
    // No task at all: nothing.
    assert_eq!(draw_current_task(true, &None, 0), "");
}

#[test]
fn composed_display_opens_in_default_colour() {
    assert_eq!(compose_display("LOG", "TASK"), format!("{}LOGTASK", WHITE));
}

#[test]
fn renderer_start_is_idempotent() {
    let tui = Tui::new();
    assert!(tui.start_loop());
    // A second start while already running is a no-op.
    assert!(!tui.start_loop());
    tui.stop_loop();
    assert!(tui.start_loop());
}
