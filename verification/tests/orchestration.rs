use std::io::Write;
use std::sync::{Arc, Mutex};

use bootseq::guard::SharedState;
use bootseq::rootfs::{extract_rootfs_shared, fetch_rootfs_shared, FsAction, RootfsBuffer};
use bootseq::tasks::{run_shared, FixedOutcome, TaskCallable, TaskExecutor};
use bootseq::tui::Tui;

const FAIL_MARK: &str = "\x1b[97m[ \x1b[91mfail \x1b[97m]";
const OK_MARK: &str = "\x1b[97m[  \x1b[32mok  \x1b[97m]";

/// A boot-sequence step as the entrypoint would wire it: the fetch hands its
/// transport outcome and payload to the library, the extract hands over one
/// try-lock attempt on the buffer.
enum BootStep {
    Fetch { status_ok: bool, payload: Vec<u8> },
    Extract { sink: Arc<Mutex<Vec<FsAction>>> },
}

struct BootTask {
    step: BootStep,
    buffer: Arc<Mutex<RootfsBuffer>>,
    tui: Arc<Tui>,
}

impl TaskCallable for BootTask {
    // The outcome hook only feeds contracts, which are erased in the
    // compiled library; for these tasks the result is only known at `invoke`
    // time, so this stub is no promise.  Nothing verified may be driven by
    // it: `run_shared` relies on `invoke`'s runtime result alone, and these
    // tasks must never be handed to a verified caller of `start`, whose
    // guarantees would then rest on this stub.
    fn outcome(&self) -> bool {
        true
    }

    fn invoke(self) -> bool {
        match self.step {
            BootStep::Fetch { status_ok, payload } => {
                let mut buffer = self.buffer.lock().unwrap();
                fetch_rootfs_shared(status_ok, &payload, 0, 0, &mut buffer, &self.tui).is_ok()
            }
            BootStep::Extract { sink } => {
                // One non-blocking acquisition attempt; the bytes are cloned
                // out and the lock released before extraction begins.
                let snapshot = match self.buffer.try_lock() {
                    Ok(buffer) => {
                        let mut copy = RootfsBuffer::new();
                        copy.set_rootfs(buffer.bytes());
                        Some(copy)
                    }
                    Err(_) => None,
                };
                let r = extract_rootfs_shared(snapshot.as_ref(), 0, 0, &self.tui);
                match r {
                    Ok(actions) => {
                        *sink.lock().unwrap() = actions;
                        true
                    }
                    Err(_) => false,
                }
            }
        }
    }
}

fn sample_archive() -> Vec<u8> {
    let opts = zip::write::SimpleFileOptions::default()
        .compression_method(zip::CompressionMethod::Stored);
    let mut w = zip::ZipWriter::new(std::io::Cursor::new(Vec::new()));
    w.add_directory("dir/", opts).unwrap();
    w.start_file("dir/file.txt", opts).unwrap();
    w.write_all(b"hi").unwrap();
    w.finish().unwrap().into_inner()
}

fn boot_pipeline(status_ok: bool) -> (SharedState<TaskExecutor<BootTask>>, Arc<Tui>, Arc<Mutex<Vec<FsAction>>>) {
    let tui = Arc::new(Tui::new());
    let buffer = Arc::new(Mutex::new(RootfsBuffer::new()));
    let sink = Arc::new(Mutex::new(Vec::new()));
    let exec = SharedState::new(TaskExecutor::new());
    {
        let (mut st, handle) = exec.write();
        st.register(
            "Fetching rootfs.zip",
            BootTask {
                step: BootStep::Fetch { status_ok, payload: sample_archive() },
                buffer: buffer.clone(),
                tui: tui.clone(),
            },
        )
        .unwrap();
        st.register(
            "Extracting rootfs.zip",
            BootTask {
                step: BootStep::Extract { sink: sink.clone() },
                buffer: buffer.clone(),
                tui: tui.clone(),
            },
        )
        .unwrap();
        handle.release_write(st);
    }
    (exec, tui, sink)
}

#[test]
fn shared_run_drives_fetch_then_extract() {
    let (exec, tui, sink) = boot_pipeline(true);
    run_shared(&exec, &tui);
    let handle = exec.read();
    assert_eq!(handle.borrow().completed_tasks(), vec![0, 1]);
    assert_eq!(handle.borrow().current(), 2);
    assert!(handle.borrow().running());
    handle.release_read();
    assert_eq!(
        *sink.lock().unwrap(),
        vec![
            FsAction::Dir { path: "C:/dir/".to_string() },
            FsAction::File { path: "C:/dir/file.txt".to_string(), content: b"hi".to_vec() },
        ]
    );
    let log = tui.log_snapshot();
    assert_eq!(log.matches(OK_MARK).count(), 2);
    assert_eq!(log.matches(FAIL_MARK).count(), 0);
}

#[test]
fn transport_failure_halts_before_extract() {
    let (exec, tui, sink) = boot_pipeline(false);
    run_shared(&exec, &tui);
    let handle = exec.read();
    // Only the fetch task carries a recorded outcome; the extract task was
    // never invoked.
    assert_eq!(handle.borrow().completed_tasks(), vec![0]);
    assert_eq!(handle.borrow().info(0).unwrap().success(), Some(false));
    assert_eq!(handle.borrow().info(1).unwrap().success(), None);
    assert!(!handle.borrow().running());
    handle.release_read();
    assert!(sink.lock().unwrap().is_empty());
    // The rendered log carries exactly one failure-marked line.
    let log = tui.log_snapshot();
    assert_eq!(log.matches(FAIL_MARK).count(), 1);
    assert_eq!(log.matches(OK_MARK).count(), 0);
}

#[test]
fn second_run_is_refused() {
    let tui = Tui::new();
    let exec = SharedState::new(TaskExecutor::new());
    {
        let (mut st, handle) = exec.write();
        st.register("once", FixedOutcome { result: true }).unwrap();
        handle.release_write(st);
    }
    run_shared(&exec, &tui);
    // A second whole run is refused outright and loudly: the consumed
    // callable is never invoked again, the registry does not change, and the
    // refusal is recorded on the log.
    run_shared(&exec, &tui);
    let handle = exec.read();
    assert_eq!(handle.borrow().completed_tasks(), vec![0]);
    assert_eq!(handle.borrow().current(), 1);
    handle.release_read();
    let log = tui.log_snapshot();
    assert_eq!(log.matches(OK_MARK).count(), 1);
    assert_eq!(log.matches(FAIL_MARK).count(), 1);
    assert!(log.contains("run refused: a run has already begun"));
}

#[test]
fn renderer_observes_executor_snapshots() {
    let tui = Tui::new();
    let exec = SharedState::new(TaskExecutor::new());
    {
        let (mut st, handle) = exec.write();
        st.register("step", FixedOutcome { result: true }).unwrap();
        handle.release_write(st);
    }
    assert!(tui.start_loop());
    // Before the run: executor not running, so no spinner line is composed.
    let (text, keep) = tui.compose_frame(&exec, 0);
    assert_eq!(text, "\x1b[97m");
    assert!(keep);
    run_shared(&exec, &tui);
    tui.stop_loop();
    let (text, keep) = tui.compose_frame(&exec, 0);
    assert!(text.contains(OK_MARK));
    assert!(text.contains("step"));
    assert!(!keep);
}

#[test]
fn guard_serves_concurrent_readers() {
    let exec = SharedState::new(TaskExecutor::<FixedOutcome>::new());
    {
        let (mut st, handle) = exec.write();
        st.register("a", FixedOutcome { result: true }).unwrap();
        handle.release_write(st);
    }
    // Two read acquisitions may be held at once; each sees the same
    // well-formed state, and interleaved writes never shrink the task list.
    let r1 = exec.read();
    let r2 = exec.read();
    assert_eq!(r1.borrow().descriptor(0), r2.borrow().descriptor(0));
    r1.release_read();
    r2.release_read();
    for round in 0u32..8 {
        let (mut st, handle) = exec.write();
        let id = st.register("again", FixedOutcome { result: true }).unwrap();
        assert_eq!(id, round + 1);
        handle.release_write(st);
        let r = exec.read();
        assert_eq!(r.borrow().descriptor(id).unwrap(), "again");
        r.release_read();
    }
}

#[test]
fn repeated_acquisitions_never_lose_entries() {
    let exec = SharedState::new(TaskExecutor::<FixedOutcome>::new());
    let mut low_water = 0;
    for _ in 0..100 {
        let (mut st, handle) = exec.write();
        st.register("entry", FixedOutcome { result: true }).unwrap();
        handle.release_write(st);
        let r = exec.read();
        let mut len = 0;
        while r.borrow().descriptor(len).is_some() {
            len += 1;
        }
        // Nothing has run: no outcome can ever appear.
        assert_eq!(r.borrow().completed_tasks().len(), 0);
        r.release_read();
        // Every acquisition succeeds and the task list never shrinks.
        assert!(len > low_water);
        low_water = len;
    }
    let r = exec.read();
    assert!(r.borrow().descriptor(99).is_some());
    assert!(r.borrow().descriptor(100).is_none());
    r.release_read();
}
