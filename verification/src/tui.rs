//! The progress renderer's state and drawing rules: an append-only,
//! newline-delimited scrollback log plus a `running` flag gating the render
//! loop, and the pure formatting of the composed display text.
//!
//! Log entries always begin with a separator, so a rendered log drops the
//! implicit empty leading segment and decorates every following line; the
//! task currently in flight is animated with a spinner frame appended after
//! the log.

use vstd::prelude::*;

use vstd::rwlock::WriteHandle;

use crate::guard::{GuardedState, SharedState, StateInv};
use crate::tasks::{TaskCallable, TaskExecutor, TaskInfo};

verus! {

/// Number of spinner frames in the loading animation cycle.
pub const LOADING_FRAME_COUNT: usize = 10;

/// Upper bound on the seconds of a timestamp the log can format: the first
/// second after year 9999, which RFC 3339 text cannot carry.
pub const MAX_TIMESTAMP_SECS: u64 = 253_402_300_800;

/// The spinner frame drawn at the given step of the animation cycle.
pub open spec fn loading_frame_spec(i: int) -> Seq<char> {
    if i == 0 {
        "\x1b[97m[\x1b[91m*\x1b[31m*\x1b[97m    ]\x1b[97m"@
    } else if i == 1 {
        "\x1b[97m[\x1b[31m*\x1b[91m*\x1b[31m*\x1b[97m   ]"@
    } else if i == 2 {
        "\x1b[97m[ \x1b[31m*\x1b[91m*\x1b[31m*\x1b[97m  ]"@
    } else if i == 3 {
        "\x1b[97m[  \x1b[31m*\x1b[91m*\x1b[31m*\x1b[97m ]"@
    } else if i == 4 {
        "\x1b[97m[   \x1b[31m*\x1b[91m*\x1b[31m*\x1b[97m]"@
    } else if i == 5 {
        "\x1b[97m[    \x1b[31m*\x1b[91m*\x1b[97m]"@
    } else if i == 6 {
        "\x1b[97m[   \x1b[31m*\x1b[91m*\x1b[31m*\x1b[97m]"@
    } else if i == 7 {
        "\x1b[97m[  \x1b[31m*\x1b[91m*\x1b[31m*\x1b[97m ]"@
    } else if i == 8 {
        "\x1b[97m[ \x1b[31m*\x1b[91m*\x1b[31m*\x1b[97m  ]"@
    } else if i == 9 {
        "\x1b[97m[\x1b[31m*\x1b[91m*\x1b[31m*\x1b[97m   ]"@
    } else {
        Seq::empty()
    }
}

/// The spinner frame for one step of the animation cycle.
pub fn loading_frame(i: usize) -> (r: &'static str)
    requires
        i < LOADING_FRAME_COUNT,
    ensures
        r@ == loading_frame_spec(i as int),
{
    if i == 0 {
        "\x1b[97m[\x1b[91m*\x1b[31m*\x1b[97m    ]\x1b[97m"
    } else if i == 1 {
        "\x1b[97m[\x1b[31m*\x1b[91m*\x1b[31m*\x1b[97m   ]"
    } else if i == 2 {
        "\x1b[97m[ \x1b[31m*\x1b[91m*\x1b[31m*\x1b[97m  ]"
    } else if i == 3 {
        "\x1b[97m[  \x1b[31m*\x1b[91m*\x1b[31m*\x1b[97m ]"
    } else if i == 4 {
        "\x1b[97m[   \x1b[31m*\x1b[91m*\x1b[31m*\x1b[97m]"
    } else if i == 5 {
        "\x1b[97m[    \x1b[31m*\x1b[91m*\x1b[97m]"
    } else if i == 6 {
        "\x1b[97m[   \x1b[31m*\x1b[91m*\x1b[31m*\x1b[97m]"
    } else if i == 7 {
        "\x1b[97m[  \x1b[31m*\x1b[91m*\x1b[31m*\x1b[97m ]"
    } else if i == 8 {
        "\x1b[97m[ \x1b[31m*\x1b[91m*\x1b[31m*\x1b[97m  ]"
    } else {
        "\x1b[97m[\x1b[31m*\x1b[91m*\x1b[31m*\x1b[97m   ]"
    }
}

/// The status marker of a successfully completed task.
pub open spec fn ok_frame_spec() -> Seq<char> {
    "\x1b[97m[  \x1b[32mok  \x1b[97m]"@
}

/// The status marker of a failed task.
pub open spec fn fail_frame_spec() -> Seq<char> {
    "\x1b[97m[ \x1b[91mfail \x1b[97m]"@
}

pub fn ok_frame() -> (r: &'static str)
    ensures
        r@ == ok_frame_spec(),
{
    "\x1b[97m[  \x1b[32mok  \x1b[97m]"
}

pub fn fail_frame() -> (r: &'static str)
    ensures
        r@ == fail_frame_spec(),
{
    "\x1b[97m[ \x1b[91mfail \x1b[97m]"
}

/// What the timestamp formatter renders for a point in time, given as whole
/// seconds and subsecond nanoseconds since the UNIX epoch.
pub uninterp spec fn rfc3339_of(secs: int, nanos: int) -> Seq<char>;

/// Relies on `humantime::format_rfc3339`: the RFC 3339 text of a `SystemTime`
/// depends on its seconds and nanoseconds alone, is built from a fixed
/// template of digits and punctuation, and its formatter reports an error
/// (which `format!` would turn into a panic) only for times at or after year
/// 10000, which the bound on `secs` excludes.
#[verifier::external_body]
fn format_timestamp(secs: u64, nanos: u32) -> (r: String)
    requires
        secs < MAX_TIMESTAMP_SECS,
        nanos < 1_000_000_000,
    ensures
        r@ == rfc3339_of(secs as int, nanos as int),
        forall|i: int| 0 <= i < r@.len() ==> r@[i] != '\n',
{
    let t = std::time::UNIX_EPOCH + std::time::Duration::new(secs, nanos);
    format!("{}", humantime::format_rfc3339(t))
}

/// Index of the first newline of `s`, or `s.len()` if it has none.
pub open spec fn find_nl(s: Seq<char>) -> nat
    decreases s.len(),
{
    if s.len() == 0 {
        0
    } else if s[0] == '\n' {
        0
    } else {
        1 + find_nl(s.skip(1))
    }
}

/// `find_nl` finds exactly the first newline: everything before the position
/// it returns is newline-free, and the position itself (when within range)
/// holds a newline.  Conversely, a position with those two properties is the
/// one `find_nl` returns.
pub proof fn lemma_find_nl_at(s: Seq<char>, p: int)
    requires
        0 <= p <= s.len(),
        forall|q: int| 0 <= q < p ==> s[q] != '\n',
        p < s.len() ==> s[p] == '\n',
    ensures
        find_nl(s) == p,
    decreases s.len(),
{
    if s.len() == 0 {
    } else if s[0] == '\n' {
        assert(p == 0);
    } else {
        assert(s[0] != '\n');
        assert(p >= 1);
        assert(forall|q: int| 0 <= q < p - 1 ==> s.skip(1)[q] == s[q + 1]);
        assert(p - 1 < s.skip(1).len() ==> s.skip(1)[p - 1] == s[p]);
        lemma_find_nl_at(s.skip(1), p - 1);
    }
}

/// One rendered log line: the line's text wrapped in the log colour, closed
/// by a newline.
pub open spec fn deco(line: Seq<char>) -> Seq<char> {
    "\x1b[37m"@ + line + "\x1b[97m"@ + "\n"@
}

/// The rendered form of a newline-separated list of log entries.
pub open spec fn fmt_entries(s: Seq<char>) -> Seq<char>
    decreases s.len(),
{
    let i = find_nl(s);
    if i >= s.len() {
        deco(s)
    } else {
        deco(s.take(i as int)) + fmt_entries(s.skip(i as int + 1))
    }
}

/// The displayed form of the whole log: empty when the log is empty, and
/// otherwise the rendered entries after the implicit empty leading segment
/// (every appended entry begins with a separator, so the segment before the
/// first separator is never rendered).
pub open spec fn format_log_spec(s: Seq<char>) -> Seq<char> {
    if s.len() == 0 {
        Seq::empty()
    } else {
        let i = find_nl(s);
        if i >= s.len() {
            Seq::empty()
        } else {
            fmt_entries(s.skip(i as int + 1))
        }
    }
}

/// Transform the accumulated log into its displayed form.
pub fn format_log(log: &str) -> (r: String)
    ensures
        r@ == format_log_spec(log@),
{
    let n = log.unicode_len();
    if n == 0 {
        return String::new();
    }
    let mut p: usize = 0;
    while p < n && log.get_char(p) != '\n'
        invariant
            p <= n,
            n == log@.len(),
            forall|q: int| 0 <= q < p ==> log@[q] != '\n',
        decreases n - p,
    {
        p = p + 1;
    }
    proof {
        lemma_find_nl_at(log@, p as int);
    }
    if p == n {
        return String::new();
    }
    let mut result = String::new();
    let mut start: usize = p + 1;
    let mut more = true;
    while more
        invariant
            n == log@.len(),
            start <= n,
            more ==> format_log_spec(log@) == result@ + fmt_entries(log@.skip(start as int)),
            !more ==> result@ == format_log_spec(log@),
        decreases n - start + (if more {
            1int
        } else {
            0int
        }),
    {
        let ghost rest = log@.skip(start as int);
        let mut q: usize = start;
        while q < n && log.get_char(q) != '\n'
            invariant
                start <= q <= n,
                n == log@.len(),
                forall|t: int| start <= t < q ==> log@[t] != '\n',
            decreases n - q,
        {
            q = q + 1;
        }
        proof {
            assert(forall|t: int| 0 <= t < rest.len() ==> rest[t] == log@[start as int + t]);
            lemma_find_nl_at(rest, q as int - start as int);
        }
        result.append("\x1b[37m");
        let line = log.substring_char(start, q);
        result.append(line);
        result.append("\x1b[97m");
        result.append("\n");
        proof {
            assert(line@ =~= rest.take(q as int - start as int));
            if q < n {
                assert(log@.skip(q as int + 1) =~= rest.skip(q as int + 1 - start as int));
            } else {
                assert(find_nl(rest) >= rest.len());
                assert(rest =~= rest.take(q as int - start as int));
            }
        }
        if q < n {
            start = q + 1;
        } else {
            more = false;
        }
    }
    result
}

/// The live spinner line for the task at the cursor: drawn only while the
/// executor reports a run in progress and the task at the cursor exists and
/// has not yet concluded.
pub open spec fn draw_current_task_spec(running: bool, info: Option<TaskInfo>, frame: int) -> Seq<
    char,
> {
    if !running {
        Seq::empty()
    } else {
        match info {
            None => Seq::empty(),
            Some(ti) => if ti.spec_success() is Some {
                Seq::empty()
            } else {
                loading_frame_spec(frame) + " "@ + ti.spec_descriptor()
            },
        }
    }
}

/// Draw the loader line for the current task from one observed snapshot of
/// the executor's state.
pub fn draw_current_task(running: bool, info: &Option<TaskInfo>, frame_index: usize) -> (r: String)
    requires
        frame_index < LOADING_FRAME_COUNT,
    ensures
        r@ == draw_current_task_spec(running, *info, frame_index as int),
{
    if !running {
        return String::new();
    }
    match info {
        None => String::new(),
        Some(ti) => {
            if ti.success().is_some() {
                String::new()
            } else {
                let mut r = String::new();
                r.append(loading_frame(frame_index));
                r.append(" ");
                r.append(ti.descriptor());
                r
            }
        },
    }
}

/// The next step of the cyclic animation index: it runs over the spinner
/// frames and wraps back to the first.
pub fn next_frame_index(i: usize) -> (r: usize)
    requires
        i < LOADING_FRAME_COUNT,
    ensures
        r < LOADING_FRAME_COUNT,
        r as int == (i as int + 1) % (LOADING_FRAME_COUNT as int),
{
    if i + 1 < LOADING_FRAME_COUNT {
        i + 1
    } else {
        0
    }
}

/// The full displayed text: the rendered log followed by the live task line,
/// opened in the default colour.
pub open spec fn compose_display_spec(formatted_log: Seq<char>, task_line: Seq<char>) -> Seq<
    char,
> {
    "\x1b[97m"@ + formatted_log + task_line
}

/// Compose the full text pushed to the display surface.
pub fn compose_display(formatted_log: &str, task_line: &str) -> (r: String)
    ensures
        r@ == compose_display_spec(formatted_log@, task_line@),
{
    let mut r = String::new();
    r.append("\x1b[97m");
    r.append(formatted_log);
    r.append(task_line);
    r
}

/// The renderer's own state: the accumulated scrollback log (newline-
/// delimited entries) and the flag that gates the render loop, independent
/// from the executor's flag.
pub struct TuiState {
    log: String,
    running: bool,
}

impl GuardedState for TuiState {
    open spec fn inv(&self) -> bool {
        true
    }
}

impl TuiState {
    /// The accumulated log text.
    pub closed spec fn spec_log(&self) -> Seq<char> {
        self.log@
    }

    /// Whether the render loop is gated on.
    pub closed spec fn spec_running(&self) -> bool {
        self.running
    }

    /// An empty log with the render loop gated off.
    pub fn new() -> (s: Self)
        ensures
            s.spec_log() == Seq::<char>::empty(),
            !s.spec_running(),
    {
        TuiState { log: String::new(), running: false }
    }

    /// Append one entry to the log, preceded by its separator.
    pub fn push_entry(&mut self, entry: &str) -> (r: ())
        ensures
            final(self).spec_log() == old(self).spec_log() + "\n"@ + entry@,
            final(self).spec_running() == old(self).spec_running(),
    {
        self.log.append("\n");
        self.log.append(entry);
    }

    /// Append a timestamped, ad hoc descriptive message to the log.
    pub fn log_message(&mut self, now_secs: u64, now_nanos: u32, message: &str)
        requires
            now_secs < MAX_TIMESTAMP_SECS,
            now_nanos < 1_000_000_000,
        ensures
            final(self).spec_log() == old(self).spec_log() + "\n"@ + rfc3339_of(
                now_secs as int,
                now_nanos as int,
            ) + ": "@ + message@,
            final(self).spec_running() == old(self).spec_running(),
    {
        let mut entry = format_timestamp(now_secs, now_nanos);
        entry.append(": ");
        entry.append(message);
        self.push_entry(entry.as_str());
    }

    /// Append the completion line of a task: its status marker ("ok" on
    /// success, "fail" on failure) followed by its descriptor.  A task that
    /// has not actually concluded adds nothing.
    pub fn push_completed(&mut self, info: &TaskInfo)
        ensures
            info.spec_success() is None ==> *final(self) == *old(self),
            info.spec_success() == Some(true) ==> final(self).spec_log() == old(self).spec_log()
                + "\n"@ + ok_frame_spec() + " "@ + info.spec_descriptor(),
            info.spec_success() == Some(false) ==> final(self).spec_log() == old(self).spec_log()
                + "\n"@ + fail_frame_spec() + " "@ + info.spec_descriptor(),
            final(self).spec_running() == old(self).spec_running(),
    {
        match info.success() {
            None => {},
            Some(success) => {
                let mut entry = String::new();
                if success {
                    entry.append(ok_frame());
                } else {
                    entry.append(fail_frame());
                }
                entry.append(" ");
                entry.append(info.descriptor());
                self.push_entry(entry.as_str());
            },
        }
    }

    /// Claim the render-loop gate: leave it on, and report whether it was
    /// off before.  Claiming a gate that is already on is a no-op that
    /// reports `false`: starting the loop is idempotent.
    pub fn try_start(&mut self) -> (r: bool)
        ensures
            r == !old(self).spec_running(),
            final(self).spec_running(),
            final(self).spec_log() == old(self).spec_log(),
    {
        let was_running = self.running;
        self.running = true;
        !was_running
    }

    /// Gate the render loop on or off.
    pub fn set_running(&mut self, running: bool)
        ensures
            final(self).spec_log() == old(self).spec_log(),
            final(self).spec_running() == running,
    {
        self.running = running;
    }

    /// Current value of the render-loop gate.
    pub fn running(&self) -> (r: bool)
        ensures
            r == self.spec_running(),
    {
        self.running
    }

    /// A copy of the accumulated log text.
    pub fn log_text(&self) -> (r: String)
        ensures
            r@ == self.spec_log(),
    {
        self.log.clone()
    }
}

/// The terminal renderer: its state behind its own busy-wait guard, written
/// by loggers and the executor's completion notifications, read by the
/// render loop.
pub struct Tui {
    state: SharedState<TuiState>,
}

impl Tui {
    /// A renderer with an empty log, not yet running.
    pub fn new() -> Tui {
        Tui { state: SharedState::new(TuiState::new()) }
    }

    /// Write a timestamped message to the log.  Concurrent writers are
    /// serialized by the guard.
    pub fn log(&self, now_secs: u64, now_nanos: u32, message: &str)
        requires
            now_secs < MAX_TIMESTAMP_SECS,
            now_nanos < 1_000_000_000,
    {
        let (mut st, handle) = self.state.write();
        st.log_message(now_secs, now_nanos, message);
        handle.release_write(st);
    }

    /// Register that a task is completed: append its completion line to the
    /// log.  Do nothing if the task is unknown or has not actually concluded.
    pub fn register_completed<C: TaskCallable>(
        &self,
        exec: &SharedState<TaskExecutor<C>>,
        id: u32,
    ) {
        let info = {
            let handle = exec.read();
            let info = handle.borrow().info(id);
            handle.release_read();
            info
        };
        match info {
            None => {},
            Some(info) => {
                let (mut st, handle) = self.state.write();
                st.push_completed(&info);
                handle.release_write(st);
            },
        }
    }

    /// Claim the render loop: gate it on and report whether this call turned
    /// it on (a second start while already running is a no-op).
    pub fn start_loop(&self) -> bool {
        let (mut st, handle) = self.state.write();
        let claimed = st.try_start();
        handle.release_write(st);
        claimed
    }

    /// Clear the render loop's gate; the loop observes it and winds down.
    pub fn stop_loop(&self) {
        let (mut st, handle) = self.state.write();
        st.set_running(false);
        handle.release_write(st);
    }

    /// Acquire the renderer's state for writing, spinning until free; the
    /// handle must be released with `release_write`.  Lets verified callers
    /// weave their own log appends into the shared log.
    pub fn write_state(&self) -> (ret: (TuiState, WriteHandle<'_, TuiState, StateInv>))
        ensures
            ret.1.rwlock().pred() == StateInv,
    {
        self.state.write()
    }

    /// A copy of the accumulated log text, as currently observed.
    pub fn log_snapshot(&self) -> String {
        let handle = self.state.read();
        let log = handle.borrow().log_text();
        handle.release_read();
        log
    }

    /// One frame of the render loop: observe the executor's state, draw the
    /// live line for the task in flight, render the accumulated log, and
    /// compose the full display text.  Returns the text and whether the loop
    /// is still gated on.  The text is the composed form of states that were
    /// observed under the guards: the log rendered after the implicit empty
    /// leading segment, followed by the live line of the observed executor
    /// snapshot; the flag is the observed renderer state's own gate.  The two
    /// snapshots are taken separately, as concurrent readers have no wider
    /// view.
    pub fn compose_frame<C: TaskCallable>(
        &self,
        exec: &SharedState<TaskExecutor<C>>,
        frame_index: usize,
    ) -> (r: (String, bool))
        requires
            frame_index < LOADING_FRAME_COUNT,
        ensures
            exists|running: bool, task: Option<TaskInfo>, observed: TuiState|
                r.0@ == compose_display_spec(
                    format_log_spec(observed.spec_log()),
                    draw_current_task_spec(running, task, frame_index as int),
                ) && r.1 == observed.spec_running(),
    {
        let (exec_running, info) = {
            let handle = exec.read();
            let exec_running = handle.borrow().running();
            let info = handle.borrow().current_info();
            handle.release_read();
            (exec_running, info)
        };
        let task_line = draw_current_task(exec_running, &info, frame_index);
        let handle = self.state.read();
        let ghost observed = handle.view();
        let log = handle.borrow().log_text();
        let keep_going = handle.borrow().running();
        handle.release_read();
        let formatted = format_log(log.as_str());
        let text = compose_display(formatted.as_str(), task_line.as_str());
        proof {
            assert(text@ == compose_display_spec(
                format_log_spec(observed.spec_log()),
                draw_current_task_spec(exec_running, info, frame_index as int),
            ));
        }
        (text, keep_going)
    }
}

/// An empty log renders as empty text, and a log holding exactly two
/// appended entries (each a single line, as appended entries are) renders as
/// exactly the two decorated lines, in order; the implicit empty leading
/// segment before the first separator is never rendered.
pub proof fn lemma_format_log_two_entries(e1: Seq<char>, e2: Seq<char>)
    requires
        forall|i: int| 0 <= i < e1.len() ==> e1[i] != '\n',
        forall|i: int| 0 <= i < e2.len() ==> e2[i] != '\n',
    ensures
        format_log_spec(Seq::<char>::empty()) == Seq::<char>::empty(),
        format_log_spec(seq!['\n'] + e1 + seq!['\n'] + e2) == deco(e1) + deco(e2),
{
    let s = seq!['\n'] + e1 + seq!['\n'] + e2;
    assert(s[0] == '\n');
    lemma_find_nl_at(s, 0);
    let rest1 = s.skip(1);
    assert(rest1 =~= e1 + seq!['\n'] + e2);
    assert(forall|q: int| 0 <= q < e1.len() ==> rest1[q] == e1[q]);
    assert(rest1[e1.len() as int] == '\n');
    lemma_find_nl_at(rest1, e1.len() as int);
    assert(rest1.take(e1.len() as int) =~= e1);
    let rest2 = rest1.skip(e1.len() as int + 1);
    assert(rest2 =~= e2);
    assert(forall|q: int| 0 <= q < e2.len() ==> rest2[q] != '\n');
    lemma_find_nl_at(rest2, e2.len() as int);
    assert(fmt_entries(rest2) == deco(e2));
    assert(format_log_spec(s) == deco(e1) + deco(e2));
}

} // verus!
