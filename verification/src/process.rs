//! Bookkeeping of the `llama-server` process: whether it runs, how it last
//! exited, and the most recent lines of its output. The caller spawns,
//! polls and kills the process and reports what happened.

use vstd::prelude::*;
use vstd::string::StringExecFns;
use crate::models::LlamaProcessStatus;
use crate::text::{decimal, decimal_string, owned, trim, trim_chars, chars_of, string_of};

verus! {

/// What a process manager knows.
pub struct ProcessManagerView {
    /// The id of the running process, if one runs.
    pub pid: Option<u32>,
    /// The kept output lines, oldest first.
    pub logs: Seq<Seq<char>>,
    /// How many lines are kept at most.
    pub max_logs: nat,
    /// The exit code of the last process that ended, if known.
    pub last_exit_code: Option<i32>,
}

/// The lines kept after `line` is added: the newest `max` of them.
pub open spec fn pushed_log(logs: Seq<Seq<char>>, line: Seq<char>, max: nat) -> Seq<Seq<char>> {
    let s = logs.push(line);
    if s.len() > max {
        s.skip(s.len() - max)
    } else {
        s
    }
}

/// The newest `limit` lines, with `limit` held within `1..=max`.
pub open spec fn log_tail(logs: Seq<Seq<char>>, limit: nat, max: nat) -> Seq<Seq<char>> {
    let capped = if limit < 1 {
        1
    } else if limit > max {
        max
    } else {
        limit
    };
    if logs.len() > capped {
        logs.skip(logs.len() - capped)
    } else {
        logs
    }
}

/// An integer as `Display` writes it.
pub open spec fn signed_decimal(n: int) -> Seq<char> {
    if n < 0 {
        "-"@ + decimal((-n) as nat)
    } else {
        decimal(n as nat)
    }
}

/// An optional exit code as `Debug` writes it.
pub open spec fn exit_code_text(code: Option<i32>) -> Seq<char> {
    match code {
        Some(c) => "Some("@ + signed_decimal(c as int) + ")"@,
        None => "None"@,
    }
}

/// The status reported for a manager in state `v`.
pub open spec fn status_of(v: ProcessManagerView) -> LlamaProcessStatus {
    LlamaProcessStatus { running: v.pid is Some, pid: v.pid, last_exit_code: v.last_exit_code }
}

/// `Display` of an `i32`.
pub fn signed_decimal_string(n: i32) -> (r: String)
    ensures
        r@ == signed_decimal(n as int),
{
    if n < 0 {
        let m: i64 = -(n as i64);
        let mut s = owned("-");
        let d = decimal_string(m as u64);
        s.append(d.as_str());
        s
    } else {
        decimal_string(n as u64)
    }
}

/// `Debug` of an optional exit code.
pub fn exit_code_string(code: Option<i32>) -> (r: String)
    ensures
        r@ == exit_code_text(code),
{
    match code {
        Some(c) => {
            let mut s = owned("Some(");
            let d = signed_decimal_string(c);
            s.append(d.as_str());
            s.append(")");
            s
        },
        None => owned("None"),
    }
}

/// A line of the process's output, tagged with the stream it came from.
pub fn output_line(source: &str, text: &str) -> (r: String)
    ensures
        r@ == "["@ + source@ + "] "@ + text@,
{
    let mut s = owned("[");
    s.append(source);
    s.append("] ");
    s.append(text);
    s
}

/// The line that records a failed read of the process's output.
pub fn output_error_line(source: &str, err: &str) -> (r: String)
    ensures
        r@ == "["@ + source@ + "] log read error: "@ + err@,
{
    let mut s = owned("[");
    s.append(source);
    s.append("] log read error: ");
    s.append(err);
    s
}

/// The error returned when the process could not be spawned.
pub fn start_failure_message(err: &str) -> (r: String)
    ensures
        r@ == "failed to start llama-server: "@ + err@,
{
    let mut s = owned("failed to start llama-server: ");
    s.append(err);
    s
}

/// The error returned when the process could not be killed.
pub fn stop_failure_message(err: &str) -> (r: String)
    ensures
        r@ == "failed to stop llama-server: "@ + err@,
{
    let mut s = owned("failed to stop llama-server: ");
    s.append(err);
    s
}

/// The error returned when waiting for the killed process failed.
pub fn stop_wait_failure_message(err: &str) -> (r: String)
    ensures
        r@ == "failed waiting for llama-server stop: "@ + err@,
{
    let mut s = owned("failed waiting for llama-server stop: ");
    s.append(err);
    s
}

/// The state of the `llama-server` process and its recent output.
pub struct ProcessManager {
    pid: Option<u32>,
    logs: Vec<String>,
    max_logs: usize,
    last_exit_code: Option<i32>,
}

impl View for ProcessManager {
    type V = ProcessManagerView;

    closed spec fn view(&self) -> ProcessManagerView {
        ProcessManagerView {
            pid: self.pid,
            logs: self.logs@.map_values(|s: String| s@),
            max_logs: self.max_logs as nat,
            last_exit_code: self.last_exit_code,
        }
    }
}

impl ProcessManager {
    /// No more lines are kept than allowed.
    pub closed spec fn wf(&self) -> bool {
        self.logs@.len() <= self.max_logs
    }

    pub fn new(max_logs: usize) -> (m: ProcessManager)
        ensures
            m.wf(),
            m@ == (ProcessManagerView { pid: None, logs: Seq::empty(), max_logs: max_logs as nat, last_exit_code: None }),
    {
        let m = ProcessManager { pid: None, logs: Vec::new(), max_logs, last_exit_code: None };
        assert(m@.logs =~= Seq::<Seq<char>>::empty());
        m
    }

    /// Adds a line to the output, dropping the oldest lines beyond the
    /// limit.
    pub fn push_log(&mut self, line: String)
        requires
            old(self).wf(),
        ensures
            final(self).wf(),
            final(self)@ == (ProcessManagerView { logs: pushed_log(old(self)@.logs, line@, old(self)@.max_logs), ..old(self)@ }),
    {
        let ghost before = self@.logs;
        let ghost l = line@;
        self.logs.push(line);
        assert(self@.logs =~= before.push(l));
        if self.logs.len() > self.max_logs {
            let n = self.logs.len();
            let drop = n - self.max_logs;
            let mut kept: Vec<String> = Vec::new();
            let mut i: usize = drop;
            while i < n
                invariant
                    drop <= i <= n,
                    n == self.logs@.len(),
                    kept@ == self.logs@.subrange(drop as int, i as int),
                decreases n - i,
            {
                kept.push(self.logs[i].clone());
                assert(kept@ =~= self.logs@.subrange(drop as int, i + 1));
                i = i + 1;
            }
            let ghost full = self@.logs;
            self.logs = kept;
            assert(self@.logs =~= full.skip(drop as int));
        }
    }

    /// The status: whether the process runs, its id, and the last exit code.
    pub fn status(&self) -> (s: LlamaProcessStatus)
        ensures
            s == status_of(self@),
    {
        LlamaProcessStatus { running: self.pid.is_some(), pid: self.pid, last_exit_code: self.last_exit_code }
    }

    /// The newest `limit` output lines, `limit` held within `1..=max_logs`.
    pub fn logs(&self, limit: usize) -> (r: Vec<String>)
        requires
            self@.max_logs >= 1,
        ensures
            r@.map_values(|s: String| s@) == log_tail(self@.logs, limit as nat, self@.max_logs),
    {
        let capped = if limit < 1 {
            1
        } else if limit > self.max_logs {
            self.max_logs
        } else {
            limit
        };
        let len = self.logs.len();
        let start = if len > capped {
            len - capped
        } else {
            0
        };
        let mut r: Vec<String> = Vec::new();
        let mut i: usize = start;
        while i < len
            invariant
                start <= i <= len,
                len == self.logs@.len(),
                r@ == self.logs@.subrange(start as int, i as int),
            decreases len - i,
        {
            r.push(self.logs[i].clone());
            assert(r@ =~= self.logs@.subrange(start as int, i + 1));
            i = i + 1;
        }
        assert(r@.map_values(|s: String| s@) =~= log_tail(self@.logs, limit as nat, self@.max_logs));
        r
    }

    /// Forgets all output lines.
    pub fn clear_logs(&mut self)
        ensures
            final(self).wf(),
            final(self)@ == (ProcessManagerView { logs: Seq::empty(), ..old(self)@ }),
    {
        self.logs = Vec::new();
        assert(self@.logs =~= Seq::<Seq<char>>::empty());
    }

    /// Checks a start request: refused while a process runs or when the
    /// path is blank; otherwise the trimmed path to launch.
    pub fn prepare_start(&self, executable_path: &str) -> (r: Result<String, String>)
        ensures
            if self@.pid is Some {
                r matches Err(e) && e@ == "llama-server is already running"@
            } else if trim(executable_path@).len() == 0 {
                r matches Err(e) && e@ == "executable_path cannot be empty"@
            } else {
                r matches Ok(p) && p@ == trim(executable_path@)
            },
    {
        if self.pid.is_some() {
            return Err(owned("llama-server is already running"));
        }
        let v = chars_of(executable_path);
        let t = trim_chars(v.as_slice());
        if t.len() == 0 {
            return Err(owned("executable_path cannot be empty"));
        }
        Ok(string_of(t.as_slice()))
    }

    /// Records that the process `pid` was launched from `path`.
    pub fn started(&mut self, pid: u32, path: &str) -> (s: LlamaProcessStatus)
        requires
            old(self).wf(),
        ensures
            final(self).wf(),
            final(self)@ == (ProcessManagerView {
                pid: Some(pid),
                logs: pushed_log(
                    old(self)@.logs,
                    "started llama-server pid="@ + decimal(pid as nat) + " path="@ + path@,
                    old(self)@.max_logs,
                ),
                max_logs: old(self)@.max_logs,
                last_exit_code: None,
            }),
            s == status_of(final(self)@),
    {
        self.last_exit_code = None;
        let mut line = owned("started llama-server pid=");
        let d = decimal_string(pid as u64);
        line.append(d.as_str());
        line.append(" path=");
        line.append(path);
        self.push_log(line);
        self.pid = Some(pid);
        self.status()
    }

    /// Records that the process ended by itself with `code`.
    pub fn exited(&mut self, code: Option<i32>)
        requires
            old(self).wf(),
        ensures
            final(self).wf(),
            final(self)@ == (ProcessManagerView {
                pid: None,
                logs: pushed_log(
                    old(self)@.logs,
                    "llama-server exited exit_code="@ + exit_code_text(code),
                    old(self)@.max_logs,
                ),
                max_logs: old(self)@.max_logs,
                last_exit_code: code,
            }),
    {
        self.last_exit_code = code;
        let mut line = owned("llama-server exited exit_code=");
        let c = exit_code_string(code);
        line.append(c.as_str());
        self.push_log(line);
        self.pid = None;
    }

    /// Records that the state of the process could not be read.
    pub fn status_unreadable(&mut self, err: &str)
        requires
            old(self).wf(),
        ensures
            final(self).wf(),
            final(self)@ == (ProcessManagerView {
                logs: pushed_log(
                    old(self)@.logs,
                    "failed to read llama-server status: "@ + err@,
                    old(self)@.max_logs,
                ),
                ..old(self)@
            }),
    {
        let mut line = owned("failed to read llama-server status: ");
        line.append(err);
        self.push_log(line);
    }

    /// Records that the process was killed and ended with `code`.
    pub fn stopped(&mut self, code: Option<i32>) -> (s: LlamaProcessStatus)
        requires
            old(self).wf(),
        ensures
            final(self).wf(),
            final(self)@ == (ProcessManagerView {
                pid: None,
                logs: pushed_log(
                    old(self)@.logs,
                    "stopped llama-server exit_code="@ + exit_code_text(code),
                    old(self)@.max_logs,
                ),
                max_logs: old(self)@.max_logs,
                last_exit_code: code,
            }),
            s == status_of(final(self)@),
    {
        self.last_exit_code = code;
        let mut line = owned("stopped llama-server exit_code=");
        let c = exit_code_string(code);
        line.append(c.as_str());
        self.push_log(line);
        self.pid = None;
        self.status()
    }
}

/// In every state of a manager, no more output lines are kept than its
/// limit allows.
pub proof fn law_log_bounded(m: &ProcessManager)
    requires
        m.wf(),
    ensures
        m@.logs.len() <= m@.max_logs,
{
}

/// The output keeps at most `max` lines, and they are the newest ones, in
/// the order they came.
pub proof fn law_log_keeps_newest(logs: Seq<Seq<char>>, line: Seq<char>, max: nat)
    requires
        logs.len() <= max,
    ensures
        pushed_log(logs, line, max).len() <= max,
        max > 0 ==> pushed_log(logs, line, max).last() == line,
        forall|i: int|
            0 <= i < pushed_log(logs, line, max).len() ==> #[trigger] pushed_log(logs, line, max)[i]
                == logs.push(line)[logs.len() + 1 - pushed_log(logs, line, max).len() + i],
{
}

} // verus!
