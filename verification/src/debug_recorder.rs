//! Recording of a debug log: whether a recording runs and where it writes, and
//! which lines of the core's and the service's logs go into it.
use vstd::prelude::*;
use crate::text::{append_chars, append_str, chars_contain, chars_of, contains_str, string_of, string_views};

verus! {

/// Whether a recording runs, and the file of the last recording.
pub struct DebugRecordingStatus {
    pub recording: bool,
    pub path: Option<String>,
}

/// The outcome of a request to start or stop recording.
pub struct DebugRecordingResult {
    pub path: Option<String>,
    pub started: bool,
    pub stopped: bool,
}

/// The view of an optional string.
pub open spec fn opt_view(s: Option<String>) -> Option<Seq<char>> {
    match s {
        Some(x) => Some(x@),
        None => None,
    }
}

fn clone_opt(s: &Option<String>) -> (r: Option<String>)
    ensures
        opt_view(r) == opt_view(*s),
{
    match s {
        Some(x) => Some(x.clone()),
        None => None,
    }
}

/// The recorder's state, as mathematical values: whether it records, and the file.
pub struct RecorderState {
    pub recording: bool,
    pub path: Option<Seq<char>>,
}

/// The outcome of a request, as mathematical values.
pub struct RecorderOutcome {
    pub path: Option<Seq<char>>,
    pub started: bool,
    pub stopped: bool,
}

/// Starting: a running recording goes on and nothing starts; otherwise a new
/// recording starts into `new_path`.
pub open spec fn start_spec(s: RecorderState, new_path: Seq<char>) -> (RecorderState, RecorderOutcome) {
    if s.recording {
        (s, RecorderOutcome { path: s.path, started: false, stopped: false })
    } else {
        (
            RecorderState { recording: true, path: Some(new_path) },
            RecorderOutcome { path: Some(new_path), started: true, stopped: false },
        )
    }
}

/// Stopping: a running recording stops and keeps its file; otherwise nothing
/// changes.
pub open spec fn stop_spec(s: RecorderState) -> (RecorderState, RecorderOutcome) {
    if s.recording {
        (RecorderState { recording: false, path: s.path }, RecorderOutcome { path: s.path, started: false, stopped: true })
    } else {
        (s, RecorderOutcome { path: s.path, started: false, stopped: false })
    }
}

/// The recorder of debug logs.
pub struct DebugRecorder {
    state: DebugRecordingStatus,
}

impl DebugRecorder {
    pub closed spec fn view_state(&self) -> RecorderState {
        RecorderState { recording: self.state.recording, path: opt_view(self.state.path) }
    }

    /// A recorder that does not record.
    pub fn new() -> (r: DebugRecorder)
        ensures
            r.view_state() == (RecorderState { recording: false, path: None }),
    {
        DebugRecorder { state: DebugRecordingStatus { recording: false, path: None } }
    }

    /// Whether a recording runs, and its file.
    pub fn status(&self) -> (r: DebugRecordingStatus)
        ensures
            r.recording == self.view_state().recording,
            opt_view(r.path) == self.view_state().path,
    {
        DebugRecordingStatus { recording: self.state.recording, path: clone_opt(&self.state.path) }
    }

    /// Starts recording into the file of [`debug_log_path`] for `dir`, `stamp`
    /// and `separator` (which the caller has just made), unless a recording runs
    /// already.
    pub fn start(&mut self, dir: &str, stamp: &str, separator: char) -> (r: DebugRecordingResult)
        ensures
            final(self).view_state() == start_spec(
                old(self).view_state(),
                debug_log_path_spec(dir@, stamp@, separator),
            ).0,
            (RecorderOutcome { path: opt_view(r.path), started: r.started, stopped: r.stopped }) == start_spec(
                old(self).view_state(),
                debug_log_path_spec(dir@, stamp@, separator),
            ).1,
    {
        if self.state.recording {
            return DebugRecordingResult { path: clone_opt(&self.state.path), started: false, stopped: false };
        }
        let new_path = debug_log_path(dir, stamp, separator);
        let path = new_path.clone();
        self.state.recording = true;
        self.state.path = Some(new_path);
        DebugRecordingResult { path: Some(path), started: true, stopped: false }
    }

    /// Stops the recording, if one runs.
    pub fn stop(&mut self) -> (r: DebugRecordingResult)
        ensures
            final(self).view_state() == stop_spec(old(self).view_state()).0,
            (RecorderOutcome { path: opt_view(r.path), started: r.started, stopped: r.stopped }) == stop_spec(
                old(self).view_state(),
            ).1,
    {
        if !self.state.recording {
            return DebugRecordingResult { path: clone_opt(&self.state.path), started: false, stopped: false };
        }
        self.state.recording = false;
        DebugRecordingResult { path: clone_opt(&self.state.path), started: false, stopped: true }
    }
}

/// Starting a recording and then stopping it reports the new file as stopped and
/// leaves the recorder idle with that file.
pub proof fn start_then_stop(s: RecorderState, new_path: Seq<char>)
    requires
        !s.recording,
    ensures
        stop_spec(start_spec(s, new_path).0).0 == (RecorderState { recording: false, path: Some(new_path) }),
        stop_spec(start_spec(s, new_path).0).1 == (RecorderOutcome {
            path: Some(new_path),
            started: false,
            stopped: true,
        }),
{
}

/// A second start while recording changes nothing and starts nothing.
pub proof fn start_twice(s: RecorderState, p1: Seq<char>, p2: Seq<char>)
    ensures
        start_spec(start_spec(s, p1).0, p2).0 == start_spec(s, p1).0,
        !start_spec(start_spec(s, p1).0, p2).1.started,
{
}

/// Stopping an idle recorder changes nothing.
pub proof fn stop_when_idle(s: RecorderState)
    requires
        !s.recording,
    ensures
        stop_spec(s).0 == s,
        !stop_spec(s).1.stopped,
{
}

// ---------------------------------------------------------------------------
// The file of a recording
// ---------------------------------------------------------------------------

/// The name of a debug log file made at the time written as `stamp`.
pub open spec fn debug_log_file_name_spec(stamp: Seq<char>) -> Seq<char> {
    "debug-"@ + stamp + ".log"@
}

/// The name of a debug log file made at the time written as `stamp`.
pub fn debug_log_file_name(stamp: &str) -> (r: String)
    ensures
        r@ == debug_log_file_name_spec(stamp@),
{
    let mut name = chars_of("debug-");
    append_str(&mut name, stamp);
    append_str(&mut name, ".log");
    string_of(name.as_slice())
}

/// The file of a recording made at the time written as `stamp`, in the
/// directory `dir`: the file name after the directory, with `separator` between
/// them unless the directory is empty or already ends with `/` or `separator`.
pub open spec fn debug_log_path_spec(dir: Seq<char>, stamp: Seq<char>, separator: char) -> Seq<char> {
    let name = debug_log_file_name_spec(stamp);
    if dir.len() == 0 {
        name
    } else if dir.last() == '/' || dir.last() == separator {
        dir + name
    } else {
        dir.push(separator) + name
    }
}

/// The file of a recording made at the time written as `stamp`, in the
/// directory `dir`, as [`debug_log_path_spec`] joins them.
pub fn debug_log_path(dir: &str, stamp: &str, separator: char) -> (r: String)
    ensures
        r@ == debug_log_path_spec(dir@, stamp@, separator),
{
    let mut path = chars_of(dir);
    let n = path.len();
    if n > 0 && path[n - 1] != '/' && path[n - 1] != separator {
        path.push(separator);
    }
    let ghost head = path@;
    let name = chars_of(debug_log_file_name(stamp).as_str());
    append_chars(&mut path, &name);
    assert(path@ =~= head + debug_log_file_name_spec(stamp@));
    string_of(path.as_slice())
}

// ---------------------------------------------------------------------------
// What goes into the recording
// ---------------------------------------------------------------------------

/// The core's log lines not yet recorded: those after the `core_seen` first,
/// or all of them when the log has shrunk below that; afterwards all count as
/// seen.
pub fn collect_core_logs(logs: &Vec<String>, core_seen: &mut usize) -> (r: Vec<String>)
    ensures
        string_views(r@) == string_views(logs@).skip(
            if *old(core_seen) > logs@.len() {
                0
            } else {
                *old(core_seen) as int
            },
        ),
        *final(core_seen) == logs@.len(),
{
    let len = logs.len();
    let start = if *core_seen > len {
        0
    } else {
        *core_seen
    };
    let mut out: Vec<String> = Vec::new();
    let mut i = start;
    while i < len
        invariant
            start <= i <= len == logs@.len(),
            string_views(out@) == string_views(logs@).subrange(start as int, i as int),
        decreases len - i,
    {
        let ghost before = out@;
        out.push(logs[i].clone());
        assert(string_views(out@) =~= string_views(before).push(logs@[i as int]@));
        assert(string_views(logs@).subrange(start as int, i + 1) =~= string_views(logs@).subrange(
            start as int,
            i as int,
        ).push(logs@[i as int]@));
        i = i + 1;
    }
    assert(string_views(logs@).subrange(start as int, len as int) =~= string_views(logs@).skip(start as int));
    *core_seen = len;
    out
}

/// The phrases that mark a line worth flagging in the recording.
pub open spec fn debug_keywords() -> Seq<Seq<char>> {
    seq![
        "reject loopback connection"@,
        "dns resolve failed"@,
        "Only one usage of each socket address"@,
        "context deadline exceeded"@,
        "handshake failed"@,
    ]
}

/// The line holds one of the phrases.
pub open spec fn has_debug_keyword(line: Seq<char>) -> bool {
    exists|i: int| 0 <= i < debug_keywords().len() && contains_str(line, #[trigger] debug_keywords()[i])
}

/// The lines that a log line adds to the recording: the line under its prefix,
/// and a second copy marked `[keyword-hit]` when it holds one of the phrases.
pub open spec fn keyword_lines(prefix: Seq<char>, line: Seq<char>) -> Seq<Seq<char>> {
    if has_debug_keyword(line) {
        seq![prefix + " "@ + line, "[keyword-hit] "@ + line]
    } else {
        seq![prefix + " "@ + line]
    }
}

pub fn append_with_keyword(prefix: &str, line: &str) -> (r: Vec<String>)
    ensures
        string_views(r@) == keyword_lines(prefix@, line@),
{
    let mut first = chars_of(prefix);
    append_str(&mut first, " ");
    append_str(&mut first, line);
    let mut out: Vec<String> = Vec::new();
    out.push(string_of(first.as_slice()));
    let lc = chars_of(line);
    let keys = [
        "reject loopback connection",
        "dns resolve failed",
        "Only one usage of each socket address",
        "context deadline exceeded",
        "handshake failed",
    ];
    let mut hit = false;
    let mut k: usize = 0;
    while k < 5
        invariant
            k <= 5,
            lc@ == line@,
            forall|j: int| 0 <= j < 5 ==> #[trigger] keys@[j]@ == debug_keywords()[j],
            hit == exists|j: int| 0 <= j < k && contains_str(line@, #[trigger] debug_keywords()[j]),
        decreases 5 - k,
    {
        if chars_contain(&lc, &chars_of(keys[k])) {
            hit = true;
        }
        k = k + 1;
    }
    assert(hit == has_debug_keyword(line@));
    if hit {
        let mut second = chars_of("[keyword-hit] ");
        append_str(&mut second, line);
        out.push(string_of(second.as_slice()));
    }
    assert(string_views(out@) =~= keyword_lines(prefix@, line@));
    out
}

/// Where reading the service's log goes on after the latest log file is known:
/// a new file starts from its beginning, as does a file now shorter than what
/// was read; each such reset is noted in the recording.
pub struct ServiceLogCursor {
    pub path: Option<String>,
    pub offset: u64,
    pub switched: bool,
    pub truncated: bool,
}

pub fn service_log_cursor(
    current_path: Option<&str>,
    offset: u64,
    latest_path: &str,
    latest_len: u64,
) -> (r: ServiceLogCursor)
    ensures
        r.switched == !(current_path matches Some(p) && p@ == latest_path@),
        r.path matches Some(p) && p@ == latest_path@,
        r.truncated == (latest_len < (if r.switched {
            0
        } else {
            offset
        })),
        r.offset == (if r.switched || r.truncated {
            0
        } else {
            offset
        }),
{
    let switched = match current_path {
        Some(p) => !crate::text::str_equal(p, latest_path),
        None => true,
    };
    let start = if switched {
        0
    } else {
        offset
    };
    let truncated = latest_len < start;
    ServiceLogCursor {
        path: Some(string_of(chars_of(latest_path).as_slice())),
        offset: if truncated {
            0
        } else {
            start
        },
        switched,
        truncated,
    }
}

} // verus!
