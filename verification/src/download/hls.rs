//! Converting a playlist with FFmpeg: the command line, what to do with each
//! thing the running process reports, and how its end is read.

use vstd::prelude::*;
use crate::text::{append, chars_of, contains_str, decimal, has_sub, own, push_decimal};

verus! {

/// Why an FFmpeg run did not produce the file.
#[derive(Debug, Clone)]
pub enum HlsError {
    /// FFmpeg ended badly, with what is known of how.
    Failed(String),
    /// The run was stopped on request.
    Cancelled,
    /// Reading from or waiting for the process failed, with the system's words.
    Io(String),
}

/// The text of an error as the user sees it.
pub open spec fn hls_error_text(e: HlsError) -> Seq<char> {
    match e {
        HlsError::Failed(m) => "FFmpeg failed: "@ + m@,
        HlsError::Cancelled => "Download cancelado"@,
        HlsError::Io(m) => "IO error: "@ + m@,
    }
}

impl HlsError {
    /// The text of the error as the user sees it.
    pub fn message(&self) -> (r: String)
        ensures
            r@ == hls_error_text(*self),
    {
        match self {
            HlsError::Failed(m) => {
                let mut r = own("FFmpeg failed: ");
                append(&mut r, m.as_str());
                r
            },
            HlsError::Cancelled => own("Download cancelado"),
            HlsError::Io(m) => {
                let mut r = own("IO error: ");
                append(&mut r, m.as_str());
                r
            },
        }
    }
}

/// The arguments FFmpeg is run with: quiet, any playlist extension, the given
/// headers, stream copy into `output` (`output.mp4` when the path is not text).
pub open spec fn ffmpeg_arg_list(headers: Seq<char>, stream_url: Seq<char>, output: Option<Seq<char>>) -> Seq<Seq<char>> {
    seq![
        "-y"@,
        "-loglevel"@,
        "warning"@,
        "-extension_picky"@,
        "0"@,
        "-headers"@,
        headers,
        "-i"@,
        stream_url,
        "-c"@,
        "copy"@,
        "-bsf:a"@,
        "aac_adtstoasc"@,
        match output {
            Some(o) => o,
            None => "output.mp4"@,
        },
    ]
}

/// The arguments FFmpeg is run with.
pub fn ffmpeg_args(headers: &str, stream_url: &str, output: Option<&str>) -> (r: Vec<String>)
    ensures
        r@.map_values(|s: String| s@) == ffmpeg_arg_list(
            headers@,
            stream_url@,
            match output {
                Some(o) => Some(o@),
                None => None,
            },
        ),
{
    let mut r: Vec<String> = Vec::new();
    r.push(own("-y"));
    r.push(own("-loglevel"));
    r.push(own("warning"));
    r.push(own("-extension_picky"));
    r.push(own("0"));
    r.push(own("-headers"));
    r.push(own(headers));
    r.push(own("-i"));
    r.push(own(stream_url));
    r.push(own("-c"));
    r.push(own("copy"));
    r.push(own("-bsf:a"));
    r.push(own("aac_adtstoasc"));
    match output {
        Some(o) => r.push(own(o)),
        None => r.push(own("output.mp4")),
    }
    assert(r@.map_values(|s: String| s@) =~= ffmpeg_arg_list(
        headers@,
        stream_url@,
        match output {
            Some(o) => Some(o@),
            None => None,
        },
    ));
    r
}

/// How the process looks when no line came for a while.
#[derive(Debug, Clone)]
pub enum ProcessState {
    /// It ended, successfully or not, with its exit code when it has one.
    Exited { success: bool, code: Option<i32> },
    /// It is still running.
    Running,
    /// Asking failed, with the system's words.
    WaitFailed(String),
    /// It is no longer held (it was taken away).
    Gone,
}

/// What the watch over a running FFmpeg sees next.
#[derive(Debug, Clone)]
pub enum WatchEvent {
    /// A line on FFmpeg's error output.
    Line(String),
    /// The error output closed.
    Closed,
    /// Reading the error output failed, with the system's words.
    ReadFailed(String),
    /// No line came in time; how the process looks.
    Quiet(ProcessState),
}

/// What the watch does about it.
#[derive(Debug, Clone)]
pub enum WatchStep {
    /// Keep watching.
    Continue,
    /// The line reports the converted time: report progress from it, then
    /// keep watching.
    Progress(String),
    /// Stop watching, with the exit status when it is known.
    Done(Option<(bool, Option<i32>)>),
    /// Kill the process and end with this error.
    KillAndFail(HlsError),
    /// End with this error (nothing is left to kill).
    Fail(HlsError),
}

/// The watch's decision, given whether a stop was asked for and what it saw.
pub open spec fn watch_decision(stopped: bool, event: WatchEvent) -> WatchStep {
    if stopped {
        WatchStep::KillAndFail(HlsError::Cancelled)
    } else {
        match event {
            WatchEvent::Line(l) => if has_sub(l@, "time="@) {
                WatchStep::Progress(l)
            } else {
                WatchStep::Continue
            },
            WatchEvent::Closed => WatchStep::Done(None),
            WatchEvent::ReadFailed(e) => WatchStep::KillAndFail(HlsError::Io(e)),
            WatchEvent::Quiet(state) => match state {
                ProcessState::Exited { success, code } => WatchStep::Done(Some((success, code))),
                ProcessState::Running => WatchStep::Continue,
                ProcessState::WaitFailed(e) => WatchStep::Fail(HlsError::Io(e)),
                ProcessState::Gone => WatchStep::Done(None),
            },
        }
    }
}

/// Decides what the watch over a running FFmpeg does next: a stop request
/// kills it; progress lines are reported; the end of its output, or its exit,
/// ends the watch; failures end the run.
pub fn watch_step(stopped: bool, event: WatchEvent) -> (r: WatchStep)
    ensures
        r == watch_decision(stopped, event),
{
    if stopped {
        return WatchStep::KillAndFail(HlsError::Cancelled);
    }
    match event {
        WatchEvent::Line(l) => {
            let v = chars_of(l.as_str());
            if contains_str(&v, "time=") {
                WatchStep::Progress(l)
            } else {
                WatchStep::Continue
            }
        },
        WatchEvent::Closed => WatchStep::Done(None),
        WatchEvent::ReadFailed(e) => WatchStep::KillAndFail(HlsError::Io(e)),
        WatchEvent::Quiet(state) => match state {
            ProcessState::Exited { success, code } => WatchStep::Done(Some((success, code))),
            ProcessState::Running => WatchStep::Continue,
            ProcessState::WaitFailed(e) => WatchStep::Fail(HlsError::Io(e)),
            ProcessState::Gone => WatchStep::Done(None),
        },
    }
}

/// An optional exit code as Rust's debug form writes it: `Some(1)`, `None`.
pub open spec fn code_text(code: Option<i32>) -> Seq<char> {
    match code {
        Some(c) => "Some("@ + (if c < 0 {
            "-"@ + decimal((-c) as nat)
        } else {
            decimal(c as nat)
        }) + ")"@,
        None => "None"@,
    }
}

/// Reads how a finished run ends, from whether a stop was asked for and the
/// exit status (success and code) when there is one.
pub fn hls_outcome(stopped: bool, exit: Option<(bool, Option<i32>)>) -> (r: Result<(), HlsError>)
    ensures
        stopped ==> r matches Err(HlsError::Cancelled),
        !stopped ==> match exit {
            Some((true, _)) => r is Ok,
            Some((false, code)) => r matches Err(HlsError::Failed(m)) && m@ == "exit code "@
                + code_text(code),
            None => r matches Err(HlsError::Failed(m)) && m@ == "FFmpeg terminou sem status"@,
        },
{
    if stopped {
        return Err(HlsError::Cancelled);
    }
    match exit {
        Some((true, _)) => Ok(()),
        Some((false, code)) => {
            let mut m = own("exit code ");
            match code {
                Some(c) => {
                    append(&mut m, "Some(");
                    if c < 0 {
                        append(&mut m, "-");
                        let n: u32 = if c == i32::MIN {
                            2147483648u32
                        } else {
                            (-c) as u32
                        };
                        push_decimal(&mut m, n);
                    } else {
                        push_decimal(&mut m, c as u32);
                    }
                    append(&mut m, ")");
                },
                None => append(&mut m, "None"),
            }
            Err(HlsError::Failed(m))
        },
        None => Err(HlsError::Failed(own("FFmpeg terminou sem status"))),
    }
}

/// What the queue records of a run: nothing on success; on a stop, the
/// pause or cancel message; otherwise the error's text.
pub fn run_result(result: Result<(), HlsError>, paused: bool) -> (r: Result<(), String>)
    ensures
        match result {
            Ok(()) => r is Ok,
            Err(HlsError::Cancelled) => r matches Err(m) && m@ == crate::download::worker::stop_message(
                paused,
            ),
            Err(e) => r matches Err(m) && m@ == hls_error_text(e),
        },
{
    match result {
        Ok(()) => Ok(()),
        Err(HlsError::Cancelled) => Err(crate::download::worker::stopped_message(paused)),
        Err(e) => Err(e.message()),
    }
}

} // verus!
