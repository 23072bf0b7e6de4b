use vstd::prelude::*;

use crate::platform::{build_gif_args, build_record_args, gif_args, record_args, Platform, Region};
use crate::text::occurs_at;

verus! {

/// Why a session operation failed.
#[derive(Debug)]
pub enum RecorderError {
    /// A capture was requested while one is running.
    AlreadyRecording,
    /// A stop was requested with no capture running.
    NotRecording,
    /// The encoder binary has not been located yet.
    EncoderPathUnset,
    /// The capture's encoder process could not be created.
    SpawnFailed(String),
    /// The transcode's encoder process could not be created.
    TranscodeSpawnFailed(String),
    /// Waiting for the encoder to exit failed.
    WaitFailed(String),
    /// The transcode ran and exited with a failure status; holds its error output.
    TranscodeFailed(String),
}

/// The abstract value of a [`RecorderError`].
pub enum Failure {
    AlreadyRecording,
    NotRecording,
    EncoderPathUnset,
    SpawnFailed(Seq<char>),
    TranscodeSpawnFailed(Seq<char>),
    WaitFailed(Seq<char>),
    TranscodeFailed(Seq<char>),
}

impl View for RecorderError {
    type V = Failure;

    open spec fn view(&self) -> Failure {
        match self {
            RecorderError::AlreadyRecording => Failure::AlreadyRecording,
            RecorderError::NotRecording => Failure::NotRecording,
            RecorderError::EncoderPathUnset => Failure::EncoderPathUnset,
            RecorderError::SpawnFailed(d) => Failure::SpawnFailed(d@),
            RecorderError::TranscodeSpawnFailed(d) => Failure::TranscodeSpawnFailed(d@),
            RecorderError::WaitFailed(d) => Failure::WaitFailed(d@),
            RecorderError::TranscodeFailed(d) => Failure::TranscodeFailed(d@),
        }
    }
}

/// The text reported to the user for a failure.
pub open spec fn failure_message(f: Failure) -> Seq<char> {
    match f {
        Failure::AlreadyRecording => "Recording already in progress"@,
        Failure::NotRecording => "No recording in progress"@,
        Failure::EncoderPathUnset => "ffmpeg path not set"@,
        Failure::SpawnFailed(d) => "Failed to start ffmpeg: "@ + d,
        Failure::TranscodeSpawnFailed(d) => "Failed to run ffmpeg for GIF: "@ + d,
        Failure::WaitFailed(d) => "Failed to stop ffmpeg: "@ + d,
        Failure::TranscodeFailed(d) => "GIF conversion failed: "@ + d,
    }
}

impl RecorderError {
    /// A non-empty description naming the stage that failed.
    pub fn message(&self) -> (r: String)
        ensures
            r@ == failure_message(self@),
            r@.len() > 0,
    {
        proof {
            reveal_strlit("Recording already in progress");
            reveal_strlit("No recording in progress");
            reveal_strlit("ffmpeg path not set");
            reveal_strlit("Failed to start ffmpeg: ");
            reveal_strlit("Failed to run ffmpeg for GIF: ");
            reveal_strlit("Failed to stop ffmpeg: ");
            reveal_strlit("GIF conversion failed: ");
        }
        match self {
            RecorderError::AlreadyRecording => String::from_str("Recording already in progress"),
            RecorderError::NotRecording => String::from_str("No recording in progress"),
            RecorderError::EncoderPathUnset => String::from_str("ffmpeg path not set"),
            RecorderError::SpawnFailed(d) => {
                let mut s = String::from_str("Failed to start ffmpeg: ");
                s.append(d.as_str());
                s
            },
            RecorderError::TranscodeSpawnFailed(d) => {
                let mut s = String::from_str("Failed to run ffmpeg for GIF: ");
                s.append(d.as_str());
                s
            },
            RecorderError::WaitFailed(d) => {
                let mut s = String::from_str("Failed to stop ffmpeg: ");
                s.append(d.as_str());
                s
            },
            RecorderError::TranscodeFailed(d) => {
                let mut s = String::from_str("GIF conversion failed: ");
                s.append(d.as_str());
                s
            },
        }
    }
}

/// The abstract value of a [`RecorderState`].
pub struct Session<P> {
    /// The running encoder, if a capture is in progress.
    pub process: Option<P>,
    /// Where the running capture writes.
    pub output_path: Option<Seq<char>>,
    /// The encoder binary, once located.
    pub encoder_path: Option<Seq<char>>,
}

/// A process outcome as the session sees it: the handle, or why there is none.
pub open spec fn spawn_view<P>(spawned: Result<P, String>) -> Result<P, Seq<char>> {
    match spawned {
        Ok(p) => Ok(p),
        Err(e) => Err(e@),
    }
}

impl<P> Session<P> {
    /// No capture, no encoder located.
    pub open spec fn empty() -> Self {
        Session { process: None, output_path: None, encoder_path: None }
    }

    pub open spec fn is_recording(self) -> bool {
        self.process is Some
    }

    /// A handle is owned exactly when an output path is recorded for it.
    pub open spec fn wf(self) -> bool {
        (self.process is Some) == (self.output_path is Some)
    }

    pub open spec fn with_encoder(self, path: Seq<char>) -> Self {
        Session { encoder_path: Some(path), ..self }
    }

    /// Why a capture may not begin, if it may not.
    pub open spec fn start_failure(self) -> Option<Failure> {
        if self.is_recording() {
            Some(Failure::AlreadyRecording)
        } else if self.encoder_path is None {
            Some(Failure::EncoderPathUnset)
        } else {
            None
        }
    }

    /// Why handing over a spawn outcome fails, if it does.
    pub open spec fn spawn_failure(self, spawned: Result<P, Seq<char>>) -> Option<Failure> {
        if self.is_recording() {
            Some(Failure::AlreadyRecording)
        } else {
            match spawned {
                Ok(_) => None,
                Err(e) => Some(Failure::SpawnFailed(e)),
            }
        }
    }

    /// The session after a spawn outcome is handed over.
    pub open spec fn after_spawn(self, spawned: Result<P, Seq<char>>, output_path: Seq<char>) -> Self {
        if self.spawn_failure(spawned) is None {
            Session {
                process: Some(spawned->Ok_0),
                output_path: Some(output_path),
                encoder_path: self.encoder_path,
            }
        } else {
            self
        }
    }

    /// Why a stop fails, if it does.
    pub open spec fn stop_failure(self) -> Option<Failure> {
        if self.is_recording() {
            None
        } else {
            Some(Failure::NotRecording)
        }
    }

    /// The session once the capture's handle has been released.
    pub open spec fn after_stop(self) -> Self {
        Session { process: None, output_path: None, encoder_path: self.encoder_path }
    }
}

/// The result of a stop, given how waiting for the encoder went.
pub open spec fn wait_result(output_path: Seq<char>, waited: Result<(), Seq<char>>) -> Result<
    Seq<char>,
    Failure,
> {
    match waited {
        Ok(_) => Ok(output_path),
        Err(e) => Err(Failure::WaitFailed(e)),
    }
}

/// The GIF that a capture file converts to, in the same folder: a trailing
/// `.webm` extension is replaced by `.gif`; a path without it gets `.gif`
/// appended, so the GIF is never the video itself.
pub open spec fn gif_path_of(video_path: Seq<char>) -> Seq<char> {
    let n = video_path.len();
    if n >= 5 && video_path.subrange(n - 5, n as int) == ".webm"@ {
        video_path.subrange(0, n - 5) + ".gif"@
    } else {
        video_path + ".gif"@
    }
}

/// The capture session: at most one running encoder, the file it writes,
/// and the encoder binary to run.
///
/// Spawning and waiting are left to the caller, who holds the session
/// under one lock for the whole of a start or a stop: `start` says what to
/// launch, `attach_process` records what came of it, `stop` hands the
/// process back for the graceful-stop signal and the wait, and
/// `stop_result` turns the wait's outcome into the stop's result.
pub struct RecorderState<P> {
    process: Option<P>,
    output_path: Option<String>,
    ffmpeg_path: Option<String>,
}

impl<P> View for RecorderState<P> {
    type V = Session<P>;

    closed spec fn view(&self) -> Session<P> {
        Session {
            process: self.process,
            output_path: match self.output_path {
                Some(s) => Some(s@),
                None => None,
            },
            encoder_path: match self.ffmpeg_path {
                Some(s) => Some(s@),
                None => None,
            },
        }
    }
}

impl<P> RecorderState<P> {
    #[verifier::type_invariant]
    spec fn inv(self) -> bool {
        self.process.is_some() == self.output_path.is_some()
    }

    /// An idle session with no encoder located.
    pub fn new() -> (r: Self)
        ensures
            r@ == Session::<P>::empty(),
    {
        RecorderState { process: None, output_path: None, ffmpeg_path: None }
    }

    /// Records where the encoder binary is; the capture state is untouched.
    pub fn set_ffmpeg_path(&mut self, path: String)
        ensures
            final(self)@ == old(self)@.with_encoder(path@),
            final(self)@.wf(),
    {
        proof {
            use_type_invariant(&*self);
        }
        self.ffmpeg_path = Some(path);
    }

    /// Whether a capture is running.
    pub fn is_recording(&self) -> (r: bool)
        ensures
            r == self@.is_recording(),
            self@.wf(),
    {
        proof {
            use_type_invariant(self);
        }
        self.process.is_some()
    }

    fn get_ffmpeg_path(&self) -> (r: Result<String, RecorderError>)
        ensures
            match r {
                Ok(p) => self@.encoder_path == Some(p@),
                Err(e) => self@.encoder_path is None && e@ == Failure::EncoderPathUnset,
            },
    {
        match &self.ffmpeg_path {
            Some(p) => Ok(p.clone()),
            None => Err(RecorderError::EncoderPathUnset),
        }
    }

    /// Whether a start would be accepted now.
    pub fn can_start(&self) -> (r: bool)
        ensures
            r == (self@.start_failure() is None),
    {
        self.process.is_none() && self.ffmpeg_path.is_some()
    }

    /// Decides whether a capture may begin and, if so, what to launch.
    ///
    /// The session is not changed: the caller spawns the plan's command
    /// with its input, output and error streams piped, and hands the
    /// outcome with the plan to `attach_process`.
    pub fn start(
        &self,
        region: Option<Region>,
        output_path: String,
        platform: Platform,
        screen_size: (u32, u32),
    ) -> (r: Result<CapturePlan, RecorderError>)
        ensures
            self@.wf(),
            match r {
                Ok(plan) => {
                    &&& self@.start_failure() is None
                    &&& Some(plan@.command) == self@.encoder_path
                    &&& plan@.args == record_args(
                        platform,
                        region,
                        output_path@,
                        screen_size.0,
                        screen_size.1,
                    )
                    &&& plan@.output_path == output_path@
                },
                Err(e) => self@.start_failure() == Some(e@),
            },
    {
        proof {
            use_type_invariant(self);
        }
        if self.process.is_some() {
            return Err(RecorderError::AlreadyRecording);
        }
        let ffmpeg_path = match self.get_ffmpeg_path() {
            Ok(p) => p,
            Err(e) => return Err(e),
        };
        let (command, args) = build_record_args(
            ffmpeg_path.as_str(),
            region.as_ref(),
            output_path.as_str(),
            platform,
            screen_size,
        );
        Ok(CapturePlan { command, args, output_path })
    }

    /// Records the outcome of spawning a planned capture.
    ///
    /// A spawned process is kept, with the plan's output path, only when
    /// none is owned already; an owned process is never replaced.
    pub fn attach_process(&mut self, spawned: Result<P, String>, plan: CapturePlan) -> (r: Result<
        (),
        RecorderError,
    >)
        ensures
            final(self)@ == old(self)@.after_spawn(spawn_view(spawned), plan@.output_path),
            final(self)@.wf(),
            old(self)@.is_recording() ==> final(self)@ == old(self)@,
            match r {
                Ok(_) => old(self)@.spawn_failure(spawn_view(spawned)) is None,
                Err(e) => old(self)@.spawn_failure(spawn_view(spawned)) == Some(e@),
            },
    {
        proof {
            use_type_invariant(&*self);
        }
        if self.process.is_some() {
            return Err(RecorderError::AlreadyRecording);
        }
        match spawned {
            Ok(p) => {
                let mut prev = RecorderState { process: None, output_path: None, ffmpeg_path: None };
                std::mem::swap(self, &mut prev);
                let RecorderState { ffmpeg_path, .. } = prev;
                *self = RecorderState {
                    process: Some(p),
                    output_path: Some(plan.output_path),
                    ffmpeg_path,
                };
                Ok(())
            },
            Err(e) => Err(RecorderError::SpawnFailed(e)),
        }
    }

    /// Ends the capture's ownership: hands back the running process and its
    /// output path, and leaves the session idle.
    ///
    /// The caller writes the graceful-stop byte `q` to the process's input,
    /// waits for it to exit, and passes the outcome to `stop_result`.
    pub fn stop(&mut self) -> (r: Result<(P, String), RecorderError>)
        ensures
            final(self)@.wf(),
            match r {
                Ok((p, path)) => {
                    &&& old(self)@.stop_failure() is None
                    &&& old(self)@.process == Some(p)
                    &&& old(self)@.output_path == Some(path@)
                    &&& final(self)@ == old(self)@.after_stop()
                },
                Err(e) => {
                    &&& old(self)@.stop_failure() == Some(e@)
                    &&& final(self)@ == old(self)@
                },
            },
    {
        proof {
            use_type_invariant(&*self);
        }
        if self.process.is_none() {
            return Err(RecorderError::NotRecording);
        }
        let mut prev = RecorderState { process: None, output_path: None, ffmpeg_path: None };
        std::mem::swap(self, &mut prev);
        proof {
            use_type_invariant(&prev);
        }
        let RecorderState { process, output_path, ffmpeg_path } = prev;
        self.ffmpeg_path = ffmpeg_path;
        match (process, output_path) {
            (Some(p), Some(path)) => Ok((p, path)),
            _ => {
                assert(false);
                Err(RecorderError::NotRecording)
            },
        }
    }

    /// Decides whether a GIF transcode may run and what to launch.
    ///
    /// The GIF is written beside the video: a trailing `.webm` becomes
    /// `.gif`, and a path without that extension gets `.gif` appended. The
    /// capture state is neither read nor changed.
    pub fn convert_to_gif(&self, video_path: &str, fps: u32, width: u32) -> (r: Result<
        Transcode,
        RecorderError,
    >)
        ensures
            match r {
                Ok(t) => {
                    &&& Some(t.command@) == self@.encoder_path
                    &&& t.gif_path@ == gif_path_of(video_path@)
                    &&& t.args.deep_view() == gif_args(video_path@, t.gif_path@, fps, width)
                },
                Err(e) => self@.encoder_path is None && e@ == Failure::EncoderPathUnset,
            },
    {
        let ffmpeg_path = match self.get_ffmpeg_path() {
            Ok(p) => p,
            Err(e) => return Err(e),
        };
        let gif_path = gif_path_for(video_path);
        let (command, args) = build_gif_args(
            ffmpeg_path.as_str(),
            video_path,
            gif_path.as_str(),
            fps,
            width,
        );
        Ok(Transcode { gif_path, command, args })
    }
}

/// A planned capture: the invocation to spawn and the file it writes.
///
/// Only `RecorderState::start` makes one, so the path that a stop hands
/// back is the path that the start was asked for.
#[derive(Debug)]
pub struct CapturePlan {
    command: String,
    args: Vec<String>,
    output_path: String,
}

/// The abstract value of a [`CapturePlan`].
pub struct PlanView {
    pub command: Seq<char>,
    pub args: Seq<Seq<char>>,
    pub output_path: Seq<char>,
}

impl View for CapturePlan {
    type V = PlanView;

    closed spec fn view(&self) -> PlanView {
        PlanView {
            command: self.command@,
            args: self.args.deep_view(),
            output_path: self.output_path@,
        }
    }
}

impl CapturePlan {
    /// The encoder to run.
    pub fn command(&self) -> (r: &str)
        ensures
            r@ == self@.command,
    {
        self.command.as_str()
    }

    /// The encoder's arguments, in order.
    pub fn args(&self) -> (r: &Vec<String>)
        ensures
            r.deep_view() == self@.args,
    {
        &self.args
    }

    /// The file the capture writes.
    pub fn output_path(&self) -> (r: &str)
        ensures
            r@ == self@.output_path,
    {
        self.output_path.as_str()
    }
}

/// A planned GIF transcode: the file it writes and the invocation to run.
#[derive(Debug)]
pub struct Transcode {
    pub gif_path: String,
    pub command: String,
    pub args: Vec<String>,
}

/// How a transcode process ended.
#[derive(Debug)]
pub enum TranscodeOutcome {
    /// The process could not be created.
    NotSpawned(String),
    /// The process ran and exited; `stderr` is its error output.
    Exited { success: bool, stderr: String },
}

/// The result of a transcode, given how its process ended.
pub open spec fn transcode_result(gif_path: Seq<char>, outcome: TranscodeOutcome) -> Result<
    Seq<char>,
    Failure,
> {
    match outcome {
        TranscodeOutcome::NotSpawned(e) => Err(Failure::TranscodeSpawnFailed(e@)),
        TranscodeOutcome::Exited { success, stderr } => if success {
            Ok(gif_path)
        } else {
            Err(Failure::TranscodeFailed(stderr@))
        },
    }
}

/// A transcode whose process exits with failure yields `TranscodeFailed`
/// carrying the process's error output verbatim, and the reported message
/// ends with that output.
pub proof fn lemma_transcode_failure_detail(gif_path: Seq<char>, stderr: String)
    ensures
        transcode_result(gif_path, TranscodeOutcome::Exited { success: false, stderr }) == Err::<
            Seq<char>,
            Failure,
        >(Failure::TranscodeFailed(stderr@)),
        ({
            let m = failure_message(Failure::TranscodeFailed(stderr@));
            m.subrange(m.len() - stderr@.len(), m.len() as int) == stderr@
        }),
{
    let m = failure_message(Failure::TranscodeFailed(stderr@));
    assert(m.subrange(m.len() - stderr@.len(), m.len() as int) =~= stderr@);
}

/// The result of a stop, given how waiting for the encoder went: the
/// capture's output path, or `WaitFailed` with the wait's error.
pub fn stop_result(output_path: String, waited: Result<(), String>) -> (r: Result<
    String,
    RecorderError,
>)
    ensures
        match (r, wait_result(output_path@, spawn_view(waited))) {
            (Ok(p), Ok(q)) => p@ == q,
            (Err(e), Err(f)) => e@ == f,
            _ => false,
        },
{
    match waited {
        Ok(_) => Ok(output_path),
        Err(e) => Err(RecorderError::WaitFailed(e)),
    }
}

/// The result of a transcode, given how its process ended: the GIF path on
/// success, `TranscodeSpawnFailed` when no process ran, and `TranscodeFailed` with
/// the process's error output, verbatim, when it exited with failure.
pub fn finish_convert(gif_path: String, outcome: TranscodeOutcome) -> (r: Result<
    String,
    RecorderError,
>)
    ensures
        match (r, transcode_result(gif_path@, outcome)) {
            (Ok(p), Ok(q)) => p@ == q,
            (Err(e), Err(f)) => e@ == f,
            _ => false,
        },
{
    match outcome {
        TranscodeOutcome::NotSpawned(e) => Err(RecorderError::TranscodeSpawnFailed(e)),
        TranscodeOutcome::Exited { success, stderr } => {
            if success {
                Ok(gif_path)
            } else {
                Err(RecorderError::TranscodeFailed(stderr))
            }
        },
    }
}

/// The path of the GIF made from `video_path`: its trailing `.webm`
/// replaced by `.gif`, or `.gif` appended where it has no such extension.
pub fn gif_path_for(video_path: &str) -> (r: String)
    ensures
        r@ == gif_path_of(video_path@),
{
    proof {
        reveal_strlit(".webm");
    }
    let n = video_path.unicode_len();
    if n >= 5 && occurs_at(video_path, n - 5, ".webm", 5) {
        let mut r = String::from_str(video_path.substring_char(0, n - 5));
        r.append(".gif");
        r
    } else {
        let mut r = String::from_str(video_path);
        r.append(".gif");
        r
    }
}

} // verus!
