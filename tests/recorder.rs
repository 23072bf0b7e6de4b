use screen_gif::platform::{Platform, Region};
use screen_gif::recorder::{
    finish_convert, gif_path_for, stop_result, CapturePlan, RecorderError, RecorderState, TranscodeOutcome,
};

fn ready() -> RecorderState<u32> {
    let mut s = RecorderState::new();
    s.set_ffmpeg_path("ffmpeg".to_string());
    s
}

fn plan(s: &RecorderState<u32>, path: &str) -> CapturePlan {
    s.start(None, path.to_string(), Platform::Linux, (800, 600)).ok().unwrap()
}

#[test]
fn start_without_encoder_path_fails() {
    let s: RecorderState<u32> = RecorderState::new();
    assert!(!s.can_start());
    let r = s.start(None, "out.webm".to_string(), Platform::Linux, (1920, 1080));
    assert!(matches!(r, Err(RecorderError::EncoderPathUnset)));
    assert_eq!(r.err().unwrap().message(), "ffmpeg path not set");
}

#[test]
fn start_plans_the_capture_command() {
    let s = ready();
    assert!(s.can_start());
    let region = Region { x: 10, y: 20, width: 300, height: 200 };
    let p = s.start(Some(region), "out.webm".to_string(), Platform::Linux, (1920, 1080)).unwrap();
    assert_eq!(p.command(), "ffmpeg");
    assert_eq!(p.args()[4], "300x200");
    assert_eq!(p.args()[6], ":0.0+10,20");
    assert_eq!(p.args().last().unwrap(), "out.webm");
    assert_eq!(p.output_path(), "out.webm");
    assert!(!s.is_recording());
}

#[test]
fn second_start_is_refused_and_session_kept() {
    let mut s = ready();
    let first = plan(&s, "a.webm");
    let second = plan(&s, "b.webm");
    assert!(s.attach_process(Ok(1), first).is_ok());
    assert!(!s.can_start());
    let again = s.start(None, "b.webm".to_string(), Platform::Linux, (800, 600));
    assert!(matches!(again, Err(RecorderError::AlreadyRecording)));
    let attach = s.attach_process(Ok(2), second);
    assert!(matches!(attach, Err(RecorderError::AlreadyRecording)));
    assert_eq!(attach.err().unwrap().message(), "Recording already in progress");
    let (p, path) = s.stop().ok().unwrap();
    assert_eq!(p, 1);
    assert_eq!(path, "a.webm");
}

#[test]
fn stop_without_start_is_not_recording() {
    let mut fresh: RecorderState<u32> = RecorderState::new();
    let r = fresh.stop();
    assert!(matches!(r, Err(RecorderError::NotRecording)));
    assert_eq!(r.err().unwrap().message(), "No recording in progress");
    let mut s = ready();
    assert!(matches!(s.stop(), Err(RecorderError::NotRecording)));
}

#[test]
fn failed_spawn_leaves_session_idle() {
    let mut s = ready();
    let p = plan(&s, "a.webm");
    let r = s.attach_process(Err("No such file or directory".to_string()), p);
    match &r {
        Err(RecorderError::SpawnFailed(d)) => assert_eq!(d, "No such file or directory"),
        _ => panic!("expected a spawn failure"),
    }
    assert_eq!(r.err().unwrap().message(), "Failed to start ffmpeg: No such file or directory");
    assert!(!s.is_recording());
    assert!(matches!(s.stop(), Err(RecorderError::NotRecording)));
}

#[test]
fn start_then_stop_returns_output_path_and_allows_restart() {
    let mut s = ready();
    let p = s.start(None, "/tmp/rec.webm".to_string(), Platform::Windows, (1, 1)).ok().unwrap();
    s.attach_process(Ok(42), p).ok().unwrap();
    assert!(s.is_recording());
    let (p, path) = s.stop().ok().unwrap();
    assert_eq!(p, 42);
    assert_eq!(stop_result(path, Ok(())).ok().unwrap(), "/tmp/rec.webm");
    assert!(!s.is_recording());
    let next = s.start(None, "/tmp/next.webm".to_string(), Platform::Windows, (1, 1)).ok().unwrap();
    assert!(s.attach_process(Ok(43), next).is_ok());
}

#[test]
fn failed_wait_reports_wait_failure() {
    let r = stop_result("a.webm".to_string(), Err("interrupted".to_string()));
    match &r {
        Err(RecorderError::WaitFailed(d)) => assert_eq!(d, "interrupted"),
        _ => panic!("expected a wait failure"),
    }
    assert_eq!(r.err().unwrap().message(), "Failed to stop ffmpeg: interrupted");
}

#[test]
fn convert_computes_gif_path() {
    let s = ready();
    let t = s.convert_to_gif("capture.webm", 15, 480).ok().unwrap();
    assert_eq!(t.gif_path, "capture.gif");
    assert_eq!(t.command, "ffmpeg");
    assert_eq!(t.args[2], "capture.webm");
    assert_eq!(t.args.last().unwrap(), "capture.gif");
    assert_eq!(gif_path_for("capture.webm"), "capture.gif");
}

#[test]
fn gif_path_replaces_only_the_extension() {
    assert_eq!(gif_path_for("a.webm/c.webm"), "a.webm/c.gif");
    assert_eq!(gif_path_for("x.webm.webm"), "x.webm.gif");
    assert_eq!(gif_path_for("/home/u/été.webm"), "/home/u/été.gif");
    assert_eq!(gif_path_for(".webm"), ".gif");
}

#[test]
fn gif_path_without_webm_extension_appends_gif() {
    assert_eq!(gif_path_for("clip.mp4"), "clip.mp4.gif");
    assert_eq!(gif_path_for("a.webm/clip"), "a.webm/clip.gif");
    assert_eq!(gif_path_for("webm"), "webm.gif");
    assert_eq!(gif_path_for(""), ".gif");
}

#[test]
fn convert_without_encoder_path_fails() {
    let s: RecorderState<u32> = RecorderState::new();
    assert!(matches!(s.convert_to_gif("capture.webm", 15, 480), Err(RecorderError::EncoderPathUnset)));
}

#[test]
fn convert_does_not_touch_capture() {
    let mut s = ready();
    let p = plan(&s, "c.webm");
    s.attach_process(Ok(5), p).ok().unwrap();
    assert!(s.convert_to_gif("old.webm", 10, 320).is_ok());
    let (p, path) = s.stop().ok().unwrap();
    assert_eq!((p, path.as_str()), (5, "c.webm"));
}

#[test]
fn failed_transcode_carries_error_output() {
    let stderr = "Invalid data found when processing input\n";
    let r = finish_convert(
        "capture.gif".to_string(),
        TranscodeOutcome::Exited { success: false, stderr: stderr.to_string() },
    );
    match &r {
        Err(RecorderError::TranscodeFailed(d)) => assert_eq!(d, stderr),
        _ => panic!("expected a transcode failure"),
    }
    let msg = r.err().unwrap().message();
    assert!(msg.contains(stderr));
    assert_eq!(msg, format!("GIF conversion failed: {}", stderr));
}

#[test]
fn transcode_outcomes() {
    let ok = finish_convert("a.gif".to_string(), TranscodeOutcome::Exited { success: true, stderr: "noise".to_string() });
    assert_eq!(ok.ok().unwrap(), "a.gif");
    let ns = finish_convert("a.gif".to_string(), TranscodeOutcome::NotSpawned("denied".to_string()));
    assert!(matches!(ns, Err(RecorderError::TranscodeSpawnFailed(ref d)) if d == "denied"));
    assert_eq!(ns.err().unwrap().message(), "Failed to run ffmpeg for GIF: denied");
}
