use screen_gif::platform::{build_gif_args, build_record_args, list_screens, uses_screen_size, Platform, Region};
use screen_gif::text::decimal_string;

fn strs(v: &[&str]) -> Vec<String> {
    v.iter().map(|s| s.to_string()).collect()
}

const REGION: Region = Region { x: 10, y: 20, width: 300, height: 200 };

#[test]
fn linux_region_capture_sets_size_and_offset() {
    let (cmd, args) = build_record_args("/opt/ffmpeg", Some(&REGION), "out.webm", Platform::Linux, (1920, 1080));
    assert_eq!(cmd, "/opt/ffmpeg");
    assert!(args.contains(&"300x200".to_string()));
    let vs = args.iter().position(|a| a == "-video_size").unwrap();
    assert_eq!(args[vs + 1], "300x200");
    let i = args.iter().position(|a| a == "-i").unwrap();
    assert!(args[i + 1].ends_with("+10,20"));
    assert_eq!(
        args,
        strs(&[
            "-y", "-f", "x11grab", "-video_size", "300x200", "-i", ":0.0+10,20", "-c:v", "libvpx", "-crf", "8",
            "-b:v", "1M", "-deadline", "realtime", "out.webm"
        ])
    );
}

#[test]
fn linux_full_screen_capture_uses_detected_size() {
    let (_, args) = build_record_args("ffmpeg", None, "full.webm", Platform::Linux, (2560, 1440));
    assert_eq!(
        args,
        strs(&[
            "-y", "-f", "x11grab", "-video_size", "2560x1440", "-i", ":0.0", "-c:v", "libvpx", "-crf", "8",
            "-b:v", "1M", "-deadline", "realtime", "full.webm"
        ])
    );
}

#[test]
fn macos_region_capture_crops() {
    let (_, args) = build_record_args("ffmpeg", Some(&REGION), "o.webm", Platform::MacOs, (1, 1));
    assert_eq!(
        args,
        strs(&[
            "-y", "-f", "avfoundation", "-i", "1:none", "-vf", "crop=300:200:10:20", "-c:v", "libvpx", "-crf",
            "8", "-b:v", "1M", "-deadline", "realtime", "o.webm"
        ])
    );
}

#[test]
fn macos_full_capture_has_no_filter() {
    let (_, args) = build_record_args("ffmpeg", None, "o.webm", Platform::MacOs, (1, 1));
    assert_eq!(
        args,
        strs(&[
            "-y", "-f", "avfoundation", "-i", "1:none", "-c:v", "libvpx", "-crf", "8", "-b:v", "1M",
            "-deadline", "realtime", "o.webm"
        ])
    );
}

#[test]
fn windows_region_capture_sets_offsets_before_input() {
    let (_, args) = build_record_args("ffmpeg.exe", Some(&REGION), "o.webm", Platform::Windows, (1, 1));
    assert_eq!(
        args,
        strs(&[
            "-y", "-f", "gdigrab", "-offset_x", "10", "-offset_y", "20", "-video_size", "300x200", "-i",
            "desktop", "-c:v", "libvpx", "-crf", "8", "-b:v", "1M", "-deadline", "realtime", "o.webm"
        ])
    );
}

#[test]
fn windows_full_capture_takes_desktop() {
    let (cmd, args) = build_record_args("ffmpeg.exe", None, "o.webm", Platform::Windows, (1, 1));
    assert_eq!(cmd, "ffmpeg.exe");
    assert_eq!(
        args,
        strs(&[
            "-y", "-f", "gdigrab", "-i", "desktop", "-c:v", "libvpx", "-crf", "8", "-b:v", "1M", "-deadline",
            "realtime", "o.webm"
        ])
    );
}

#[test]
fn capture_of_largest_region_formats_full_numbers() {
    let r = Region { x: u32::MAX, y: 0, width: 4294967295, height: 1 };
    let (_, args) = build_record_args("ffmpeg", Some(&r), "o.webm", Platform::Linux, (1, 1));
    assert_eq!(args[4], "4294967295x1");
    assert_eq!(args[6], ":0.0+4294967295,0");
}

#[test]
fn gif_transcode_filter_and_tail() {
    let (cmd, args) = build_gif_args("ffmpeg", "capture.webm", "capture.gif", 15, 480);
    assert_eq!(cmd, "ffmpeg");
    let vf = args.iter().position(|a| a == "-vf").unwrap();
    let filter = &args[vf + 1];
    assert!(filter.contains("fps=15"));
    assert!(filter.contains("scale=480:-1"));
    assert!(filter.contains("palettegen"));
    assert!(filter.contains("paletteuse"));
    let n = args.len();
    assert_eq!(args[n - 3], "-loop");
    assert_eq!(args[n - 2], "0");
    assert_eq!(args[n - 1], "capture.gif");
    assert_eq!(
        args,
        strs(&[
            "-y",
            "-i",
            "capture.webm",
            "-vf",
            "fps=15,scale=480:-1:flags=lanczos,split[s0][s1];[s0]palettegen[p];[s1][p]paletteuse",
            "-loop",
            "0",
            "capture.gif"
        ])
    );
}

#[test]
fn screens_list_main_display() {
    let screens = list_screens((1366, 768));
    assert_eq!(screens.len(), 1);
    assert_eq!(screens[0].id, "0");
    assert_eq!(screens[0].name, "Main Display");
    assert_eq!(screens[0].width, 1366);
    assert_eq!(screens[0].height, 768);
}

#[test]
fn decimal_notation() {
    assert_eq!(decimal_string(0), "0");
    assert_eq!(decimal_string(7), "7");
    assert_eq!(decimal_string(10), "10");
    assert_eq!(decimal_string(1080), "1080");
    assert_eq!(decimal_string(u32::MAX), "4294967295");
}

#[test]
fn only_linux_full_screen_reads_screen_size() {
    assert!(uses_screen_size(Platform::Linux, None));
    assert!(!uses_screen_size(Platform::Linux, Some(&REGION)));
    assert!(!uses_screen_size(Platform::MacOs, None));
    assert!(!uses_screen_size(Platform::Windows, None));
}
