use vstd::prelude::*;

use crate::text::{decimal, decimal_string, push_arg, push_owned};

verus! {

/// A capture rectangle on the screen, in pixels.
#[derive(Debug, Clone, Copy, PartialEq, Eq)]
pub struct Region {
    pub x: u32,
    pub y: u32,
    pub width: u32,
    pub height: u32,
}

/// A display that can be captured.
#[derive(Debug, Clone)]
pub struct ScreenInfo {
    pub id: String,
    pub name: String,
    pub width: u32,
    pub height: u32,
}

/// The host's screen-capture driver family.
#[derive(Debug, Clone, Copy, PartialEq, Eq, Structural)]
pub enum Platform {
    /// Device capture through AVFoundation.
    MacOs,
    /// Desktop capture through GDI.
    Windows,
    /// Capture of an X server's display.
    Linux,
}

pub open spec fn region_of(region: Option<&Region>) -> Option<Region> {
    match region {
        Some(r) => Some(*r),
        None => None,
    }
}

/// `WxH`, the notation of a capture size.
pub open spec fn size_text(width: u32, height: u32) -> Seq<char> {
    decimal(width as nat) + "x"@ + decimal(height as nat)
}

/// The crop filter that cuts `r` out of a full-screen capture.
pub open spec fn crop_text(r: Region) -> Seq<char> {
    "crop="@ + decimal(r.width as nat) + ":"@ + decimal(r.height as nat) + ":"@ + decimal(
        r.x as nat,
    ) + ":"@ + decimal(r.y as nat)
}

/// The X display target, offset to the region's corner.
pub open spec fn display_at(x: u32, y: u32) -> Seq<char> {
    ":0.0+"@ + decimal(x as nat) + ","@ + decimal(y as nat)
}

/// The arguments that select the capture source and area.
pub open spec fn source_args(
    platform: Platform,
    region: Option<Region>,
    screen_width: u32,
    screen_height: u32,
) -> Seq<Seq<char>> {
    match platform {
        Platform::MacOs => seq!["-f"@, "avfoundation"@, "-i"@, "1:none"@] + match region {
            Some(r) => seq!["-vf"@, crop_text(r)],
            None => Seq::empty(),
        },
        Platform::Windows => seq!["-f"@, "gdigrab"@] + match region {
            Some(r) => seq![
                "-offset_x"@,
                decimal(r.x as nat),
                "-offset_y"@,
                decimal(r.y as nat),
                "-video_size"@,
                size_text(r.width, r.height),
            ],
            None => Seq::empty(),
        } + seq!["-i"@, "desktop"@],
        Platform::Linux => seq!["-f"@, "x11grab"@] + match region {
            Some(r) => seq!["-video_size"@, size_text(r.width, r.height), "-i"@, display_at(r.x, r.y)],
            None => seq!["-video_size"@, size_text(screen_width, screen_height), "-i"@, ":0.0"@],
        },
    }
}

/// The fixed encoding options, then the output file.
pub open spec fn encoding_args(output_path: Seq<char>) -> Seq<Seq<char>> {
    seq![
        "-c:v"@,
        "libvpx"@,
        "-crf"@,
        "8"@,
        "-b:v"@,
        "1M"@,
        "-deadline"@,
        "realtime"@,
        output_path,
    ]
}

/// The full argument list of a capture.
pub open spec fn record_args(
    platform: Platform,
    region: Option<Region>,
    output_path: Seq<char>,
    screen_width: u32,
    screen_height: u32,
) -> Seq<Seq<char>> {
    seq!["-y"@] + source_args(platform, region, screen_width, screen_height) + encoding_args(
        output_path,
    )
}

/// The filter graph of a GIF transcode: resample, scale, and a two-pass palette.
pub open spec fn gif_filter(fps: u32, width: u32) -> Seq<char> {
    "fps="@ + decimal(fps as nat) + ",scale="@ + decimal(width as nat)
        + ":-1:flags=lanczos,split[s0][s1];[s0]palettegen[p];[s1][p]paletteuse"@
}

/// The full argument list of a GIF transcode.
pub open spec fn gif_args(input_path: Seq<char>, output_path: Seq<char>, fps: u32, width: u32) -> Seq<
    Seq<char>,
> {
    seq!["-y"@, "-i"@, input_path, "-vf"@, gif_filter(fps, width), "-loop"@, "0"@, output_path]
}

fn size_string(width: u32, height: u32) -> (r: String)
    ensures
        r@ == size_text(width, height),
{
    let mut s = decimal_string(width);
    s.append("x");
    let h = decimal_string(height);
    s.append(h.as_str());
    s
}

fn source_into(
    args: &mut Vec<String>,
    platform: Platform,
    region: Option<&Region>,
    screen_size: (u32, u32),
)
    ensures
        final(args).deep_view() == old(args).deep_view() + source_args(
            platform,
            region_of(region),
            screen_size.0,
            screen_size.1,
        ),
{
    let ghost start = args.deep_view();
    match platform {
        Platform::MacOs => {
            push_arg(args, "-f");
            push_arg(args, "avfoundation");
            push_arg(args, "-i");
            push_arg(args, "1:none");
            if let Some(r) = region {
                push_arg(args, "-vf");
                let mut crop = String::from_str("crop=");
                let w = decimal_string(r.width);
                crop.append(w.as_str());
                crop.append(":");
                let h = decimal_string(r.height);
                crop.append(h.as_str());
                crop.append(":");
                let x = decimal_string(r.x);
                crop.append(x.as_str());
                crop.append(":");
                let y = decimal_string(r.y);
                crop.append(y.as_str());
                push_owned(args, crop);
            }
        },
        Platform::Windows => {
            push_arg(args, "-f");
            push_arg(args, "gdigrab");
            if let Some(r) = region {
                push_arg(args, "-offset_x");
                push_owned(args, decimal_string(r.x));
                push_arg(args, "-offset_y");
                push_owned(args, decimal_string(r.y));
                push_arg(args, "-video_size");
                push_owned(args, size_string(r.width, r.height));
            }
            push_arg(args, "-i");
            push_arg(args, "desktop");
        },
        Platform::Linux => {
            push_arg(args, "-f");
            push_arg(args, "x11grab");
            if let Some(r) = region {
                push_arg(args, "-video_size");
                push_owned(args, size_string(r.width, r.height));
                push_arg(args, "-i");
                let mut target = String::from_str(":0.0+");
                let x = decimal_string(r.x);
                target.append(x.as_str());
                target.append(",");
                let y = decimal_string(r.y);
                target.append(y.as_str());
                push_owned(args, target);
            } else {
                push_arg(args, "-video_size");
                push_owned(args, size_string(screen_size.0, screen_size.1));
                push_arg(args, "-i");
                push_arg(args, ":0.0");
            }
        },
    }
    assert(args.deep_view() =~= start + source_args(
        platform,
        region_of(region),
        screen_size.0,
        screen_size.1,
    ));
}

/// Builds the encoder invocation of a screen capture.
///
/// `screen_size` is the size of the whole display; it is read only on
/// `Platform::Linux` when no region is given. Overwriting the output is
/// always allowed, and the output path is the last argument.
pub fn build_record_args(
    ffmpeg_path: &str,
    region: Option<&Region>,
    output_path: &str,
    platform: Platform,
    screen_size: (u32, u32),
) -> (r: (String, Vec<String>))
    ensures
        r.0@ == ffmpeg_path@,
        r.1.deep_view() == record_args(
            platform,
            region_of(region),
            output_path@,
            screen_size.0,
            screen_size.1,
        ),
{
    let command = String::from_str(ffmpeg_path);
    let mut args: Vec<String> = Vec::new();
    push_arg(&mut args, "-y");
    source_into(&mut args, platform, region, screen_size);
    let ghost before_tail = args.deep_view();
    push_arg(&mut args, "-c:v");
    push_arg(&mut args, "libvpx");
    push_arg(&mut args, "-crf");
    push_arg(&mut args, "8");
    push_arg(&mut args, "-b:v");
    push_arg(&mut args, "1M");
    push_arg(&mut args, "-deadline");
    push_arg(&mut args, "realtime");
    push_arg(&mut args, output_path);
    assert(args.deep_view() =~= before_tail + encoding_args(output_path@));
    assert(args.deep_view() =~= record_args(
        platform,
        region_of(region),
        output_path@,
        screen_size.0,
        screen_size.1,
    ));
    (command, args)
}

/// Whether a capture command reads the display size: only a Linux capture
/// of the whole display does; any other ignores the size it is given.
pub fn uses_screen_size(platform: Platform, region: Option<&Region>) -> (r: bool)
    ensures
        r == (platform == Platform::Linux && region is None),
        !r ==> forall|o: Seq<char>, w1: u32, h1: u32, w2: u32, h2: u32|
            #[trigger] record_args(platform, region_of(region), o, w1, h1) == #[trigger] record_args(
                platform,
                region_of(region),
                o,
                w2,
                h2,
            ),
{
    match platform {
        Platform::Linux => region.is_none(),
        _ => false,
    }
}

/// Builds the encoder invocation that transcodes `input_path` into a GIF at
/// `output_path`, resampled to `fps` frames per second and scaled to
/// `width` pixels wide with the height following the aspect ratio.
///
/// Neither `fps` nor `width` is checked here: rejecting zero is the
/// caller's part.
pub fn build_gif_args(
    ffmpeg_path: &str,
    input_path: &str,
    output_path: &str,
    fps: u32,
    width: u32,
) -> (r: (String, Vec<String>))
    ensures
        r.0@ == ffmpeg_path@,
        r.1.deep_view() == gif_args(input_path@, output_path@, fps, width),
{
    let command = String::from_str(ffmpeg_path);
    let mut filter = String::from_str("fps=");
    let f = decimal_string(fps);
    filter.append(f.as_str());
    filter.append(",scale=");
    let w = decimal_string(width);
    filter.append(w.as_str());
    filter.append(":-1:flags=lanczos,split[s0][s1];[s0]palettegen[p];[s1][p]paletteuse");
    let mut args: Vec<String> = Vec::new();
    push_arg(&mut args, "-y");
    push_arg(&mut args, "-i");
    push_arg(&mut args, input_path);
    push_arg(&mut args, "-vf");
    push_owned(&mut args, filter);
    push_arg(&mut args, "-loop");
    push_arg(&mut args, "0");
    push_arg(&mut args, output_path);
    assert(args.deep_view() =~= gif_args(input_path@, output_path@, fps, width));
    (command, args)
}

/// The display list: the main display at the given size.
pub fn list_screens(screen_size: (u32, u32)) -> (r: Vec<ScreenInfo>)
    ensures
        r@.len() == 1,
        r@[0].id@ == "0"@,
        r@[0].name@ == "Main Display"@,
        r@[0].width == screen_size.0,
        r@[0].height == screen_size.1,
{
    let mut screens: Vec<ScreenInfo> = Vec::new();
    screens.push(
        ScreenInfo {
            id: String::from_str("0"),
            name: String::from_str("Main Display"),
            width: screen_size.0,
            height: screen_size.1,
        },
    );
    screens
}

/// A Linux capture of the whole display asks for the display's size and
/// targets the bare display; a region capture asks for the region's size at
/// the display offset to the region's corner.
pub proof fn lemma_linux_capture_target(
    region: Option<Region>,
    output_path: Seq<char>,
    screen_width: u32,
    screen_height: u32,
)
    ensures
        ({
            let a = record_args(Platform::Linux, region, output_path, screen_width, screen_height);
            &&& a[3] == "-video_size"@
            &&& a[5] == "-i"@
            &&& match region {
                Some(r) => a[4] == size_text(r.width, r.height) && a[6] == display_at(r.x, r.y),
                None => a[4] == size_text(screen_width, screen_height) && a[6] == ":0.0"@,
            }
        }),
{
}

} // verus!
