use ffmpeg_cmd::FFmpeg;
use ffmpeg_cmd::FFmpegBuilder;
use ffmpeg_cmd::Normal;
use ffmpeg_cmd::Pipe;
use ffmpeg_cmd::StdioKind;

fn new_builder() -> FFmpegBuilder<Normal> {
    FFmpeg::new_with_program("ffmpeg".to_string(), "/tmp".to_string())
}

#[test]
fn modifier_placement_vector() {
    let b = new_builder()
        .arg("-hide_banner".to_string())
        .input_with_file("in.mp4".to_string())
        .format("mp4")
        .codec_audio("aac")
        .format("avi")
        .done()
        .output_as_file("out.mp4".to_string())
        .codec_video("h264")
        .done();
    let expected: Vec<String> = vec![
        "-hide_banner".to_string(),
        "-c:a".to_string(),
        "aac".to_string(),
        "-f".to_string(),
        "avi".to_string(),
        "-f".to_string(),
        "mp4".to_string(),
        "-i".to_string(),
        "in.mp4".to_string(),
        "-c:v".to_string(),
        "h264".to_string(),
        "-y".to_string(),
        "out.mp4".to_string(),
    ];
    assert_eq!(b.inspect_args(), &expected);
}

#[test]
fn appended_args_in_order() {
    let b = new_builder()
        .arg("-nostdin".to_string())
        .args(vec!["-loglevel".to_string(), "error".to_string()]);
    let expected: Vec<String> = vec![
        "-nostdin".to_string(),
        "-loglevel".to_string(),
        "error".to_string(),
    ];
    assert_eq!(b.inspect_args(), &expected);
}

#[test]
fn description_args_land_before_stream_token() {
    let b = new_builder()
        .input_with_file("clip.wav".to_string())
        .args(vec!["-ss".to_string(), "3".to_string()])
        .arg("-vn".to_string())
        .done();
    let expected: Vec<String> = vec![
        "-ss".to_string(),
        "3".to_string(),
        "-vn".to_string(),
        "-i".to_string(),
        "clip.wav".to_string(),
    ];
    assert_eq!(b.inspect_args(), &expected);
}

#[test]
fn stdio_wiring() {
    let b = new_builder();
    assert_eq!(
        b.stdio(),
        (StdioKind::Piped, StdioKind::Piped, StdioKind::Piped)
    );
    let b = b
        .stdin(StdioKind::Null)
        .stdout(StdioKind::Inherit)
        .stderr(StdioKind::Piped);
    assert_eq!(
        b.stdio(),
        (StdioKind::Null, StdioKind::Inherit, StdioKind::Piped)
    );
    assert_eq!(b.program(), "ffmpeg");
    assert_eq!(b.temp_dir(), "/tmp");
}

#[test]
fn input_pipe_declaration() {
    let mut pipe: Option<Pipe> = None;
    let b = new_builder()
        .input_with_pipe(&mut pipe)
        .expect("channel creation")
        .done();
    let p = pipe.expect("channel handed back");
    let args = b.inspect_args();
    assert_eq!(args.len(), 2);
    assert_eq!(args[0], "-i");
    assert_eq!(args[1], p.path());
    assert!(p.path().starts_with("/tmp/"));
    assert!(p.path().ends_with(".pipe"));
}

#[test]
fn fresh_pipe_name_shape() {
    let mut pipe: Option<Pipe> = None;
    let _b = new_builder()
        .output_with_pipe(&mut pipe)
        .expect("channel creation");
    let p = pipe.expect("channel handed back");
    let path = p.path();
    let name = path
        .strip_prefix("/tmp/")
        .and_then(|s| s.strip_suffix(".pipe"))
        .expect("path shape");
    assert_eq!(name.chars().count(), 10);
    assert!(name.chars().all(|c| c.is_ascii_alphanumeric()));
}

#[test]
fn progress_channel_appends() {
    let b = new_builder().arg("-nostats".to_string());
    let (b, p) = b.progress_channel().expect("channel creation");
    let args = b.inspect_args();
    assert_eq!(args.len(), 3);
    assert_eq!(args[0], "-nostats");
    assert_eq!(args[1], "-progress");
    assert_eq!(args[2], p.path());
}
