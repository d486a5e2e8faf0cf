use std::io::Write;

use ffmpeg_cmd::FFmpeg;
use ffmpeg_cmd::FFmpegError;
use ffmpeg_cmd::ffmpeg::download_percent;
use ffmpeg_cmd::ffmpeg::extract_binary;

#[test]
fn gzip_extract_round_trip() {
    let payload: Vec<u8> = (0u16..2000).map(|i| (i % 251) as u8).collect();
    let mut encoder =
        flate2::write::GzEncoder::new(Vec::new(), flate2::Compression::default());
    encoder.write_all(&payload).expect("compress");
    let archive = encoder.finish().expect("finish archive");
    assert_ne!(archive, payload);
    let extracted = extract_binary(&archive).expect("extract");
    assert_eq!(extracted, payload);
}

#[test]
fn extract_rejects_garbage() {
    let garbage: Vec<u8> = vec![7, 7, 7, 7, 7, 7, 7, 7];
    match extract_binary(&garbage) {
        Err(FFmpegError::IoError(_)) => {}
        other => panic!("expected an IoError, got {:?}", other),
    }
}

#[test]
fn percent_exact_values() {
    assert_eq!(download_percent(50, Some(200)), Some(25));
    assert_eq!(download_percent(3, Some(7)), Some(42));
    assert_eq!(download_percent(7, Some(7)), Some(100));
    assert_eq!(download_percent(0, Some(9)), Some(0));
    assert_eq!(download_percent(4, Some(0)), Some(100));
    assert_eq!(download_percent(4, None), None);
}

#[test]
fn locator_paths() {
    let f = FFmpeg::new("/opt/tools".to_string());
    assert_eq!(f.downloaded_ffmpeg_folder(), "/opt/tools/ffmpeg");
    assert_eq!(f.downloaded_ffmpeg_path(), "/opt/tools/ffmpeg/ffmpeg");
    assert!(f.is_downloaded(true));
    assert!(!f.is_downloaded(false));
}

#[test]
fn program_resolution() {
    let f = FFmpeg::new("/opt/tools".to_string());
    assert_eq!(f.get_program(true, false).as_deref(), Some("ffmpeg"));
    assert_eq!(f.get_program(true, true).as_deref(), Some("ffmpeg"));
    assert_eq!(
        f.get_program(false, true).as_deref(),
        Some("/opt/tools/ffmpeg/ffmpeg")
    );
    assert_eq!(f.get_program(false, false), None);
}

#[test]
fn override_download_root() {
    let mut f = FFmpeg::new("/opt/a".to_string());
    f.override_downloaded_ffmpeg_path("/opt/b".to_string());
    assert_eq!(f.downloaded_ffmpeg_path(), "/opt/b/ffmpeg/ffmpeg");
}
