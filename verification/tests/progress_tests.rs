use ffmpeg_cmd::FFmpegProgress;
use ffmpeg_cmd::FFmpegProgressStatus;
use ffmpeg_cmd::progress::progress_chunk;

#[test]
fn four_field_snapshot() {
    let p = FFmpegProgress::from(
        "frame=120\nfps=30\nbitrate=512.0kbits/s\nprogress=continue".to_string(),
    );
    assert_eq!(p.frame, Some(120));
    assert_eq!(p.fps, Some(30));
    assert_eq!(p.bitrate.as_deref(), Some("512.0"));
    let rate: f32 = p.bitrate.unwrap().parse().unwrap();
    assert!((rate - 512.0).abs() < 1e-6);
    assert!(matches!(p.progress, Some(FFmpegProgressStatus::Continue)));
    assert_eq!(p.total_size, None);
    assert_eq!(p.out_time_us, None);
    assert_eq!(p.out_time_ms, None);
    assert_eq!(p.dup_frames, None);
    assert_eq!(p.drop_frames, None);
    assert_eq!(p.speed, None);
}

#[test]
fn terminal_end_block() {
    let p = FFmpegProgress::from("frame=7\nprogress=end".to_string());
    assert_eq!(p.frame, Some(7));
    assert!(matches!(p.progress, Some(FFmpegProgressStatus::End)));
}

#[test]
fn status_from_str() {
    assert!(matches!(
        FFmpegProgressStatus::from_str("continue"),
        Some(FFmpegProgressStatus::Continue)
    ));
    assert!(matches!(
        FFmpegProgressStatus::from_str("end"),
        Some(FFmpegProgressStatus::End)
    ));
    assert!(FFmpegProgressStatus::from_str("done").is_none());
    assert!(FFmpegProgressStatus::from_str("").is_none());
}

#[test]
fn malformed_fields_left_empty() {
    let p = FFmpegProgress::from(
        "frame=abc\nbitrate=N/A\nspeed=fastx\nprogress=paused".to_string(),
    );
    assert_eq!(p.frame, None);
    assert_eq!(p.bitrate, None);
    assert_eq!(p.speed, None);
    assert!(p.progress.is_none());
}

#[test]
fn later_line_overwrites() {
    let p = FFmpegProgress::from("frame=1\nframe=2\nframe=oops".to_string());
    assert_eq!(p.frame, None);
    let q = FFmpegProgress::from("frame=1\nframe=2".to_string());
    assert_eq!(q.frame, Some(2));
}

#[test]
fn unknown_keys_ignored() {
    let p = FFmpegProgress::from("stream_0_0_q=29.0\nframe=5\nnot a pair".to_string());
    assert_eq!(p.frame, Some(5));
}

#[test]
fn whitespace_trimmed() {
    let p = FFmpegProgress::from(" frame = 42 \r\n fps =7".to_string());
    assert_eq!(p.frame, Some(42));
    assert_eq!(p.fps, Some(7));
}

#[test]
fn numeric_overflow_left_empty() {
    let p = FFmpegProgress::from("frame=99999999999999999999999999999999".to_string());
    assert_eq!(p.frame, None);
    let q = FFmpegProgress::from("frame=+8".to_string());
    assert_eq!(q.frame, Some(8));
}

#[test]
fn speed_suffix_split() {
    let p = FFmpegProgress::from("speed=1.05x".to_string());
    assert_eq!(p.speed.as_deref(), Some("1.05"));
    let s: f32 = p.speed.unwrap().parse().unwrap();
    assert!((s - 1.05).abs() < 1e-6);
}

#[test]
fn chunk_terminal_detection() {
    let (rec, ended) = progress_chunk(b"frame=9\nprogress=continue\n");
    assert!(!ended);
    assert_eq!(rec.frame, Some(9));
    assert!(matches!(rec.progress, Some(FFmpegProgressStatus::Continue)));
    let (last, done) = progress_chunk(b"frame=10\nprogress=end\n");
    assert!(done);
    assert_eq!(last.frame, Some(10));
    assert!(matches!(last.progress, Some(FFmpegProgressStatus::End)));
}

#[test]
fn chunk_survives_invalid_bytes() {
    let mut block: Vec<u8> = Vec::new();
    block.extend_from_slice(b"frame=3\xFF4\nprogress=end");
    let (rec, ended) = progress_chunk(&block);
    assert!(ended);
    assert_eq!(rec.frame, None);
    assert!(matches!(rec.progress, Some(FFmpegProgressStatus::End)));
}
