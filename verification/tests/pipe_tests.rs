use ffmpeg_cmd::Pipe;
use ffmpeg_cmd::Piped;
use ffmpeg_cmd::pipe::random_temp_file;

#[test]
fn temp_name_shape() {
    let path = random_temp_file("/tmp");
    let name = path.strip_prefix("/tmp/").expect("path inside the directory");
    assert_eq!(name.chars().count(), 10);
    assert!(name.chars().all(|c| c.is_ascii_alphanumeric()));
    let other = random_temp_file("/tmp");
    assert_ne!(path, other);
}

#[test]
fn stale_node_recreated() {
    let path = "/tmp/ffmpeg_cmd_stale_node.pipe";
    let first = Pipe::create_pipe_with_path(path.to_string()).expect("first creation");
    assert_eq!(first.path(), path);
    let second =
        Pipe::create_pipe_with_path(path.to_string()).expect("creation over a stale node");
    assert_eq!(second.path(), path);
}

#[test]
fn byte_round_trip() {
    let name = "ffmpeg_cmd_round_trip";
    let pipe = Pipe::create_pipe_with_name("/tmp", name).expect("creation");
    let mut writer = Pipe::connect_pipe_with_name("/tmp", name).expect("connect");
    let mut reader = pipe.listen().expect("listen");

    let mut payload: Vec<u8> = Vec::new();
    let mut k: u8 = 0;
    while payload.len() < 1000 {
        payload.push(k);
        k = k.wrapping_add(13);
    }
    writer.write_all(&payload).expect("write");

    let mut collected: Vec<u8> = Vec::new();
    let mut buf: Vec<u8> = vec![0u8; 64];
    while collected.len() < payload.len() {
        let n = reader.read(&mut buf).expect("read");
        assert!(n > 0, "premature end of stream");
        collected.extend_from_slice(&buf[..n]);
    }
    assert_eq!(collected, payload);

    writer.close().expect("close writer");
    reader.close().expect("close reader");
}

#[test]
fn path_accessor() {
    let pipe = Pipe::create_pipe_with_name("/tmp", "ffmpeg_cmd_path_acc").expect("creation");
    assert_eq!(pipe.path(), "/tmp/ffmpeg_cmd_path_acc.pipe");
}

#[test]
fn connect_missing_node_fails() {
    let r = Pipe::connect_pipe_with_path("/tmp/ffmpeg_cmd_absent_node.pipe");
    assert!(r.is_err());
}
