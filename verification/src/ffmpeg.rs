//! Locating the external binary and the compute steps of its automatic
//! download. The download root, a process-wide mutable location in older
//! designs, is explicit configuration here: the caller sets it once at
//! construction, and every lookup reads that value. Network and
//! filesystem work stays with the caller; this module decides and
//! decompresses.

use vstd::prelude::*;

use std::io::Read;

use crate::FFmpegError;
use crate::builder::FFmpegBuilder;
use crate::builder::BuilderModel;
use crate::builder::Normal;
use crate::builder::StdioKind;

verus! {

/// Stage of an automatic download of the binary, as reported to the
/// caller over a channel.
#[derive(Debug, Clone, Copy)]
pub enum FFmpegDownloadProgress {
    Starting,
    /// The percentage is absent when the server reports no content
    /// length.
    Downloading(Option<usize>),
    Extracting,
    Finished,
}

/// Percentage of a download that is complete, given the byte counts.
///
/// `None` exactly when the total length is unknown; a zero total counts
/// as already complete, and a count beyond the total caps at one
/// hundred.
pub fn download_percent(downloaded: usize, total: Option<usize>) -> (r: Option<usize>)
    ensures
        r is Some <==> total is Some,
        match total {
            Some(t) => {
                &&& t == 0 ==> r == Some(100usize)
                &&& (0 < t && downloaded <= t) ==> (r matches Some(p) && p == downloaded * 100
                    / t as int)
                &&& (0 < t && downloaded > t) ==> r == Some(100usize)
            },
            None => r is None,
        },
{
    match total {
        Some(t) => {
            if t == 0 {
                Some(100)
            } else {
                let big: u128 = (downloaded as u128) * 100;
                let pct: u128 = big / (t as u128);
                proof {
                    if downloaded <= t {
                        assert(downloaded * 100 <= t * 100) by (nonlinear_arith)
                            requires
                                downloaded <= t,
                        ;
                        assert(downloaded * 100 / t as int <= 100) by (nonlinear_arith)
                            requires
                                t >= 1,
                                downloaded * 100 <= t * 100,
                        ;
                    } else {
                        assert(downloaded * 100 >= t * 100 + 100) by (nonlinear_arith)
                            requires
                                downloaded >= t + 1,
                        ;
                        assert(downloaded * 100 / t as int >= 100) by (nonlinear_arith)
                            requires
                                t >= 1,
                                downloaded * 100 >= t * 100 + 100,
                        ;
                    }
                }
                if pct > 100 {
                    Some(100)
                } else {
                    Some(pct as usize)
                }
            }
        },
        None => None,
    }
}

/// What gunzip decompression of a byte sequence yields: the decompressed
/// bytes, or `None` of a sequence that is not a well-formed archive.
pub uninterp spec fn gunzip_of(b: Seq<u8>) -> Option<Seq<u8>>;

/// Relies on flate2's `GzDecoder` reading an in-memory slice to the end:
/// both the decompressed bytes and whether decompression succeeds are
/// functions of the compressed bytes alone.
#[verifier::external_body]
fn gunzip_bytes(gz: &Vec<u8>) -> (r: Result<Vec<u8>, i32>)
    ensures
        r is Ok <==> gunzip_of(gz@) is Some,
        r matches Ok(v) ==> Some(v@) == gunzip_of(gz@),
{
    let mut dec = flate2::read::GzDecoder::new(gz.as_slice());
    let mut out = Vec::new();
    match dec.read_to_end(&mut out) {
        Ok(_) => Ok(out),
        Err(e) => Err(e.raw_os_error().unwrap_or(0)),
    }
}

/// Decompress a downloaded gzip archive into the single binary it
/// holds: exactly the archives gunzip accepts succeed, and on those the
/// result is their decompression.
pub fn extract_binary(gz: &Vec<u8>) -> (r: Result<Vec<u8>, FFmpegError>)
    ensures
        r is Ok <==> gunzip_of(gz@) is Some,
        r matches Ok(b) ==> Some(b@) == gunzip_of(gz@),
        r matches Err(e) ==> e is IoError,
{
    match gunzip_bytes(gz) {
        Ok(v) => Ok(v),
        Err(e) => Err(FFmpegError::IoError(e)),
    }
}

/// The locator for the external binary: where a downloaded copy lives,
/// and which program string to run.
pub struct FFmpeg {
    download_root: String,
}

impl View for FFmpeg {
    type V = Seq<char>;

    closed spec fn view(&self) -> Seq<char> {
        self.download_root@
    }
}

impl FFmpeg {
    /// A locator that installs under `download_root`.
    pub fn new(download_root: String) -> (r: Self)
        ensures
            r@ == download_root@,
    {
        FFmpeg { download_root }
    }

    /// Point the locator at another download directory. Call it before
    /// anything is looked up, or earlier answers describe the old one.
    pub fn override_downloaded_ffmpeg_path(&mut self, path: String)
        ensures
            final(self)@ == path@,
    {
        self.download_root = path;
    }

    /// The folder the downloaded binary lives in.
    pub fn downloaded_ffmpeg_folder(&self) -> (r: String)
        ensures
            r@ == self@ + "/ffmpeg"@,
    {
        let mut p = String::from_str(self.download_root.as_str());
        p.append("/ffmpeg");
        p
    }

    /// The downloaded executable's own path.
    pub fn downloaded_ffmpeg_path(&self) -> (r: String)
        ensures
            r@ == self@ + "/ffmpeg"@ + "/ffmpeg"@,
    {
        let mut p = self.downloaded_ffmpeg_folder();
        p.append("/ffmpeg");
        p
    }

    /// Whether the binary counts as downloaded. The caller probes the
    /// filesystem for `downloaded_ffmpeg_path` and hands the answer in;
    /// a present file does not mean the environment knows the program.
    pub fn is_downloaded(&self, path_exists: bool) -> (r: bool)
        ensures
            r == path_exists,
    {
        path_exists
    }

    /// The program string to run, from what the caller observed: an
    /// `ffmpeg` in the environment wins; otherwise the downloaded
    /// binary; otherwise there is none.
    pub fn get_program(&self, in_env: bool, downloaded: bool) -> (r: Option<String>)
        ensures
            in_env ==> (r matches Some(p) && p@ == "ffmpeg"@),
            !in_env && downloaded ==> (r matches Some(p) && p@ == self@ + "/ffmpeg"@ + "/ffmpeg"@),
            !in_env && !downloaded ==> r is None,
    {
        if in_env {
            Some(String::from_str("ffmpeg"))
        } else if downloaded {
            Some(self.downloaded_ffmpeg_path())
        } else {
            None
        }
    }

    /// A fresh builder for a known program: no arguments yet, all three
    /// standard streams piped, temporary resources under `temp_dir`.
    pub fn new_with_program(program: String, temp_dir: String) -> (r: FFmpegBuilder<Normal>)
        ensures
            r@ == (BuilderModel {
                program: program@,
                temp_dir: temp_dir@,
                args: Seq::<Seq<char>>::empty(),
                cursor: Some(0int),
                stdin: StdioKind::Piped,
                stdout: StdioKind::Piped,
                stderr: StdioKind::Piped,
            }),
            r.wf(),
    {
        FFmpegBuilder::<Normal>::new(program, temp_dir)
    }
}

} // verus!
