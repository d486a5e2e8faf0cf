//! The duplex named channel: a FIFO special file addressed by a path,
//! created by the server side, opened read+write by both peers so that a
//! reader never sees a premature end of stream. The OS calls go through
//! trusted wrappers around `nix`; everything around them is verified.

use vstd::prelude::*;

use rand::distr::Distribution;

use crate::FFmpegError;

verus! {

/// An ASCII letter or digit.
pub open spec fn is_alphanumeric_ascii(c: char) -> bool {
    let u = c as u32;
    (0x30 <= u && u <= 0x39) || (0x41 <= u && u <= 0x5A) || (0x61 <= u && u <= 0x7A)
}

/// Relies on rand's `Alphanumeric` distribution: every sampled byte is
/// one of `A-Z`, `a-z`, `0-9`.
#[verifier::external_body]
fn random_string() -> (r: String)
    ensures
        r@.len() == 10,
        forall|i: int| 0 <= i < r@.len() ==> is_alphanumeric_ascii(#[trigger] r@[i]),
{
    rand::distr::Alphanumeric.sample_iter(rand::rng()).take(10).map(char::from).collect()
}

/// Relies on nix::unistd::unlink: removes the filesystem node at `path`.
#[verifier::external_body]
fn fifo_unlink(path: &str) -> (r: Result<(), i32>) {
    match nix::unistd::unlink(path) {
        Ok(()) => Ok(()),
        Err(e) => Err(e as i32),
    }
}

/// Relies on nix::unistd::mkfifo: creates a FIFO special file at `path`
/// with full permissions.
#[verifier::external_body]
fn fifo_mkfifo(path: &str) -> (r: Result<(), i32>) {
    match nix::unistd::mkfifo(path, nix::sys::stat::Mode::all()) {
        Ok(()) => Ok(()),
        Err(e) => Err(e as i32),
    }
}

/// Relies on nix::fcntl::open: opens the node at `path` for reading and
/// writing; a returned descriptor is non-negative.
#[verifier::external_body]
fn fifo_open_rdwr(path: &str) -> (r: Result<i32, i32>)
    ensures
        r matches Ok(fd) ==> fd >= 0,
{
    match nix::fcntl::open(path, nix::fcntl::OFlag::O_RDWR, nix::sys::stat::Mode::empty()) {
        Ok(fd) => Ok(fd),
        Err(e) => Err(e as i32),
    }
}

/// Relies on nix::unistd::read: stores the bytes that arrived into a
/// prefix of `buf` and returns how many; the buffer keeps its length.
/// Zero bytes on a FIFO mean the writing peer is gone.
#[verifier::external_body]
fn fd_read(fd: i32, buf: &mut Vec<u8>) -> (r: Result<usize, i32>)
    ensures
        final(buf)@.len() == old(buf)@.len(),
        r matches Ok(n) ==> n <= old(buf)@.len(),
{
    match nix::unistd::read(fd, buf.as_mut_slice()) {
        Ok(n) => Ok(n),
        Err(e) => Err(e as i32),
    }
}

/// Relies on nix::unistd::write: hands a prefix of `buf` to the peer and
/// returns that prefix's length.
#[verifier::external_body]
fn fd_write(fd: i32, buf: &[u8]) -> (r: Result<usize, i32>)
    ensures
        r matches Ok(n) ==> n <= buf@.len(),
{
    match nix::unistd::write(fd, buf) {
        Ok(n) => Ok(n),
        Err(e) => Err(e as i32),
    }
}

/// Relies on nix::unistd::close.
#[verifier::external_body]
fn fd_close(fd: i32) -> (r: Result<(), i32>) {
    match nix::unistd::close(fd) {
        Ok(()) => Ok(()),
        Err(e) => Err(e as i32),
    }
}

/// A path freshly drawn inside `dir`: its final component is ten
/// alphanumeric characters.
pub open spec fn is_fresh_temp_path(path: Seq<char>, dir: Seq<char>) -> bool {
    exists|name: Seq<char>|
        #![trigger dir + "/"@ + name]
        {
            &&& name.len() == 10
            &&& (forall|i: int| 0 <= i < name.len() ==> is_alphanumeric_ascii(#[trigger] name[i]))
            &&& path == dir + "/"@ + name
        }
}

/// A randomly named path for a temporary file inside `dir`, with the
/// collision probability treated as negligible.
pub fn random_temp_file(dir: &str) -> (r: String)
    ensures
        is_fresh_temp_path(r@, dir@),
{
    let name = random_string();
    let mut p = String::from_str(dir);
    p.append("/");
    p.append(name.as_str());
    proof {
        assert(p@ == dir@ + "/"@ + name@);
    }
    p
}

/// The path a named channel gets from a directory and a name.
pub open spec fn pipe_path_of(dir: Seq<char>, name: Seq<char>) -> Seq<char> {
    dir + "/"@ + name + ".pipe"@
}

/// A channel path freshly drawn inside `dir`: its name part is ten
/// alphanumeric characters.
pub open spec fn is_fresh_pipe_path(path: Seq<char>, dir: Seq<char>) -> bool {
    exists|name: Seq<char>|
        #![trigger pipe_path_of(dir, name)]
        {
            &&& name.len() == 10
            &&& (forall|i: int| 0 <= i < name.len() ==> is_alphanumeric_ascii(#[trigger] name[i]))
            &&& path == pipe_path_of(dir, name)
        }
}

/// One end of an open byte stream over a named channel.
pub struct PipeStream {
    fd: i32,
}

impl PipeStream {
    /// The stream holds a well-formed descriptor.
    pub closed spec fn wf(&self) -> bool {
        self.fd >= 0
    }

    /// Read whatever bytes are available into a prefix of `buf`; the
    /// count says how long that prefix is. Zero with a non-empty buffer
    /// means the writing peer closed: a clean end of stream, not an error.
    pub fn read(&mut self, buf: &mut Vec<u8>) -> (r: Result<usize, FFmpegError>)
        requires
            old(self).wf(),
        ensures
            *final(self) == *old(self),
            final(buf)@.len() == old(buf)@.len(),
            r matches Ok(n) ==> n <= old(buf)@.len(),
            r matches Err(e) ==> e is IoError,
    {
        match fd_read(self.fd, buf) {
            Ok(n) => Ok(n),
            Err(e) => Err(FFmpegError::IoError(e)),
        }
    }

    /// Write a prefix of `buf` to the peer; the count says how long a
    /// prefix was taken.
    pub fn write(&mut self, buf: &[u8]) -> (r: Result<usize, FFmpegError>)
        requires
            old(self).wf(),
        ensures
            *final(self) == *old(self),
            r matches Ok(n) ==> n <= buf@.len(),
            r matches Err(e) ==> e is IoError,
    {
        match fd_write(self.fd, buf) {
            Ok(n) => Ok(n),
            Err(e) => Err(FFmpegError::IoError(e)),
        }
    }

    /// Write all of `buf`, retrying on partial writes. A write that takes
    /// nothing ends the attempt with an error, as a stalled peer would
    /// otherwise spin this loop forever.
    pub fn write_all(&mut self, buf: &[u8]) -> (r: Result<(), FFmpegError>)
        requires
            old(self).wf(),
        ensures
            *final(self) == *old(self),
            r matches Err(e) ==> e is IoError,
    {
        let total: usize = buf.len();
        let mut offset: usize = 0;
        while offset < total
            invariant
                0 <= offset <= total,
                total == buf@.len(),
                self.wf(),
                self == old(self),
            decreases total - offset,
        {
            let rest = buf.split_at(offset).1;
            match fd_write(self.fd, rest) {
                Ok(n) => {
                    if n == 0 {
                        return Err(FFmpegError::IoError(0));
                    }
                    offset = offset + n;
                },
                Err(e) => {
                    return Err(FFmpegError::IoError(e));
                },
            }
        }
        Ok(())
    }

    /// Release the descriptor. The stream is consumed: no further read or
    /// write can happen on it.
    pub fn close(self) -> (r: Result<(), FFmpegError>)
        ensures
            r matches Err(e) ==> e is IoError,
    {
        match fd_close(self.fd) {
            Ok(()) => Ok(()),
            Err(e) => Err(FFmpegError::IoError(e)),
        }
    }
}

/// A named duplex channel: create it, hand its path to the external
/// process, and listen exactly once.
pub trait Piped: Sized + View<V = Seq<char>> {
    /// Create a channel under a fresh random name inside `dir`.
    fn create_pipe(dir: &str) -> (r: Result<Self, FFmpegError>)
        ensures
            r matches Ok(p) ==> is_fresh_pipe_path(p@, dir@),
            r matches Err(e) ==> e is IoError,
    ;

    /// Create a channel at `<dir>/<name>.pipe`.
    fn create_pipe_with_name(dir: &str, name: &str) -> (r: Result<Self, FFmpegError>)
        ensures
            r matches Ok(p) ==> p@ == pipe_path_of(dir@, name@),
            r matches Err(e) ==> e is IoError,
    ;

    /// Create a channel at exactly `path`, clearing a stale node first.
    fn create_pipe_with_path(path: String) -> (r: Result<Self, FFmpegError>)
        ensures
            r matches Ok(p) ==> p@ == path@,
            r matches Err(e) ==> e is IoError,
    ;

    /// Open the client side of the channel named `<dir>/<name>.pipe`.
    fn connect_pipe_with_name(dir: &str, name: &str) -> (r: Result<PipeStream, FFmpegError>)
        ensures
            r matches Ok(s) ==> s.wf(),
            r matches Err(e) ==> e is IoError,
    ;

    /// Open the client side of the channel at `path`.
    fn connect_pipe_with_path(path: &str) -> (r: Result<PipeStream, FFmpegError>)
        ensures
            r matches Ok(s) ==> s.wf(),
            r matches Err(e) ==> e is IoError,
    ;

    /// Open the server side. The channel value is consumed: there is
    /// exactly one listen per channel.
    fn listen(self) -> (r: Result<PipeStream, FFmpegError>)
        ensures
            r matches Ok(s) ==> s.wf(),
            r matches Err(e) ==> e is IoError,
    ;
}

/// A duplex named channel backed by a FIFO special file.
pub struct Pipe {
    path: String,
}

impl View for Pipe {
    type V = Seq<char>;

    closed spec fn view(&self) -> Seq<char> {
        self.path@
    }
}

impl Pipe {
    /// The addressable path, usable as a CLI argument value.
    pub fn path(&self) -> (r: &str)
        ensures
            r@ == self@,
    {
        self.path.as_str()
    }
}

impl Piped for Pipe {
    fn create_pipe(dir: &str) -> (r: Result<Self, FFmpegError>) {
        let name = random_string();
        let r = Self::create_pipe_with_name(dir, name.as_str());
        proof {
            if r is Ok {
                assert(r->Ok_0@ == pipe_path_of(dir@, name@));
            }
        }
        r
    }

    fn create_pipe_with_name(dir: &str, name: &str) -> (r: Result<Self, FFmpegError>) {
        let mut path = String::from_str(dir);
        path.append("/");
        path.append(name);
        path.append(".pipe");
        proof {
            assert(path@ == pipe_path_of(dir@, name@));
        }
        Self::create_pipe_with_path(path)
    }

    fn create_pipe_with_path(path: String) -> (r: Result<Self, FFmpegError>) {
        let _ = fifo_unlink(path.as_str());
        match fifo_mkfifo(path.as_str()) {
            Ok(()) => Ok(Pipe { path }),
            Err(e) => Err(FFmpegError::IoError(e)),
        }
    }

    fn connect_pipe_with_name(dir: &str, name: &str) -> (r: Result<PipeStream, FFmpegError>) {
        let mut path = String::from_str(dir);
        path.append("/");
        path.append(name);
        path.append(".pipe");
        Self::connect_pipe_with_path(path.as_str())
    }

    fn connect_pipe_with_path(path: &str) -> (r: Result<PipeStream, FFmpegError>) {
        match fifo_open_rdwr(path) {
            Ok(fd) => Ok(PipeStream { fd }),
            Err(e) => Err(FFmpegError::IoError(e)),
        }
    }

    fn listen(self) -> (r: Result<PipeStream, FFmpegError>) {
        match fifo_open_rdwr(self.path.as_str()) {
            Ok(fd) => Ok(PipeStream { fd }),
            Err(e) => Err(FFmpegError::IoError(e)),
        }
    }
}

} // verus!
