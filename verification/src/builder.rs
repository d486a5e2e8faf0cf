//! The command builder: an ordered argument list plus a movable insertion
//! cursor. Declaring an input or output opens a description (the `IO`
//! mode), in which modifier tokens land at the cursor, in front of the
//! stream token they describe; finishing the description is the only way
//! back to `Normal` mode. The argument order is exactly what the spawned
//! process receives.

use vstd::prelude::*;

use core::marker::PhantomData;

use crate::FFmpegError;
use crate::pipe::Pipe;
use crate::pipe::Piped;
use crate::pipe::is_fresh_pipe_path;

verus! {

/// How one standard stream of the external process is wired.
#[derive(Debug, Clone, Copy, PartialEq, Eq, Structural)]
pub enum StdioKind {
    /// A pipe held by the process handle.
    Piped,
    /// The stream of the calling process.
    Inherit,
    /// Discarded.
    Null,
}

/// Marker for the builder's two modes.
pub trait Mode {}

/// Between descriptions: whole-process options and fresh declarations.
pub struct Normal;

impl Mode for Normal {}

/// Inside an input/output description: modifiers and `done`.
pub struct IO;

impl Mode for IO {}

/// The character sequences of a list of strings.
pub open spec fn strs_view(s: Seq<String>) -> Seq<Seq<char>> {
    Seq::new(s.len(), |i: int| s[i]@)
}

/// Mathematical model of a builder: the program, the ordered argument
/// list, the insertion cursor, and the stream wiring.
pub ghost struct BuilderModel {
    pub program: Seq<char>,
    pub temp_dir: Seq<char>,
    pub args: Seq<Seq<char>>,
    pub cursor: Option<int>,
    pub stdin: StdioKind,
    pub stdout: StdioKind,
    pub stderr: StdioKind,
}

/// Where the next modifier lands: the cursor, or the end of the list
/// when no cursor is set.
pub open spec fn cur_at(m: BuilderModel) -> int {
    match m.cursor {
        Some(i) => i,
        None => m.args.len() as int,
    }
}

/// The argument list with `xs` inserted contiguously at position `at`.
pub open spec fn insert_tokens(args: Seq<Seq<char>>, at: int, xs: Seq<Seq<char>>) -> Seq<
    Seq<char>,
> {
    args.subrange(0, at) + xs + args.subrange(at, args.len() as int)
}

/// The cursor stepped past `k` freshly inserted tokens, when it is set.
pub open spec fn cursor_after(c: Option<int>, k: int) -> Option<int> {
    match c {
        Some(i) => Some(i + k),
        None => None,
    }
}

/// A modifier call made inside a description.
pub ghost enum ModOp {
    /// `format`: reinserts `-f <fmt>` at the cursor without advancing it,
    /// so the latest call wins positionally while all calls stay in the
    /// list.
    Format(Seq<char>),
    /// A raw argument: one token at the cursor, cursor advances past it.
    Arg(Seq<char>),
    /// `codec_audio`: `-c:a <codec>` at the cursor, cursor advances.
    CodecAudio(Seq<char>),
    /// `codec_video`: `-c:v <codec>` at the cursor, cursor advances.
    CodecVideo(Seq<char>),
}

/// Effect of one modifier call on the builder.
pub open spec fn apply_mod(m: BuilderModel, op: ModOp) -> BuilderModel {
    let at = cur_at(m);
    match op {
        ModOp::Format(f) => BuilderModel {
            args: insert_tokens(m.args, at, seq!["-f"@, f]),
            cursor: m.cursor,
            ..m
        },
        ModOp::Arg(a) => BuilderModel {
            args: insert_tokens(m.args, at, seq![a]),
            cursor: cursor_after(m.cursor, 1),
            ..m
        },
        ModOp::CodecAudio(c) => BuilderModel {
            args: insert_tokens(m.args, at, seq!["-c:a"@, c]),
            cursor: cursor_after(m.cursor, 2),
            ..m
        },
        ModOp::CodecVideo(c) => BuilderModel {
            args: insert_tokens(m.args, at, seq!["-c:v"@, c]),
            cursor: cursor_after(m.cursor, 2),
            ..m
        },
    }
}

/// A sequence of modifier calls applied in order.
pub open spec fn apply_mods(m: BuilderModel, ops: Seq<ModOp>) -> BuilderModel
    decreases ops.len(),
{
    if ops.len() == 0 {
        m
    } else {
        apply_mods(apply_mod(m, ops.first()), ops.drop_first())
    }
}

/// Raw-argument calls for a list of values, in order.
pub open spec fn arg_ops(vs: Seq<String>) -> Seq<ModOp> {
    Seq::new(vs.len(), |i: int| ModOp::Arg(vs[i]@))
}

proof fn lemma_apply_mods_snoc(m: BuilderModel, ops: Seq<ModOp>, op: ModOp)
    ensures
        apply_mods(m, ops.push(op)) == apply_mod(apply_mods(m, ops), op),
    decreases ops.len(),
{
    if ops.len() == 0 {
        let single = ops.push(op);
        assert(single.first() == op);
        assert(single.drop_first() =~= Seq::<ModOp>::empty());
        assert(apply_mods(m, single) == apply_mods(apply_mod(m, op), single.drop_first()));
        assert(apply_mods(apply_mod(m, op), Seq::<ModOp>::empty()) == apply_mod(m, op));
        assert(apply_mods(m, ops) == m);
    } else {
        let m1 = apply_mod(m, ops.first());
        assert(ops.push(op).first() == ops.first());
        assert(apply_mods(m, ops.push(op)) == apply_mods(m1, ops.push(op).drop_first()));
        assert(ops.push(op).drop_first() =~= ops.drop_first().push(op));
        lemma_apply_mods_snoc(m1, ops.drop_first(), op);
        assert(apply_mods(m, ops) == apply_mods(m1, ops.drop_first()));
    }
}

/// The staged command builder. `M` is `Normal` between descriptions and
/// `IO` inside one.
pub struct FFmpegBuilder<M: Mode> {
    program: String,
    temp_dir: String,
    inner_args: Vec<String>,
    inserting_offset: Option<usize>,
    stdin_cfg: StdioKind,
    stdout_cfg: StdioKind,
    stderr_cfg: StdioKind,
    marker: PhantomData<M>,
}

impl<M: Mode> View for FFmpegBuilder<M> {
    type V = BuilderModel;

    closed spec fn view(&self) -> BuilderModel {
        BuilderModel {
            program: self.program@,
            temp_dir: self.temp_dir@,
            args: strs_view(self.inner_args@),
            cursor: match self.inserting_offset {
                Some(i) => Some(i as int),
                None => None,
            },
            stdin: self.stdin_cfg,
            stdout: self.stdout_cfg,
            stderr: self.stderr_cfg,
        }
    }
}

impl<M: Mode> FFmpegBuilder<M> {
    /// The cursor, when set, points into the argument list.
    pub open spec fn wf(&self) -> bool {
        match self@.cursor {
            Some(i) => 0 <= i <= self@.args.len(),
            None => true,
        }
    }

    /// The program the process will run.
    pub fn program(&self) -> (r: &str)
        ensures
            r@ == self@.program,
    {
        self.program.as_str()
    }

    /// The directory where fresh channels and temporary files live.
    pub fn temp_dir(&self) -> (r: &str)
        ensures
            r@ == self@.temp_dir,
    {
        self.temp_dir.as_str()
    }

    /// How the three standard streams are wired, in order in, out, err.
    pub fn stdio(&self) -> (r: (StdioKind, StdioKind, StdioKind))
        ensures
            r.0 == self@.stdin,
            r.1 == self@.stdout,
            r.2 == self@.stderr,
    {
        (self.stdin_cfg, self.stdout_cfg, self.stderr_cfg)
    }

    /// Observe the fully assembled argument vector without changing it.
    pub fn inspect_args(&self) -> (r: &Vec<String>)
        ensures
            strs_view(r@) == self@.args,
    {
        &self.inner_args
    }

    fn into<B: Mode>(self) -> (r: FFmpegBuilder<B>)
        ensures
            r@ == self@,
    {
        FFmpegBuilder {
            program: self.program,
            temp_dir: self.temp_dir,
            inner_args: self.inner_args,
            inserting_offset: self.inserting_offset,
            stdin_cfg: self.stdin_cfg,
            stdout_cfg: self.stdout_cfg,
            stderr_cfg: self.stderr_cfg,
            marker: PhantomData,
        }
    }
}

impl FFmpegBuilder<Normal> {
    /// A fresh builder for `program`: no arguments yet, the cursor at the
    /// start, and all three standard streams piped.
    pub fn new(program: String, temp_dir: String) -> (r: Self)
        ensures
            r@ == (BuilderModel {
                program: program@,
                temp_dir: temp_dir@,
                args: Seq::<Seq<char>>::empty(),
                cursor: Some(0int),
                stdin: StdioKind::Piped,
                stdout: StdioKind::Piped,
                stderr: StdioKind::Piped,
            }),
            r.wf(),
    {
        let r = FFmpegBuilder {
            program,
            temp_dir,
            inner_args: Vec::new(),
            inserting_offset: Some(0),
            stdin_cfg: StdioKind::Piped,
            stdout_cfg: StdioKind::Piped,
            stderr_cfg: StdioKind::Piped,
            marker: PhantomData,
        };
        proof {
            assert(strs_view(r.inner_args@) =~= Seq::<Seq<char>>::empty());
        }
        r
    }

    /// Wire the process's standard input.
    pub fn stdin(self, cfg: StdioKind) -> (r: Self)
        ensures
            r@ == (BuilderModel { stdin: cfg, ..self@ }),
            self.wf() ==> r.wf(),
    {
        let mut b = self;
        b.stdin_cfg = cfg;
        b
    }

    /// Wire the process's standard output.
    pub fn stdout(self, cfg: StdioKind) -> (r: Self)
        ensures
            r@ == (BuilderModel { stdout: cfg, ..self@ }),
            self.wf() ==> r.wf(),
    {
        let mut b = self;
        b.stdout_cfg = cfg;
        b
    }

    /// Wire the process's standard error.
    pub fn stderr(self, cfg: StdioKind) -> (r: Self)
        ensures
            r@ == (BuilderModel { stderr: cfg, ..self@ }),
            self.wf() ==> r.wf(),
    {
        let mut b = self;
        b.stderr_cfg = cfg;
        b
    }

    /// Append one whole-process argument at the end of the list. The
    /// caller answers for its position.
    pub fn arg(self, value: String) -> (r: Self)
        ensures
            r@ == (BuilderModel { args: self@.args.push(value@), ..self@ }),
            self.wf() ==> r.wf(),
    {
        let ghost m = self@;
        let mut b = self;
        b.inner_args.push(value);
        proof {
            assert(strs_view(b.inner_args@) =~= m.args.push(value@));
        }
        b
    }

    /// Append whole-process arguments in order at the end of the list.
    pub fn args(self, values: Vec<String>) -> (r: Self)
        ensures
            r@ == (BuilderModel { args: self@.args + strs_view(values@), ..self@ }),
            self.wf() ==> r.wf(),
    {
        let ghost m = self@;
        let mut b = self;
        let mut k: usize = 0;
        proof {
            assert(m.args + strs_view(values@.subrange(0, 0)) =~= m.args);
        }
        while k < values.len()
            invariant
                0 <= k <= values@.len(),
                b@ == (BuilderModel { args: m.args + strs_view(values@.subrange(0, k as int)), ..m
                }),
            decreases values@.len() - k,
        {
            let ghost prev = b@;
            b = b.arg(values[k].clone());
            proof {
                assert(values@[k as int]@ == strs_view(values@)[k as int]);
                assert(prev.args.push(values@[k as int]@) =~= m.args + strs_view(
                    values@.subrange(0, k + 1),
                ));
            }
            k = k + 1;
        }
        proof {
            assert(values@.subrange(0, values@.len() as int) =~= values@);
            assert(strs_view(values@.subrange(0, values@.len() as int)) =~= strs_view(values@));
        }
        b
    }

    /// Declare an input read from `path`: appends `-i <path>` and opens a
    /// description with the cursor in front of the `-i` token.
    pub fn input_with_file(self, path: String) -> (r: FFmpegBuilder<IO>)
        ensures
            r@ == (BuilderModel {
                args: self@.args + seq!["-i"@, path@],
                cursor: Some(self@.args.len() as int),
                ..self@
            }),
            r.wf(),
    {
        let ghost m = self@;
        let mut b = self;
        b.inserting_offset = Some(b.inner_args.len());
        b.inner_args.push(String::from_str("-i"));
        b.inner_args.push(path);
        proof {
            assert(strs_view(b.inner_args@) =~= m.args + seq!["-i"@, path@]);
        }
        b.into()
    }

    /// Declare an output written to `path`: appends `-y <path>` and opens
    /// a description with the cursor in front of the `-y` token.
    pub fn output_as_file(self, path: String) -> (r: FFmpegBuilder<IO>)
        ensures
            r@ == (BuilderModel {
                args: self@.args + seq!["-y"@, path@],
                cursor: Some(self@.args.len() as int),
                ..self@
            }),
            r.wf(),
    {
        let ghost m = self@;
        let mut b = self;
        b.inserting_offset = Some(b.inner_args.len());
        b.inner_args.push(String::from_str("-y"));
        b.inner_args.push(path);
        proof {
            assert(strs_view(b.inner_args@) =~= m.args + seq!["-y"@, path@]);
        }
        b.into()
    }

    /// Declare an input fed through a fresh named channel: hands the
    /// channel back through `pipe` and appends `-i <its path>`.
    pub fn input_with_pipe(self, pipe: &mut Option<Pipe>) -> (r: Result<
        FFmpegBuilder<IO>,
        FFmpegError,
    >)
        ensures
            r matches Ok(b) ==> ((*final(pipe)) matches Some(p) && is_fresh_pipe_path(
                p@,
                self@.temp_dir,
            ) && b@ == (BuilderModel {
                args: self@.args + seq!["-i"@, p@],
                cursor: Some(self@.args.len() as int),
                ..self@
            }) && b.wf()),
            r is Err ==> *final(pipe) == *old(pipe),
            r matches Err(e) ==> e is IoError,
    {
        let created = Pipe::create_pipe(self.temp_dir.as_str());
        match created {
            Err(e) => Err(e),
            Ok(p) => {
                let ghost m = self@;
                let mut b = self;
                let path = String::from_str(p.path());
                let ghost pv = p@;
                b.inserting_offset = Some(b.inner_args.len());
                b.inner_args.push(String::from_str("-i"));
                b.inner_args.push(path);
                *pipe = Some(p);
                proof {
                    assert(strs_view(b.inner_args@) =~= m.args + seq!["-i"@, pv]);
                }
                Ok(b.into())
            },
        }
    }

    /// Declare an output drained through a fresh named channel: hands the
    /// channel back through `pipe` and appends `-y <its path>`.
    pub fn output_with_pipe(self, pipe: &mut Option<Pipe>) -> (r: Result<
        FFmpegBuilder<IO>,
        FFmpegError,
    >)
        ensures
            r matches Ok(b) ==> ((*final(pipe)) matches Some(p) && is_fresh_pipe_path(
                p@,
                self@.temp_dir,
            ) && b@ == (BuilderModel {
                args: self@.args + seq!["-y"@, p@],
                cursor: Some(self@.args.len() as int),
                ..self@
            }) && b.wf()),
            r is Err ==> *final(pipe) == *old(pipe),
            r matches Err(e) ==> e is IoError,
    {
        let created = Pipe::create_pipe(self.temp_dir.as_str());
        match created {
            Err(e) => Err(e),
            Ok(p) => {
                let ghost m = self@;
                let mut b = self;
                let path = String::from_str(p.path());
                let ghost pv = p@;
                b.inserting_offset = Some(b.inner_args.len());
                b.inner_args.push(String::from_str("-y"));
                b.inner_args.push(path);
                *pipe = Some(p);
                proof {
                    assert(strs_view(b.inner_args@) =~= m.args + seq!["-y"@, pv]);
                }
                Ok(b.into())
            },
        }
    }

    /// Allocate the progress side channel: a fresh pipe inside the
    /// builder's temporary directory, with `-progress <its path>`
    /// appended at the end of the argument list. The caller listens on
    /// the returned channel.
    pub fn progress_channel(self) -> (r: Result<(FFmpegBuilder<Normal>, Pipe), FFmpegError>)
        ensures
            r matches Ok(bp) ==> (is_fresh_pipe_path(bp.1@, self@.temp_dir) && bp.0@ == (
            BuilderModel { args: self@.args + seq!["-progress"@, bp.1@], ..self@ }) && (self.wf()
                ==> bp.0.wf())),
            r matches Err(e) ==> e is IoError,
    {
        let created = Pipe::create_pipe(self.temp_dir.as_str());
        match created {
            Err(e) => Err(e),
            Ok(p) => {
                let ghost m = self@;
                let mut b = self;
                let path = String::from_str(p.path());
                b.inner_args.push(String::from_str("-progress"));
                b.inner_args.push(path);
                proof {
                    assert(strs_view(b.inner_args@) =~= m.args + seq!["-progress"@, p@]);
                }
                Ok((b, p))
            },
        }
    }
}

impl FFmpegBuilder<IO> {
    /// Insert one modifier token at the cursor and advance past it. The
    /// caller answers for its position among the modifiers.
    pub fn arg(self, value: String) -> (r: Self)
        requires
            self.wf(),
        ensures
            r@ == apply_mod(self@, ModOp::Arg(value@)),
            r.wf(),
    {
        let ghost m = self@;
        let mut b = self;
        let at: usize = match b.inserting_offset {
            Some(i) => i,
            None => b.inner_args.len(),
        };
        b.inner_args.insert(at, value);
        let new_len = b.inner_args.len();
        proof {
            assert(new_len == m.args.len() + 1);
        }
        b.inserting_offset = match b.inserting_offset {
            Some(i) => Some(i + 1),
            None => None,
        };
        proof {
            assert(strs_view(b.inner_args@) =~= insert_tokens(m.args, cur_at(m), seq![value@]));
        }
        b
    }

    /// Insert modifier tokens at the cursor, in order, advancing past
    /// each.
    pub fn args(self, values: Vec<String>) -> (r: Self)
        requires
            self.wf(),
        ensures
            r@ == apply_mods(self@, arg_ops(values@)),
            r.wf(),
    {
        let ghost m = self@;
        let mut b = self;
        let mut k: usize = 0;
        while k < values.len()
            invariant
                0 <= k <= values@.len(),
                b@ == apply_mods(m, arg_ops(values@.subrange(0, k as int))),
                b.wf(),
            decreases values@.len() - k,
        {
            let ghost prev_ops = arg_ops(values@.subrange(0, k as int));
            b = b.arg(values[k].clone());
            proof {
                lemma_apply_mods_snoc(m, prev_ops, ModOp::Arg(values@[k as int]@));
                assert(arg_ops(values@.subrange(0, k + 1)) =~= prev_ops.push(
                    ModOp::Arg(values@[k as int]@),
                ));
            }
            k = k + 1;
        }
        proof {
            assert(values@.subrange(0, values@.len() as int) =~= values@);
            assert(arg_ops(values@.subrange(0, values@.len() as int)) =~= arg_ops(values@));
        }
        b
    }

    /// Set the stream's format: reinserts `-f <fmt>` at the cursor, so
    /// the latest call wins positionally while every call stays in the
    /// list.
    pub fn format(self, format: &str) -> (r: Self)
        requires
            self.wf(),
        ensures
            r@ == apply_mod(self@, ModOp::Format(format@)),
            r.wf(),
    {
        let ghost m = self@;
        let mut b = self;
        let at: usize = match b.inserting_offset {
            Some(i) => i,
            None => b.inner_args.len(),
        };
        b.inner_args.insert(at, String::from_str("-f"));
        let len1 = b.inner_args.len();
        proof {
            assert(at + 1 <= len1);
        }
        b.inner_args.insert(at + 1, String::from_str(format));
        proof {
            assert(strs_view(b.inner_args@) =~= insert_tokens(m.args, cur_at(m), seq![
                "-f"@,
                format@,
            ]));
        }
        b
    }

    /// Set the stream's audio codec: `-c:a <codec>` at the cursor.
    pub fn codec_audio(self, codec: &str) -> (r: Self)
        requires
            self.wf(),
        ensures
            r@ == apply_mod(self@, ModOp::CodecAudio(codec@)),
            r.wf(),
    {
        let ghost m = self@;
        let b = self.arg(String::from_str("-c:a"));
        let r = b.arg(String::from_str(codec));
        proof {
            lemma_mod_pair(m, "-c:a"@, codec@);
            assert(r@ == apply_mod(m, ModOp::CodecAudio(codec@)));
        }
        r
    }

    /// Set the stream's video codec: `-c:v <codec>` at the cursor.
    pub fn codec_video(self, codec: &str) -> (r: Self)
        requires
            self.wf(),
        ensures
            r@ == apply_mod(self@, ModOp::CodecVideo(codec@)),
            r.wf(),
    {
        let ghost m = self@;
        let b = self.arg(String::from_str("-c:v"));
        let r = b.arg(String::from_str(codec));
        proof {
            lemma_mod_pair(m, "-c:v"@, codec@);
            assert(r@ == apply_mod(m, ModOp::CodecVideo(codec@)));
        }
        r
    }

    /// Finish the description: clears the cursor, so stray modifiers can
    /// no longer attach to this stream. The only way back to `Normal`.
    pub fn done(self) -> (r: FFmpegBuilder<Normal>)
        ensures
            r@ == (BuilderModel { cursor: None, ..self@ }),
            r.wf(),
    {
        let mut b = self;
        b.inserting_offset = None;
        b.into()
    }
}

/// The tokens of the non-format modifiers, contiguous and in call order.
pub open spec fn plain_tokens(ops: Seq<ModOp>) -> Seq<Seq<char>>
    decreases ops.len(),
{
    if ops.len() == 0 {
        Seq::<Seq<char>>::empty()
    } else {
        let head = match ops.first() {
            ModOp::Format(_f) => Seq::<Seq<char>>::empty(),
            ModOp::Arg(a) => seq![a],
            ModOp::CodecAudio(c) => seq!["-c:a"@, c],
            ModOp::CodecVideo(c) => seq!["-c:v"@, c],
        };
        head + plain_tokens(ops.drop_first())
    }
}

/// The tokens of the format calls, latest call first.
pub open spec fn format_tokens_rev(ops: Seq<ModOp>) -> Seq<Seq<char>>
    decreases ops.len(),
{
    if ops.len() == 0 {
        Seq::<Seq<char>>::empty()
    } else {
        let rest = format_tokens_rev(ops.drop_first());
        match ops.first() {
            ModOp::Format(f) => rest + seq!["-f"@, f],
            _ => rest,
        }
    }
}

proof fn lemma_placement_general(
    m: BuilderModel,
    pre: Seq<Seq<char>>,
    fmts: Seq<Seq<char>>,
    stream: Seq<Seq<char>>,
    ops: Seq<ModOp>,
)
    requires
        m.args == pre + fmts + stream,
        m.cursor == Some(pre.len() as int),
    ensures
        apply_mods(m, ops) == (BuilderModel {
            args: pre + plain_tokens(ops) + format_tokens_rev(ops) + fmts + stream,
            cursor: Some((pre.len() + plain_tokens(ops).len()) as int),
            ..m
        }),
    decreases ops.len(),
{
    let at = pre.len() as int;
    let n = m.args.len() as int;
    if ops.len() == 0 {
        assert(pre + plain_tokens(ops) + format_tokens_rev(ops) + fmts + stream =~= m.args);
    } else {
        let op = ops.first();
        let rest = ops.drop_first();
        let m1 = apply_mod(m, op);
        assert(cur_at(m) == at);
        assert(m.args.subrange(0, at) =~= pre);
        assert(m.args.subrange(at, n) =~= fmts + stream);
        assert(apply_mods(m, ops) == apply_mods(m1, rest));
        match op {
            ModOp::Arg(a) => {
                let pre1 = pre + seq![a];
                assert(m1.args =~= pre1 + fmts + stream);
                assert(m1.cursor == Some(pre1.len() as int));
                lemma_placement_general(m1, pre1, fmts, stream, rest);
                assert(plain_tokens(ops) =~= seq![a] + plain_tokens(rest));
                assert(format_tokens_rev(ops) == format_tokens_rev(rest));
                assert(pre1 + plain_tokens(rest) + format_tokens_rev(rest) + fmts + stream =~= pre
                    + plain_tokens(ops) + format_tokens_rev(ops) + fmts + stream);
            },
            ModOp::CodecAudio(c) => {
                let pre1 = pre + seq!["-c:a"@, c];
                assert(m1.args =~= pre1 + fmts + stream);
                assert(m1.cursor == Some(pre1.len() as int));
                lemma_placement_general(m1, pre1, fmts, stream, rest);
                assert(plain_tokens(ops) =~= seq!["-c:a"@, c] + plain_tokens(rest));
                assert(format_tokens_rev(ops) == format_tokens_rev(rest));
                assert(pre1 + plain_tokens(rest) + format_tokens_rev(rest) + fmts + stream =~= pre
                    + plain_tokens(ops) + format_tokens_rev(ops) + fmts + stream);
            },
            ModOp::CodecVideo(c) => {
                let pre1 = pre + seq!["-c:v"@, c];
                assert(m1.args =~= pre1 + fmts + stream);
                assert(m1.cursor == Some(pre1.len() as int));
                lemma_placement_general(m1, pre1, fmts, stream, rest);
                assert(plain_tokens(ops) =~= seq!["-c:v"@, c] + plain_tokens(rest));
                assert(format_tokens_rev(ops) == format_tokens_rev(rest));
                assert(pre1 + plain_tokens(rest) + format_tokens_rev(rest) + fmts + stream =~= pre
                    + plain_tokens(ops) + format_tokens_rev(ops) + fmts + stream);
            },
            ModOp::Format(f) => {
                let fmts1 = seq!["-f"@, f] + fmts;
                assert(m1.args =~= pre + fmts1 + stream);
                assert(m1.cursor == Some(pre.len() as int));
                lemma_placement_general(m1, pre, fmts1, stream, rest);
                assert(plain_tokens(ops) == plain_tokens(rest));
                assert(format_tokens_rev(ops) =~= format_tokens_rev(rest) + seq!["-f"@, f]);
                assert(pre + plain_tokens(rest) + format_tokens_rev(rest) + fmts1 + stream =~= pre
                    + plain_tokens(ops) + format_tokens_rev(ops) + fmts + stream);
            },
        }
    }
}

/// The builder's central ordering law. Right after a declaration the
/// argument list is a prefix `pre` followed by the stream tokens, with
/// the cursor at the end of `pre`. Any sequence of modifier calls made
/// before `done` then yields exactly: `pre`, the non-format modifiers'
/// tokens contiguously in call order, the format insertions latest call
/// first, and the stream tokens. No modifier ever lands after the stream
/// tokens, and nothing else in the builder changes.
pub proof fn lemma_modifier_placement(
    m: BuilderModel,
    pre: Seq<Seq<char>>,
    stream: Seq<Seq<char>>,
    ops: Seq<ModOp>,
)
    requires
        m.args == pre + stream,
        m.cursor == Some(pre.len() as int),
    ensures
        apply_mods(m, ops) == (BuilderModel {
            args: pre + plain_tokens(ops) + format_tokens_rev(ops) + stream,
            cursor: Some((pre.len() + plain_tokens(ops).len()) as int),
            ..m
        }),
{
    let none = Seq::<Seq<char>>::empty();
    assert(m.args =~= pre + none + stream);
    lemma_placement_general(m, pre, none, stream, ops);
    assert(pre + plain_tokens(ops) + format_tokens_rev(ops) + none + stream =~= pre + plain_tokens(
        ops,
    ) + format_tokens_rev(ops) + stream);
}

/// Two single-token insertions at the cursor are one contiguous
/// two-token insertion.
proof fn lemma_mod_pair(m: BuilderModel, a: Seq<char>, c: Seq<char>)
    requires
        0 <= cur_at(m) <= m.args.len(),
    ensures
        apply_mod(apply_mod(m, ModOp::Arg(a)), ModOp::Arg(c)).args == insert_tokens(
            m.args,
            cur_at(m),
            seq![a, c],
        ),
        apply_mod(apply_mod(m, ModOp::Arg(a)), ModOp::Arg(c)).cursor == cursor_after(m.cursor, 2),
        apply_mod(apply_mod(m, ModOp::Arg(a)), ModOp::Arg(c)) == (BuilderModel {
            args: insert_tokens(m.args, cur_at(m), seq![a, c]),
            cursor: cursor_after(m.cursor, 2),
            ..m
        }),
{
    let m1 = apply_mod(m, ModOp::Arg(a));
    let m2 = apply_mod(m1, ModOp::Arg(c));
    let at = cur_at(m);
    let n = m.args.len() as int;
    assert(cur_at(m1) == at + 1);
    assert(m1.args == m.args.subrange(0, at) + seq![a] + m.args.subrange(at, n));
    assert(m1.args.subrange(0, at + 1) =~= m.args.subrange(0, at).push(a));
    assert(m1.args.subrange(at + 1, m1.args.len() as int) =~= m.args.subrange(at, n));
    assert(m2.args =~= insert_tokens(m.args, at, seq![a, c]));
}

} // verus!
