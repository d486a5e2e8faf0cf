//! The machine-readable progress stream: `key=value` lines, grouped into
//! records that end with a `progress=continue` or `progress=end` line.
//! Parsing is best-effort: a malformed field is left empty, never an error.

use vstd::prelude::*;

use crate::text::find_char;
use crate::text::find_char_str;
use crate::text::find_sub;
use crate::text::find_sub_str;
use crate::text::is_numeric;
use crate::text::is_numeric_str;
use crate::text::is_wsp;
use crate::text::parse_usize_spec;
use crate::text::parse_usize_str;
use crate::text::str_eq;
use crate::text::trim_spec;
use crate::text::trim_str;

verus! {

/// Whether the record is the last one (`end`) or more follow (`continue`).
#[derive(Debug, Clone, Copy, PartialEq, Eq, Structural)]
pub enum FFmpegProgressStatus {
    Continue,
    End,
}

impl FFmpegProgressStatus {
    /// The status a value names, when it names one.
    pub open spec fn from_str_spec(s: Seq<char>) -> Option<FFmpegProgressStatus> {
        if s == "continue"@ {
            Some(FFmpegProgressStatus::Continue)
        } else if s == "end"@ {
            Some(FFmpegProgressStatus::End)
        } else {
            None
        }
    }

    /// Parse `continue` or `end`; anything else is unrecognised.
    pub fn from_str(s: &str) -> (r: Option<FFmpegProgressStatus>)
        ensures
            r == Self::from_str_spec(s@),
    {
        if str_eq(s, "continue") {
            Some(FFmpegProgressStatus::Continue)
        } else if str_eq(s, "end") {
            Some(FFmpegProgressStatus::End)
        } else {
            None
        }
    }
}

/// Mathematical model of one progress record: each field either parsed
/// or left empty.
pub ghost struct ProgressModel {
    pub frame: Option<usize>,
    pub fps: Option<usize>,
    pub bitrate: Option<Seq<char>>,
    pub total_size: Option<usize>,
    pub out_time_us: Option<usize>,
    pub out_time_ms: Option<usize>,
    pub dup_frames: Option<usize>,
    pub drop_frames: Option<usize>,
    pub speed: Option<Seq<char>>,
    pub progress: Option<FFmpegProgressStatus>,
}

/// The record with every field empty.
pub open spec fn empty_model() -> ProgressModel {
    ProgressModel {
        frame: None,
        fps: None,
        bitrate: None,
        total_size: None,
        out_time_us: None,
        out_time_ms: None,
        dup_frames: None,
        drop_frames: None,
        speed: None,
        progress: None,
    }
}

/// The numeric text in front of the first occurrence of `pat`, when
/// there is one and it is a decimal literal.
pub open spec fn split_numeric_spec(v: Seq<char>, pat: Seq<char>) -> Option<Seq<char>> {
    let i: int = find_sub(v, pat);
    if i < 0 {
        None
    } else {
        let pre = v.subrange(0, i);
        if is_numeric(pre) {
            Some(pre)
        } else {
            None
        }
    }
}

/// Effect of one `key=value` line on a record: the recognised key's field
/// is overwritten with the best-effort parse of the value; a line without
/// `=` or with an unknown key changes nothing.
pub open spec fn apply_line(m: ProgressModel, line: Seq<char>) -> ProgressModel {
    let e: int = find_char(line, '=');
    if e < 0 {
        m
    } else {
        let key = trim_spec(line.subrange(0, e));
        let value = trim_spec(line.subrange(e + 1, line.len() as int));
        if key == "frame"@ {
            ProgressModel { frame: parse_usize_spec(value), ..m }
        } else if key == "fps"@ {
            ProgressModel { fps: parse_usize_spec(value), ..m }
        } else if key == "bitrate"@ {
            ProgressModel { bitrate: split_numeric_spec(value, "kbits"@), ..m }
        } else if key == "total_size"@ {
            ProgressModel { total_size: parse_usize_spec(value), ..m }
        } else if key == "out_time_us"@ {
            ProgressModel { out_time_us: parse_usize_spec(value), ..m }
        } else if key == "out_time_ms"@ {
            ProgressModel { out_time_ms: parse_usize_spec(value), ..m }
        } else if key == "dup_frames"@ {
            ProgressModel { dup_frames: parse_usize_spec(value), ..m }
        } else if key == "drop_frames"@ {
            ProgressModel { drop_frames: parse_usize_spec(value), ..m }
        } else if key == "speed"@ {
            ProgressModel { speed: split_numeric_spec(value, "x"@), ..m }
        } else if key == "progress"@ {
            ProgressModel { progress: FFmpegProgressStatus::from_str_spec(value), ..m }
        } else {
            m
        }
    }
}

/// The lines of `s`, split at `c` the way `str::split` does it.
pub open spec fn split_char_seq(s: Seq<char>, c: char) -> Seq<Seq<char>>
    decreases s.len(),
{
    let i: int = find_char(s, c);
    if 0 <= i < s.len() {
        seq![s.subrange(0, i)] + split_char_seq(s.subrange(i + 1, s.len() as int), c)
    } else {
        seq![s]
    }
}

/// The lines applied to a record in order; a later line overwrites an
/// earlier line with the same key.
pub open spec fn parse_lines(ls: Seq<Seq<char>>, m: ProgressModel) -> ProgressModel
    decreases ls.len(),
{
    if ls.len() == 0 {
        m
    } else {
        parse_lines(ls.drop_first(), apply_line(m, ls.first()))
    }
}

/// The record a whole text block parses to.
pub open spec fn parse_progress(s: Seq<char>) -> ProgressModel {
    parse_lines(split_char_seq(s, '\n'), empty_model())
}

/// Whether the block's last three characters are the literal `end`, the
/// mark of a terminal record.
pub open spec fn ends_with_end(s: Seq<char>) -> bool {
    s.len() >= 3 && s.subrange(s.len() - 3, s.len() as int) == "end"@
}

/// One parsed progress record. A field is `None` when its key was absent
/// or its value malformed. Rates (`bitrate`, `speed`) keep their decimal
/// text, cut in front of the `kbits` / `x` unit suffix, so that no
/// floating-point value lives here; the text always parses as `f32`.
#[derive(Debug)]
pub struct FFmpegProgress {
    pub frame: Option<usize>,
    pub fps: Option<usize>,
    pub bitrate: Option<String>,
    pub total_size: Option<usize>,
    pub out_time_us: Option<usize>,
    pub out_time_ms: Option<usize>,
    pub dup_frames: Option<usize>,
    pub drop_frames: Option<usize>,
    pub speed: Option<String>,
    pub progress: Option<FFmpegProgressStatus>,
}

/// The character sequence of an optional string.
pub open spec fn opt_view(o: Option<String>) -> Option<Seq<char>> {
    match o {
        Some(x) => Some(x@),
        None => None,
    }
}

impl View for FFmpegProgress {
    type V = ProgressModel;

    open spec fn view(&self) -> ProgressModel {
        ProgressModel {
            frame: self.frame,
            fps: self.fps,
            bitrate: opt_view(self.bitrate),
            total_size: self.total_size,
            out_time_us: self.out_time_us,
            out_time_ms: self.out_time_ms,
            dup_frames: self.dup_frames,
            drop_frames: self.drop_frames,
            speed: opt_view(self.speed),
            progress: self.progress,
        }
    }
}

impl Default for FFmpegProgress {
    /// The empty record.
    fn default() -> (r: Self)
        ensures
            r@ == empty_model(),
    {
        FFmpegProgress {
            frame: None,
            fps: None,
            bitrate: None,
            total_size: None,
            out_time_us: None,
            out_time_ms: None,
            dup_frames: None,
            drop_frames: None,
            speed: None,
            progress: None,
        }
    }
}

/// The numeric text in front of the first `pat`, if any.
fn split_numeric(v: &str, pat: &str) -> (r: Option<String>)
    requires
        pat@.len() > 0,
    ensures
        opt_view(r) == split_numeric_spec(v@, pat@),
{
    match find_sub_str(v, pat) {
        None => None,
        Some(i) => {
            let pre = v.substring_char(0, i);
            if is_numeric_str(pre) {
                Some(String::from_str(pre))
            } else {
                None
            }
        },
    }
}

impl FFmpegProgress {
    /// Overwrite the field that one `key=value` line names.
    fn apply_line_exec(&mut self, line: &str)
        ensures
            final(self)@ == apply_line(old(self)@, line@),
    {
        proof {
            reveal_strlit("kbits");
            reveal_strlit("x");
        }
        let e: usize = match find_char_str(line, '=') {
            None => {
                return ;
            },
            Some(e) => e,
        };
        let n: usize = line.unicode_len();
        let key = trim_str(line.substring_char(0, e));
        let value = trim_str(line.substring_char(e + 1, n));
        if str_eq(key, "frame") {
            self.frame = parse_usize_str(value);
        } else if str_eq(key, "fps") {
            self.fps = parse_usize_str(value);
        } else if str_eq(key, "bitrate") {
            self.bitrate = split_numeric(value, "kbits");
        } else if str_eq(key, "total_size") {
            self.total_size = parse_usize_str(value);
        } else if str_eq(key, "out_time_us") {
            self.out_time_us = parse_usize_str(value);
        } else if str_eq(key, "out_time_ms") {
            self.out_time_ms = parse_usize_str(value);
        } else if str_eq(key, "dup_frames") {
            self.dup_frames = parse_usize_str(value);
        } else if str_eq(key, "drop_frames") {
            self.drop_frames = parse_usize_str(value);
        } else if str_eq(key, "speed") {
            self.speed = split_numeric(value, "x");
        } else if str_eq(key, "progress") {
            self.progress = FFmpegProgressStatus::from_str(value);
        }
    }

    /// Parse a whole block of newline-separated `key=value` lines.
    pub fn parse_str(block: &str) -> (r: FFmpegProgress)
        ensures
            r@ == parse_progress(block@),
    {
        let mut prog = FFmpegProgress::default();
        let mut rest: &str = block;
        loop
            invariant
                parse_lines(split_char_seq(rest@, '\n'), prog@) == parse_progress(block@),
            ensures
                prog@ == parse_progress(block@),
            decreases rest@.len(),
        {
            match find_char_str(rest, '\n') {
                Some(i) => {
                    let n: usize = rest.unicode_len();
                    let line = rest.substring_char(0, i);
                    let ghost old_rest = rest@;
                    let ghost old_model = prog@;
                    prog.apply_line_exec(line);
                    rest = rest.substring_char(i + 1, n);
                    proof {
                        let ls = split_char_seq(old_rest, '\n');
                        assert(ls == seq![old_rest.subrange(0, i as int)]
                            + split_char_seq(old_rest.subrange(i + 1, old_rest.len() as int), '\n'));
                        lemma_parse_lines_cons(
                            old_rest.subrange(0, i as int),
                            split_char_seq(rest@, '\n'),
                            old_model,
                        );
                    }
                },
                None => {
                    let ghost old_model = prog@;
                    prog.apply_line_exec(rest);
                    proof {
                        assert(split_char_seq(rest@, '\n') == seq![rest@]);
                        let ls = seq![rest@];
                        assert(ls.first() == rest@);
                        assert(ls.drop_first() =~= Seq::<Seq<char>>::empty());
                        assert(parse_lines(ls.drop_first(), apply_line(old_model, rest@))
                            == apply_line(old_model, rest@));
                        assert(parse_lines(ls, old_model) == apply_line(old_model, rest@));
                    }
                    break ;
                },
            }
        }
        prog
    }

    /// Parse an owned block, as the monitor hands them out.
    pub fn from(block: String) -> (r: FFmpegProgress)
        ensures
            r@ == parse_progress(block@),
    {
        FFmpegProgress::parse_str(block.as_str())
    }
}

proof fn lemma_parse_lines_cons(l: Seq<char>, ls: Seq<Seq<char>>, m: ProgressModel)
    ensures
        parse_lines(seq![l] + ls, m) == parse_lines(ls, apply_line(m, l)),
{
    let whole = seq![l] + ls;
    assert(whole.len() == ls.len() + 1);
    assert(whole.first() == l);
    assert(whole.drop_first() =~= ls);
}

/// What lossy UTF-8 decoding of a byte sequence yields.
pub uninterp spec fn utf8_lossy(b: Seq<u8>) -> Seq<char>;

/// Relies on `String::from_utf8_lossy`: the characters are a function of
/// the bytes alone; invalid sequences become replacement characters.
#[verifier::external_body]
fn utf8_lossy_str(b: &[u8]) -> (r: String)
    ensures
        r@ == utf8_lossy(b@),
{
    String::from_utf8_lossy(b).into_owned()
}

/// One read of the progress channel turned into a record plus the
/// terminal decision, exactly as the monitor loop treats it: decode the
/// bytes, trim, check for the `end` suffix, parse the block.
pub fn progress_chunk(chunk: &[u8]) -> (r: (FFmpegProgress, bool))
    ensures
        r.0@ == parse_progress(trim_spec(utf8_lossy(chunk@))),
        r.1 == ends_with_end(trim_spec(utf8_lossy(chunk@))),
{
    let s = utf8_lossy_str(chunk);
    let t = trim_str(s.as_str());
    let ended = ends_with_end_str(t);
    let record = FFmpegProgress::parse_str(t);
    (record, ended)
}

/// A block that ends in the literal `progress=end` line is recognised as
/// terminal: the monitor's suffix check still holds after the block is
/// trimmed.
pub proof fn lemma_terminal_recognized(s: Seq<char>)
    requires
        s.len() >= 12,
        s.subrange(s.len() - 12, s.len() as int) == "progress=end"@,
    ensures
        ends_with_end(trim_spec(s)),
{
    reveal_strlit("progress=end");
    reveal_strlit("end");
    let n = s.len() as int;
    let suffix = s.subrange(n - 12, n);
    assert(s[n - 3] == suffix[9] && s[n - 2] == suffix[10] && s[n - 1] == suffix[11]);
    assert(s[n - 3] == 'e' && s[n - 2] == 'n' && s[n - 1] == 'd');
    assert(!is_wsp('d') && !is_wsp('e'));
    crate::text::lemma_trim_left_is_suffix(s);
    let t = crate::text::trim_left(s);
    let k = n - t.len();
    assert(k <= n - 3) by {
        if k > n - 3 {
            assert(is_wsp(s[n - 3]));
        }
    }
    assert(t.len() >= 3);
    assert(t.last() == s[n - 1]);
    assert(crate::text::trim_right(t) == t);
    assert(trim_spec(s) == t);
    assert(t.subrange(t.len() - 3, t.len() as int) =~= "end"@);
}

/// Whether the block ends in the literal `end`.
pub fn ends_with_end_str(s: &str) -> (r: bool)
    ensures
        r == ends_with_end(s@),
{
    proof {
        reveal_strlit("end");
    }
    let n: usize = s.unicode_len();
    if n < 3 {
        return false;
    }
    let ok = s.get_char(n - 3) == 'e' && s.get_char(n - 2) == 'n' && s.get_char(n - 1) == 'd';
    proof {
        let t = s@.subrange(s@.len() - 3, s@.len() as int);
        if ok {
            assert(t =~= "end"@);
        } else {
            assert(t[0] == s@[s@.len() - 3] && t[1] == s@[s@.len() - 2] && t[2] == s@[
                s@.len() - 1]);
        }
    }
    ok
}

} // verus!
