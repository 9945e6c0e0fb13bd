//! Preview content: styled lines with 1-based numbers, binary detection over
//! a file's leading bytes, and the fixed messages shown in place of content.
//!
//! A style is a plain RGB foreground descriptor, independent of any
//! rendering library; turning file bytes into styled segments is the
//! highlighting collaborator's business, outside this crate's logic.

use vstd::prelude::*;

verus! {

/// How many leading bytes binary detection looks at.
pub const BINARY_CHECK_LEN: usize = 8000;

/// A foreground colour, the whole style descriptor a preview line carries.
#[derive(Clone, Copy, Debug, PartialEq, Eq, Structural)]
pub struct Style {
    pub red: u8,
    pub green: u8,
    pub blue: u8,
}

/// One rendered preview line: its 1-based number (0 on message lines) and
/// its styled text segments.
#[derive(Debug)]
pub struct PreviewLine {
    pub line_number: usize,
    pub segments: Vec<(Style, String)>,
}

/// The rendered preview of one file.
#[derive(Debug)]
pub struct PreviewContent {
    pub lines: Vec<PreviewLine>,
}

/// Number of zero bytes in `s`.
pub open spec fn count_nulls(s: Seq<u8>) -> int
    decreases s.len(),
{
    if s.len() == 0 {
        0
    } else {
        count_nulls(s.drop_last()) + if s.last() == 0 {
            1int
        } else {
            0int
        }
    }
}

/// Content is taken for binary when more than a tenth of its leading bytes
/// (up to `BINARY_CHECK_LEN` of them) are zero.
pub open spec fn is_binary_spec(content: Seq<u8>) -> bool {
    let check = if content.len() < BINARY_CHECK_LEN as nat {
        content.len() as int
    } else {
        BINARY_CHECK_LEN as int
    };
    count_nulls(content.take(check)) > check / 10
}

/// Decides whether content looks binary: more than a tenth of the leading
/// bytes are zero.
pub fn is_binary(content: &[u8]) -> (r: bool)
    ensures
        r == is_binary_spec(content@),
{
    let len: usize = content.len();
    let check: usize = if len < BINARY_CHECK_LEN {
        len
    } else {
        BINARY_CHECK_LEN
    };
    let mut nulls: usize = 0;
    let mut i: usize = 0;
    while i < check
        invariant
            0 <= i <= check,
            check <= content@.len(),
            check <= BINARY_CHECK_LEN,
            nulls == count_nulls(content@.take(i as int)),
            nulls <= i,
        decreases check - i,
    {
        proof {
            assert(content@.take(i as int + 1).drop_last() =~= content@.take(i as int));
            assert(content@.take(i as int + 1).last() == content@[i as int]);
        }
        if content[i] == 0 {
            nulls = nulls + 1;
        }
        i = i + 1;
    }
    nulls > check / 10
}

/// Copies a line's styled segments.
pub fn clone_segments(v: &Vec<(Style, String)>) -> (r: Vec<(Style, String)>)
    ensures
        r@ == v@,
{
    let mut out: Vec<(Style, String)> = Vec::new();
    let mut i: usize = 0;
    while i < v.len()
        invariant
            0 <= i <= v@.len(),
            out@.len() == i,
            forall|k: int| 0 <= k < i ==> out@[k] == v@[k],
        decreases v@.len() - i,
    {
        let pair = (v[i].0, v[i].1.clone());
        assert(pair == v@[i as int]);
        out.push(pair);
        i = i + 1;
    }
    assert(out@ =~= v@);
    out
}

impl PreviewContent {
    /// Builds the preview from already-styled lines: the first `max_lines`
    /// of them, numbered from 1 in order.
    pub fn from_segments(segs: Vec<Vec<(Style, String)>>, max_lines: usize) -> (r: PreviewContent)
        ensures
            r.lines@.len() == (if segs@.len() < max_lines {
                segs@.len() as int
            } else {
                max_lines as int
            }),
            forall|i: int|
                0 <= i < r.lines@.len() ==> (#[trigger] r.lines@[i]).line_number == i + 1
                    && r.lines@[i].segments@ == segs@[i]@,
    {
        let keep: usize = if segs.len() < max_lines {
            segs.len()
        } else {
            max_lines
        };
        let mut lines: Vec<PreviewLine> = Vec::new();
        let mut i: usize = 0;
        while i < keep
            invariant
                0 <= i <= keep,
                keep <= segs@.len(),
                lines@.len() == i,
                forall|k: int|
                    0 <= k < i ==> (#[trigger] lines@[k]).line_number == k + 1
                        && lines@[k].segments@ == segs@[k]@,
            decreases keep - i,
        {
            let segments = clone_segments(&segs[i]);
            lines.push(PreviewLine { line_number: i + 1, segments });
            i = i + 1;
        }
        PreviewContent { lines }
    }

    /// The single message line shown for a directory (or anything that is
    /// not a regular file).
    pub fn directory_message() -> (r: PreviewContent)
        ensures
            r.lines@.len() == 1,
            r.lines@[0].line_number == 0,
            r.lines@[0].segments@.len() == 1,
            r.lines@[0].segments@[0].1@ == "[Directory]"@,
    {
        Self::message("[Directory]")
    }

    /// The single message line shown for detected binary content.
    pub fn binary_message() -> (r: PreviewContent)
        ensures
            r.lines@.len() == 1,
            r.lines@[0].line_number == 0,
            r.lines@[0].segments@.len() == 1,
            r.lines@[0].segments@[0].1@ == "[Binary file]"@,
    {
        Self::message("[Binary file]")
    }

    /// A single plainly styled message line carrying `text`, numbered 0.
    pub fn message(text: &str) -> (r: PreviewContent)
        ensures
            r.lines@.len() == 1,
            r.lines@[0].line_number == 0,
            r.lines@[0].segments@.len() == 1,
            r.lines@[0].segments@[0].1@ == text@,
    {
        let style = Style { red: 255, green: 255, blue: 255 };
        let mut segments: Vec<(Style, String)> = Vec::new();
        segments.push((style, String::from_str(text)));
        let mut lines: Vec<PreviewLine> = Vec::new();
        lines.push(PreviewLine { line_number: 0, segments });
        PreviewContent { lines }
    }

    /// The lines at `[scroll, scroll + height)`, clipped to what exists.
    pub fn visible_slice(&self, scroll: usize, height: usize) -> (r: Vec<PreviewLine>)
        ensures
            ({
                let len = self.lines@.len() as int;
                let start = if (scroll as int) < len {
                    scroll as int
                } else {
                    len
                };
                let end = if start + (height as int) < len {
                    start + (height as int)
                } else {
                    len
                };
                &&& r@.len() == end - start
                &&& forall|k: int|
                    0 <= k < r@.len() ==> (#[trigger] r@[k]).line_number == self.lines@[start
                        + k].line_number && r@[k].segments@ == self.lines@[start + k].segments@
            }),
    {
        let len: usize = self.lines.len();
        let start: usize = if scroll < len {
            scroll
        } else {
            len
        };
        let end: usize = if height < len - start {
            start + height
        } else {
            len
        };
        let mut out: Vec<PreviewLine> = Vec::new();
        let mut i: usize = start;
        while i < end
            invariant
                start <= i <= end,
                end <= self.lines@.len(),
                out@.len() == i - start,
                forall|k: int|
                    0 <= k < out@.len() ==> (#[trigger] out@[k]).line_number == self.lines@[start
                        + k].line_number && out@[k].segments@ == self.lines@[start + k].segments@,
            decreases end - i,
        {
            let line = &self.lines[i];
            out.push(
                PreviewLine {
                    line_number: line.line_number,
                    segments: clone_segments(&line.segments),
                },
            );
            i = i + 1;
        }
        out
    }
}

} // verus!
