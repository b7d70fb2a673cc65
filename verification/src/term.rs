//! Laying out one row of the terminal: cells are grouped into runs of text
//! that share their colours, with the cursor mark drawn in its cell.

use vstd::prelude::*;
use crate::color::{default_fg, transparent, Rgba};
use crate::text::{copy_text, push_char};
use vstd::string::StrSliceExecFns;
use vstd::utf8::encode_utf8;

verus! {

/// One terminal cell: its character and colours.
#[derive(Debug, Clone, Copy, PartialEq, Eq, Structural)]
pub struct TermCell {
    pub ch: char,
    pub fg: Rgba,
    pub bg: Rgba,
}

/// A run of text drawn in one pair of colours.
#[derive(Debug, Clone)]
pub struct TextRun {
    pub text: String,
    pub fg: Rgba,
    pub bg: Rgba,
}

/// The mathematical form of a run.
pub struct RunView {
    pub text: Seq<char>,
    pub fg: Rgba,
    pub bg: Rgba,
}

impl View for TextRun {
    type V = RunView;

    open spec fn view(&self) -> RunView {
        RunView { text: self.text@, fg: self.fg, bg: self.bg }
    }
}

/// The mark drawn in the cursor's cell.
pub open spec fn cursor_mark() -> char {
    '\u{258c}'
}

/// A white-space character in the sense of `char::is_whitespace` (the
/// Unicode `White_Space` property).
pub open spec fn is_white_space(c: char) -> bool {
    ||| ('\u{9}' <= c && c <= '\u{d}')
    ||| c == ' '
    ||| c == '\u{85}'
    ||| c == '\u{a0}'
    ||| c == '\u{1680}'
    ||| ('\u{2000}' <= c && c <= '\u{200a}')
    ||| c == '\u{2028}'
    ||| c == '\u{2029}'
    ||| c == '\u{202f}'
    ||| c == '\u{205f}'
    ||| c == '\u{3000}'
}

/// `s` without its trailing white space.
pub open spec fn trim_end(s: Seq<char>) -> Seq<char>
    decreases s.len(),
{
    if s.len() > 0 && is_white_space(s.last()) {
        trim_end(s.drop_last())
    } else {
        s
    }
}

/// The character drawn in column `k`.
pub open spec fn shown_char(cells: Seq<TermCell>, cursor: Option<int>, k: int) -> char {
    if cursor == Some(k) {
        cursor_mark()
    } else {
        cells[k].ch
    }
}

/// Reading the cells from the left: the runs finished so far and the run
/// being built. A run is finished when the colours change and it holds
/// text; the first run starts in the default colours.
pub open spec fn fold_runs(cells: Seq<TermCell>, cursor: Option<int>) -> (Seq<RunView>, RunView)
    decreases cells.len(),
{
    if cells.len() == 0 {
        (Seq::empty(), RunView { text: Seq::empty(), fg: default_fg(), bg: transparent() })
    } else {
        let (runs, cur) = fold_runs(cells.drop_last(), cursor);
        let k = cells.len() - 1;
        let cell = cells[k];
        let ch = shown_char(cells, cursor, k);
        if cell.fg != cur.fg || cell.bg != cur.bg {
            (
                if cur.text.len() > 0 { runs.push(cur) } else { runs },
                RunView { text: seq![ch], fg: cell.fg, bg: cell.bg },
            )
        } else {
            (runs, RunView { text: cur.text.push(ch), ..cur })
        }
    }
}

/// The runs of a row: those finished, then the last one without its
/// trailing white space, when anything of it is left.
pub open spec fn spec_row_runs(cells: Seq<TermCell>, cursor: Option<int>) -> Seq<RunView> {
    let (runs, cur) = fold_runs(cells, cursor);
    let t = trim_end(cur.text);
    if t.len() > 0 {
        runs.push(RunView { text: t, ..cur })
    } else {
        runs
    }
}

fn white_space(c: char) -> (res: bool)
    ensures
        res == is_white_space(c),
{
    ('\u{9}' <= c && c <= '\u{d}') || c == ' ' || c == '\u{85}' || c == '\u{a0}' || c
        == '\u{1680}' || ('\u{2000}' <= c && c <= '\u{200a}') || c == '\u{2028}' || c
        == '\u{2029}' || c == '\u{202f}' || c == '\u{205f}' || c == '\u{3000}'
}

/// Removes trailing white space.
pub fn trim_end_text(s: &str) -> (res: String)
    ensures
        res@ == trim_end(s@),
{
    let n = s.unicode_len();
    let mut k: usize = n;
    assert(s@.subrange(0, n as int) =~= s@);
    while k > 0 && white_space(s.get_char(k - 1))
        invariant
            n == s@.len(),
            k <= n,
            trim_end(s@) == trim_end(s@.subrange(0, k as int)),
        decreases k,
    {
        assert(s@.subrange(0, k as int).drop_last() =~= s@.subrange(0, k - 1));
        k = k - 1;
    }
    copy_text(s.substring_char(0, k))
}

fn same_color(a: Rgba, b: Rgba) -> (res: bool)
    ensures
        res == (a == b),
{
    a.r == b.r && a.g == b.g && a.b == b.b && a.a == b.a
}

/// Groups the cells of one row into runs of text sharing their colours,
/// drawing the cursor mark in column `cursor` (when given) and leaving out
/// trailing white space.
pub fn row_runs(cells: &[TermCell], cursor: Option<usize>) -> (res: Vec<TextRun>)
    ensures
        res@.map_values(|r: TextRun| r@) == spec_row_runs(
            cells@,
            match cursor {
                Some(c) => Some(c as int),
                None => None,
            },
        ),
{
    let ghost cur_spec = match cursor {
        Some(c) => Some(c as int),
        None => None,
    };
    let mut runs: Vec<TextRun> = Vec::new();
    let mut text = String::new();
    let mut fg = Rgba { r: 200, g: 210, b: 200, a: 255 };
    let mut bg = Rgba { r: 0, g: 0, b: 0, a: 0 };
    let n = cells.len();
    let mut k: usize = 0;
    while k < n
        invariant
            n == cells@.len(),
            k <= n,
            cur_spec == match cursor {
                Some(c) => Some(c as int),
                None => None,
            },
            ({
                let (rs, cur) = fold_runs(cells@.take(k as int), cur_spec);
                &&& runs@.map_values(|r: TextRun| r@) == rs
                &&& cur == RunView { text: text@, fg, bg }
            }),
        decreases n - k,
    {
        let cell = cells[k];
        let ch = match cursor {
            Some(c) => if c == k {
                '\u{258c}'
            } else {
                cell.ch
            },
            None => cell.ch,
        };
        let ghost before = cells@.take(k as int);
        let ghost after = cells@.take(k + 1);
        proof {
            assert(after.drop_last() =~= before);
            assert(after[k as int] == cell);
            assert(shown_char(after, cur_spec, k as int) == ch);
        }
        let ghost old_runs = runs@;
        if !same_color(cell.fg, fg) || !same_color(cell.bg, bg) {
            if text.as_str().unicode_len() > 0 {
                let finished = TextRun { text, fg, bg };
                runs.push(finished);
                assert(runs@.map_values(|r: TextRun| r@) =~= old_runs.map_values(
                    |r: TextRun| r@,
                ).push(finished@));
            }
            text = String::new();
            push_char(&mut text, ch);
            fg = cell.fg;
            bg = cell.bg;
            assert(text@ =~= seq![ch]);
        } else {
            push_char(&mut text, ch);
        }
        k = k + 1;
    }
    assert(cells@.take(n as int) =~= cells@);
    let trimmed = trim_end_text(text.as_str());
    if trimmed.as_str().unicode_len() > 0 {
        let ghost old_runs = runs@;
        let last = TextRun { text: trimmed, fg, bg };
        runs.push(last);
        assert(runs@.map_values(|r: TextRun| r@) =~= old_runs.map_values(|r: TextRun| r@).push(
            last@,
        ));
    }
    runs
}

/// The bytes that typed text sends, unless it is empty or starts with an
/// escape character (then it is left to the key handling).
pub fn text_input_bytes(text: &str) -> (res: Option<Vec<u8>>)
    ensures
        match res {
            Some(b) => text@.len() > 0 && text@[0] != '\u{1b}' && b@ == encode_utf8(text@),
            None => text@.len() == 0 || text@[0] == '\u{1b}',
        },
{
    if text.unicode_len() == 0 || text.get_char(0) == '\u{1b}' {
        None
    } else {
        Some(text.as_bytes_vec())
    }
}

/// The runs of a sequence are non-empty and neighbours differ in colour.
pub open spec fn runs_well_formed(runs: Seq<RunView>) -> bool {
    &&& forall|i: int| 0 <= i < runs.len() ==> (#[trigger] runs[i]).text.len() > 0
    &&& forall|i: int|
        0 <= i < runs.len() - 1 ==> (#[trigger] runs[i]).fg != runs[i + 1].fg || runs[i].bg
            != runs[i + 1].bg
}

proof fn lemma_fold_well_formed(cells: Seq<TermCell>, cursor: Option<int>)
    ensures
        ({
            let (runs, cur) = fold_runs(cells, cursor);
            &&& runs_well_formed(runs)
            &&& runs.len() > 0 ==> cur.text.len() > 0 && (runs.last().fg != cur.fg
                || runs.last().bg != cur.bg)
        }),
    decreases cells.len(),
{
    if cells.len() > 0 {
        lemma_fold_well_formed(cells.drop_last(), cursor);
        let (runs, cur) = fold_runs(cells.drop_last(), cursor);
        let cell = cells[cells.len() - 1];
        if cell.fg != cur.fg || cell.bg != cur.bg {
            if cur.text.len() > 0 {
                let r2 = runs.push(cur);
                assert forall|i: int| 0 <= i < r2.len() - 1 implies (#[trigger] r2[i]).fg
                    != r2[i + 1].fg || r2[i].bg != r2[i + 1].bg by {
                    if i < runs.len() - 1 {
                        assert(r2[i] == runs[i] && r2[i + 1] == runs[i + 1]);
                    }
                }
                assert forall|i: int| 0 <= i < r2.len() implies (#[trigger] r2[i]).text.len() > 0 by {
                    if i < runs.len() {
                        assert(r2[i] == runs[i]);
                    }
                }
            }
        }
    }
}

/// Every run of a row holds text, and neighbouring runs differ in colour.
pub proof fn lemma_row_runs_well_formed(cells: Seq<TermCell>, cursor: Option<int>)
    ensures
        runs_well_formed(spec_row_runs(cells, cursor)),
{
    lemma_fold_well_formed(cells, cursor);
    let (runs, cur) = fold_runs(cells, cursor);
    let t = trim_end(cur.text);
    if t.len() > 0 {
        let r2 = runs.push(RunView { text: t, ..cur });
        assert forall|i: int| 0 <= i < r2.len() - 1 implies (#[trigger] r2[i]).fg != r2[i + 1].fg
            || r2[i].bg != r2[i + 1].bg by {
            if i < runs.len() - 1 {
                assert(r2[i] == runs[i] && r2[i + 1] == runs[i + 1]);
            }
        }
        assert forall|i: int| 0 <= i < r2.len() implies (#[trigger] r2[i]).text.len() > 0 by {
            if i < runs.len() {
                assert(r2[i] == runs[i]);
            }
        }
    }
}

} // verus!
