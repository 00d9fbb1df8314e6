use vstd::prelude::*;
use crate::buffer::TextBuffer;

verus! {

/// Whether the regex crate compiles a pattern.
pub uninterp spec fn regex_accepts(p: Seq<char>) -> bool;

/// The byte ranges of the successive matches the regex crate finds in a line.
pub uninterp spec fn regex_ranges(p: Seq<char>, hay: Seq<u8>) -> Seq<(usize, usize)>;

#[verifier::external_type_specification]
#[verifier::external_body]
pub struct ExRegex(regex::bytes::Regex);

#[verifier::external_type_specification]
#[verifier::external_body]
pub struct ExRegexError(regex::Error);

/// Relies on `regex::bytes::Regex::new`: whether the pattern compiles
/// depends on the pattern alone.
#[verifier::external_body]
fn regex_new(p: &Vec<char>) -> (r: Result<regex::bytes::Regex, regex::Error>)
    ensures
        r is Ok == regex_accepts(p@),
{
    let text: String = p.iter().collect();
    regex::bytes::Regex::new(&text)
}

/// A compiled search pattern with the text it was compiled from. Only
/// `compile` builds one, so `re` is always the regex compiled from `text`.
pub struct Pattern {
    text: Vec<char>,
    re: regex::bytes::Regex,
}

impl View for Pattern {
    type V = Seq<char>;

    closed spec fn view(&self) -> Seq<char> {
        self.text@
    }
}

/// Relies on `regex::bytes::Regex::find_iter` and `Match::start` / `end`:
/// the successive non-overlapping matches in `hay`, as byte offsets into
/// it; `p.re` was compiled from `p@`.
#[verifier::external_body]
fn find_ranges(p: &Pattern, hay: &[u8]) -> (r: Vec<(usize, usize)>)
    ensures
        r@ == regex_ranges(p@, hay@),
        forall|i: int| 0 <= i < r@.len() ==> (#[trigger] r@[i]).0 <= r@[i].1 <= hay@.len(),
{
    p.re.find_iter(hay).map(|m| (m.start(), m.end())).collect()
}

impl Pattern {
    /// Compiles `text`. On success the pattern takes the text and leaves
    /// it empty; where the regex crate refuses it, `text` stays as it was.
    pub fn compile(text: &mut Vec<char>) -> (r: Option<Pattern>)
        ensures
            r is Some == regex_accepts(old(text)@),
            r matches Some(p) ==> p@ == old(text)@ && final(text)@.len() == 0,
            r is None ==> final(text)@ == old(text)@,
    {
        match regex_new(text) {
            Ok(re) => {
                let mut owned: Vec<char> = Vec::new();
                std::mem::swap(&mut owned, text);
                Some(Pattern { text: owned, re })
            },
            Err(_) => None,
        }
    }

    pub fn text(&self) -> (r: &Vec<char>)
        ensures
            r@ == self@,
    {
        &self.text
    }
}

/// One occurrence of the pattern: a line and a byte range in it.
#[derive(Debug, Clone, Copy, PartialEq, Eq)]
pub struct Match {
    pub line: usize,
    pub start: usize,
    pub end: usize,
}

pub open spec fn to_match(line: int, r: (usize, usize)) -> Match {
    Match { line: line as usize, start: r.0, end: r.1 }
}

/// The matches in line `i`, in order.
pub open spec fn line_matches(p: Seq<char>, i: int, line: Seq<u8>) -> Seq<Match> {
    regex_ranges(p, line).map_values(|r: (usize, usize)| to_match(i, r))
}

/// The matches in `lines`, line by line.
pub open spec fn all_matches(p: Seq<char>, lines: Seq<Seq<u8>>) -> Seq<Match>
    decreases lines.len(),
{
    if lines.len() == 0 {
        Seq::empty()
    } else {
        all_matches(p, lines.drop_last()) + line_matches(p, lines.len() - 1, lines.last())
    }
}

/// The index of the first match on a line after `top`.
pub open spec fn is_first_after(ms: Seq<Match>, top: int, i: int) -> bool {
    &&& 0 <= i < ms.len()
    &&& ms[i].line > top
    &&& forall|j: int| 0 <= j < i ==> ms[j].line <= top
}

/// The index of the last match on a line before `top`.
pub open spec fn is_last_before(ms: Seq<Match>, top: int, i: int) -> bool {
    &&& 0 <= i < ms.len()
    &&& ms[i].line < top
    &&& forall|j: int| i < j < ms.len() ==> ms[j].line >= top
}

/// The cursor stands on a match at the top of the screen.
pub open spec fn positioned(ms: Seq<Match>, top: int, cursor: Option<usize>) -> bool {
    cursor matches Some(c) && c < ms.len() && ms[c as int].line == top
}

/// Where `n` goes: the match after the cursor when it stands at the top of
/// the screen, else the first match below the top line, wrapping around.
pub open spec fn next_target(ms: Seq<Match>, top: int, cursor: Option<usize>) -> Option<int> {
    if ms.len() == 0 {
        None
    } else if positioned(ms, top, cursor) {
        let c = cursor->0 as int;
        if c + 1 < ms.len() {
            Some(c + 1)
        } else {
            Some(0)
        }
    } else if exists|i: int| is_first_after(ms, top, i) {
        Some(choose|i: int| is_first_after(ms, top, i))
    } else {
        Some(0)
    }
}

/// Where `N` goes: the mirror image of `next_target`.
pub open spec fn prev_target(ms: Seq<Match>, top: int, cursor: Option<usize>) -> Option<int> {
    if ms.len() == 0 {
        None
    } else if positioned(ms, top, cursor) {
        let c = cursor->0 as int;
        if c > 0 {
            Some(c - 1)
        } else {
            Some(ms.len() - 1)
        }
    } else if exists|i: int| is_last_before(ms, top, i) {
        Some(choose|i: int| is_last_before(ms, top, i))
    } else {
        Some(ms.len() - 1)
    }
}

/// The active pattern, the matches found in the lines scanned so far, and
/// the match the cursor is on.
pub struct SearchState {
    pub pattern: Option<Pattern>,
    pub matches: Vec<Match>,
    pub cursor: Option<usize>,
    pub scanned: usize,
}

impl SearchState {
    pub open spec fn wf(&self, lines: Seq<Seq<u8>>) -> bool {
        &&& self.scanned <= lines.len()
        &&& match self.pattern {
            Some(p) => self.matches@ == all_matches(p@, lines.take(self.scanned as int)),
            None => self.matches@.len() == 0 && self.scanned == 0,
        }
        &&& self.cursor matches Some(c) ==> c < self.matches@.len()
        &&& forall|i: int|
            0 <= i < self.matches@.len() ==> (#[trigger] self.matches@[i]).line < self.scanned
    }

    pub fn new() -> (r: SearchState)
        ensures
            r.pattern is None,
            r.matches@.len() == 0,
            r.cursor is None,
            r.scanned == 0,
    {
        SearchState { pattern: None, matches: Vec::new(), cursor: None, scanned: 0 }
    }

    /// Scans the lines added since the last scan and appends their matches;
    /// the matches found before stay as they are.
    pub fn scan_new_lines(&mut self, buffer: &TextBuffer)
        requires
            old(self).wf(buffer.line_seq()),
            old(self).pattern is Some,
        ensures
            final(self).wf(buffer.line_seq()),
            final(self).pattern == old(self).pattern,
            final(self).cursor == old(self).cursor,
            final(self).scanned == buffer.lines@.len(),
            old(self).matches@.is_prefix_of(final(self).matches@),
            final(self).matches@ == all_matches(
                final(self).pattern->0@,
                buffer.line_seq(),
            ),
    {
        let ghost lines = buffer.line_seq();
        let ghost start = self.matches@;
        let ghost p = self.pattern->0@;
        while self.scanned < buffer.lines.len()
            invariant
                self.wf(lines),
                lines == buffer.line_seq(),
                self.pattern is Some,
                p == self.pattern->0@,
                self.pattern == old(self).pattern,
                self.cursor == old(self).cursor,
                start.is_prefix_of(self.matches@),
            decreases buffer.lines@.len() - self.scanned,
        {
            let i = self.scanned;
            let ranges = match &self.pattern {
                Some(pat) => find_ranges(pat, buffer.lines[i].as_slice()),
                None => Vec::new(),
            };
            let ghost before = self.matches@;
            let mut k: usize = 0;
            while k < ranges.len()
                invariant
                    self.scanned == i,
                    i < lines.len(),
                    self.pattern == old(self).pattern,
                    self.cursor == old(self).cursor,
                    self.cursor matches Some(c) ==> c < before.len(),
                    ranges@ == regex_ranges(p, lines[i as int]),
                    k <= ranges@.len(),
                    self.matches@ == before + line_matches(p, i as int, lines[i as int]).take(
                        k as int,
                    ),
                decreases ranges@.len() - k,
            {
                let r = ranges[k];
                let m = Match { line: i, start: r.0, end: r.1 };
                self.matches.push(m);
                proof {
                    assert(line_matches(p, i as int, lines[i as int]).take(k + 1)
                        == line_matches(p, i as int, lines[i as int]).take(k as int).push(m));
                }
                k = k + 1;
            }
            proof {
                let lm = line_matches(p, i as int, lines[i as int]);
                assert(lm.take(lm.len() as int) == lm);
                assert(lines.take(i + 1).drop_last() == lines.take(i as int));
                assert(lines.take(i + 1).last() == lines[i as int]);
                assert(self.matches@ == all_matches(p, lines.take(i + 1)));
                assert forall|j: int|
                    0 <= j < self.matches@.len() implies (#[trigger] self.matches@[j]).line < i
                    + 1 by {
                    if j >= before.len() {
                        assert(self.matches@[j] == lm[j - before.len()]);
                    }
                }
            }
            self.scanned = i + 1;
        }
        proof {
            assert(lines.take(lines.len() as int) == lines);
        }
    }
}

pub open spec fn as_int(r: Option<usize>) -> Option<int> {
    match r {
        Some(i) => Some(i as int),
        None => None,
    }
}

/// Index of the match that `n` moves to.
pub fn find_next(ms: &Vec<Match>, top: usize, cursor: Option<usize>) -> (r: Option<usize>)
    ensures
        as_int(r) == next_target(ms@, top as int, cursor),
{
    let len = ms.len();
    if len == 0 {
        return None;
    }
    match cursor {
        Some(c) => {
            if c < len && ms[c].line == top {
                return if c + 1 < len {
                    Some(c + 1)
                } else {
                    Some(0)
                };
            }
        },
        None => {},
    }
    let mut i: usize = 0;
    while i < len
        invariant
            len == ms@.len(),
            i <= len,
            forall|j: int| 0 <= j < i ==> ms@[j].line <= top,
            !positioned(ms@, top as int, cursor),
        decreases len - i,
    {
        if ms[i].line > top {
            proof {
                assert(is_first_after(ms@, top as int, i as int));
                let k = choose|k: int| is_first_after(ms@, top as int, k);
                if k < i {
                    assert(ms@[k].line <= top);
                } else if k > i {
                    assert(ms@[i as int].line <= top);
                }
                assert(k == i);
                assert(!positioned(ms@, top as int, cursor));
            }
            return Some(i);
        }
        i = i + 1;
    }
    Some(0)
}

/// Index of the match that `N` moves to.
pub fn find_prev(ms: &Vec<Match>, top: usize, cursor: Option<usize>) -> (r: Option<usize>)
    ensures
        as_int(r) == prev_target(ms@, top as int, cursor),
{
    let len = ms.len();
    if len == 0 {
        return None;
    }
    match cursor {
        Some(c) => {
            if c < len && ms[c].line == top {
                return if c > 0 {
                    Some(c - 1)
                } else {
                    Some(len - 1)
                };
            }
        },
        None => {},
    }
    let mut i: usize = len;
    while i > 0
        invariant
            len == ms@.len(),
            i <= len,
            forall|j: int| i <= j < len ==> ms@[j].line >= top,
            !positioned(ms@, top as int, cursor),
        decreases i,
    {
        if ms[i - 1].line < top {
            proof {
                assert(is_last_before(ms@, top as int, i - 1));
                let k = choose|k: int| is_last_before(ms@, top as int, k);
                if k < i - 1 {
                    assert(ms@[i - 1].line >= top);
                } else if k > i - 1 {
                    assert(ms@[k].line >= top);
                }
                assert(k == i - 1);
                assert(!positioned(ms@, top as int, cursor));
            }
            return Some(i - 1);
        }
        i = i - 1;
    }
    Some(len - 1)
}

} // verus!
