use vstd::prelude::*;

verus! {

/// What unicode-width reports for a character: columns, or none for a
/// control character.
pub uninterp spec fn unicode_width(c: char) -> Option<usize>;

/// What lossy UTF-8 decoding makes of a line's bytes.
pub uninterp spec fn decoded_chars(b: Seq<u8>) -> Seq<char>;

/// Relies on `UnicodeWidthChar::width` of unicode-width: printable ASCII is
/// one column, C0 controls have no width, and no width exceeds three.
#[verifier::external_body]
fn char_width(c: char) -> (r: Option<usize>)
    ensures
        r == unicode_width(c),
        (' ' <= c && c < '\x7f') ==> r == Some(1usize),
        c < ' ' ==> r is None,
        r matches Some(w) ==> w <= 3,
{
    unicode_width::UnicodeWidthChar::width(c)
}

pub open spec fn all_ascii(b: Seq<u8>) -> bool {
    forall|i: int| 0 <= i < b.len() ==> b[i] < 128
}

/// Relies on `String::from_utf8_lossy`: invalid sequences become U+FFFD,
/// so there are never more characters than bytes, and bytes that are all
/// ASCII are valid UTF-8 and decode one character each.
#[verifier::external_body]
fn decode(b: &[u8]) -> (r: Vec<char>)
    ensures
        r@ == decoded_chars(b@),
        r@.len() <= b@.len(),
        all_ascii(b@) ==> r@ == b@.map_values(|x: u8| x as char),
{
    String::from_utf8_lossy(b).chars().collect()
}

pub const TAB: char = '\t';

/// Columns from `col` to the next tab stop.
#[verifier::opaque]
pub open spec fn tab_advance(col: nat, tab: nat) -> nat {
    (tab - col % tab) as nat
}

fn tab_stop_width(col: usize, tab_width: usize) -> (r: usize)
    requires
        tab_width >= 1,
    ensures
        r == tab_advance(col as nat, tab_width as nat),
        1 <= r <= tab_width,
{
    proof {
        reveal(tab_advance);
    }
    tab_width - col % tab_width
}

/// Columns a character takes when it starts at column `col`. A tab runs to
/// the next multiple of the tab width; a control character is drawn as one
/// placeholder cell.
pub open spec fn glyph_width(c: char, col: nat, tab: nat) -> nat {
    if c == TAB {
        tab_advance(col, tab)
    } else if (' ' <= c && c < '\x7f') {
        1
    } else {
        match unicode_width(c) {
            Some(w) => w as nat,
            None => 1,
        }
    }
}

/// Rendered width of a run of characters that starts at column 0.
pub open spec fn line_cols(s: Seq<char>, tab: nat) -> nat
    decreases s.len(),
{
    if s.len() == 0 {
        0
    } else {
        let c = line_cols(s.drop_last(), tab);
        c + glyph_width(s.last(), c, tab)
    }
}

/// Where a line's character of the same index is placed on the screen.
#[derive(Debug, Clone, Copy, PartialEq, Eq)]
pub struct Glyph {
    pub col: usize,
    pub width: usize,
}

pub open spec fn glyphs_of(s: Seq<char>, tab: nat, gs: Seq<Glyph>) -> bool {
    &&& gs.len() == s.len()
    &&& forall|i: int|
        0 <= i < s.len() ==> {
            &&& (#[trigger] gs[i]).col == line_cols(s.take(i), tab)
            &&& gs[i].width == glyph_width(s[i], gs[i].col as nat, tab)
        }
}

/// Columns that `n` characters can take at most.
#[verifier::opaque]
pub open spec fn col_budget(n: int, tab: int) -> int {
    n * (tab + 3)
}

proof fn lemma_budget_step(i: int, n: int, tab: int)
    requires
        0 <= i < n,
        tab >= 0,
    ensures
        col_budget(i + 1, tab) == col_budget(i, tab) + tab + 3,
        col_budget(i + 1, tab) <= col_budget(n, tab),
        col_budget(0, tab) == 0,
{
    reveal(col_budget);
    let m = tab + 3;
    assert((i + 1) * m == i * m + m) by (nonlinear_arith);
    assert((i + 1) * m <= n * m) by (nonlinear_arith)
        requires
            i + 1 <= n,
            m >= 0,
    ;
    assert(0 * m == 0);
}

/// Places each character at its column, expanding tabs.
pub fn glyphs(chars: &Vec<char>, tab_width: usize) -> (r: Vec<Glyph>)
    requires
        tab_width >= 1,
        col_budget(chars@.len() as int, tab_width as int) <= usize::MAX,
    ensures
        glyphs_of(chars@, tab_width as nat, r@),
        line_cols(chars@, tab_width as nat) <= usize::MAX,
{
    let ghost tab = tab_width as nat;
    let mut out: Vec<Glyph> = Vec::new();
    let mut col: usize = 0;
    let mut i: usize = 0;
    proof {
        reveal(col_budget);
    }
    while i < chars.len()
        invariant
            tab == tab_width as nat,
            tab_width >= 1,
            col_budget(chars@.len() as int, tab_width as int) <= usize::MAX,
            i <= chars@.len(),
            out@.len() == i,
            col == line_cols(chars@.take(i as int), tab),
            col <= col_budget(i as int, tab_width as int),
            forall|k: int|
                0 <= k < i ==> {
                    &&& (#[trigger] out@[k]).col == line_cols(chars@.take(k), tab)
                    &&& out@[k].width == glyph_width(chars@[k], out@[k].col as nat, tab)
                },
        decreases chars@.len() - i,
    {
        let c = chars[i];
        let w: usize = if c == TAB {
            tab_stop_width(col, tab_width)
        } else {
            match char_width(c) {
                Some(w) => w,
                None => 1,
            }
        };
        proof {
            assert(w <= tab_width + 3);
            assert(w == glyph_width(c, col as nat, tab));
            lemma_budget_step(i as int, chars@.len() as int, tab_width as int);
            assert(chars@.take(i + 1).drop_last() == chars@.take(i as int));
            assert(chars@.take(i + 1).last() == c);
        }
        let g = Glyph { col: col, width: w };
        out.push(g);

        col = col + w;
        i = i + 1;
    }
    proof {
        assert(glyphs_of(chars@, tab, out@));
        assert(chars@.take(chars@.len() as int) == chars@);
    }
    out
}

/// Total width of glyphs `a .. b`.
pub open spec fn span(gs: Seq<Glyph>, a: int, b: int) -> int
    decreases b - a,
{
    if b <= a {
        0
    } else {
        span(gs, a, b - 1) + gs[b - 1].width
    }
}

/// `rows` cuts glyphs `0 .. n` into consecutive rows, each as long as fits in
/// `width` columns; a glyph wider than the screen takes a row of its own, and
/// an empty line still has one empty row.
pub open spec fn wrapped(gs: Seq<Glyph>, width: int, rows: Seq<(usize, usize)>) -> bool {
    &&& rows.len() >= 1
    &&& (gs.len() == 0 ==> rows.len() == 1)
    &&& rows[0].0 == 0
    &&& rows.last().1 == gs.len()
    &&& forall|k: int| 0 <= k < rows.len() - 1 ==> (#[trigger] rows[k]).1 == rows[k + 1].0
    &&& forall|k: int|
        0 <= k < rows.len() ==> {
            &&& (gs.len() > 0 ==> (#[trigger] rows[k]).0 < rows[k].1)
            &&& rows[k].0 <= rows[k].1
            &&& (span(gs, rows[k].0 as int, rows[k].1 as int) <= width || rows[k].1 == rows[k].0 + 1)
            &&& (rows[k].1 < gs.len() ==> span(gs, rows[k].0 as int, rows[k].1 + 1) > width)
        }
}

/// Breaks a line's glyphs into screen rows of at most `width` columns.
pub fn wrap_rows(gs: &Vec<Glyph>, width: usize) -> (r: Vec<(usize, usize)>)
    requires
        width >= 1,
    ensures
        wrapped(gs@, width as int, r@),
{
    let mut rows: Vec<(usize, usize)> = Vec::new();
    let mut row_start: usize = 0;
    let mut acc: usize = 0;
    let mut i: usize = 0;
    while i < gs.len()
        invariant
            width >= 1,
            row_start <= i <= gs@.len(),
            acc == span(gs@, row_start as int, i as int),
            acc <= width || i == row_start + 1,
            i > 0 ==> row_start < i,
            rows@.len() == 0 ==> row_start == 0,
            rows@.len() > 0 ==> rows@[0].0 == 0 && rows@.last().1 == row_start,
            forall|k: int| 0 <= k < rows@.len() - 1 ==> (#[trigger] rows@[k]).1 == rows@[k + 1].0,
            forall|k: int|
                0 <= k < rows@.len() ==> {
                    &&& (#[trigger] rows@[k]).0 < rows@[k].1
                    &&& rows@[k].1 <= gs@.len()
                    &&& (span(gs@, rows@[k].0 as int, rows@[k].1 as int) <= width || rows@[k].1
                        == rows@[k].0 + 1)
                    &&& (rows@[k].1 < gs@.len() ==> span(gs@, rows@[k].0 as int, rows@[k].1 + 1)
                        > width)
                },
        decreases gs@.len() - i,
    {
        let w = gs[i].width;
        let over = if acc > width {
            true
        } else {
            w > width - acc
        };
        if i > row_start && over {
            let ghost before = rows@;
            rows.push((row_start, i));
            proof {
                assert(span(gs@, row_start as int, i + 1) == acc + w);
                assert forall|k: int| 0 <= k < rows@.len() - 1 implies (#[trigger] rows@[k]).1
                    == rows@[k + 1].0 by {
                    if k < before.len() - 1 {
                        assert(rows@[k] == before[k]);
                        assert(rows@[k + 1] == before[k + 1]);
                    }
                }
            }
            row_start = i;
            acc = 0;
        }
        proof {
            assert(span(gs@, row_start as int, row_start as int) == 0);
            assert(span(gs@, row_start as int, i + 1) == acc + w);
        }
        acc = acc + w;
        i = i + 1;
    }
    let ghost before = rows@;
    rows.push((row_start, gs.len()));
    proof {
        assert forall|k: int| 0 <= k < rows@.len() - 1 implies (#[trigger] rows@[k]).1 == rows@[k
            + 1].0 by {
            if k < before.len() - 1 {
                assert(rows@[k] == before[k]);
                assert(rows@[k + 1] == before[k + 1]);
            }
        }
    }
    rows
}

} // verus!

verus! {

/// A logical line prepared for the screen: its characters, where each one
/// is placed, and the glyph ranges that make up its display rows.
pub struct LineLayout {
    pub chars: Vec<char>,
    pub glyphs: Vec<Glyph>,
    pub rows: Vec<(usize, usize)>,
}

proof fn lemma_budget_fits(n: int, tab: int)
    requires
        n >= 0,
        tab >= 0,
        n <= (usize::MAX as int) / (tab + 3),
    ensures
        col_budget(n, tab) <= usize::MAX,
{
    reveal(col_budget);
    let m = tab + 3;
    let q = (usize::MAX as int) / m;
    assert(n * m <= q * m) by (nonlinear_arith)
        requires
            n <= q,
            m > 0,
    ;
    assert(q * m <= usize::MAX as int) by (nonlinear_arith)
        requires
            m > 0,
            q == (usize::MAX as int) / m,
    ;
}

/// Lays out one line: with `wrap` its glyphs are cut into rows of at most
/// `screen_width` columns, without it the line is one row. `None` where the
/// line is too long for its columns to be counted in a `usize`.
pub fn layout_line(bytes: &[u8], tab_width: u16, wrap: bool, screen_width: usize) -> (r: Option<
    LineLayout,
>)
    requires
        tab_width >= 1,
        screen_width >= 1,
    ensures
        (decoded_chars(bytes@).len() <= (usize::MAX as int) / (tab_width + 3)) == r is Some,
        r matches Some(l) ==> {
            &&& l.chars@ == decoded_chars(bytes@)
            &&& glyphs_of(l.chars@, tab_width as nat, l.glyphs@)
            &&& line_cols(l.chars@, tab_width as nat) <= usize::MAX
            &&& wrap ==> wrapped(l.glyphs@, screen_width as int, l.rows@)
            &&& !wrap ==> l.rows@ == seq![(0usize, l.chars@.len() as usize)]
        },
{
    let chars = decode(bytes);
    let tw = tab_width as usize;
    if chars.len() > usize::MAX / (tw + 3) {
        return None;
    }
    proof {
        lemma_budget_fits(chars@.len() as int, tab_width as int);
    }
    let glyphs = glyphs(&chars, tw);
    let rows = if wrap {
        wrap_rows(&glyphs, screen_width)
    } else {
        let mut one: Vec<(usize, usize)> = Vec::new();
        one.push((0, chars.len()));
        one
    };
    Some(LineLayout { chars, glyphs, rows })
}

/// Rendered width of a line's characters.
pub open spec fn glyphs_end(gs: Seq<Glyph>) -> int {
    if gs.len() == 0 {
        0
    } else {
        gs.last().col + gs.last().width
    }
}

/// Rendered width of a line, where it can be counted.
pub open spec fn line_width_of(bytes: Seq<u8>, tab_width: u16) -> Option<usize> {
    let chars = decoded_chars(bytes);
    if chars.len() <= (usize::MAX as int) / (tab_width + 3) {
        Some(line_cols(chars, tab_width as nat) as usize)
    } else {
        None
    }
}

proof fn lemma_glyphs_end(s: Seq<char>, tab: nat, gs: Seq<Glyph>)
    requires
        glyphs_of(s, tab, gs),
    ensures
        glyphs_end(gs) == line_cols(s, tab),
{
    if s.len() > 0 {
        assert(s.take(s.len() - 1) == s.drop_last());
        assert(gs.last() == gs[s.len() - 1]);
    }
}

/// Columns a line takes on the screen with tabs expanded.
pub fn line_width(bytes: &[u8], tab_width: u16) -> (r: Option<usize>)
    requires
        tab_width >= 1,
    ensures
        r == line_width_of(bytes@, tab_width),
{
    match layout_line(bytes, tab_width, false, 1) {
        Some(l) => {
            proof {
                lemma_glyphs_end(l.chars@, tab_width as nat, l.glyphs@);
            }
            if l.glyphs.len() == 0 {
                Some(0)
            } else {
                let g = l.glyphs[l.glyphs.len() - 1];
                Some(g.col + g.width)
            }
        },
        None => None,
    }
}

} // verus!

verus! {

/// Glyph `i` lies wholly inside columns `left .. left + width`.
pub open spec fn inside(g: Glyph, left: int, width: int) -> bool {
    g.col >= left && g.col + g.width <= left + width
}

/// The glyphs of `start .. end` that lie wholly inside the window of
/// `width` columns from `left`, in order.
pub fn clip_row(gs: &Vec<Glyph>, start: usize, end: usize, left: usize, width: usize) -> (r: Vec<
    usize,
>)
    requires
        start <= end <= gs@.len(),
    ensures
        forall|k: int|
            0 <= k < r@.len() ==> start <= #[trigger] r@[k] < end && inside(
                gs@[r@[k] as int],
                left as int,
                width as int,
            ),
        forall|k: int, m: int| 0 <= k < m < r@.len() ==> r@[k] < r@[m],
        forall|i: int|
            start <= i < end && inside(#[trigger] gs@[i], left as int, width as int) ==> exists|
                k: int,
            |
                0 <= k < r@.len() && r@[k] == i,
{
    let mut out: Vec<usize> = Vec::new();
    let mut i: usize = start;
    while i < end
        invariant
            start <= i <= end <= gs@.len(),
            forall|k: int|
                0 <= k < out@.len() ==> start <= #[trigger] out@[k] < i && inside(
                    gs@[out@[k] as int],
                    left as int,
                    width as int,
                ),
            forall|k: int, m: int| 0 <= k < m < out@.len() ==> out@[k] < out@[m],
            forall|j: int|
                start <= j < i && inside(#[trigger] gs@[j], left as int, width as int) ==> exists|
                    k: int,
                |
                    0 <= k < out@.len() && out@[k] == j,
        decreases end - i,
    {
        let g = gs[i];
        let fits = g.col >= left && g.col - left <= width && g.width <= width - (g.col - left);
        if fits {
            let ghost before = out@;
            out.push(i);
            proof {
                assert(out@[out@.len() - 1] == i);
                assert forall|j: int|
                    start <= j < i + 1 && inside(#[trigger] gs@[j], left as int, width as int)
                        implies exists|k: int| 0 <= k < out@.len() && out@[k] == j by {
                    if j < i {
                        let k = choose|k: int| 0 <= k < before.len() && before[k] == j;
                        assert(out@[k] == j);
                    } else {
                        assert(out@[out@.len() - 1] == j);
                    }
                }
            }
        }
        i = i + 1;
    }
    out
}

} // verus!
