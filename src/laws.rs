use vstd::prelude::*;
use crate::pager::{Pager, Key, Mode, key_step, count, n_lines, jump};
use crate::search::{positioned, next_target, prev_target};
use crate::viewport::last_top;

verus! {

/// Moving down by a count stops at the last line, and moving up stops at
/// the first: the top line stays inside the buffer.
pub proof fn scroll_stays_in_buffer(s: Pager, k: Key, t: Pager)
    requires
        s.wf(),
        s.mode == Mode::Normal,
        n_lines(s) <= usize::MAX,
        k == Key::Char('j') || k == Key::Char('k'),
        key_step(s, k, t),
    ensures
        k == Key::Char('j') ==> t.view.top == if s.view.top + count(s.prefix) <= last_top(
            n_lines(s),
        ) {
            s.view.top + count(s.prefix)
        } else {
            last_top(n_lines(s)) as int
        },
        k == Key::Char('k') ==> t.view.top == if s.view.top >= count(s.prefix) {
            s.view.top - count(s.prefix)
        } else {
            0
        },
        t.view.top <= last_top(n_lines(s)),
        t.view.top >= 0,
{
    reveal(key_step);
}

/// Turning wrapping on and then off again gives back the same window onto
/// the same text.
pub proof fn wrap_toggle_round_trip(s0: Pager, s1: Pager, s2: Pager)
    requires
        s0.mode != Mode::PatternInput,
        key_step(s0, Key::Char('!'), s1),
        key_step(s1, Key::Char('!'), s2),
    ensures
        s2.view == s0.view,
        s2.settings == s0.settings,
        s2.buffer == s0.buffer,
        s2.mode == s0.mode,
        s2.search == s0.search,
{
    reveal(key_step);
}

/// A prefixed `=` sets the screen height to the prefix; `+` and `-` without
/// one change it by a single row.
pub proof fn height_commands(s: Pager, k: Key, t: Pager)
    requires
        s.mode != Mode::PatternInput,
        key_step(s, k, t),
    ensures
        k == Key::Char('=') && s.prefix is Some && s.prefix->0 >= 1 ==> t.view.height
            == s.prefix->0,
        k == Key::Char('+') && s.prefix is None && s.view.height < usize::MAX ==> t.view.height
            == s.view.height + 1,
        k == Key::Char('-') && s.prefix is None && s.view.height >= 2 ==> t.view.height
            == s.view.height - 1,
{
    reveal(key_step);
}

pub open spec fn next_index(c: usize, len: nat) -> usize {
    if c + 1 < len {
        (c + 1) as usize
    } else {
        0
    }
}

pub open spec fn prev_index(c: usize, len: nat) -> usize {
    if c > 0 {
        (c - 1) as usize
    } else {
        (len - 1) as usize
    }
}

/// The match cursor stands on a match at the top of the screen.
pub open spec fn on_match(s: Pager) -> bool {
    &&& positioned(s.search.matches@, s.view.top as int, s.search.cursor)
    &&& s.search.matches@.len() <= usize::MAX
}

proof fn lemma_next_step(s: Pager, t: Pager)
    requires
        s.mode == Mode::Normal,
        on_match(s),
        key_step(s, Key::Char('n'), t),
    ensures
        t.mode == Mode::Normal,
        on_match(t),
        t.search.matches == s.search.matches,
        t.search.cursor == Some(next_index(s.search.cursor->0, s.search.matches@.len())),
{
    reveal(key_step);
    let ms = s.search.matches@;
    let c = s.search.cursor->0;
    let target = next_target(ms, s.view.top as int, s.search.cursor);
    assert(target == Some(next_index(c, ms.len()) as int));
    assert(jump(s, t, target));
}

proof fn lemma_prev_step(s: Pager, t: Pager)
    requires
        s.mode == Mode::Normal,
        on_match(s),
        key_step(s, Key::Char('N'), t),
    ensures
        t.mode == Mode::Normal,
        on_match(t),
        t.search.matches == s.search.matches,
        t.search.cursor == Some(prev_index(s.search.cursor->0, s.search.matches@.len())),
{
    reveal(key_step);
    let ms = s.search.matches@;
    let c = s.search.cursor->0;
    let target = prev_target(ms, s.view.top as int, s.search.cursor);
    assert(target == Some(prev_index(c, ms.len()) as int));
    assert(jump(s, t, target));
}

pub open spec fn forward_then_back(ss: Seq<Pager>, k: nat) -> bool {
    &&& ss.len() == 2 * k + 1
    &&& forall|i: int| 0 <= i < k ==> key_step(#[trigger] ss[i], Key::Char('n'), ss[i + 1])
    &&& forall|i: int| k <= i < 2 * k ==> key_step(#[trigger] ss[i], Key::Char('N'), ss[i + 1])
}

#[verifier::rlimit(60)]
proof fn lemma_forward(ss: Seq<Pager>, k: nat, i: nat)
    requires
        forward_then_back(ss, k),
        ss[0].mode == Mode::Normal,
        on_match(ss[0]),
        i <= k,
    ensures
        ss[i as int].mode == Mode::Normal,
        on_match(ss[i as int]),
        ss[i as int].search.matches == ss[0].search.matches,
        i > 0 ==> ss[i as int].search.cursor == Some(
            next_index(ss[i - 1].search.cursor->0, ss[0].search.matches@.len()),
        ),
    decreases i,
{
    if i > 0 {
        lemma_forward(ss, k, (i - 1) as nat);
        assert(key_step(ss[i - 1], Key::Char('n'), ss[i as int]));
        lemma_next_step(ss[i - 1], ss[i as int]);
    }
}

#[verifier::rlimit(60)]
proof fn lemma_back(ss: Seq<Pager>, k: nat, j: nat)
    requires
        forward_then_back(ss, k),
        ss[0].mode == Mode::Normal,
        on_match(ss[0]),
        j <= k,
    ensures
        ss[k + j as int].mode == Mode::Normal,
        on_match(ss[k + j as int]),
        ss[k + j as int].search.matches == ss[0].search.matches,
        ss[k + j as int].search.cursor == ss[k - j as int].search.cursor,
    decreases j,
{
    if j == 0 {
        lemma_forward(ss, k, k);
    } else {
        lemma_back(ss, k, (j - 1) as nat);
        let a: int = k + j - 1;
        let len = ss[0].search.matches@.len();
        assert(key_step(ss[a], Key::Char('N'), ss[a + 1]));
        lemma_prev_step(ss[a], ss[a + 1]);
        lemma_forward(ss, k, (k - j + 1) as nat);
        lemma_forward(ss, k, (k - j) as nat);
        let c = ss[k - j as int].search.cursor->0;
        assert(ss[k - j + 1].search.cursor == Some(next_index(c, len)));
        assert(prev_index(next_index(c, len), len) == c);
    }
}

/// Moving to the next match k times and then to the previous match k times
/// puts the match cursor back where it was, across the wrap at either end
/// of the buffer.
pub proof fn next_then_prev_returns(ss: Seq<Pager>, k: nat)
    requires
        forward_then_back(ss, k),
        ss[0].mode == Mode::Normal,
        on_match(ss[0]),
    ensures
        ss[2 * k as int].search.cursor == ss[0].search.cursor,
        on_match(ss[2 * k as int]),
{
    lemma_back(ss, k, k);
}

pub open spec fn typed_then_cancelled(ss: Seq<Pager>, keys: Seq<Key>) -> bool {
    &&& keys.len() >= 2
    &&& ss.len() == keys.len() + 1
    &&& keys[0] == Key::Char('/')
    &&& keys.last() == Key::Esc
    &&& forall|i: int| 0 <= i < keys.len() ==> key_step(#[trigger] ss[i], keys[i], ss[i + 1])
    &&& forall|i: int| 1 <= i < keys.len() ==> (#[trigger] ss[i]).mode == Mode::PatternInput
}

proof fn lemma_typing(ss: Seq<Pager>, keys: Seq<Key>, i: nat)
    requires
        typed_then_cancelled(ss, keys),
        ss[0].mode != Mode::PatternInput,
        1 <= i < keys.len(),
    ensures
        ss[i as int].origin == ss[0].mode,
        ss[i as int].search == ss[0].search,
    decreases i,
{
    reveal(key_step);
    assert(key_step(ss[i - 1], keys[i - 1], ss[i as int]));
    if i > 1 {
        lemma_typing(ss, keys, (i - 1) as nat);
        assert(ss[i - 1].mode == Mode::PatternInput);
        assert(ss[i as int].mode == Mode::PatternInput);
    }
}

/// Opening pattern input, typing (a pattern that does not compile may be
/// committed and refused), and cancelling: the mode is again the one that
/// pattern input was opened from, and the search state is untouched.
pub proof fn cancel_pattern_input(ss: Seq<Pager>, keys: Seq<Key>)
    requires
        typed_then_cancelled(ss, keys),
        ss[0].mode != Mode::PatternInput,
    ensures
        ss.last().mode == ss[0].mode,
        ss.last().search == ss[0].search,
{
    let n = keys.len();
    reveal(key_step);
    lemma_typing(ss, keys, (n - 1) as nat);
    assert(ss[n - 1].mode == Mode::PatternInput);
    assert(key_step(ss[n - 1], keys[n - 1], ss[n as int]));
}

} // verus!
