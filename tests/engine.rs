use peep::buffer::{OutOfRange, TextBuffer};
use peep::follow::{watch_next, Watch, WatchAction, WatchEvent};
use peep::layout::{clip_row, glyphs, layout_line, line_width, wrap_rows};
use peep::pager::{FrameRow, Key, Mode, Pager, Status};

fn pager_with(text: &str, height: usize, width: usize) -> Pager {
    let mut p = Pager::new(height, width, 8, false, false, false);
    p.on_grow(text.as_bytes());
    p
}

fn numbered(n: usize) -> String {
    let mut s = String::new();
    for i in 0..n {
        s.push_str(&format!("line {}\n", i + 1));
    }
    s
}

fn keys(p: &mut Pager, text: &str) {
    for c in text.chars() {
        p.handle_key(Key::Char(c));
    }
}

#[test]
fn buffer_splits_on_newlines() {
    let mut b = TextBuffer::new();
    b.append(b"ab\ncd\nef");
    assert_eq!(b.line_count(), 2);
    assert_eq!(b.line_at(0).unwrap(), &b"ab".to_vec());
    assert_eq!(b.line_at(1).unwrap(), &b"cd".to_vec());
    b.append(b"g\n");
    assert_eq!(b.line_count(), 3);
    assert_eq!(b.line_at(2).unwrap(), &b"efg".to_vec());
    assert!(!b.is_closed());
    b.append(b"tail");
    b.close();
    assert!(b.is_closed());
    assert_eq!(b.line_count(), 4);
    assert_eq!(b.line_at(3).unwrap(), &b"tail".to_vec());
}

#[test]
fn buffer_line_out_of_range() {
    let mut b = TextBuffer::new();
    b.append(b"x\ny\n");
    assert_eq!(b.line_at(5), Err(OutOfRange { index: 5, count: 2 }));
}

#[test]
fn buffer_empty_lines_kept() {
    let mut b = TextBuffer::new();
    b.append(b"\n\n");
    assert_eq!(b.line_count(), 2);
    assert!(b.line_at(0).unwrap().is_empty());
}

#[test]
fn tab_expansion_a_tab_b() {
    let g = glyphs(&vec!['a', '\t', 'b'], 4);
    let cols: Vec<usize> = g.iter().map(|x| x.col).collect();
    let widths: Vec<usize> = g.iter().map(|x| x.width).collect();
    assert_eq!(cols, vec![0, 1, 4]);
    assert_eq!(widths, vec![1, 3, 1]);
    assert_eq!(line_width(b"a\tb", 4), Some(5));
}

#[test]
fn tab_at_stop_takes_full_width() {
    let g = glyphs(&vec!['a', 'b', 'c', 'd', '\t', 'e'], 4);
    assert_eq!(g[4].col, 4);
    assert_eq!(g[4].width, 4);
    assert_eq!(g[5].col, 8);
}

#[test]
fn wrap_splits_rows() {
    let l = layout_line(b"abcdef", 8, true, 4).unwrap();
    assert_eq!(l.rows, vec![(0, 4), (4, 6)]);
    let n = layout_line(b"abcdef", 8, false, 4).unwrap();
    assert_eq!(n.rows, vec![(0, 6)]);
}

#[test]
fn wrap_empty_line_one_row() {
    let l = layout_line(b"", 8, true, 4).unwrap();
    assert_eq!(l.rows, vec![(0, 0)]);
}

#[test]
fn wide_glyph_not_split() {
    let l = layout_line("日本語".as_bytes(), 8, true, 3).unwrap();
    let widths: Vec<usize> = l.glyphs.iter().map(|x| x.width).collect();
    assert_eq!(widths, vec![2, 2, 2]);
    assert_eq!(l.rows, vec![(0, 1), (1, 2), (2, 3)]);
}

#[test]
fn tab_moves_whole_to_next_row() {
    let g = glyphs(&vec!['a', 'b', '\t', 'c'], 4);
    assert_eq!(g[2].width, 2);
    assert_eq!(wrap_rows(&g, 3), vec![(0, 2), (2, 4)]);
}

#[test]
fn control_char_one_cell() {
    assert_eq!(line_width(&[1u8, b'x'], 8), Some(2));
}

#[test]
fn invalid_utf8_decodes_to_replacement() {
    let l = layout_line(&[0xffu8, b'a'], 8, false, 10).unwrap();
    assert_eq!(l.chars, vec!['\u{FFFD}', 'a']);
}

#[test]
fn scroll_down_clamps_to_last_line() {
    let mut p = pager_with(&numbered(10), 4, 20);
    keys(&mut p, "3j");
    assert_eq!(p.view.top, 3);
    keys(&mut p, "20j");
    assert_eq!(p.view.top, 9);
    keys(&mut p, "5k");
    assert_eq!(p.view.top, 4);
    keys(&mut p, "100k");
    assert_eq!(p.view.top, 0);
    keys(&mut p, "j");
    assert_eq!(p.view.top, 1);
}

#[test]
fn scroll_empty_buffer_stays_at_zero() {
    let mut p = pager_with("", 4, 20);
    keys(&mut p, "5jGf");
    assert_eq!(p.view.top, 0);
}

#[test]
fn half_and_full_pages() {
    let mut p = pager_with(&numbered(30), 5, 20);
    keys(&mut p, "d");
    assert_eq!(p.view.top, 3);
    keys(&mut p, "f");
    assert_eq!(p.view.top, 8);
    keys(&mut p, "2f");
    assert_eq!(p.view.top, 18);
    keys(&mut p, "u");
    assert_eq!(p.view.top, 15);
    keys(&mut p, "b");
    assert_eq!(p.view.top, 10);
}

#[test]
fn go_to_lines() {
    let mut p = pager_with(&numbered(10), 4, 20);
    keys(&mut p, "5g");
    assert_eq!(p.view.top, 4);
    keys(&mut p, "g");
    assert_eq!(p.view.top, 0);
    keys(&mut p, "G");
    assert_eq!(p.view.top, 9);
    keys(&mut p, "3G");
    assert_eq!(p.view.top, 2);
    keys(&mut p, "100G");
    assert_eq!(p.view.top, 9);
}

#[test]
fn horizontal_scroll() {
    let mut p = pager_with("abcdefghij\n", 4, 4);
    keys(&mut p, "3l");
    assert_eq!(p.view.left, 3);
    keys(&mut p, "h");
    assert_eq!(p.view.left, 2);
    keys(&mut p, "L");
    assert_eq!(p.view.left, 4);
    keys(&mut p, "5H");
    assert_eq!(p.view.left, 0);
    keys(&mut p, "$");
    assert_eq!(p.view.left, 6);
    keys(&mut p, "0");
    assert_eq!(p.view.left, 0);
}

#[test]
fn height_set_and_step() {
    let mut p = pager_with(&numbered(10), 20, 20);
    keys(&mut p, "5=");
    assert_eq!(p.view.height, 5);
    keys(&mut p, "+");
    assert_eq!(p.view.height, 6);
    keys(&mut p, "-");
    assert_eq!(p.view.height, 5);
    keys(&mut p, "3+");
    assert_eq!(p.view.height, 8);
    keys(&mut p, "10-");
    assert_eq!(p.view.height, 1);
    keys(&mut p, "-");
    assert_eq!(p.view.height, 1);
}

#[test]
fn prefix_overflow_clamps() {
    let mut p = pager_with(&numbered(3), 20, 20);
    keys(&mut p, "999999999999999999999999999=");
    assert_eq!(p.view.height, usize::MAX);
    assert_eq!(p.prefix, None);
}

#[test]
fn esc_clears_prefix() {
    let mut p = pager_with(&numbered(10), 4, 20);
    keys(&mut p, "5");
    assert_eq!(p.prefix, Some(5));
    p.handle_key(Key::Esc);
    assert_eq!(p.prefix, None);
    keys(&mut p, "j");
    assert_eq!(p.view.top, 1);
}

#[test]
fn toggles() {
    let mut p = pager_with(&numbered(10), 4, 20);
    keys(&mut p, "3j2l");
    let before = p.view;
    keys(&mut p, "!");
    assert!(p.settings.wrap);
    keys(&mut p, "!");
    assert!(!p.settings.wrap);
    assert_eq!(p.view, before);
    keys(&mut p, "#");
    assert!(p.settings.show_linenumber);
}

fn search_pager() -> Pager {
    pager_with("foo\nbar\nfoo bar\nbaz\nfoo\n", 3, 20)
}

#[test]
fn search_commit_jumps_below_top() {
    let mut p = search_pager();
    keys(&mut p, "/foo");
    assert_eq!(p.mode, Mode::PatternInput);
    p.handle_key(Key::Enter);
    assert_eq!(p.mode, Mode::Normal);
    assert_eq!(p.search.matches.len(), 3);
    assert_eq!(p.search.matches[1].line, 2);
    assert_eq!(p.search.matches[1].start, 0);
    assert_eq!(p.search.matches[1].end, 3);
    assert_eq!(p.search.cursor, Some(1));
    assert_eq!(p.view.top, 2);
    assert_eq!(p.status, Status::Clear);
}

#[test]
fn search_next_prev_inverse() {
    let mut p = search_pager();
    keys(&mut p, "/foo");
    p.handle_key(Key::Enter);
    let start = p.search.cursor;
    keys(&mut p, "n");
    assert_eq!(p.search.cursor, Some(2));
    assert_eq!(p.view.top, 4);
    keys(&mut p, "n");
    assert_eq!(p.search.cursor, Some(0));
    assert_eq!(p.view.top, 0);
    keys(&mut p, "n");
    keys(&mut p, "NNN");
    assert_eq!(p.search.cursor, start);
    assert_eq!(p.view.top, 2);
}

#[test]
fn search_prev_from_unpositioned() {
    let mut p = search_pager();
    keys(&mut p, "/foo");
    p.handle_key(Key::Enter);
    keys(&mut p, "j");
    assert_eq!(p.view.top, 3);
    keys(&mut p, "N");
    assert_eq!(p.search.cursor, Some(1));
    assert_eq!(p.view.top, 2);
}

#[test]
fn search_not_found_keeps_view() {
    let mut p = search_pager();
    keys(&mut p, "j/zzz");
    p.handle_key(Key::Enter);
    assert_eq!(p.status, Status::NotFound);
    assert_eq!(p.view.top, 1);
    keys(&mut p, "n");
    assert_eq!(p.status, Status::NotFound);
    assert_eq!(p.view.top, 1);
}

#[test]
fn search_without_pattern_not_found() {
    let mut p = search_pager();
    keys(&mut p, "n");
    assert_eq!(p.status, Status::NotFound);
}

#[test]
fn invalid_pattern_then_esc() {
    let mut p = search_pager();
    keys(&mut p, "/(");
    p.handle_key(Key::Enter);
    assert_eq!(p.status, Status::BadPattern);
    assert_eq!(p.mode, Mode::PatternInput);
    assert_eq!(p.input, vec!['(']);
    p.handle_key(Key::Esc);
    assert_eq!(p.mode, Mode::Normal);
    assert!(p.search.pattern.is_none());
    assert!(p.search.matches.is_empty());
}

#[test]
fn invalid_pattern_in_follow_returns_to_follow() {
    let mut p = Pager::new(3, 20, 8, false, true, false);
    p.on_grow(b"a\nb\n");
    keys(&mut p, "/a");
    p.handle_key(Key::Enter);
    assert_eq!(p.mode, Mode::Following);
    assert!(p.search.pattern.is_some());
    keys(&mut p, "/[");
    p.handle_key(Key::Enter);
    assert_eq!(p.status, Status::BadPattern);
    p.handle_key(Key::Esc);
    assert_eq!(p.mode, Mode::Following);
    assert_eq!(p.search.pattern.as_ref().unwrap().text(), &vec!['a']);
}

#[test]
fn pattern_input_backspace() {
    let mut p = search_pager();
    keys(&mut p, "/fox");
    p.handle_key(Key::Backspace);
    keys(&mut p, "o");
    assert_eq!(p.input, vec!['f', 'o', 'o']);
}

#[test]
fn follow_keeps_tail_visible() {
    let mut p = Pager::new(3, 20, 8, false, true, false);
    p.on_grow(numbered(5).as_bytes());
    assert_eq!(p.view.top, 2);
    p.on_grow(b"six\nseven\n");
    assert_eq!(p.view.top, 4);
    assert_eq!(p.buffer.line_count(), 7);
}

#[test]
fn normal_mode_growth_keeps_position() {
    let mut p = pager_with(&numbered(10), 3, 20);
    keys(&mut p, "2j");
    p.on_grow(b"more\n");
    assert_eq!(p.view.top, 2);
}

#[test]
fn follow_toggle_pins_to_tail() {
    let mut p = pager_with(&numbered(10), 3, 20);
    keys(&mut p, "F");
    assert_eq!(p.mode, Mode::Following);
    assert_eq!(p.view.top, 7);
    keys(&mut p, "5j");
    assert_eq!(p.view.top, 7);
    keys(&mut p, "2-");
    assert_eq!(p.view.height, 1);
    assert_eq!(p.view.top, 9);
    keys(&mut p, "F");
    assert_eq!(p.mode, Mode::Normal);
}

#[test]
fn matches_extend_on_growth() {
    let mut p = search_pager();
    keys(&mut p, "/ba");
    p.handle_key(Key::Enter);
    assert_eq!(p.search.matches.len(), 3);
    p.on_grow(b"abba\n");
    assert_eq!(p.search.matches.len(), 4);
    assert_eq!(p.search.matches[3].line, 5);
    assert_eq!(p.search.matches[3].start, 2);
}

#[test]
fn close_adds_unfinished_line() {
    let mut p = search_pager();
    keys(&mut p, "/zz");
    p.handle_key(Key::Enter);
    p.on_grow(b"zz");
    assert_eq!(p.buffer.line_count(), 5);
    p.on_close();
    assert_eq!(p.buffer.line_count(), 6);
    assert_eq!(p.search.matches.len(), 1);
}

#[test]
fn quit_keys() {
    let mut p = search_pager();
    keys(&mut p, "q");
    assert!(p.quit);
    let mut p = search_pager();
    p.handle_key(Key::Interrupt);
    assert!(p.quit);
    let mut p = search_pager();
    keys(&mut p, "/q");
    assert!(!p.quit);
}

#[test]
fn watcher_transitions() {
    assert_eq!(watch_next(Watch::Idle, WatchEvent::EnterFollow), (Watch::Watching, WatchAction::StartPolling));
    assert_eq!(watch_next(Watch::Watching, WatchEvent::LeaveFollow), (Watch::Idle, WatchAction::StopPolling));
    assert_eq!(watch_next(Watch::Watching, WatchEvent::EndOfSource), (Watch::Watching, WatchAction::Nothing));
    assert_eq!(watch_next(Watch::Watching, WatchEvent::ReadFailed), (Watch::Stopped, WatchAction::Cancel));
    assert_eq!(watch_next(Watch::Idle, WatchEvent::Quit), (Watch::Stopped, WatchAction::Cancel));
    assert_eq!(watch_next(Watch::Stopped, WatchEvent::EnterFollow), (Watch::Stopped, WatchAction::Nothing));
}

#[test]
fn clip_row_keeps_whole_glyphs() {
    let l = layout_line("a日b".as_bytes(), 8, false, 10).unwrap();
    assert_eq!(clip_row(&l.glyphs, 0, 3, 0, 10), vec![0, 1, 2]);
    assert_eq!(clip_row(&l.glyphs, 0, 3, 2, 10), vec![2]);
    assert_eq!(clip_row(&l.glyphs, 0, 3, 0, 2), vec![0]);
}

#[test]
fn visible_lines_and_left() {
    let mut p = pager_with(&numbered(10), 4, 20);
    keys(&mut p, "8j3l");
    assert_eq!(p.visible_lines(), (8, 10));
    assert_eq!(p.shown_left(), 3);
    keys(&mut p, "!");
    assert_eq!(p.shown_left(), 0);
    keys(&mut p, "g");
    assert_eq!(p.visible_lines(), (0, 4));
}

#[test]
fn frame_rows_unwrapped() {
    let mut p = pager_with("ab\ncdef\ng\n", 2, 3);
    assert_eq!(
        p.frame_rows(),
        vec![FrameRow { line: 0, start: 0, end: 2 }, FrameRow { line: 1, start: 0, end: 4 }]
    );
    keys(&mut p, "2j");
    assert_eq!(p.frame_rows(), vec![FrameRow { line: 2, start: 0, end: 1 }]);
}

#[test]
fn frame_rows_wrapped_cut_at_height() {
    let mut p = pager_with("abcdefg\nxy\n", 3, 3);
    keys(&mut p, "!");
    assert_eq!(
        p.frame_rows(),
        vec![
            FrameRow { line: 0, start: 0, end: 3 },
            FrameRow { line: 0, start: 3, end: 6 },
            FrameRow { line: 0, start: 6, end: 7 },
        ]
    );
    keys(&mut p, "j");
    assert_eq!(p.frame_rows(), vec![FrameRow { line: 1, start: 0, end: 2 }]);
}

#[test]
fn frame_rows_empty_buffer() {
    let p = pager_with("", 3, 10);
    assert!(p.frame_rows().is_empty());
}

#[test]
fn dollar_leaves_room_for_gutter() {
    let mut p = pager_with("abcdefghijklmnopqrst\n", 4, 10);
    assert_eq!(p.text_width(), 10);
    keys(&mut p, "#");
    assert_eq!(p.text_width(), 3);
    keys(&mut p, "$");
    assert_eq!(p.view.left, 17);
}

#[test]
fn close_on_unterminated_source_keeps_state() {
    let mut p = pager_with("one\ntwo", 4, 10);
    keys(&mut p, "5#");
    assert_eq!(p.buffer.line_count(), 1);
    p.on_close();
    assert_eq!(p.buffer.line_count(), 2);
    assert_eq!(p.buffer.line_at(1).unwrap(), &b"two".to_vec());
    assert_eq!(p.prefix, None);
    assert!(p.settings.show_linenumber);
    assert_eq!(p.mode, Mode::Normal);
}

#[test]
fn ascii_line_decodes_unchanged() {
    let l = layout_line(b"x y", 8, false, 10).unwrap();
    assert_eq!(l.chars, vec!['x', ' ', 'y']);
}
