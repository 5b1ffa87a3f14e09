use lexer::{Chars, Input, Line, Lines, ReaderResult, State};
use peek_nth::IteratorExt;

#[test]
fn test_peek_does_not_move() {
    let mut input = "ab".chars().peekable_nth();
    let state = State::new();
    assert_eq!(Input::peek(&mut input, &state, 1), Some('b'));
    assert_eq!(Input::peek(&mut input, &state, 0), Some('a'));
    assert_eq!(Input::peek(&mut input, &state, 2), None);
    assert_eq!(Input::peek(&mut input, &state, usize::MAX), None);
    assert_eq!(state, State::new());
}

#[test]
fn test_can_peek_and_is_done() {
    let mut input = Chars::new("ab".chars());
    let mut state = State::new();
    assert!(input.can_peek(&state, 1));
    assert!(!input.can_peek(&state, 2));
    assert!(!input.is_done(&state));
    input.read(&mut state);
    input.read(&mut state);
    assert!(input.is_done(&state));
    assert_eq!(input.read(&mut state), None);
    assert_eq!(state.index(), 2);
}

#[test]
fn test_read_offset_stops_at_the_end() {
    let mut input = "a\nbc".chars().peekable_nth();
    let mut state = State::new();
    assert_eq!(input.read_offset(&mut state, 3), 3);
    assert_eq!((state.index(), state.row(), state.col()), (3, 2, 2));
    assert_eq!(input.read_offset(&mut state, 3), 1);
    assert_eq!((state.index(), state.row(), state.col()), (4, 2, 3));
    assert_eq!(input.read_offset(&mut state, 3), 0);
    assert_eq!(input.read_offset(&mut state, 0), 0);
}

#[test]
fn test_skip_line_takes_the_break() {
    let mut input = "ab\ncd".chars().peekable_nth();
    let mut state = State::new();
    input.skip_line(&mut state);
    assert_eq!((state.index(), state.row(), state.col()), (3, 2, 1));
    input.skip_line(&mut state);
    assert_eq!((state.index(), state.row(), state.col()), (5, 2, 3));
    input.skip_line(&mut state);
    assert_eq!(state.index(), 5);
}

#[test]
fn test_peek_line_and_read_line() {
    let mut input = "ab\n\ncd".chars().peekable_nth();
    let mut state = State::new();
    assert_eq!(input.peek_line(&state), Some(Line::from("ab")));
    assert_eq!(state.index(), 0);
    let first = input.read_line(&mut state).unwrap();
    assert_eq!(first.as_string(), "ab");
    assert_eq!(first.offset(), 0);
    assert_eq!(state.index(), 3);
    let second = input.read_line(&mut state).unwrap();
    assert_eq!(second.as_string(), "");
    assert_eq!(second.offset(), 3);
    let third = input.read_line(&mut state).unwrap();
    assert_eq!(third, Line::new(4, String::from("cd")));
    assert_eq!(third.offset(), 4);
    assert_eq!(state.index(), 6);
    assert_eq!(input.read_line(&mut state), None);
    assert_eq!(input.peek_line(&state), None);
}

#[test]
fn test_read_whitespaces() {
    let mut input = " \t\nab ".chars().peekable_nth();
    let mut state = State::new();
    assert_eq!(input.read_whitespaces(&mut state), Some(String::from(" \t\n")));
    assert_eq!((state.index(), state.row(), state.col()), (3, 2, 1));
    assert_eq!(input.read_whitespaces(&mut state), None);
    assert_eq!(state.index(), 3);
    input.read_offset(&mut state, 2);
    assert_eq!(input.read_whitespaces(&mut state), Some(String::from(" ")));
    assert_eq!(input.read_whitespaces(&mut state), None);
}

#[test]
fn test_skip_whitespaces_stops_at_a_letter() {
    let mut input = Chars::new("  \u{a0}x ".chars());
    let mut state = State::new();
    input.skip_whitespaces(&mut state);
    assert_eq!(state.index(), 3);
    input.skip_whitespaces(&mut state);
    assert_eq!(state.index(), 3);
    assert_eq!(input.read(&mut state), Some('x'));
}

#[test]
fn test_line_is_read_at_its_offset() {
    let mut input = "ab\ncde".chars().peekable_nth();
    let mut state = State::new();
    input.skip_line(&mut state);
    let before = state.clone();
    let mut line = input.read_line(&mut state).unwrap();
    assert_eq!(line.offset(), 3);
    assert_eq!(line.peek(&before, 0), Some('c'));
    assert_eq!(line.peek(&before, 2), Some('e'));
    assert_eq!(line.peek(&before, 3), None);
    assert_eq!(line.peek(&State::new(), 0), None);
    assert_eq!(line.peek(&State::new(), 4), Some('d'));
    assert_eq!(line.len(), 3);
}

#[test]
fn test_lines_walk() {
    let mut input = Chars::new("one\ntwo\nthree".chars());
    let mut state = State::new();
    let mut lines = Lines::new(&mut input, &mut state);
    assert_eq!(lines.peek_line(), Some(Line::from("one")));
    lines.skip_line();
    assert_eq!(lines.next(), Some(Line::from("two")));
    assert_eq!(lines.peek_line(), Some(Line::from("three")));
    assert_eq!(lines.next(), Some(Line::from("three")));
    assert_eq!(lines.next(), None);
    assert_eq!(state.index(), 13);
}

#[test]
fn test_chars_counts_what_it_gave() {
    let mut chars = Chars::new("abcd".chars());
    assert_eq!(chars.char_at(1), Some('b'));
    assert_eq!(chars.next(), Some('c'));
    assert_eq!(chars.char_at(0), Some('a'));
    assert_eq!(chars.next(), Some('d'));
    assert_eq!(chars.next(), None);
    assert_eq!(chars.char_at(4), None);
    assert_eq!(chars.collect(), Vec::<char>::new());
}

#[test]
fn test_reader_result_from() {
    let token: ReaderResult<u8, bool> = ReaderResult::from(Ok(3));
    assert_eq!(token, ReaderResult::Token(3));
    let error: ReaderResult<u8, bool> = ReaderResult::from(Err(true));
    assert_eq!(error, ReaderResult::Error(true));
    let some: ReaderResult<u8, bool> = ReaderResult::from(Some(4));
    assert_eq!(some, ReaderResult::Token(4));
    let none: ReaderResult<u8, bool> = ReaderResult::from(None);
    assert_eq!(none, ReaderResult::NoMatch);
}
