use lexer::{Input, Line, State};
use peek_nth::IteratorExt;

#[test]
fn test_lines() {
    let mut input = "abc\ndef\nghi\n".chars().peekable_nth();
    let mut state = State::new();
    let mut lines = input.lines(&mut state);

    assert_eq!(lines.next(), Some(Line::from("abc")));
    assert_eq!(lines.next(), Some(Line::from("def")));
    assert_eq!(lines.next(), Some(Line::from("ghi")));
    assert_eq!(lines.next(), None);
}

struct Digits(Vec<char>);

impl Input for Digits {
    fn peek(&mut self, state: &State, offset: usize) -> Option<char> {
        self.0.get(state.index() + offset).copied()
    }
}

#[test]
fn test_own_input() {
    let mut input = Digits(vec!['1', '2', '\n', '3']);
    let mut state = State::new();
    assert_eq!(input.read_line(&mut state), Some(Line::from("12")));
    assert_eq!(state.index(), 3);
    assert_eq!(state.row(), 2);
    assert_eq!(state.col(), 1);
    assert_eq!(input.read_line(&mut state), Some(Line::from("3")));
    assert_eq!(input.read_line(&mut state), None);
}
