use lexer::{Chars, Input, State};

#[test]
fn test_chars_iter() {
    let chars = Chars::new("abcdefg".chars());
    assert_eq!(chars.collect(), ['a', 'b', 'c', 'd', 'e', 'f', 'g']);
}

#[test]
fn test_chars_input() {
    let mut state = State::new();
    let mut chars = Chars::new("abcdefg".chars());

    assert_eq!(chars.peek(&state, 0), Some('a'));
    assert_eq!(chars.peek(&state, 1), Some('b'));
    assert_eq!(chars.peek(&state, 2), Some('c'));

    chars.read(&mut state);
    chars.read(&mut state);
    chars.read(&mut state);

    assert_eq!(chars.read(&mut state), Some('d'));
    assert_eq!(chars.read(&mut state), Some('e'));
    assert_eq!(chars.read(&mut state), Some('f'));

    assert_eq!(chars.peek(&state, 0), Some('g'));
    assert_eq!(chars.read(&mut state), Some('g'));

    assert_eq!(chars.read(&mut state), None);
}
