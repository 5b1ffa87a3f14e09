use lexer::{
    dispatch, next, read, step, Input, Reader, ReaderResult, Readers, ReadersBuilder, State, Step,
    TokenIter,
};
use peek_nth::IteratorExt;

/// Reads one character that `accepts` holds, and reports it under `tag`.
struct Tagged {
    tag: &'static str,
    priority: usize,
    accepts: fn(char) -> bool,
}

impl<I: Input + ?Sized> Reader<(&'static str, char), String, I> for Tagged {
    fn priority(&self) -> usize {
        self.priority
    }

    fn read(
        &self,
        input: &mut I,
        _current: &State,
        next: &mut State,
    ) -> ReaderResult<(&'static str, char), String> {
        match input.peek(next, 0) {
            Some(ch) if (self.accepts)(ch) => {
                input.read(next);
                if ch == '!' {
                    ReaderResult::Error(format!("{} met '!'", self.tag))
                } else if ch == '#' {
                    ReaderResult::Empty
                } else {
                    ReaderResult::Token((self.tag, ch))
                }
            }
            _ => ReaderResult::NoMatch,
        }
    }
}

fn any(_: char) -> bool {
    true
}

fn letter(ch: char) -> bool {
    ch.is_alphabetic()
}

fn tagged(tag: &'static str, priority: usize, accepts: fn(char) -> bool) -> Box<Tagged> {
    Box::new(Tagged { tag, priority, accepts })
}

type Registry = Readers<(&'static str, char), String>;
type Builder = ReadersBuilder<(&'static str, char), String>;

fn tags(readers: &Registry) -> Vec<usize> {
    let mut all = Vec::new();
    let mut index = 0;
    while let Some(reader) = readers.get(index) {
        all.push(reader.priority());
        index += 1;
    }
    all
}

#[test]
fn test_lower_priority_is_tried_first() {
    let builder: Builder = ReadersBuilder::new();
    let readers = builder.add(tagged("late", 5, any)).add(tagged("early", 1, any)).build();
    let mut input = "x".chars().peekable_nth();
    let mut state = State::new();
    assert_eq!(read(&readers, &mut input, &mut state), Some(Ok(("early", 'x'))));

    let builder: Builder = ReadersBuilder::new();
    let readers = builder.add(tagged("early", 1, any)).add(tagged("late", 5, any)).build();
    let mut input = "x".chars().peekable_nth();
    let mut state = State::new();
    assert_eq!(read(&readers, &mut input, &mut state), Some(Ok(("early", 'x'))));
}

#[test]
fn test_equal_priority_goes_by_insertion() {
    let builder: Builder = ReadersBuilder::new();
    let readers = builder.add(tagged("a", 2, any)).add(tagged("b", 2, any)).build();
    let mut input = "x".chars().peekable_nth();
    let mut state = State::new();
    assert_eq!(read(&readers, &mut input, &mut state), Some(Ok(("a", 'x'))));

    let builder: Builder = ReadersBuilder::new();
    let readers = builder.add(tagged("b", 2, any)).add(tagged("a", 2, any)).build();
    let mut input = "x".chars().peekable_nth();
    let mut state = State::new();
    assert_eq!(read(&readers, &mut input, &mut state), Some(Ok(("b", 'x'))));
}

#[test]
fn test_first_matching_reader_decides() {
    let builder: Builder = ReadersBuilder::new();
    let readers = builder.add(tagged("letter", 0, letter)).add(tagged("any", 1, any)).build();
    let mut input = "a1".chars().peekable_nth();
    let mut state = State::new();
    assert_eq!(dispatch(&readers, &mut input, &mut state), ReaderResult::Token(("letter", 'a')));
    assert_eq!(state.index(), 1);
    assert_eq!(dispatch(&readers, &mut input, &mut state), ReaderResult::Token(("any", '1')));
    assert_eq!(state.index(), 2);
    assert_eq!(dispatch(&readers, &mut input, &mut state), ReaderResult::NoMatch);
    assert_eq!(state.index(), 2);
}

#[test]
fn test_registry_keeps_order() {
    let mut readers: Registry = Readers::new();
    assert_eq!(readers.len(), 0);
    readers.add(tagged("c", 3, any));
    readers.add(tagged("a", 1, any));
    readers.add(tagged("b", 2, any));
    readers.add(tagged("a2", 1, any));
    assert_eq!(readers.len(), 4);
    assert_eq!(tags(&readers), vec![1, 1, 2, 3]);

    let mut input = "x".chars().peekable_nth();
    let mut state = State::new();
    assert_eq!(read(&readers, &mut input, &mut state), Some(Ok(("a", 'x'))));

    let removed = readers.remove(0).unwrap();
    assert_eq!(removed.priority(), 1);
    assert_eq!(tags(&readers), vec![1, 2, 3]);
    let mut input = "x".chars().peekable_nth();
    let mut state = State::new();
    assert_eq!(read(&readers, &mut input, &mut state), Some(Ok(("a2", 'x'))));

    assert!(readers.remove(3).is_none());
    assert_eq!(readers.len(), 3);
    assert!(readers.get(3).is_none());
}

#[test]
fn test_registry_from_vec_and_builder() {
    let boxes: Vec<Box<dyn Reader<(&'static str, char), String>>> =
        vec![tagged("z", 9, any), tagged("y", 0, any), tagged("x", 9, any)];
    let readers: Registry = Readers::from(boxes);
    assert_eq!(tags(&readers), vec![0, 9, 9]);

    let builder: Builder = ReadersBuilder::new();
    let readers: Registry = Readers::from(builder.add(tagged("z", 9, any)).add(tagged("y", 0, any)));
    assert_eq!(tags(&readers), vec![0, 9]);
}

#[test]
fn test_skip_then_token() {
    let builder: Builder = ReadersBuilder::new();
    let readers = builder.add(tagged("any", 0, any)).build();
    let mut input = "##a".chars().peekable_nth();
    let mut state = State::new();
    assert_eq!(dispatch(&readers, &mut input, &mut state), ReaderResult::Empty);
    assert_eq!(state.index(), 1);
    assert_eq!(next(&readers, &mut input, &mut state), Some(Ok(("any", 'a'))));
    assert_eq!(state.index(), 3);
    assert_eq!(next(&readers, &mut input, &mut state), None);
}

#[test]
fn test_skip_to_the_end_gives_nothing() {
    let builder: Builder = ReadersBuilder::new();
    let readers = builder.add(tagged("any", 0, any)).build();
    let mut input = "###".chars().peekable_nth();
    let mut state = State::new();
    assert_eq!(read(&readers, &mut input, &mut state), None);
    assert_eq!(state.index(), 3);
}

#[test]
fn test_error_leaves_the_position() {
    let builder: Builder = ReadersBuilder::new();
    let readers = builder.add(tagged("any", 0, any)).build();
    let mut input = "a#!b".chars().peekable_nth();
    let mut state = State::new();
    assert_eq!(read(&readers, &mut input, &mut state), Some(Ok(("any", 'a'))));
    assert_eq!(read(&readers, &mut input, &mut state), Some(Err(String::from("any met '!'"))));
    assert_eq!(state.index(), 2);
}

#[test]
fn test_run_ends_with_the_error() {
    let builder: Builder = ReadersBuilder::new();
    let readers = builder.add(tagged("any", 0, any)).build();
    let input: Box<dyn Input> = Box::new("a!b".chars().peekable_nth());
    let mut tokens = TokenIter::new(&readers, input);
    assert_eq!(tokens.next(), Some(Ok(("any", 'a'))));
    assert_eq!(tokens.next(), Some(Err(String::from("any met '!'"))));
    assert_eq!(tokens.next(), None);
    assert_eq!(tokens.next(), None);
}

#[test]
fn test_collect_gives_all_items() {
    let builder: Builder = ReadersBuilder::new();
    let readers = builder.add(tagged("any", 1, any)).add(tagged("letter", 0, letter)).build();
    let input: Box<dyn Input> = Box::new("a#1".chars().peekable_nth());
    assert_eq!(
        TokenIter::new(&readers, input).collect(),
        vec![Ok(("letter", 'a')), Ok(("any", '1'))]
    );
    let input: Box<dyn Input> = Box::new("a!1".chars().peekable_nth());
    assert_eq!(
        TokenIter::new(&readers, input).collect(),
        vec![Ok(("letter", 'a')), Err(String::from("any met '!'"))]
    );
    let input: Box<dyn Input> = Box::new("".chars().peekable_nth());
    assert_eq!(TokenIter::new(&readers, input).collect(), vec![]);
}

#[test]
fn test_uncovered_input_is_stuck() {
    let builder: Builder = ReadersBuilder::new();
    let readers = builder.add(tagged("letter", 0, letter)).build();
    let mut input = "a1".chars().peekable_nth();
    let mut state = State::new();
    assert!(matches!(step(&readers, &mut input, &mut state), Step::Token(("letter", 'a'))));
    assert!(matches!(step(&readers, &mut input, &mut state), Step::Stuck));
    assert_eq!(state.index(), 1);

    let input: Box<dyn Input> = Box::new("".chars().peekable_nth());
    let mut tokens = TokenIter::new(&readers, input);
    assert!(matches!(tokens.step(), Step::Done));
}

#[test]
fn test_every_token_moves_the_position() {
    let builder: Builder = ReadersBuilder::new();
    let readers = builder.add(tagged("any", 0, any)).build();
    let mut input = "a#b##c".chars().peekable_nth();
    let mut state = State::new();
    let mut before = state.index();
    while let Some(item) = read(&readers, &mut input, &mut state) {
        assert!(item.is_ok());
        assert!(state.index() > before);
        before = state.index();
    }
    assert_eq!(state.index(), 6);
    assert!(input.is_done(&state));
}
