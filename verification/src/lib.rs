//! A tokenization engine: a prioritized set of readers is tried at each
//! position of a character source, and the outcomes become a sequence of
//! tokens.

pub mod chars;
pub mod input;
pub mod kind;
pub mod line;
pub mod lines;
pub mod next;
pub mod order;
pub mod read;
pub mod reader;
pub mod reader_result;
pub mod readers;
pub mod readers_builder;
pub mod state;
pub mod text;
pub mod token;
pub mod token_error;
pub mod token_iter;
pub mod token_meta;

pub use chars::Chars;
pub use input::Input;
pub use kind::Kind;
pub use line::Line;
pub use lines::Lines;
pub use next::next;
pub use read::{dispatch, read, step, Step};
pub use reader::{Outcome, Reader};
pub use reader_result::ReaderResult;
pub use order::Entry;
pub use readers::{Readers, Reading};
pub use readers_builder::ReadersBuilder;
pub use state::{Position, State};
pub use text::Text;
pub use token::Token;
pub use token_error::TokenError;
pub use token_iter::TokenIter;
pub use token_meta::{Span, TokenMeta};
