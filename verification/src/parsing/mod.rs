pub mod asp;
pub mod fol;
pub mod lexer;
pub mod round_trip;

use crate::convenience::text::chars_of;
use crate::parsing::lexer::skip_layout;
use vstd::prelude::*;

verus! {

/// Where the input could not be read.
#[derive(Debug, Clone, Copy, PartialEq, Eq)]
pub struct ParseError {
    pub position: usize,
}

/// Reads a whole text as a node of the syntax tree.
pub trait Parser {
    type Node;

    fn parse(input: &str) -> (r: Result<Self::Node, ParseError>);
}

/// The characters of `input` and the position past its leading layout.
pub fn start(input: &str) -> (r: (Vec<char>, usize))
    ensures
        r.0@ == input@,
        r.1 <= r.0@.len(),
        r.1 == crate::parsing::lexer::layout_end(input@, 0),
{
    let cs = chars_of(input);
    let p = skip_layout(&cs, 0);
    (cs, p)
}

/// The node read from `start` if it reaches the end of the text; an error at
/// the position where reading stopped otherwise.
pub fn finish<T>(read: Option<(T, usize)>, len: usize, start: usize) -> (r: Result<T, ParseError>)
    ensures
        r is Ok <==> (read matches Some((_, end)) && end == len),
        read matches Some((t, end)) ==> (end == len ==> r == Ok::<T, ParseError>(t)),
{
    match read {
        Some((t, end)) => {
            if end == len {
                Ok(t)
            } else {
                Err(ParseError { position: end })
            }
        },
        None => Err(ParseError { position: start }),
    }
}

} // verus!
