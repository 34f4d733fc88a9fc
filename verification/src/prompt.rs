//! The decisions of a program that shows the tokens of a script or of the
//! lines typed at a prompt. Reading and printing are the program's own.

use crate::token::{Token, TokenView};
use vstd::prelude::*;

verus! {

/// What the prompt does with a line that it has read.
#[derive(Clone, Copy, Debug, PartialEq, Eq)]
pub enum Action {
    /// Scan the line and show its tokens, then ask for the next line.
    Scan,
    /// Leave the prompt.
    Quit,
}

/// Decides on a line read at the prompt, `bytes` being the number of bytes
/// that reading it brought. The prompt ends at the end of its input, where
/// reading brings nothing, and on the line `q!`.
pub fn action(line: &str, bytes: usize) -> (action: Action)
    ensures
        action == if line@ == "q!\n"@ || bytes == 0 {
            Action::Quit
        } else {
            Action::Scan
        },
{
    if line.eq("q!\n") || bytes == 0 {
        Action::Quit
    } else {
        Action::Scan
    }
}

/// Whether the program shows `token`: it shows every token but whitespace.
pub fn is_shown(token: &Token) -> (shown: bool)
    ensures
        shown == (token@ != TokenView::Whitespace),
{
    match token {
        Token::Whitespace => false,
        _ => true,
    }
}

} // verus!
