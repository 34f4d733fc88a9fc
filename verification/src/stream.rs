//! The token stream: the tokens of a source text, handed out one by one.

use crate::cursor::Cursor;
use crate::model::tokens_of;
use crate::token::{views, Token, TokenView};
use vstd::prelude::*;
use vstd::string::StringSliceAdditionalSpecFns;
use vstd::utf8::encode_utf8;

verus! {

/// The tokens of a source text that have not been handed out yet. The stream
/// goes forward only, and keeps no more of the text in memory than the token
/// it is making.
pub struct Tokens<'a> {
    cursor: Cursor<'a>,
}

impl<'a> View for Tokens<'a> {
    type V = Seq<TokenView>;

    /// The tokens still to come, in order.
    closed spec fn view(&self) -> Seq<TokenView> {
        self.cursor@.tokens()
    }
}

impl<'a> Tokens<'a> {
    /// Hands out the next token, or `None` once the text is exhausted, and
    /// from then on. `Eof` is never handed out.
    pub fn next(&mut self) -> (next: Option<Token>)
        ensures
            old(self)@.len() == 0 ==> next is None && final(self)@ == old(self)@,
            old(self)@.len() > 0 ==> next is Some && next->0@ == old(self)@[0] && final(self)@
                == old(self)@.drop_first(),
            next is Some ==> next->0@ != TokenView::Eof,
    {
        proof {
            if self.cursor@.rest.len() > 0 {
                self.cursor@.scan_consumes();
                assert(self.cursor@.tokens().drop_first() =~= self.cursor@.scan().1.tokens());
            }
        }
        let token = self.cursor.advance_token();
        match token {
            Token::Eof => None,
            _ => Some(token),
        }
    }

    /// Hands out all the tokens that are left, in order.
    pub fn collect(self) -> (tokens: Vec<Token>)
        ensures
            views(tokens@) == self@,
    {
        let ghost all = self@;
        let mut stream = self;
        let mut tokens: Vec<Token> = Vec::new();
        loop
            invariant
                all == views(tokens@) + stream@,
            ensures
                all == views(tokens@),
            decreases stream@.len(),
        {
            match stream.next() {
                Some(token) => {
                    assert(views(tokens@.push(token)) + stream@ =~= all);
                    tokens.push(token);
                },
                None => {
                    assert(views(tokens@) + stream@ =~= views(tokens@));
                    break ;
                },
            }
        }
        tokens
    }
}

/// The tokens of `input`, as a stream that makes each token when it is asked
/// for. Whitespace and comments are tokens too. Malformed text makes
/// `Unknown` and `Unexpected` tokens; nothing fails.
///
/// The column behind the last character of `input` must fit in a `usize`.
pub fn tokenize(input: &str) -> (tokens: Tokens<'_>)
    requires
        input@.len() < usize::MAX,
    ensures
        tokens@ == tokens_of(input@),
{
    Tokens { cursor: Cursor::new(input) }
}

/// The tokens of `input` as `tokenize` gives them, or `None` where `input`
/// takes up so many bytes that the column behind its last character might
/// not fit in a `usize`.
pub fn try_tokenize(input: &str) -> (tokens: Option<Tokens<'_>>)
    ensures
        tokens is Some <==> input.spec_bytes().len() < usize::MAX,
        tokens is Some ==> tokens->0@ == tokens_of(input@),
{
    if input.as_bytes().len() < usize::MAX {
        proof {
            text_fits_in_its_bytes(input@);
        }
        Some(tokenize(input))
    } else {
        None
    }
}

/// A text has no more characters than its UTF-8 encoding has bytes.
pub proof fn text_fits_in_its_bytes(text: Seq<char>)
    ensures
        text.len() <= encode_utf8(text).len(),
    decreases text.len(),
{
    if text.len() > 0 {
        text_fits_in_its_bytes(text.drop_first());
    }
}

} // verus!
