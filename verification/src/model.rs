//! What the cursor does, as mathematics: the state of a scan and the functions
//! that take one state to the next.

use crate::class::{is_alpha, is_digit, is_white_space, EOF_CHAR};
use crate::predicate::Predicate;
use crate::token::{word_token, TokenView};
use vstd::prelude::*;

verus! {

/// The state of a scan.
pub struct CursorView {
    /// The characters that have not been consumed yet.
    pub rest: Seq<char>,
    /// The line of the character consumed last, counted from 1.
    pub line: nat,
    /// One more than the column of the character consumed last, columns
    /// counted from 1: the column of the next character, unless the character
    /// consumed last ended the line.
    pub column: nat,
    /// The character consumed last, or `EOF_CHAR` at the start.
    pub prev: char,
}

impl CursorView {
    /// The state before anything of `input` has been consumed.
    pub open spec fn start(input: Seq<char>) -> CursorView {
        CursorView { rest: input, line: 1, column: 1, prev: EOF_CHAR }
    }

    /// The next character, if there is one.
    pub open spec fn peek(self) -> Option<char> {
        if self.rest.len() > 0 {
            Some(self.rest[0])
        } else {
            None
        }
    }

    /// Whether the next character is `c`.
    pub open spec fn at(self, c: char) -> bool {
        self.peek() == Some(c)
    }

    /// Whether there is a next character and `predicate` admits it.
    pub open spec fn at_admitted(self, predicate: Predicate) -> bool {
        self.rest.len() > 0 && predicate.admits(self.rest[0])
    }

    /// The state once the next character has been consumed. Where the
    /// character consumed before it was a newline, it is the first of a new
    /// line. At the end of the input nothing changes.
    pub open spec fn advance(self) -> CursorView {
        if self.rest.len() == 0 {
            self
        } else if self.prev == '\n' {
            CursorView {
                rest: self.rest.drop_first(),
                line: self.line + 1,
                column: 2,
                prev: self.rest[0],
            }
        } else {
            CursorView {
                rest: self.rest.drop_first(),
                line: self.line,
                column: self.column + 1,
                prev: self.rest[0],
            }
        }
    }

    /// The state once the next `n` characters have been consumed.
    pub open spec fn advance_by(self, n: nat) -> CursorView
        decreases n,
    {
        if n == 0 {
            self
        } else {
            self.advance().advance_by((n - 1) as nat)
        }
    }

    /// The longest run of characters from here on that `predicate` takes.
    pub open spec fn take_while(self, predicate: Predicate) -> Seq<char>
        decreases self.rest.len(),
    {
        if self.rest.len() > 0 && predicate.admits(self.rest[0]) {
            seq![self.rest[0]] + self.advance().take_while(predicate.after(self.rest[0]))
        } else {
            Seq::empty()
        }
    }

    /// The state once the run of `take_while` has been consumed.
    pub open spec fn skip_while(self, predicate: Predicate) -> CursorView
        decreases self.rest.len(),
    {
        if self.rest.len() > 0 && predicate.admits(self.rest[0]) {
            self.advance().skip_while(predicate.after(self.rest[0]))
        } else {
            self
        }
    }

    /// An operator of one or two characters, its first character consumed:
    /// `two` with the second character consumed where that is `second`, else
    /// `one`.
    pub open spec fn operator(self, second: char, two: TokenView, one: TokenView) -> (
        TokenView,
        CursorView,
    ) {
        if self.at(second) {
            (two, self.advance())
        } else {
            (one, self)
        }
    }

    /// A comment, its two slashes consumed: it goes up to the end of the line
    /// and leaves the newline unconsumed.
    pub open spec fn comment(self) -> (TokenView, CursorView) {
        (
            TokenView::Comment(self.take_while(Predicate::NotNewline)),
            self.skip_while(Predicate::NotNewline),
        )
    }

    /// A string literal, its opening quote consumed. The body goes up to the
    /// first double quote that no backslash stands before. Where the input
    /// ends before such a quote, the token holds the line and column of the
    /// state reached.
    pub open spec fn string(self) -> (TokenView, CursorView) {
        let body = self.take_while(Predicate::StringPart { escaped: false });
        let end = self.skip_while(Predicate::StringPart { escaped: false });
        if end.at('"') {
            (TokenView::String(body), end.advance())
        } else {
            (TokenView::Unexpected { line: end.line, col: end.column }, end)
        }
    }

    /// A number literal, its first character `first` consumed.
    pub open spec fn number(self, first: char) -> (TokenView, CursorView) {
        (
            TokenView::Number(
                seq![first] + self.take_while(Predicate::NumberPart { has_dot: false }),
            ),
            self.skip_while(Predicate::NumberPart { has_dot: false }),
        )
    }

    /// A word, its first character `first` consumed.
    pub open spec fn identifier(self, first: char) -> (TokenView, CursorView) {
        (
            word_token(seq![first] + self.take_while(Predicate::Alphanumeric)),
            self.skip_while(Predicate::Alphanumeric),
        )
    }

    /// The next token and the state once it has been consumed. At the end of
    /// the input the token is `Eof` and the state stays.
    pub open spec fn scan(self) -> (TokenView, CursorView) {
        if self.rest.len() == 0 {
            (TokenView::Eof, self)
        } else {
            let first = self.rest[0];
            let next = self.advance();
            if is_white_space(first) {
                (TokenView::Whitespace, next.skip_while(Predicate::Whitespace))
            } else if first == '(' {
                (TokenView::LeftParen, next)
            } else if first == ')' {
                (TokenView::RightParen, next)
            } else if first == '{' {
                (TokenView::LeftBrace, next)
            } else if first == '}' {
                (TokenView::RightBrace, next)
            } else if first == ',' {
                (TokenView::Comma, next)
            } else if first == '.' {
                (TokenView::Dot, next)
            } else if first == '-' {
                (TokenView::Minus, next)
            } else if first == '+' {
                (TokenView::Plus, next)
            } else if first == ';' {
                (TokenView::Semicolon, next)
            } else if first == '*' {
                (TokenView::Star, next)
            } else if first == '!' {
                next.operator('=', TokenView::BangEqual, TokenView::Bang)
            } else if first == '=' {
                next.operator('=', TokenView::EqualEqual, TokenView::Equal)
            } else if first == '<' {
                next.operator('=', TokenView::LessEqual, TokenView::Less)
            } else if first == '>' {
                next.operator('=', TokenView::GreaterEqual, TokenView::Greater)
            } else if first == '/' {
                if next.at('/') {
                    next.advance().comment()
                } else {
                    (TokenView::Slash, next)
                }
            } else if first == '"' {
                next.string()
            } else if is_digit(first) {
                next.number(first)
            } else if is_alpha(first) {
                next.identifier(first)
            } else {
                (TokenView::Unknown, next)
            }
        }
    }

    /// The tokens of the input from here on, in order, up to its end.
    pub open spec fn tokens(self) -> Seq<TokenView>
        decreases self.rest.len(),
    {
        if self.rest.len() == 0 {
            Seq::empty()
        } else {
            proof {
                self.scan_consumes();
            }
            seq![self.scan().0] + self.scan().1.tokens()
        }
    }

    /// Consuming `n` characters drops the first `n` of those that were left.
    pub proof fn advance_by_rest(self, n: nat)
        requires
            n <= self.rest.len(),
        ensures
            self.advance_by(n).rest == self.rest.skip(n as int),
        decreases n,
    {
        if n == 0 {
            assert(self.rest.skip(0) =~= self.rest);
        } else {
            self.advance().advance_by_rest((n - 1) as nat);
            assert(self.rest.drop_first().skip(n - 1) =~= self.rest.skip(n as int));
        }
    }

    /// Consuming `a` characters and then `b` is consuming `a + b`.
    pub proof fn advance_by_sum(self, a: nat, b: nat)
        ensures
            self.advance_by(a).advance_by(b) == self.advance_by(a + b),
        decreases a,
    {
        if a > 0 {
            self.advance().advance_by_sum((a - 1) as nat, b);
        }
    }

    /// Skipping a run is consuming as many characters as the run has.
    pub proof fn skip_while_advances(self, predicate: Predicate)
        ensures
            self.skip_while(predicate) == self.advance_by(self.take_while(predicate).len()),
        decreases self.rest.len(),
    {
        if self.rest.len() > 0 && predicate.admits(self.rest[0]) {
            self.advance().skip_while_advances(predicate.after(self.rest[0]));
        }
    }

    /// A run is a prefix of what was there, and skipping it leaves the rest.
    pub proof fn run_splits(self, predicate: Predicate)
        ensures
            self.rest == self.take_while(predicate) + self.skip_while(predicate).rest,
        decreases self.rest.len(),
    {
        if self.rest.len() > 0 && predicate.admits(self.rest[0]) {
            let next = self.advance();
            let after = predicate.after(self.rest[0]);
            next.run_splits(after);
            assert(self.rest =~= seq![self.rest[0]] + next.rest);
            assert(self.rest =~= (seq![self.rest[0]] + next.take_while(after)) + next.skip_while(
                after,
            ).rest);
        } else {
            assert(self.rest =~= Seq::<char>::empty() + self.rest);
        }
    }

    /// The run that `take_while` gives is one that `predicate` takes, and
    /// the longest: `predicate` does not take the character after it.
    pub proof fn run_is_longest(self, predicate: Predicate)
        ensures
            predicate.takes(self.take_while(predicate)),
            !self.skip_while(predicate).at_admitted(
                predicate.through(self.take_while(predicate)),
            ),
        decreases self.rest.len(),
    {
        if self.rest.len() > 0 && predicate.admits(self.rest[0]) {
            let next = self.advance();
            let after = predicate.after(self.rest[0]);
            next.run_is_longest(after);
            let run = self.take_while(predicate);
            assert(run.drop_first() =~= next.take_while(after));
        }
    }

    /// Where what is left is `run` and then `tail`, `predicate` takes `run`
    /// and does not take the first character of `tail`, the run taken is
    /// `run`, and `tail` is left.
    pub proof fn run_is(self, predicate: Predicate, run: Seq<char>, tail: Seq<char>)
        requires
            self.rest == run + tail,
            predicate.takes(run),
            tail.len() > 0 ==> !predicate.through(run).admits(tail[0]),
        ensures
            self.take_while(predicate) == run,
            self.skip_while(predicate) == self.advance_by(run.len()),
            self.skip_while(predicate).rest == tail,
        decreases run.len(),
    {
        self.skip_while_advances(predicate);
        if run.len() > 0 {
            let next = self.advance();
            assert(self.rest[0] == run[0]);
            assert(next.rest =~= run.drop_first() + tail);
            next.run_is(predicate.after(run[0]), run.drop_first(), tail);
            assert(seq![run[0]] + run.drop_first() =~= run);
        } else {
            assert(self.rest =~= tail);
        }
    }

    /// A token that is not `Eof` consumes at least one character.
    pub proof fn scan_consumes(self)
        requires
            self.rest.len() > 0,
        ensures
            self.scan().1.rest.len() < self.rest.len(),
            self.scan().0 != TokenView::Eof,
    {
        let next = self.advance();
        next.run_splits(Predicate::Whitespace);
        next.run_splits(Predicate::StringPart { escaped: false });
        next.run_splits(Predicate::NumberPart { has_dot: false });
        next.run_splits(Predicate::Alphanumeric);
        next.advance().run_splits(Predicate::NotNewline);
    }
}

/// The tokens of `input`, in order: what a scan from its start to its end
/// makes of it.
pub open spec fn tokens_of(input: Seq<char>) -> Seq<TokenView> {
    CursorView::start(input).tokens()
}

} // verus!
