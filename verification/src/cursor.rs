//! The cursor: it walks the source text character by character, keeps the
//! line and column, and makes one token at a time.

use crate::class::{is_alpha, is_alphanumeric, is_digit, EOF_CHAR};
use crate::model::CursorView;
use crate::predicate::Predicate;
use crate::token::Token;
use vstd::prelude::*;
use vstd::string::StringExecFns;

verus! {

/// A position in a source text, with the text that lies after it.
pub struct Cursor<'a> {
    rest: &'a str,
    line: usize,
    column: usize,
    prev: char,
}

impl<'a> View for Cursor<'a> {
    type V = CursorView;

    closed spec fn view(&self) -> CursorView {
        CursorView {
            rest: self.rest@,
            line: self.line as nat,
            column: self.column as nat,
            prev: self.prev,
        }
    }
}

impl<'a> Cursor<'a> {
    /// Line and column stay within `usize` up to the end of the text: each
    /// character consumed adds at most one to either.
    #[verifier::type_invariant]
    spec fn in_bounds(self) -> bool {
        &&& 1 <= self.column
        &&& self.line + self.rest@.len() <= usize::MAX
        &&& self.column + self.rest@.len() <= usize::MAX
    }

    /// A cursor at the start of `input`: line 1, column 1.
    ///
    /// The column behind the last character of `input` must fit in a `usize`.
    pub fn new(input: &'a str) -> (cursor: Self)
        requires
            input@.len() < usize::MAX,
        ensures
            cursor@ == CursorView::start(input@),
    {
        Self { rest: input, line: 1, column: 1, prev: EOF_CHAR }
    }

    /// Consumes the next character and returns it, or returns `None` at the
    /// end of the text and changes nothing.
    pub fn next(&mut self) -> (next: Option<char>)
        ensures
            next == old(self)@.peek(),
            final(self)@ == old(self)@.advance(),
    {
        proof {
            use_type_invariant(&*self);
        }
        let mut chars = self.rest.chars();
        let next = chars.next();
        if let Some(c) = next {
            let rest = chars.as_str();
            if self.prev == '\n' {
                *self = Self { rest, line: self.line + 1, column: 2, prev: c };
            } else {
                *self = Self { rest, line: self.line, column: self.column + 1, prev: c };
            }
        }
        next
    }

    /// The next character, if there is one. Nothing is consumed.
    pub fn peek(&self) -> (next: Option<char>)
        ensures
            next == self@.peek(),
    {
        let mut chars = self.rest.chars();
        chars.next()
    }

    /// Consumes the next character if it is `expected`, and tells whether it
    /// did.
    pub fn next_matches(&mut self, expected: char) -> (matched: bool)
        ensures
            matched == old(self)@.at(expected),
            final(self)@ == if matched {
                old(self)@.advance()
            } else {
                old(self)@
            },
    {
        match self.peek() {
            Some(actual) => {
                if actual == expected {
                    self.next();
                    true
                } else {
                    false
                }
            },
            None => false,
        }
    }

    /// Makes the next token and consumes its characters. At the end of the
    /// text the token is `Eof`, and nothing changes.
    pub fn advance_token(&mut self) -> (token: Token)
        ensures
            (token@, final(self)@) == old(self)@.scan(),
    {
        match self.next() {
            Some(first_char) => {
                if first_char.is_whitespace() {
                    self.eat_while(Predicate::Whitespace);
                    Token::Whitespace
                } else {
                    match first_char {
                        '(' => Token::LeftParen,
                        ')' => Token::RightParen,
                        '{' => Token::LeftBrace,
                        '}' => Token::RightBrace,
                        ',' => Token::Comma,
                        '.' => Token::Dot,
                        '-' => Token::Minus,
                        '+' => Token::Plus,
                        ';' => Token::Semicolon,
                        '*' => Token::Star,
                        '!' => {
                            if self.next_matches('=') {
                                Token::BangEqual
                            } else {
                                Token::Bang
                            }
                        },
                        '=' => {
                            if self.next_matches('=') {
                                Token::EqualEqual
                            } else {
                                Token::Equal
                            }
                        },
                        '<' => {
                            if self.next_matches('=') {
                                Token::LessEqual
                            } else {
                                Token::Less
                            }
                        },
                        '>' => {
                            if self.next_matches('=') {
                                Token::GreaterEqual
                            } else {
                                Token::Greater
                            }
                        },
                        '/' => {
                            if self.next_matches('/') {
                                let comment = self.take_while(Predicate::NotNewline);
                                Token::Comment(comment)
                            } else {
                                Token::Slash
                            }
                        },
                        '"' => self.string(),
                        c => {
                            if Self::is_digit(c) {
                                self.number(c)
                            } else if Self::is_alpha(c) {
                                self.identifier(c)
                            } else {
                                Token::Unknown
                            }
                        },
                    }
                }
            },
            None => Token::Eof,
        }
    }

    /// Whether `c` is an ASCII decimal digit.
    pub fn is_digit(c: char) -> (digit: bool)
        ensures
            digit == is_digit(c),
    {
        '0' <= c && c <= '9'
    }

    /// Whether `c` can start a word: an ASCII letter or the underscore.
    pub fn is_alpha(c: char) -> (alpha: bool)
        ensures
            alpha == is_alpha(c),
    {
        ('a' <= c && c <= 'z') || ('A' <= c && c <= 'Z') || c == '_'
    }

    /// Whether `c` can continue a word: an ASCII letter, the underscore or an
    /// ASCII decimal digit.
    pub fn is_alphanumeric(c: char) -> (alphanumeric: bool)
        ensures
            alphanumeric == is_alphanumeric(c),
    {
        Self::is_alpha(c) || Self::is_digit(c)
    }

    /// Makes the token of a word whose first character, `first_char`, has
    /// been consumed: consumes the rest of the word and looks the whole word
    /// up among the reserved words.
    pub fn identifier(&mut self, first_char: char) -> (token: Token)
        ensures
            (token@, final(self)@) == old(self)@.identifier(first_char),
    {
        let run = self.take_while(Predicate::Alphanumeric);
        let mut ident = String::new();
        ident.push(first_char);
        ident.append(run.as_str());
        assert(ident@ =~= seq![first_char] + run@);
        let word = ident.as_str();
        if word.eq("and") {
            Token::And
        } else if word.eq("class") {
            Token::Class
        } else if word.eq("else") {
            Token::Else
        } else if word.eq("false") {
            Token::False
        } else if word.eq("for") {
            Token::For
        } else if word.eq("fun") {
            Token::Fun
        } else if word.eq("if") {
            Token::If
        } else if word.eq("nil") {
            Token::Nil
        } else if word.eq("or") {
            Token::Or
        } else if word.eq("print") {
            Token::Print
        } else if word.eq("return") {
            Token::Return
        } else if word.eq("super") {
            Token::Super
        } else if word.eq("this") {
            Token::This
        } else if word.eq("true") {
            Token::True
        } else if word.eq("var") {
            Token::Var
        } else if word.eq("while") {
            Token::While
        } else {
            Token::Ident(ident)
        }
    }

    /// Makes the token of a number literal whose first character,
    /// `first_char`, has been consumed: consumes the digits that follow, and
    /// one point among them.
    pub fn number(&mut self, first_char: char) -> (token: Token)
        ensures
            (token@, final(self)@) == old(self)@.number(first_char),
    {
        let run = self.take_while(Predicate::NumberPart { has_dot: false });
        let mut number = String::new();
        number.push(first_char);
        number.append(run.as_str());
        assert(number@ =~= seq![first_char] + run@);
        Token::Number(number)
    }

    /// Makes the token of a string literal whose opening quote has been
    /// consumed: consumes the body and the closing quote. Where the closing
    /// quote is missing, the token is `Unexpected` with the line and column
    /// reached.
    pub fn string(&mut self) -> (token: Token)
        ensures
            (token@, final(self)@) == old(self)@.string(),
    {
        let string = self.take_while(Predicate::StringPart { escaped: false });
        if self.next_matches('"') {
            Token::String(string)
        } else {
            Token::Unexpected { line: self.line, col: self.column }
        }
    }

    /// Consumes the longest run of characters that `predicate` takes, and
    /// returns the run.
    pub fn take_while(&mut self, predicate: Predicate) -> (run: String)
        ensures
            run@ == old(self)@.take_while(predicate),
            final(self)@ == old(self)@.skip_while(predicate),
    {
        let ghost start = self@;
        let mut current = predicate;
        let mut string = String::new();
        loop
            invariant
                start.take_while(predicate) == string@ + self@.take_while(current),
                start.skip_while(predicate) == self@.skip_while(current),
            ensures
                string@ == start.take_while(predicate),
                self@ == start.skip_while(predicate),
            decreases self@.rest.len(),
        {
            let second_char = match self.peek() {
                Some(c) => c,
                None => {
                    assert(string@ + Seq::<char>::empty() =~= string@);
                    break ;
                },
            };
            match current.test(second_char) {
                Some(following) => {
                    assert(string@ + (seq![second_char] + self@.advance().take_while(following))
                        =~= string@.push(second_char) + self@.advance().take_while(following));
                    string.push(second_char);
                    self.next();
                    current = following;
                },
                None => {
                    assert(string@ + Seq::<char>::empty() =~= string@);
                    break ;
                },
            }
        }
        string
    }

    /// Consumes the longest run of characters that `predicate` takes.
    pub fn eat_while(&mut self, predicate: Predicate)
        ensures
            final(self)@ == old(self)@.skip_while(predicate),
    {
        let ghost start = self@;
        let mut current = predicate;
        loop
            invariant
                start.skip_while(predicate) == self@.skip_while(current),
            ensures
                self@ == start.skip_while(predicate),
            decreases self@.rest.len(),
        {
            let second_char = match self.peek() {
                Some(c) => c,
                None => break ,
            };
            match current.test(second_char) {
                Some(following) => {
                    self.next();
                    current = following;
                },
                None => break ,
            }
        }
    }
}

} // verus!
