//! The tokens that the scanner hands out, and the reserved words.

use vstd::prelude::*;

verus! {

/// One lexeme of the source text, classified.
#[derive(Debug, PartialEq)]
pub enum Token {
    // Punctuation of one character
    LeftParen,
    RightParen,
    LeftBrace,
    RightBrace,
    Comma,
    Dot,
    Minus,
    Plus,
    Semicolon,
    Slash,
    Star,
    // Operators of one or two characters
    Bang,
    BangEqual,
    Equal,
    EqualEqual,
    Greater,
    GreaterEqual,
    Less,
    LessEqual,
    // Literals
    /// A word that is not reserved, with its text.
    Ident(String),
    /// A string literal, with what stands between its quotes. Backslashes are
    /// kept as written.
    String(String),
    /// A number literal, with its text: decimal digits with at most one
    /// point among them.
    Number(String),
    // Reserved words
    And,
    Class,
    Else,
    False,
    Fun,
    For,
    If,
    Nil,
    Or,
    Print,
    Super,
    Return,
    This,
    True,
    Var,
    While,
    /// The end of the input. The cursor reports it; the token stream ends
    /// there and never yields it.
    Eof,
    /// A character that starts no token.
    Unknown,
    /// A string literal whose closing quote is missing, with the line and
    /// column at which the closing quote was looked for.
    Unexpected { line: usize, col: usize },
    // Lexemes without meaning
    /// A comment, with the text between the two slashes and the end of the line.
    Comment(String),
    /// A run of whitespace.
    Whitespace,
}

/// What a [`Token`] stands for in specifications: the same variants, with
/// texts as sequences of characters and positions as natural numbers.
pub enum TokenView {
    LeftParen,
    RightParen,
    LeftBrace,
    RightBrace,
    Comma,
    Dot,
    Minus,
    Plus,
    Semicolon,
    Slash,
    Star,
    Bang,
    BangEqual,
    Equal,
    EqualEqual,
    Greater,
    GreaterEqual,
    Less,
    LessEqual,
    Ident(Seq<char>),
    String(Seq<char>),
    Number(Seq<char>),
    And,
    Class,
    Else,
    False,
    Fun,
    For,
    If,
    Nil,
    Or,
    Print,
    Super,
    Return,
    This,
    True,
    Var,
    While,
    Eof,
    Unknown,
    Unexpected { line: nat, col: nat },
    Comment(Seq<char>),
    Whitespace,
}

impl View for Token {
    type V = TokenView;

    open spec fn view(&self) -> TokenView {
        match *self {
            Token::LeftParen => TokenView::LeftParen,
            Token::RightParen => TokenView::RightParen,
            Token::LeftBrace => TokenView::LeftBrace,
            Token::RightBrace => TokenView::RightBrace,
            Token::Comma => TokenView::Comma,
            Token::Dot => TokenView::Dot,
            Token::Minus => TokenView::Minus,
            Token::Plus => TokenView::Plus,
            Token::Semicolon => TokenView::Semicolon,
            Token::Slash => TokenView::Slash,
            Token::Star => TokenView::Star,
            Token::Bang => TokenView::Bang,
            Token::BangEqual => TokenView::BangEqual,
            Token::Equal => TokenView::Equal,
            Token::EqualEqual => TokenView::EqualEqual,
            Token::Greater => TokenView::Greater,
            Token::GreaterEqual => TokenView::GreaterEqual,
            Token::Less => TokenView::Less,
            Token::LessEqual => TokenView::LessEqual,
            Token::Ident(text) => TokenView::Ident(text@),
            Token::String(text) => TokenView::String(text@),
            Token::Number(text) => TokenView::Number(text@),
            Token::And => TokenView::And,
            Token::Class => TokenView::Class,
            Token::Else => TokenView::Else,
            Token::False => TokenView::False,
            Token::Fun => TokenView::Fun,
            Token::For => TokenView::For,
            Token::If => TokenView::If,
            Token::Nil => TokenView::Nil,
            Token::Or => TokenView::Or,
            Token::Print => TokenView::Print,
            Token::Super => TokenView::Super,
            Token::Return => TokenView::Return,
            Token::This => TokenView::This,
            Token::True => TokenView::True,
            Token::Var => TokenView::Var,
            Token::While => TokenView::While,
            Token::Eof => TokenView::Eof,
            Token::Unknown => TokenView::Unknown,
            Token::Unexpected { line, col } => TokenView::Unexpected {
                line: line as nat,
                col: col as nat,
            },
            Token::Comment(text) => TokenView::Comment(text@),
            Token::Whitespace => TokenView::Whitespace,
        }
    }
}

/// The reserved word that `word` spells, if it spells one. Only the whole
/// word counts: a word that merely begins with a reserved word spells none.
pub open spec fn keyword(word: Seq<char>) -> Option<TokenView> {
    if word == "and"@ {
        Some(TokenView::And)
    } else if word == "class"@ {
        Some(TokenView::Class)
    } else if word == "else"@ {
        Some(TokenView::Else)
    } else if word == "false"@ {
        Some(TokenView::False)
    } else if word == "for"@ {
        Some(TokenView::For)
    } else if word == "fun"@ {
        Some(TokenView::Fun)
    } else if word == "if"@ {
        Some(TokenView::If)
    } else if word == "nil"@ {
        Some(TokenView::Nil)
    } else if word == "or"@ {
        Some(TokenView::Or)
    } else if word == "print"@ {
        Some(TokenView::Print)
    } else if word == "return"@ {
        Some(TokenView::Return)
    } else if word == "super"@ {
        Some(TokenView::Super)
    } else if word == "this"@ {
        Some(TokenView::This)
    } else if word == "true"@ {
        Some(TokenView::True)
    } else if word == "var"@ {
        Some(TokenView::Var)
    } else if word == "while"@ {
        Some(TokenView::While)
    } else {
        None
    }
}

/// The token that a whole word makes: its reserved word, or else an
/// identifier with the word as its text.
pub open spec fn word_token(word: Seq<char>) -> TokenView {
    match keyword(word) {
        Some(token) => token,
        None => TokenView::Ident(word),
    }
}

/// The token that one of the eleven punctuation marks makes by itself.
pub open spec fn punctuation_token(c: char) -> TokenView {
    if c == '(' {
        TokenView::LeftParen
    } else if c == ')' {
        TokenView::RightParen
    } else if c == '{' {
        TokenView::LeftBrace
    } else if c == '}' {
        TokenView::RightBrace
    } else if c == ',' {
        TokenView::Comma
    } else if c == '.' {
        TokenView::Dot
    } else if c == '-' {
        TokenView::Minus
    } else if c == '+' {
        TokenView::Plus
    } else if c == ';' {
        TokenView::Semicolon
    } else if c == '/' {
        TokenView::Slash
    } else {
        TokenView::Star
    }
}

/// The views of a sequence of tokens, one by one.
pub open spec fn views(tokens: Seq<Token>) -> Seq<TokenView> {
    tokens.map_values(|token: Token| token@)
}

} // verus!
