//! What holds of every scan, proved from the definitions in `model`.

use crate::class::{is_alpha, is_alphanumeric, is_digit, is_punctuation, is_white_space};
use crate::model::{tokens_of, CursorView};
use crate::predicate::{digits_and_point, quotes_escaped, Predicate};
use crate::token::{keyword, punctuation_token, word_token, TokenView};
use vstd::prelude::*;

verus! {

/// Whether no slash in `text` is followed at once by another: two slashes
/// start a comment.
pub open spec fn no_double_slash(text: Seq<char>) -> bool {
    forall|i: int| 0 <= i < text.len() - 1 ==> !(#[trigger] text[i] == '/' && text[i + 1] == '/')
}

/// Whether `c` starts an operator that an equal sign can follow.
pub open spec fn is_operator_start(c: char) -> bool {
    c == '!' || c == '=' || c == '<' || c == '>'
}

/// The operator that `c` makes alone.
pub open spec fn simple_operator(c: char) -> TokenView {
    if c == '!' {
        TokenView::Bang
    } else if c == '=' {
        TokenView::Equal
    } else if c == '<' {
        TokenView::Less
    } else {
        TokenView::Greater
    }
}

/// The operator that `c` makes with an equal sign behind it.
pub open spec fn compound_operator(c: char) -> TokenView {
    if c == '!' {
        TokenView::BangEqual
    } else if c == '=' {
        TokenView::EqualEqual
    } else if c == '<' {
        TokenView::LessEqual
    } else {
        TokenView::GreaterEqual
    }
}

/// Empty input has no tokens.
pub proof fn empty_input_has_no_tokens()
    ensures
        tokens_of(Seq::<char>::empty()) == Seq::<TokenView>::empty(),
{
}

/// Text that holds nothing but the eleven punctuation marks, and nowhere two
/// slashes in a row, makes one token for each mark, in the order of the
/// marks and with nothing between them.
pub proof fn punctuation_makes_one_token_each(cursor: CursorView)
    requires
        forall|i: int| 0 <= i < cursor.rest.len() ==> is_punctuation(#[trigger] cursor.rest[i]),
        no_double_slash(cursor.rest),
    ensures
        cursor.tokens() == cursor.rest.map_values(|c: char| punctuation_token(c)),
    decreases cursor.rest.len(),
{
    let marks = cursor.rest;
    let expected = marks.map_values(|c: char| punctuation_token(c));
    if marks.len() > 0 {
        let next = cursor.advance();
        assert(is_punctuation(marks[0]));
        assert forall|i: int| 0 <= i < next.rest.len() implies is_punctuation(
            #[trigger] next.rest[i],
        ) by {
            assert(next.rest[i] == marks[i + 1]);
        }
        assert(no_double_slash(next.rest)) by {
            assert forall|i: int| 0 <= i < next.rest.len() - 1 implies !(#[trigger] next.rest[i]
                == '/' && next.rest[i + 1] == '/') by {
                assert(next.rest[i] == marks[i + 1]);
                assert(next.rest[i + 1] == marks[i + 2]);
            }
        }
        if marks[0] == '/' && next.rest.len() > 0 {
            assert(next.rest[0] == marks[1]);
        }
        assert(cursor.scan() == (punctuation_token(marks[0]), next));
        punctuation_makes_one_token_each(next);
        assert(cursor.tokens() =~= expected) by {
            let rest = next.rest.map_values(|c: char| punctuation_token(c));
            assert forall|i: int| 0 <= i < expected.len() implies (seq![
                punctuation_token(marks[0]),
            ] + rest)[i] == expected[i] by {
                if i > 0 {
                    assert(next.rest[i - 1] == marks[i]);
                }
            }
        }
    } else {
        assert(cursor.tokens() =~= expected);
    }
}

/// After `!`, `=`, `<` or `>`, an equal sign that follows at once belongs to
/// the operator; anything else does not.
pub proof fn operator_looks_one_ahead(cursor: CursorView)
    requires
        cursor.rest.len() > 0,
        is_operator_start(cursor.rest[0]),
    ensures
        cursor.scan() == if cursor.rest.len() > 1 && cursor.rest[1] == '=' {
            (compound_operator(cursor.rest[0]), cursor.advance_by(2))
        } else {
            (simple_operator(cursor.rest[0]), cursor.advance_by(1))
        },
{
    let next = cursor.advance();
    reveal_with_fuel(CursorView::advance_by, 3);
    if cursor.rest.len() > 1 {
        assert(next.rest[0] == cursor.rest[1]);
    }
}

/// A word is one token, as long as it can be: it takes every letter, digit
/// and underscore up to the first character that is none, and the whole of
/// it is looked up among the reserved words.
pub proof fn word_is_one_token(cursor: CursorView, word: Seq<char>, tail: Seq<char>)
    requires
        cursor.rest == word + tail,
        word.len() > 0,
        is_alpha(word[0]),
        forall|i: int| 0 <= i < word.len() ==> is_alphanumeric(#[trigger] word[i]),
        tail.len() > 0 ==> !is_alphanumeric(tail[0]),
    ensures
        cursor.scan() == (word_token(word), cursor.advance_by(word.len())),
{
    let next = cursor.advance();
    let run = word.drop_first();
    assert(cursor.rest[0] == word[0]);
    assert(next.rest =~= run + tail);
    assert forall|i: int| 0 <= i < run.len() implies Predicate::Alphanumeric.admits(
        #[trigger] run[i],
    ) by {
        assert(run[i] == word[i + 1]);
    }
    Predicate::Alphanumeric.stateless_takes(run);
    next.run_is(Predicate::Alphanumeric, run, tail);
    assert(seq![word[0]] + run =~= word);
    cursor.advance_by_sum(1, run.len());
    reveal_with_fuel(CursorView::advance_by, 2);
}

/// A reserved word with more letters, digits or underscores behind it is no
/// reserved word.
pub proof fn keyword_is_whole_word(word: Seq<char>, more: Seq<char>)
    requires
        keyword(word) is Some,
        more.len() > 0,
    ensures
        keyword(word + more) is None,
{
    reveal_strlit("and");
    reveal_strlit("class");
    reveal_strlit("else");
    reveal_strlit("false");
    reveal_strlit("for");
    reveal_strlit("fun");
    reveal_strlit("if");
    reveal_strlit("nil");
    reveal_strlit("or");
    reveal_strlit("print");
    reveal_strlit("return");
    reveal_strlit("super");
    reveal_strlit("this");
    reveal_strlit("true");
    reveal_strlit("var");
    reveal_strlit("while");
    let longer = word + more;
    assert(longer.len() > word.len());
    assert(forall|i: int| 0 <= i < word.len() ==> longer[i] == word[i]);
    if keyword(longer) is Some {
        assert(longer[0] == word[0]);
        assert(longer[1] == word[1]);
        assert(false);
    }
}

/// A number literal is as long as it can be: it takes digits and one point
/// among them, up to the first character that is neither, or to a second
/// point.
pub proof fn number_is_one_token(cursor: CursorView, number: Seq<char>, tail: Seq<char>)
    requires
        cursor.rest == number + tail,
        number.len() > 0,
        is_digit(number[0]),
        digits_and_point(false, number),
        tail.len() > 0 ==> !is_digit(tail[0]) && (tail[0] == '.' ==> number.contains('.')),
    ensures
        cursor.scan() == (TokenView::Number(number), cursor.advance_by(number.len())),
{
    let next = cursor.advance();
    let run = number.drop_first();
    let start = Predicate::NumberPart { has_dot: false };
    assert(cursor.rest[0] == number[0]);
    assert(next.rest =~= run + tail);
    assert(digits_and_point(false, run)) by {
        assert forall|i: int| 0 <= i < run.len() implies is_digit(#[trigger] run[i]) || run[i]
            == '.' by {
            assert(run[i] == number[i + 1]);
        }
        assert forall|i: int, j: int| 0 <= i < j < run.len() implies !(#[trigger] run[i] == '.'
            && #[trigger] run[j] == '.') by {
            assert(run[i] == number[i + 1]);
            assert(run[j] == number[j + 1]);
        }
    }
    Predicate::number_part_takes(false, run);
    if tail.len() > 0 && tail[0] == '.' {
        let i = choose|i: int| 0 <= i < number.len() && number[i] == '.';
        assert(run[i - 1] == '.');
        assert(run.contains('.'));
    }
    next.run_is(start, run, tail);
    assert(seq![number[0]] + run =~= number);
    cursor.advance_by_sum(1, run.len());
    reveal_with_fuel(CursorView::advance_by, 2);
}

/// The text of every number token starts with a digit and holds digits and at
/// most one point.
pub proof fn number_has_one_point(cursor: CursorView)
    requires
        cursor.scan().0 is Number,
    ensures
        cursor.scan().0->Number_0.len() > 0,
        is_digit(cursor.scan().0->Number_0[0]),
        digits_and_point(false, cursor.scan().0->Number_0),
{
    let next = cursor.advance();
    let start = Predicate::NumberPart { has_dot: false };
    let run = next.take_while(start);
    let text = seq![cursor.rest[0]] + run;
    assert(cursor.scan().0 == TokenView::Number(text));
    next.run_is_longest(start);
    Predicate::number_part_takes(false, run);
    assert forall|i: int| 0 <= i < text.len() implies is_digit(#[trigger] text[i]) || text[i]
        == '.' by {
        if i > 0 {
            assert(text[i] == run[i - 1]);
        }
    }
    assert forall|i: int, j: int| 0 <= i < j < text.len() implies !(#[trigger] text[i] == '.'
        && #[trigger] text[j] == '.') by {
        assert(text[j] == run[j - 1]);
        if i > 0 {
            assert(text[i] == run[i - 1]);
        }
    }
}

/// A string literal whose body has a backslash before each of its double
/// quotes, and none at its end, comes out as it went in: the token holds the
/// body as written, backslashes included.
pub proof fn string_keeps_its_body(cursor: CursorView, body: Seq<char>, tail: Seq<char>)
    requires
        cursor.rest == seq!['"'] + body + seq!['"'] + tail,
        quotes_escaped(false, body),
        body.len() > 0 ==> body.last() != '\\',
    ensures
        cursor.scan() == (TokenView::String(body), cursor.advance_by(body.len() + 2)),
{
    let next = cursor.advance();
    let start = Predicate::StringPart { escaped: false };
    let after = seq!['"'] + tail;
    assert(cursor.rest[0] == '"');
    assert(next.rest =~= body + after);
    Predicate::string_part_takes(false, body);
    next.run_is(start, body, after);
    cursor.advance_by_sum(1, body.len());
    cursor.advance_by_sum(1 + body.len(), 1);
    reveal_with_fuel(CursorView::advance_by, 2);
}

/// A string literal that the input ends in, with no closing quote, makes
/// one token and no more: `Unexpected`, with the line and column reached at
/// the end of the input.
pub proof fn string_without_end_is_unexpected(cursor: CursorView, body: Seq<char>)
    requires
        cursor.rest == seq!['"'] + body,
        quotes_escaped(false, body),
    ensures
        cursor.tokens() == seq![
            TokenView::Unexpected {
                line: cursor.advance_by(body.len() + 1).line,
                col: cursor.advance_by(body.len() + 1).column,
            },
        ],
        cursor.advance_by(body.len() + 1).rest.len() == 0,
{
    let next = cursor.advance();
    let start = Predicate::StringPart { escaped: false };
    let nothing = Seq::<char>::empty();
    assert(cursor.rest[0] == '"');
    assert(next.rest =~= body + nothing);
    Predicate::string_part_takes(false, body);
    next.run_is(start, body, nothing);
    cursor.advance_by_sum(1, body.len());
    reveal_with_fuel(CursorView::advance_by, 2);
    let end = cursor.advance_by(body.len() + 1);
    assert(cursor.scan() == (TokenView::Unexpected { line: end.line, col: end.column }, end));
    assert(end.tokens() =~= Seq::<TokenView>::empty());
    assert(cursor.tokens() =~= seq![cursor.scan().0]);
}

/// An `Unexpected` token comes only where the input has ended: no token
/// follows it.
pub proof fn unexpected_is_last(cursor: CursorView)
    requires
        cursor.scan().0 is Unexpected,
    ensures
        cursor.scan().1.rest.len() == 0,
        cursor.scan().1.tokens() == Seq::<TokenView>::empty(),
{
    let next = cursor.advance();
    let start = Predicate::StringPart { escaped: false };
    next.run_is_longest(start);
    Predicate::string_part_takes(false, next.take_while(start));
}

/// A comment goes from behind its two slashes up to the end of the line, and
/// leaves the newline to the next token.
pub proof fn comment_ends_before_newline(cursor: CursorView, body: Seq<char>, tail: Seq<char>)
    requires
        cursor.rest == seq!['/', '/'] + body + tail,
        forall|i: int| 0 <= i < body.len() ==> #[trigger] body[i] != '\n',
        tail.len() > 0 ==> tail[0] == '\n',
    ensures
        cursor.scan() == (TokenView::Comment(body), cursor.advance_by(body.len() + 2)),
        cursor.scan().1.rest == tail,
{
    let next = cursor.advance();
    let inside = next.advance();
    assert(cursor.rest[0] == '/');
    assert(cursor.rest[1] == '/');
    assert(next.rest[0] == cursor.rest[1]);
    assert(inside.rest =~= body + tail);
    Predicate::NotNewline.stateless_takes(body);
    inside.run_is(Predicate::NotNewline, body, tail);
    cursor.advance_by_sum(2, body.len());
    reveal_with_fuel(CursorView::advance_by, 3);
}

/// A run of whitespace is one token, as long as it can be, whatever mixture
/// of spaces, tabs and newlines it holds.
pub proof fn whitespace_is_one_token(cursor: CursorView, blank: Seq<char>, tail: Seq<char>)
    requires
        cursor.rest == blank + tail,
        blank.len() > 0,
        forall|i: int| 0 <= i < blank.len() ==> is_white_space(#[trigger] blank[i]),
        tail.len() > 0 ==> !is_white_space(tail[0]),
    ensures
        cursor.scan() == (TokenView::Whitespace, cursor.advance_by(blank.len())),
        cursor.scan().1.rest == tail,
{
    let next = cursor.advance();
    let run = blank.drop_first();
    assert(cursor.rest[0] == blank[0]);
    assert(next.rest =~= run + tail);
    assert forall|i: int| 0 <= i < run.len() implies Predicate::Whitespace.admits(
        #[trigger] run[i],
    ) by {
        assert(run[i] == blank[i + 1]);
    }
    Predicate::Whitespace.stateless_takes(run);
    next.run_is(Predicate::Whitespace, run, tail);
    cursor.advance_by_sum(1, run.len());
    reveal_with_fuel(CursorView::advance_by, 2);
}

/// The line on which the character after `text` stands, lines counted from 1:
/// one more than the newlines in `text`.
pub open spec fn line_after(text: Seq<char>) -> nat
    decreases text.len(),
{
    if text.len() == 0 {
        1
    } else if text.last() == '\n' {
        line_after(text.drop_last()) + 1
    } else {
        line_after(text.drop_last())
    }
}

/// The column in which the character after `text` stands, columns counted
/// from 1: one more than the characters of `text` behind its last newline.
pub open spec fn column_after(text: Seq<char>) -> nat
    decreases text.len(),
{
    if text.len() == 0 || text.last() == '\n' {
        1
    } else {
        column_after(text.drop_last()) + 1
    }
}

/// Once a scan from the start of `input` has consumed `n` characters, and the
/// last of them is no newline, its line and column are those of the next
/// character: each newline consumed has added one to the line and set the
/// column back to 1, and each character behind it has added one to the
/// column. Once the last character consumed is a newline, line and column
/// are still those of the place behind that newline on its own line; the new
/// line begins with the next character consumed.
pub proof fn position_counts_lines_and_columns(input: Seq<char>, n: nat)
    requires
        n <= input.len(),
    ensures
        ({
            let cursor = CursorView::start(input).advance_by(n);
            let read = input.take(n as int);
            &&& cursor.rest == input.skip(n as int)
            &&& n > 0 ==> cursor.prev == read.last()
            &&& n == 0 || read.last() != '\n' ==> cursor.line == line_after(read) && cursor.column
                == column_after(read)
            &&& n > 0 && read.last() == '\n' ==> cursor.line == line_after(read.drop_last())
                && cursor.column == column_after(read.drop_last()) + 1
        }),
    decreases n,
{
    let start = CursorView::start(input);
    start.advance_by_rest(n);
    if n > 0 {
        let m = (n - 1) as nat;
        let before = start.advance_by(m);
        position_counts_lines_and_columns(input, m);
        start.advance_by_sum(m, 1);
        reveal_with_fuel(CursorView::advance_by, 2);
        let cursor = start.advance_by(n);
        assert(cursor == before.advance());
        let read = input.take(n as int);
        let earlier = input.take(m as int);
        assert(read.drop_last() =~= earlier);
        assert(before.rest.len() > 0);
        assert(before.rest[0] == input[m as int]);
        assert(read.last() == input[m as int]);
        if m == 0 {
            assert(before == start);
            assert(earlier.len() == 0);
        }
        assert(cursor.line == line_after(earlier) && cursor.column == column_after(earlier) + 1) by {
            if before.prev == '\n' {
                assert(m > 0 && earlier.last() == '\n');
            }
        }
    } else {
        assert(input.take(0).len() == 0);
    }
}

/// The position that an unterminated string literal reports is that of the
/// end of the input, where the input is that literal and does not end in a
/// newline.
pub proof fn unexpected_reports_the_end(body: Seq<char>)
    requires
        quotes_escaped(false, body),
        body.len() > 0 ==> body.last() != '\n',
    ensures
        tokens_of(seq!['"'] + body) == seq![
            TokenView::Unexpected {
                line: line_after(seq!['"'] + body),
                col: column_after(seq!['"'] + body),
            },
        ],
{
    let input = seq!['"'] + body;
    string_without_end_is_unexpected(CursorView::start(input), body);
    position_counts_lines_and_columns(input, input.len());
    assert(input.take(input.len() as int) =~= input);
    assert(input.last() != '\n');
}

} // verus!
