//! The tests by which the cursor decides how far a run of characters goes.

use crate::class::{is_alphanumeric, is_digit, is_white_space};
use crate::cursor::Cursor;
use vstd::prelude::*;

verus! {

/// A test on the next character of a run. Two of the tests remember one fact
/// about the characters that the run has taken so far.
#[derive(Clone, Copy, Debug, PartialEq, Eq)]
pub enum Predicate {
    /// Takes whitespace.
    Whitespace,
    /// Takes everything up to the end of the line.
    NotNewline,
    /// Takes ASCII letters, ASCII digits and the underscore.
    Alphanumeric,
    /// Takes ASCII digits, and one point unless the run has taken one.
    NumberPart { has_dot: bool },
    /// Takes everything but a double quote, and a double quote too where the
    /// character before it was a backslash.
    StringPart { escaped: bool },
}

impl Predicate {
    /// Whether a run in this state goes on with `c`.
    pub open spec fn admits(self, c: char) -> bool {
        match self {
            Predicate::Whitespace => is_white_space(c),
            Predicate::NotNewline => c != '\n',
            Predicate::Alphanumeric => is_alphanumeric(c),
            Predicate::NumberPart { has_dot } => is_digit(c) || (c == '.' && !has_dot),
            Predicate::StringPart { escaped } => escaped || c != '"',
        }
    }

    /// The state of the run once it has taken `c`.
    pub open spec fn after(self, c: char) -> Predicate {
        match self {
            Predicate::NumberPart { has_dot } => Predicate::NumberPart {
                has_dot: has_dot || c == '.',
            },
            Predicate::StringPart { escaped } => Predicate::StringPart { escaped: c == '\\' },
            _ => self,
        }
    }

    /// Whether a run in this state takes all of `run`, character by
    /// character.
    pub open spec fn takes(self, run: Seq<char>) -> bool
        decreases run.len(),
    {
        run.len() > 0 ==> self.admits(run[0]) && self.after(run[0]).takes(run.drop_first())
    }

    /// The state of the run once it has taken all of `run`.
    pub open spec fn through(self, run: Seq<char>) -> Predicate
        decreases run.len(),
    {
        if run.len() > 0 {
            self.after(run[0]).through(run.drop_first())
        } else {
            self
        }
    }

    /// Whether the test remembers nothing: its answer is the same wherever
    /// in a run it is asked.
    pub open spec fn stateless(self) -> bool {
        self == Predicate::Whitespace || self == Predicate::NotNewline || self
            == Predicate::Alphanumeric
    }

    /// Tests `c`: the state with which the run goes on, or `None` where the
    /// run ends before `c`.
    pub fn test(self, c: char) -> (next: Option<Predicate>)
        ensures
            next == if self.admits(c) {
                Some(self.after(c))
            } else {
                None
            },
    {
        match self {
            Predicate::Whitespace => if c.is_whitespace() {
                Some(self)
            } else {
                None
            },
            Predicate::NotNewline => if c != '\n' {
                Some(self)
            } else {
                None
            },
            Predicate::Alphanumeric => if Cursor::is_alphanumeric(c) {
                Some(self)
            } else {
                None
            },
            Predicate::NumberPart { has_dot } => if Cursor::is_digit(c) {
                Some(self)
            } else if c == '.' && !has_dot {
                Some(Predicate::NumberPart { has_dot: true })
            } else {
                None
            },
            Predicate::StringPart { escaped } => if escaped || c != '"' {
                Some(Predicate::StringPart { escaped: c == '\\' })
            } else {
                None
            },
        }
    }
}

/// Whether every double quote in `run` stands behind a backslash; for a
/// double quote at the very front, `escaped` says whether it does.
pub open spec fn quotes_escaped(escaped: bool, run: Seq<char>) -> bool {
    forall|i: int|
        0 <= i < run.len() && #[trigger] run[i] == '"' ==> if i == 0 {
            escaped
        } else {
            run[i - 1] == '\\'
        }
}

/// Whether `run` holds nothing but ASCII digits and points, and at most one
/// point; no point at all where `has_dot` says that one went before.
pub open spec fn digits_and_point(has_dot: bool, run: Seq<char>) -> bool {
    &&& forall|i: int| 0 <= i < run.len() ==> is_digit(#[trigger] run[i]) || run[i] == '.'
    &&& forall|i: int, j: int|
        0 <= i < j < run.len() ==> !(#[trigger] run[i] == '.' && #[trigger] run[j] == '.')
    &&& has_dot ==> !run.contains('.')
}

impl Predicate {
    /// A test without memory takes a run exactly where it admits each of its
    /// characters, and is the same test afterwards.
    pub proof fn stateless_takes(self, run: Seq<char>)
        requires
            self.stateless(),
        ensures
            self.through(run) == self,
            self.takes(run) <==> forall|i: int| 0 <= i < run.len() ==> self.admits(#[trigger] run[i]),
        decreases run.len(),
    {
        if run.len() > 0 {
            let tail = run.drop_first();
            self.stateless_takes(tail);
            if self.takes(run) {
                assert forall|i: int| 0 <= i < run.len() implies self.admits(#[trigger] run[i]) by {
                    if i > 0 {
                        assert(run[i] == tail[i - 1]);
                    }
                }
            }
            if forall|i: int| 0 <= i < run.len() ==> self.admits(#[trigger] run[i]) {
                assert forall|i: int| 0 <= i < tail.len() implies self.admits(
                    #[trigger] tail[i],
                ) by {
                    assert(tail[i] == run[i + 1]);
                }
            }
        }
    }

    /// The test for the body of a string literal takes a run exactly where
    /// each of its double quotes stands behind a backslash, and then
    /// remembers whether the run ended in a backslash.
    pub proof fn string_part_takes(escaped: bool, run: Seq<char>)
        ensures
            (Predicate::StringPart { escaped }).takes(run) <==> quotes_escaped(escaped, run),
            (Predicate::StringPart { escaped }).through(run) == (Predicate::StringPart {
                escaped: if run.len() == 0 {
                    escaped
                } else {
                    run.last() == '\\'
                },
            }),
        decreases run.len(),
    {
        let this = Predicate::StringPart { escaped };
        if run.len() > 0 {
            let tail = run.drop_first();
            let then = run[0] == '\\';
            Self::string_part_takes(then, tail);
            if tail.len() > 0 {
                assert(tail.last() == run.last());
            }
            if this.takes(run) {
                assert forall|i: int| 0 <= i < run.len() && #[trigger] run[i] == '"' implies if i == 0 {
                    escaped
                } else {
                    run[i - 1] == '\\'
                } by {
                    if i > 0 {
                        assert(tail[i - 1] == run[i]);
                        if i > 1 {
                            assert(tail[i - 2] == run[i - 1]);
                        }
                    }
                }
            }
            if quotes_escaped(escaped, run) {
                assert forall|i: int| 0 <= i < tail.len() && #[trigger] tail[i] == '"' implies if i == 0 {
                    then
                } else {
                    tail[i - 1] == '\\'
                } by {
                    assert(tail[i] == run[i + 1]);
                    if i > 0 {
                        assert(tail[i - 1] == run[i]);
                    }
                }
            }
        }
    }

    /// The test for the rest of a number literal takes a run exactly where it
    /// holds digits and at most one point, and then remembers whether a point
    /// has been taken.
    pub proof fn number_part_takes(has_dot: bool, run: Seq<char>)
        ensures
            (Predicate::NumberPart { has_dot }).takes(run) <==> digits_and_point(has_dot, run),
            (Predicate::NumberPart { has_dot }).through(run) == (Predicate::NumberPart {
                has_dot: has_dot || run.contains('.'),
            }),
        decreases run.len(),
    {
        let this = Predicate::NumberPart { has_dot };
        if run.len() > 0 {
            let tail = run.drop_first();
            let then = has_dot || run[0] == '.';
            Self::number_part_takes(then, tail);
            assert(run.contains('.') <==> run[0] == '.' || tail.contains('.')) by {
                if run.contains('.') {
                    let i = choose|i: int| 0 <= i < run.len() && run[i] == '.';
                    if i > 0 {
                        assert(tail[i - 1] == '.');
                    }
                }
                if tail.contains('.') {
                    let i = choose|i: int| 0 <= i < tail.len() && tail[i] == '.';
                    assert(run[i + 1] == '.');
                }
                if run[0] == '.' {
                    assert(run.contains('.'));
                }
            }
            if this.takes(run) {
                assert forall|i: int| 0 <= i < run.len() implies is_digit(#[trigger] run[i])
                    || run[i] == '.' by {
                    if i > 0 {
                        assert(tail[i - 1] == run[i]);
                    }
                }
                assert forall|i: int, j: int| 0 <= i < j < run.len() implies !(#[trigger] run[i]
                    == '.' && #[trigger] run[j] == '.') by {
                    assert(tail[j - 1] == run[j]);
                    if i > 0 {
                        assert(tail[i - 1] == run[i]);
                    } else if run[0] == '.' && run[j] == '.' {
                        assert(tail.contains('.'));
                    }
                }
            }
            if digits_and_point(has_dot, run) {
                assert(this.admits(run[0])) by {
                    if run[0] == '.' {
                        assert(run.contains('.'));
                    }
                }
                assert forall|i: int| 0 <= i < tail.len() implies is_digit(#[trigger] tail[i])
                    || tail[i] == '.' by {
                    assert(tail[i] == run[i + 1]);
                }
                assert forall|i: int, j: int| 0 <= i < j < tail.len() implies !(#[trigger] tail[i]
                    == '.' && #[trigger] tail[j] == '.') by {
                    assert(tail[i] == run[i + 1]);
                    assert(tail[j] == run[j + 1]);
                }
                if then && tail.contains('.') {
                    let j = choose|j: int| 0 <= j < tail.len() && tail[j] == '.';
                    assert(run[j + 1] == '.');
                    assert(run.contains('.'));
                    if run[0] == '.' {
                        assert(false);
                    }
                }
            }
        } else {
            assert(!run.contains('.'));
        }
    }
}

} // verus!
