//! The lexical comment parser.

use vstd::prelude::*;
use vstd::string::*;

verus! {

/// The comment lexeme: the text between the comment delimiters.
#[derive(Debug, Clone, PartialEq, Eq)]
pub struct Comment {
    pub text: String,
}

impl Comment {
    /// The comment with the given text.
    pub fn new(text: String) -> (comment: Self)
        ensures
            comment.text == text,
    {
        Comment { text }
    }
}

/// The states of the comment parser.
pub enum State {
    /// Nothing has been read.
    Start,
    /// The first `/` has been read.
    Slash,
    /// `//` has been read, and no line break since.
    SingleLine,
    /// `/*` has been read, and the last character read does not open `*/`.
    MultiLine,
    /// Inside a block comment, right after a `*`.
    MultiLineStar,
}

/// The reasons for which the input does not begin with a comment.
#[derive(Debug, PartialEq, Eq, Structural)]
pub enum Error {
    /// The input ended before the comment did.
    UnexpectedEnd,
    /// The input does not begin with `//` or `/*`.
    NotAComment,
}

impl Error {
    /// The message of the error.
    pub open spec fn message(self) -> Seq<char> {
        match self {
            Error::UnexpectedEnd => "unexpected end"@,
            Error::NotAComment => "not a comment"@,
        }
    }

    /// Writes the message of the error.
    pub fn to_text(&self) -> (text: String)
        ensures
            text@ == self.message(),
    {
        match self {
            Error::UnexpectedEnd => String::from_str("unexpected end"),
            Error::NotAComment => String::from_str("not a comment"),
        }
    }
}

/// The input begins with `//`.
pub open spec fn starts_line_comment(s: Seq<char>) -> bool {
    s.len() >= 2 && s[0] == '/' && s[1] == '/'
}

/// The input begins with `/*`.
pub open spec fn starts_block_comment(s: Seq<char>) -> bool {
    s.len() >= 2 && s[0] == '/' && s[1] == '*'
}

/// The two characters at `i` are `*/`.
pub open spec fn is_block_end(s: Seq<char>, i: int) -> bool {
    0 <= i && i + 1 < s.len() && s[i] == '*' && s[i + 1] == '/'
}

/// The input begins with something that cannot be continued to a comment.
pub open spec fn not_a_comment(s: Seq<char>) -> bool {
    ||| s.len() >= 1 && s[0] != '/'
    ||| s.len() >= 2 && s[0] == '/' && s[1] != '/' && s[1] != '*'
}

/// The input is a proper beginning of a comment that never ends: it is
/// empty, a single `/`, or a block comment without `*/` after its opening.
pub open spec fn unexpected_end(s: Seq<char>) -> bool {
    ||| s.len() == 0
    ||| s.len() == 1 && s[0] == '/'
    ||| starts_block_comment(s) && forall|j: int| 2 <= j ==> !is_block_end(s, j)
}

/// `size` is the length of the line comment at the beginning of `s`: the
/// comment runs up to the first line break, or to the end of the input.
pub open spec fn is_line_comment_size(s: Seq<char>, size: int) -> bool {
    &&& starts_line_comment(s)
    &&& 2 <= size <= s.len()
    &&& forall|j: int| 2 <= j < size ==> s[j] != '\n'
    &&& (size == s.len() || s[size] == '\n')
}

/// `size` is the length of the block comment at the beginning of `s`: the
/// comment runs up to and including the first `*/` after its opening.
pub open spec fn is_block_comment_size(s: Seq<char>, size: int) -> bool {
    &&& starts_block_comment(s)
    &&& 4 <= size <= s.len()
    &&& is_block_end(s, size - 2)
    &&& forall|j: int| 2 <= j < size - 2 ==> !is_block_end(s, j)
}

/// The number of line breaks in `s`.
pub open spec fn count_line_breaks(s: Seq<char>) -> nat
    decreases s.len(),
{
    if s.len() == 0 {
        0
    } else {
        count_line_breaks(s.drop_last()) + if s.last() == '\n' {
            1nat
        } else {
            0nat
        }
    }
}

/// The column, counted from one, of the character that follows `s`, where
/// `s` begins in column one.
pub open spec fn column_after(s: Seq<char>) -> nat
    decreases s.len(),
{
    if s.len() == 0 || s.last() == '\n' {
        1
    } else {
        column_after(s.drop_last()) + 1
    }
}

/// What the parser has seen of `s` when it stands in `state` before the
/// character at `size`.
pub open spec fn state_holds(state: State, s: Seq<char>, size: int) -> bool {
    match state {
        State::Start => size == 0,
        State::Slash => size == 1 && s[0] == '/',
        State::SingleLine => {
            &&& starts_line_comment(s)
            &&& 2 <= size
            &&& forall|j: int| 2 <= j < size ==> s[j] != '\n'
        },
        State::MultiLine => {
            &&& starts_block_comment(s)
            &&& 2 <= size
            &&& (size == 2 || s[size - 1] != '*')
            &&& forall|j: int| 2 <= j < size - 1 ==> !is_block_end(s, j)
        },
        State::MultiLineStar => {
            &&& starts_block_comment(s)
            &&& 3 <= size
            &&& s[size - 1] == '*'
            &&& forall|j: int| 2 <= j < size - 1 ==> !is_block_end(s, j)
        },
    }
}

/// Reading one more character moves the line and column counts as the
/// character says.
proof fn lemma_position_step(s: Seq<char>, size: int)
    requires
        0 <= size < s.len(),
    ensures
        count_line_breaks(s.subrange(0, size + 1)) == count_line_breaks(s.subrange(0, size)) + if s[size]
            == '\n' {
            1nat
        } else {
            0nat
        },
        column_after(s.subrange(0, size + 1)) == if s[size] == '\n' {
            1nat
        } else {
            column_after(s.subrange(0, size)) + 1
        },
{
    let longer = s.subrange(0, size + 1);
    assert(longer.drop_last() =~= s.subrange(0, size));
    assert(longer.last() == s[size]);
}

/// The input begins with a comment of `size` characters.
pub open spec fn is_comment_size(s: Seq<char>, size: int) -> bool {
    is_line_comment_size(s, size) || is_block_comment_size(s, size)
}

/// Every input has exactly one outcome: it begins with a comment, whose size
/// is then determined, or it is no comment, or it ends too early.
pub proof fn lemma_one_outcome(s: Seq<char>)
    ensures
        (exists|size: int| is_comment_size(s, size)) || not_a_comment(s) || unexpected_end(s),
        !(not_a_comment(s) && unexpected_end(s)),
        forall|size: int| is_comment_size(s, size) ==> !not_a_comment(s) && !unexpected_end(s),
        forall|first: int, second: int|
            is_comment_size(s, first) && is_comment_size(s, second) ==> first == second,
{
    if starts_line_comment(s) {
        lemma_line_comment_ends(s, 2);
        let size = choose|size: int| is_line_comment_size(s, size);
        assert(is_comment_size(s, size));
    } else if starts_block_comment(s) {
        if exists|j: int| 2 <= j && is_block_end(s, j) {
            let j = choose|j: int| 2 <= j && is_block_end(s, j);
            lemma_block_comment_ends(s, j, 2);
            let size = choose|size: int| is_block_comment_size(s, size);
            assert(is_comment_size(s, size));
        } else {
            assert(unexpected_end(s));
        }
    }
    assert forall|size: int| is_comment_size(s, size) implies !not_a_comment(s)
        && !unexpected_end(s) by {
        if is_block_comment_size(s, size) {
            assert(is_block_end(s, size - 2));
        }
    }
    assert forall|first: int, second: int|
        is_comment_size(s, first) && is_comment_size(s, second) implies first == second by {
        if is_line_comment_size(s, first) {
            if first < second {
                assert(s[first] == '\n');
            } else if second < first {
                assert(s[second] == '\n');
            }
        } else {
            if first < second {
                assert(is_block_end(s, first - 2));
            } else if second < first {
                assert(is_block_end(s, second - 2));
            }
        }
    }
}

/// A line comment ends somewhere: at the first line break from `from` on,
/// or at the end of the input.
proof fn lemma_line_comment_ends(s: Seq<char>, from: int)
    requires
        starts_line_comment(s),
        2 <= from <= s.len(),
        forall|j: int| 2 <= j < from ==> s[j] != '\n',
    ensures
        exists|size: int| is_line_comment_size(s, size),
    decreases s.len() - from,
{
    if from == s.len() || s[from] == '\n' {
        assert(is_line_comment_size(s, from));
    } else {
        lemma_line_comment_ends(s, from + 1);
    }
}

/// A block comment with a `*/` at `end` ends at the first `*/` from `from`
/// on.
proof fn lemma_block_comment_ends(s: Seq<char>, end: int, from: int)
    requires
        starts_block_comment(s),
        2 <= from <= end,
        is_block_end(s, end),
        forall|j: int| 2 <= j < from ==> !is_block_end(s, j),
    ensures
        exists|size: int| is_block_comment_size(s, size),
    decreases end - from,
{
    if is_block_end(s, from) {
        assert(is_block_comment_size(s, from + 2));
    } else {
        lemma_block_comment_ends(s, end, from + 1);
    }
}

/// Parses the comment at the beginning of `input`.
///
/// Returns the number of characters of the comment, the number of line
/// breaks in it, the column after it and the comment's text. A line comment
/// ends before the first line break or at the end of the input, and its line
/// break is not part of it; a block comment ends with the first `*/` after
/// its opening.
pub fn parse(input: &str) -> (result: Result<(usize, usize, usize, Comment), Error>)
    requires
        input@.len() < usize::MAX,
    ensures
        match result {
            Ok((size, lines, column, comment)) => {
                &&& is_comment_size(input@, size as int)
                &&& lines == count_line_breaks(input@.subrange(0, size as int))
                &&& column == column_after(input@.subrange(0, size as int))
                &&& is_line_comment_size(input@, size as int) ==> comment.text@ == input@.subrange(
                    2,
                    size as int,
                )
                &&& is_block_comment_size(input@, size as int) ==> comment.text@ == input@.subrange(
                    2,
                    size - 2,
                )
            },
            Err(Error::NotAComment) => not_a_comment(input@),
            Err(Error::UnexpectedEnd) => unexpected_end(input@),
        },
{
    let length = input.unicode_len();
    let mut state = State::Start;
    let mut size: usize = 0;
    let mut lines: usize = 0;
    let mut column: usize = 1;

    assert(input@.subrange(0, 0) =~= Seq::<char>::empty());
    loop
        invariant
            length == input@.len(),
            length < usize::MAX,
            size <= length,
            lines <= size,
            column <= size + 1,
            lines == count_line_breaks(input@.subrange(0, size as int)),
            column == column_after(input@.subrange(0, size as int)),
            state_holds(state, input@, size as int),
        decreases length - size,
    {
        let character = if size < length {
            Some(input.get_char(size))
        } else {
            None
        };
        proof {
            if size < length {
                lemma_position_step(input@, size as int);
            }
        }
        match state {
            State::Start => match character {
                Some('/') => {
                    size += 1;
                    column += 1;
                    state = State::Slash;
                },
                Some(_) => return Err(Error::NotAComment),
                None => return Err(Error::UnexpectedEnd),
            },
            State::Slash => match character {
                Some('/') => {
                    size += 1;
                    column += 1;
                    state = State::SingleLine;
                },
                Some('*') => {
                    size += 1;
                    column += 1;
                    state = State::MultiLine;
                },
                Some(_) => return Err(Error::NotAComment),
                None => return Err(Error::UnexpectedEnd),
            },
            State::SingleLine => match character {
                Some('\n') | None => {
                    let comment = Comment::new(input.substring_char(2, size).to_owned());
                    return Ok((size, lines, column, comment));
                },
                Some(_) => {
                    size += 1;
                    column += 1;
                },
            },
            State::MultiLine => match character {
                Some('*') => {
                    size += 1;
                    column += 1;
                    state = State::MultiLineStar;
                },
                Some('\n') => {
                    size += 1;
                    column = 1;
                    lines += 1;
                },
                Some(_) => {
                    size += 1;
                    column += 1;
                },
                None => return Err(Error::UnexpectedEnd),
            },
            State::MultiLineStar => match character {
                Some('/') => {
                    size += 1;
                    column += 1;
                    let comment = Comment::new(input.substring_char(2, size - 2).to_owned());
                    return Ok((size, lines, column, comment));
                },
                Some('*') => {
                    size += 1;
                    column += 1;
                },
                Some('\n') => {
                    size += 1;
                    column = 1;
                    lines += 1;
                    state = State::MultiLine;
                },
                Some(_) => {
                    size += 1;
                    column += 1;
                    state = State::MultiLine;
                },
                None => return Err(Error::UnexpectedEnd),
            },
        }
    }
}

} // verus!
