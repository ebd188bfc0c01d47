//! The lines of a text, the line that a number names, and the answer sent
//! for it.

use crate::text::chars_of;
use vstd::prelude::*;

verus! {

/// Why no line was found.
#[derive(Debug, Clone, Copy, PartialEq, Eq, Structural)]
pub enum LookupError {
    /// The text has no line with the number asked for. The numbers it has
    /// run from `first`, which is 1, to `last`, the number of its lines.
    OutOfRange { first: usize, last: usize },
    /// The text could not be opened or read.
    IoFailure,
}

/// How many characters stand before the first line feed of `s`, or in all
/// of `s` if it has none.
pub open spec fn first_line_len(s: Seq<char>) -> nat
    decreases s.len(),
{
    if s.len() == 0 || s.first() == '\n' {
        0
    } else {
        1 + first_line_len(s.drop_first())
    }
}

/// `s` without a carriage return at its end.
pub open spec fn without_return(s: Seq<char>) -> Seq<char> {
    if s.len() > 0 && s.last() == '\r' {
        s.drop_last()
    } else {
        s
    }
}

/// The lines of the text `s`, in order.
///
/// A line ends with a line feed, which is no part of it, nor is a carriage
/// return just before that line feed. What follows the last line feed is a
/// line too, unless nothing follows it.
pub open spec fn lines(s: Seq<char>) -> Seq<Seq<char>>
    decreases s.len(),
{
    let n = first_line_len(s);
    if s.len() == 0 {
        Seq::empty()
    } else if n >= s.len() {
        seq![s]
    } else {
        seq![without_return(s.take(n as int))] + lines(s.skip(n as int + 1))
    }
}

/// The line of `content` with the number `number`, counted from 1, or the
/// range of numbers that `content` has lines for.
pub open spec fn find_line(content: Seq<char>, number: nat) -> Result<Seq<char>, LookupError> {
    let all = lines(content);
    if 1 <= number <= all.len() {
        Ok(all[number - 1])
    } else {
        Err(LookupError::OutOfRange { first: 1, last: all.len() as usize })
    }
}

/// The answer to a request that failed.
pub open spec fn error_text() -> Seq<char> {
    seq!['E', 'R', 'R', '\n']
}

/// The answer to a request for a line: the line and a line feed, or the
/// answer to a failed request.
pub open spec fn response_text(found: Result<Seq<char>, LookupError>) -> Seq<char> {
    match found {
        Ok(line) => line.push('\n'),
        Err(_) => error_text(),
    }
}

/// A text has no more lines than characters.
pub proof fn lines_are_not_more_than_chars(s: Seq<char>)
    ensures
        lines(s).len() <= s.len(),
    decreases s.len(),
{
    let n = first_line_len(s);
    if s.len() > 0 && n < s.len() {
        lines_are_not_more_than_chars(s.skip(n as int + 1));
    }
}

/// Finds the line of `content` with the number `line_number`. The first
/// line has number 1.
pub fn lookup(content: &str, line_number: usize) -> (found: Result<String, LookupError>)
    ensures
        match found {
            Ok(line) => find_line(content@, line_number as nat) == Ok::<Seq<char>, LookupError>(
                line@,
            ),
            Err(e) => find_line(content@, line_number as nat) == Err::<Seq<char>, LookupError>(e),
        },
{
    let v = chars_of(content);
    let len = v.len();
    let mut pos: usize = 0;
    let mut seen: usize = 0;
    assert(v@.skip(0) =~= v@);
    while pos < len
        invariant
            v@ == content@,
            len == v.len(),
            seen <= pos <= len,
            seen <= lines(v@).len(),
            lines(v@) =~= lines(v@).take(seen as int) + lines(v@.skip(pos as int)),
            line_number == 0 || seen < line_number,
        decreases len - pos,
    {
        let ghost rest = v@.skip(pos as int);
        let mut end = pos;
        assert(v@.skip(end as int) =~= rest);
        while end < len && v[end] != '\n'
            invariant
                pos <= end <= len,
                len == v.len(),
                rest == v@.skip(pos as int),
                first_line_len(rest) == (end - pos) + first_line_len(v@.skip(end as int)),
            decreases len - end,
        {
            assert(v@.skip(end as int).drop_first() =~= v@.skip(end + 1));
            end += 1;
        }
        let terminated = end < len;
        let stop = if terminated && pos < end && v[end - 1] == '\r' {
            end - 1
        } else {
            end
        };
        let next = if terminated {
            end + 1
        } else {
            end
        };
        proof {
            let n = first_line_len(rest);
            assert(n == end - pos);
            if terminated {
                assert(rest.take(n as int) =~= v@.subrange(pos as int, end as int));
                assert(rest.skip(n as int + 1) =~= v@.skip(next as int));
                assert(without_return(v@.subrange(pos as int, end as int)) =~= v@.subrange(
                    pos as int,
                    stop as int,
                ));
            } else {
                assert(rest =~= v@.subrange(pos as int, stop as int));
                assert(v@.skip(next as int) =~= Seq::<char>::empty());
                assert(lines(v@.skip(next as int)) =~= Seq::<Seq<char>>::empty());
            }
            assert(lines(rest) =~= seq![v@.subrange(pos as int, stop as int)] + lines(
                v@.skip(next as int),
            ));
            assert(lines(v@)[seen as int] == v@.subrange(pos as int, stop as int));
            assert(lines(v@).take(seen + 1) =~= lines(v@).take(seen as int).push(
                v@.subrange(pos as int, stop as int),
            ));
        }
        if seen + 1 == line_number {
            return Ok(content.substring_char(pos, stop).to_owned());
        }
        seen += 1;
        pos = next;
    }
    proof {
        assert(lines(v@.skip(pos as int)) =~= Seq::<Seq<char>>::empty());
        assert(lines(v@) =~= lines(v@).take(seen as int));
    }
    Err(LookupError::OutOfRange { first: 1, last: seen })
}

/// The answer sent when a request fails.
pub fn error_response() -> (text: String)
    ensures
        text@ == error_text(),
{
    proof {
        reveal_strlit("ERR\n");
    }
    let text = "ERR\n".to_owned();
    assert(text@ =~= error_text());
    text
}

/// The answer sent for a request for a line: the line found, with a line
/// feed after it, or the answer to a failed request.
pub fn response(found: Result<String, LookupError>) -> (text: String)
    ensures
        text@ == response_text(
            match found {
                Ok(line) => Ok(line@),
                Err(e) => Err(e),
            },
        ),
{
    match found {
        Ok(line) => {
            proof {
                reveal_strlit("\n");
            }
            let text = line.concat("\n");
            assert(text@ =~= line@.push('\n'));
            text
        },
        Err(_) => error_response(),
    }
}

} // verus!
