//! Request lines and what they ask for.

use crate::text::{
    chars_of, decimal, decimal_reads_back, decimal_value, is_digit, parse_decimal, trim,
    trim_after_trim_end, trim_bounds, trim_end, trim_end_of_joined, trim_keeps_tight_text,
    trim_start, trims_commute,
};
use vstd::prelude::*;

verus! {

/// What one line from a client asks for.
#[derive(Debug, PartialEq, Eq)]
pub enum Request {
    /// Send the line with this number; the first line has number 1.
    Get(usize),
    /// Stop the whole server.
    Shutdown,
    /// Close this connection.
    Quit,
    /// Anything else; the line as it came.
    Invalid(String),
}

/// A request as a mathematical value.
pub enum RequestView {
    Get(nat),
    Shutdown,
    Quit,
    Invalid(Seq<char>),
}

impl View for Request {
    type V = RequestView;

    open spec fn view(&self) -> RequestView {
        match self {
            Request::Get(n) => RequestView::Get(*n as nat),
            Request::Shutdown => RequestView::Shutdown,
            Request::Quit => RequestView::Quit,
            Request::Invalid(raw) => RequestView::Invalid(raw@),
        }
    }
}

/// The word that starts a request for a line.
pub open spec fn get_word() -> Seq<char> {
    seq!['G', 'E', 'T']
}

/// The word that starts a request for a line, with the space that parts it
/// from the number.
pub open spec fn get_prefix() -> Seq<char> {
    seq!['G', 'E', 'T', ' ']
}

/// The request that stops the server.
pub open spec fn shutdown_word() -> Seq<char> {
    seq!['S', 'H', 'U', 'T', 'D', 'O', 'W', 'N']
}

/// The request that closes the connection.
pub open spec fn quit_word() -> Seq<char> {
    seq!['Q', 'U', 'I', 'T']
}

/// Whether a line, white space at its ends aside, starts with `GET`.
pub open spec fn names_get(line: Seq<char>) -> bool {
    get_word().is_prefix_of(trim(line))
}

/// The line number that a trimmed `GET` line names: what follows `GET` and
/// one space, white space at its ends aside, read as a decimal number.
pub open spec fn get_number(text: Seq<char>) -> Option<nat> {
    if get_prefix().is_prefix_of(text) {
        decimal_value(trim(text.skip(4)))
    } else {
        None
    }
}

/// What the line `line` asks for.
///
/// White space at the ends of the line does not count. A line that starts
/// with `GET` asks for a line if a number follows, and is invalid if none
/// does. `SHUTDOWN` and `QUIT` must be the whole line. Every other line is
/// invalid. An invalid request keeps the line as it came.
pub open spec fn classify(line: Seq<char>) -> RequestView {
    let text = trim(line);
    if get_word().is_prefix_of(text) {
        match get_number(text) {
            Some(n) => RequestView::Get(n),
            None => RequestView::Invalid(line),
        }
    } else if text == shutdown_word() {
        RequestView::Shutdown
    } else if text == quit_word() {
        RequestView::Quit
    } else {
        RequestView::Invalid(line)
    }
}

/// `SHUTDOWN` and `QUIT` count only as whole lines, white space at the ends
/// aside, and only a line that starts with `GET` can ask for a line.
pub proof fn keywords_are_whole_lines(line: Seq<char>)
    ensures
        classify(line) is Shutdown <==> trim(line) == shutdown_word(),
        classify(line) is Quit <==> trim(line) == quit_word(),
        classify(line) is Get ==> get_prefix().is_prefix_of(trim(line)),
        classify(line) is Invalid ==> classify(line) == RequestView::Invalid(line),
{
    assert(!get_word().is_prefix_of(shutdown_word()));
    assert(!get_word().is_prefix_of(quit_word()));
    assert(shutdown_word() != quit_word()) by {
        assert(shutdown_word().len() != quit_word().len());
    }
}

/// The line that asks for line `n`: `GET`, a space, and `n` in base ten.
pub open spec fn get_line(n: nat) -> Seq<char> {
    get_prefix() + decimal(n)
}

/// A line made of `GET`, a space and some text asks for the line whose
/// number the text writes, white space at its ends aside; it is invalid if
/// the text writes no number. Either way it starts with `GET`.
pub proof fn get_reads_its_number(rest: Seq<char>)
    ensures
        names_get(get_prefix() + rest),
        classify(get_prefix() + rest) == match decimal_value(trim(rest)) {
            Some(n) => RequestView::Get(n),
            None => RequestView::Invalid(get_prefix() + rest),
        },
{
    let line = get_prefix() + rest;
    assert(line.first() == 'G');
    assert(trim_start(line) == line);
    trim_end_of_joined(get_prefix(), rest);
    if trim_end(rest).len() > 0 {
        let text = get_prefix() + trim_end(rest);
        assert(trim(line) == text);
        assert(text.subrange(0, 3) =~= get_word());
        assert(text.subrange(0, 4) =~= get_prefix());
        assert(text.skip(4) =~= trim_end(rest));
        trim_after_trim_end(rest);
    } else {
        let word = get_prefix().drop_last();
        assert(word =~= get_word());
        assert(get_prefix().last() == ' ');
        assert(trim_end(get_prefix()) == trim_end(word));
        assert(word.last() == 'T');
        assert(trim(line) == get_word());
        assert(get_word().subrange(0, 3) =~= get_word());
        trims_commute(rest);
        assert(trim(rest) =~= Seq::<char>::empty());
    }
}

/// The line that asks for line `n` is read as a request for line `n`, as
/// long as a `usize` can hold `n`, and as invalid beyond that.
pub proof fn get_line_is_understood(n: nat)
    ensures
        names_get(get_line(n)),
        classify(get_line(n)) == if n <= usize::MAX {
            RequestView::Get(n)
        } else {
            RequestView::Invalid(get_line(n))
        },
{
    decimal_reads_back(n);
    let digits = decimal(n);
    assert(is_digit(digits.first()));
    assert(is_digit(digits.last()));
    trim_keeps_tight_text(digits);
    get_reads_its_number(digits);
}

/// Tells whether `v[from..to]` starts with `word`.
fn begins_with(v: &Vec<char>, from: usize, to: usize, word: &str) -> (b: bool)
    requires
        from <= to <= v.len(),
    ensures
        b == word@.is_prefix_of(v@.subrange(from as int, to as int)),
{
    let n = word.unicode_len();
    if to - from < n {
        return false;
    }
    let mut i: usize = 0;
    while i < n
        invariant
            from <= to <= v.len(),
            n == word@.len(),
            n <= to - from,
            i <= n,
            forall|j: int| 0 <= j < i ==> v@[from + j] == word@[j],
        decreases n - i,
    {
        if v[from + i] != word.get_char(i) {
            assert(v@.subrange(from as int, to as int).subrange(0, n as int)[i as int]
                != word@[i as int]);
            return false;
        }
        i += 1;
    }
    assert(word@ =~= v@.subrange(from as int, to as int).subrange(0, n as int));
    true
}

/// Tells whether `v[from..to]` is `word`.
fn is_word(v: &Vec<char>, from: usize, to: usize, word: &str) -> (b: bool)
    requires
        from <= to <= v.len(),
    ensures
        b == (v@.subrange(from as int, to as int) == word@),
{
    let same_start = begins_with(v, from, to, word);
    let n = word.unicode_len();
    proof {
        let text = v@.subrange(from as int, to as int);
        if text.len() == word@.len() {
            assert(text.subrange(0, word@.len() as int) =~= text);
        }
    }
    same_start && to - from == n
}

/// Tells whether `line`, white space at its ends aside, starts with `GET`.
pub fn starts_with_get(line: &str) -> (b: bool)
    ensures
        b == names_get(line@),
{
    let v = chars_of(line);
    let (from, to) = trim_bounds(&v, 0, v.len());
    proof {
        reveal_strlit("GET");
        assert("GET"@ =~= get_word());
        assert(v@.subrange(0, v.len() as int) =~= v@);
    }
    begins_with(&v, from, to, "GET")
}

impl Request {
    /// Reads one line from a client.
    pub fn parse(line: &str) -> (request: Request)
        ensures
            request@ == classify(line@),
    {
        let v = chars_of(line);
        let (from, to) = trim_bounds(&v, 0, v.len());
        let ghost text = v@.subrange(from as int, to as int);
        proof {
            reveal_strlit("GET");
            reveal_strlit("GET ");
            reveal_strlit("SHUTDOWN");
            reveal_strlit("QUIT");
            assert("GET"@ =~= get_word());
            assert("GET "@ =~= get_prefix());
            assert("SHUTDOWN"@ =~= shutdown_word());
            assert("QUIT"@ =~= quit_word());
            assert(v@.subrange(0, v.len() as int) =~= v@);
            assert(text == trim(line@));
        }
        if begins_with(&v, from, to, "GET") {
            if begins_with(&v, from, to, "GET ") {
                let (first, last) = trim_bounds(&v, from + 4, to);
                assert(text.skip(4) =~= v@.subrange(from + 4, to as int));
                match parse_decimal(&v, first, last) {
                    Some(n) => { return Request::Get(n); },
                    None => {},
                }
            }
            Request::Invalid(line.to_owned())
        } else if is_word(&v, from, to, "SHUTDOWN") {
            Request::Shutdown
        } else if is_word(&v, from, to, "QUIT") {
            Request::Quit
        } else {
            Request::Invalid(line.to_owned())
        }
    }
}

} // verus!
