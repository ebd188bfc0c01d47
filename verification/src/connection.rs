//! What one connection does on each thing that happens to it.

use crate::lookup::{
    error_text, find_line, lines, lines_are_not_more_than_chars, response_text, LookupError,
};
use crate::request::{
    classify, get_line, get_line_is_understood, get_prefix, get_reads_its_number, get_word,
    names_get, quit_word, shutdown_word, starts_with_get, Request, RequestView,
};
use crate::text::{decimal_value, trim};
use vstd::prelude::*;

verus! {

/// Where a connection stands.
#[derive(Debug, Clone, Copy, PartialEq, Eq, Structural)]
pub enum ConnectionState {
    /// Lines are read and answered, one after the other.
    Reading,
    /// Nothing more is read or written.
    Closed,
}

/// What can happen to a connection.
#[derive(Debug, PartialEq, Eq)]
pub enum ConnectionEvent {
    /// A line came from the client.
    Line(String),
    /// The client sends nothing more.
    EndOfStream,
    /// Reading from the client failed.
    ReadFailed,
    /// An answer could not be sent to the client.
    WriteFailed,
    /// The shutdown signal was raised.
    Cancelled,
}

/// An event as a mathematical value.
pub enum ConnectionEventView {
    Line(Seq<char>),
    EndOfStream,
    ReadFailed,
    WriteFailed,
    Cancelled,
}

impl View for ConnectionEvent {
    type V = ConnectionEventView;

    open spec fn view(&self) -> ConnectionEventView {
        match self {
            ConnectionEvent::Line(line) => ConnectionEventView::Line(line@),
            ConnectionEvent::EndOfStream => ConnectionEventView::EndOfStream,
            ConnectionEvent::ReadFailed => ConnectionEventView::ReadFailed,
            ConnectionEvent::WriteFailed => ConnectionEventView::WriteFailed,
            ConnectionEvent::Cancelled => ConnectionEventView::Cancelled,
        }
    }
}

/// What is to be done for a connection after an event.
#[derive(Debug, PartialEq, Eq)]
pub enum ConnectionAction {
    /// Look up the line with this number and send the answer.
    Serve(usize),
    /// Send the answer to a failed request, and report the line: it asks
    /// for a line and names no number.
    Refuse(String),
    /// Report the line and send nothing: it asks for nothing known.
    Report(String),
    /// Close the connection and send nothing.
    Close,
    /// Raise the shutdown signal, close the connection and send nothing.
    RaiseShutdown,
    /// Shut the socket down, whatever comes of it, and send nothing.
    ForceClose,
    /// Do nothing: the connection is closed, or what happened does not
    /// change what it does.
    Nothing,
}

/// An action as a mathematical value.
pub enum ConnectionActionView {
    Serve(nat),
    Refuse(Seq<char>),
    Report(Seq<char>),
    Close,
    RaiseShutdown,
    ForceClose,
    Nothing,
}

impl View for ConnectionAction {
    type V = ConnectionActionView;

    open spec fn view(&self) -> ConnectionActionView {
        match self {
            ConnectionAction::Serve(n) => ConnectionActionView::Serve(*n as nat),
            ConnectionAction::Refuse(line) => ConnectionActionView::Refuse(line@),
            ConnectionAction::Report(line) => ConnectionActionView::Report(line@),
            ConnectionAction::Close => ConnectionActionView::Close,
            ConnectionAction::RaiseShutdown => ConnectionActionView::RaiseShutdown,
            ConnectionAction::ForceClose => ConnectionActionView::ForceClose,
            ConnectionAction::Nothing => ConnectionActionView::Nothing,
        }
    }
}

/// What a reading connection does with the line `line`, and where it stands
/// afterwards.
pub open spec fn on_line(line: Seq<char>) -> (ConnectionState, ConnectionActionView) {
    match classify(line) {
        RequestView::Get(n) => (ConnectionState::Reading, ConnectionActionView::Serve(n)),
        RequestView::Shutdown => (ConnectionState::Closed, ConnectionActionView::RaiseShutdown),
        RequestView::Quit => (ConnectionState::Closed, ConnectionActionView::Close),
        RequestView::Invalid(raw) => if names_get(line) {
            (ConnectionState::Reading, ConnectionActionView::Refuse(raw))
        } else {
            (ConnectionState::Reading, ConnectionActionView::Report(raw))
        },
    }
}

/// What a connection in state `state` does on `event`, and where it stands
/// afterwards.
///
/// A closed connection does nothing and stays closed. A reading connection
/// answers a line as `on_line` says, closes when the client is done or
/// reading fails, reads on when an answer could not be sent, and shuts its
/// socket down when the shutdown signal is raised.
pub open spec fn transition(state: ConnectionState, event: ConnectionEventView) -> (
    ConnectionState,
    ConnectionActionView,
) {
    match state {
        ConnectionState::Closed => (ConnectionState::Closed, ConnectionActionView::Nothing),
        ConnectionState::Reading => match event {
            ConnectionEventView::Line(line) => on_line(line),
            ConnectionEventView::EndOfStream => (
                ConnectionState::Closed,
                ConnectionActionView::Close,
            ),
            ConnectionEventView::ReadFailed => (
                ConnectionState::Closed,
                ConnectionActionView::Close,
            ),
            ConnectionEventView::WriteFailed => (
                ConnectionState::Reading,
                ConnectionActionView::Nothing,
            ),
            ConnectionEventView::Cancelled => (
                ConnectionState::Closed,
                ConnectionActionView::ForceClose,
            ),
        },
    }
}

/// What is sent to the client when `action` is carried out, if anything.
/// `file` is the text that lines are looked up in, or `None` if it cannot
/// be read.
pub open spec fn reply(action: ConnectionActionView, file: Option<Seq<char>>) -> Option<
    Seq<char>,
> {
    match action {
        ConnectionActionView::Serve(n) => Some(
            response_text(
                match file {
                    Some(content) => find_line(content, n),
                    None => Err(LookupError::IoFailure),
                },
            ),
        ),
        ConnectionActionView::Refuse(_) => Some(error_text()),
        _ => None,
    }
}

/// The text of an answer, which is empty where nothing is sent.
pub open spec fn sent(answer: Option<Seq<char>>) -> Seq<char> {
    match answer {
        Some(text) => text,
        None => Seq::empty(),
    }
}

/// Where a connection that starts in `state` stands after `events`, taken
/// in the order in which they came.
pub open spec fn state_after(state: ConnectionState, events: Seq<ConnectionEventView>) -> ConnectionState
    decreases events.len(),
{
    if events.len() == 0 {
        state
    } else {
        state_after(transition(state, events.first()).0, events.drop_first())
    }
}

/// All that is sent to the client of a connection that starts in `state`
/// while it takes in `events`, in the order in which they came. `file` is
/// the text that lines are looked up in, or `None` if it cannot be read.
pub open spec fn written(
    state: ConnectionState,
    events: Seq<ConnectionEventView>,
    file: Option<Seq<char>>,
) -> Seq<char>
    decreases events.len(),
{
    if events.len() == 0 {
        Seq::empty()
    } else {
        let (next, action) = transition(state, events.first());
        sent(reply(action, file)) + written(next, events.drop_first(), file)
    }
}

/// Events are taken in the order in which they came: what a connection
/// does on a run of events is what it does on the first part, and then,
/// from where that left it, on the second.
pub proof fn events_are_taken_in_order(
    state: ConnectionState,
    earlier: Seq<ConnectionEventView>,
    later: Seq<ConnectionEventView>,
    file: Option<Seq<char>>,
)
    ensures
        state_after(state, earlier + later) == state_after(state_after(state, earlier), later),
        written(state, earlier + later, file) == written(state, earlier, file) + written(
            state_after(state, earlier),
            later,
            file,
        ),
    decreases earlier.len(),
{
    if earlier.len() == 0 {
        assert(earlier + later =~= later);
        assert(written(state, earlier, file) + written(state, later, file) =~= written(
            state,
            later,
            file,
        ));
    } else {
        let next = transition(state, earlier.first()).0;
        assert((earlier + later).first() == earlier.first());
        assert((earlier + later).drop_first() =~= earlier.drop_first() + later);
        events_are_taken_in_order(next, earlier.drop_first(), later, file);
        let head = sent(reply(transition(state, earlier.first()).1, file));
        assert(head + (written(next, earlier.drop_first(), file) + written(
            state_after(state, earlier),
            later,
            file,
        )) =~= (head + written(next, earlier.drop_first(), file)) + written(
            state_after(state, earlier),
            later,
            file,
        ));
    }
}

/// A closed connection stays closed and sends nothing, whatever happens.
pub proof fn closed_connection_is_silent(
    events: Seq<ConnectionEventView>,
    file: Option<Seq<char>>,
)
    ensures
        state_after(ConnectionState::Closed, events) == ConnectionState::Closed,
        written(ConnectionState::Closed, events, file) == Seq::<char>::empty(),
    decreases events.len(),
{
    if events.len() > 0 {
        closed_connection_is_silent(events.drop_first(), file);
        assert(Seq::<char>::empty() + Seq::<char>::empty() =~= Seq::<char>::empty());
    }
}

/// A request for a line that the file has is answered with that line, as
/// it stands in the file without the end of line, and one line feed after
/// it. The connection goes on reading.
pub proof fn get_sends_the_line(content: Seq<char>, n: nat)
    requires
        content.len() <= usize::MAX,
        1 <= n <= lines(content).len(),
    ensures
        transition(ConnectionState::Reading, ConnectionEventView::Line(get_line(n))) == (
            ConnectionState::Reading,
            ConnectionActionView::Serve(n),
        ),
        reply(ConnectionActionView::Serve(n), Some(content)) == Some(
            lines(content)[n - 1].push('\n'),
        ),
{
    lines_are_not_more_than_chars(content);
    get_line_is_understood(n);
}

/// A request for line 0, or for a line beyond the last one of the file, is
/// answered with `ERR` and a line feed, and so is any request for a line
/// when the file cannot be read. The connection goes on reading.
pub proof fn get_out_of_range_sends_err(file: Option<Seq<char>>, n: nat)
    requires
        match file {
            Some(content) => n == 0 || n > lines(content).len(),
            None => true,
        },
    ensures
        on_line(get_line(n)).0 == ConnectionState::Reading,
        reply(on_line(get_line(n)).1, file) == Some(error_text()),
{
    get_line_is_understood(n);
}

/// A line made of `GET`, a space and something that writes no number is
/// answered with `ERR` and a line feed, whatever the file holds. The
/// connection goes on reading.
pub proof fn get_without_number_sends_err(rest: Seq<char>, file: Option<Seq<char>>)
    requires
        decimal_value(trim(rest)) is None,
    ensures
        on_line(get_prefix() + rest).0 == ConnectionState::Reading,
        reply(on_line(get_prefix() + rest).1, file) == Some(error_text()),
{
    get_reads_its_number(rest);
}

/// An answer that could not be sent changes nothing: the connection stays
/// where it stood, and nothing is sent in its place.
pub proof fn write_failure_changes_nothing(state: ConnectionState, file: Option<Seq<char>>)
    ensures
        transition(state, ConnectionEventView::WriteFailed) == (
            state,
            ConnectionActionView::Nothing,
        ),
        reply(transition(state, ConnectionEventView::WriteFailed).1, file) is None,
{
}

/// A line that asks for nothing known is answered with nothing, and the
/// connection goes on reading.
pub proof fn unknown_line_is_passed_over(line: Seq<char>, file: Option<Seq<char>>)
    requires
        !names_get(line),
        trim(line) != shutdown_word(),
        trim(line) != quit_word(),
    ensures
        on_line(line) == (ConnectionState::Reading, ConnectionActionView::Report(line)),
        reply(on_line(line).1, file) is None,
{
}

/// `QUIT` closes the connection: nothing is sent for it, and nothing is
/// sent for anything that happens afterwards.
pub proof fn quit_closes_in_silence(
    line: Seq<char>,
    later: Seq<ConnectionEventView>,
    file: Option<Seq<char>>,
)
    requires
        trim(line) == quit_word(),
    ensures
        transition(ConnectionState::Reading, ConnectionEventView::Line(line)) == (
            ConnectionState::Closed,
            ConnectionActionView::Close,
        ),
        state_after(ConnectionState::Reading, seq![ConnectionEventView::Line(line)] + later)
            == ConnectionState::Closed,
        written(ConnectionState::Reading, seq![ConnectionEventView::Line(line)] + later, file)
            == Seq::<char>::empty(),
{
    let first = seq![ConnectionEventView::Line(line)];
    assert(!get_word().is_prefix_of(quit_word()));
    assert(first.drop_first() =~= Seq::<ConnectionEventView>::empty());
    assert(state_after(ConnectionState::Closed, first.drop_first()) == ConnectionState::Closed);
    assert(written(ConnectionState::Closed, first.drop_first(), file) =~= Seq::<char>::empty());
    assert(written(ConnectionState::Reading, first, file) =~= Seq::<char>::empty());
    events_are_taken_in_order(ConnectionState::Reading, first, later, file);
    closed_connection_is_silent(later, file);
}

/// `SHUTDOWN` asks for the shutdown signal and closes the connection:
/// nothing is sent for it, and nothing is sent for anything that happens
/// afterwards.
pub proof fn shutdown_raises_the_signal(
    line: Seq<char>,
    later: Seq<ConnectionEventView>,
    file: Option<Seq<char>>,
)
    requires
        trim(line) == shutdown_word(),
    ensures
        transition(ConnectionState::Reading, ConnectionEventView::Line(line)) == (
            ConnectionState::Closed,
            ConnectionActionView::RaiseShutdown,
        ),
        state_after(ConnectionState::Reading, seq![ConnectionEventView::Line(line)] + later)
            == ConnectionState::Closed,
        written(ConnectionState::Reading, seq![ConnectionEventView::Line(line)] + later, file)
            == Seq::<char>::empty(),
{
    let first = seq![ConnectionEventView::Line(line)];
    assert(!get_word().is_prefix_of(shutdown_word()));
    assert(first.drop_first() =~= Seq::<ConnectionEventView>::empty());
    assert(state_after(ConnectionState::Closed, first.drop_first()) == ConnectionState::Closed);
    assert(written(ConnectionState::Closed, first.drop_first(), file) =~= Seq::<char>::empty());
    assert(written(ConnectionState::Reading, first, file) =~= Seq::<char>::empty());
    events_are_taken_in_order(ConnectionState::Reading, first, later, file);
    closed_connection_is_silent(later, file);
}

/// Once the shutdown signal has reached a connection, the connection is
/// closed, wherever it stood, and nothing is sent from then on: what was
/// sent is what was sent before the signal came.
pub proof fn signal_closes_the_connection(
    state: ConnectionState,
    before: Seq<ConnectionEventView>,
    after: Seq<ConnectionEventView>,
    file: Option<Seq<char>>,
)
    ensures
        state_after(state, before + seq![ConnectionEventView::Cancelled] + after)
            == ConnectionState::Closed,
        written(state, before + seq![ConnectionEventView::Cancelled] + after, file) == written(
            state,
            before,
            file,
        ),
{
    let signal = seq![ConnectionEventView::Cancelled];
    let then = signal + after;
    let reached = state_after(state, before);
    assert(before + signal + after =~= before + then);
    events_are_taken_in_order(state, before, then, file);
    assert(then.first() == ConnectionEventView::Cancelled);
    assert(then.drop_first() =~= after);
    assert(transition(reached, ConnectionEventView::Cancelled).0 == ConnectionState::Closed);
    assert(reply(transition(reached, ConnectionEventView::Cancelled).1, file) is None);
    closed_connection_is_silent(after, file);
    assert(written(reached, then, file) =~= Seq::<char>::empty());
    assert(written(state, before, file) + Seq::<char>::empty() =~= written(state, before, file));
}

/// The handler of one connection.
#[derive(Debug)]
pub struct ConnectionHandler {
    state: ConnectionState,
}

impl View for ConnectionHandler {
    type V = ConnectionState;

    closed spec fn view(&self) -> ConnectionState {
        self.state
    }
}

impl ConnectionHandler {
    /// The handler of a connection that was just accepted.
    pub fn new() -> (handler: ConnectionHandler)
        ensures
            handler@ == ConnectionState::Reading,
    {
        ConnectionHandler { state: ConnectionState::Reading }
    }

    /// Where the connection stands.
    pub fn state(&self) -> (state: ConnectionState)
        ensures
            state == self@,
    {
        self.state
    }

    /// Whether the connection is closed.
    pub fn is_closed(&self) -> (closed: bool)
        ensures
            closed == (self@ == ConnectionState::Closed),
    {
        match self.state {
            ConnectionState::Closed => true,
            ConnectionState::Reading => false,
        }
    }

    /// Takes in `event` and says what is to be done.
    pub fn handle(&mut self, event: ConnectionEvent) -> (action: ConnectionAction)
        ensures
            (final(self)@, action@) == transition(old(self)@, event@),
    {
        match self.state {
            ConnectionState::Closed => ConnectionAction::Nothing,
            ConnectionState::Reading => match event {
                ConnectionEvent::Line(line) => {
                    match Request::parse(line.as_str()) {
                        Request::Get(n) => ConnectionAction::Serve(n),
                        Request::Shutdown => {
                            self.state = ConnectionState::Closed;
                            ConnectionAction::RaiseShutdown
                        },
                        Request::Quit => {
                            self.state = ConnectionState::Closed;
                            ConnectionAction::Close
                        },
                        Request::Invalid(_) => {
                            if starts_with_get(line.as_str()) {
                                ConnectionAction::Refuse(line)
                            } else {
                                ConnectionAction::Report(line)
                            }
                        },
                    }
                },
                ConnectionEvent::EndOfStream | ConnectionEvent::ReadFailed => {
                    self.state = ConnectionState::Closed;
                    ConnectionAction::Close
                },
                ConnectionEvent::WriteFailed => ConnectionAction::Nothing,
                ConnectionEvent::Cancelled => {
                    self.state = ConnectionState::Closed;
                    ConnectionAction::ForceClose
                },
            },
        }
    }
}

} // verus!
