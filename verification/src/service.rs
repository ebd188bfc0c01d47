//! Many connections served at once: each one is served as if it were alone.

use crate::connection::{
    get_sends_the_line, reply, sent, signal_closes_the_connection,
    state_after, transition, written, ConnectionEventView, ConnectionState,
};
use crate::lookup::lines;
use crate::request::get_line;
use vstd::prelude::*;

verus! {

/// Something that happens on one of the connections of a server.
pub struct Arrival {
    /// The connection that it happens on.
    pub connection: nat,
    /// What happens.
    pub event: ConnectionEventView,
}

/// The events among `arrivals` that happen on `connection`, in the order
/// in which they came.
pub open spec fn events_of(connection: nat, arrivals: Seq<Arrival>) -> Seq<ConnectionEventView>
    decreases arrivals.len(),
{
    if arrivals.len() == 0 {
        Seq::empty()
    } else if arrivals.first().connection == connection {
        seq![arrivals.first().event] + events_of(connection, arrivals.drop_first())
    } else {
        events_of(connection, arrivals.drop_first())
    }
}

/// Where the connections stand after `arrivals`, when each arrival is
/// taken in by the connection that it happens on and by no other.
/// `states` says where each connection stood before.
pub open spec fn states_after(states: Map<nat, ConnectionState>, arrivals: Seq<Arrival>) -> Map<
    nat,
    ConnectionState,
>
    decreases arrivals.len(),
{
    if arrivals.len() == 0 {
        states
    } else {
        let first = arrivals.first();
        let next = transition(states[first.connection], first.event).0;
        states_after(states.insert(first.connection, next), arrivals.drop_first())
    }
}

/// All that is sent to the client of `connection` while the connections
/// take in `arrivals`, each arrival going to the connection that it
/// happens on. `file` is the text that lines are looked up in, or `None` if
/// it cannot be read.
pub open spec fn written_to(
    connection: nat,
    states: Map<nat, ConnectionState>,
    arrivals: Seq<Arrival>,
    file: Option<Seq<char>>,
) -> Seq<char>
    decreases arrivals.len(),
{
    if arrivals.len() == 0 {
        Seq::empty()
    } else {
        let first = arrivals.first();
        let (next, action) = transition(states[first.connection], first.event);
        let here = if first.connection == connection {
            sent(reply(action, file))
        } else {
            Seq::empty()
        };
        here + written_to(
            connection,
            states.insert(first.connection, next),
            arrivals.drop_first(),
            file,
        )
    }
}

/// Connections do not touch each other: however the events of many
/// connections are mixed, each connection ends where its own events alone
/// would have taken it, and its client is sent what those events alone
/// would have had it sent, with nothing of another connection in between.
pub proof fn connections_do_not_mix(
    connection: nat,
    states: Map<nat, ConnectionState>,
    arrivals: Seq<Arrival>,
    file: Option<Seq<char>>,
)
    requires
        states.dom().contains(connection),
    ensures
        states_after(states, arrivals).dom().contains(connection),
        states_after(states, arrivals)[connection] == state_after(
            states[connection],
            events_of(connection, arrivals),
        ),
        written_to(connection, states, arrivals, file) == written(
            states[connection],
            events_of(connection, arrivals),
            file,
        ),
    decreases arrivals.len(),
{
    if arrivals.len() > 0 {
        let first = arrivals.first();
        let (next, action) = transition(states[first.connection], first.event);
        let moved = states.insert(first.connection, next);
        connections_do_not_mix(connection, moved, arrivals.drop_first(), file);
        let own = events_of(connection, arrivals.drop_first());
        if first.connection == connection {
            let all = seq![first.event] + own;
            assert(all.first() == first.event);
            assert(all.drop_first() =~= own);
        } else {
            assert(Seq::<char>::empty() + written(states[connection], own, file) =~= written(
                states[connection],
                own,
                file,
            ));
        }
    }
}

/// Two clients that ask for two lines at the same time each get their own
/// line: whichever request is taken first, and whatever else happens on
/// other connections in between, the first client is sent line `n` and a
/// line feed, the second line `m` and a line feed, and neither is sent
/// anything of the other's.
pub proof fn concurrent_gets_are_answered_apart(
    content: Seq<char>,
    first: nat,
    second: nat,
    n: nat,
    m: nat,
    states: Map<nat, ConnectionState>,
    arrivals: Seq<Arrival>,
)
    requires
        content.len() <= usize::MAX,
        first != second,
        1 <= n <= lines(content).len(),
        1 <= m <= lines(content).len(),
        states.dom().contains(first),
        states.dom().contains(second),
        states[first] == ConnectionState::Reading,
        states[second] == ConnectionState::Reading,
        events_of(first, arrivals) == seq![ConnectionEventView::Line(get_line(n))],
        events_of(second, arrivals) == seq![ConnectionEventView::Line(get_line(m))],
    ensures
        written_to(first, states, arrivals, Some(content)) == lines(content)[n - 1].push('\n'),
        written_to(second, states, arrivals, Some(content)) == lines(content)[m - 1].push('\n'),
{
    connections_do_not_mix(first, states, arrivals, Some(content));
    connections_do_not_mix(second, states, arrivals, Some(content));
    one_get_sends_one_line(content, n);
    one_get_sends_one_line(content, m);
}

/// A reading connection that takes in one request for a line of the file,
/// and nothing else, sends that line and a line feed.
pub proof fn one_get_sends_one_line(content: Seq<char>, n: nat)
    requires
        content.len() <= usize::MAX,
        1 <= n <= lines(content).len(),
    ensures
        written(
            ConnectionState::Reading,
            seq![ConnectionEventView::Line(get_line(n))],
            Some(content),
        ) == lines(content)[n - 1].push('\n'),
{
    get_sends_the_line(content, n);
    let events = seq![ConnectionEventView::Line(get_line(n))];
    let answer = lines(content)[n - 1].push('\n');
    assert(events.drop_first() =~= Seq::<ConnectionEventView>::empty());
    assert(written(ConnectionState::Reading, events.drop_first(), Some(content))
        =~= Seq::<char>::empty());
    assert(answer + Seq::<char>::empty() =~= answer);
}

/// A shutdown reaches everyone: where the shutdown signal is among the
/// events of a connection, that connection is closed in the end, however
/// the events of the connections are mixed and wherever it stood before.
pub proof fn the_signal_closes_every_connection(
    states: Map<nat, ConnectionState>,
    arrivals: Seq<Arrival>,
)
    ensures
        forall|connection: nat|
            #![trigger states_after(states, arrivals)[connection]]
            states.dom().contains(connection) && events_of(connection, arrivals).contains(
                ConnectionEventView::Cancelled,
            ) ==> states_after(states, arrivals)[connection] == ConnectionState::Closed,
{
    assert forall|connection: nat|
        #![trigger states_after(states, arrivals)[connection]]
        states.dom().contains(connection) && events_of(connection, arrivals).contains(
            ConnectionEventView::Cancelled,
        ) implies states_after(states, arrivals)[connection] == ConnectionState::Closed by {
        let own = events_of(connection, arrivals);
        let at = choose|i: int| 0 <= i < own.len() && own[i] == ConnectionEventView::Cancelled;
        let before = own.take(at);
        let after = own.skip(at + 1);
        assert(own =~= before + seq![ConnectionEventView::Cancelled] + after);
        signal_closes_the_connection(states[connection], before, after, None);
        connections_do_not_mix(connection, states, arrivals, None);
    }
}

} // verus!
