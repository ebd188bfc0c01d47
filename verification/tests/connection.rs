use line_server::connection::{
    ConnectionAction, ConnectionEvent, ConnectionHandler, ConnectionState,
};
use line_server::lookup::{error_response, lookup, response};

fn line(text: &str) -> ConnectionEvent {
    ConnectionEvent::Line(text.to_string())
}

/// What a client is sent for `action` when the file holds `content`.
fn answer(action: &ConnectionAction, content: &str) -> Option<String> {
    match action {
        ConnectionAction::Serve(n) => Some(response(lookup(content, *n))),
        ConnectionAction::Refuse(_) => Some(error_response()),
        _ => None,
    }
}

#[test]
fn a_new_connection_reads() {
    let handler = ConnectionHandler::new();
    assert_eq!(handler.state(), ConnectionState::Reading);
    assert!(!handler.is_closed());
}

#[test]
fn get_is_served_and_the_connection_reads_on() {
    let mut handler = ConnectionHandler::new();
    assert_eq!(handler.handle(line("GET 2")), ConnectionAction::Serve(2));
    assert_eq!(handler.state(), ConnectionState::Reading);
    assert_eq!(handler.handle(line("GET 0")), ConnectionAction::Serve(0));
    assert_eq!(handler.state(), ConnectionState::Reading);
}

#[test]
fn get_without_a_number_is_refused_and_the_connection_reads_on() {
    let mut handler = ConnectionHandler::new();
    assert_eq!(handler.handle(line("GET xyz")), ConnectionAction::Refuse("GET xyz".to_string()));
    assert_eq!(handler.handle(line("GET")), ConnectionAction::Refuse("GET".to_string()));
    assert_eq!(handler.handle(line(" GET5 ")), ConnectionAction::Refuse(" GET5 ".to_string()));
    assert_eq!(handler.state(), ConnectionState::Reading);
}

#[test]
fn an_unknown_line_is_reported_and_the_connection_reads_on() {
    let mut handler = ConnectionHandler::new();
    assert_eq!(handler.handle(line("HELLO")), ConnectionAction::Report("HELLO".to_string()));
    assert_eq!(handler.handle(line("")), ConnectionAction::Report("".to_string()));
    assert_eq!(handler.handle(line("quit")), ConnectionAction::Report("quit".to_string()));
    assert_eq!(handler.state(), ConnectionState::Reading);
    assert_eq!(handler.handle(line("GET 1")), ConnectionAction::Serve(1));
}

#[test]
fn quit_closes_and_nothing_is_sent_afterwards() {
    let mut handler = ConnectionHandler::new();
    let action = handler.handle(line("QUIT"));
    assert_eq!(action, ConnectionAction::Close);
    assert_eq!(answer(&action, "A\nB\nC\n"), None);
    assert!(handler.is_closed());
    for event in [
        line("GET 1"),
        line("GET xyz"),
        line("SHUTDOWN"),
        ConnectionEvent::EndOfStream,
        ConnectionEvent::ReadFailed,
        ConnectionEvent::WriteFailed,
        ConnectionEvent::Cancelled,
    ] {
        let later = handler.handle(event);
        assert_eq!(later, ConnectionAction::Nothing);
        assert_eq!(answer(&later, "A\nB\nC\n"), None);
        assert_eq!(handler.state(), ConnectionState::Closed);
    }
}

#[test]
fn shutdown_raises_the_signal_and_closes() {
    let mut handler = ConnectionHandler::new();
    let action = handler.handle(line("SHUTDOWN\r"));
    assert_eq!(action, ConnectionAction::RaiseShutdown);
    assert_eq!(answer(&action, "A\n"), None);
    assert!(handler.is_closed());
    assert_eq!(handler.handle(line("GET 1")), ConnectionAction::Nothing);
}

#[test]
fn end_of_stream_closes() {
    let mut handler = ConnectionHandler::new();
    assert_eq!(handler.handle(ConnectionEvent::EndOfStream), ConnectionAction::Close);
    assert!(handler.is_closed());
}

#[test]
fn a_read_failure_closes() {
    let mut handler = ConnectionHandler::new();
    assert_eq!(handler.handle(ConnectionEvent::ReadFailed), ConnectionAction::Close);
    assert!(handler.is_closed());
}

#[test]
fn a_write_failure_leaves_the_connection_reading() {
    let mut handler = ConnectionHandler::new();
    assert_eq!(handler.handle(line("GET 1")), ConnectionAction::Serve(1));
    assert_eq!(handler.handle(ConnectionEvent::WriteFailed), ConnectionAction::Nothing);
    assert_eq!(handler.state(), ConnectionState::Reading);
    assert_eq!(handler.handle(line("GET 2")), ConnectionAction::Serve(2));
}

#[test]
fn the_signal_forces_an_idle_connection_closed() {
    let mut handler = ConnectionHandler::new();
    assert_eq!(handler.handle(ConnectionEvent::Cancelled), ConnectionAction::ForceClose);
    assert!(handler.is_closed());
    assert_eq!(handler.handle(ConnectionEvent::Cancelled), ConnectionAction::Nothing);
}

#[test]
fn the_signal_forces_a_busy_connection_closed() {
    let mut handler = ConnectionHandler::new();
    assert_eq!(handler.handle(line("GET 1")), ConnectionAction::Serve(1));
    assert_eq!(handler.handle(line("nonsense")), ConnectionAction::Report("nonsense".to_string()));
    assert_eq!(handler.handle(ConnectionEvent::Cancelled), ConnectionAction::ForceClose);
    assert!(handler.is_closed());
    assert_eq!(handler.handle(line("GET 1")), ConnectionAction::Nothing);
}

#[test]
fn a_file_of_three_lines_is_served_line_by_line() {
    let content = "A\nB\nC\n";
    let mut handler = ConnectionHandler::new();

    let action = handler.handle(line("GET 1"));
    assert_eq!(answer(&action, content), Some("A\n".to_string()));
    let action = handler.handle(line("GET 3"));
    assert_eq!(answer(&action, content), Some("C\n".to_string()));
    let action = handler.handle(line("GET 4"));
    assert_eq!(answer(&action, content), Some("ERR\n".to_string()));
    let action = handler.handle(line("GET xyz"));
    assert_eq!(answer(&action, content), Some("ERR\n".to_string()));
    assert_eq!(handler.state(), ConnectionState::Reading);

    let action = handler.handle(line("QUIT"));
    assert_eq!(action, ConnectionAction::Close);
    assert!(handler.is_closed());

    let mut other = ConnectionHandler::new();
    let mut idle = ConnectionHandler::new();
    assert_eq!(other.handle(line("SHUTDOWN")), ConnectionAction::RaiseShutdown);
    assert!(other.is_closed());
    assert_eq!(idle.handle(ConnectionEvent::Cancelled), ConnectionAction::ForceClose);
    assert!(idle.is_closed());
}

#[test]
fn every_line_of_a_file_is_served_with_one_line_feed() {
    let content = "zero\none\r\ntwo\n\nfour";
    let expected = ["zero", "one", "two", "", "four"];
    let mut handler = ConnectionHandler::new();
    for number in 1..=expected.len() {
        let action = handler.handle(line(&format!("GET {}", number)));
        assert_eq!(answer(&action, content), Some(format!("{}\n", expected[number - 1])));
    }
}

#[test]
fn numbers_outside_the_file_get_err() {
    let content = "zero\none\r\ntwo\n\nfour";
    let mut handler = ConnectionHandler::new();
    for text in ["GET 0", "GET 6", "GET 7", "GET 100000", "GET 99999999999999999999999999"] {
        let action = handler.handle(line(text));
        assert_eq!(answer(&action, content), Some("ERR\n".to_string()), "for {:?}", text);
        assert_eq!(handler.state(), ConnectionState::Reading);
    }
}

#[test]
fn two_connections_get_their_own_lines() {
    let content = "A\nB\nC\n";
    let mut first = ConnectionHandler::new();
    let mut second = ConnectionHandler::new();
    let to_first = first.handle(line("GET 1"));
    let to_second = second.handle(line("GET 3"));
    assert_eq!(answer(&to_second, content), Some("C\n".to_string()));
    assert_eq!(answer(&to_first, content), Some("A\n".to_string()));

    let mut first = ConnectionHandler::new();
    let mut second = ConnectionHandler::new();
    let to_second = second.handle(line("GET 3"));
    let to_first = first.handle(line("GET 1"));
    assert_eq!(answer(&to_first, content), Some("A\n".to_string()));
    assert_eq!(answer(&to_second, content), Some("C\n".to_string()));
}

#[test]
fn quit_on_one_connection_leaves_the_other_open() {
    let mut first = ConnectionHandler::new();
    let mut second = ConnectionHandler::new();
    assert_eq!(first.handle(line("QUIT")), ConnectionAction::Close);
    assert_eq!(second.handle(line("GET 2")), ConnectionAction::Serve(2));
    assert!(first.is_closed());
    assert!(!second.is_closed());
}
