use line_server::request::{starts_with_get, Request};

#[test]
fn get_with_a_number_asks_for_that_line() {
    assert_eq!(Request::parse("GET 1"), Request::Get(1));
    assert_eq!(Request::parse("GET 42"), Request::Get(42));
    assert_eq!(Request::parse("GET 0"), Request::Get(0));
    assert_eq!(Request::parse("GET 007"), Request::Get(7));
    assert_eq!(Request::parse("GET +3"), Request::Get(3));
}

#[test]
fn white_space_round_the_line_and_the_number_does_not_count() {
    assert_eq!(Request::parse("GET 5\r"), Request::Get(5));
    assert_eq!(Request::parse("  GET 5  "), Request::Get(5));
    assert_eq!(Request::parse("GET    5"), Request::Get(5));
    assert_eq!(Request::parse("GET \t5\t"), Request::Get(5));
    assert_eq!(Request::parse("\tQUIT\r\n"), Request::Quit);
    assert_eq!(Request::parse(" SHUTDOWN "), Request::Shutdown);
}

#[test]
fn shutdown_and_quit_are_whole_lines() {
    assert_eq!(Request::parse("SHUTDOWN"), Request::Shutdown);
    assert_eq!(Request::parse("QUIT"), Request::Quit);
    assert_eq!(Request::parse("SHUTDOWN now"), Request::Invalid("SHUTDOWN now".to_string()));
    assert_eq!(Request::parse("QUIT 1"), Request::Invalid("QUIT 1".to_string()));
    assert_eq!(Request::parse("QUITS"), Request::Invalid("QUITS".to_string()));
    assert_eq!(Request::parse("quit"), Request::Invalid("quit".to_string()));
    assert_eq!(Request::parse("shutdown"), Request::Invalid("shutdown".to_string()));
    assert_eq!(Request::parse("QU IT"), Request::Invalid("QU IT".to_string()));
}

#[test]
fn get_without_a_number_is_invalid() {
    assert_eq!(Request::parse("GET xyz"), Request::Invalid("GET xyz".to_string()));
    assert_eq!(Request::parse("GET"), Request::Invalid("GET".to_string()));
    assert_eq!(Request::parse("GET "), Request::Invalid("GET ".to_string()));
    assert_eq!(Request::parse("GET5"), Request::Invalid("GET5".to_string()));
    assert_eq!(Request::parse("GET\t5"), Request::Invalid("GET\t5".to_string()));
    assert_eq!(Request::parse("GET -1"), Request::Invalid("GET -1".to_string()));
    assert_eq!(Request::parse("GET 1 2"), Request::Invalid("GET 1 2".to_string()));
    assert_eq!(Request::parse("GET 1.0"), Request::Invalid("GET 1.0".to_string()));
    assert_eq!(Request::parse("GETX 5"), Request::Invalid("GETX 5".to_string()));
}

#[test]
fn get_is_stripped_once() {
    assert_eq!(Request::parse("GET GET 5"), Request::Invalid("GET GET 5".to_string()));
    assert_eq!(Request::parse("GET 1GET 2"), Request::Invalid("GET 1GET 2".to_string()));
}

#[test]
fn get_with_a_number_too_large_is_invalid() {
    let line = format!("GET {}0", usize::MAX);
    assert_eq!(Request::parse(&line), Request::Invalid(line.clone()));
    let largest = format!("GET {}", usize::MAX);
    assert_eq!(Request::parse(&largest), Request::Get(usize::MAX));
}

#[test]
fn anything_else_is_invalid() {
    assert_eq!(Request::parse(""), Request::Invalid("".to_string()));
    assert_eq!(Request::parse("   "), Request::Invalid("   ".to_string()));
    assert_eq!(Request::parse("HELLO"), Request::Invalid("HELLO".to_string()));
    assert_eq!(Request::parse("get 1"), Request::Invalid("get 1".to_string()));
    assert_eq!(Request::parse("1"), Request::Invalid("1".to_string()));
    assert_eq!(Request::parse("PUT 1"), Request::Invalid("PUT 1".to_string()));
}

#[test]
fn an_invalid_request_keeps_the_line_as_it_came() {
    assert_eq!(Request::parse("  what? \r"), Request::Invalid("  what? \r".to_string()));
    assert_eq!(Request::parse(" GET x "), Request::Invalid(" GET x ".to_string()));
}

#[test]
fn starts_with_get_looks_past_white_space() {
    assert!(starts_with_get("GET 1"));
    assert!(starts_with_get("  GET 1"));
    assert!(starts_with_get("GET"));
    assert!(starts_with_get("GETX"));
    assert!(starts_with_get("GET xyz"));
    assert!(!starts_with_get("QUIT"));
    assert!(!starts_with_get("get 1"));
    assert!(!starts_with_get("GE"));
    assert!(!starts_with_get(""));
    assert!(!starts_with_get("x GET 1"));
}

#[test]
fn every_small_number_is_read_back() {
    for n in 0..2000usize {
        let line = format!("GET {}", n);
        assert_eq!(Request::parse(&line), Request::Get(n));
    }
}
