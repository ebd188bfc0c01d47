use line_server::lookup::{error_response, lookup, response, LookupError};

#[test]
fn lookup_finds_each_line_by_its_number() {
    let content = "A\nB\nC\n";
    assert_eq!(lookup(content, 1), Ok("A".to_string()));
    assert_eq!(lookup(content, 2), Ok("B".to_string()));
    assert_eq!(lookup(content, 3), Ok("C".to_string()));
}

#[test]
fn lookup_beyond_the_last_line_is_out_of_range() {
    let content = "A\nB\nC\n";
    assert_eq!(lookup(content, 4), Err(LookupError::OutOfRange { first: 1, last: 3 }));
    assert_eq!(lookup(content, 1000), Err(LookupError::OutOfRange { first: 1, last: 3 }));
    assert_eq!(lookup(content, usize::MAX), Err(LookupError::OutOfRange { first: 1, last: 3 }));
}

#[test]
fn lookup_of_line_zero_is_out_of_range() {
    assert_eq!(lookup("A\nB\nC\n", 0), Err(LookupError::OutOfRange { first: 1, last: 3 }));
    assert_eq!(lookup("", 0), Err(LookupError::OutOfRange { first: 1, last: 0 }));
}

#[test]
fn lookup_in_an_empty_text_finds_nothing() {
    assert_eq!(lookup("", 1), Err(LookupError::OutOfRange { first: 1, last: 0 }));
}

#[test]
fn lookup_counts_a_last_line_without_line_feed() {
    let content = "first\nsecond";
    assert_eq!(lookup(content, 1), Ok("first".to_string()));
    assert_eq!(lookup(content, 2), Ok("second".to_string()));
    assert_eq!(lookup(content, 3), Err(LookupError::OutOfRange { first: 1, last: 2 }));
    assert_eq!(lookup("only", 1), Ok("only".to_string()));
}

#[test]
fn lookup_counts_empty_lines() {
    assert_eq!(lookup("\n", 1), Ok("".to_string()));
    assert_eq!(lookup("\n", 2), Err(LookupError::OutOfRange { first: 1, last: 1 }));
    assert_eq!(lookup("A\n\nB\n", 2), Ok("".to_string()));
    assert_eq!(lookup("A\n\nB\n", 3), Ok("B".to_string()));
    assert_eq!(lookup("A\n\n", 2), Ok("".to_string()));
    assert_eq!(lookup("A\n\n", 3), Err(LookupError::OutOfRange { first: 1, last: 2 }));
}

#[test]
fn lookup_drops_a_carriage_return_before_the_line_feed() {
    let content = "one\r\ntwo\r\nthree";
    assert_eq!(lookup(content, 1), Ok("one".to_string()));
    assert_eq!(lookup(content, 2), Ok("two".to_string()));
    assert_eq!(lookup(content, 3), Ok("three".to_string()));
    assert_eq!(lookup("\r\n", 1), Ok("".to_string()));
    assert_eq!(lookup("a\r\r\n", 1), Ok("a\r".to_string()));
    assert_eq!(lookup("a\rb\n", 1), Ok("a\rb".to_string()));
}

#[test]
fn lookup_keeps_a_carriage_return_that_no_line_feed_follows() {
    assert_eq!(lookup("one\ntwo\r", 2), Ok("two\r".to_string()));
    assert_eq!(lookup("\r", 1), Ok("\r".to_string()));
}

#[test]
fn lookup_keeps_the_line_as_it_stands() {
    let content = "  padded  \n\ttabbed\nGrüße, 世界\n";
    assert_eq!(lookup(content, 1), Ok("  padded  ".to_string()));
    assert_eq!(lookup(content, 2), Ok("\ttabbed".to_string()));
    assert_eq!(lookup(content, 3), Ok("Grüße, 世界".to_string()));
}

#[test]
fn lookup_agrees_with_the_lines_of_std() {
    let samples = [
        "",
        "\n",
        "\n\n",
        "a",
        "a\n",
        "a\nb",
        "a\r\nb\r\n",
        "a\r\n\r\nb",
        "x\ry\n",
        "tail\r",
        "é\n日本\n\n",
        "\r\n\r\n",
    ];
    for content in samples {
        let expected: Vec<&str> = content.lines().collect();
        for number in 0..expected.len() + 3 {
            let found = lookup(content, number);
            if 1 <= number && number <= expected.len() {
                assert_eq!(found, Ok(expected[number - 1].to_string()), "in {:?}", content);
            } else {
                assert_eq!(
                    found,
                    Err(LookupError::OutOfRange { first: 1, last: expected.len() }),
                    "in {:?}",
                    content
                );
            }
        }
    }
}

#[test]
fn response_is_the_line_and_a_line_feed() {
    assert_eq!(response(Ok("A".to_string())), "A\n");
    assert_eq!(response(Ok("".to_string())), "\n");
    assert_eq!(response(Ok("two words".to_string())), "two words\n");
    assert_eq!(response(lookup("A\nB\nC\n", 3)), "C\n");
}

#[test]
fn response_to_any_failure_is_err() {
    assert_eq!(response(Err(LookupError::OutOfRange { first: 1, last: 3 })), "ERR\n");
    assert_eq!(response(Err(LookupError::IoFailure)), "ERR\n");
    assert_eq!(response(lookup("A\nB\nC\n", 4)), "ERR\n");
    assert_eq!(response(lookup("A\nB\nC\n", 0)), "ERR\n");
}

#[test]
fn error_response_is_err_and_a_line_feed() {
    assert_eq!(error_response(), "ERR\n");
}
