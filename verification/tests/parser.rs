use server::controller::event::{EventBuilder, Rules, KEYWORD_MODE};
use server::error::{Error, ErrorKind};
use server::parser::{Handler, Parser};

fn lines(text: &[&str]) -> Vec<String> {
    text.iter().map(|line| String::from(*line)).collect()
}

fn builder() -> EventBuilder {
    EventBuilder { modes: Vec::new(), base_mode: None, rules: Rules::new(), client_names: Vec::new() }
}

fn error(kind: ErrorKind, line: usize, detail: &str) -> Error {
    Error { kind, line, detail: String::from(detail) }
}

#[test]
fn keywords_are_numbered_in_the_order_of_registration() {
    let mut parser = Parser::new(&lines(&[":first id 4 ;", ":second up 9"]));
    parser.register("first", false);
    parser.register("second", false);
    let mut handler = builder();
    assert_eq!(parser.parse(&mut handler), Ok(false));
    assert_eq!(handler.rules.bytes_id, Some(vec![4]));
    assert_eq!(handler.rules.value_up, Some(9));
}

#[test]
fn the_first_of_two_keywords_with_one_identifier_is_called() {
    let mut parser = Parser::new(&lines(&[":rule id 4 ;"]));
    parser.register("rule", false);
    parser.register("rule", false);
    let mut handler = builder();
    assert_eq!(parser.parse(&mut handler), Ok(false));
    assert_eq!(handler.rules.bytes_id, Some(vec![4]));
}

#[test]
fn a_keyword_for_one_call_is_called_with_a_question_mark_once() {
    let mut parser = Parser::new(&lines(&["?a id 1 ;", "?b up 2", "?a id 3 ;"]));
    parser.register("a", true);
    parser.register("b", true);
    let mut handler = builder();
    assert_eq!(parser.step(&mut handler), Ok(true));
    assert_eq!(parser.step(&mut handler), Ok(true));
    assert_eq!(parser.step(&mut handler), Err(error(ErrorKind::RepeatedCall, 3, "a")));
    assert_eq!(handler.rules.bytes_id, Some(vec![1]));
    assert_eq!(handler.rules.value_up, Some(2));
}

#[test]
fn a_call_that_is_rejected_does_not_count_as_the_one_call() {
    let mut parser = Parser::new(&lines(&["?a other 1 ;", "?a id 3 ;"]));
    parser.register("a", true);
    let mut handler = builder();
    assert_eq!(parser.step(&mut handler), Err(error(ErrorKind::InvalidByteRule, 1, "other")));
    assert_eq!(parser.step(&mut handler), Ok(true));
    assert_eq!(handler.rules.bytes_id, Some(vec![3]));
}

#[test]
fn a_step_tells_when_the_end_is_reached() {
    let mut parser = Parser::new(&lines(&["", "# nothing", ":a id 1 ;", ""]));
    parser.register("a", false);
    let mut handler = builder();
    assert_eq!(parser.step(&mut handler), Ok(true));
    assert_eq!(parser.step(&mut handler), Ok(false));
    assert_eq!(parser.step(&mut handler), Ok(false));
    assert_eq!(parser.stack().panic(ErrorKind::NoMode, String::new()).line, 4);
}

#[test]
fn what_is_left_on_a_line_is_passed_over() {
    let mut parser = Parser::new(&lines(&[":a id 1 ; and more words", ":a value 2 ;"]));
    parser.register("a", false);
    let mut handler = builder();
    assert_eq!(parser.parse(&mut handler), Ok(false));
    assert_eq!(handler.rules.bytes_id, Some(vec![1]));
    assert_eq!(handler.rules.bytes_value, Some(vec![2]));
}

#[test]
fn a_parser_without_keywords_rejects_every_directive() {
    let mut parser = Parser::new(&lines(&["", ":a"]));
    let mut handler = builder();
    assert_eq!(parser.parse(&mut handler), Err(error(ErrorKind::InvalidKeyword, 2, "a")));
    let mut parser = Parser::new(&lines(&["#", ""]));
    assert_eq!(parser.parse(&mut handler), Ok(false));
}

#[test]
fn a_handler_is_called_with_the_number_of_the_keyword() {
    let mut parser = Parser::new(&lines(&["key base"]));
    assert_eq!(parser.stack().panic(ErrorKind::NoMode, String::new()).line, 0);
    let mut handler = builder();
    assert!(!handler.is_waiting());
    let mut stack = server::parser::Stack::new(&lines(&["key base 10000000"]));
    stack.pop_newline().unwrap();
    assert_eq!(handler.call(KEYWORD_MODE, None, &mut stack), Ok(()));
    assert_eq!(handler.call(KEYWORD_MODE, Some("prefix"), &mut stack), Ok(()));
    assert_eq!(handler.call(99, None, &mut stack), Ok(()));
    assert!(handler.base_mode.is_some());
    assert_eq!(handler.modes.len(), 1);
    assert_eq!(handler.modes[0].mask, 1);
    assert_eq!(parser.step(&mut handler), Err(error(ErrorKind::InvalidKeyword, 1, "ey")));
}
