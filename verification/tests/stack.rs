use server::error::{Error, ErrorKind};
use server::parser::word::Address;
use server::parser::{BinaryFile, Channel, Stack};

fn lines(text: &[&str]) -> Vec<String> {
    text.iter().map(|line| String::from(*line)).collect()
}

fn on_line(text: &str) -> Stack {
    let mut stack = Stack::new(&lines(&[text]));
    assert!(stack.pop_newline().unwrap().is_some());
    stack
}

fn error(kind: ErrorKind, line: usize, detail: &str) -> Error {
    Error { kind, line, detail: String::from(detail) }
}

#[test]
fn the_key_of_each_directive_line_is_given_in_turn() {
    let mut stack = Stack::new(&lines(&["# comment", "", "? lookup dir", "   :client a", "", "#x"]));
    assert_eq!(stack.pop_newline(), Ok(Some(String::from("?"))));
    assert_eq!(stack.pop_newline(), Ok(Some(String::from(":client"))));
    assert_eq!(stack.pop_newline(), Ok(None));
    assert_eq!(stack.pop_newline(), Ok(None));
}

#[test]
fn an_empty_configuration_has_no_directive() {
    let mut stack = Stack::new(&Vec::new());
    assert_eq!(stack.pop_newline(), Ok(None));
}

#[test]
fn a_line_of_white_space_has_no_key() {
    let mut stack = Stack::new(&lines(&["?a", "   ", "?b"]));
    assert_eq!(stack.pop_newline(), Ok(Some(String::from("?a"))));
    assert_eq!(stack.pop_newline(), Err(error(ErrorKind::MissingOperand, 2, "no key specified")));
}

#[test]
fn a_comment_starts_in_the_first_column() {
    let mut stack = Stack::new(&lines(&[" #key operand"]));
    assert_eq!(stack.pop_newline(), Ok(Some(String::from("#key"))));
    assert_eq!(stack.take("hint"), Ok(String::from("operand")));
}

#[test]
fn operands_are_taken_from_left_to_right() {
    let mut stack = on_line("key first second third");
    assert_eq!(stack.take("hint"), Ok(String::from("first")));
    assert_eq!(stack.take("hint"), Ok(String::from("second")));
    assert_eq!(stack.take("hint"), Ok(String::from("third")));
    assert_eq!(stack.take("nothing left"), Err(error(ErrorKind::MissingOperand, 1, "nothing left")));
}

#[test]
fn operands_do_not_pass_to_the_next_line() {
    let mut stack = Stack::new(&lines(&["a 1 2", "b 3"]));
    assert_eq!(stack.pop_newline(), Ok(Some(String::from("a"))));
    assert_eq!(stack.take(""), Ok(String::from("1")));
    assert_eq!(stack.pop_newline(), Ok(Some(String::from("b"))));
    assert_eq!(stack.take(""), Ok(String::from("3")));
    assert_eq!(stack.take("end"), Err(error(ErrorKind::MissingOperand, 2, "end")));
}

#[test]
fn no_operand_is_taken_before_the_first_line_and_after_the_last() {
    let mut stack = Stack::new(&lines(&["a b"]));
    assert_eq!(stack.take("hint"), Err(error(ErrorKind::InvalidLine, 0, "")));
    assert_eq!(stack.pop_newline(), Ok(Some(String::from("a"))));
    assert_eq!(stack.pop_newline(), Ok(None));
    assert_eq!(stack.take("hint"), Err(error(ErrorKind::InvalidLine, 1, "")));
}

#[test]
fn the_hint_pushed_last_tells_what_is_missing() {
    let mut stack = on_line("key only");
    stack.push_debug("first hint");
    stack.push_debug("second hint");
    assert_eq!(stack.pop(), Ok(String::from("only")));
    assert_eq!(stack.pop(), Err(error(ErrorKind::MissingOperand, 1, "first hint")));
}

#[test]
fn rejections_carry_the_number_of_the_line() {
    let mut stack = Stack::new(&lines(&["", "# c", "key x"]));
    assert!(stack.pop_newline().unwrap().is_some());
    assert_eq!(stack.pop_u64(), Err(error(ErrorKind::InvalidNumber, 3, "x")));
    assert_eq!(stack.panic(ErrorKind::NoMode, String::from("d")), error(ErrorKind::NoMode, 3, "d"));
}

#[test]
fn a_directory_is_taken_with_its_slash() {
    let mut stack = on_line("key devices other/");
    assert_eq!(stack.pop_directory(), Ok(String::from("devices/")));
    assert_eq!(stack.pop_directory(), Ok(String::from("other/")));
    assert_eq!(stack.pop_directory(), Err(error(ErrorKind::MissingOperand, 1, "no directory specified")));
}

#[test]
fn the_counter_counts_on_from_the_last_number() {
    let mut stack = on_line("key * * 10 * 3 * *");
    assert_eq!(stack.pop_counter(), Ok(1));
    assert_eq!(stack.pop_counter(), Ok(2));
    assert_eq!(stack.pop_counter(), Ok(10));
    assert_eq!(stack.pop_counter(), Ok(11));
    assert_eq!(stack.pop_counter(), Ok(3));
    assert_eq!(stack.pop_counter(), Ok(4));
    assert_eq!(stack.pop_counter(), Ok(5));
}

#[test]
fn the_counter_goes_on_over_lines() {
    let mut stack = Stack::new(&lines(&["a 7", "b *"]));
    assert!(stack.pop_newline().unwrap().is_some());
    assert_eq!(stack.pop_counter(), Ok(7));
    assert!(stack.pop_newline().unwrap().is_some());
    assert_eq!(stack.pop_counter(), Ok(8));
}

#[test]
fn the_counter_takes_a_star_or_a_number() {
    let mut stack = on_line("key x ** -1");
    assert_eq!(stack.pop_counter(), Err(error(ErrorKind::InvalidValue, 1, "x")));
    assert_eq!(stack.pop_counter(), Err(error(ErrorKind::InvalidValue, 1, "**")));
    assert_eq!(stack.pop_counter(), Err(error(ErrorKind::InvalidValue, 1, "-1")));
    assert_eq!(stack.pop_counter(), Err(error(ErrorKind::MissingOperand, 1, "no value specified")));
}

#[test]
fn the_counter_stops_at_the_largest_number() {
    let line = format!("key {} *", usize::MAX);
    let mut stack = on_line(&line);
    assert_eq!(stack.pop_counter(), Ok(usize::MAX));
    assert_eq!(stack.pop_counter(), Err(error(ErrorKind::CounterOverflow, 1, "*")));
}

#[test]
fn a_rejected_counter_leaves_the_count() {
    let mut stack = on_line("key 5 x *");
    assert_eq!(stack.pop_counter(), Ok(5));
    assert!(stack.pop_counter().is_err());
    assert_eq!(stack.pop_counter(), Ok(6));
}

#[test]
fn numbers_are_taken_and_cut_to_size() {
    let mut stack = on_line("key 1024 300 300 18446744073709551615 x");
    assert_eq!(stack.pop_u64(), Ok(1024));
    assert_eq!(stack.pop_u8(), Ok(44));
    assert_eq!(stack.pop_usize(), Ok(300));
    assert_eq!(stack.pop_u8(), Ok(255));
    assert_eq!(stack.pop_usize(), Err(error(ErrorKind::InvalidNumber, 1, "x")));
    assert_eq!(stack.pop_u8(), Err(error(ErrorKind::MissingOperand, 1, "no number specified")));
}

#[test]
fn an_index_is_a_number_that_fits() {
    let mut stack = on_line("key 12 x 99999999999999999999999");
    assert_eq!(stack.pop_index(), Ok(12));
    assert_eq!(stack.pop_index(), Err(error(ErrorKind::InvalidIndex, 1, "x")));
    assert_eq!(stack.pop_index(), Err(error(ErrorKind::InvalidIndex, 1, "99999999999999999999999")));
    assert_eq!(stack.pop_index(), Err(error(ErrorKind::MissingOperand, 1, "no index specified")));
}

#[test]
fn a_mode_is_base_or_a_pattern() {
    let mut stack = on_line("key base 00010000 0001000 0001000x");
    assert_eq!(stack.pop_mode(), Ok(None));
    assert_eq!(stack.pop_mode(), Ok(Some(8)));
    assert_eq!(stack.pop_mode(), Err(error(ErrorKind::InvalidModeLength, 1, "0001000")));
    assert_eq!(stack.pop_mode(), Err(error(ErrorKind::InvalidModeCharacter, 1, "0001000x")));
    assert_eq!(stack.pop_mode(), Err(error(ErrorKind::MissingOperand, 1, "no mode specified")));
}

#[test]
fn a_state_is_taken() {
    let mut stack = on_line("key enabled disabled on");
    assert_eq!(stack.pop_state(), Ok(true));
    assert_eq!(stack.pop_state(), Ok(false));
    assert_eq!(stack.pop_state(), Err(error(ErrorKind::InvalidState, 1, "on")));
    assert_eq!(
        stack.pop_state(),
        Err(error(
            ErrorKind::MissingOperand,
            1,
            "no state specified. valid options are 'enabled' and 'disabled'"
        ))
    );
}

#[test]
fn a_channel_is_taken() {
    let mut stack = on_line("key stable beta nightly none other");
    assert_eq!(stack.pop_channel(), Ok(Channel::Stable));
    assert_eq!(stack.pop_channel(), Ok(Channel::Beta));
    assert_eq!(stack.pop_channel(), Ok(Channel::Nightly));
    assert_eq!(stack.pop_channel(), Ok(Channel::Plain));
    assert_eq!(stack.pop_channel(), Err(error(ErrorKind::InvalidChannel, 1, "other")));
    assert_eq!(
        stack.pop_channel(),
        Err(error(
            ErrorKind::MissingOperand,
            1,
            "no channel specified. valid options are 'stable', 'beta', 'nightly' or 'none'"
        ))
    );
}

#[test]
fn an_address_is_taken() {
    let mut stack = on_line("key 10.0.0.7 10.0.0");
    assert_eq!(stack.pop_ip(), Ok(Address(10, 0, 0, 7)));
    assert_eq!(stack.pop_ip(), Err(error(ErrorKind::InvalidAddress, 1, "10.0.0")));
    assert_eq!(stack.pop_ip(), Err(error(ErrorKind::MissingOperand, 1, "no ip address specified")));
}

#[test]
fn a_name_is_taken_and_a_bang_is_none() {
    let mut stack = on_line("key alpha ! !!");
    assert_eq!(stack.pop_name(), Ok(Some(String::from("alpha"))));
    assert_eq!(stack.pop_name(), Ok(None));
    assert_eq!(stack.pop_name(), Ok(Some(String::from("!!"))));
    assert_eq!(stack.pop_name(), Err(error(ErrorKind::MissingOperand, 1, "no name specified")));
}

#[test]
fn a_binary_is_taken_by_index_or_name() {
    let table = vec![
        BinaryFile { path: String::from("a.bin"), name: Some(String::from("alpha")) },
        BinaryFile { path: String::from("b.bin"), name: Some(String::from("beta")) },
    ];
    let mut stack = on_line("key 1 alpha 2 gamma");
    assert_eq!(stack.pop_binary(&table), Ok(String::from("b.bin")));
    assert_eq!(stack.pop_binary(&table), Ok(String::from("a.bin")));
    assert_eq!(stack.pop_binary(&table), Err(error(ErrorKind::BinaryNotFound, 1, "2")));
    assert_eq!(stack.pop_binary(&table), Err(error(ErrorKind::BinaryNotFound, 1, "gamma")));
    assert_eq!(
        stack.pop_binary(&table),
        Err(error(ErrorKind::MissingOperand, 1, "no binary name or index specified"))
    );
}

#[test]
fn a_character_is_taken() {
    let mut stack = on_line("key bA s 10 b 300");
    assert_eq!(stack.pop_ascii(), Ok(65));
    assert_eq!(stack.pop_ascii(), Ok(32));
    assert_eq!(stack.pop_ascii(), Ok(10));
    assert_eq!(stack.pop_ascii(), Err(error(ErrorKind::MissingCharacter, 1, "b")));
    assert_eq!(stack.pop_ascii(), Err(error(ErrorKind::InvalidCharacter, 1, "300")));
    assert_eq!(stack.pop_ascii(), Err(error(ErrorKind::MissingOperand, 1, "no character specified")));
}

#[test]
fn a_character_has_one_of_three_forms() {
    let mut stack = on_line("key bs space bAB sx +7 b\u{e9} 0");
    assert_eq!(stack.pop_ascii(), Ok(115));
    assert_eq!(stack.pop_ascii(), Err(error(ErrorKind::InvalidCharacter, 1, "space")));
    assert_eq!(stack.pop_ascii(), Err(error(ErrorKind::InvalidCharacter, 1, "bAB")));
    assert_eq!(stack.pop_ascii(), Err(error(ErrorKind::InvalidCharacter, 1, "sx")));
    assert_eq!(stack.pop_ascii(), Ok(7));
    assert_eq!(stack.pop_ascii(), Err(error(ErrorKind::InvalidCharacter, 1, "b\u{e9}")));
    assert_eq!(stack.pop_ascii(), Ok(0));
}

#[test]
fn a_client_is_taken_by_index_or_name() {
    let names = vec![String::from("a"), String::from("b")];
    let mut stack = on_line("key b 0 7 c");
    assert_eq!(stack.pop_client(&names), Ok(1));
    assert_eq!(stack.pop_client(&names), Ok(0));
    assert_eq!(stack.pop_client(&names), Ok(7));
    assert_eq!(stack.pop_client(&names), Err(error(ErrorKind::ClientNotFound, 1, "c")));
    assert_eq!(
        stack.pop_client(&names),
        Err(error(ErrorKind::MissingOperand, 1, "no client name or index specified"))
    );
}

#[test]
fn a_sequence_has_one_to_three_items() {
    let mut stack = on_line("key 1 ; 2 3 ; 4 5 6 ; rest");
    assert_eq!(stack.pop_sequence(), Ok(vec![1]));
    assert_eq!(stack.pop_sequence(), Ok(vec![2, 3]));
    assert_eq!(stack.pop_sequence(), Ok(vec![4, 5, 6]));
    assert_eq!(stack.take(""), Ok(String::from("rest")));
}

#[test]
fn a_sequence_without_items_is_rejected() {
    let mut stack = on_line("key ; 1 ; next");
    assert_eq!(stack.pop_sequence(), Err(error(ErrorKind::EmptySequence, 1, "")));
    assert_eq!(stack.pop_sequence(), Ok(vec![1]));
    assert_eq!(stack.take(""), Ok(String::from("next")));
}

#[test]
fn a_sequence_with_more_than_three_items_is_rejected() {
    let mut stack = on_line("key 1 2 3 4 ; next");
    assert_eq!(stack.pop_sequence(), Err(error(ErrorKind::LongSequence, 1, "")));
    assert_eq!(stack.take(""), Ok(String::from("next")));
    let mut stack = on_line("key 1 2 3 4 5 6 7 ;");
    assert_eq!(stack.pop_sequence(), Err(error(ErrorKind::LongSequence, 1, "")));
}

#[test]
fn a_sequence_with_something_else_is_rejected() {
    let mut stack = on_line("key 1 x 2 ;");
    assert_eq!(stack.pop_sequence(), Err(error(ErrorKind::InvalidSequence, 1, "x")));
    assert_eq!(stack.pop_sequence(), Ok(vec![2]));
    let mut stack = on_line("key 1 2 3 4 x ;");
    assert_eq!(stack.pop_sequence(), Err(error(ErrorKind::InvalidSequence, 1, "x")));
}

#[test]
fn a_sequence_that_is_not_closed_is_rejected() {
    let mut stack = on_line("key 1 2");
    assert_eq!(stack.pop_sequence(), Err(error(ErrorKind::UnterminatedSequence, 1, "")));
    assert_eq!(stack.take("gone"), Err(error(ErrorKind::MissingOperand, 1, "gone")));
    let mut stack = on_line("key");
    assert_eq!(stack.pop_sequence(), Err(error(ErrorKind::UnterminatedSequence, 1, "")));
}

#[test]
fn a_sequence_is_not_taken_outside_a_line() {
    let mut stack = Stack::new(&lines(&["key 1 ;"]));
    assert_eq!(stack.pop_sequence(), Err(error(ErrorKind::InvalidLine, 0, "")));
}
