use server::error::ErrorKind;
use server::parser::line::{copy_words, is_whitespace, split_words};
use server::parser::word::{
    characters, find_binary, find_client, into_directory, parse_address, parse_ascii,
    parse_channel, parse_mode, parse_state, parse_u64, parse_u8, parse_usize, read_decimal,
    Address,
};
use server::parser::{BinaryFile, Channel};

fn binary(path: &str, name: Option<&str>) -> BinaryFile {
    BinaryFile { path: String::from(path), name: name.map(String::from) }
}

#[test]
fn characters_are_given_one_by_one() {
    assert_eq!(characters("a\u{e9}b"), vec!['a', '\u{e9}', 'b']);
    assert_eq!(characters(""), Vec::<char>::new());
}

#[test]
fn decimal_numbers_are_read() {
    assert_eq!(parse_u64("0"), Some(0));
    assert_eq!(parse_u64("1024"), Some(1024));
    assert_eq!(parse_u64("007"), Some(7));
    assert_eq!(parse_u64("+5"), Some(5));
    assert_eq!(parse_u64("18446744073709551615"), Some(u64::MAX));
}

#[test]
fn what_is_no_decimal_number_is_not_read() {
    assert_eq!(parse_u64(""), None);
    assert_eq!(parse_u64("+"), None);
    assert_eq!(parse_u64("-1"), None);
    assert_eq!(parse_u64("12a"), None);
    assert_eq!(parse_u64("a12"), None);
    assert_eq!(parse_u64("1 2"), None);
    assert_eq!(parse_u64("++1"), None);
    assert_eq!(parse_u64("0x10"), None);
    assert_eq!(parse_u64("18446744073709551616"), None);
    assert_eq!(parse_u64("99999999999999999999999"), None);
}

#[test]
fn decimal_numbers_agree_with_the_standard_library() {
    let words = [
        "0", "1", "9", "10", "255", "256", "65535", "+0", "+255", "-0", "", "+", "-", "1+", "٣",
        "4294967295", "4294967296", "18446744073709551615", "18446744073709551616", "00000000000000000000001",
        "1_000", " 1", "1 ", "1.0", "1e3",
    ];
    for word in words {
        assert_eq!(parse_u64(word), word.parse::<u64>().ok(), "{:?}", word);
        assert_eq!(parse_usize(word), word.parse::<usize>().ok(), "{:?}", word);
        assert_eq!(parse_u8(word), word.parse::<u8>().ok(), "{:?}", word);
    }
}

#[test]
fn a_limit_bounds_what_is_read() {
    assert_eq!(read_decimal("255", 255), Some(255));
    assert_eq!(read_decimal("256", 255), None);
    assert_eq!(read_decimal("3", 2), None);
    assert_eq!(read_decimal("0", 0), Some(0));
    assert_eq!(read_decimal("10", 9), None);
}

#[test]
fn base_names_the_base_mode() {
    assert_eq!(parse_mode("base"), Ok(None));
}

#[test]
fn a_pattern_gives_its_mask_with_the_first_character_as_the_lowest_bit() {
    assert_eq!(parse_mode("00000000"), Ok(Some(0)));
    assert_eq!(parse_mode("10000000"), Ok(Some(1)));
    assert_eq!(parse_mode("00010000"), Ok(Some(0b0000_1000)));
    assert_eq!(parse_mode("00000001"), Ok(Some(0b1000_0000)));
    assert_eq!(parse_mode("11111111"), Ok(Some(0xff)));
    assert_eq!(parse_mode("10100101"), Ok(Some(0b1010_0101)));
    assert_eq!(parse_mode("11000000"), Ok(Some(0b0000_0011)));
}

#[test]
fn a_pattern_of_another_length_is_rejected() {
    assert_eq!(parse_mode(""), Err(ErrorKind::InvalidModeLength));
    assert_eq!(parse_mode("0000000"), Err(ErrorKind::InvalidModeLength));
    assert_eq!(parse_mode("000000000"), Err(ErrorKind::InvalidModeLength));
    assert_eq!(parse_mode("bas"), Err(ErrorKind::InvalidModeLength));
    assert_eq!(parse_mode("2"), Err(ErrorKind::InvalidModeLength));
}

#[test]
fn a_pattern_with_another_character_is_rejected() {
    assert_eq!(parse_mode("00000002"), Err(ErrorKind::InvalidModeCharacter));
    assert_eq!(parse_mode("a0000000"), Err(ErrorKind::InvalidModeCharacter));
    assert_eq!(parse_mode("0000 000"), Err(ErrorKind::InvalidModeCharacter));
    assert_eq!(parse_mode("baseline"), Err(ErrorKind::InvalidModeCharacter));
    assert_eq!(parse_mode("0000000\u{e9}"), Err(ErrorKind::InvalidModeCharacter));
}

#[test]
fn every_pattern_of_eight_binary_digits_is_accepted() {
    for mask in 0..=255u8 {
        let mut pattern = String::new();
        for bit in 0..8 {
            pattern.push(if mask & (1 << bit) != 0 { '1' } else { '0' });
        }
        assert_eq!(parse_mode(&pattern), Ok(Some(mask)));
    }
}

#[test]
fn a_character_is_a_literal_a_space_or_a_number() {
    assert_eq!(parse_ascii("bA"), Ok(65));
    assert_eq!(parse_ascii("bb"), Ok(98));
    assert_eq!(parse_ascii("bs"), Ok(115));
    assert_eq!(parse_ascii("b0"), Ok(48));
    assert_eq!(parse_ascii("b~"), Ok(126));
    assert_eq!(parse_ascii("b\u{7f}"), Ok(127));
    assert_eq!(parse_ascii("s"), Ok(32));
    assert_eq!(parse_ascii("65"), Ok(65));
    assert_eq!(parse_ascii("0"), Ok(0));
    assert_eq!(parse_ascii("255"), Ok(255));
}

#[test]
fn a_character_that_is_none_of_these_is_rejected() {
    assert_eq!(parse_ascii("b"), Err(ErrorKind::MissingCharacter));
    assert_eq!(parse_ascii(""), Err(ErrorKind::MissingCharacter));
    assert_eq!(parse_ascii("256"), Err(ErrorKind::InvalidCharacter));
    assert_eq!(parse_ascii("x"), Err(ErrorKind::InvalidCharacter));
    assert_eq!(parse_ascii("A"), Err(ErrorKind::InvalidCharacter));
    assert_eq!(parse_ascii("bABC"), Err(ErrorKind::InvalidCharacter));
    assert_eq!(parse_ascii("bAB"), Err(ErrorKind::InvalidCharacter));
    assert_eq!(parse_ascii("space"), Err(ErrorKind::InvalidCharacter));
    assert_eq!(parse_ascii("sx"), Err(ErrorKind::InvalidCharacter));
    assert_eq!(parse_ascii("s1"), Err(ErrorKind::InvalidCharacter));
    assert_eq!(parse_ascii("b\u{80}"), Err(ErrorKind::InvalidCharacter));
    assert_eq!(parse_ascii("b\u{e9}"), Err(ErrorKind::InvalidCharacter));
    assert_eq!(parse_ascii("b\u{20ac}"), Err(ErrorKind::InvalidCharacter));
}

#[test]
fn a_directory_ends_with_a_slash() {
    assert_eq!(into_directory(String::from("devices")), "devices/");
    assert_eq!(into_directory(String::from("devices/")), "devices/");
    assert_eq!(into_directory(String::from("/")), "/");
    assert_eq!(into_directory(String::from("a/b")), "a/b/");
    assert_eq!(into_directory(String::new()), "/");
}

#[test]
fn a_state_is_enabled_or_disabled() {
    assert_eq!(parse_state("enabled"), Some(true));
    assert_eq!(parse_state("disabled"), Some(false));
    assert_eq!(parse_state("Enabled"), None);
    assert_eq!(parse_state("enable"), None);
    assert_eq!(parse_state(""), None);
}

#[test]
fn a_channel_is_one_of_four() {
    assert_eq!(parse_channel("stable"), Some(Channel::Stable));
    assert_eq!(parse_channel("beta"), Some(Channel::Beta));
    assert_eq!(parse_channel("nightly"), Some(Channel::Nightly));
    assert_eq!(parse_channel("none"), Some(Channel::Plain));
    assert_eq!(parse_channel("None"), None);
    assert_eq!(parse_channel("stabl"), None);
}

#[test]
fn each_channel_has_its_suffix() {
    assert_eq!(Channel::Stable.suffix(), ".stable");
    assert_eq!(Channel::Beta.suffix(), ".beta");
    assert_eq!(Channel::Nightly.suffix(), ".nightly");
    assert_eq!(Channel::Plain.suffix(), "");
}

#[test]
fn a_dotted_address_is_read() {
    assert_eq!(parse_address("192.168.0.1"), Some(Address(192, 168, 0, 1)));
    assert_eq!(parse_address("0.0.0.0"), Some(Address(0, 0, 0, 0)));
    assert_eq!(parse_address("255.255.255.255"), Some(Address(255, 255, 255, 255)));
    assert_eq!(parse_address("10.20.30.40"), Some(Address(10, 20, 30, 40)));
}

#[test]
fn what_is_no_dotted_address_is_not_read() {
    for word in [
        "", "1", "1.2", "1.2.3", "1.2.3.4.5", "1.2.3.", ".1.2.3", "1..2.3", "256.1.1.1",
        "1.2.3.256", "01.2.3.4", "1.2.3.04", "1.2.3.4 ", " 1.2.3.4", "a.b.c.d", "1.2.3.+4",
        "1.2.3.4.", "0001.2.3.4", "1,2,3,4", "00.0.0.0", "1.2.3.1000",
    ] {
        assert_eq!(parse_address(word), None, "{:?}", word);
    }
}

#[test]
fn a_client_is_named_by_index_or_by_name() {
    let names = vec![String::from("a"), String::from("b"), String::from("c")];
    assert_eq!(find_client(&names, "0"), Some(0));
    assert_eq!(find_client(&names, "b"), Some(1));
    assert_eq!(find_client(&names, "c"), Some(2));
    assert_eq!(find_client(&names, "200"), Some(200));
    assert_eq!(find_client(&names, "d"), None);
    assert_eq!(find_client(&names, "256"), None);
    assert_eq!(find_client(&Vec::new(), "a"), None);
}

#[test]
fn the_first_of_two_clients_with_one_name_is_found() {
    let names = vec![String::from("x"), String::from("y"), String::from("y")];
    assert_eq!(find_client(&names, "y"), Some(1));
}

#[test]
fn a_binary_is_named_by_index_or_by_name() {
    let table = vec![binary("a.bin", Some("alpha")), binary("b.bin", Some("beta")), binary("c.bin", None)];
    assert_eq!(find_binary(&table, "0"), Some(String::from("a.bin")));
    assert_eq!(find_binary(&table, "1"), Some(String::from("b.bin")));
    assert_eq!(find_binary(&table, "2"), Some(String::from("c.bin")));
    assert_eq!(find_binary(&table, "alpha"), Some(String::from("a.bin")));
    assert_eq!(find_binary(&table, "beta"), Some(String::from("b.bin")));
    assert_eq!(find_binary(&table, "3"), None);
    assert_eq!(find_binary(&table, "gamma"), None);
    assert_eq!(find_binary(&table, "c.bin"), None);
    assert_eq!(find_binary(&table, "!"), None);
}

#[test]
fn white_space_agrees_with_the_standard_library() {
    for code in 0..=0x10ffffu32 {
        if let Some(character) = char::from_u32(code) {
            assert_eq!(is_whitespace(character), character.is_whitespace(), "{:x}", code);
        }
    }
}

#[test]
fn a_line_is_split_at_white_space() {
    assert_eq!(split_words(":client alpha"), vec!["alpha", ":client"].into_iter().rev().collect::<Vec<_>>());
    assert_eq!(split_words("  a \t b\u{a0}c  "), vec!["a", "b", "c"]);
    assert_eq!(split_words(""), Vec::<String>::new());
    assert_eq!(split_words("   "), Vec::<String>::new());
    assert_eq!(split_words("one"), vec!["one"]);
    assert_eq!(split_words("1 2 3 ;"), vec!["1", "2", "3", ";"]);
}

#[test]
fn splitting_agrees_with_the_standard_library() {
    for line in [
        "? lookup devices", ":press * bA", "\ta\tb", "a  b", " a", "a ", "\u{3000}x\u{2003}y",
        "#comment here", "é è", "a\u{85}b", "x\u{200b}y", "\r\n", "a\rb",
    ] {
        let expected: Vec<String> = line.split_whitespace().map(String::from).collect();
        assert_eq!(split_words(line), expected, "{:?}", line);
    }
}

#[test]
fn a_copy_of_words_holds_the_same_words() {
    let list = vec![String::from("a"), String::from(""), String::from("bc")];
    assert_eq!(copy_words(&list), list);
}
