//! What a single word of a configuration means: numbers, mode patterns,
//! characters and addresses.

use crate::error::ErrorKind;
use crate::parser::line::word_views;
use crate::parser::{
    binary_names, binary_views, optional_text, BinaryFile, BinaryFileView, Channel,
};
use crate::search::{lemma_first_index, lemma_no_index};
use vstd::arithmetic::power2::{lemma2_to64, pow2};
use vstd::prelude::*;

verus! {

/// The characters of `text`, one by one.
pub fn characters(text: &str) -> (list: Vec<char>)
    ensures
        list@ == text@,
{
    let mut list: Vec<char> = Vec::new();
    for character in walk: text.chars()
        invariant
            list@ == walk.seq().take(walk.index()),
            walk.seq() == text@,
    {
        list.push(character);
        proof {
            assert(walk.seq().take(walk.index() + 1) == walk.seq().take(walk.index()).push(
                character,
            ));
        }
    }
    proof {
        assert(text@.take(text@.len() as int) == text@);
    }
    list
}

/// Whether `character` is one of the ten decimal digits.
pub open spec fn is_digit(character: char) -> bool {
    '0' <= character <= '9'
}

/// The number that a decimal digit stands for.
pub open spec fn digit_value(character: char) -> nat {
    (character as int - '0' as int) as nat
}

/// Whether `text` is made of decimal digits alone.
pub open spec fn all_digits(text: Seq<char>) -> bool {
    forall|i: int| 0 <= i < text.len() ==> is_digit(#[trigger] text[i])
}

/// The number that a run of decimal digits spells.
pub open spec fn number(digits: Seq<char>) -> nat
    decreases digits.len(),
{
    if digits.len() == 0 {
        0
    } else {
        number(digits.drop_last()) * 10 + digit_value(digits.last())
    }
}

/// The number that `digits` spells, where they are decimal digits, at least
/// one, and the number is at most `limit`.
pub open spec fn digits_number(digits: Seq<char>, limit: u64) -> Option<u64> {
    if digits.len() > 0 && all_digits(digits) && number(digits) <= limit {
        Some(number(digits) as u64)
    } else {
        None
    }
}

/// `word` without the plus sign that may stand in front of a number.
pub open spec fn unsigned(word: Seq<char>) -> Seq<char> {
    if word.len() > 0 && word[0] == '+' {
        word.skip(1)
    } else {
        word
    }
}

/// The number that `word` spells in decimal, where it spells one that is at
/// most `limit`: digits alone, at least one, after an optional plus sign.
pub open spec fn decimal(word: Seq<char>, limit: u64) -> Option<u64> {
    digits_number(unsigned(word), limit)
}

/// A run of digits spells at least what any of its beginnings spells.
pub proof fn lemma_number_grows(digits: Seq<char>, length: int)
    requires
        0 <= length <= digits.len(),
    ensures
        number(digits.take(length)) <= number(digits),
    decreases digits.len(),
{
    if length < digits.len() {
        lemma_number_grows(digits.drop_last(), length);
        assert(digits.drop_last().take(length) == digits.take(length));
    } else {
        assert(digits.take(length) == digits);
    }
}

/// Reads the characters of `word` from `start` up to `end` as a decimal
/// number of at most `limit`.
pub fn read_digits(word: &Vec<char>, start: usize, end: usize, limit: u64) -> (value: Option<u64>)
    requires
        start <= end <= word.len(),
    ensures
        value == digits_number(word@.subrange(start as int, end as int), limit),
{
    let ghost digits = word@.subrange(start as int, end as int);
    if start == end {
        return None;
    }
    let mut value: u64 = 0;
    let mut position: usize = start;
    while position < end
        invariant
            start <= position <= end <= word.len(),
            digits == word@.subrange(start as int, end as int),
            all_digits(digits.take(position - start)),
            value == number(digits.take(position - start)),
            value <= limit,
        decreases end - position,
    {
        let character = word[position];
        let ghost longer = digits.take(position - start + 1);
        proof {
            assert(longer.drop_last() == digits.take(position - start));
            assert(longer.last() == character);
            lemma_number_grows(digits, position - start + 1);
        }
        if character < '0' || character > '9' {
            proof {
                assert(digits[position - start] == character);
            }
            return None;
        }
        let digit: u64 = (character as u32 - '0' as u32) as u64;
        if digit > limit || value > (limit - digit) / 10 {
            return None;
        }
        value = value * 10 + digit;
        position += 1;
    }
    proof {
        assert(digits.take(position - start) == digits);
    }
    Some(value)
}

/// Reads `word` as a decimal number of at most `limit`.
pub fn read_decimal(word: &str, limit: u64) -> (value: Option<u64>)
    ensures
        value == decimal(word@, limit),
{
    let list = characters(word);
    proof {
        assert(list@.subrange(0, list@.len() as int) == list@);
    }
    if list.len() > 0 && list[0] == '+' {
        read_digits(&list, 1, list.len(), limit)
    } else {
        read_digits(&list, 0, list.len(), limit)
    }
}

/// Reads `word` as a decimal number that fits in 64 bits.
pub fn parse_u64(word: &str) -> (value: Option<u64>)
    ensures
        value == decimal(word@, u64::MAX),
{
    read_decimal(word, u64::MAX)
}

/// Reads `word` as a decimal number that fits in a machine word.
pub fn parse_usize(word: &str) -> (value: Option<usize>)
    ensures
        value == match decimal(word@, usize::MAX as u64) {
            Some(number) => Some(number as usize),
            None => None,
        },
{
    match read_decimal(word, usize::MAX as u64) {
        Some(number) => Some(number as usize),
        None => None,
    }
}

/// Reads `word` as a decimal number that fits in a byte.
pub fn parse_u8(word: &str) -> (value: Option<u8>)
    ensures
        value == match decimal(word@, 255) {
            Some(number) => Some(number as u8),
            None => None,
        },
{
    match read_decimal(word, 255) {
        Some(number) => Some(number as u8),
        None => None,
    }
}

/// Equality of string slices, `str::eq` of the standard library: two slices
/// are equal exactly when they hold the same characters in the same order.
pub assume_specification[ <str as PartialEq>::eq ](left: &str, right: &str) -> (equal: bool)
    ensures
        equal == (left@ == right@),
;

/// What a character of a pattern counts: `weight` where it is `1`, nothing otherwise.
pub open spec fn weighed(character: char, weight: nat) -> nat {
    if character == '1' {
        weight
    } else {
        0
    }
}

/// Whether `pattern` is made of eight characters `0` and `1`.
pub open spec fn is_pattern(pattern: Seq<char>) -> bool {
    pattern.len() == 8 && forall|i: int|
        0 <= i < 8 ==> (#[trigger] pattern[i] == '0' || pattern[i] == '1')
}

/// The modifier byte that a pattern spells: character `i` gives bit `i`.
pub open spec fn pattern_mask(pattern: Seq<char>) -> u8 {
    (weighed(pattern[0], 1) + weighed(pattern[1], 2) + weighed(pattern[2], 4) + weighed(
        pattern[3],
        8,
    ) + weighed(pattern[4], 16) + weighed(pattern[5], 32) + weighed(pattern[6], 64) + weighed(
        pattern[7],
        128,
    )) as u8
}

/// What a mode operand names: the base mode, or the mask of a pattern.
pub open spec fn mode(word: Seq<char>) -> Result<Option<u8>, ErrorKind> {
    if word == "base"@ {
        Ok(None)
    } else if word.len() != 8 {
        Err(ErrorKind::InvalidModeLength)
    } else if !is_pattern(word) {
        Err(ErrorKind::InvalidModeCharacter)
    } else {
        Ok(Some(pattern_mask(word)))
    }
}

/// The first `count` characters of a pattern, weighed.
spec fn partial_mask(pattern: Seq<char>, count: nat) -> nat
    decreases count,
{
    if count == 0 {
        0
    } else {
        partial_mask(pattern, (count - 1) as nat) + weighed(
            pattern[count - 1],
            pow2((count - 1) as nat),
        )
    }
}

/// Reads a mode operand. A word of eight characters is accepted exactly when
/// each of them is `0` or `1`.
pub fn parse_mode(word: &str) -> (mask: Result<Option<u8>, ErrorKind>)
    ensures
        mask == mode(word@),
        word@.len() == 8 ==> (mask is Ok <==> is_pattern(word@)),
{
    proof {
        reveal_strlit("base");
    }
    if word.eq("base") {
        return Ok(None);
    }
    let pattern = characters(word);
    if pattern.len() != 8 {
        return Err(ErrorKind::InvalidModeLength);
    }
    let mut mask: u8 = 0;
    let mut weight: u8 = 1;
    let mut position: usize = 0;
    proof {
        lemma2_to64();
    }
    while position < 8
        invariant
            position <= 8,
            pattern@ == word@,
            pattern@.len() == 8,
            word@ != "base"@,
            forall|i: int| 0 <= i < position ==> (#[trigger] pattern@[i] == '0' || pattern@[i] == '1'),
            mask == partial_mask(pattern@, position as nat),
            mask < pow2(position as nat),
            position < 8 ==> weight == pow2(position as nat),
        decreases 8 - position,
    {
        proof {
            lemma2_to64();
        }
        let character = pattern[position];
        if character == '1' {
            mask = mask + weight;
        } else if character != '0' {
            proof {
                assert(word@[position as int] == character);
            }
            return Err(ErrorKind::InvalidModeCharacter);
        }
        position += 1;
        if position < 8 {
            weight = weight * 2;
        }
    }
    proof {
        lemma2_to64();
        reveal_with_fuel(partial_mask, 9);
    }
    Ok(Some(mask))
}

/// Whether `word` is a literal character: `b` and one ASCII character.
pub open spec fn is_literal(word: Seq<char>) -> bool {
    word.len() == 2 && word[0] == 'b' && word[1] as u32 <= 0x7f
}

/// The byte that a character operand names: the code of the ASCII character
/// that stands after `b`, 32 for `s`, or the number that the word spells in
/// decimal. Any other word is rejected.
pub open spec fn ascii(word: Seq<char>) -> Result<u8, ErrorKind> {
    if is_literal(word) {
        Ok(word[1] as u32 as u8)
    } else if word.len() == 0 || word == seq!['b'] {
        Err(ErrorKind::MissingCharacter)
    } else if word == seq!['s'] {
        Ok(32)
    } else {
        match decimal(word, 255) {
            Some(number) => Ok(number as u8),
            None => Err(ErrorKind::InvalidCharacter),
        }
    }
}

/// A character operand is accepted exactly when it has one of three forms:
/// `b` and one ASCII character, `s`, or a decimal number of at most 255.
pub proof fn lemma_ascii(word: Seq<char>)
    ensures
        ascii(word) is Ok <==> is_literal(word) || word == seq!['s'] || decimal(word, 255)
            is Some,
        is_literal(word) ==> ascii(word) == Ok::<u8, ErrorKind>(word[1] as u32 as u8),
        word == seq!['s'] ==> ascii(word) == Ok::<u8, ErrorKind>(32),
        decimal(word, 255) is Some ==> ascii(word) == Ok::<u8, ErrorKind>(
            decimal(word, 255).unwrap() as u8,
        ),
{
    if word.len() > 0 && (word[0] == 'b' || word[0] == 's') {
        assert(unsigned(word) == word);
        assert(!is_digit(word[0]));
    }
    if word == seq!['s'] {
        assert(word[0] == 's');
        assert(!is_literal(word));
    }
}

/// Reads a character operand: `b` and one ASCII character, `s` for a space,
/// or a decimal number of at most 255.
pub fn parse_ascii(word: &str) -> (byte: Result<u8, ErrorKind>)
    ensures
        byte == ascii(word@),
        byte is Ok <==> is_literal(word@) || word@ == seq!['s'] || decimal(word@, 255) is Some,
{
    proof {
        lemma_ascii(word@);
    }
    let list = characters(word);
    if list.len() == 2 && list[0] == 'b' {
        let code: u32 = list[1] as u32;
        if code <= 0x7f {
            return Ok(code as u8);
        }
    }
    if list.len() == 0 || (list.len() == 1 && list[0] == 'b') {
        proof {
            if list.len() == 1 {
                assert(word@ =~= seq!['b']);
            }
        }
        Err(ErrorKind::MissingCharacter)
    } else if list.len() == 1 && list[0] == 's' {
        proof {
            assert(word@ =~= seq!['s']);
        }
        Ok(32)
    } else {
        proof {
            if word@ == seq!['b'] || word@ == seq!['s'] {
                assert(word@.len() == 1);
                assert(word@[0] == 'b' || word@[0] == 's');
            }
        }
        match parse_u8(word) {
            Some(number) => Ok(number),
            None => Err(ErrorKind::InvalidCharacter),
        }
    }
}

/// A directory name: `word`, with `/` added at its end unless it stands there.
pub open spec fn directory(word: Seq<char>) -> Seq<char> {
    if word.len() > 0 && word.last() == '/' {
        word
    } else {
        word.push('/')
    }
}

/// Makes a directory name of `word`.
pub fn into_directory(word: String) -> (name: String)
    ensures
        name@ == directory(word@),
{
    let list = characters(word.as_str());
    if list.len() > 0 && list[list.len() - 1] == '/' {
        word
    } else {
        proof {
            reveal_strlit("/");
            assert("/"@ == seq!['/']);
            assert(word@ + seq!['/'] == word@.push('/'));
        }
        word.concat("/")
    }
}

/// What a state operand says.
pub open spec fn state(word: Seq<char>) -> Option<bool> {
    if word == "enabled"@ {
        Some(true)
    } else if word == "disabled"@ {
        Some(false)
    } else {
        None
    }
}

/// Reads a state operand.
pub fn parse_state(word: &str) -> (enabled: Option<bool>)
    ensures
        enabled == state(word@),
{
    if word.eq("enabled") {
        Some(true)
    } else if word.eq("disabled") {
        Some(false)
    } else {
        None
    }
}

/// An IPv4 address, most significant octet first.
#[derive(Clone, Copy, PartialEq, Eq, Debug, Structural)]
pub struct Address(pub u8, pub u8, pub u8, pub u8);

/// The octet that `text` spells: one to three digits, without a zero in
/// front of another digit, and at most 255.
pub open spec fn octet(text: Seq<char>) -> Option<u8> {
    if text.len() <= 3 && (text.len() > 1 ==> text[0] != '0') {
        match digits_number(text, 255) {
            Some(number) => Some(number as u8),
            None => None,
        }
    } else {
        None
    }
}

/// `text` cut at its first dot: what stands before it and what stands after.
pub open spec fn cut_at_dot(text: Seq<char>) -> Option<(Seq<char>, Seq<char>)> {
    match text.index_of_first('.') {
        Some(dot) => Some((text.take(dot), text.skip(dot + 1))),
        None => None,
    }
}

/// The address that `word` spells: four octets with a dot between each two.
pub open spec fn address(word: Seq<char>) -> Option<Address> {
    match cut_at_dot(word) {
        Some((first, rest)) => match cut_at_dot(rest) {
            Some((second, rest)) => match cut_at_dot(rest) {
                Some((third, fourth)) => match (
                    octet(first),
                    octet(second),
                    octet(third),
                    octet(fourth),
                ) {
                    (Some(a), Some(b), Some(c), Some(d)) => Some(Address(a, b, c, d)),
                    _ => None,
                },
                None => None,
            },
            None => None,
        },
        None => None,
    }
}

/// Finds the first dot of `word` at or after `start`.
fn find_dot(word: &Vec<char>, start: usize) -> (dot: Option<usize>)
    requires
        start <= word.len(),
    ensures
        match dot {
            Some(dot) => start <= dot < word.len() && word@.skip(start as int).index_of_first('.')
                == Some(dot - start),
            None => word@.skip(start as int).index_of_first('.') is None,
        },
{
    let ghost rest = word@.skip(start as int);
    let mut position: usize = start;
    while position < word.len()
        invariant
            start <= position <= word.len(),
            rest == word@.skip(start as int),
            forall|earlier: int| 0 <= earlier < position - start ==> rest[earlier] != '.',
        decreases word.len() - position,
    {
        if word[position] == '.' {
            proof {
                lemma_first_index(rest, '.', position - start);
            }
            return Some(position);
        }
        position += 1;
    }
    proof {
        lemma_no_index(rest, '.');
    }
    None
}

/// Reads the characters of `word` from `start` up to `end` as an octet.
fn read_octet(word: &Vec<char>, start: usize, end: usize) -> (value: Option<u8>)
    requires
        start <= end <= word.len(),
    ensures
        value == octet(word@.subrange(start as int, end as int)),
{
    if end - start > 3 || (end - start > 1 && word[start] == '0') {
        return None;
    }
    match read_digits(word, start, end, 255) {
        Some(number) => Some(number as u8),
        None => None,
    }
}

/// Reads an address operand.
pub fn parse_address(word: &str) -> (found: Option<Address>)
    ensures
        found == address(word@),
{
    let list = characters(word);
    let length = list.len();
    proof {
        assert(list@.skip(0) == word@);
    }
    let first_dot = match find_dot(&list, 0) {
        Some(dot) => dot,
        None => {
            return None;
        },
    };
    let ghost first = word@.take(first_dot as int);
    let ghost rest = word@.skip(first_dot + 1);
    proof {
        assert(first == list@.subrange(0, first_dot as int));
        assert(rest == list@.skip(first_dot + 1));
    }
    let second_dot = match find_dot(&list, first_dot + 1) {
        Some(dot) => dot,
        None => {
            return None;
        },
    };
    let ghost second = rest.take(second_dot - first_dot - 1);
    let ghost rest = rest.skip(second_dot - first_dot);
    proof {
        assert(second == list@.subrange(first_dot + 1, second_dot as int));
        assert(rest == list@.skip(second_dot + 1));
    }
    let third_dot = match find_dot(&list, second_dot + 1) {
        Some(dot) => dot,
        None => {
            return None;
        },
    };
    let ghost third = rest.take(third_dot - second_dot - 1);
    let ghost fourth = rest.skip(third_dot - second_dot);
    proof {
        assert(third == list@.subrange(second_dot + 1, third_dot as int));
        assert(fourth == list@.subrange(third_dot + 1, length as int));
    }
    let a = read_octet(&list, 0, first_dot);
    let b = read_octet(&list, first_dot + 1, second_dot);
    let c = read_octet(&list, second_dot + 1, third_dot);
    let d = read_octet(&list, third_dot + 1, length);
    match (a, b, c, d) {
        (Some(a), Some(b), Some(c), Some(d)) => Some(Address(a, b, c, d)),
        _ => None,
    }
}

/// The channel that a channel operand names.
pub open spec fn channel(word: Seq<char>) -> Option<Channel> {
    if word == "stable"@ {
        Some(Channel::Stable)
    } else if word == "beta"@ {
        Some(Channel::Beta)
    } else if word == "nightly"@ {
        Some(Channel::Nightly)
    } else if word == "none"@ {
        Some(Channel::Plain)
    } else {
        None
    }
}

/// Reads a channel operand.
pub fn parse_channel(word: &str) -> (found: Option<Channel>)
    ensures
        found == channel(word@),
{
    if word.eq("stable") {
        Some(Channel::Stable)
    } else if word.eq("beta") {
        Some(Channel::Beta)
    } else if word.eq("nightly") {
        Some(Channel::Nightly)
    } else if word.eq("none") {
        Some(Channel::Plain)
    } else {
        None
    }
}

/// The place in `names` that a word names: the number it spells, where that
/// fits in a byte, or else the first place that holds the word, cut to a byte.
pub open spec fn client(names: Seq<Seq<char>>, word: Seq<char>) -> Option<u8> {
    match decimal(word, 255) {
        Some(index) => Some(index as u8),
        None => match names.index_of_first(word) {
            Some(index) => Some(index as u8),
            None => None,
        },
    }
}

/// The path of the binary that a word names: the one at the place that the
/// word spells in decimal, or the first that has the word for its name.
pub open spec fn binary(table: Seq<BinaryFileView>, word: Seq<char>) -> Option<Seq<char>> {
    match decimal(word, usize::MAX as u64) {
        Some(index) => if index < table.len() {
            Some(table[index as int].path)
        } else {
            None
        },
        None => match binary_names(table).index_of_first(Some(word)) {
            Some(index) => Some(table[index].path),
            None => None,
        },
    }
}

/// Whether a word spells a number that fits in a machine word.
pub open spec fn is_index(word: Seq<char>) -> bool {
    decimal(word, usize::MAX as u64) is Some
}

/// The number that such a word spells.
pub open spec fn index(word: Seq<char>) -> usize {
    decimal(word, usize::MAX as u64).unwrap() as usize
}

/// Finds the client that a word names.
pub fn find_client(names: &Vec<String>, word: &str) -> (found: Option<u8>)
    ensures
        found == client(word_views(names@), word@),
{
    match parse_u8(word) {
        Some(index) => Some(index),
        None => {
            let mut position: usize = 0;
            while position < names.len()
                invariant
                    position <= names.len(),
                    decimal(word@, 255) is None,
                    forall|earlier: int|
                        0 <= earlier < position ==> word_views(names@)[earlier] != word@,
                decreases names.len() - position,
            {
                if names[position].as_str().eq(word) {
                    proof {
                        lemma_first_index(word_views(names@), word@, position as int);
                    }
                    return Some(#[verifier::truncate] (position as u8));
                }
                position += 1;
            }
            proof {
                lemma_no_index(word_views(names@), word@);
            }
            None
        },
    }
}

/// Finds the binary that a word names, and gives its path.
pub fn find_binary(table: &Vec<BinaryFile>, word: &str) -> (path: Option<String>)
    ensures
        optional_text(path) == binary(binary_views(table@), word@),
{
    let ghost names = binary_names(binary_views(table@));
    match parse_usize(word) {
        Some(index) => {
            if index < table.len() {
                Some(table[index].path.clone())
            } else {
                None
            }
        },
        None => {
            let mut position: usize = 0;
            while position < table.len()
                invariant
                    position <= table.len(),
                    decimal(word@, usize::MAX as u64) is None,
                    names == binary_names(binary_views(table@)),
                    forall|earlier: int| 0 <= earlier < position ==> names[earlier] != Some(word@),
                decreases table.len() - position,
            {
                let matches = match &table[position].name {
                    Some(name) => name.as_str().eq(word),
                    None => false,
                };
                if matches {
                    proof {
                        lemma_first_index(names, Some(word@), position as int);
                    }
                    return Some(table[position].path.clone());
                }
                position += 1;
            }
            proof {
                lemma_no_index(names, Some(word@));
            }
            None
        },
    }
}

} // verus!
