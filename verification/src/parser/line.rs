//! Lines of a configuration and the words they are made of.

use crate::parser::word::characters;
use vstd::prelude::*;

verus! {

/// Whether `character` is white space: one of the characters that Unicode
/// gives the property `White_Space`.
pub open spec fn is_space(character: char) -> bool {
    ||| '\u{9}' <= character <= '\u{d}'
    ||| character == ' '
    ||| character == '\u{85}'
    ||| character == '\u{a0}'
    ||| character == '\u{1680}'
    ||| '\u{2000}' <= character <= '\u{200a}'
    ||| character == '\u{2028}'
    ||| character == '\u{2029}'
    ||| character == '\u{202f}'
    ||| character == '\u{205f}'
    ||| character == '\u{3000}'
}

/// Tells whether `character` is white space.
pub fn is_whitespace(character: char) -> (space: bool)
    ensures
        space == is_space(character),
{
    (character >= '\u{9}' && character <= '\u{d}') || character == ' ' || character == '\u{85}'
        || character == '\u{a0}' || character == '\u{1680}' || (character >= '\u{2000}'
        && character <= '\u{200a}') || character == '\u{2028}' || character == '\u{2029}'
        || character == '\u{202f}' || character == '\u{205f}' || character == '\u{3000}'
}

/// The number of characters at the start of `text` that are not white space.
pub open spec fn word_length(text: Seq<char>) -> nat
    decreases text.len(),
{
    if text.len() == 0 || is_space(text[0]) {
        0
    } else {
        1 + word_length(text.drop_first())
    }
}

/// The word at the start of a text is no longer than the text.
pub proof fn lemma_word_length(text: Seq<char>)
    ensures
        word_length(text) <= text.len(),
        text.len() > 0 && !is_space(text[0]) ==> word_length(text) > 0,
        forall|i: int| 0 <= i < word_length(text) ==> !is_space(#[trigger] text[i]),
        word_length(text) < text.len() ==> is_space(text[word_length(text) as int]),
    decreases text.len(),
{
    if text.len() > 0 && !is_space(text[0]) {
        let rest = text.drop_first();
        lemma_word_length(rest);
        assert forall|i: int| 0 <= i < word_length(text) implies !is_space(#[trigger] text[i]) by {
            if i > 0 {
                assert(text[i] == rest[i - 1]);
            }
        }
        if word_length(text) < text.len() {
            assert(text[word_length(text) as int] == rest[word_length(rest) as int]);
        }
    }
}

/// The words of `text`: its longest runs of characters that are not white
/// space, from left to right.
pub open spec fn words(text: Seq<char>) -> Seq<Seq<char>>
    decreases text.len(),
{
    if text.len() == 0 {
        Seq::empty()
    } else if is_space(text[0]) {
        words(text.drop_first())
    } else {
        proof {
            lemma_word_length(text);
        }
        let length = word_length(text) as int;
        seq![text.take(length)] + words(text.skip(length))
    }
}

/// The characters of each of a list of strings.
pub open spec fn word_views(list: Seq<String>) -> Seq<Seq<char>> {
    list.map_values(|word: String| word@)
}

/// A word has a character, and none of its characters is white space.
pub open spec fn is_word(word: Seq<char>) -> bool {
    word.len() > 0 && forall|i: int| 0 <= i < word.len() ==> !is_space(#[trigger] word[i])
}

/// Every word of a text has a character and no white space.
pub proof fn lemma_words(text: Seq<char>)
    ensures
        forall|i: int| 0 <= i < words(text).len() ==> is_word(#[trigger] words(text)[i]),
    decreases text.len(),
{
    if text.len() == 0 {
        assert(words(text).len() == 0);
    } else if is_space(text[0]) {
        lemma_words(text.drop_first());
        assert(words(text) == words(text.drop_first()));
    } else {
        lemma_word_length(text);
        let length = word_length(text) as int;
        lemma_words(text.skip(length));
        assert(is_word(text.take(length)));
        assert(words(text) == seq![text.take(length)] + words(text.skip(length)));
        assert forall|i: int| 0 <= i < words(text).len() implies is_word(
            #[trigger] words(text)[i],
        ) by {
            if i > 0 {
                assert(words(text)[i] == words(text.skip(length))[i - 1]);
            }
        }
    }
}

/// Splits `line` into its words.
pub fn split_words(line: &str) -> (list: Vec<String>)
    ensures
        word_views(list@) == words(line@),
{
    let text = characters(line);
    let mut list: Vec<String> = Vec::new();
    let mut position: usize = 0;
    proof {
        assert(line@.skip(0) == line@);
    }
    while position < text.len()
        invariant
            position <= text.len(),
            text@ == line@,
            words(line@) == word_views(list@) + words(line@.skip(position as int)),
        decreases text.len() - position,
    {
        let ghost rest = line@.skip(position as int);
        if is_whitespace(text[position]) {
            proof {
                assert(rest.drop_first() == line@.skip(position + 1));
            }
            position += 1;
        } else {
            let start = position;
            position += 1;
            proof {
                assert(rest.drop_first() == line@.skip(position as int));
            }
            while position < text.len() && !is_whitespace(text[position])
                invariant
                    start < position <= text.len(),
                    text@ == line@,
                    word_length(line@.skip(start as int)) == (position - start) + word_length(
                        line@.skip(position as int),
                    ),
                decreases text.len() - position,
            {
                proof {
                    assert(line@.skip(position as int).drop_first() == line@.skip(position + 1));
                }
                position += 1;
            }
            let word = line.substring_char(start, position).to_owned();
            proof {
                lemma_word_length(rest);
                assert(word_length(line@.skip(position as int)) == 0);
                assert(rest.take(position - start) == line@.subrange(
                    start as int,
                    position as int,
                ));
                assert(rest.skip(position - start) == line@.skip(position as int));
                assert(word_views(list@.push(word)) == word_views(list@).push(word@));
                assert(word_views(list@).push(word@) + words(line@.skip(position as int))
                    == word_views(list@) + (seq![word@] + words(line@.skip(position as int))));
            }
            list.push(word);
        }
    }
    proof {
        assert(line@.skip(position as int) == Seq::<char>::empty());
    }
    list
}

/// A copy of a list of words.
pub fn copy_words(list: &Vec<String>) -> (copy: Vec<String>)
    ensures
        word_views(copy@) == word_views(list@),
{
    let mut copy: Vec<String> = Vec::new();
    let mut position: usize = 0;
    while position < list.len()
        invariant
            position <= list.len(),
            word_views(copy@) == word_views(list@).take(position as int),
        decreases list.len() - position,
    {
        let word = list[position].clone();
        proof {
            assert(word_views(copy@.push(word)) == word_views(copy@).push(word@));
            assert(word_views(list@).take(position + 1) == word_views(list@).take(
                position as int,
            ).push(word@));
        }
        copy.push(word);
        position += 1;
    }
    proof {
        assert(word_views(list@).take(position as int) == word_views(list@));
    }
    copy
}

} // verus!
