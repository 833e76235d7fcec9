//! The operand stack: the lines of a configuration, read word by word.

use crate::error::{rejection, Error, ErrorKind, ErrorView};
use crate::parser::line::{is_word, lemma_words, split_words, word_views, words};
use crate::parser::word::{
    address, ascii, binary, channel, characters, client, decimal, directory, find_binary,
    find_client, index, into_directory, is_index, is_pattern, mode, parse_address, parse_ascii,
    parse_channel, parse_mode, parse_state, parse_u64, parse_usize, pattern_mask, state, Address,
};
use crate::parser::{binary_views, optional_text, BinaryFile, BinaryFileView, Channel};
use vstd::prelude::*;

verus! {

/// A line of a configuration: its words, or nothing for a blank line or a comment.
pub type Line = Option<Vec<String>>;

/// What a line of text holds: the words of a directive, or nothing where
/// the line is empty or starts with `#`.
pub open spec fn line_words(text: Seq<char>) -> Option<Seq<Seq<char>>> {
    if text.len() > 0 && text[0] != '#' {
        Some(words(text))
    } else {
        None
    }
}

/// The words of a line, where it has any.
pub open spec fn line_view(line: Line) -> Option<Seq<Seq<char>>> {
    match line {
        Some(list) => Some(word_views(list@)),
        None => None,
    }
}

/// The words of each of a list of lines.
pub open spec fn line_views(lines: Seq<Line>) -> Seq<Option<Seq<Seq<char>>>> {
    lines.map_values(|line: Line| line_view(line))
}

/// What a list of lines of text holds, line by line.
pub open spec fn text_lines(lines: Seq<String>) -> Seq<Option<Seq<Seq<char>>>> {
    lines.map_values(|text: String| line_words(text@))
}

/// Whether each operand of each line is a word: it has a character, and
/// none of its characters is white space.
pub open spec fn all_words(lines: Seq<Option<Seq<Seq<char>>>>) -> bool {
    forall|line: int, place: int|
        0 <= line < lines.len() && lines[line] is Some && 0 <= place < lines[line].unwrap().len()
            ==> is_word(#[trigger] lines[line].unwrap()[place])
}

/// The lines of a configuration and the place up to which they were read.
pub struct Stack {
    lines: Vec<Line>,
    debug_stack: Vec<String>,
    current_line: usize,
    taken: usize,
    reading: bool,
    counter: usize,
}

/// The mathematical content of a [`Stack`].
pub struct StackView {
    /// The lines that were not reached yet, in the order of the file.
    pub pending: Seq<Option<Seq<Seq<char>>>>,
    /// The operands that are left on the line being read, leftmost first;
    /// nothing before the first directive and after the last.
    pub current: Option<Seq<Seq<char>>>,
    /// The number of the line that was reached last, counted from one.
    pub line: nat,
    /// The slot counter.
    pub counter: nat,
    /// The hints that were pushed and not used yet, the latest last.
    pub hints: Seq<Seq<char>>,
}

/// A stack after an operation, and what the operation gave.
pub struct Step<T> {
    pub stack: StackView,
    pub result: Result<T, ErrorView>,
}

/// What an operation that may be rejected gave, with the rejection as
/// mathematical content.
pub open spec fn outcome<T>(result: Result<T, Error>) -> Result<T, ErrorView> {
    match result {
        Ok(value) => Ok(value),
        Err(error) => Err(error@),
    }
}

/// What an operation that yields text gave, as mathematical content.
pub open spec fn text_outcome(result: Result<String, Error>) -> Result<Seq<char>, ErrorView> {
    match result {
        Ok(text) => Ok(text@),
        Err(error) => Err(error@),
    }
}

/// The number of words at the start of `operands` that spell a number which
/// fits in a machine word.
pub open spec fn items_length(operands: Seq<Seq<char>>) -> nat
    decreases operands.len(),
{
    if operands.len() == 0 || !is_index(operands[0]) {
        0
    } else {
        1 + items_length(operands.drop_first())
    }
}

/// The numbers that a list of such words spells.
pub open spec fn indices(operands: Seq<Seq<char>>) -> Seq<usize> {
    operands.map_values(|word: Seq<char>| index(word))
}

/// The items at the start of a list of operands are no more than the operands.
pub proof fn lemma_items_length(operands: Seq<Seq<char>>)
    ensures
        items_length(operands) <= operands.len(),
    decreases operands.len(),
{
    if operands.len() > 0 && is_index(operands[0]) {
        lemma_items_length(operands.drop_first());
    }
}

/// What an operation that yields a sequence gave, as mathematical content.
pub open spec fn sequence_outcome(result: Result<Vec<usize>, Error>) -> Result<
    Seq<usize>,
    ErrorView,
> {
    match result {
        Ok(sequence) => Ok(sequence@),
        Err(error) => Err(error@),
    }
}

impl StackView {
    /// The rejection of the given kind at the line being read.
    pub open spec fn reject<T>(self, kind: ErrorKind, detail: Seq<char>) -> Step<T> {
        Step { stack: self, result: Err(rejection(kind, self.line, detail)) }
    }

    /// Takes the next operand of the line being read; `hint` tells what is
    /// missing where there is none.
    pub open spec fn take(self, hint: Seq<char>) -> Step<Seq<char>> {
        match self.current {
            None => self.reject(ErrorKind::InvalidLine, Seq::empty()),
            Some(operands) => if operands.len() == 0 {
                self.reject(ErrorKind::MissingOperand, hint)
            } else {
                Step {
                    stack: StackView { current: Some(operands.drop_first()), ..self },
                    result: Ok(operands[0]),
                }
            },
        }
    }

    /// Takes the next operand, with the hint that was pushed last.
    pub open spec fn pop(self) -> Step<Seq<char>> {
        (StackView { hints: self.hints.drop_last(), ..self }).take(self.hints.last())
    }

    /// Goes to the next directive line, past blank lines and comments; past
    /// the last line nothing is being read.
    pub open spec fn advance(self) -> StackView
        decreases self.pending.len(),
    {
        if self.pending.len() == 0 {
            StackView { current: None, ..self }
        } else {
            let reached = StackView {
                pending: self.pending.drop_first(),
                line: self.line + 1,
                ..self
            };
            match self.pending[0] {
                Some(operands) => StackView { current: Some(operands), ..reached },
                None => reached.advance(),
            }
        }
    }

    /// Goes to the next directive line and takes its first word, the key;
    /// gives nothing past the last line.
    pub open spec fn pop_newline(self) -> Step<Option<Seq<char>>> {
        let reached = self.advance();
        if reached.current is None {
            Step { stack: reached, result: Ok(None) }
        } else {
            let taken = reached.take("no key specified"@);
            Step {
                stack: taken.stack,
                result: match taken.result {
                    Ok(key) => Ok(Some(key)),
                    Err(error) => Err(error),
                },
            }
        }
    }
    /// Takes the next operand and reads it with `read`, which tells what
    /// it means or why it is rejected.
    pub open spec fn read<T>(
        self,
        hint: Seq<char>,
        read: spec_fn(Seq<char>) -> Result<T, ErrorKind>,
    ) -> Step<T> {
        let taken = self.take(hint);
        match taken.result {
            Err(error) => Step { stack: taken.stack, result: Err(error) },
            Ok(word) => match read(word) {
                Ok(value) => Step { stack: taken.stack, result: Ok(value) },
                Err(kind) => taken.stack.reject(kind, word),
            },
        }
    }

    /// Takes a directory name.
    pub open spec fn pop_directory(self) -> Step<Seq<char>> {
        self.read("no directory specified"@, |word: Seq<char>| Ok(directory(word)))
    }

    /// Takes a slot number: `*` for the one after the last, or a decimal
    /// number, which the counter then holds.
    pub open spec fn pop_counter(self) -> Step<usize> {
        let taken = self.take("no value specified"@);
        match taken.result {
            Err(error) => Step { stack: taken.stack, result: Err(error) },
            Ok(word) => if word == "*"@ {
                if self.counter < usize::MAX {
                    Step {
                        stack: StackView { counter: self.counter + 1, ..taken.stack },
                        result: Ok((self.counter + 1) as usize),
                    }
                } else {
                    taken.stack.reject(ErrorKind::CounterOverflow, word)
                }
            } else {
                match decimal(word, usize::MAX as u64) {
                    Some(number) => Step {
                        stack: StackView { counter: number as nat, ..taken.stack },
                        result: Ok(number as usize),
                    },
                    None => taken.stack.reject(ErrorKind::InvalidValue, word),
                }
            },
        }
    }

    /// Takes a decimal number of up to 64 bits.
    pub open spec fn pop_u64(self) -> Step<u64> {
        self.read(
            "no number specified"@,
            |word: Seq<char>|
                match decimal(word, u64::MAX) {
                    Some(number) => Ok(number),
                    None => Err(ErrorKind::InvalidNumber),
                },
        )
    }

    /// Takes a decimal number of up to 64 bits, cut to a machine word.
    pub open spec fn pop_usize(self) -> Step<usize> {
        self.read(
            "no number specified"@,
            |word: Seq<char>|
                match decimal(word, u64::MAX) {
                    Some(number) => Ok(number as usize),
                    None => Err(ErrorKind::InvalidNumber),
                },
        )
    }

    /// Takes a decimal number of up to 64 bits, cut to a byte.
    pub open spec fn pop_u8(self) -> Step<u8> {
        self.read(
            "no number specified"@,
            |word: Seq<char>|
                match decimal(word, u64::MAX) {
                    Some(number) => Ok(number as u8),
                    None => Err(ErrorKind::InvalidNumber),
                },
        )
    }

    /// Takes a mode: nothing for `base`, or the mask of a pattern.
    pub open spec fn pop_mode(self) -> Step<Option<u8>> {
        self.read("no mode specified"@, |word: Seq<char>| mode(word))
    }

    /// Takes a decimal number that fits in a machine word.
    pub open spec fn pop_index(self) -> Step<usize> {
        self.read(
            "no index specified"@,
            |word: Seq<char>|
                if is_index(word) {
                    Ok(index(word))
                } else {
                    Err(ErrorKind::InvalidIndex)
                },
        )
    }

    /// Takes `enabled` or `disabled`.
    pub open spec fn pop_state(self) -> Step<bool> {
        self.read(
            "no state specified. valid options are 'enabled' and 'disabled'"@,
            |word: Seq<char>|
                match state(word) {
                    Some(enabled) => Ok(enabled),
                    None => Err(ErrorKind::InvalidState),
                },
        )
    }

    /// Takes the name of a release channel.
    pub open spec fn pop_channel(self) -> Step<Channel> {
        self.read(
            "no channel specified. valid options are 'stable', 'beta', 'nightly' or 'none'"@,
            |word: Seq<char>|
                match channel(word) {
                    Some(found) => Ok(found),
                    None => Err(ErrorKind::InvalidChannel),
                },
        )
    }

    /// Takes a dotted IPv4 address.
    pub open spec fn pop_ip(self) -> Step<Address> {
        self.read(
            "no ip address specified"@,
            |word: Seq<char>|
                match address(word) {
                    Some(found) => Ok(found),
                    None => Err(ErrorKind::InvalidAddress),
                },
        )
    }

    /// Takes a name; `!` stands for none.
    pub open spec fn pop_name(self) -> Step<Option<Seq<char>>> {
        self.read(
            "no name specified"@,
            |word: Seq<char>|
                if word == "!"@ {
                    Ok(None)
                } else {
                    Ok(Some(word))
                },
        )
    }

    /// Takes the index or the name of a binary of `table`, and gives its path.
    pub open spec fn pop_binary(self, table: Seq<BinaryFileView>) -> Step<Seq<char>> {
        self.read(
            "no binary name or index specified"@,
            |word: Seq<char>|
                match binary(table, word) {
                    Some(path) => Ok(path),
                    None => Err(ErrorKind::BinaryNotFound),
                },
        )
    }

    /// Takes a character.
    pub open spec fn pop_ascii(self) -> Step<u8> {
        self.read("no character specified"@, |word: Seq<char>| ascii(word))
    }

    /// Takes the index or the name of a client of `names`, and gives its index.
    pub open spec fn pop_client(self, names: Seq<Seq<char>>) -> Step<u8> {
        self.read(
            "no client name or index specified"@,
            |word: Seq<char>|
                match client(names, word) {
                    Some(found) => Ok(found),
                    None => Err(ErrorKind::ClientNotFound),
                },
        )
    }

    /// Takes the items of a sequence up to the `;` that closes it: one to
    /// three decimal numbers.
    pub open spec fn pop_sequence(self) -> Step<Seq<usize>> {
        match self.current {
            None => self.reject(ErrorKind::InvalidLine, Seq::empty()),
            Some(operands) => {
                let count = items_length(operands) as int;
                if count >= operands.len() {
                    (StackView { current: Some(Seq::empty()), ..self }).reject(
                        ErrorKind::UnterminatedSequence,
                        Seq::empty(),
                    )
                } else {
                    let rest = StackView { current: Some(operands.skip(count + 1)), ..self };
                    if operands[count] != ";"@ {
                        rest.reject(ErrorKind::InvalidSequence, operands[count])
                    } else if count == 0 {
                        rest.reject(ErrorKind::EmptySequence, Seq::empty())
                    } else if count > 3 {
                        rest.reject(ErrorKind::LongSequence, Seq::empty())
                    } else {
                        Step { stack: rest, result: Ok(indices(operands.take(count))) }
                    }
                }
            },
        }
    }
}

/// `*` gives the number after the one the counter holds, and a decimal
/// number gives itself; either way the counter then holds what was given.
pub proof fn lemma_pop_counter(stack: StackView, word: Seq<char>)
    requires
        stack.take("no value specified"@).result == Ok::<Seq<char>, ErrorView>(word),
    ensures
        word == "*"@ && stack.counter < usize::MAX ==> {
            &&& stack.pop_counter().result == Ok::<usize, ErrorView>((stack.counter + 1) as usize)
            &&& stack.pop_counter().stack.counter == stack.counter + 1
        },
        word != "*"@ ==> match decimal(word, usize::MAX as u64) {
            Some(number) => {
                &&& stack.pop_counter().result == Ok::<usize, ErrorView>(number as usize)
                &&& stack.pop_counter().stack.counter == number
            },
            None => stack.pop_counter().result is Err,
        },
{
}

/// A mode of eight characters is accepted exactly when each of them is `0`
/// or `1`.
pub proof fn lemma_pop_mode(stack: StackView, word: Seq<char>)
    requires
        stack.take("no mode specified"@).result == Ok::<Seq<char>, ErrorView>(word),
        word.len() == 8,
    ensures
        stack.pop_mode().result is Ok <==> is_pattern(word),
        is_pattern(word) ==> stack.pop_mode().result == Ok::<Option<u8>, ErrorView>(
            Some(pattern_mask(word)),
        ),
{
    reveal_strlit("base");
}

/// A sequence is accepted exactly when one to three numbers stand before
/// the `;` that closes it: one without a number or with more than three is
/// rejected.
pub proof fn lemma_pop_sequence(stack: StackView, operands: Seq<Seq<char>>)
    requires
        stack.current == Some(operands),
    ensures
        stack.pop_sequence().result is Ok <==> {
            &&& 1 <= items_length(operands) <= 3
            &&& items_length(operands) < operands.len()
            &&& operands[items_length(operands) as int] == ";"@
        },
        stack.pop_sequence().result matches Ok(items) ==> items == indices(
            operands.take(items_length(operands) as int),
        ) && 1 <= items.len() <= 3,
{
    lemma_items_length(operands);
}

impl View for Stack {
    type V = StackView;

    closed spec fn view(&self) -> StackView {
        StackView {
            pending: line_views(self.lines@).skip(self.current_line as int),
            current: if self.reading {
                Some(
                    word_views(self.lines@[self.current_line - 1].unwrap()@).skip(
                        self.taken as int,
                    ),
                )
            } else {
                None
            },
            line: self.current_line as nat,
            counter: self.counter as nat,
            hints: word_views(self.debug_stack@),
        }
    }
}

impl Stack {
    /// Whether the place up to which the lines were read lies inside them.
    pub closed spec fn wf(&self) -> bool {
        &&& self.current_line <= self.lines@.len()
        &&& self.reading ==> {
            &&& self.current_line >= 1
            &&& self.lines@[self.current_line - 1] is Some
            &&& self.taken <= self.lines@[self.current_line - 1].unwrap()@.len()
        }
    }

    /// A stack over the lines of a configuration, with nothing read yet.
    /// The operands of a line are its words.
    pub fn new(lines: &Vec<String>) -> (stack: Stack)
        ensures
            stack.wf(),
            stack@ == (StackView {
                pending: text_lines(lines@),
                current: None,
                line: 0,
                counter: 0,
                hints: Seq::empty(),
            }),
            all_words(stack@.pending),
    {
        let mut parsed: Vec<Line> = Vec::new();
        let mut position: usize = 0;
        while position < lines.len()
            invariant
                position <= lines.len(),
                line_views(parsed@) == text_lines(lines@.take(position as int)),
            decreases lines.len() - position,
        {
            let text = lines[position].as_str();
            let list = characters(text);
            let line: Line = if list.len() > 0 && list[0] != '#' {
                Some(split_words(text))
            } else {
                None
            };
            proof {
                assert(line_view(line) == line_words(text@));
                assert(lines@.take(position + 1) == lines@.take(position as int).push(
                    lines@[position as int],
                ));
                assert(line_views(parsed@.push(line)) == line_views(parsed@).push(line_view(line)));
                assert(text_lines(lines@.take(position as int).push(lines@[position as int]))
                    == text_lines(lines@.take(position as int)).push(line_words(text@)));
            }
            parsed.push(line);
            position += 1;
        }
        proof {
            assert(lines@.take(position as int) == lines@);
            assert(line_views(parsed@).skip(0) == line_views(parsed@));
            assert(word_views(Seq::<String>::empty()) == Seq::<Seq<char>>::empty());
            let pending = text_lines(lines@);
            assert forall|line: int, place: int|
                0 <= line < pending.len() && pending[line] is Some && 0 <= place
                    < pending[line].unwrap().len() implies is_word(
                #[trigger] pending[line].unwrap()[place],
            ) by {
                lemma_words(lines@[line]@);
            }
        }
        Stack {
            lines: parsed,
            debug_stack: Vec::new(),
            current_line: 0,
            taken: 0,
            reading: false,
            counter: 0,
        }
    }

    /// The rejection of the given kind at the line being read.
    pub fn panic(&self, kind: ErrorKind, detail: String) -> (error: Error)
        ensures
            error@ == rejection(kind, self@.line, detail@),
    {
        Error::new(kind, self.current_line, detail)
    }

    /// Leaves a hint for the next [`Stack::pop`]: what to say if the operand is missing.
    pub fn push_debug(&mut self, debug_message: &str)
        requires
            old(self).wf(),
        ensures
            final(self).wf(),
            final(self)@ == (StackView {
                hints: old(self)@.hints.push(debug_message@),
                ..old(self)@
            }),
    {
        let hint = debug_message.to_owned();
        proof {
            assert(word_views(self.debug_stack@.push(hint)) == word_views(self.debug_stack@).push(
                hint@,
            ));
        }
        self.debug_stack.push(hint);
    }

    /// Takes the next operand of the line being read; `hint` tells what is
    /// missing where there is none.
    pub fn take(&mut self, hint: &str) -> (operand: Result<String, Error>)
        requires
            old(self).wf(),
        ensures
            final(self).wf(),
            final(self)@ == old(self)@.take(hint@).stack,
            text_outcome(operand) == old(self)@.take(hint@).result,
    {
        if !self.reading {
            return Err(self.panic(ErrorKind::InvalidLine, String::new()));
        }
        let operands = match &self.lines[self.current_line - 1] {
            Some(operands) => operands,
            None => {
                return Err(self.panic(ErrorKind::InvalidLine, String::new()));
            },
        };
        if self.taken >= operands.len() {
            return Err(self.panic(ErrorKind::MissingOperand, hint.to_owned()));
        }
        let operand = operands[self.taken].clone();
        proof {
            let all = word_views(operands@);
            assert(all.skip(self.taken as int).drop_first() == all.skip(self.taken + 1));
        }
        self.taken = self.taken + 1;
        Ok(operand)
    }

    /// Takes the next operand of the line being read, with the hint that
    /// was pushed last.
    pub fn pop(&mut self) -> (operand: Result<String, Error>)
        requires
            old(self).wf(),
            old(self)@.hints.len() > 0,
        ensures
            final(self).wf(),
            final(self)@ == old(self)@.pop().stack,
            text_outcome(operand) == old(self)@.pop().result,
    {
        let hint = self.debug_stack.pop().unwrap();
        proof {
            assert(word_views(self.debug_stack@) == word_views(old(self).debug_stack@).drop_last());
        }
        self.take(hint.as_str())
    }

    /// Goes to the next directive line and takes its first word, the key;
    /// gives nothing past the last line.
    pub fn pop_newline(&mut self) -> (key: Result<Option<String>, Error>)
        requires
            old(self).wf(),
        ensures
            final(self).wf(),
            final(self)@ == old(self)@.pop_newline().stack,
            match key {
                Ok(Some(word)) => old(self)@.pop_newline().result == Ok::<
                    Option<Seq<char>>,
                    ErrorView,
                >(Some(word@)),
                Ok(None) => old(self)@.pop_newline().result == Ok::<Option<Seq<char>>, ErrorView>(
                    None,
                ),
                Err(error) => old(self)@.pop_newline().result == Err::<
                    Option<Seq<char>>,
                    ErrorView,
                >(error@),
            },
    {
        let ghost before = self@;
        let mut found: bool = false;
        while !found && self.current_line < self.lines.len()
            invariant
                self.current_line <= self.lines@.len(),
                before == old(self)@,
                self.lines == old(self).lines,
                self.debug_stack == old(self).debug_stack,
                self.counter == old(self).counter,
                found ==> self.wf() && self.reading && self@ == before.advance(),
                !found ==> before.advance() == (StackView {
                    pending: line_views(self.lines@).skip(self.current_line as int),
                    line: self.current_line as nat,
                    ..before
                }).advance(),
            decreases self.lines@.len() - self.current_line + if found { 0int } else { 1int },
        {
            let ghost reached = StackView {
                pending: line_views(self.lines@).skip(self.current_line as int),
                line: self.current_line as nat,
                ..before
            };
            proof {
                assert(reached.pending.drop_first() == line_views(self.lines@).skip(
                    self.current_line + 1,
                ));
                assert(reached.pending[0] == line_view(self.lines@[self.current_line as int]));
            }
            self.current_line = self.current_line + 1;
            if self.lines[self.current_line - 1].is_some() {
                self.taken = 0;
                self.reading = true;
                found = true;
                proof {
                    let operands = word_views(self.lines@[self.current_line - 1].unwrap()@);
                    assert(operands.skip(0) == operands);
                    assert(reached.pending[0] == Some(operands));
                    assert(self@.pending == reached.pending.drop_first());
                    assert(self@.current == Some(operands));
                    assert(self@ == reached.advance());
                }
            }
        }
        if !found {
            self.reading = false;
            return Ok(None);
        }
        match self.take("no key specified") {
            Ok(word) => Ok(Some(word)),
            Err(error) => Err(error),
        }
    }

    /// Takes a directory name: the operand, with `/` at its end.
    pub fn pop_directory(&mut self) -> (name: Result<String, Error>)
        requires
            old(self).wf(),
        ensures
            final(self).wf(),
            final(self)@ == old(self)@.pop_directory().stack,
            text_outcome(name) == old(self)@.pop_directory().result,
    {
        let word = self.take("no directory specified")?;
        Ok(into_directory(word))
    }

    /// Takes a slot number. `*` gives the number after the one given last;
    /// a decimal number gives itself, and the count goes on from it.
    pub fn pop_counter(&mut self) -> (slot: Result<usize, Error>)
        requires
            old(self).wf(),
        ensures
            final(self).wf(),
            final(self)@ == old(self)@.pop_counter().stack,
            outcome(slot) == old(self)@.pop_counter().result,
            slot matches Ok(number) ==> final(self)@.counter == number,
    {
        let word = self.take("no value specified")?;
        if word.as_str().eq("*") {
            if self.counter < usize::MAX {
                self.counter = self.counter + 1;
                Ok(self.counter)
            } else {
                Err(self.panic(ErrorKind::CounterOverflow, word))
            }
        } else {
            match parse_usize(word.as_str()) {
                Some(number) => {
                    self.counter = number;
                    Ok(number)
                },
                None => Err(self.panic(ErrorKind::InvalidValue, word)),
            }
        }
    }

    /// Takes a decimal number of up to 64 bits.
    pub fn pop_u64(&mut self) -> (number: Result<u64, Error>)
        requires
            old(self).wf(),
        ensures
            final(self).wf(),
            final(self)@ == old(self)@.pop_u64().stack,
            outcome(number) == old(self)@.pop_u64().result,
    {
        let word = self.take("no number specified")?;
        match parse_u64(word.as_str()) {
            Some(number) => Ok(number),
            None => Err(self.panic(ErrorKind::InvalidNumber, word)),
        }
    }

    /// Takes a decimal number of up to 64 bits, cut to a machine word.
    pub fn pop_usize(&mut self) -> (number: Result<usize, Error>)
        requires
            old(self).wf(),
        ensures
            final(self).wf(),
            final(self)@ == old(self)@.pop_usize().stack,
            outcome(number) == old(self)@.pop_usize().result,
    {
        let word = self.take("no number specified")?;
        match parse_u64(word.as_str()) {
            Some(number) => Ok(#[verifier::truncate] (number as usize)),
            None => Err(self.panic(ErrorKind::InvalidNumber, word)),
        }
    }

    /// Takes a decimal number of up to 64 bits, cut to a byte.
    pub fn pop_u8(&mut self) -> (number: Result<u8, Error>)
        requires
            old(self).wf(),
        ensures
            final(self).wf(),
            final(self)@ == old(self)@.pop_u8().stack,
            outcome(number) == old(self)@.pop_u8().result,
    {
        let word = self.take("no number specified")?;
        match parse_u64(word.as_str()) {
            Some(number) => Ok(#[verifier::truncate] (number as u8)),
            None => Err(self.panic(ErrorKind::InvalidNumber, word)),
        }
    }

    /// Takes a mode: nothing for `base`, or the mask that a pattern of
    /// eight characters `0` and `1` spells.
    pub fn pop_mode(&mut self) -> (mask: Result<Option<u8>, Error>)
        requires
            old(self).wf(),
        ensures
            final(self).wf(),
            final(self)@ == old(self)@.pop_mode().stack,
            outcome(mask) == old(self)@.pop_mode().result,
    {
        let word = self.take("no mode specified")?;
        match parse_mode(word.as_str()) {
            Ok(mask) => Ok(mask),
            Err(kind) => Err(self.panic(kind, word)),
        }
    }

    /// Takes a decimal number that fits in a machine word.
    pub fn pop_index(&mut self) -> (number: Result<usize, Error>)
        requires
            old(self).wf(),
        ensures
            final(self).wf(),
            final(self)@ == old(self)@.pop_index().stack,
            outcome(number) == old(self)@.pop_index().result,
    {
        let word = self.take("no index specified")?;
        match parse_usize(word.as_str()) {
            Some(number) => Ok(number),
            None => Err(self.panic(ErrorKind::InvalidIndex, word)),
        }
    }

    /// Takes `enabled` or `disabled`.
    pub fn pop_state(&mut self) -> (enabled: Result<bool, Error>)
        requires
            old(self).wf(),
        ensures
            final(self).wf(),
            final(self)@ == old(self)@.pop_state().stack,
            outcome(enabled) == old(self)@.pop_state().result,
    {
        let word = self.take("no state specified. valid options are 'enabled' and 'disabled'")?;
        match parse_state(word.as_str()) {
            Some(enabled) => Ok(enabled),
            None => Err(self.panic(ErrorKind::InvalidState, word)),
        }
    }

    /// Takes the name of a release channel.
    pub fn pop_channel(&mut self) -> (found: Result<Channel, Error>)
        requires
            old(self).wf(),
        ensures
            final(self).wf(),
            final(self)@ == old(self)@.pop_channel().stack,
            outcome(found) == old(self)@.pop_channel().result,
    {
        let word = self.take(
            "no channel specified. valid options are 'stable', 'beta', 'nightly' or 'none'",
        )?;
        match parse_channel(word.as_str()) {
            Some(found) => Ok(found),
            None => Err(self.panic(ErrorKind::InvalidChannel, word)),
        }
    }

    /// Takes a dotted IPv4 address.
    pub fn pop_ip(&mut self) -> (found: Result<Address, Error>)
        requires
            old(self).wf(),
        ensures
            final(self).wf(),
            final(self)@ == old(self)@.pop_ip().stack,
            outcome(found) == old(self)@.pop_ip().result,
    {
        let word = self.take("no ip address specified")?;
        match parse_address(word.as_str()) {
            Some(found) => Ok(found),
            None => Err(self.panic(ErrorKind::InvalidAddress, word)),
        }
    }

    /// Takes a name; `!` stands for none.
    pub fn pop_name(&mut self) -> (name: Result<Option<String>, Error>)
        requires
            old(self).wf(),
        ensures
            final(self).wf(),
            final(self)@ == old(self)@.pop_name().stack,
            match name {
                Ok(name) => old(self)@.pop_name().result == Ok::<Option<Seq<char>>, ErrorView>(
                    optional_text(name),
                ),
                Err(error) => old(self)@.pop_name().result == Err::<Option<Seq<char>>, ErrorView>(
                    error@,
                ),
            },
    {
        let word = self.take("no name specified")?;
        if word.as_str().eq("!") {
            Ok(None)
        } else {
            Ok(Some(word))
        }
    }

    /// Takes the index or the name of a binary, and gives its path.
    pub fn pop_binary(&mut self, binary_files: &Vec<BinaryFile>) -> (path: Result<String, Error>)
        requires
            old(self).wf(),
        ensures
            final(self).wf(),
            final(self)@ == old(self)@.pop_binary(binary_views(binary_files@)).stack,
            text_outcome(path) == old(self)@.pop_binary(binary_views(binary_files@)).result,
    {
        let word = self.take("no binary name or index specified")?;
        match find_binary(binary_files, word.as_str()) {
            Some(path) => Ok(path),
            None => Err(self.panic(ErrorKind::BinaryNotFound, word)),
        }
    }

    /// Takes a character: `b` and one ASCII character, `s` for a space, or a
    /// decimal number of at most 255. Any other word is rejected.
    pub fn pop_ascii(&mut self) -> (byte: Result<u8, Error>)
        requires
            old(self).wf(),
        ensures
            final(self).wf(),
            final(self)@ == old(self)@.pop_ascii().stack,
            outcome(byte) == old(self)@.pop_ascii().result,
    {
        let word = self.take("no character specified")?;
        match parse_ascii(word.as_str()) {
            Ok(byte) => Ok(byte),
            Err(kind) => Err(self.panic(kind, word)),
        }
    }

    /// Takes the index or the name of a client, and gives its index.
    pub fn pop_client(&mut self, client_names: &Vec<String>) -> (found: Result<u8, Error>)
        requires
            old(self).wf(),
        ensures
            final(self).wf(),
            final(self)@ == old(self)@.pop_client(word_views(client_names@)).stack,
            outcome(found) == old(self)@.pop_client(word_views(client_names@)).result,
    {
        let word = self.take("no client name or index specified")?;
        match find_client(client_names, word.as_str()) {
            Some(found) => Ok(found),
            None => Err(self.panic(ErrorKind::ClientNotFound, word)),
        }
    }

    /// Takes the items of a sequence up to the `;` that closes it. A
    /// sequence has one to three items; one with none or with more is rejected.
    pub fn pop_sequence(&mut self) -> (sequence: Result<Vec<usize>, Error>)
        requires
            old(self).wf(),
        ensures
            final(self).wf(),
            final(self)@ == old(self)@.pop_sequence().stack,
            sequence_outcome(sequence) == old(self)@.pop_sequence().result,
            sequence matches Ok(items) ==> 1 <= items@.len() <= 3,
    {
        if !self.reading {
            return Err(self.panic(ErrorKind::InvalidLine, String::new()));
        }
        let operands = match &self.lines[self.current_line - 1] {
            Some(operands) => operands,
            None => {
                return Err(self.panic(ErrorKind::InvalidLine, String::new()));
            },
        };
        let ghost all = word_views(operands@);
        let ghost left = all.skip(self.taken as int);
        let start = self.taken;
        let mut sequence: Vec<usize> = Vec::new();
        let mut position: usize = start;
        proof {
            assert(left.take(0) == Seq::<Seq<char>>::empty());
            assert(left.skip(0) == left);
        }
        while position < operands.len()
            invariant
                start <= position <= operands@.len(),
                all == word_views(operands@),
                left == all.skip(start as int),
                items_length(left) == (position - start) + items_length(
                    left.skip(position - start),
                ),
                sequence@ == indices(left.take(position - start)),
            ensures
                start <= position <= operands@.len(),
                items_length(left) == position - start,
                sequence@ == indices(left.take(position - start)),
                position < operands@.len() ==> !is_index(all[position as int]),
            decreases operands@.len() - position,
        {
            let ghost rest = left.skip(position - start);
            proof {
                assert(rest[0] == all[position as int]);
                assert(rest == all.skip(position as int));
                assert(rest.drop_first() == left.skip(position - start + 1));
            }
            match parse_usize(operands[position].as_str()) {
                Some(number) => {
                    proof {
                        assert(left.take(position - start + 1) == left.take(
                            position - start,
                        ).push(all[position as int]));
                        assert(indices(left.take(position - start).push(all[position as int]))
                            == indices(left.take(position - start)).push(number));
                    }
                    sequence.push(number);
                    position += 1;
                },
                None => {
                    break ;
                },
            }
        }
        proof {
            lemma_items_length(left);
            if position >= operands@.len() {
                assert(left.skip(position - start) == Seq::<Seq<char>>::empty());
            }
        }
        if position >= operands.len() {
            self.taken = position;
            proof {
                assert(all.skip(position as int) == Seq::<Seq<char>>::empty());
            }
            return Err(self.panic(ErrorKind::UnterminatedSequence, String::new()));
        }
        let word = operands[position].clone();
        proof {
            assert(left[position - start] == all[position as int]);
            assert(left.skip(position - start + 1) == all.skip(position + 1));
        }
        self.taken = position + 1;
        if !word.as_str().eq(";") {
            Err(self.panic(ErrorKind::InvalidSequence, word))
        } else if sequence.len() == 0 {
            Err(self.panic(ErrorKind::EmptySequence, String::new()))
        } else if sequence.len() > 3 {
            Err(self.panic(ErrorKind::LongSequence, String::new()))
        } else {
            Ok(sequence)
        }
    }
}

} // verus!
