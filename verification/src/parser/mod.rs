//! The configuration language: tokens, operands and keyword dispatch.

pub mod line;
pub mod stack;
pub mod word;

use vstd::arithmetic::power::{lemma_pow_increases, lemma_pow_multiplies, pow};
use vstd::prelude::*;

use crate::error::{rejection, Error, ErrorKind, ErrorView};
use crate::parser::stack::{outcome, text_lines, StackView};
use crate::parser::word::characters;
use crate::search::{lemma_first_index, lemma_no_index};

pub use self::stack::Stack;

verus! {

/// A binary that can be transmitted to a device, and the name by which
/// clients may refer to it.
#[derive(Debug, PartialEq, Eq)]
pub struct BinaryFile {
    pub path: String,
    pub name: Option<String>,
}

/// The mathematical content of a [`BinaryFile`].
pub struct BinaryFileView {
    pub path: Seq<char>,
    pub name: Option<Seq<char>>,
}

/// The characters of an optional string.
pub open spec fn optional_text(text: Option<String>) -> Option<Seq<char>> {
    match text {
        Some(text) => Some(text@),
        None => None,
    }
}

impl View for BinaryFile {
    type V = BinaryFileView;

    open spec fn view(&self) -> BinaryFileView {
        BinaryFileView { path: self.path@, name: optional_text(self.name) }
    }
}

/// The contents of a table of binaries, in order.
pub open spec fn binary_views(table: Seq<BinaryFile>) -> Seq<BinaryFileView> {
    table.map_values(|binary: BinaryFile| binary@)
}

/// The paths of a table of binaries, in order.
pub open spec fn binary_paths(table: Seq<BinaryFileView>) -> Seq<Seq<char>> {
    table.map_values(|binary: BinaryFileView| binary.path)
}

/// The names of a table of binaries, in order.
pub open spec fn binary_names(table: Seq<BinaryFileView>) -> Seq<Option<Seq<char>>> {
    table.map_values(|binary: BinaryFileView| binary.name)
}

/// A release channel of a binary.
#[derive(Clone, Copy, PartialEq, Eq, Debug, Structural)]
pub enum Channel {
    Stable,
    Beta,
    Nightly,
    /// No channel: the binary is taken under its own name.
    Plain,
}

impl Channel {
    /// What the channel adds to the name of a binary.
    pub open spec fn extension(self) -> Seq<char> {
        match self {
            Channel::Stable => ".stable"@,
            Channel::Beta => ".beta"@,
            Channel::Nightly => ".nightly"@,
            Channel::Plain => ""@,
        }
    }

    /// What the channel adds to the name of a binary.
    pub fn suffix(&self) -> (suffix: &'static str)
        ensures
            suffix@ == self.extension(),
    {
        match *self {
            Channel::Stable => ".stable",
            Channel::Beta => ".beta",
            Channel::Nightly => ".nightly",
            Channel::Plain => "",
        }
    }
}

/// The number that the bytes of `buffer` at the offsets of `sequence` spell,
/// first offset most significant, kept to 64 bits.
pub open spec fn sequence_value(buffer: Seq<u8>, sequence: Seq<usize>) -> nat
    decreases sequence.len(),
{
    if sequence.len() == 0 {
        0
    } else {
        (sequence_value(buffer, sequence.drop_last()) * 256 + buffer[sequence.last() as int] as nat)
            % 0x1_0000_0000_0000_0000
    }
}

/// Whether every offset of `sequence` lies inside a buffer of `width` bytes.
pub open spec fn sequence_fits(sequence: Seq<usize>, width: nat) -> bool {
    forall|i: int| 0 <= i < sequence.len() ==> sequence[i] < width
}

/// Shifting a byte in from the right multiplies by 256 and adds the byte,
/// within 64 bits.
proof fn lemma_shift_in(value: u64, byte: u8)
    ensures
        (value << 8 | byte as u64) as nat == (value as nat * 256 + byte as nat)
            % 0x1_0000_0000_0000_0000,
{
    assert((value << 8 | byte as u64) as int == (value as int * 256 + byte as int)
        % 0x1_0000_0000_0000_0000) by (bit_vector);
}

/// The bytes of `buffer` at the offsets of `sequence` read as one big-endian
/// number: the byte at offset `i` of `k` counts `256^(k-1-i)` times.
pub open spec fn big_endian(buffer: Seq<u8>, sequence: Seq<usize>) -> nat
    decreases sequence.len(),
{
    if sequence.len() == 0 {
        0
    } else {
        big_endian(buffer, sequence.drop_last()) * 256 + buffer[sequence.last() as int] as nat
    }
}

/// A sequence of `k` offsets spells a number below `256^k`.
pub proof fn lemma_big_endian_bound(buffer: Seq<u8>, sequence: Seq<usize>)
    ensures
        big_endian(buffer, sequence) < pow(256, sequence.len()),
    decreases sequence.len(),
{
    reveal(pow);
    if sequence.len() > 0 {
        lemma_big_endian_bound(buffer, sequence.drop_last());
    }
}

/// Up to eight offsets decode without loss: the value is the big-endian
/// number that the bytes spell, and lies below `2^(8k)`.
pub proof fn lemma_sequence_value(buffer: Seq<u8>, sequence: Seq<usize>)
    requires
        sequence.len() <= 8,
    ensures
        sequence_value(buffer, sequence) == big_endian(buffer, sequence),
        sequence_value(buffer, sequence) < pow(2, 8 * sequence.len()),
        sequence.len() == 1 ==> sequence_value(buffer, sequence) == buffer[sequence[0] as int],
        sequence.len() == 2 ==> sequence_value(buffer, sequence) == buffer[sequence[0] as int]
            * 256 + buffer[sequence[1] as int],
        sequence.len() == 3 ==> sequence_value(buffer, sequence) == buffer[sequence[0] as int]
            * 65536 + buffer[sequence[1] as int] * 256 + buffer[sequence[2] as int],
    decreases sequence.len(),
{
    lemma_big_endian_bound(buffer, sequence);
    lemma_pow_multiplies(2, 8, sequence.len());
    assert(pow(2, 8) == 256) by {
        reveal_with_fuel(pow, 9);
    }
    assert(pow(256, 8) == 0x1_0000_0000_0000_0000) by {
        reveal_with_fuel(pow, 9);
    }
    if sequence.len() > 0 {
        let shorter = sequence.drop_last();
        lemma_sequence_value(buffer, shorter);
        lemma_big_endian_bound(buffer, shorter);
        lemma_pow_increases(256, sequence.len(), 8);
        if sequence.len() >= 2 {
            assert(shorter.last() == sequence[sequence.len() - 2]);
            if sequence.len() >= 3 {
                assert(shorter.drop_last().last() == sequence[sequence.len() - 3]);
                assert(shorter.drop_last().drop_last().len() == sequence.len() - 3);
            }
        }
        reveal_with_fuel(big_endian, 4);
    }
}

/// Tells whether every offset of `sequence` lies inside a buffer of `width` bytes.
pub fn sequence_in_bounds(sequence: &Vec<usize>, width: usize) -> (fits: bool)
    ensures
        fits == sequence_fits(sequence@, width as nat),
{
    let mut position: usize = 0;
    while position < sequence.len()
        invariant
            position <= sequence.len(),
            forall|i: int| 0 <= i < position ==> sequence[i] < width,
        decreases sequence.len() - position,
    {
        if sequence[position] >= width {
            return false;
        }
        position += 1;
    }
    true
}

/// Decodes the bytes of `buffer` named by `sequence` into one number.
pub fn unwrap_sequence(buffer: &Vec<u8>, sequence: &Vec<usize>) -> (value: u64)
    requires
        sequence_fits(sequence@, buffer@.len()),
    ensures
        value == sequence_value(buffer@, sequence@),
{
    let mut value: u64 = 0;
    let mut position: usize = 0;
    while position < sequence.len()
        invariant
            position <= sequence.len(),
            sequence_fits(sequence@, buffer@.len()),
            value == sequence_value(buffer@, sequence@.take(position as int)),
        decreases sequence.len() - position,
    {
        let byte: u8 = buffer[sequence[position]];
        proof {
            lemma_shift_in(value, byte);
            assert(sequence@.take(position + 1).drop_last() == sequence@.take(position as int));
        }
        value = value << 8 | byte as u64;
        position += 1;
    }
    proof {
        assert(sequence@.take(position as int) == sequence@);
    }
    value
}

/// The first place where a file of a configuration is looked for: the
/// base name with the extension, in the directory `path`.
pub open spec fn direct_path(path: Seq<char>, base: Seq<char>, extension: Seq<char>) -> Seq<char> {
    path + base + seq!['.'] + extension
}

/// The second place where it is looked for: the file named after the
/// extension in the directory named after the base, or the other way round.
pub open spec fn nested_path(
    path: Seq<char>,
    base: Seq<char>,
    extension: Seq<char>,
    reverse: bool,
) -> Seq<char> {
    if reverse {
        path + extension + seq!['/'] + base
    } else {
        path + base + seq!['/'] + extension
    }
}

/// Gives the two places where a file of a configuration is looked for, in
/// the order in which they are tried.
pub fn candidates(path: &str, base: &str, extension: &str, reverse: bool) -> (places: (
    String,
    String,
))
    ensures
        places.0@ == direct_path(path@, base@, extension@),
        places.1@ == nested_path(path@, base@, extension@, reverse),
{
    proof {
        reveal_strlit(".");
        reveal_strlit("/");
        assert("."@ == seq!['.']);
        assert("/"@ == seq!['/']);
    }
    let direct = path.to_owned().concat(base).concat(".").concat(extension);
    let nested = if reverse {
        path.to_owned().concat(extension).concat("/").concat(base)
    } else {
        path.to_owned().concat(base).concat("/").concat(extension)
    };
    (direct, nested)
}

/// Picks the file of a configuration: the first of the two places where
/// it is looked for at which a file was found.
pub fn checked_path(path: &str, base: &str, extension: &str, reverse: bool, found: (bool, bool)) -> (place:
    Option<String>)
    ensures
        optional_text(place) == if found.0 {
            Some(direct_path(path@, base@, extension@))
        } else if found.1 {
            Some(nested_path(path@, base@, extension@, reverse))
        } else {
            None
        },
{
    let (direct, nested) = candidates(path, base, extension, reverse);
    if found.0 {
        Some(direct)
    } else if found.1 {
        Some(nested)
    } else {
        None
    }
}

/// The directory of a path: the path up to its last `/`, where it has one.
pub open spec fn directory_part(path: Seq<char>) -> Option<Seq<char>> {
    match path.index_of_last('/') {
        Some(slash) => Some(path.take(slash + 1)),
        None => None,
    }
}

/// Gives the directory of a path.
pub fn directory_of(path: &str) -> (directory: Option<String>)
    ensures
        optional_text(directory) == directory_part(path@),
{
    let list = characters(path);
    let mut position: usize = list.len();
    proof {
        path@.index_of_last_ensures('/');
    }
    while position > 0
        invariant
            position <= list@.len(),
            list@ == path@,
            forall|later: int| position <= later < list@.len() ==> list@[later] != '/',
        decreases position,
    {
        if list[position - 1] == '/' {
            proof {
                path@.index_of_last_ensures('/');
                assert(path@.contains('/'));
            }
            return Some(path.substring_char(0, position).to_owned());
        }
        position -= 1;
    }
    proof {
        path@.index_of_last_ensures('/');
    }
    None
}

/// How a keyword may be called.
#[derive(Debug, PartialEq, Eq)]
pub enum CallMode {
    /// With `:` or `+`, any number of times, after the prefix that `@` has set.
    Item(String),
    /// With `?`, once; the flag tells whether that call was made.
    Once(bool),
}

/// The mathematical content of a [`CallMode`].
pub enum CallModeView {
    Item(Seq<char>),
    Once(bool),
}

impl View for CallMode {
    type V = CallModeView;

    open spec fn view(&self) -> CallModeView {
        match self {
            CallMode::Item(prefix) => CallModeView::Item(prefix@),
            CallMode::Once(called) => CallModeView::Once(*called),
        }
    }
}

impl CallMode {
    /// The call mode of a keyword that was not called yet.
    pub fn new(once: bool) -> (mode: CallMode)
        ensures
            mode@ == if once {
                CallModeView::Once(false)
            } else {
                CallModeView::Item(Seq::empty())
            },
    {
        if once {
            CallMode::Once(false)
        } else {
            CallMode::Item(String::new())
        }
    }
}

/// A keyword of the configuration language.
#[derive(Debug, PartialEq, Eq)]
pub struct Keyword {
    pub identifier: String,
    pub call_mode: CallMode,
}

/// The mathematical content of a [`Keyword`].
pub struct KeywordView {
    pub identifier: Seq<char>,
    pub call_mode: CallModeView,
}

impl View for Keyword {
    type V = KeywordView;

    open spec fn view(&self) -> KeywordView {
        KeywordView { identifier: self.identifier@, call_mode: self.call_mode@ }
    }
}

/// The contents of a list of keywords, in order.
pub open spec fn keyword_views(keywords: Seq<Keyword>) -> Seq<KeywordView> {
    keywords.map_values(|keyword: Keyword| keyword@)
}

/// The identifiers of a list of keywords, in order.
pub open spec fn identifiers(keywords: Seq<KeywordView>) -> Seq<Seq<char>> {
    keywords.map_values(|keyword: KeywordView| keyword.identifier)
}

/// A keyword that takes a prefix, with none set yet.
pub open spec fn item(identifier: Seq<char>) -> KeywordView {
    KeywordView { identifier, call_mode: CallModeView::Item(Seq::empty()) }
}

/// A keyword that may be called once, and was not yet.
pub open spec fn single(identifier: Seq<char>) -> KeywordView {
    KeywordView { identifier, call_mode: CallModeView::Once(false) }
}

/// The characters of an optional string slice.
pub open spec fn optional_slice(text: Option<&str>) -> Option<Seq<char>> {
    match text {
        Some(text) => Some(text@),
        None => None,
    }
}

/// A handler and the stack after a call, and whether the call was rejected.
pub struct Applied<S> {
    pub state: S,
    pub stack: StackView,
    pub result: Result<(), ErrorView>,
}

/// What carries out the directives of one configuration: the parser tells
/// it which keyword is called, and it takes the operands from the stack.
pub trait Handler: View {
    /// Whether the handler is in a state in which it can be called.
    spec fn ready(&self) -> bool;

    /// Whether the handler waits for something from outside the
    /// configuration before the next directive is read.
    spec fn waiting(state: Self::V) -> bool;

    /// What a call of the keyword with number `keyword` makes of the
    /// handler and of the stack.
    spec fn applied(
        state: Self::V,
        keyword: int,
        prefix: Option<Seq<char>>,
        stack: StackView,
    ) -> Applied<Self::V>;

    /// Tells whether the handler waits for something from outside.
    fn is_waiting(&self) -> (waiting: bool)
        requires
            self.ready(),
        ensures
            waiting == Self::waiting(self@),
    ;

    /// Carries out a call of the keyword with number `keyword`, in the order
    /// of registration. The operands are taken from the line being read.
    fn call(&mut self, keyword: usize, prefix: Option<&str>, stack: &mut Stack) -> (result: Result<
        (),
        Error,
    >)
        requires
            old(self).ready(),
            old(stack).wf(),
        ensures
            final(self).ready(),
            final(stack).wf(),
            final(stack)@.pending == old(stack)@.pending,
            final(stack)@.line == old(stack)@.line,
            (Applied { state: final(self)@, stack: final(stack)@, result: outcome(result) })
                == Self::applied(old(self)@, keyword as int, optional_slice(prefix), old(stack)@),
    ;
}

/// The keywords of a configuration and the lines that use them.
pub struct Parser {
    stack: Stack,
    keywords: Vec<Keyword>,
}

/// The mathematical content of a [`Parser`].
pub struct ParserView {
    pub stack: StackView,
    pub keywords: Seq<KeywordView>,
}

/// A parser and a handler after some directives, and how reading went on:
/// whether there is more to read, the end was reached, or a directive was
/// rejected.
pub struct Round<S> {
    pub parser: ParserView,
    pub handler: S,
    pub result: Result<bool, ErrorView>,
}

impl ParserView {
    /// A parser with the given keywords, before the first of the lines.
    pub open spec fn beginning(
        lines: Seq<Option<Seq<Seq<char>>>>,
        keywords: Seq<KeywordView>,
    ) -> ParserView {
        ParserView {
            stack: StackView {
                pending: lines,
                current: None,
                line: 0,
                counter: 0,
                hints: Seq::empty(),
            },
            keywords,
        }
    }

    /// The parser after a directive that was rejected.
    pub open spec fn reject<S>(self, handler: S, kind: ErrorKind, detail: Seq<char>) -> Round<S> {
        Round { parser: self, handler, result: Err(rejection(kind, self.stack.line, detail)) }
    }

    /// Calls the handler for the keyword with number `keyword`. The keyword
    /// then has the call mode `called`.
    pub open spec fn invoke<H: Handler>(
        self,
        handler: H::V,
        keyword: int,
        prefix: Option<Seq<char>>,
        called: CallModeView,
    ) -> Round<H::V> {
        let applied = H::applied(handler, keyword, prefix, self.stack);
        let stack = StackView {
            pending: self.stack.pending,
            line: self.stack.line,
            ..applied.stack
        };
        match applied.result {
            Ok(_) => Round {
                parser: ParserView {
                    stack,
                    keywords: self.keywords.update(
                        keyword,
                        KeywordView { call_mode: called, ..self.keywords[keyword] },
                    ),
                },
                handler: applied.state,
                result: Ok(true),
            },
            Err(error) => Round {
                parser: ParserView { stack, ..self },
                handler: applied.state,
                result: Err(error),
            },
        }
    }

    /// Carries out the directive whose first word is `key`: a character that
    /// tells how the keyword is called, and the keyword.
    pub open spec fn dispatch<H: Handler>(self, handler: H::V, key: Seq<char>) -> Round<H::V> {
        if key.len() == 0 {
            self.reject(handler, ErrorKind::InvalidCallMode, key)
        } else {
            let name = key.skip(1);
            match identifiers(self.keywords).index_of_first(name) {
                None => self.reject(handler, ErrorKind::InvalidKeyword, name),
                Some(keyword) => {
                    let mode = self.keywords[keyword].call_mode;
                    if key[0] == '?' {
                        match mode {
                            CallModeView::Once(false) => self.invoke::<H>(
                                handler,
                                keyword,
                                None,
                                CallModeView::Once(true),
                            ),
                            CallModeView::Once(true) => self.reject(
                                handler,
                                ErrorKind::RepeatedCall,
                                name,
                            ),
                            CallModeView::Item(_) => self.reject(
                                handler,
                                ErrorKind::PrefixedCall,
                                name,
                            ),
                        }
                    } else if key[0] == '@' {
                        match mode {
                            CallModeView::Item(_) => {
                                let taken = self.stack.take("no prefix specified"@);
                                match taken.result {
                                    Ok(prefix) => Round {
                                        parser: ParserView {
                                            stack: taken.stack,
                                            keywords: self.keywords.update(
                                                keyword,
                                                KeywordView {
                                                    call_mode: CallModeView::Item(prefix),
                                                    ..self.keywords[keyword]
                                                },
                                            ),
                                        },
                                        handler,
                                        result: Ok(true),
                                    },
                                    Err(error) => Round {
                                        parser: ParserView { stack: taken.stack, ..self },
                                        handler,
                                        result: Err(error),
                                    },
                                }
                            },
                            CallModeView::Once(_) => self.reject(
                                handler,
                                ErrorKind::SingleCall,
                                name,
                            ),
                        }
                    } else if key[0] == ':' || key[0] == '+' {
                        match mode {
                            CallModeView::Item(prefix) => self.invoke::<H>(
                                handler,
                                keyword,
                                Some(prefix),
                                mode,
                            ),
                            CallModeView::Once(_) => self.reject(
                                handler,
                                ErrorKind::SingleCall,
                                name,
                            ),
                        }
                    } else {
                        self.reject(handler, ErrorKind::InvalidCallMode, key.take(1))
                    }
                },
            }
        }
    }

    /// Reads on to the next directive and carries it out.
    pub open spec fn step<H: Handler>(self, handler: H::V) -> Round<H::V> {
        let popped = self.stack.pop_newline();
        let reached = ParserView { stack: popped.stack, ..self };
        match popped.result {
            Err(error) => Round { parser: reached, handler, result: Err(error) },
            Ok(None) => Round { parser: reached, handler, result: Ok(false) },
            Ok(Some(key)) => reached.dispatch::<H>(handler, key),
        }
    }

    /// Reads and carries out the directives, one after the other: to the end
    /// of the configuration, to the first that is rejected, or to the first
    /// after which the handler waits, when there is more to read.
    pub open spec fn parse<H: Handler>(self, handler: H::V) -> Round<H::V>
        decreases self.stack.pending.len(),
    {
        let round = self.step::<H>(handler);
        if round.result == Ok::<bool, ErrorView>(true) && !H::waiting(round.handler) {
            proof {
                lemma_step_shortens::<H>(self, handler);
            }
            round.parser.parse::<H>(round.handler)
        } else {
            round
        }
    }
}

/// Going to the next directive line leaves fewer lines to read.
pub proof fn lemma_advance_shortens(stack: StackView)
    ensures
        stack.advance().pending.len() <= stack.pending.len(),
        stack.advance().current is Some ==> stack.advance().pending.len() < stack.pending.len(),
        stack.advance().current is None ==> stack.advance().pending.len() == 0,
    decreases stack.pending.len(),
{
    if stack.pending.len() > 0 && stack.pending[0] is None {
        lemma_advance_shortens(
            StackView { pending: stack.pending.drop_first(), line: stack.line + 1, ..stack },
        );
    }
}

/// A directive that was carried out leaves fewer lines to read.
pub proof fn lemma_step_shortens<H: Handler>(parser: ParserView, handler: H::V)
    ensures
        parser.step::<H>(handler).result == Ok::<bool, ErrorView>(true) ==> parser.step::<H>(
            handler,
        ).parser.stack.pending.len() < parser.stack.pending.len(),
{
    lemma_advance_shortens(parser.stack);
}

impl View for Parser {
    type V = ParserView;

    closed spec fn view(&self) -> ParserView {
        ParserView { stack: self.stack@, keywords: keyword_views(self.keywords@) }
    }
}

impl Parser {
    /// Whether the parser can go on reading.
    pub closed spec fn wf(&self) -> bool {
        self.stack.wf()
    }

    /// A parser over the lines of a configuration, with no keyword registered.
    pub fn new(lines: &Vec<String>) -> (parser: Parser)
        ensures
            parser.wf(),
            parser@ == ParserView::beginning(text_lines(lines@), Seq::empty()),
    {
        let parser = Parser { stack: Stack::new(lines), keywords: Vec::new() };
        proof {
            assert(keyword_views(parser.keywords@) == Seq::<KeywordView>::empty());
        }
        parser
    }

    /// The operand stack of the parser.
    pub fn stack(&self) -> (stack: &Stack)
        ensures
            stack@ == self@.stack,
            self.wf() ==> stack.wf(),
    {
        &self.stack
    }

    /// Registers a keyword, which gets the next number. One that may be
    /// called once is called with `?`; another with `:` or `+`, after the
    /// prefix that `@` has set.
    pub fn register(&mut self, identifier: &str, once: bool)
        requires
            old(self).wf(),
        ensures
            final(self).wf(),
            final(self)@ == (ParserView {
                keywords: old(self)@.keywords.push(
                    if once {
                        single(identifier@)
                    } else {
                        item(identifier@)
                    },
                ),
                ..old(self)@
            }),
    {
        let keyword = Keyword { identifier: identifier.to_owned(), call_mode: CallMode::new(once) };
        proof {
            assert(keyword_views(self.keywords@.push(keyword)) == keyword_views(
                self.keywords@,
            ).push(keyword@));
        }
        self.keywords.push(keyword);
    }

    /// Finds the keyword with the given identifier: the first that was
    /// registered with it.
    fn find(&self, name: &str) -> (found: Option<usize>)
        ensures
            match found {
                Some(keyword) => keyword < self.keywords@.len() && identifiers(
                    self@.keywords,
                ).index_of_first(name@) == Some(keyword as int),
                None => identifiers(self@.keywords).index_of_first(name@) is None,
            },
    {
        let mut position: usize = 0;
        while position < self.keywords.len()
            invariant
                position <= self.keywords@.len(),
                forall|earlier: int|
                    0 <= earlier < position ==> identifiers(self@.keywords)[earlier] != name@,
            decreases self.keywords@.len() - position,
        {
            if self.keywords[position].identifier.as_str().eq(name) {
                proof {
                    lemma_first_index(identifiers(self@.keywords), name@, position as int);
                }
                return Some(position);
            }
            position += 1;
        }
        proof {
            lemma_no_index(identifiers(self@.keywords), name@);
        }
        None
    }

    /// Gives the keyword with number `keyword` another call mode.
    fn set_mode(&mut self, keyword: usize, mode: CallMode)
        requires
            keyword < old(self).keywords@.len(),
        ensures
            final(self).stack == old(self).stack,
            final(self)@.keywords == old(self)@.keywords.update(
                keyword as int,
                KeywordView { call_mode: mode@, ..old(self)@.keywords[keyword as int] },
            ),
    {
        let identifier = self.keywords[keyword].identifier.clone();
        let changed = Keyword { identifier, call_mode: mode };
        proof {
            assert(keyword_views(self.keywords@.update(keyword as int, changed)) == keyword_views(
                self.keywords@,
            ).update(keyword as int, changed@));
        }
        self.keywords.set(keyword, changed);
    }

    /// Reads on to the next directive and carries it out. Tells whether
    /// there was one.
    pub fn step<H: Handler>(&mut self, handler: &mut H) -> (more: Result<bool, Error>)
        requires
            old(self).wf(),
            old(handler).ready(),
        ensures
            final(self).wf(),
            final(handler).ready(),
            (Round { parser: final(self)@, handler: final(handler)@, result: outcome(more) })
                == old(self)@.step::<H>(old(handler)@),
    {
        let key = match self.stack.pop_newline() {
            Ok(Some(key)) => key,
            Ok(None) => {
                return Ok(false);
            },
            Err(error) => {
                return Err(error);
            },
        };
        let list = characters(key.as_str());
        if list.len() == 0 {
            return Err(self.stack.panic(ErrorKind::InvalidCallMode, key));
        }
        let name = key.as_str().substring_char(1, list.len()).to_owned();
        let keyword = match self.find(name.as_str()) {
            Some(keyword) => keyword,
            None => {
                return Err(self.stack.panic(ErrorKind::InvalidKeyword, name));
            },
        };
        let mark = list[0];
        let ghost reached = self@;
        if mark == '?' {
            match &self.keywords[keyword].call_mode {
                CallMode::Once(false) => {
                    handler.call(keyword, None, &mut self.stack)?;
                    self.set_mode(keyword, CallMode::Once(true));
                    Ok(true)
                },
                CallMode::Once(true) => Err(self.stack.panic(ErrorKind::RepeatedCall, name)),
                CallMode::Item(_) => Err(self.stack.panic(ErrorKind::PrefixedCall, name)),
            }
        } else if mark == '@' {
            match &self.keywords[keyword].call_mode {
                CallMode::Item(_) => {
                    let prefix = self.stack.take("no prefix specified")?;
                    self.set_mode(keyword, CallMode::Item(prefix));
                    Ok(true)
                },
                CallMode::Once(_) => Err(self.stack.panic(ErrorKind::SingleCall, name)),
            }
        } else if mark == ':' || mark == '+' {
            match &self.keywords[keyword].call_mode {
                CallMode::Item(prefix) => {
                    let prefix = prefix.clone();
                    handler.call(keyword, Some(prefix.as_str()), &mut self.stack)?;
                    proof {
                        assert(reached.keywords.update(keyword as int, reached.keywords[keyword as int])
                            == reached.keywords);
                    }
                    Ok(true)
                },
                CallMode::Once(_) => Err(self.stack.panic(ErrorKind::SingleCall, name)),
            }
        } else {
            let detail = key.as_str().substring_char(0, 1).to_owned();
            Err(self.stack.panic(ErrorKind::InvalidCallMode, detail))
        }
    }

    /// Reads and carries out the directives, one after the other: to the end
    /// of the configuration, to the first that is rejected, or to the first
    /// after which the handler waits. Tells whether there is more to read,
    /// which is so where the handler waits.
    pub fn parse<H: Handler>(&mut self, handler: &mut H) -> (more: Result<bool, Error>)
        requires
            old(self).wf(),
            old(handler).ready(),
        ensures
            final(self).wf(),
            final(handler).ready(),
            (Round { parser: final(self)@, handler: final(handler)@, result: outcome(more) })
                == old(self)@.parse::<H>(old(handler)@),
            more == Ok::<bool, Error>(true) ==> H::waiting(final(handler)@),
    {
        loop
            invariant
                self.wf(),
                handler.ready(),
                old(self)@.parse::<H>(old(handler)@) == self@.parse::<H>(handler@),
            decreases self@.stack.pending.len(),
        {
            proof {
                lemma_step_shortens::<H>(self@, handler@);
            }
            match self.step(handler) {
                Ok(true) => {
                    if handler.is_waiting() {
                        return Ok(true);
                    }
                },
                Ok(false) => {
                    return Ok(false);
                },
                Err(error) => {
                    return Err(error);
                },
            }
        }
    }
}

} // verus!
