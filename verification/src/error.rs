//! Why a configuration is rejected.

use vstd::prelude::*;

verus! {

/// The ways in which a configuration can be wrong.
#[derive(Clone, Copy, PartialEq, Eq, Debug, Structural)]
pub enum ErrorKind {
    /// An operand was asked for while no directive line was being read.
    InvalidLine,
    /// The line has no operand left; the detail is the hint of the one who asked.
    MissingOperand,
    /// A slot number is neither `*` nor a decimal number.
    InvalidValue,
    /// The slot counter cannot be advanced any further.
    CounterOverflow,
    /// An operand is not a decimal number.
    InvalidNumber,
    /// A mode pattern does not have eight characters.
    InvalidModeLength,
    /// A mode pattern holds a character other than `0` and `1`.
    InvalidModeCharacter,
    /// An index is not a decimal number.
    InvalidIndex,
    /// A state is neither `enabled` nor `disabled`.
    InvalidState,
    /// A channel is none of `stable`, `beta`, `nightly` and `none`.
    InvalidChannel,
    /// An operand is not a dotted IPv4 address.
    InvalidAddress,
    /// No binary has the index or the name.
    BinaryNotFound,
    /// A literal character is announced and missing.
    MissingCharacter,
    /// A character is neither a literal, nor a space, nor a decimal number.
    InvalidCharacter,
    /// A sequence has no item.
    EmptySequence,
    /// A sequence has more than three items.
    LongSequence,
    /// An item of a sequence is not a decimal number.
    InvalidSequence,
    /// A sequence is not closed by `;`.
    UnterminatedSequence,
    /// No client has the name.
    ClientNotFound,
    /// The keyword of a directive is not registered.
    InvalidKeyword,
    /// A keyword that may be called once is called again.
    RepeatedCall,
    /// `?` is used on a keyword that takes a prefix.
    PrefixedCall,
    /// `@`, `:` or `+` is used on a keyword that may be called once.
    SingleCall,
    /// A directive starts with none of `?`, `@`, `:` and `+`.
    InvalidCallMode,
    /// A byte rule other than the known ones.
    InvalidByteRule,
    /// A value rule other than the known ones.
    InvalidValueRule,
    /// A slot is assigned before any mode is declared.
    NoMode,
    /// A slot number lies outside the translation table.
    SlotOutOfRange,
    /// An event does not say where its slot number stands.
    NoSlotBytes,
    /// Two events have one identifier.
    DuplicateEvent,
    /// A controller names no source.
    NoSource,
    /// A controller names no report width.
    NoWidth,
    /// A client is neither serial nor ethernet.
    NoClientMode,
    /// A client is said to be reached in a second way.
    SecondClientMode,
    /// A client has no binary to transmit.
    NoBinary,
    /// Two binaries have one path.
    DuplicateBinaryPath,
    /// Two binaries have one name.
    DuplicateBinaryName,
    /// Two clients have one name.
    DuplicateClient,
}

/// A rejection: what is wrong, on which line, and the word or hint that
/// belongs to it.
#[derive(Debug, PartialEq, Eq)]
pub struct Error {
    pub kind: ErrorKind,
    pub line: usize,
    pub detail: String,
}

/// The mathematical content of an [`Error`].
pub struct ErrorView {
    pub kind: ErrorKind,
    pub line: nat,
    pub detail: Seq<char>,
}

impl View for Error {
    type V = ErrorView;

    open spec fn view(&self) -> ErrorView {
        ErrorView { kind: self.kind, line: self.line as nat, detail: self.detail@ }
    }
}

/// The rejection of the given kind, line and detail.
pub open spec fn rejection(kind: ErrorKind, line: nat, detail: Seq<char>) -> ErrorView {
    ErrorView { kind, line, detail }
}

impl Error {
    /// A rejection of the given kind on the given line.
    pub fn new(kind: ErrorKind, line: usize, detail: String) -> (error: Error)
        ensures
            error@ == rejection(kind, line as nat, detail@),
    {
        Error { kind, line, detail }
    }
}

} // verus!
