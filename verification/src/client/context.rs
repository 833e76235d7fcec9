//! What is known of one client: its name, its binary, and how it is reached.

use crate::error::{rejection, Error, ErrorKind, ErrorView};
use crate::parser::stack::{outcome, text_lines, StackView, Step};
use crate::parser::word::Address;
use crate::parser::{
    binary_views, optional_text, single, Applied, BinaryFile, BinaryFileView, Channel, Handler,
    KeywordView, Parser, ParserView, Stack,
};
use vstd::prelude::*;

verus! {

/// What a device asks of its client.
#[derive(Debug, PartialEq, Eq)]
pub enum Request {
    /// To be sent the binary that the client is configured with.
    TransmitKernel,
    /// To be sent the file with the given path.
    TransmitFile(String),
    /// Nothing that can be done: the client stops, for the given reason.
    Terminate(String),
}

/// The mathematical content of a [`Request`].
pub enum RequestView {
    TransmitKernel,
    TransmitFile(Seq<char>),
    Terminate(Seq<char>),
}

impl View for Request {
    type V = RequestView;

    open spec fn view(&self) -> RequestView {
        match self {
            Request::TransmitKernel => RequestView::TransmitKernel,
            Request::TransmitFile(path) => RequestView::TransmitFile(path@),
            Request::Terminate(reason) => RequestView::Terminate(reason@),
        }
    }
}

/// How a client is reached.
#[derive(Debug, PartialEq, Eq)]
pub enum Mode {
    /// Over the serial device with the given path.
    Serial(String),
    /// Over the network, at the given address.
    Ethernet(Address),
}

/// The mathematical content of a [`Mode`].
pub enum ModeView {
    Serial(Seq<char>),
    Ethernet(Address),
}

impl View for Mode {
    type V = ModeView;

    open spec fn view(&self) -> ModeView {
        match self {
            Mode::Serial(path) => ModeView::Serial(path@),
            Mode::Ethernet(address) => ModeView::Ethernet(*address),
        }
    }
}

/// The content of an optional mode.
pub open spec fn mode_view(mode: Option<Mode>) -> Option<ModeView> {
    match mode {
        Some(mode) => Some(mode@),
        None => None,
    }
}

/// What is known of one client.
#[derive(Debug, PartialEq, Eq)]
pub struct Context {
    pub name: String,
    /// The path of the binary, with the suffix of its channel.
    pub binary: Option<String>,
    /// The place of the client in the order of declaration, by which
    /// messages are routed to it.
    pub index: usize,
    /// Whether a transmission is under way, during which no event is passed on.
    pub locked: bool,
}

/// The mathematical content of a [`Context`].
pub struct ContextView {
    pub name: Seq<char>,
    pub binary: Option<Seq<char>>,
    pub index: usize,
    pub locked: bool,
}

impl View for Context {
    type V = ContextView;

    open spec fn view(&self) -> ContextView {
        ContextView {
            name: self.name@,
            binary: optional_text(self.binary),
            index: self.index,
            locked: self.locked,
        }
    }
}

/// A client's context while its configuration is read.
pub struct ContextBuilder {
    pub channel: Channel,
    pub mode: Option<Mode>,
    pub binary: Option<String>,
    pub binary_files: Vec<BinaryFile>,
}

/// The mathematical content of a [`ContextBuilder`].
pub struct ContextBuilderView {
    pub channel: Channel,
    pub mode: Option<ModeView>,
    pub binary: Option<Seq<char>>,
    pub binary_files: Seq<BinaryFileView>,
}

impl View for ContextBuilder {
    type V = ContextBuilderView;

    open spec fn view(&self) -> ContextBuilderView {
        ContextBuilderView {
            channel: self.channel,
            mode: mode_view(self.mode),
            binary: optional_text(self.binary),
            binary_files: binary_views(self.binary_files@),
        }
    }
}

/// The number of the keyword `serial` of a client's configuration.
pub const KEYWORD_SERIAL: usize = 0;

/// The number of the keyword `ethernet`.
pub const KEYWORD_ETHERNET: usize = 1;

/// The number of the keyword `channel`.
pub const KEYWORD_CHANNEL: usize = 2;

/// The number of the keyword `use`.
pub const KEYWORD_USE: usize = 3;

/// The keywords of a client's configuration, in the order of their numbers.
pub open spec fn client_keywords() -> Seq<KeywordView> {
    seq![single("serial"@), single("ethernet"@), single("channel"@), single("use"@)]
}

impl ContextBuilderView {
    /// The builder after the directive that tells how the client is
    /// reached. A client is reached in one way: a second such directive is
    /// rejected.
    pub open spec fn with_mode(self, mode: Step<ModeView>) -> Applied<ContextBuilderView> {
        match mode.result {
            Err(error) => Applied { state: self, stack: mode.stack, result: Err(error) },
            Ok(found) => if self.mode is Some {
                Applied {
                    state: self,
                    stack: mode.stack,
                    result: Err(
                        rejection(ErrorKind::SecondClientMode, mode.stack.line, Seq::empty()),
                    ),
                }
            } else {
                Applied {
                    state: ContextBuilderView { mode: Some(found), ..self },
                    stack: mode.stack,
                    result: Ok(()),
                }
            },
        }
    }

    /// The context that the builder describes and the way the client is
    /// reached. The binary gets the suffix of the channel.
    pub open spec fn finished(self, name: Seq<char>, index: usize, line: nat) -> Result<
        (ContextView, ModeView),
        ErrorView,
    > {
        match self.mode {
            Some(mode) => Ok(
                (
                    ContextView {
                        name,
                        binary: match self.binary {
                            Some(path) => Some(path + self.channel.extension()),
                            None => None,
                        },
                        index,
                        locked: false,
                    },
                    mode,
                ),
            ),
            None => Err(rejection(ErrorKind::NoClientMode, line, Seq::empty())),
        }
    }
}

/// A serial device path that was read, as a way to reach a client.
pub open spec fn serial_mode(path: Step<Seq<char>>) -> Step<ModeView> {
    Step {
        stack: path.stack,
        result: match path.result {
            Ok(path) => Ok(ModeView::Serial(path)),
            Err(error) => Err(error),
        },
    }
}

/// An address that was read, as a way to reach a client.
pub open spec fn ethernet_mode(address: Step<Address>) -> Step<ModeView> {
    Step {
        stack: address.stack,
        result: match address.result {
            Ok(address) => Ok(ModeView::Ethernet(address)),
            Err(error) => Err(error),
        },
    }
}

impl ContextBuilder {
    /// Notes how the client is reached.
    fn reach(&mut self, mode: Mode, stack: &Stack) -> (result: Result<(), Error>)
        ensures
            (Applied { state: final(self)@, stack: stack@, result: outcome(result) }) == old(
                self,
            )@.with_mode(Step { stack: stack@, result: Ok(mode@) }),
    {
        if self.mode.is_some() {
            return Err(stack.panic(ErrorKind::SecondClientMode, String::new()));
        }
        self.mode = Some(mode);
        Ok(())
    }
}

impl Handler for ContextBuilder {
    open spec fn ready(&self) -> bool {
        true
    }

    open spec fn waiting(state: ContextBuilderView) -> bool {
        false
    }

    open spec fn applied(
        state: ContextBuilderView,
        keyword: int,
        prefix: Option<Seq<char>>,
        stack: StackView,
    ) -> Applied<ContextBuilderView> {
        if keyword == KEYWORD_SERIAL {
            state.with_mode(serial_mode(stack.take("no serial source specified"@)))
        } else if keyword == KEYWORD_ETHERNET {
            state.with_mode(ethernet_mode(stack.pop_ip()))
        } else if keyword == KEYWORD_CHANNEL {
            let popped = stack.pop_channel();
            match popped.result {
                Ok(channel) => Applied {
                    state: ContextBuilderView { channel, ..state },
                    stack: popped.stack,
                    result: Ok(()),
                },
                Err(error) => Applied { state, stack: popped.stack, result: Err(error) },
            }
        } else if keyword == KEYWORD_USE {
            let popped = stack.pop_binary(state.binary_files);
            match popped.result {
                Ok(path) => Applied {
                    state: ContextBuilderView { binary: Some(path), ..state },
                    stack: popped.stack,
                    result: Ok(()),
                },
                Err(error) => Applied { state, stack: popped.stack, result: Err(error) },
            }
        } else {
            Applied { state, stack, result: Ok(()) }
        }
    }

    fn is_waiting(&self) -> (waiting: bool) {
        false
    }

    fn call(&mut self, keyword: usize, prefix: Option<&str>, stack: &mut Stack) -> (result: Result<
        (),
        Error,
    >) {
        if keyword == KEYWORD_SERIAL {
            let path = stack.take("no serial source specified")?;
            self.reach(Mode::Serial(path), stack)
        } else if keyword == KEYWORD_ETHERNET {
            let address = stack.pop_ip()?;
            self.reach(Mode::Ethernet(address), stack)
        } else if keyword == KEYWORD_CHANNEL {
            let channel = stack.pop_channel()?;
            self.channel = channel;
            Ok(())
        } else if keyword == KEYWORD_USE {
            let path = stack.pop_binary(&self.binary_files)?;
            self.binary = Some(path);
            Ok(())
        } else {
            Ok(())
        }
    }
}

/// A copy of a table of binaries.
pub fn copy_binaries(table: &Vec<BinaryFile>) -> (copy: Vec<BinaryFile>)
    ensures
        binary_views(copy@) == binary_views(table@),
{
    let mut copy: Vec<BinaryFile> = Vec::new();
    let mut position: usize = 0;
    while position < table.len()
        invariant
            position <= table.len(),
            binary_views(copy@) == binary_views(table@).take(position as int),
        decreases table.len() - position,
    {
        let binary = BinaryFile {
            path: table[position].path.clone(),
            name: match &table[position].name {
                Some(name) => Some(name.clone()),
                None => None,
            },
        };
        proof {
            assert(binary_views(copy@.push(binary)) == binary_views(copy@).push(binary@));
            assert(binary_views(table@).take(position + 1) == binary_views(table@).take(
                position as int,
            ).push(binary@));
        }
        copy.push(binary);
        position += 1;
    }
    proof {
        assert(binary_views(table@).take(position as int) == binary_views(table@));
    }
    copy
}

impl Context {
    /// The context that a client's configuration describes, and the way the
    /// client is reached: the directives of `lines` carried out one after the
    /// other, starting with the stable channel, no binary and no way. It is
    /// rejected with the first directive that is, and where in the end
    /// there is no way to reach the client.
    pub open spec fn configured(
        binary_files: Seq<BinaryFileView>,
        name: Seq<char>,
        lines: Seq<Option<Seq<Seq<char>>>>,
        index: usize,
    ) -> Result<(ContextView, ModeView), ErrorView> {
        let start = ContextBuilderView {
            channel: Channel::Stable,
            mode: None,
            binary: None,
            binary_files,
        };
        let round = ParserView::beginning(lines, client_keywords()).parse::<ContextBuilder>(start);
        match round.result {
            Err(error) => Err(error),
            Ok(_) => round.handler.finished(name, index, round.parser.stack.line),
        }
    }

    /// Configures a client from the lines of its configuration.
    pub fn new(binary_files: &Vec<BinaryFile>, name: String, lines: &Vec<String>, index: usize) -> (client:
        Result<(Context, Mode), Error>)
        ensures
            match client {
                Ok((context, mode)) => Context::configured(
                    binary_views(binary_files@),
                    name@,
                    text_lines(lines@),
                    index,
                ) == Ok::<(ContextView, ModeView), ErrorView>((context@, mode@)),
                Err(error) => Context::configured(
                    binary_views(binary_files@),
                    name@,
                    text_lines(lines@),
                    index,
                ) == Err::<(ContextView, ModeView), ErrorView>(error@),
            },
    {
        let mut parser = Parser::new(lines);
        parser.register("serial", true);
        parser.register("ethernet", true);
        parser.register("channel", true);
        parser.register("use", true);
        let mut builder = ContextBuilder {
            channel: Channel::Stable,
            mode: None,
            binary: None,
            binary_files: copy_binaries(binary_files),
        };
        proof {
            assert(parser@.keywords == client_keywords());
        }
        parser.parse(&mut builder)?;
        let mode = match builder.mode {
            Some(mode) => mode,
            None => {
                return Err(parser.stack().panic(ErrorKind::NoClientMode, String::new()));
            },
        };
        let binary = match builder.binary {
            Some(path) => Some(path.concat(builder.channel.suffix())),
            None => None,
        };
        Ok((Context { name, binary, index, locked: false }, mode))
    }
}

} // verus!
