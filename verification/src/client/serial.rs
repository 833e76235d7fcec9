//! The serial client: the requests of its device, and what is sent to it.

use crate::client::context::{Context, ContextView, Request, RequestView};
use crate::client::Client;
use crate::error::{rejection, Error, ErrorKind, ErrorView};
use vstd::prelude::*;

verus! {

/// The byte that starts a request, and ends the path of a file request.
pub const MARKER: u8 = 0x3f;

/// The byte after the marker that asks for the configured binary.
pub const KERNEL: u8 = 0x6b;

/// The byte after the marker that asks for a file.
pub const FILE: u8 = 0x66;

/// The byte that starts a transmission.
pub const START: u8 = 0x21;

/// The length that the path of a file request must stay below.
pub const PATH_LIMIT: usize = 128;

/// The header of a transmission of `size` bytes: the start byte, then the
/// size, most significant byte first.
pub open spec fn header(size: u32) -> Seq<u8> {
    seq![
        START,
        (size >> 24) as u8,
        (size >> 16 & 0xff) as u8,
        (size >> 8 & 0xff) as u8,
        (size & 0xff) as u8,
    ]
}

/// The size that a header announces.
pub open spec fn header_size(header: Seq<u8>) -> Option<u32> {
    if header.len() == 5 && header[0] == START {
        Some(
            (header[1] as u32) << 24 | (header[2] as u32) << 16 | (header[3] as u32) << 8
                | header[4] as u32,
        )
    } else {
        None
    }
}

/// A header announces the size that it was made for.
pub proof fn lemma_header_round_trip(size: u32)
    ensures
        header_size(header(size)) == Some(size),
{
    let a = (size >> 24) as u8;
    let b = (size >> 16 & 0xff) as u8;
    let c = (size >> 8 & 0xff) as u8;
    let d = (size & 0xff) as u8;
    assert((a as u32) << 24 | (b as u32) << 16 | (c as u32) << 8 | d as u32 == size) by (bit_vector)
        requires
            a == (size >> 24) as u8,
            b == (size >> 16 & 0xff) as u8,
            c == (size >> 8 & 0xff) as u8,
            d == (size & 0xff) as u8,
    ;
}

/// Makes the header of a transmission of `size` bytes.
pub fn transmit_header(size: u32) -> (bytes: [u8; 5])
    ensures
        bytes@ == header(size),
{
    proof {
        assert(size >> 24 <= 0xff) by (bit_vector);
        assert(size >> 16 & 0xff <= 0xff) by (bit_vector);
        assert(size >> 8 & 0xff <= 0xff) by (bit_vector);
        assert(size & 0xff <= 0xff) by (bit_vector);
    }
    let bytes = [
        START,
        (size >> 24) as u8,
        (size >> 16 & 0xff) as u8,
        (size >> 8 & 0xff) as u8,
        (size & 0xff) as u8,
    ];
    proof {
        assert(bytes@ =~= header(size));
    }
    bytes
}

/// Reads the size that a header announces.
pub fn read_header(bytes: &[u8; 5]) -> (size: Option<u32>)
    ensures
        size == header_size(bytes@),
{
    if bytes[0] == START {
        Some(
            (bytes[1] as u32) << 24 | (bytes[2] as u32) << 16 | (bytes[3] as u32) << 8
                | bytes[4] as u32,
        )
    } else {
        None
    }
}

/// The two bytes that carry a key event to a device: the modifiers, then
/// the character.
pub open spec fn payload(data: u16) -> Seq<u8> {
    seq![(data >> 8) as u8, (data & 0xff) as u8]
}

/// Makes the bytes that carry a key event.
pub fn event_bytes(data: u16) -> (bytes: [u8; 2])
    ensures
        bytes@ == payload(data),
{
    proof {
        assert(data >> 8 <= 0xff) by (bit_vector);
        assert(data & 0xff <= 0xff) by (bit_vector);
    }
    let bytes = [(data >> 8) as u8, (data & 0xff) as u8];
    proof {
        assert(bytes@ =~= payload(data));
    }
    bytes
}

/// The characters that stand for a run of bytes, one for one.
pub open spec fn text_of(bytes: Seq<u8>) -> Seq<char> {
    bytes.map_values(|byte: u8| byte as char)
}

/// `String::push` of the standard library: puts one character at the end
/// of a string.
#[verifier::external_body]
fn push_character(text: &mut String, character: char)
    ensures
        final(text)@ == old(text)@.push(character),
{
    text.push(character);
}

/// Makes text of a run of bytes, one character for each byte.
pub fn bytes_to_text(bytes: &Vec<u8>) -> (text: String)
    ensures
        text@ == text_of(bytes@),
{
    let mut text = String::new();
    let mut position: usize = 0;
    while position < bytes.len()
        invariant
            position <= bytes.len(),
            text@ == text_of(bytes@.take(position as int)),
        decreases bytes.len() - position,
    {
        proof {
            assert(bytes@.take(position + 1) == bytes@.take(position as int).push(
                bytes@[position as int],
            ));
            assert(text_of(bytes@.take(position as int).push(bytes@[position as int])) == text_of(
                bytes@.take(position as int),
            ).push(bytes@[position as int] as char));
        }
        push_character(&mut text, bytes[position] as char);
        position += 1;
    }
    proof {
        assert(bytes@.take(position as int) == bytes@);
    }
    text
}

/// Where the reading of a request stands.
#[derive(Clone, Copy, PartialEq, Eq, Debug, Structural)]
pub enum Phase {
    /// No request was started: what comes is passed on to the user.
    Echo,
    /// The marker was read: the next byte tells what is asked for.
    Marker,
    /// A file is asked for: the bytes of its path come, up to the marker.
    Path,
}

/// What reads the requests of a device, byte by byte.
#[derive(Debug, PartialEq, Eq)]
pub struct RequestReader {
    pub phase: Phase,
    pub path: Vec<u8>,
}

/// The mathematical content of a [`RequestReader`].
pub struct RequestReaderView {
    pub phase: Phase,
    pub path: Seq<u8>,
}

impl View for RequestReader {
    type V = RequestReaderView;

    open spec fn view(&self) -> RequestReaderView {
        RequestReaderView { phase: self.phase, path: self.path@ }
    }
}

/// What a byte of the device means for the one who reads.
#[derive(Debug, PartialEq, Eq)]
pub enum Feed {
    /// The byte is to be passed on to the user.
    Echo(u8),
    /// Nothing yet: the request is not complete.
    Wait,
    /// The request is complete.
    Done(Request),
}

/// The mathematical content of a [`Feed`].
pub enum FeedView {
    Echo(u8),
    Wait,
    Done(RequestView),
}

impl View for Feed {
    type V = FeedView;

    open spec fn view(&self) -> FeedView {
        match self {
            Feed::Echo(byte) => FeedView::Echo(*byte),
            Feed::Wait => FeedView::Wait,
            Feed::Done(request) => FeedView::Done(request@),
        }
    }
}

/// The reader before any request.
pub open spec fn idle() -> RequestReaderView {
    RequestReaderView { phase: Phase::Echo, path: Seq::empty() }
}

/// The reason with which a client stops on a byte that asks for nothing known.
pub open spec fn invalid_request(byte: u8) -> Seq<char> {
    "invalid request '"@.push(byte as char) + "'"@
}

/// The reader after a byte, and what the byte means.
pub open spec fn fed(reader: RequestReaderView, byte: u8) -> (RequestReaderView, FeedView) {
    match reader.phase {
        Phase::Echo => if byte == MARKER {
            (RequestReaderView { phase: Phase::Marker, path: Seq::empty() }, FeedView::Wait)
        } else {
            (idle(), FeedView::Echo(byte))
        },
        Phase::Marker => if byte == KERNEL {
            (idle(), FeedView::Done(RequestView::TransmitKernel))
        } else if byte == FILE {
            (RequestReaderView { phase: Phase::Path, path: Seq::empty() }, FeedView::Wait)
        } else {
            (idle(), FeedView::Done(RequestView::Terminate(invalid_request(byte))))
        },
        Phase::Path => if byte == MARKER {
            (idle(), FeedView::Done(RequestView::TransmitFile(text_of(reader.path))))
        } else if reader.path.len() + 1 >= PATH_LIMIT {
            (idle(), FeedView::Done(RequestView::Terminate("exceeded path length"@)))
        } else {
            (RequestReaderView { phase: Phase::Path, path: reader.path.push(byte) }, FeedView::Wait)
        },
    }
}

/// What a stream of bytes gives: what is passed on to the user, the first
/// request, if one is complete, and the number of bytes up to its end.
pub struct Reading {
    pub echoed: Seq<u8>,
    pub request: Option<RequestView>,
    pub consumed: nat,
}

/// What a reader makes of a stream of bytes, up to the end of the first request.
pub open spec fn read(reader: RequestReaderView, stream: Seq<u8>) -> Reading
    decreases stream.len(),
{
    if stream.len() == 0 {
        Reading { echoed: Seq::empty(), request: None, consumed: 0 }
    } else {
        let (next, feed) = fed(reader, stream[0]);
        match feed {
            FeedView::Done(request) => Reading {
                echoed: Seq::empty(),
                request: Some(request),
                consumed: 1,
            },
            FeedView::Echo(byte) => {
                let rest = read(next, stream.drop_first());
                Reading {
                    echoed: seq![byte] + rest.echoed,
                    request: rest.request,
                    consumed: rest.consumed + 1,
                }
            },
            FeedView::Wait => {
                let rest = read(next, stream.drop_first());
                Reading { consumed: rest.consumed + 1, ..rest }
            },
        }
    }
}

impl RequestReader {
    /// A reader before any request.
    pub fn new() -> (reader: RequestReader)
        ensures
            reader@ == idle(),
    {
        RequestReader { phase: Phase::Echo, path: Vec::new() }
    }

    /// Takes the next byte of the device, and tells what it means.
    pub fn feed(&mut self, byte: u8) -> (feed: Feed)
        ensures
            (final(self)@, feed@) == fed(old(self)@, byte),
    {
        match self.phase {
            Phase::Echo => {
                self.path.clear();
                if byte == MARKER {
                    self.phase = Phase::Marker;
                    Feed::Wait
                } else {
                    Feed::Echo(byte)
                }
            },
            Phase::Marker => {
                self.path.clear();
                if byte == KERNEL {
                    self.phase = Phase::Echo;
                    Feed::Done(Request::TransmitKernel)
                } else if byte == FILE {
                    self.phase = Phase::Path;
                    Feed::Wait
                } else {
                    self.phase = Phase::Echo;
                    let mut reason = "invalid request '".to_owned();
                    push_character(&mut reason, byte as char);
                    reason.append("'");
                    Feed::Done(Request::Terminate(reason))
                }
            },
            Phase::Path => {
                if byte == MARKER {
                    let path = bytes_to_text(&self.path);
                    self.phase = Phase::Echo;
                    self.path.clear();
                    Feed::Done(Request::TransmitFile(path))
                } else if self.path.len() >= PATH_LIMIT - 1 {
                    self.phase = Phase::Echo;
                    self.path.clear();
                    Feed::Done(Request::Terminate("exceeded path length".to_owned()))
                } else {
                    self.path.push(byte);
                    Feed::Wait
                }
            },
        }
    }
}

/// What a stream of bytes gives, up to the end of the first request.
#[derive(Debug, PartialEq, Eq)]
pub struct Received {
    /// What is passed on to the user.
    pub echoed: Vec<u8>,
    /// The request, if one is complete.
    pub request: Option<Request>,
    /// The number of bytes up to the end of the request.
    pub consumed: usize,
}

impl View for Received {
    type V = Reading;

    open spec fn view(&self) -> Reading {
        Reading {
            echoed: self.echoed@,
            request: match self.request {
                Some(request) => Some(request@),
                None => None,
            },
            consumed: self.consumed as nat,
        }
    }
}

/// Reads a stream of bytes of a device up to the end of its first request.
pub fn read_request(stream: &Vec<u8>) -> (received: Received)
    ensures
        received@ == read(idle(), stream@),
{
    let mut reader = RequestReader::new();
    let mut echoed: Vec<u8> = Vec::new();
    let mut position: usize = 0;
    proof {
        assert(stream@.skip(0) == stream@);
    }
    while position < stream.len()
        invariant
            position <= stream.len(),
            ({
                let rest = read(reader@, stream@.skip(position as int));
                read(idle(), stream@) == (Reading {
                    echoed: echoed@ + rest.echoed,
                    request: rest.request,
                    consumed: (position + rest.consumed) as nat,
                })
            }),
        decreases stream.len() - position,
    {
        let ghost before = reader@;
        let ghost left = stream@.skip(position as int);
        let ghost rest = read(before, left);
        proof {
            assert(left.drop_first() == stream@.skip(position + 1));
            assert(left[0] == stream@[position as int]);
        }
        match reader.feed(stream[position]) {
            Feed::Done(request) => {
                proof {
                    assert(echoed@ + rest.echoed == echoed@);
                }
                return Received { echoed, request: Some(request), consumed: position + 1 };
            },
            Feed::Echo(byte) => {
                proof {
                    let after = read(reader@, stream@.skip(position + 1));
                    assert(echoed@.push(byte) + after.echoed == echoed@ + (seq![byte]
                        + after.echoed));
                }
                echoed.push(byte);
            },
            Feed::Wait => {},
        }
        position += 1;
    }
    proof {
        assert(stream@.skip(position as int) == Seq::<u8>::empty());
        assert(echoed@ + Seq::<u8>::empty() == echoed@);
    }
    Received { echoed, request: None, consumed: position }
}

/// What the thread that serves a serial device works with.
#[derive(Debug, PartialEq, Eq)]
pub struct Session {
    pub name: String,
    pub source_path: String,
    pub kernel_path: String,
    /// Whether a transmission is under way, or the session has stopped.
    pub locked: bool,
}

/// The mathematical content of a [`Session`].
pub struct SessionView {
    pub name: Seq<char>,
    pub source_path: Seq<char>,
    pub kernel_path: Seq<char>,
    pub locked: bool,
}

impl View for Session {
    type V = SessionView;

    open spec fn view(&self) -> SessionView {
        SessionView {
            name: self.name@,
            source_path: self.source_path@,
            kernel_path: self.kernel_path@,
            locked: self.locked,
        }
    }
}

/// What a session does on a request.
#[derive(Debug, PartialEq, Eq)]
pub enum Order {
    /// It sends the file with the given path.
    Transmit(String),
    /// It stops, for the given reason.
    Stop(String),
}

/// The mathematical content of an [`Order`].
pub enum OrderView {
    Transmit(Seq<char>),
    Stop(Seq<char>),
}

impl View for Order {
    type V = OrderView;

    open spec fn view(&self) -> OrderView {
        match self {
            Order::Transmit(path) => OrderView::Transmit(path@),
            Order::Stop(reason) => OrderView::Stop(reason@),
        }
    }
}

impl Session {
    /// Takes up a request. The session is locked from then on: until the
    /// transmission is complete, or for good where it stops.
    pub fn accept(&mut self, request: Request) -> (order: Order)
        ensures
            final(self)@ == (SessionView { locked: true, ..old(self)@ }),
            order@ == match request@ {
                RequestView::TransmitKernel => OrderView::Transmit(old(self)@.kernel_path),
                RequestView::TransmitFile(path) => OrderView::Transmit(path),
                RequestView::Terminate(reason) => OrderView::Stop(reason),
            },
    {
        self.locked = true;
        match request {
            Request::TransmitKernel => Order::Transmit(self.kernel_path.clone()),
            Request::TransmitFile(path) => Order::Transmit(path),
            Request::Terminate(reason) => Order::Stop(reason),
        }
    }

    /// Notes that the transmission is complete: the session is open again.
    pub fn complete(&mut self)
        ensures
            final(self)@ == (SessionView { locked: false, ..old(self)@ }),
    {
        self.locked = false;
    }
}

/// A client that is reached over a serial device.
#[derive(Debug, PartialEq, Eq)]
pub struct SerialClient {
    pub context: Context,
    pub source_path: String,
}

/// The mathematical content of a [`SerialClient`].
pub struct SerialClientView {
    pub context: ContextView,
    pub source_path: Seq<char>,
}

impl View for SerialClient {
    type V = SerialClientView;

    open spec fn view(&self) -> SerialClientView {
        SerialClientView { context: self.context@, source_path: self.source_path@ }
    }
}

impl SerialClientView {
    /// The session with which the client starts. A serial client needs a binary.
    pub open spec fn session(self) -> Result<SessionView, ErrorView> {
        match self.context.binary {
            Some(binary) => Ok(
                SessionView {
                    name: self.context.name,
                    source_path: self.source_path,
                    kernel_path: binary,
                    locked: self.context.locked,
                },
            ),
            None => Err(rejection(ErrorKind::NoBinary, 0, self.context.name)),
        }
    }
}

impl SerialClient {
    /// A serial client for the device with the given path.
    pub fn new(context: Context, source_path: String) -> (client: SerialClient)
        ensures
            client@ == (SerialClientView { context: context@, source_path: source_path@ }),
    {
        SerialClient { context, source_path }
    }

    /// Gives the session with which the thread of the client starts.
    pub fn start(&self) -> (session: Result<Session, Error>)
        ensures
            match session {
                Ok(session) => self@.session() == Ok::<SessionView, ErrorView>(session@),
                Err(error) => self@.session() == Err::<SessionView, ErrorView>(error@),
            },
    {
        match &self.context.binary {
            Some(binary) => Ok(
                Session {
                    name: self.context.name.clone(),
                    source_path: self.source_path.clone(),
                    kernel_path: binary.clone(),
                    locked: self.context.locked,
                },
            ),
            None => Err(Error::new(ErrorKind::NoBinary, 0, self.context.name.clone())),
        }
    }
}

impl Client for SerialClient {
    open spec fn place(&self) -> usize {
        self.context.index
    }

    /// While no transmission is under way, an event is passed on as two bytes.
    open spec fn passed(&self, data: u16) -> Option<Seq<u8>> {
        if self.context.locked {
            None
        } else {
            Some(payload(data))
        }
    }

    fn event(&self, data: u16) -> (bytes: Option<[u8; 2]>) {
        if self.context.locked {
            None
        } else {
            Some(event_bytes(data))
        }
    }

    fn index(&self) -> (index: usize) {
        self.context.index
    }
}

} // verus!
