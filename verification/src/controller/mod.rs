//! The controller: input reports in, routed key events out.

pub mod event;

use crate::controller::event::{
    no_rules, translatable, translated, Event, EventView, Rules, RulesView,
};
use crate::error::{rejection, Error, ErrorKind, ErrorView};
use crate::parser::line::{copy_words, word_views};
use crate::parser::stack::{outcome, text_lines, StackView};
use crate::parser::{
    item, sequence_fits, sequence_in_bounds, sequence_value, single, unwrap_sequence, Applied,
    Handler, KeywordView, Parser, ParserView, Stack,
};
use crate::search::{lemma_first_index, lemma_no_index, lemma_push_contains};
use vstd::prelude::*;

verus! {

/// What a controller needs to turn reports into key events.
#[derive(Debug, PartialEq, Eq)]
pub struct Context {
    pub events: Vec<Event>,
    pub bytes_event: Vec<usize>,
    pub source: String,
    pub width: usize,
    pub verbose: bool,
}

/// The mathematical content of a [`Context`].
pub struct ContextView {
    pub events: Seq<EventView>,
    pub bytes_event: Seq<usize>,
    pub source: Seq<char>,
    pub width: usize,
    pub verbose: bool,
}

/// The contents of a list of events, in order.
pub open spec fn event_views(events: Seq<Event>) -> Seq<EventView> {
    events.map_values(|event: Event| event@)
}

/// The identifiers of a list of events, in order.
pub open spec fn identifiers(events: Seq<EventView>) -> Seq<u64> {
    events.map_values(|event: EventView| event.identifier)
}

/// Whether no two of the events have one identifier, and each says where
/// its slot number stands.
pub open spec fn events_valid(events: Seq<EventView>) -> bool {
    &&& identifiers(events).no_duplicates()
    &&& forall|index: int|
        0 <= index < events.len() ==> (#[trigger] events[index]).rules.bytes_id is Some
}

impl View for Context {
    type V = ContextView;

    open spec fn view(&self) -> ContextView {
        ContextView {
            events: event_views(self.events@),
            bytes_event: self.bytes_event@,
            source: self.source@,
            width: self.width,
            verbose: self.verbose,
        }
    }
}

/// The configuration of an event that a controller's configuration asks for.
#[derive(Debug, PartialEq, Eq)]
pub struct EventRequest {
    /// The name under which the configuration is kept.
    pub name: String,
    /// The identifier of the event.
    pub identifier: u64,
}

/// The mathematical content of an [`EventRequest`].
pub struct EventRequestView {
    pub name: Seq<char>,
    pub identifier: u64,
}

impl View for EventRequest {
    type V = EventRequestView;

    open spec fn view(&self) -> EventRequestView {
        EventRequestView { name: self.name@, identifier: self.identifier }
    }
}

/// The content of an optional request.
pub open spec fn request_view(request: Option<EventRequest>) -> Option<EventRequestView> {
    match request {
        Some(request) => Some(request@),
        None => None,
    }
}

/// A controller's context while its configuration is read.
pub struct ContextBuilder {
    pub rules: Rules,
    pub events: Vec<Event>,
    pub bytes_event: Vec<usize>,
    pub source: Option<String>,
    pub width: Option<usize>,
    pub verbose: bool,
    pub target: u8,
    pub client_names: Vec<String>,
    pub request: Option<EventRequest>,
}

/// The mathematical content of a [`ContextBuilder`].
pub struct ContextBuilderView {
    pub rules: RulesView,
    pub events: Seq<EventView>,
    pub bytes_event: Seq<usize>,
    pub source: Option<Seq<char>>,
    pub width: Option<usize>,
    pub verbose: bool,
    pub target: u8,
    pub client_names: Seq<Seq<char>>,
    pub request: Option<EventRequestView>,
}

impl View for ContextBuilder {
    type V = ContextBuilderView;

    open spec fn view(&self) -> ContextBuilderView {
        ContextBuilderView {
            rules: self.rules@,
            events: event_views(self.events@),
            bytes_event: self.bytes_event@,
            source: crate::parser::optional_text(self.source),
            width: self.width,
            verbose: self.verbose,
            target: self.target,
            client_names: word_views(self.client_names@),
            request: request_view(self.request),
        }
    }
}

/// The number of the keyword `source` of a controller's configuration.
pub const KEYWORD_SOURCE: usize = 0;

/// The number of the keyword `verbose`.
pub const KEYWORD_VERBOSE: usize = 1;

/// The number of the keyword `target`.
pub const KEYWORD_TARGET: usize = 2;

/// The number of the keyword `width`.
pub const KEYWORD_WIDTH: usize = 3;

/// The number of the keyword `event`.
pub const KEYWORD_EVENT: usize = 4;

/// The number of the keyword `byte`.
pub const KEYWORD_BYTE: usize = 5;

/// The number of the keyword `value`.
pub const KEYWORD_VALUE: usize = 6;

/// The keywords of a controller's configuration, in the order of their numbers.
pub open spec fn controller_keywords() -> Seq<KeywordView> {
    seq![
        single("source"@),
        single("verbose"@),
        single("target"@),
        single("width"@),
        item("event"@),
        item("byte"@),
        item("value"@),
    ]
}

impl ContextBuilderView {
    /// The builder after an event directive: the name of the event's
    /// configuration, after the prefix, and the identifier, which no event
    /// has yet. The builder then waits for that configuration.
    pub open spec fn with_event(self, prefix: Option<Seq<char>>, stack: StackView) -> Applied<
        ContextBuilderView,
    > {
        let taken = stack.take("no event name specified"@);
        match taken.result {
            Err(error) => Applied { state: self, stack: taken.stack, result: Err(error) },
            Ok(name) => {
                let popped = taken.stack.pop_u64();
                match popped.result {
                    Err(error) => Applied { state: self, stack: popped.stack, result: Err(error) },
                    Ok(identifier) => if identifiers(self.events).contains(identifier) {
                        Applied {
                            state: self,
                            stack: popped.stack,
                            result: Err(
                                rejection(ErrorKind::DuplicateEvent, popped.stack.line, name),
                            ),
                        }
                    } else {
                        Applied {
                            state: ContextBuilderView {
                                request: Some(
                                    EventRequestView {
                                        name: match prefix {
                                            Some(prefix) => prefix + name,
                                            None => name,
                                        },
                                        identifier,
                                    },
                                ),
                                ..self
                            },
                            stack: popped.stack,
                            result: Ok(()),
                        }
                    },
                }
            },
        }
    }

    /// The builder after a byte rule: `event` is followed by the sequence
    /// that tells where the identifier of the event stands; the others
    /// change the rules that later events start from.
    pub open spec fn with_bytes(self, stack: StackView) -> Applied<ContextBuilderView> {
        let taken = stack.take("no byte rule specified"@);
        match taken.result {
            Err(error) => Applied { state: self, stack: taken.stack, result: Err(error) },
            Ok(rule) => if rule == "event"@ {
                let popped = taken.stack.pop_sequence();
                match popped.result {
                    Ok(sequence) => Applied {
                        state: ContextBuilderView { bytes_event: sequence, ..self },
                        stack: popped.stack,
                        result: Ok(()),
                    },
                    Err(error) => Applied { state: self, stack: popped.stack, result: Err(error) },
                }
            } else {
                let rules = self.rules.with_bytes(rule, taken.stack);
                Applied {
                    state: ContextBuilderView { rules: rules.state, ..self },
                    stack: rules.stack,
                    result: rules.result,
                }
            },
        }
    }
}

impl ContextBuilder {
    /// A builder with nothing configured.
    pub fn new(client_names: &Vec<String>) -> (builder: ContextBuilder)
        ensures
            builder.ready(),
            builder@ == (ContextBuilderView {
                rules: no_rules(),
                events: Seq::empty(),
                bytes_event: Seq::empty(),
                source: None,
                width: None,
                verbose: false,
                target: 0,
                client_names: word_views(client_names@),
                request: None,
            }),
    {
        let builder = ContextBuilder {
            rules: Rules::new(),
            events: Vec::new(),
            bytes_event: Vec::new(),
            source: None,
            width: None,
            verbose: false,
            target: 0,
            client_names: copy_words(client_names),
            request: None,
        };
        proof {
            assert(event_views(builder.events@) == Seq::<EventView>::empty());
        }
        builder
    }

    /// Tells whether an event has the identifier.
    pub fn has_event(&self, identifier: u64) -> (found: bool)
        ensures
            found == identifiers(self@.events).contains(identifier),
    {
        let ghost all = identifiers(self@.events);
        let mut position: usize = 0;
        while position < self.events.len()
            invariant
                position <= self.events@.len(),
                all == identifiers(self@.events),
                forall|earlier: int| 0 <= earlier < position ==> all[earlier] != identifier,
            decreases self.events@.len() - position,
        {
            if self.events[position].identifier == identifier {
                proof {
                    assert(all[position as int] == identifier);
                }
                return true;
            }
            position += 1;
        }
        false
    }

    /// Carries out an event directive.
    pub fn request_event(&mut self, prefix: Option<&str>, stack: &mut Stack) -> (result: Result<
        (),
        Error,
    >)
        requires
            old(self).ready(),
            old(stack).wf(),
        ensures
            final(self).ready(),
            final(stack).wf(),
            (Applied { state: final(self)@, stack: final(stack)@, result: outcome(result) })
                == old(self)@.with_event(crate::parser::optional_slice(prefix), old(stack)@),
    {
        let name = stack.take("no event name specified")?;
        let identifier = stack.pop_u64()?;
        if self.has_event(identifier) {
            return Err(stack.panic(ErrorKind::DuplicateEvent, name));
        }
        let qualified = match prefix {
            Some(prefix) => prefix.to_owned().concat(name.as_str()),
            None => name,
        };
        self.request = Some(EventRequest { name: qualified, identifier });
        Ok(())
    }

    /// Carries out a byte rule.
    pub fn byte_rule(&mut self, stack: &mut Stack) -> (result: Result<(), Error>)
        requires
            old(self).ready(),
            old(stack).wf(),
        ensures
            final(self).ready(),
            final(stack).wf(),
            (Applied { state: final(self)@, stack: final(stack)@, result: outcome(result) })
                == old(self)@.with_bytes(old(stack)@),
    {
        let rule = stack.take("no byte rule specified")?;
        if rule.as_str().eq("event") {
            let sequence = stack.pop_sequence()?;
            self.bytes_event = sequence;
            Ok(())
        } else {
            self.rules.byte_rule(rule, stack)
        }
    }

    /// Adds the event that was asked for, from the lines of its configuration.
    pub fn supply(&mut self, lines: &Vec<String>) -> (result: Result<(), Error>)
        requires
            old(self).ready(),
            old(self).request is Some,
        ensures
            final(self).ready(),
            match result {
                Ok(_) => {
                    &&& Event::configured(
                        old(self)@.rules,
                        text_lines(lines@),
                        old(self)@.request.unwrap().identifier,
                        old(self)@.client_names,
                    ) matches Ok(event)
                    &&& final(self)@ == (ContextBuilderView {
                        events: old(self)@.events.push(event),
                        request: None,
                        ..old(self)@
                    })
                },
                Err(error) => {
                    &&& Event::configured(
                        old(self)@.rules,
                        text_lines(lines@),
                        old(self)@.request.unwrap().identifier,
                        old(self)@.client_names,
                    ) == Err::<EventView, ErrorView>(error@)
                    &&& final(self)@ == old(self)@
                },
            },
    {
        let identifier = match &self.request {
            Some(request) => request.identifier,
            None => 0,
        };
        let event = Event::new(self.rules.snapshot(), lines, identifier, &self.client_names)?;
        proof {
            let before = identifiers(event_views(self.events@));
            let after = identifiers(event_views(self.events@.push(event)));
            assert(event_views(self.events@.push(event)) == event_views(self.events@).push(event@));
            assert(after == before.push(identifier));
            assert(!before.contains(identifier));
            assert forall|first: int, second: int|
                0 <= first < after.len() && 0 <= second < after.len() && first
                    != second implies after[first] != after[second] by {
                if first < before.len() && second < before.len() {
                    assert(before[first] != before[second]);
                } else if first < before.len() {
                    assert(before.contains(before[first]));
                } else {
                    assert(before.contains(before[second]));
                }
            }
        }
        self.events.push(event);
        self.request = None;
        Ok(())
    }
}

impl Handler for ContextBuilder {
    /// No two events have one identifier, each says where its slot number
    /// stands, and an event that is asked for has an identifier of its own.
    open spec fn ready(&self) -> bool {
        &&& events_valid(self@.events)
        &&& self.request matches Some(request) ==> !identifiers(self@.events).contains(
            request.identifier,
        )
    }

    open spec fn waiting(state: ContextBuilderView) -> bool {
        state.request is Some
    }

    open spec fn applied(
        state: ContextBuilderView,
        keyword: int,
        prefix: Option<Seq<char>>,
        stack: StackView,
    ) -> Applied<ContextBuilderView> {
        if keyword == KEYWORD_SOURCE {
            let taken = stack.take("no source name specified"@);
            match taken.result {
                Ok(source) => Applied {
                    state: ContextBuilderView { source: Some(source), ..state },
                    stack: taken.stack,
                    result: Ok(()),
                },
                Err(error) => Applied { state, stack: taken.stack, result: Err(error) },
            }
        } else if keyword == KEYWORD_VERBOSE {
            let popped = stack.pop_state();
            match popped.result {
                Ok(verbose) => Applied {
                    state: ContextBuilderView { verbose, ..state },
                    stack: popped.stack,
                    result: Ok(()),
                },
                Err(error) => Applied { state, stack: popped.stack, result: Err(error) },
            }
        } else if keyword == KEYWORD_TARGET {
            let popped = stack.pop_client(state.client_names);
            match popped.result {
                Ok(target) => Applied {
                    state: ContextBuilderView { target, ..state },
                    stack: popped.stack,
                    result: Ok(()),
                },
                Err(error) => Applied { state, stack: popped.stack, result: Err(error) },
            }
        } else if keyword == KEYWORD_WIDTH {
            let popped = stack.pop_usize();
            match popped.result {
                Ok(width) => Applied {
                    state: ContextBuilderView { width: Some(width), ..state },
                    stack: popped.stack,
                    result: Ok(()),
                },
                Err(error) => Applied { state, stack: popped.stack, result: Err(error) },
            }
        } else if keyword == KEYWORD_EVENT {
            state.with_event(prefix, stack)
        } else if keyword == KEYWORD_BYTE {
            state.with_bytes(stack)
        } else if keyword == KEYWORD_VALUE {
            let rules = state.rules.with_value(stack);
            Applied {
                state: ContextBuilderView { rules: rules.state, ..state },
                stack: rules.stack,
                result: rules.result,
            }
        } else {
            Applied { state, stack, result: Ok(()) }
        }
    }

    fn is_waiting(&self) -> (waiting: bool) {
        self.request.is_some()
    }

    fn call(&mut self, keyword: usize, prefix: Option<&str>, stack: &mut Stack) -> (result: Result<
        (),
        Error,
    >) {
        if keyword == KEYWORD_SOURCE {
            let source = stack.take("no source name specified")?;
            self.source = Some(source);
            Ok(())
        } else if keyword == KEYWORD_VERBOSE {
            let verbose = stack.pop_state()?;
            self.verbose = verbose;
            Ok(())
        } else if keyword == KEYWORD_TARGET {
            let target = stack.pop_client(&self.client_names)?;
            self.target = target;
            Ok(())
        } else if keyword == KEYWORD_WIDTH {
            let width = stack.pop_usize()?;
            self.width = Some(width);
            Ok(())
        } else if keyword == KEYWORD_EVENT {
            self.request_event(prefix, stack)
        } else if keyword == KEYWORD_BYTE {
            self.byte_rule(stack)
        } else if keyword == KEYWORD_VALUE {
            self.rules.value_rule(stack)
        } else {
            Ok(())
        }
    }
}

/// A controller's configuration while it is read: the parser over its
/// lines, and what the directives have built so far.
pub struct Setup {
    pub parser: Parser,
    pub builder: ContextBuilder,
}

impl ContextBuilderView {
    /// The context that the builder describes, and the client that is the
    /// target at first. A context needs a source and a report width.
    pub open spec fn finished(self, line: nat) -> Result<(ContextView, u8), ErrorView> {
        match (self.source, self.width) {
            (Some(source), Some(width)) => Ok(
                (
                    ContextView {
                        events: self.events,
                        bytes_event: self.bytes_event,
                        source,
                        width,
                        verbose: self.verbose,
                    },
                    self.target,
                ),
            ),
            (None, _) => Err(rejection(ErrorKind::NoSource, line, Seq::empty())),
            (_, None) => Err(rejection(ErrorKind::NoWidth, line, Seq::empty())),
        }
    }
}

impl Setup {
    /// Whether reading can go on.
    pub open spec fn wf(&self) -> bool {
        self.parser.wf() && self.builder.ready()
    }

    /// Starts to read a controller's configuration.
    pub fn new(lines: &Vec<String>, client_names: &Vec<String>) -> (setup: Setup)
        ensures
            setup.wf(),
            setup.parser@ == ParserView::beginning(text_lines(lines@), controller_keywords()),
            setup.builder@ == (ContextBuilderView {
                rules: no_rules(),
                events: Seq::empty(),
                bytes_event: Seq::empty(),
                source: None,
                width: None,
                verbose: false,
                target: 0,
                client_names: word_views(client_names@),
                request: None,
            }),
    {
        let mut parser = Parser::new(lines);
        parser.register("source", true);
        parser.register("verbose", true);
        parser.register("target", true);
        parser.register("width", true);
        parser.register("event", false);
        parser.register("byte", false);
        parser.register("value", false);
        proof {
            assert(parser@.keywords == controller_keywords());
        }
        Setup { parser, builder: ContextBuilder::new(client_names) }
    }

    /// Reads on until the configuration of an event is needed, and tells
    /// under which name it is kept; past the last directive it tells nothing.
    /// While an event is waited for, nothing is read.
    pub fn next(&mut self) -> (request: Result<Option<String>, Error>)
        requires
            old(self).wf(),
        ensures
            final(self).wf(),
            old(self).builder.request is Some ==> {
                &&& final(self).parser@ == old(self).parser@
                &&& final(self).builder@ == old(self).builder@
                &&& request matches Ok(Some(name))
                &&& name@ == old(self).builder.request.unwrap().name@
            },
            old(self).builder.request is None ==> {
                let round = old(self).parser@.parse::<ContextBuilder>(old(self).builder@);
                &&& final(self).parser@ == round.parser
                &&& final(self).builder@ == round.handler
                &&& match request {
                    Ok(Some(name)) => {
                        &&& round.result == Ok::<bool, ErrorView>(true)
                        &&& round.handler.request matches Some(asked)
                        &&& asked.name == name@
                    },
                    Ok(None) => round.result == Ok::<bool, ErrorView>(false),
                    Err(error) => round.result == Err::<bool, ErrorView>(error@),
                }
            },
    {
        if self.builder.request.is_none() {
            let more = self.parser.parse(&mut self.builder)?;
            if !more {
                return Ok(None);
            }
        }
        match &self.builder.request {
            Some(request) => Ok(Some(request.name.clone())),
            None => Ok(None),
        }
    }

    /// Adds the event that is waited for, from the lines of its configuration.
    pub fn supply(&mut self, lines: &Vec<String>) -> (result: Result<(), Error>)
        requires
            old(self).wf(),
            old(self).builder.request is Some,
        ensures
            final(self).wf(),
            final(self).parser@ == old(self).parser@,
            match result {
                Ok(_) => {
                    &&& Event::configured(
                        old(self).builder@.rules,
                        text_lines(lines@),
                        old(self).builder@.request.unwrap().identifier,
                        old(self).builder@.client_names,
                    ) matches Ok(event)
                    &&& final(self).builder@ == (ContextBuilderView {
                        events: old(self).builder@.events.push(event),
                        request: None,
                        ..old(self).builder@
                    })
                },
                Err(error) => {
                    &&& Event::configured(
                        old(self).builder@.rules,
                        text_lines(lines@),
                        old(self).builder@.request.unwrap().identifier,
                        old(self).builder@.client_names,
                    ) == Err::<EventView, ErrorView>(error@)
                    &&& final(self).builder@ == old(self).builder@
                },
            },
    {
        self.builder.supply(lines)
    }

    /// Ends the reading: gives the context, and the client that is the target at first.
    pub fn finish(self) -> (result: Result<(Context, u8), Error>)
        requires
            self.wf(),
        ensures
            match result {
                Ok((context, target)) => context.wf() && self.builder@.finished(
                    self.parser@.stack.line,
                ) == Ok::<(ContextView, u8), ErrorView>((context@, target)),
                Err(error) => self.builder@.finished(self.parser@.stack.line) == Err::<
                    (ContextView, u8),
                    ErrorView,
                >(error@),
            },
    {
        let Setup { parser, builder } = self;
        let source = match builder.source {
            Some(source) => source,
            None => {
                return Err(parser.stack().panic(ErrorKind::NoSource, String::new()));
            },
        };
        let width = match builder.width {
            Some(width) => width,
            None => {
                return Err(parser.stack().panic(ErrorKind::NoWidth, String::new()));
            },
        };
        Ok(
            (
                Context {
                    events: builder.events,
                    bytes_event: builder.bytes_event,
                    source,
                    width,
                    verbose: builder.verbose,
                },
                builder.target,
            ),
        )
    }
}

/// What a report gives: the message for the router, if a character is to be
/// sent, and the target and modifiers afterwards.
#[derive(Clone, Copy, Debug, PartialEq, Eq)]
pub struct Dispatch {
    pub message: Option<u32>,
    pub target: u8,
    pub modifiers: u8,
}

/// The message that carries a character: the target in the highest byte,
/// the modifiers in the second lowest, the character in the lowest.
pub open spec fn combined(target: u8, modifiers: u8, character: u8) -> u32 {
    (target as u32) << 24 | (modifiers as u32) << 8 | (character as u32)
}

impl ContextView {
    /// The identifier that a report carries.
    pub open spec fn identifier(self, buffer: Seq<u8>) -> u64 {
        sequence_value(buffer, self.bytes_event) as u64
    }

    /// The event that a report belongs to: the one that has its identifier.
    pub open spec fn event_for(self, buffer: Seq<u8>) -> Option<EventView> {
        match identifiers(self.events).index_of_first(self.identifier(buffer)) {
            Some(index) => Some(self.events[index]),
            None => None,
        }
    }

    /// Whether the context can make something of a report: the identifier
    /// stands inside it, and the event it belongs to can translate it.
    pub open spec fn accepts(self, buffer: Seq<u8>, modifiers: u8) -> bool {
        &&& sequence_fits(self.bytes_event, buffer.len())
        &&& self.event_for(buffer) matches Some(event) ==> translatable(event, buffer, modifiers)
    }

    /// What the context makes of a report: nothing where no event has its
    /// identifier; else the translation, and a message where that gives a
    /// character, with the target and modifiers that the translation leaves.
    pub open spec fn dispatched(self, buffer: Seq<u8>, target: u8, modifiers: u8) -> Dispatch {
        match self.event_for(buffer) {
            None => Dispatch { message: None, target, modifiers },
            Some(event) => {
                let outcome = translated(event, buffer, target, modifiers);
                Dispatch {
                    message: match outcome.character {
                        Some(character) => Some(
                            combined(outcome.target, outcome.modifiers, character),
                        ),
                        None => None,
                    },
                    target: outcome.target,
                    modifiers: outcome.modifiers,
                }
            },
        }
    }
}

impl Context {
    /// Whether no two events have one identifier, and each says where its
    /// slot number stands.
    pub open spec fn wf(&self) -> bool {
        events_valid(self@.events)
    }

    /// The event that has the identifier.
    pub fn find(&self, identifier: u64) -> (event: Option<&Event>)
        ensures
            match event {
                Some(event) => {
                    &&& identifiers(self@.events).index_of_first(identifier) matches Some(index)
                    &&& self@.events[index] == event@
                },
                None => identifiers(self@.events).index_of_first(identifier) is None,
            },
    {
        let ghost all = identifiers(self@.events);
        let mut position: usize = 0;
        while position < self.events.len()
            invariant
                position <= self.events@.len(),
                all == identifiers(self@.events),
                forall|earlier: int| 0 <= earlier < position ==> all[earlier] != identifier,
            decreases self.events@.len() - position,
        {
            if self.events[position].identifier == identifier {
                proof {
                    lemma_first_index(all, identifier, position as int);
                }
                return Some(&self.events[position]);
            }
            position += 1;
        }
        proof {
            lemma_no_index(all, identifier);
        }
        None
    }

    /// Makes of a report what can be made of it, or tells that the context
    /// does not accept it.
    pub fn try_dispatch(&self, buffer: &Vec<u8>, target: u8, modifiers: u8) -> (dispatch: Option<
        Dispatch,
    >)
        ensures
            self@.accepts(buffer@, modifiers) ==> dispatch == Some(
                self@.dispatched(buffer@, target, modifiers),
            ),
            !self@.accepts(buffer@, modifiers) ==> dispatch is None,
    {
        if !sequence_in_bounds(&self.bytes_event, buffer.len()) {
            return None;
        }
        let identifier = unwrap_sequence(buffer, &self.bytes_event);
        match self.find(identifier) {
            None => Some(Dispatch { message: None, target, modifiers }),
            Some(event) => match event.try_translate(buffer, target, modifiers) {
                None => None,
                Some(outcome) => Some(
                    Dispatch {
                        message: match outcome.character {
                            Some(character) => Some(
                                combine(outcome.target, outcome.modifiers, character),
                            ),
                            None => None,
                        },
                        target: outcome.target,
                        modifiers: outcome.modifiers,
                    },
                ),
            },
        }
    }

    /// Makes of a report what the event it belongs to makes of it, and gives
    /// the message for the router where a character is to be sent.
    pub fn dispatch(&self, buffer: &Vec<u8>, target: &mut u8, modifiers: &mut u8) -> (message:
        Option<u32>)
        requires
            self@.accepts(buffer@, *old(modifiers)),
        ensures
            (Dispatch { message, target: *final(target), modifiers: *final(modifiers) })
                == self@.dispatched(buffer@, *old(target), *old(modifiers)),
    {
        match self.try_dispatch(buffer, *target, *modifiers) {
            Some(dispatch) => {
                *target = dispatch.target;
                *modifiers = dispatch.modifiers;
                dispatch.message
            },
            None => None,
        }
    }
}

/// Packs a character with the target and the modifiers into a message.
pub fn combine(target: u8, modifiers: u8, character: u8) -> (message: u32)
    ensures
        message == combined(target, modifiers, character),
{
    (target as u32) << 24 | (modifiers as u32) << 8 | (character as u32)
}

/// The client that a message is for, and what that client is handed: the
/// modifiers and the character.
pub fn route(message: u32) -> (delivery: (usize, u16))
    ensures
        delivery.0 == message >> 24,
        delivery.1 == message & 0xffff,
{
    proof {
        assert(message >> 24 <= 0xff) by (bit_vector);
        assert(message & 0xffff <= 0xffff) by (bit_vector);
    }
    ((message >> 24) as usize, (message & 0xffff) as u16)
}

/// A message reaches its target, with the modifiers in the high byte of
/// what is handed over and the character in the low byte.
pub proof fn lemma_route_combined(target: u8, modifiers: u8, character: u8)
    ensures
        combined(target, modifiers, character) >> 24 == target,
        combined(target, modifiers, character) & 0xffff == (modifiers as u32) << 8
            | character as u32,
        ((modifiers as u32) << 8 | character as u32) >> 8 == modifiers,
        ((modifiers as u32) << 8 | character as u32) & 0xff == character,
{
    assert(((target as u32) << 24 | (modifiers as u32) << 8 | (character as u32)) >> 24
        == target) by (bit_vector);
    assert(((target as u32) << 24 | (modifiers as u32) << 8 | (character as u32)) & 0xffff == (
    modifiers as u32) << 8 | character as u32) by (bit_vector);
    assert(((modifiers as u32) << 8 | character as u32) >> 8 == modifiers) by (bit_vector);
    assert(((modifiers as u32) << 8 | character as u32) & 0xff == character) by (bit_vector);
}

/// Where a client stands: in the list of the serial clients or in that of
/// the ethernet clients, and at which place of it.
#[derive(Clone, Copy, PartialEq, Eq, Debug, Structural)]
pub enum Seat {
    Serial(usize),
    Ethernet(usize),
}

/// Whether a client of one of the lists has the index `index`. The lists
/// hold the indices of the serial and of the ethernet clients.
pub open spec fn is_seated(serial: Seq<usize>, ethernet: Seq<usize>, index: int) -> bool {
    serial.contains(index as usize) || ethernet.contains(index as usize)
}

/// Whether the clients can be seated: each has an index below their
/// number, and each index below their number is that of a client.
pub open spec fn can_seat(serial: Seq<usize>, ethernet: Seq<usize>) -> bool {
    let total = serial.len() + ethernet.len();
    &&& total <= usize::MAX
    &&& forall|place: int| 0 <= place < serial.len() ==> #[trigger] serial[place] < total
    &&& forall|place: int| 0 <= place < ethernet.len() ==> #[trigger] ethernet[place] < total
    &&& forall|index: int| 0 <= index < total ==> is_seated(serial, ethernet, index)
}

/// Whether `seats` tells for each index where the client with that index stands.
pub open spec fn seats_match(seats: Seq<Seat>, serial: Seq<usize>, ethernet: Seq<usize>) -> bool {
    &&& seats.len() == serial.len() + ethernet.len()
    &&& forall|index: int|
        0 <= index < seats.len() ==> match #[trigger] seats[index] {
            Seat::Serial(place) => place < serial.len() && serial[place as int] == index,
            Seat::Ethernet(place) => place < ethernet.len() && ethernet[place as int] == index,
        }
}

/// The router: for each index, the client that messages for it go to.
#[derive(Debug, PartialEq, Eq)]
pub struct Manager {
    pub seats: Vec<Seat>,
}

impl Manager {
    /// Seats the clients by their indices. `serial` and `ethernet` hold the
    /// indices of the serial and of the ethernet clients, in the order of
    /// the two lists.
    pub fn new(serial: &Vec<usize>, ethernet: &Vec<usize>) -> (manager: Option<Manager>)
        ensures
            manager is Some <==> can_seat(serial@, ethernet@),
            manager matches Some(manager) ==> seats_match(manager.seats@, serial@, ethernet@),
    {
        if serial.len() > usize::MAX - ethernet.len() {
            return None;
        }
        let total = serial.len() + ethernet.len();
        let mut found: Vec<Option<Seat>> = Vec::new();
        while found.len() < total
            invariant
                found@.len() <= total,
                forall|index: int| 0 <= index < found@.len() ==> found@[index] is None,
            decreases total - found@.len(),
        {
            found.push(None);
        }
        let mut place: usize = 0;
        while place < serial.len()
            invariant
                place <= serial@.len(),
                found@.len() == total,
                total == serial@.len() + ethernet@.len(),
                forall|earlier: int| 0 <= earlier < place ==> #[trigger] serial@[earlier] < total,
                forall|index: int|
                    0 <= index < total ==> match #[trigger] found@[index] {
                        Some(Seat::Serial(at)) => at < place && serial@[at as int] == index,
                        Some(Seat::Ethernet(_)) => false,
                        None => !serial@.take(place as int).contains(index as usize),
                    },
            decreases serial@.len() - place,
        {
            let index = serial[place];
            if index >= total {
                return None;
            }
            proof {
                assert(serial@.take(place + 1) == serial@.take(place as int).push(index));
                assert forall|other: int| 0 <= other < total && other != index && found@[other]
                    is None implies !serial@.take(place + 1).contains(other as usize) by {
                    lemma_push_contains(serial@.take(place as int), index, other as usize);
                }
            }
            found.set(index, Some(Seat::Serial(place)));
            place += 1;
        }
        proof {
            assert(serial@.take(place as int) == serial@);
        }
        place = 0;
        while place < ethernet.len()
            invariant
                place <= ethernet@.len(),
                found@.len() == total,
                total == serial@.len() + ethernet@.len(),
                forall|earlier: int| 0 <= earlier < serial@.len() ==> #[trigger] serial@[earlier] < total,
                forall|earlier: int|
                    0 <= earlier < place ==> #[trigger] ethernet@[earlier] < total,
                forall|index: int|
                    0 <= index < total ==> match #[trigger] found@[index] {
                        Some(Seat::Serial(at)) => at < serial@.len() && serial@[at as int]
                            == index,
                        Some(Seat::Ethernet(at)) => at < place && ethernet@[at as int] == index,
                        None => !serial@.contains(index as usize) && !ethernet@.take(
                            place as int,
                        ).contains(index as usize),
                    },
            decreases ethernet@.len() - place,
        {
            let index = ethernet[place];
            if index >= total {
                return None;
            }
            proof {
                assert(ethernet@.take(place + 1) == ethernet@.take(place as int).push(index));
                assert forall|other: int| 0 <= other < total && other != index && found@[other]
                    is None implies !ethernet@.take(place + 1).contains(other as usize) by {
                    lemma_push_contains(ethernet@.take(place as int), index, other as usize);
                }
            }
            found.set(index, Some(Seat::Ethernet(place)));
            place += 1;
        }
        proof {
            assert(ethernet@.take(place as int) == ethernet@);
        }
        let mut seats: Vec<Seat> = Vec::new();
        let mut index: usize = 0;
        while index < total
            invariant
                index <= total,
                found@.len() == total,
                total == serial@.len() + ethernet@.len(),
                seats@.len() == index,
                forall|earlier: int| 0 <= earlier < serial@.len() ==> #[trigger] serial@[earlier] < total,
                forall|earlier: int|
                    0 <= earlier < ethernet@.len() ==> #[trigger] ethernet@[earlier] < total,
                forall|at: int|
                    0 <= at < total ==> match #[trigger] found@[at] {
                        Some(Seat::Serial(place)) => place < serial@.len() && serial@[place as int]
                            == at,
                        Some(Seat::Ethernet(place)) => place < ethernet@.len()
                            && ethernet@[place as int] == at,
                        None => !is_seated(serial@, ethernet@, at),
                    },
                forall|at: int|
                    0 <= at < index ==> found@[at] == Some(#[trigger] seats@[at]),
            decreases total - index,
        {
            match found[index] {
                Some(seat) => {
                    seats.push(seat);
                },
                None => {
                    return None;
                },
            }
            index += 1;
        }
        proof {
            assert forall|at: int| 0 <= at < total implies is_seated(serial@, ethernet@, at) by {
                assert(found@[at] == Some(seats@[at]));
            }
        }
        Some(Manager { seats })
    }

    /// The client that a message goes to, and what it is handed: the
    /// modifiers and the character. A message for an index that no client
    /// has goes nowhere.
    pub fn deliver(&self, message: u32) -> (delivery: Option<(Seat, u16)>)
        ensures
            delivery == if message >> 24 < self.seats@.len() {
                Some((self.seats@[(message >> 24) as int], (message & 0xffff) as u16))
            } else {
                None
            },
    {
        let (index, data) = route(message);
        if index < self.seats.len() {
            Some((self.seats[index], data))
        } else {
            None
        }
    }
}

} // verus!
