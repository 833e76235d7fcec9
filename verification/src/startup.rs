//! The configuration of the whole server: binaries, clients, and the
//! controller.

use crate::client::{Manager, ManagerView};
use crate::error::{rejection, Error, ErrorKind, ErrorView};
use crate::parser::line::word_views;
use crate::parser::stack::{outcome, text_lines, StackView};
use crate::parser::{
    item, optional_slice, optional_text, single, Applied, Handler, KeywordView, Parser,
    ParserView, Stack,
};
use vstd::prelude::*;

verus! {

/// The parts of the server that a build may leave out.
#[derive(Clone, Copy, PartialEq, Eq, Debug, Structural)]
pub struct Features {
    pub controller: bool,
    pub driver: bool,
    pub system: bool,
}

/// A keyword of the server's configuration.
#[derive(Clone, Copy, PartialEq, Eq, Debug, Structural)]
pub enum Directive {
    Binary,
    Lookup,
    Client,
    Controller,
    Driver,
    System,
}

impl Directive {
    /// The keyword as the parser knows it.
    pub open spec fn keyword(self) -> KeywordView {
        match self {
            Directive::Binary => item("binary"@),
            Directive::Lookup => single("lookup"@),
            Directive::Client => item("client"@),
            Directive::Controller => item("controller"@),
            Directive::Driver => single("driver"@),
            Directive::System => single("system"@),
        }
    }
}

/// The keywords of a server with the given features, in the order of their numbers.
pub open spec fn directives(features: Features) -> Seq<Directive> {
    seq![Directive::Binary, Directive::Lookup, Directive::Client] + (if features.controller {
        seq![Directive::Controller]
    } else {
        Seq::empty()
    }) + (if features.driver {
        seq![Directive::Driver]
    } else {
        Seq::empty()
    }) + (if features.system {
        seq![Directive::System]
    } else {
        Seq::empty()
    })
}

/// The keywords as the parser knows them.
pub open spec fn server_keywords(list: Seq<Directive>) -> Seq<KeywordView> {
    list.map_values(|directive: Directive| directive.keyword())
}

/// What the configuration needs from outside before it can be read on.
#[derive(Debug, PartialEq, Eq)]
pub enum Load {
    /// The configuration of a client: it is looked for in the directory
    /// `lookup` under the name `qualified`.
    Client { lookup: String, qualified: String, name: String, index: usize },
    /// The configuration of the controller, with the given path.
    Controller { path: String },
}

/// The mathematical content of a [`Load`].
pub enum LoadView {
    Client { lookup: Seq<char>, qualified: Seq<char>, name: Seq<char>, index: usize },
    Controller { path: Seq<char> },
}

impl View for Load {
    type V = LoadView;

    open spec fn view(&self) -> LoadView {
        match self {
            Load::Client { lookup, qualified, name, index } => LoadView::Client {
                lookup: lookup@,
                qualified: qualified@,
                name: name@,
                index: *index,
            },
            Load::Controller { path } => LoadView::Controller { path: path@ },
        }
    }
}

/// The content of an optional load.
pub open spec fn load_view(load: Option<Load>) -> Option<LoadView> {
    match load {
        Some(load) => Some(load@),
        None => None,
    }
}

/// What the server's configuration has built so far.
pub struct Server {
    pub directives: Vec<Directive>,
    pub manager: Manager,
    pub lookup_path: String,
    pub client_names: Vec<String>,
    pub driver: bool,
    pub system_path: Option<String>,
    pub load: Option<Load>,
}

/// The mathematical content of a [`Server`].
pub struct ServerView {
    pub directives: Seq<Directive>,
    pub manager: ManagerView,
    pub lookup_path: Seq<char>,
    pub client_names: Seq<Seq<char>>,
    pub driver: bool,
    pub system_path: Option<Seq<char>>,
    pub load: Option<LoadView>,
}

impl View for Server {
    type V = ServerView;

    open spec fn view(&self) -> ServerView {
        ServerView {
            directives: self.directives@,
            manager: self.manager@,
            lookup_path: self.lookup_path@,
            client_names: word_views(self.client_names@),
            driver: self.driver,
            system_path: optional_text(self.system_path),
            load: load_view(self.load),
        }
    }
}

/// `name` after `prefix`, where there is one.
pub open spec fn qualified(prefix: Option<Seq<char>>, name: Seq<char>) -> Seq<char> {
    match prefix {
        Some(prefix) => prefix + name,
        None => name,
    }
}

/// Puts `name` after `prefix`, where there is one.
pub fn qualify(prefix: Option<&str>, name: String) -> (full: String)
    ensures
        full@ == qualified(optional_slice(prefix), name@),
{
    match prefix {
        Some(prefix) => prefix.to_owned().concat(name.as_str()),
        None => name,
    }
}

impl ServerView {
    /// The server after a binary directive: the path of the binary, after
    /// the prefix, and its name.
    pub open spec fn with_binary(self, prefix: Option<Seq<char>>, stack: StackView) -> Applied<
        ServerView,
    > {
        let taken = stack.take("no binary file specified"@);
        match taken.result {
            Err(error) => Applied { state: self, stack: taken.stack, result: Err(error) },
            Ok(file) => {
                let popped = taken.stack.pop_name();
                match popped.result {
                    Err(error) => Applied { state: self, stack: popped.stack, result: Err(error) },
                    Ok(name) => match self.manager.with_binary(qualified(prefix, file), name) {
                        Ok(manager) => Applied {
                            state: ServerView { manager, ..self },
                            stack: popped.stack,
                            result: Ok(()),
                        },
                        Err(error) => Applied {
                            state: self,
                            stack: popped.stack,
                            result: Err(rejection(error.kind, popped.stack.line, error.detail)),
                        },
                    },
                }
            },
        }
    }

    /// The server after a client directive: the name of the client, which
    /// no client has yet. The server then waits for the configuration of
    /// the client.
    pub open spec fn with_client(self, prefix: Option<Seq<char>>, stack: StackView) -> Applied<
        ServerView,
    > {
        let taken = stack.take("no client name specified"@);
        match taken.result {
            Err(error) => Applied { state: self, stack: taken.stack, result: Err(error) },
            Ok(name) => if self.client_names.contains(name) {
                Applied {
                    state: self,
                    stack: taken.stack,
                    result: Err(rejection(ErrorKind::DuplicateClient, taken.stack.line, name)),
                }
            } else {
                Applied {
                    state: ServerView {
                        load: Some(
                            LoadView::Client {
                                lookup: self.lookup_path,
                                qualified: qualified(prefix, name),
                                name,
                                index: self.client_names.len() as usize,
                            },
                        ),
                        ..self
                    },
                    stack: taken.stack,
                    result: Ok(()),
                }
            },
        }
    }

    /// The server after a controller directive: the path of the
    /// controller's configuration, after the prefix. The server then waits
    /// for the controller to be set up.
    pub open spec fn with_controller(self, prefix: Option<Seq<char>>, stack: StackView) -> Applied<
        ServerView,
    > {
        let taken = stack.take("no controller translation specified"@);
        match taken.result {
            Err(error) => Applied { state: self, stack: taken.stack, result: Err(error) },
            Ok(path) => Applied {
                state: ServerView {
                    load: Some(LoadView::Controller { path: qualified(prefix, path) }),
                    ..self
                },
                stack: taken.stack,
                result: Ok(()),
            },
        }
    }

    /// The server after the directive `directive`.
    pub open spec fn with_directive(
        self,
        directive: Directive,
        prefix: Option<Seq<char>>,
        stack: StackView,
    ) -> Applied<ServerView> {
        match directive {
            Directive::Binary => self.with_binary(prefix, stack),
            Directive::Lookup => {
                let popped = stack.pop_directory();
                match popped.result {
                    Ok(lookup_path) => Applied {
                        state: ServerView { lookup_path, ..self },
                        stack: popped.stack,
                        result: Ok(()),
                    },
                    Err(error) => Applied { state: self, stack: popped.stack, result: Err(error) },
                }
            },
            Directive::Client => self.with_client(prefix, stack),
            Directive::Controller => self.with_controller(prefix, stack),
            Directive::Driver => {
                let popped = stack.pop_state();
                match popped.result {
                    Ok(driver) => Applied {
                        state: ServerView { driver, ..self },
                        stack: popped.stack,
                        result: Ok(()),
                    },
                    Err(error) => Applied { state: self, stack: popped.stack, result: Err(error) },
                }
            },
            Directive::System => {
                let popped = stack.pop_directory();
                match popped.result {
                    Ok(system_path) => Applied {
                        state: ServerView { system_path: Some(system_path), ..self },
                        stack: popped.stack,
                        result: Ok(()),
                    },
                    Err(error) => Applied { state: self, stack: popped.stack, result: Err(error) },
                }
            },
        }
    }
}

impl Server {
    /// A server with nothing configured.
    pub fn new(features: Features) -> (server: Server)
        ensures
            server.ready(),
            server@ == (ServerView {
                directives: directives(features),
                manager: ManagerView {
                    serial_clients: Seq::empty(),
                    ethernet_clients: Seq::empty(),
                    binary_files: Seq::empty(),
                },
                lookup_path: Seq::empty(),
                client_names: Seq::empty(),
                driver: false,
                system_path: None,
                load: None,
            }),
    {
        let mut list: Vec<Directive> = Vec::new();
        list.push(Directive::Binary);
        list.push(Directive::Lookup);
        list.push(Directive::Client);
        if features.controller {
            list.push(Directive::Controller);
        }
        if features.driver {
            list.push(Directive::Driver);
        }
        if features.system {
            list.push(Directive::System);
        }
        let server = Server {
            directives: list,
            manager: Manager::new(),
            lookup_path: String::new(),
            client_names: Vec::new(),
            driver: false,
            system_path: None,
            load: None,
        };
        proof {
            assert(server.directives@ == directives(features));
            assert(word_views(server.client_names@) == Seq::<Seq<char>>::empty());
        }
        server
    }

    /// Tells whether a client has the name.
    pub fn has_client(&self, name: &str) -> (found: bool)
        ensures
            found == self@.client_names.contains(name@),
    {
        let ghost names = word_views(self.client_names@);
        let mut position: usize = 0;
        while position < self.client_names.len()
            invariant
                position <= self.client_names@.len(),
                names == word_views(self.client_names@),
                forall|earlier: int| 0 <= earlier < position ==> names[earlier] != name@,
            decreases self.client_names@.len() - position,
        {
            if self.client_names[position].as_str().eq(name) {
                proof {
                    assert(names[position as int] == name@);
                }
                return true;
            }
            position += 1;
        }
        false
    }

    /// Carries out a binary directive.
    fn register_binary(&mut self, prefix: Option<&str>, stack: &mut Stack) -> (result: Result<
        (),
        Error,
    >)
        requires
            old(self).ready(),
            old(stack).wf(),
        ensures
            final(self).ready(),
            final(stack).wf(),
            (Applied { state: final(self)@, stack: final(stack)@, result: outcome(result) })
                == old(self)@.with_binary(optional_slice(prefix), old(stack)@),
    {
        let file = stack.take("no binary file specified")?;
        let name = stack.pop_name()?;
        match self.manager.binary(qualify(prefix, file), name) {
            Ok(_) => Ok(()),
            Err(error) => Err(stack.panic(error.kind, error.detail)),
        }
    }

    /// Carries out a client directive.
    fn request_client(&mut self, prefix: Option<&str>, stack: &mut Stack) -> (result: Result<
        (),
        Error,
    >)
        requires
            old(self).ready(),
            old(stack).wf(),
        ensures
            final(self).ready(),
            final(stack).wf(),
            (Applied { state: final(self)@, stack: final(stack)@, result: outcome(result) })
                == old(self)@.with_client(optional_slice(prefix), old(stack)@),
    {
        let name = stack.take("no client name specified")?;
        if self.has_client(name.as_str()) {
            return Err(stack.panic(ErrorKind::DuplicateClient, name));
        }
        self.load = Some(
            Load::Client {
                lookup: self.lookup_path.clone(),
                qualified: qualify(prefix, name.clone()),
                name,
                index: self.client_names.len(),
            },
        );
        Ok(())
    }

    /// Adds the client that is waited for, from the lines of its configuration.
    pub fn supply_client(&mut self, lines: &Vec<String>) -> (result: Result<(), Error>)
        requires
            old(self).ready(),
            old(self).load matches Some(Load::Client { .. }),
        ensures
            final(self).ready(),
            old(self)@.load matches Some(LoadView::Client { qualified, name, index, .. }) && match result {
                Ok(_) => {
                    &&& old(self)@.manager.with_client(qualified, text_lines(lines@), index)
                        matches Ok(manager)
                    &&& final(self)@ == (ServerView {
                        manager,
                        client_names: old(self)@.client_names.push(name),
                        load: None,
                        ..old(self)@
                    })
                },
                Err(error) => {
                    &&& old(self)@.manager.with_client(qualified, text_lines(lines@), index)
                        == Err::<ManagerView, ErrorView>(error@)
                    &&& final(self)@ == old(self)@
                },
            },
    {
        let (qualified, name, index) = match &self.load {
            Some(Load::Client { qualified, name, index, .. }) => (
                qualified.clone(),
                name.clone(),
                *index,
            ),
            _ => (String::new(), String::new(), 0),
        };
        self.manager.initialize(qualified, lines, index)?;
        proof {
            let before = word_views(self.client_names@);
            assert(word_views(self.client_names@.push(name)) == before.push(name@));
            assert(!before.contains(name@));
            assert forall|first: int, second: int|
                0 <= first < before.len() + 1 && 0 <= second < before.len() + 1 && first
                    != second implies before.push(name@)[first] != before.push(
                name@,
            )[second] by {
                if first < before.len() && second < before.len() {
                    assert(before[first] != before[second]);
                } else if first < before.len() {
                    assert(before.contains(before[first]));
                } else {
                    assert(before.contains(before[second]));
                }
            }
        }
        self.client_names.push(name);
        self.load = None;
        Ok(())
    }

    /// Notes that the controller that is waited for was set up.
    pub fn resume(&mut self)
        requires
            old(self).ready(),
            old(self).load matches Some(Load::Controller { .. }),
        ensures
            final(self).ready(),
            final(self)@ == (ServerView { load: None, ..old(self)@ }),
    {
        self.load = None;
    }
}

impl Handler for Server {
    /// No two binaries have one path or one name, no two clients have one
    /// name, and a client that is waited for has a name of its own.
    open spec fn ready(&self) -> bool {
        &&& self.manager.wf()
        &&& self@.client_names.no_duplicates()
        &&& self.load matches Some(Load::Client { name, index, .. }) ==> !self@.client_names.contains(
            name@,
        )
    }

    open spec fn waiting(state: ServerView) -> bool {
        state.load is Some
    }

    open spec fn applied(
        state: ServerView,
        keyword: int,
        prefix: Option<Seq<char>>,
        stack: StackView,
    ) -> Applied<ServerView> {
        if 0 <= keyword < state.directives.len() {
            state.with_directive(state.directives[keyword], prefix, stack)
        } else {
            Applied { state, stack, result: Ok(()) }
        }
    }

    fn is_waiting(&self) -> (waiting: bool) {
        self.load.is_some()
    }

    fn call(&mut self, keyword: usize, prefix: Option<&str>, stack: &mut Stack) -> (result: Result<
        (),
        Error,
    >) {
        if keyword >= self.directives.len() {
            return Ok(());
        }
        match self.directives[keyword] {
            Directive::Binary => self.register_binary(prefix, stack),
            Directive::Lookup => {
                let lookup_path = stack.pop_directory()?;
                self.lookup_path = lookup_path;
                Ok(())
            },
            Directive::Client => self.request_client(prefix, stack),
            Directive::Controller => {
                let path = stack.take("no controller translation specified")?;
                self.load = Some(Load::Controller { path: qualify(prefix, path) });
                Ok(())
            },
            Directive::Driver => {
                let driver = stack.pop_state()?;
                self.driver = driver;
                Ok(())
            },
            Directive::System => {
                let system_path = stack.pop_directory()?;
                self.system_path = Some(system_path);
                Ok(())
            },
        }
    }
}

/// The server's configuration while it is read: the parser over its
/// lines, and what the directives have built so far.
pub struct Startup {
    pub parser: Parser,
    pub server: Server,
}

impl Startup {
    /// Whether reading can go on.
    pub open spec fn wf(&self) -> bool {
        self.parser.wf() && self.server.ready()
    }

    /// Starts to read the server's configuration.
    pub fn new(lines: &Vec<String>, features: Features) -> (startup: Startup)
        ensures
            startup.wf(),
            startup.parser@ == ParserView::beginning(
                text_lines(lines@),
                server_keywords(directives(features)),
            ),
            startup.server@ == (ServerView {
                directives: directives(features),
                manager: ManagerView {
                    serial_clients: Seq::empty(),
                    ethernet_clients: Seq::empty(),
                    binary_files: Seq::empty(),
                },
                lookup_path: Seq::empty(),
                client_names: Seq::empty(),
                driver: false,
                system_path: None,
                load: None,
            }),
    {
        let server = Server::new(features);
        let mut parser = Parser::new(lines);
        let mut position: usize = 0;
        proof {
            assert(server_keywords(server.directives@.take(0)) == Seq::<KeywordView>::empty());
        }
        while position < server.directives.len()
            invariant
                position <= server.directives@.len(),
                parser.wf(),
                parser@ == ParserView::beginning(
                    text_lines(lines@),
                    server_keywords(server.directives@.take(position as int)),
                ),
            decreases server.directives@.len() - position,
        {
            let directive = server.directives[position];
            proof {
                assert(server.directives@.take(position + 1) == server.directives@.take(
                    position as int,
                ).push(directive));
                assert(server_keywords(server.directives@.take(position as int).push(directive))
                    == server_keywords(server.directives@.take(position as int)).push(
                    directive.keyword(),
                ));
            }
            match directive {
                Directive::Binary => parser.register("binary", false),
                Directive::Lookup => parser.register("lookup", true),
                Directive::Client => parser.register("client", false),
                Directive::Controller => parser.register("controller", false),
                Directive::Driver => parser.register("driver", true),
                Directive::System => parser.register("system", true),
            }
            position += 1;
        }
        proof {
            assert(server.directives@.take(position as int) == server.directives@);
        }
        Startup { parser, server }
    }

    /// Reads on until something is needed from outside, which the server
    /// then holds as its load. Tells whether that is so, or the last
    /// directive was passed. While the server waits, nothing is read.
    pub fn next(&mut self) -> (waiting: Result<bool, Error>)
        requires
            old(self).wf(),
        ensures
            final(self).wf(),
            old(self).server.load is Some ==> {
                &&& final(self).parser@ == old(self).parser@
                &&& final(self).server@ == old(self).server@
                &&& waiting == Ok::<bool, Error>(true)
            },
            old(self).server.load is None ==> {
                let round = old(self).parser@.parse::<Server>(old(self).server@);
                &&& final(self).parser@ == round.parser
                &&& final(self).server@ == round.handler
                &&& outcome(waiting) == round.result
                &&& waiting == Ok::<bool, Error>(true) ==> final(self).server.load is Some
            },
    {
        if self.server.load.is_some() {
            Ok(true)
        } else {
            self.parser.parse(&mut self.server)
        }
    }
}

} // verus!
