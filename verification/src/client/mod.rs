//! The clients: one for each device, and the binaries they can be sent.

pub mod context;
pub mod ethernet;
pub mod serial;

pub use self::context::{Context, Mode};
pub use self::ethernet::EthernetClient;
pub use self::serial::SerialClient;

use crate::client::context::ModeView;
use crate::client::ethernet::EthernetClientView;
use crate::client::serial::SerialClientView;
use crate::error::{rejection, Error, ErrorKind, ErrorView};
use crate::parser::stack::text_lines;
use crate::parser::{
    binary_names, binary_paths, binary_views, optional_text, BinaryFile, BinaryFileView,
};
use vstd::prelude::*;

verus! {

/// The bytes of an optional pair of bytes.
pub open spec fn optional_bytes(bytes: Option<[u8; 2]>) -> Option<Seq<u8>> {
    match bytes {
        Some(bytes) => Some(bytes@),
        None => None,
    }
}

/// A client of some kind.
pub trait Client {
    /// The place of the client in the order of declaration.
    spec fn place(&self) -> usize;

    /// The bytes that are passed on to the device for a key event, if any are.
    spec fn passed(&self, data: u16) -> Option<Seq<u8>>;

    /// Gives the bytes to pass on to the device for a key event: the
    /// modifiers and the character.
    fn event(&self, data: u16) -> (bytes: Option<[u8; 2]>)
        ensures
            optional_bytes(bytes) == self.passed(data),
    ;

    /// Gives the place of the client in the order of declaration.
    fn index(&self) -> (index: usize)
        ensures
            index == self.place(),
    ;
}

/// The clients and the binaries of a configuration.
pub struct Manager {
    serial_clients: Vec<SerialClient>,
    ethernet_clients: Vec<EthernetClient>,
    binary_files: Vec<BinaryFile>,
}

/// The mathematical content of a [`Manager`].
pub struct ManagerView {
    pub serial_clients: Seq<SerialClientView>,
    pub ethernet_clients: Seq<EthernetClientView>,
    pub binary_files: Seq<BinaryFileView>,
}

/// The contents of a list of serial clients, in order.
pub open spec fn serial_views(clients: Seq<SerialClient>) -> Seq<SerialClientView> {
    clients.map_values(|client: SerialClient| client@)
}

/// The contents of a list of ethernet clients, in order.
pub open spec fn ethernet_views(clients: Seq<EthernetClient>) -> Seq<EthernetClientView> {
    clients.map_values(|client: EthernetClient| client@)
}

/// Whether no two binaries have one path, and no two have one name.
pub open spec fn binaries_distinct(table: Seq<BinaryFileView>) -> bool {
    &&& binary_paths(table).no_duplicates()
    &&& forall|first: int, second: int|
        0 <= first < table.len() && 0 <= second < table.len() && first != second
            && table[first].name is Some ==> table[first].name != table[second].name
}

impl ManagerView {
    /// The manager after a binary is registered. One whose path, or whose
    /// name, a registered binary has already is rejected.
    pub open spec fn with_binary(self, path: Seq<char>, name: Option<Seq<char>>) -> Result<
        ManagerView,
        ErrorView,
    > {
        if binary_paths(self.binary_files).contains(path) {
            Err(rejection(ErrorKind::DuplicateBinaryPath, 0, path))
        } else if name is Some && binary_names(self.binary_files).contains(name) {
            Err(rejection(ErrorKind::DuplicateBinaryName, 0, name.unwrap()))
        } else {
            Ok(
                ManagerView {
                    binary_files: self.binary_files.push(BinaryFileView { path, name }),
                    ..self
                },
            )
        }
    }

    /// The manager after a client is configured: it joins the clients that
    /// are reached as it is.
    pub open spec fn with_client(
        self,
        name: Seq<char>,
        lines: Seq<Option<Seq<Seq<char>>>>,
        index: usize,
    ) -> Result<ManagerView, ErrorView> {
        match Context::configured(self.binary_files, name, lines, index) {
            Err(error) => Err(error),
            Ok((context, ModeView::Serial(source_path))) => Ok(
                ManagerView {
                    serial_clients: self.serial_clients.push(
                        SerialClientView { context, source_path },
                    ),
                    ..self
                },
            ),
            Ok((context, ModeView::Ethernet(address))) => Ok(
                ManagerView {
                    ethernet_clients: self.ethernet_clients.push(
                        EthernetClientView { context, address },
                    ),
                    ..self
                },
            ),
        }
    }
}

impl View for Manager {
    type V = ManagerView;

    closed spec fn view(&self) -> ManagerView {
        ManagerView {
            serial_clients: serial_views(self.serial_clients@),
            ethernet_clients: ethernet_views(self.ethernet_clients@),
            binary_files: binary_views(self.binary_files@),
        }
    }
}

impl Manager {
    /// Whether no two binaries have one path, and no two have one name.
    pub open spec fn wf(&self) -> bool {
        binaries_distinct(self@.binary_files)
    }

    /// A manager without clients and binaries.
    pub fn new() -> (manager: Manager)
        ensures
            manager.wf(),
            manager@ == (ManagerView {
                serial_clients: Seq::empty(),
                ethernet_clients: Seq::empty(),
                binary_files: Seq::empty(),
            }),
    {
        let manager = Manager {
            serial_clients: Vec::new(),
            ethernet_clients: Vec::new(),
            binary_files: Vec::new(),
        };
        proof {
            assert(serial_views(manager.serial_clients@) == Seq::<SerialClientView>::empty());
            assert(ethernet_views(manager.ethernet_clients@) == Seq::<
                EthernetClientView,
            >::empty());
            assert(binary_views(manager.binary_files@) == Seq::<BinaryFileView>::empty());
        }
        manager
    }

    /// The binaries that were registered, in order.
    pub fn binary_files(&self) -> (table: &Vec<BinaryFile>)
        ensures
            binary_views(table@) == self@.binary_files,
    {
        &self.binary_files
    }

    /// Tells whether a binary has the path.
    fn has_path(&self, path: &str) -> (found: bool)
        ensures
            found == binary_paths(self@.binary_files).contains(path@),
    {
        let ghost paths = binary_paths(self@.binary_files);
        let mut position: usize = 0;
        while position < self.binary_files.len()
            invariant
                position <= self.binary_files@.len(),
                paths == binary_paths(self@.binary_files),
                forall|earlier: int| 0 <= earlier < position ==> paths[earlier] != path@,
            decreases self.binary_files@.len() - position,
        {
            if self.binary_files[position].path.as_str().eq(path) {
                proof {
                    assert(paths[position as int] == path@);
                }
                return true;
            }
            position += 1;
        }
        false
    }

    /// Tells whether a binary has the name.
    fn has_name(&self, name: &str) -> (found: bool)
        ensures
            found == binary_names(self@.binary_files).contains(Some(name@)),
    {
        let ghost names = binary_names(self@.binary_files);
        let mut position: usize = 0;
        while position < self.binary_files.len()
            invariant
                position <= self.binary_files@.len(),
                names == binary_names(self@.binary_files),
                forall|earlier: int| 0 <= earlier < position ==> names[earlier] != Some(name@),
            decreases self.binary_files@.len() - position,
        {
            let same = match &self.binary_files[position].name {
                Some(other) => other.as_str().eq(name),
                None => false,
            };
            if same {
                proof {
                    assert(names[position as int] == Some(name@));
                }
                return true;
            }
            position += 1;
        }
        false
    }

    /// Registers a binary that clients can be sent. No two binaries have
    /// one path, and no two have one name.
    pub fn binary(&mut self, path: String, name: Option<String>) -> (result: Result<(), Error>)
        requires
            old(self).wf(),
        ensures
            final(self).wf(),
            match result {
                Ok(_) => old(self)@.with_binary(path@, optional_text(name)) == Ok::<
                    ManagerView,
                    ErrorView,
                >(final(self)@),
                Err(error) => final(self)@ == old(self)@ && old(self)@.with_binary(
                    path@,
                    optional_text(name),
                ) == Err::<ManagerView, ErrorView>(error@),
            },
    {
        if self.has_path(path.as_str()) {
            return Err(Error::new(ErrorKind::DuplicateBinaryPath, 0, path));
        }
        match &name {
            Some(given) => {
                if self.has_name(given.as_str()) {
                    return Err(Error::new(ErrorKind::DuplicateBinaryName, 0, given.clone()));
                }
            },
            None => {},
        }
        let binary = BinaryFile { path, name };
        proof {
            let before = binary_views(self.binary_files@);
            let after = binary_views(self.binary_files@.push(binary));
            assert(after == before.push(binary@));
            assert(binary_paths(after) == binary_paths(before).push(binary@.path));
            assert(binary_names(after) == binary_names(before).push(binary@.name));
            assert forall|first: int, second: int|
                0 <= first < after.len() && 0 <= second < after.len() && first
                    != second implies binary_paths(after)[first] != binary_paths(
                after,
            )[second] by {
                if first < before.len() && second < before.len() {
                    assert(binary_paths(before)[first] != binary_paths(before)[second]);
                } else if first < before.len() {
                    assert(binary_paths(before).contains(binary_paths(before)[first]));
                } else {
                    assert(binary_paths(before).contains(binary_paths(before)[second]));
                }
            }
            assert forall|first: int, second: int|
                0 <= first < after.len() && 0 <= second < after.len() && first != second
                    && after[first].name is Some implies after[first].name
                != after[second].name by {
                if first < before.len() && second < before.len() {
                    assert(before[first].name != before[second].name);
                } else if first < before.len() {
                    assert(binary_names(before)[first] == before[first].name);
                    assert(binary_names(before).contains(before[first].name));
                } else {
                    assert(binary_names(before)[second] == before[second].name);
                    assert(binary_names(before).contains(before[second].name));
                }
            }
        }
        self.binary_files.push(binary);
        Ok(())
    }

    /// Configures a client from the lines of its configuration, and adds it
    /// to the clients that are reached as it is.
    pub fn initialize(&mut self, name: String, lines: &Vec<String>, index: usize) -> (result:
        Result<(), Error>)
        requires
            old(self).wf(),
        ensures
            final(self).wf(),
            match result {
                Ok(_) => old(self)@.with_client(name@, text_lines(lines@), index) == Ok::<
                    ManagerView,
                    ErrorView,
                >(final(self)@),
                Err(error) => final(self)@ == old(self)@ && old(self)@.with_client(
                    name@,
                    text_lines(lines@),
                    index,
                ) == Err::<ManagerView, ErrorView>(error@),
            },
    {
        let (context, mode) = Context::new(&self.binary_files, name, lines, index)?;
        match mode {
            Mode::Serial(source_path) => {
                let client = SerialClient::new(context, source_path);
                proof {
                    assert(serial_views(self.serial_clients@.push(client)) == serial_views(
                        self.serial_clients@,
                    ).push(client@));
                }
                self.serial_clients.push(client);
            },
            Mode::Ethernet(address) => {
                let client = EthernetClient::new(context, address);
                proof {
                    assert(ethernet_views(self.ethernet_clients@.push(client)) == ethernet_views(
                        self.ethernet_clients@,
                    ).push(client@));
                }
                self.ethernet_clients.push(client);
            },
        }
        Ok(())
    }

    /// Hands out the clients: the serial ones and the ethernet ones, each
    /// in the order of declaration.
    pub fn clients(self) -> (clients: (Vec<SerialClient>, Vec<EthernetClient>))
        ensures
            serial_views(clients.0@) == self@.serial_clients,
            ethernet_views(clients.1@) == self@.ethernet_clients,
    {
        (self.serial_clients, self.ethernet_clients)
    }
}

} // verus!
