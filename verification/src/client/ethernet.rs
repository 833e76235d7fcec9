//! The ethernet client: a device that is reached over the network.

use crate::client::context::{Context, ContextView};
use crate::client::Client;
use crate::parser::word::Address;
use vstd::prelude::*;

verus! {

/// A client that is reached over the network.
#[derive(Debug, PartialEq, Eq)]
pub struct EthernetClient {
    pub context: Context,
    pub address: Address,
}

/// The mathematical content of an [`EthernetClient`].
pub struct EthernetClientView {
    pub context: ContextView,
    pub address: Address,
}

impl View for EthernetClient {
    type V = EthernetClientView;

    open spec fn view(&self) -> EthernetClientView {
        EthernetClientView { context: self.context@, address: self.address }
    }
}

impl EthernetClient {
    /// An ethernet client for the device at the given address.
    pub fn new(context: Context, address: Address) -> (client: EthernetClient)
        ensures
            client@ == (EthernetClientView { context: context@, address }),
    {
        EthernetClient { context, address }
    }

    /// Tells whether the client is started: it is where it has a binary.
    pub fn start(&self) -> (started: bool)
        ensures
            started == self@.context.binary is Some,
    {
        self.context.binary.is_some()
    }
}

impl Client for EthernetClient {
    open spec fn place(&self) -> usize {
        self.context.index
    }

    /// Nothing is passed on to a device on the network.
    open spec fn passed(&self, data: u16) -> Option<Seq<u8>> {
        None
    }

    fn event(&self, data: u16) -> (bytes: Option<[u8; 2]>) {
        None
    }

    fn index(&self) -> (index: usize) {
        self.context.index
    }
}

} // verus!
