//! Where the executor shards and their coordinator listen.

use vstd::prelude::*;

verus! {

/// The address of an endpoint.
#[derive(Clone, Copy, Debug, PartialEq, Eq)]
pub enum SocketAddress {
    V4 { ip: [u8; 4], port: u16 },
    V6 { ip6: [u8; 16], port: u16, flowinfo: u32, scope_id: u32 },
}

/// The port of the coordinator where none is set.
pub const COORDINATOR_PORT: u16 = 52200;

/// Whether `address` is the one of the local host at `port`.
pub open spec fn is_localhost(address: SocketAddress, port: u16) -> bool {
    address matches SocketAddress::V4 { ip, port: p } && ip@ == seq![127u8, 0, 0, 1] && p
        == port
}

/// The addresses of the shards and of the coordinator. Each can be set once.
#[derive(Debug, PartialEq, Eq)]
pub struct AddressBook {
    remote_addresses: Option<Vec<SocketAddress>>,
    coordinator_address: Option<SocketAddress>,
}

impl AddressBook {
    /// The addresses of the shards, once they are set.
    pub closed spec fn remote(self) -> Option<Seq<SocketAddress>> {
        match self.remote_addresses {
            Some(addresses) => Some(addresses@),
            None => None,
        }
    }

    /// The address of the coordinator, once it is set.
    pub closed spec fn coordinator(self) -> Option<SocketAddress> {
        self.coordinator_address
    }

    /// A book in which nothing is set.
    pub fn new() -> (book: Self)
        ensures
            book.remote() is None,
            book.coordinator() is None,
    {
        AddressBook { remote_addresses: None, coordinator_address: None }
    }
}

/// What a slot that can be set once holds after it was set to `value`.
pub open spec fn set_once<T>(slot: Option<T>, value: T) -> Option<T> {
    match slot {
        Some(earlier) => Some(earlier),
        None => Some(value),
    }
}

/// The addresses of the shards that a book answers with.
pub open spec fn remote_or_none(book: AddressBook) -> Seq<SocketAddress> {
    match book.remote() {
        Some(addresses) => addresses,
        None => Seq::empty(),
    }
}

/// Sets the addresses of the shards, unless they are set already.
pub fn set_remote_addresses(book: &mut AddressBook, addresses: Vec<SocketAddress>)
    ensures
        final(book).remote() == set_once(old(book).remote(), addresses@),
        final(book).coordinator() == old(book).coordinator(),
{
    if book.remote_addresses.is_none() {
        book.remote_addresses = Some(addresses);
    }
}

/// The addresses of the shards: none where they are not set.
pub fn get_remote_addresses(book: &AddressBook) -> (addresses: Vec<SocketAddress>)
    ensures
        addresses@ == remote_or_none(*book),
{
    match &book.remote_addresses {
        Some(addresses) => {
            let copy = addresses.clone();
            assert(copy@ =~= addresses@);
            copy
        },
        None => Vec::new(),
    }
}

/// Sets the address of the coordinator, unless it is set already.
pub fn set_coordinator_address(book: &mut AddressBook, address: SocketAddress)
    ensures
        final(book).coordinator() == set_once(old(book).coordinator(), address),
        final(book).remote() == old(book).remote(),
{
    if book.coordinator_address.is_none() {
        book.coordinator_address = Some(address);
    }
}

/// The address of the coordinator: the local host where none is set.
pub fn get_coordinator_address(book: &AddressBook) -> (address: SocketAddress)
    ensures
        match book.coordinator() {
            Some(set) => address == set,
            None => is_localhost(address, COORDINATOR_PORT),
        },
{
    match book.coordinator_address {
        Some(address) => address,
        None => {
            let ip = [127u8, 0, 0, 1];
            assert(ip@ =~= seq![127u8, 0, 0, 1]);
            SocketAddress::V4 { ip, port: COORDINATOR_PORT }
        },
    }
}

/// What is set first stays: setting a slot again changes nothing.
pub proof fn first_setting_stays<T>(slot: Option<T>, first: T, second: T)
    ensures
        set_once(set_once(slot, first), second) == set_once(slot, first),
{
}

} // verus!
