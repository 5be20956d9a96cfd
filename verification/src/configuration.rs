//! The configuration record: the port to listen on, the addresses that are
//! expected to send the command, and the shared secret.

use crate::ip_address::{address_of, numeral, read_numeral, IpAddress};
use crate::text::{chars_of, join, lemma_join_push, split, split_chars, string_of, views};
use vstd::prelude::*;

verus! {

/// The port, the expected source addresses and the secret.
#[derive(Debug, Clone, PartialEq, Eq)]
pub struct AppConfiguration {
    pub port_number: u16,
    pub addresses: Vec<IpAddress>,
    pub secret: String,
}

/// A configuration as a mathematical value.
pub struct ConfigurationModel {
    pub port_number: u16,
    pub addresses: Seq<IpAddress>,
    pub secret: Seq<char>,
}

impl View for AppConfiguration {
    type V = ConfigurationModel;

    open spec fn view(&self) -> ConfigurationModel {
        ConfigurationModel {
            port_number: self.port_number,
            addresses: self.addresses@,
            secret: self.secret@,
        }
    }
}

/// An optional configuration as a mathematical value.
pub open spec fn configuration_view(configuration: Option<AppConfiguration>) -> Option<
    ConfigurationModel,
> {
    match configuration {
        Some(c) => Some(c@),
        None => None,
    }
}

/// The port of a configuration that was never changed.
pub const DEFAULT_PORT: u16 = 53632;

/// The configuration that a first run starts from: the default port, the
/// loopback address alone, and a placeholder secret that the operator must change.
pub open spec fn default_configuration() -> ConfigurationModel {
    ConfigurationModel {
        port_number: DEFAULT_PORT,
        addresses: seq![IpAddress::V4(127, 0, 0, 1)],
        secret: "Super Secret String"@,
    }
}

/// The addresses written by the pieces, in order; a piece that writes no address is left out.
pub open spec fn addresses_in(parts: Seq<Seq<char>>) -> Seq<IpAddress>
    decreases parts.len(),
{
    if parts.len() == 0 {
        Seq::empty()
    } else {
        let before = addresses_in(parts.drop_last());
        match address_of(parts.last()) {
            Some(address) => before.push(address),
            None => before,
        }
    }
}

/// The addresses of a comma-separated list: each piece between commas that
/// writes an address, in order.
pub open spec fn addresses_of(list: Seq<char>) -> Seq<IpAddress> {
    addresses_in(split(list, ','))
}

/// The texts of the addresses.
pub open spec fn address_texts(addresses: Seq<IpAddress>) -> Seq<Seq<char>> {
    Seq::new(addresses.len(), |i: int| addresses[i].text())
}

/// The comma-separated list of the addresses.
pub open spec fn address_list(addresses: Seq<IpAddress>) -> Seq<char> {
    join(address_texts(addresses), ',')
}

/// The port written by `s` in decimal: one to five digits, 65535 at most.
pub open spec fn port_of(s: Seq<char>) -> Option<u16> {
    match numeral(s, 10, 5, true) {
        Some(n) => if n <= u16::MAX {
            Some(n as u16)
        } else {
            None
        },
        None => None,
    }
}

/// Reads a port from its decimal text.
pub fn parse_port(text: &str) -> (port: Option<u16>)
    ensures
        port == port_of(text@),
{
    let chars = chars_of(text);
    match read_numeral(&chars, 10, 5, true) {
        Some(n) => if n <= 65535 {
            Some(n as u16)
        } else {
            None
        },
        None => None,
    }
}

/// Reads the addresses of a comma-separated list, dropping what is no address.
pub fn parse_addresses(list: &str) -> (addresses: Vec<IpAddress>)
    ensures
        addresses@ == addresses_of(list@),
{
    let chars = chars_of(list);
    let parts = split_chars(&chars, ',');
    let mut addresses: Vec<IpAddress> = Vec::new();
    let mut i: usize = 0;
    while i < parts.len()
        invariant
            0 <= i <= parts.len(),
            addresses@ == addresses_in(views(parts@).take(i as int)),
        decreases parts.len() - i,
    {
        proof {
            assert(views(parts@).take(i + 1).drop_last() =~= views(parts@).take(i as int));
            assert(views(parts@).take(i + 1).last() == parts@[i as int]@);
        }
        match IpAddress::read(&parts[i]) {
            Some(address) => {
                addresses.push(address);
            },
            None => {},
        }
        i += 1;
    }
    proof {
        assert(views(parts@).take(parts.len() as int) =~= views(parts@));
    }
    addresses
}

/// Writes the addresses as a comma-separated list.
pub fn format_addresses(addresses: &Vec<IpAddress>) -> (list: String)
    ensures
        list@ == address_list(addresses@),
{
    let mut out: Vec<char> = Vec::new();
    let mut i: usize = 0;
    proof {
        assert(address_texts(addresses@.take(0)) =~= Seq::empty());
    }
    while i < addresses.len()
        invariant
            0 <= i <= addresses.len(),
            out@ == address_list(addresses@.take(i as int)),
        decreases addresses.len() - i,
    {
        let ghost done = address_texts(addresses@.take(i as int));
        if i > 0 {
            out.push(',');
        }
        addresses[i].push_text(&mut out);
        proof {
            lemma_join_push(done, addresses@[i as int].text(), ',');
            assert(address_texts(addresses@.take(i + 1)) =~= done.push(
                addresses@[i as int].text(),
            ));
        }
        i += 1;
    }
    proof {
        assert(addresses@.take(addresses.len() as int) =~= addresses@);
    }
    string_of(&out)
}

/// Whether two lists hold the same addresses in the same order.
pub fn same_addresses(left: &Vec<IpAddress>, right: &Vec<IpAddress>) -> (same: bool)
    ensures
        same == (left@ == right@),
{
    if left.len() != right.len() {
        return false;
    }
    let mut i: usize = 0;
    while i < left.len()
        invariant
            0 <= i <= left.len(),
            left.len() == right.len(),
            forall|j: int| 0 <= j < i ==> left@[j] == right@[j],
        decreases left.len() - i,
    {
        if left[i] != right[i] {
            return false;
        }
        i += 1;
    }
    proof {
        assert(left@ =~= right@);
    }
    true
}

impl AppConfiguration {
    /// Replaces the addresses by those of a comma-separated list.
    pub fn set_address(&mut self, string: String)
        ensures
            final(self)@ == (ConfigurationModel { addresses: addresses_of(string@), ..old(self)@ }),
    {
        self.set_addresses(string)
    }

    /// Replaces the addresses by those of a comma-separated list. A piece of
    /// the list that writes no address is dropped, and the rest is kept.
    pub fn set_addresses(&mut self, string: String)
        ensures
            final(self)@ == (ConfigurationModel { addresses: addresses_of(string@), ..old(self)@ }),
    {
        self.addresses = parse_addresses(string.as_str());
    }

    /// Replaces the port.
    pub fn set_port_number(&mut self, port: u16)
        ensures
            final(self)@ == (ConfigurationModel { port_number: port, ..old(self)@ }),
    {
        self.port_number = port
    }

    /// Replaces the secret.
    pub fn set_secret(&mut self, secret: String)
        ensures
            final(self)@ == (ConfigurationModel { secret: secret@, ..old(self)@ }),
    {
        self.secret = secret
    }

    /// Whether two configurations hold the same port, addresses and secret.
    pub fn same_as(&self, other: &AppConfiguration) -> (same: bool)
        ensures
            same == (self@ == other@),
    {
        self.port_number == other.port_number && self.secret == other.secret && same_addresses(
            &self.addresses,
            &other.addresses,
        )
    }
}

impl Default for AppConfiguration {
    fn default() -> (configuration: AppConfiguration)
        ensures
            configuration@ == default_configuration(),
    {
        let mut addresses: Vec<IpAddress> = Vec::new();
        addresses.push(IpAddress::V4(127, 0, 0, 1));
        let configuration = AppConfiguration {
            port_number: DEFAULT_PORT,
            addresses,
            secret: String::from_str("Super Secret String"),
        };
        proof {
            assert(configuration.addresses@ =~= seq![IpAddress::V4(127, 0, 0, 1)]);
        }
        configuration
    }
}

} // verus!
