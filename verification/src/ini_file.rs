//! The flat key/value text form of the configuration: one `key=value` line
//! for each of the three values.

use crate::configuration::{
    address_list, addresses_of, format_addresses, parse_addresses, parse_port, port_of,
    AppConfiguration, ConfigurationModel, configuration_view,
};
use crate::error::ConfigurationRegistryKeys;
use crate::ip_address::{decimal_text, push_decimal};
use crate::text::{string_of, text_of_bytes};
use vstd::prelude::*;
use vstd::utf8::{decode_utf8, encode_utf8, valid_utf8};

verus! {

/// One line of a key/value text.
#[derive(Debug, Clone, PartialEq, Eq)]
pub enum IniItem {
    /// An empty line.
    Empty,
    /// A section header.
    Section { name: String },
    /// A key and its value.
    Value { key: String, value: String },
    /// A comment.
    Comment { text: String },
}

/// A line as a mathematical value.
pub enum IniItemModel {
    Empty,
    Section { name: Seq<char> },
    Value { key: Seq<char>, value: Seq<char> },
    Comment { text: Seq<char> },
}

impl View for IniItem {
    type V = IniItemModel;

    open spec fn view(&self) -> IniItemModel {
        match self {
            IniItem::Empty => IniItemModel::Empty,
            IniItem::Section { name } => IniItemModel::Section { name: name@ },
            IniItem::Value { key, value } => IniItemModel::Value { key: key@, value: value@ },
            IniItem::Comment { text } => IniItemModel::Comment { text: text@ },
        }
    }
}

/// The lines as mathematical values.
pub open spec fn item_models(items: Seq<IniItem>) -> Seq<IniItemModel> {
    Seq::new(items.len(), |i: int| items[i]@)
}

/// The lines held by an optional vector.
pub open spec fn items_view(items: Option<Vec<IniItem>>) -> Option<Seq<IniItemModel>> {
    match items {
        Some(lines) => Some(item_models(lines@)),
        None => None,
    }
}

/// The lines that `serde_ini`'s parser reads from `text`, or nothing where it
/// reports a syntax error.
pub uninterp spec fn ini_items_of(text: Seq<char>) -> Option<Seq<IniItemModel>>;

/// The line that writes `value` under `key`.
pub open spec fn ini_line(key: Seq<char>, value: Seq<char>) -> Seq<char> {
    key + seq!['='] + value + seq!['\r', '\n']
}

/// `serde_ini::Writer::write` of one `Item::Value`, with the default line
/// ending: the key, an equals sign, the value, a carriage return and a line feed.
#[verifier::external_body]
fn write_line(key: &str, value: &str) -> (line: String)
    ensures
        line@ == ini_line(key@, value@),
{
    let mut writer = serde_ini::Writer::new(Vec::new(), serde_ini::LineEnding::default());
    let _ = writer.write(&serde_ini::Item::Value { key: key.to_string(), value: value.to_string() });
    String::from_utf8_lossy(&writer.into_inner()).into_owned()
}

/// `serde_ini::Parser::from_str`, run to its end: every line of `text` as the
/// parser reads it, or nothing where it reports a syntax error.
#[verifier::external_body]
fn parse_items(text: &str) -> (items: Option<Vec<IniItem>>)
    ensures
        items_view(items) == ini_items_of(text@),
{
    let parsed: Result<Vec<serde_ini::Item>, _> = serde_ini::Parser::from_str(text).collect();
    Some(parsed.ok()?.into_iter().map(|item| match item {
        serde_ini::Item::Empty => IniItem::Empty,
        serde_ini::Item::Section { name } => IniItem::Section { name },
        serde_ini::Item::Value { key, value } => IniItem::Value { key, value },
        serde_ini::Item::Comment { text } => IniItem::Comment { text },
    }).collect())
}

/// The values written under `key` before the first section header, in order.
pub open spec fn occurrences(items: Seq<IniItemModel>, key: Seq<char>) -> Seq<Seq<char>>
    decreases items.len(),
{
    if items.len() == 0 {
        Seq::empty()
    } else {
        match items[0] {
            IniItemModel::Section { .. } => Seq::empty(),
            IniItemModel::Value { key: k, value } => if k == key {
                seq![value] + occurrences(items.skip(1), key)
            } else {
                occurrences(items.skip(1), key)
            },
            _ => occurrences(items.skip(1), key),
        }
    }
}

/// The value of `key`, where exactly one line before the first section header writes it.
pub open spec fn field(items: Seq<IniItemModel>, key: Seq<char>) -> Option<Seq<char>> {
    let found = occurrences(items, key);
    if found.len() == 1 {
        Some(found[0])
    } else {
        None
    }
}

/// The configuration written by the lines: each of the three values written
/// once, and the port a port.
pub open spec fn configuration_in(items: Seq<IniItemModel>) -> Option<ConfigurationModel> {
    let port = field(items, ConfigurationRegistryKeys::Port.name());
    let list = field(items, ConfigurationRegistryKeys::IpAddress.name());
    let secret = field(items, ConfigurationRegistryKeys::Secret.name());
    if port is Some && list is Some && secret is Some && port_of(port->0) is Some {
        Some(
            ConfigurationModel {
                port_number: port_of(port->0)->0,
                addresses: addresses_of(list->0),
                secret: secret->0,
            },
        )
    } else {
        None
    }
}

/// The configuration that the bytes of a file write, where they are text
/// that parses and holds the three values.
pub open spec fn decoded(bytes: Seq<u8>) -> Option<ConfigurationModel> {
    if !valid_utf8(bytes) {
        None
    } else {
        match ini_items_of(decode_utf8(bytes)) {
            Some(items) => configuration_in(items),
            None => None,
        }
    }
}

/// The text that writes the configuration: the port, the addresses and the
/// secret, a line each.
pub open spec fn document(configuration: ConfigurationModel) -> Seq<char> {
    ini_line(
        ConfigurationRegistryKeys::Port.name(),
        decimal_text(configuration.port_number as nat),
    ) + ini_line(
        ConfigurationRegistryKeys::IpAddress.name(),
        address_list(configuration.addresses),
    ) + ini_line(ConfigurationRegistryKeys::Secret.name(), configuration.secret)
}

/// The bytes of the file that writes the configuration.
pub open spec fn encoded(configuration: ConfigurationModel) -> Seq<u8> {
    encode_utf8(document(configuration))
}

/// The value that the lines give to `key`.
pub fn find_field(items: &Vec<IniItem>, key: &str) -> (value: Option<String>)
    ensures
        match value {
            Some(v) => field(item_models(items@), key@) == Some(v@),
            None => field(item_models(items@), key@) is None,
        },
{
    let ghost lines = item_models(items@);
    let ghost mut seen: Seq<Seq<char>> = Seq::empty();
    let wanted = String::from_str(key);
    let mut found: Option<String> = None;
    let mut count: usize = 0;
    let mut i: usize = 0;
    proof {
        assert(lines.skip(0) =~= lines);
        assert(seen + occurrences(lines, key@) =~= occurrences(lines, key@));
    }
    while i < items.len()
        invariant
            0 <= i <= items.len(),
            lines == item_models(items@),
            wanted@ == key@,
            count <= i,
            count == seen.len(),
            occurrences(lines, key@) == seen + occurrences(lines.skip(i as int), key@),
            count >= 1 ==> found is Some && found->0@ == seen[0],
        decreases items.len() - i,
    {
        proof {
            assert(lines.skip(i as int)[0] == items@[i as int]@);
            assert(lines.skip(i as int).skip(1) =~= lines.skip(i + 1));
        }
        match &items[i] {
            IniItem::Section { .. } => {
                proof {
                    assert(occurrences(lines.skip(items.len() as int), key@) =~= Seq::empty());
                }
                i = items.len();
            },
            IniItem::Value { key: k, value } => {
                if *k == wanted {
                    if count == 0 {
                        found = Some(value.clone());
                    }
                    proof {
                        assert(seen.push(value@) + occurrences(lines.skip(i + 1), key@) =~= seen
                            + occurrences(lines.skip(i as int), key@));
                        seen = seen.push(value@);
                    }
                    count += 1;
                }
                i += 1;
            },
            _ => {
                i += 1;
            },
        }
    }
    proof {
        assert(occurrences(lines, key@) =~= seen);
    }
    if count == 1 {
        found
    } else {
        None
    }
}

/// Reads the configuration that the bytes of a file write.
pub fn decode(bytes: &Vec<u8>) -> (configuration: Option<AppConfiguration>)
    ensures
        configuration_view(configuration) == decoded(bytes@),
{
    let text = text_of_bytes(bytes)?;
    let items = parse_items(text.as_str())?;
    configuration_from(&items)
}

/// Reads the configuration that the lines of a file write.
pub fn configuration_from(items: &Vec<IniItem>) -> (configuration: Option<AppConfiguration>)
    ensures
        configuration_view(configuration) == configuration_in(item_models(items@)),
{
    let port = find_field(items, ConfigurationRegistryKeys::Port.as_str())?;
    let list = find_field(items, ConfigurationRegistryKeys::IpAddress.as_str())?;
    let secret = find_field(items, ConfigurationRegistryKeys::Secret.as_str())?;
    let port_number = parse_port(port.as_str())?;
    Some(AppConfiguration { port_number, addresses: parse_addresses(list.as_str()), secret })
}

/// Writes the configuration as the bytes of a file.
pub fn encode(configuration: &AppConfiguration) -> (bytes: Vec<u8>)
    ensures
        bytes@ == encoded(configuration@),
{
    document_text(configuration).as_str().as_bytes_vec()
}

/// Writes the configuration as the text of a file.
pub fn document_text(configuration: &AppConfiguration) -> (text: String)
    ensures
        text@ == document(configuration@),
{
    let mut digits: Vec<char> = Vec::new();
    push_decimal(&mut digits, configuration.port_number);
    proof {
        assert(digits@ =~= decimal_text(configuration.port_number as nat));
    }
    let port = string_of(&digits);
    let list = format_addresses(&configuration.addresses);
    let mut text = write_line(ConfigurationRegistryKeys::Port.as_str(), port.as_str());
    let second = write_line(ConfigurationRegistryKeys::IpAddress.as_str(), list.as_str());
    let third = write_line(
        ConfigurationRegistryKeys::Secret.as_str(),
        configuration.secret.as_str(),
    );
    text.append(second.as_str());
    text.append(third.as_str());
    text
}

} // verus!
