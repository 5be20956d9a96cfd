//! The property-list form of the configuration: a dictionary with one entry
//! for each of the three values.

use crate::configuration::{
    address_list, addresses_of, format_addresses, parse_addresses, AppConfiguration,
    ConfigurationModel, configuration_view,
};
use crate::error::ConfigurationRegistryKeys;
use vstd::prelude::*;

verus! {

/// A value of a property list, of one of the kinds that the configuration uses.
#[derive(Debug, Clone, PartialEq, Eq)]
pub enum PlistField {
    /// An integer that is not negative.
    Integer(u64),
    /// A string.
    Text(String),
}

/// A property-list value as a mathematical value.
pub enum PlistFieldModel {
    Integer(u64),
    Text(Seq<char>),
}

impl View for PlistField {
    type V = PlistFieldModel;

    open spec fn view(&self) -> PlistFieldModel {
        match self {
            PlistField::Integer(n) => PlistFieldModel::Integer(*n),
            PlistField::Text(text) => PlistFieldModel::Text(text@),
        }
    }
}

/// The entries to write, as mathematical values.
pub open spec fn written_view(entries: Seq<(String, PlistField)>) -> Seq<
    (Seq<char>, PlistFieldModel),
> {
    Seq::new(entries.len(), |i: int| (entries[i].0@, entries[i].1@))
}

/// A value that was read, as a mathematical value: nothing for a value of another kind.
pub open spec fn field_view(field: Option<PlistField>) -> Option<PlistFieldModel> {
    match field {
        Some(f) => Some(f@),
        None => None,
    }
}

/// Entries that were read, as mathematical values.
pub open spec fn entry_models(entries: Seq<(String, Option<PlistField>)>) -> Seq<
    (Seq<char>, Option<PlistFieldModel>),
> {
    Seq::new(entries.len(), |i: int| (entries[i].0@, field_view(entries[i].1)))
}

/// The entries that were read, if any, as mathematical values.
pub open spec fn read_view(entries: Option<Vec<(String, Option<PlistField>)>>) -> Option<
    Seq<(Seq<char>, Option<PlistFieldModel>)>,
> {
    match entries {
        Some(list) => Some(entry_models(list@)),
        None => None,
    }
}

/// Optional bytes as a mathematical value.
pub open spec fn bytes_view(bytes: Option<Vec<u8>>) -> Option<Seq<u8>> {
    match bytes {
        Some(b) => Some(b@),
        None => None,
    }
}

/// The XML document that `plist` writes for a dictionary with these entries,
/// or nothing where it reports an error.
pub uninterp spec fn plist_xml_of(entries: Seq<(Seq<char>, PlistFieldModel)>) -> Option<Seq<u8>>;

/// Whether a date element starts at index `i` of the bytes: the name `date`
/// right behind the `<` that opens a tag, or behind the `:` that ends a
/// namespace prefix.
pub open spec fn date_at(bytes: Seq<u8>, i: int) -> bool {
    &&& 1 <= i
    &&& i + 4 <= bytes.len()
    &&& (bytes[i - 1] == 0x3c || bytes[i - 1] == 0x3a)
    &&& bytes[i] == 0x64
    &&& bytes[i + 1] == 0x61
    &&& bytes[i + 2] == 0x74
    &&& bytes[i + 3] == 0x65
}

/// Whether the bytes may hold a date element. The configuration has no use
/// for a date, and the reader converts each one it meets, which it cannot
/// do for every date that it accepts.
pub open spec fn holds_date(bytes: Seq<u8>) -> bool {
    exists|i: int| date_at(bytes, i)
}

/// The entries of the dictionary that `plist` reads from the bytes of a
/// document that holds no date element, or nothing where it reports an error
/// or the document is no dictionary.
pub uninterp spec fn plist_entries_of(bytes: Seq<u8>) -> Option<
    Seq<(Seq<char>, Option<PlistFieldModel>)>,
>;

/// `plist::Value::to_writer_xml` on a dictionary with the given entries: the
/// bytes of the XML document.
#[verifier::external_body]
fn write_document(entries: &Vec<(String, PlistField)>) -> (bytes: Option<Vec<u8>>)
    ensures
        bytes_view(bytes) == plist_xml_of(written_view(entries@)),
{
    let dictionary: plist::Dictionary = entries.iter().map(|(key, field)| (key.clone(), match field {
        PlistField::Integer(n) => plist::Value::from(*n),
        PlistField::Text(text) => plist::Value::from(text.as_str()),
    })).collect();
    let mut bytes = Vec::new();
    plist::Value::Dictionary(dictionary).to_writer_xml(&mut bytes).ok()?;
    Some(bytes)
}

/// `plist::Value::from_reader` on the bytes of a document, and the entries of
/// the dictionary that it gives. An integer is kept where it is not negative,
/// a string as it is, and a value of another kind as nothing. Bytes that may
/// hold a date element are left out: the reader panics on a date that it
/// accepts and cannot bring to universal time.
#[verifier::external_body]
fn read_document(bytes: &Vec<u8>) -> (entries: Option<Vec<(String, Option<PlistField>)>>)
    requires
        !holds_date(bytes@),
    ensures
        read_view(entries) == plist_entries_of(bytes@),
{
    let value = plist::Value::from_reader(std::io::Cursor::new(bytes)).ok()?;
    Some(value.into_dictionary()?.into_iter().map(|(key, value)| (key, match value {
        plist::Value::Integer(n) => n.as_unsigned().map(PlistField::Integer),
        plist::Value::String(text) => Some(PlistField::Text(text)),
        _ => None,
    })).collect())
}

/// The value of the first entry under `key`, where it is of a kind that the
/// configuration uses.
pub open spec fn lookup(entries: Seq<(Seq<char>, Option<PlistFieldModel>)>, key: Seq<char>) -> Option<
    PlistFieldModel,
>
    decreases entries.len(),
{
    if entries.len() == 0 {
        None
    } else if entries[0].0 == key {
        entries[0].1
    } else {
        lookup(entries.skip(1), key)
    }
}

/// The configuration that the entries hold: the port an integer that a port
/// can be, the addresses and the secret strings.
pub open spec fn configuration_in(entries: Seq<(Seq<char>, Option<PlistFieldModel>)>) -> Option<
    ConfigurationModel,
> {
    let port = lookup(entries, ConfigurationRegistryKeys::Port.name());
    let list = lookup(entries, ConfigurationRegistryKeys::IpAddress.name());
    let secret = lookup(entries, ConfigurationRegistryKeys::Secret.name());
    if port is Some && port->0 is Integer && port->0->Integer_0 <= u16::MAX && list is Some
        && list->0 is Text && secret is Some && secret->0 is Text {
        Some(
            ConfigurationModel {
                port_number: port->0->Integer_0 as u16,
                addresses: addresses_of(list->0->Text_0),
                secret: secret->0->Text_0,
            },
        )
    } else {
        None
    }
}

/// The configuration that the bytes of a document hold. A document that may
/// hold a date element holds none.
pub open spec fn decoded(bytes: Seq<u8>) -> Option<ConfigurationModel> {
    if holds_date(bytes) {
        None
    } else {
        match plist_entries_of(bytes) {
            Some(entries) => configuration_in(entries),
            None => None,
        }
    }
}

/// The entries that write the configuration.
pub open spec fn entries_of(configuration: ConfigurationModel) -> Seq<(Seq<char>, PlistFieldModel)> {
    seq![
        (
            ConfigurationRegistryKeys::Port.name(),
            PlistFieldModel::Integer(configuration.port_number as u64),
        ),
        (
            ConfigurationRegistryKeys::IpAddress.name(),
            PlistFieldModel::Text(address_list(configuration.addresses)),
        ),
        (ConfigurationRegistryKeys::Secret.name(), PlistFieldModel::Text(configuration.secret)),
    ]
}

/// The bytes of the document that writes the configuration, where the
/// writer gives one.
pub open spec fn encoded(configuration: ConfigurationModel) -> Option<Seq<u8>> {
    plist_xml_of(entries_of(configuration))
}

/// The value that the entries give to `key`.
pub fn find_entry(entries: &Vec<(String, Option<PlistField>)>, key: &str) -> (field: Option<
    PlistField,
>)
    ensures
        field_view(field) == lookup(entry_models(entries@), key@),
{
    let ghost all = entry_models(entries@);
    let wanted = String::from_str(key);
    let mut i: usize = 0;
    proof {
        assert(all.skip(0) =~= all);
    }
    while i < entries.len()
        invariant
            0 <= i <= entries.len(),
            all == entry_models(entries@),
            wanted@ == key@,
            lookup(all, key@) == lookup(all.skip(i as int), key@),
        decreases entries.len() - i,
    {
        proof {
            assert(all.skip(i as int)[0] == all[i as int]);
            assert(all.skip(i as int).skip(1) =~= all.skip(i + 1));
        }
        if entries[i].0 == wanted {
            return match &entries[i].1 {
                Some(PlistField::Integer(n)) => Some(PlistField::Integer(*n)),
                Some(PlistField::Text(text)) => Some(PlistField::Text(text.clone())),
                None => None,
            };
        }
        i += 1;
    }
    None
}

/// Reads the configuration that the bytes of a document hold.
pub fn decode(bytes: &Vec<u8>) -> (configuration: Option<AppConfiguration>)
    ensures
        configuration_view(configuration) == decoded(bytes@),
{
    if mentions_date(bytes) {
        return None;
    }
    let entries = read_document(bytes)?;
    configuration_from(&entries)
}

/// Whether the bytes may hold a date element.
pub fn mentions_date(bytes: &Vec<u8>) -> (found: bool)
    ensures
        found == holds_date(bytes@),
{
    let len = bytes.len();
    if len < 5 {
        return false;
    }
    let mut i: usize = 1;
    while i <= len - 4
        invariant
            1 <= i <= len - 3,
            len == bytes.len(),
            len >= 5,
            forall|j: int| j < i ==> !date_at(bytes@, j),
        decreases len - i,
    {
        if (bytes[i - 1] == 0x3c || bytes[i - 1] == 0x3a) && bytes[i] == 0x64 && bytes[i + 1]
            == 0x61 && bytes[i + 2] == 0x74 && bytes[i + 3] == 0x65 {
            assert(date_at(bytes@, i as int));
            return true;
        }
        i += 1;
    }
    false
}

/// Reads the configuration that the entries of a dictionary hold.
pub fn configuration_from(entries: &Vec<(String, Option<PlistField>)>) -> (configuration: Option<
    AppConfiguration,
>)
    ensures
        configuration_view(configuration) == configuration_in(entry_models(entries@)),
{
    let port = find_entry(entries, ConfigurationRegistryKeys::Port.as_str());
    let list = find_entry(entries, ConfigurationRegistryKeys::IpAddress.as_str());
    let secret = find_entry(entries, ConfigurationRegistryKeys::Secret.as_str());
    match (port, list, secret) {
        (Some(PlistField::Integer(n)), Some(PlistField::Text(list)), Some(PlistField::Text(secret))) => {
            if n <= 65535 {
                Some(
                    AppConfiguration {
                        port_number: n as u16,
                        addresses: parse_addresses(list.as_str()),
                        secret,
                    },
                )
            } else {
                None
            }
        },
        _ => None,
    }
}

/// Writes the configuration as the bytes of a document.
pub fn encode(configuration: &AppConfiguration) -> (bytes: Option<Vec<u8>>)
    ensures
        bytes_view(bytes) == encoded(configuration@),
{
    write_document(&entries_for(configuration))
}

/// The entries of the dictionary that holds the configuration.
pub fn entries_for(configuration: &AppConfiguration) -> (entries: Vec<(String, PlistField)>)
    ensures
        written_view(entries@) == entries_of(configuration@),
{
    let mut entries: Vec<(String, PlistField)> = Vec::new();
    entries.push(
        (
            String::from_str(ConfigurationRegistryKeys::Port.as_str()),
            PlistField::Integer(configuration.port_number as u64),
        ),
    );
    entries.push(
        (
            String::from_str(ConfigurationRegistryKeys::IpAddress.as_str()),
            PlistField::Text(format_addresses(&configuration.addresses)),
        ),
    );
    entries.push(
        (
            String::from_str(ConfigurationRegistryKeys::Secret.as_str()),
            PlistField::Text(configuration.secret.clone()),
        ),
    );
    proof {
        assert(written_view(entries@) =~= entries_of(configuration@));
    }
    entries
}

} // verus!
