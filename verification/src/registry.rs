//! The registry backend: the configuration as three named values under one key.

use crate::configuration::{
    address_list, addresses_of, format_addresses, parse_addresses, AppConfiguration,
    ConfigurationModel,
};
use crate::round_trip::law_address_list_round_trip;
use crate::error::{ConfigurationError, ConfigurationRegistryKeys, ErrorModel};
use crate::storage::{AppConfigurationStorage, StorageModel};
use vstd::prelude::*;

verus! {

/// What the registry holds under one name.
#[derive(Debug, Clone, PartialEq, Eq)]
pub enum RegistryValue {
    /// No value of that name.
    Absent,
    /// A string.
    Text(String),
    /// A 32-bit number.
    Number(u32),
    /// A value of another kind.
    Other,
}

/// The three values of the configuration.
#[derive(Debug, Clone, PartialEq, Eq)]
pub struct RegistryValues {
    pub ip_addresses: RegistryValue,
    pub port: RegistryValue,
    pub secret: RegistryValue,
}

/// What the registry holds under one name, as a mathematical value.
pub enum RegistryValueModel {
    Absent,
    Text(Seq<char>),
    Number(u32),
    Other,
}

impl View for RegistryValue {
    type V = RegistryValueModel;

    open spec fn view(&self) -> RegistryValueModel {
        match self {
            RegistryValue::Absent => RegistryValueModel::Absent,
            RegistryValue::Text(text) => RegistryValueModel::Text(text@),
            RegistryValue::Number(number) => RegistryValueModel::Number(*number),
            RegistryValue::Other => RegistryValueModel::Other,
        }
    }
}

/// The three values of the configuration, as mathematical values.
pub struct RegistryValuesModel {
    pub ip_addresses: RegistryValueModel,
    pub port: RegistryValueModel,
    pub secret: RegistryValueModel,
}

impl View for RegistryValues {
    type V = RegistryValuesModel;

    open spec fn view(&self) -> RegistryValuesModel {
        RegistryValuesModel {
            ip_addresses: self.ip_addresses@,
            port: self.port@,
            secret: self.secret@,
        }
    }
}

/// The values that hold a configuration: the comma-separated list of its
/// addresses as a string, its port as a number, and its secret as a string.
pub open spec fn values_for(configuration: ConfigurationModel) -> RegistryValuesModel {
    RegistryValuesModel {
        ip_addresses: RegistryValueModel::Text(address_list(configuration.addresses)),
        port: RegistryValueModel::Number(configuration.port_number as u32),
        secret: RegistryValueModel::Text(configuration.secret),
    }
}

/// The image of the configuration's registry key: its path, and its values
/// where the key exists.
#[derive(Debug, Clone, PartialEq, Eq)]
pub struct RegistryStorage {
    pub path: String,
    pub key: Option<RegistryValues>,
}

/// What the values hold: nothing where all three are absent; a configuration
/// where the addresses and the secret are strings and the port is a number
/// that a port can be; and something undecodable otherwise.
pub open spec fn values_model(values: RegistryValues) -> StorageModel {
    if values.ip_addresses is Absent && values.port is Absent && values.secret is Absent {
        StorageModel::Empty
    } else if values.ip_addresses is Text && values.port is Number && values.secret is Text
        && values.port->Number_0 <= u16::MAX {
        StorageModel::Holds(
            ConfigurationModel {
                port_number: values.port->Number_0 as u16,
                addresses: addresses_of(values.ip_addresses->Text_0@),
                secret: values.secret->Text_0@,
            },
        )
    } else {
        StorageModel::Invalid
    }
}

/// What reading one value gave.
#[derive(Debug, Clone, PartialEq, Eq)]
pub enum RegistryRead {
    /// What the registry holds under the name, which may be nothing.
    Value(RegistryValue),
    /// The registry refused the read.
    Failed,
}

/// The changes to make in the registry: the key first, then its values.
#[derive(Debug, Clone, PartialEq, Eq)]
pub struct RegistryChanges {
    /// Whether to create the key.
    pub create_key: bool,
    /// The values to set, if any; one that is absent is to be deleted.
    pub values: Option<RegistryValues>,
}

impl RegistryValue {
    /// A copy of the value.
    pub fn copy(&self) -> (copy: RegistryValue)
        ensures
            copy == *self,
    {
        match self {
            RegistryValue::Absent => RegistryValue::Absent,
            RegistryValue::Text(text) => RegistryValue::Text(text.clone()),
            RegistryValue::Number(number) => RegistryValue::Number(*number),
            RegistryValue::Other => RegistryValue::Other,
        }
    }
}

impl RegistryChanges {
    /// The failure to report where the key at `path` cannot be created.
    pub fn key_failure(path: &str) -> (error: ConfigurationError)
        ensures
            error@ == (ErrorModel::ConfigurationStorageUnwritable { path: path@ }),
    {
        ConfigurationError::ConfigurationStorageUnwritable { path: String::from_str(path) }
    }

    /// The failure to report where the value under `key` cannot be set or deleted.
    pub fn value_failure(key: ConfigurationRegistryKeys) -> (error: ConfigurationError)
        ensures
            error@ == ErrorModel::RegistryKeyNotWritable(key),
    {
        ConfigurationError::RegistryKeyNotWritable(key)
    }
}

impl RegistryStorage {
    /// The image of what was found: no key, or the key with what reading
    /// each of its three values gave. A read that the registry refused is a
    /// failure, and the first of them is reported: the addresses before the
    /// port, the port before the secret.
    pub fn load(path: String, key: Option<(RegistryRead, RegistryRead, RegistryRead)>) -> (outcome:
        Result<RegistryStorage, ConfigurationError>)
        ensures
            match key {
                None => outcome == Ok::<RegistryStorage, ConfigurationError>(
                    RegistryStorage { path, key: None },
                ),
                Some((RegistryRead::Failed, _, _)) => outcome matches Err(error) && error@
                    == ErrorModel::RegistryKeyNotReadable(ConfigurationRegistryKeys::IpAddress),
                Some((RegistryRead::Value(_), RegistryRead::Failed, _)) => {
                    outcome matches Err(error) && error@ == ErrorModel::RegistryKeyNotReadable(
                        ConfigurationRegistryKeys::Port,
                    )
                },
                Some((RegistryRead::Value(_), RegistryRead::Value(_), RegistryRead::Failed)) => {
                    outcome matches Err(error) && error@ == ErrorModel::RegistryKeyNotReadable(
                        ConfigurationRegistryKeys::Secret,
                    )
                },
                Some(
                    (
                        RegistryRead::Value(ip_addresses),
                        RegistryRead::Value(port),
                        RegistryRead::Value(secret),
                    ),
                ) => outcome == Ok::<RegistryStorage, ConfigurationError>(
                    RegistryStorage {
                        path,
                        key: Some(RegistryValues { ip_addresses, port, secret }),
                    },
                ),
            },
    {
        match key {
            None => Ok(RegistryStorage { path, key: None }),
            Some((ip_addresses, port, secret)) => {
                let ip_addresses = match ip_addresses {
                    RegistryRead::Value(value) => value,
                    RegistryRead::Failed => {
                        return Err(
                            ConfigurationError::RegistryKeyNotReadable(
                                ConfigurationRegistryKeys::IpAddress,
                            ),
                        );
                    },
                };
                let port = match port {
                    RegistryRead::Value(value) => value,
                    RegistryRead::Failed => {
                        return Err(
                            ConfigurationError::RegistryKeyNotReadable(
                                ConfigurationRegistryKeys::Port,
                            ),
                        );
                    },
                };
                let secret = match secret {
                    RegistryRead::Value(value) => value,
                    RegistryRead::Failed => {
                        return Err(
                            ConfigurationError::RegistryKeyNotReadable(
                                ConfigurationRegistryKeys::Secret,
                            ),
                        );
                    },
                };
                Ok(RegistryStorage { path, key: Some(RegistryValues { ip_addresses, port, secret }) })
            },
        }
    }

    /// The changes that turn what `self` shows into what `after` shows: the
    /// key is created where it was missing, and the three values are set. A
    /// key is never removed, so nothing leads to an image without one.
    pub fn changes(&self, after: &RegistryStorage) -> (changes: RegistryChanges)
        ensures
            changes.create_key <==> self.key is None && after.key is Some,
            changes.values == after.key,
    {
        match &after.key {
            None => RegistryChanges { create_key: false, values: None },
            Some(values) => RegistryChanges {
                create_key: self.key.is_none(),
                values: Some(
                    RegistryValues {
                        ip_addresses: values.ip_addresses.copy(),
                        port: values.port.copy(),
                        secret: values.secret.copy(),
                    },
                ),
            },
        }
    }

    /// The image of a key that does not exist.
    pub fn new(path: String) -> (storage: RegistryStorage)
        ensures
            storage.path == path,
            storage.key is None,
            storage.model() is Missing,
    {
        RegistryStorage { path, key: None }
    }
}

impl AppConfigurationStorage for RegistryStorage {
    open spec fn model(&self) -> StorageModel {
        match self.key {
            None => StorageModel::Missing,
            Some(values) => values_model(values),
        }
    }

    /// The three values hold every configuration.
    open spec fn holds(configuration: ConfigurationModel) -> bool {
        true
    }

    open spec fn location(&self) -> Seq<char> {
        self.path@
    }

    fn configuration_exists(&self) -> (present: bool) {
        match &self.key {
            None => false,
            Some(values) => match (&values.ip_addresses, &values.port, &values.secret) {
                (RegistryValue::Absent, RegistryValue::Absent, RegistryValue::Absent) => false,
                _ => true,
            },
        }
    }

    fn fetch(&self) -> (outcome: Result<AppConfiguration, ConfigurationError>) {
        match &self.key {
            None => Err(ConfigurationError::MissingConfigurationFile),
            Some(values) => match (&values.ip_addresses, &values.port, &values.secret) {
                (RegistryValue::Absent, RegistryValue::Absent, RegistryValue::Absent) => {
                    Err(ConfigurationError::MissingConfigurationFile)
                },
                (RegistryValue::Text(list), RegistryValue::Number(port), RegistryValue::Text(secret)) => {
                    if *port <= 65535 {
                        Ok(
                            AppConfiguration {
                                port_number: *port as u16,
                                addresses: parse_addresses(list.as_str()),
                                secret: secret.clone(),
                            },
                        )
                    } else {
                        Err(ConfigurationError::InvalidConfigurationFile)
                    }
                },
                _ => Err(ConfigurationError::InvalidConfigurationFile),
            },
        }
    }

    /// Sets the three values to those that hold `configuration`, where the
    /// key exists.
    fn save(&mut self, configuration: &AppConfiguration) -> (outcome: Result<
        (),
        ConfigurationError,
    >)
        ensures
            outcome is Ok ==> (final(self).key matches Some(values) && values@ == values_for(
                configuration@,
            )),
            outcome is Err ==> final(self).key == old(self).key,
            final(self).path == old(self).path,
    {
        if self.key.is_none() {
            return Err(ConfigurationError::ConfigurationStorageUnwritable { path: self.path.clone() });
        }
        let list = format_addresses(&configuration.addresses);
        proof {
            law_address_list_round_trip(configuration.addresses@);
        }
        self.key = Some(
            RegistryValues {
                ip_addresses: RegistryValue::Text(list),
                port: RegistryValue::Number(configuration.port_number as u32),
                secret: RegistryValue::Text(configuration.secret.clone()),
            },
        );
        Ok(())
    }

    fn delete(&mut self) -> (outcome: Result<(), ConfigurationError>) {
        if self.key.is_some() {
            self.key = Some(
                RegistryValues {
                    ip_addresses: RegistryValue::Absent,
                    port: RegistryValue::Absent,
                    secret: RegistryValue::Absent,
                },
            );
        }
        Ok(())
    }

    fn create_configuration_storage_if_not_exists(&mut self) -> (outcome: Result<
        (),
        ConfigurationError,
    >) {
        if self.key.is_none() {
            self.key = Some(
                RegistryValues {
                    ip_addresses: RegistryValue::Absent,
                    port: RegistryValue::Absent,
                    secret: RegistryValue::Absent,
                },
            );
        }
        Ok(())
    }
}

} // verus!
