//! The ways in which loading or storing the configuration fails.

use vstd::prelude::*;

verus! {

/// The three values under which the registry backend keeps the configuration.
#[derive(Debug, Clone, Copy, PartialEq, Eq, Hash, Structural)]
pub enum ConfigurationRegistryKeys {
    IpAddress,
    Port,
    Secret,
}

impl ConfigurationRegistryKeys {
    /// The name of the value.
    pub open spec fn name(self) -> Seq<char> {
        match self {
            ConfigurationRegistryKeys::IpAddress => "ip_addresses"@,
            ConfigurationRegistryKeys::Port => "port"@,
            ConfigurationRegistryKeys::Secret => "secret"@,
        }
    }

    /// The name under which the value is kept.
    pub fn as_str(&self) -> (name: &'static str)
        ensures
            name@ == self.name(),
    {
        match self {
            ConfigurationRegistryKeys::IpAddress => "ip_addresses",
            ConfigurationRegistryKeys::Port => "port",
            ConfigurationRegistryKeys::Secret => "secret",
        }
    }
}

/// A failure of the configuration store.
#[derive(Debug, Clone, PartialEq, Eq)]
pub enum ConfigurationError {
    /// Nothing is stored at the location.
    MissingConfigurationFile,
    /// What is stored cannot be decoded.
    InvalidConfigurationFile,
    /// The configuration cannot be written in the backend's form.
    InvalidConfiguration,
    /// A registry value could not be read.
    RegistryKeyNotReadable(ConfigurationRegistryKeys),
    /// A registry value could not be written.
    RegistryKeyNotWritable(ConfigurationRegistryKeys),
    /// The storage location, named by `path`, cannot be written to.
    ConfigurationStorageUnwritable { path: String },
    /// The stored form itself cannot be written.
    ConfigurationFileUnwritable,
}

/// A failure as a mathematical value.
pub enum ErrorModel {
    MissingConfigurationFile,
    InvalidConfigurationFile,
    InvalidConfiguration,
    RegistryKeyNotReadable(ConfigurationRegistryKeys),
    RegistryKeyNotWritable(ConfigurationRegistryKeys),
    ConfigurationStorageUnwritable { path: Seq<char> },
    ConfigurationFileUnwritable,
}

impl View for ConfigurationError {
    type V = ErrorModel;

    open spec fn view(&self) -> ErrorModel {
        match self {
            ConfigurationError::MissingConfigurationFile => ErrorModel::MissingConfigurationFile,
            ConfigurationError::InvalidConfigurationFile => ErrorModel::InvalidConfigurationFile,
            ConfigurationError::InvalidConfiguration => ErrorModel::InvalidConfiguration,
            ConfigurationError::RegistryKeyNotReadable(key) => ErrorModel::RegistryKeyNotReadable(
                *key,
            ),
            ConfigurationError::RegistryKeyNotWritable(key) => ErrorModel::RegistryKeyNotWritable(
                *key,
            ),
            ConfigurationError::ConfigurationStorageUnwritable { path } => {
                ErrorModel::ConfigurationStorageUnwritable { path: path@ }
            },
            ConfigurationError::ConfigurationFileUnwritable => {
                ErrorModel::ConfigurationFileUnwritable
            },
        }
    }
}

impl ErrorModel {
    /// The sentence that reports the failure.
    pub open spec fn message(self) -> Seq<char> {
        match self {
            ErrorModel::MissingConfigurationFile => "No Configuration File at Path"@,
            ErrorModel::InvalidConfigurationFile => "Contents of Configuration File Are Invalid"@,
            ErrorModel::InvalidConfiguration => {
                "The configuration file in memory can't be converted to an on-disk representation"@
            },
            ErrorModel::RegistryKeyNotReadable(_) => "Unable to read to a registry key"@,
            ErrorModel::RegistryKeyNotWritable(_) => "Unable to write to a registry key"@,
            ErrorModel::ConfigurationStorageUnwritable { .. } => {
                "Unable to write to configuration storage directory"@
            },
            ErrorModel::ConfigurationFileUnwritable => {
                "Unable to write to configuration file: 73"@
            },
        }
    }
}

impl ConfigurationError {
    /// The sentence that reports the failure to the operator.
    pub fn message(&self) -> (text: String)
        ensures
            text@ == self@.message(),
    {
        let text = match self {
            ConfigurationError::MissingConfigurationFile => "No Configuration File at Path",
            ConfigurationError::InvalidConfigurationFile => {
                "Contents of Configuration File Are Invalid"
            },
            ConfigurationError::InvalidConfiguration => {
                "The configuration file in memory can't be converted to an on-disk representation"
            },
            ConfigurationError::RegistryKeyNotReadable(_) => "Unable to read to a registry key",
            ConfigurationError::RegistryKeyNotWritable(_) => "Unable to write to a registry key",
            ConfigurationError::ConfigurationStorageUnwritable { .. } => {
                "Unable to write to configuration storage directory"
            },
            ConfigurationError::ConfigurationFileUnwritable => {
                "Unable to write to configuration file: 73"
            },
        };
        String::from_str(text)
    }
}

} // verus!
