//! The configuration store: one contract over every backend, stated over
//! what the backend holds, and the operations built on it.

use crate::configuration::{default_configuration, AppConfiguration, ConfigurationModel};
use crate::error::{ConfigurationError, ErrorModel};
use vstd::prelude::*;

verus! {

/// What a backend holds at its location.
pub enum StorageModel {
    /// The location itself, a directory or a key, does not exist.
    Missing,
    /// The location exists and holds no configuration.
    Empty,
    /// Something is stored that cannot be decoded.
    Invalid,
    /// This configuration is stored.
    Holds(ConfigurationModel),
}

impl StorageModel {
    /// Whether a configuration is present, decodable or not.
    pub open spec fn present(self) -> bool {
        self is Invalid || self is Holds
    }

    /// What fetching finds.
    pub open spec fn fetched(self) -> Result<ConfigurationModel, ErrorModel> {
        match self {
            StorageModel::Missing => Err(ErrorModel::MissingConfigurationFile),
            StorageModel::Empty => Err(ErrorModel::MissingConfigurationFile),
            StorageModel::Invalid => Err(ErrorModel::InvalidConfigurationFile),
            StorageModel::Holds(configuration) => Ok(configuration),
        }
    }

    /// How saving ends, for a configuration that the backend can hold or not,
    /// at a location named `location`.
    pub open spec fn save_result(self, holds: bool, location: Seq<char>) -> Result<(), ErrorModel> {
        if self is Missing {
            Err(ErrorModel::ConfigurationStorageUnwritable { path: location })
        } else if !holds {
            Err(ErrorModel::InvalidConfiguration)
        } else {
            Ok(())
        }
    }

    /// What is held after saving `configuration`: the configuration where
    /// saving succeeds, and what was held before where it fails.
    pub open spec fn after_save(self, configuration: ConfigurationModel, holds: bool) -> Self {
        if self is Missing || !holds {
            self
        } else {
            StorageModel::Holds(configuration)
        }
    }

    /// What is held after deleting: no configuration.
    pub open spec fn after_delete(self) -> Self {
        if self is Missing {
            self
        } else {
            StorageModel::Empty
        }
    }

    /// What is held once the location was made sure of.
    pub open spec fn after_create_storage(self) -> Self {
        if self is Missing {
            StorageModel::Empty
        } else {
            self
        }
    }

    /// How making sure of a configuration ends, where the backend can hold
    /// the default configuration or not.
    pub open spec fn create_configuration_result(self, holds_default: bool) -> Result<
        (),
        ErrorModel,
    > {
        if self.present() || holds_default {
            Ok(())
        } else {
            Err(ErrorModel::InvalidConfiguration)
        }
    }

    /// What is held once a configuration was made sure of: what was present
    /// before, or else the default configuration.
    pub open spec fn after_create_configuration(self, holds_default: bool) -> Self {
        if self.present() {
            self
        } else if holds_default {
            StorageModel::Holds(default_configuration())
        } else {
            StorageModel::Empty
        }
    }

    /// How validating ends: with the failure of making sure of a
    /// configuration, or else with that of fetching it.
    pub open spec fn validate_result(self, holds_default: bool) -> Result<(), ErrorModel> {
        match self.create_configuration_result(holds_default) {
            Err(error) => Err(error),
            Ok(_) => match self.after_create_configuration(holds_default).fetched() {
                Ok(_) => Ok(()),
                Err(error) => Err(error),
            },
        }
    }
}

/// The outcome of a fetch as a mathematical value.
pub open spec fn fetch_view(outcome: Result<AppConfiguration, ConfigurationError>) -> Result<
    ConfigurationModel,
    ErrorModel,
> {
    match outcome {
        Ok(configuration) => Ok(configuration@),
        Err(error) => Err(error@),
    }
}

/// The outcome of an operation that returns nothing as a mathematical value.
pub open spec fn unit_view(outcome: Result<(), ConfigurationError>) -> Result<(), ErrorModel> {
    match outcome {
        Ok(_) => Ok(()),
        Err(error) => Err(error@),
    }
}

/// A backend that persists the configuration. Each holds, in memory, the
/// image of what is stored at one location.
pub trait AppConfigurationStorage {
    /// What the backend holds.
    spec fn model(&self) -> StorageModel;

    /// Whether the backend's stored form can hold `configuration`, so that
    /// decoding what was encoded gives it back.
    spec fn holds(configuration: ConfigurationModel) -> bool;

    /// The name of the location: a directory's path or a key's.
    spec fn location(&self) -> Seq<char>;

    /// Whether a configuration is present at the location.
    fn configuration_exists(&self) -> (present: bool)
        ensures
            present == self.model().present(),
    ;

    /// Decodes what is stored.
    fn fetch(&self) -> (outcome: Result<AppConfiguration, ConfigurationError>)
        ensures
            fetch_view(outcome) == self.model().fetched(),
    ;

    /// Stores `configuration` in place of what was stored. After a save that
    /// succeeds, fetching gives the configuration back.
    fn save(&mut self, configuration: &AppConfiguration) -> (outcome: Result<
        (),
        ConfigurationError,
    >)
        ensures
            unit_view(outcome) == old(self).model().save_result(
                Self::holds(configuration@),
                old(self).location(),
            ),
            final(self).model() == old(self).model().after_save(
                configuration@,
                Self::holds(configuration@),
            ),
            final(self).location() == old(self).location(),
            outcome is Ok ==> final(self).model().fetched() == Ok::<
                ConfigurationModel,
                ErrorModel,
            >(configuration@),
    ;

    /// Removes what is stored, if anything.
    fn delete(&mut self) -> (outcome: Result<(), ConfigurationError>)
        ensures
            outcome is Ok,
            final(self).model() == old(self).model().after_delete(),
            final(self).location() == old(self).location(),
    ;

    /// Creates the location if it does not exist.
    fn create_configuration_storage_if_not_exists(&mut self) -> (outcome: Result<
        (),
        ConfigurationError,
    >)
        ensures
            outcome is Ok,
            final(self).model() == old(self).model().after_create_storage(),
            final(self).location() == old(self).location(),
    ;
}

impl AppConfiguration {
    /// Decodes the configuration that `storage` holds.
    pub fn fetch<S: AppConfigurationStorage>(storage: &S) -> (outcome: Result<
        AppConfiguration,
        ConfigurationError,
    >)
        ensures
            fetch_view(outcome) == storage.model().fetched(),
    {
        storage.fetch()
    }

    /// Stores this configuration in `storage`.
    pub fn save<S: AppConfigurationStorage>(&self, storage: &mut S) -> (outcome: Result<
        (),
        ConfigurationError,
    >)
        ensures
            unit_view(outcome) == old(storage).model().save_result(
                S::holds(self@),
                old(storage).location(),
            ),
            final(storage).model() == old(storage).model().after_save(self@, S::holds(self@)),
            final(storage).location() == old(storage).location(),
            outcome is Ok ==> final(storage).model().fetched() == Ok::<
                ConfigurationModel,
                ErrorModel,
            >(self@),
    {
        storage.save(self)
    }

    /// Removes the configuration that `storage` holds, if any.
    pub fn delete<S: AppConfigurationStorage>(&self, storage: &mut S) -> (outcome: Result<
        (),
        ConfigurationError,
    >)
        ensures
            outcome is Ok,
            final(storage).model() == old(storage).model().after_delete(),
            final(storage).location() == old(storage).location(),
    {
        storage.delete()
    }

    /// Creates the location of `storage` if it does not exist.
    pub fn create_configuration_storage_if_not_exists<S: AppConfigurationStorage>(
        storage: &mut S,
    ) -> (outcome: Result<(), ConfigurationError>)
        ensures
            outcome is Ok,
            final(storage).model() == old(storage).model().after_create_storage(),
            final(storage).location() == old(storage).location(),
    {
        storage.create_configuration_storage_if_not_exists()
    }

    /// Makes sure that `storage` holds a configuration: creates the location
    /// if need be and, where no configuration is present, stores the default one.
    pub fn create_configuration_if_not_exists<S: AppConfigurationStorage>(storage: &mut S) -> (outcome:
        Result<(), ConfigurationError>)
        ensures
            unit_view(outcome) == old(storage).model().create_configuration_result(
                S::holds(default_configuration()),
            ),
            final(storage).model() == old(storage).model().after_create_configuration(
                S::holds(default_configuration()),
            ),
            final(storage).location() == old(storage).location(),
    {
        let _ = storage.create_configuration_storage_if_not_exists();
        if storage.configuration_exists() {
            return Ok(());
        }
        let configuration = AppConfiguration::default();
        storage.save(&configuration)
    }

    /// Makes sure that `storage` holds a configuration, then fetches it to
    /// see that it can be decoded.
    pub fn validate<S: AppConfigurationStorage>(storage: &mut S) -> (outcome: Result<
        (),
        ConfigurationError,
    >)
        ensures
            unit_view(outcome) == old(storage).model().validate_result(
                S::holds(default_configuration()),
            ),
            final(storage).model() == old(storage).model().after_create_configuration(
                S::holds(default_configuration()),
            ),
            final(storage).location() == old(storage).location(),
            outcome is Ok ==> final(storage).model() is Holds,
    {
        match AppConfiguration::create_configuration_if_not_exists(storage) {
            Err(error) => Err(error),
            Ok(_) => match storage.fetch() {
                Ok(_) => Ok(()),
                Err(error) => Err(error),
            },
        }
    }
}

/// Saving and then fetching gives the saved configuration back: where a save
/// succeeds, what is held afterwards is fetched as the configuration saved.
pub proof fn law_save_then_fetch(
    before: StorageModel,
    configuration: ConfigurationModel,
    holds: bool,
    location: Seq<char>,
)
    requires
        before.save_result(holds, location) is Ok,
    ensures
        before.after_save(configuration, holds).fetched() == Ok::<ConfigurationModel, ErrorModel>(
            configuration,
        ),
{
}

/// Saving over what is stored replaces it whole: on a backend that can hold
/// the new configuration the save succeeds wherever the location exists,
/// and what is held afterwards is the new configuration, whatever was held
/// before.
pub proof fn law_save_replaces_what_was_stored(
    before: StorageModel,
    other: StorageModel,
    configuration: ConfigurationModel,
    location: Seq<char>,
)
    requires
        !(before is Missing),
        !(other is Missing),
    ensures
        before.save_result(true, location) is Ok,
        before.after_save(configuration, true) == StorageModel::Holds(configuration),
        before.after_save(configuration, true) == other.after_save(configuration, true),
        before.after_save(configuration, true).fetched() == Ok::<ConfigurationModel, ErrorModel>(
            configuration,
        ),
{
}

/// Making sure of a configuration twice is the same as doing so once: the
/// second time succeeds and changes nothing.
pub proof fn law_create_configuration_is_idempotent(before: StorageModel, holds_default: bool)
    ensures
        before.after_create_configuration(holds_default).after_create_configuration(
            holds_default,
        ) == before.after_create_configuration(holds_default),
        before.create_configuration_result(holds_default) is Ok
            ==> before.after_create_configuration(holds_default).create_configuration_result(
            holds_default,
        ) is Ok,
{
}

/// Where nothing was ever stored, fetching reports that the configuration is
/// missing, and validating, on a backend that can hold the default
/// configuration, succeeds and leaves that configuration stored.
pub proof fn law_first_run(before: StorageModel)
    requires
        before is Missing || before is Empty,
    ensures
        before.fetched() == Err::<ConfigurationModel, ErrorModel>(
            ErrorModel::MissingConfigurationFile,
        ),
        before.validate_result(true) is Ok,
        before.after_create_configuration(true) == StorageModel::Holds(default_configuration()),
{
}

} // verus!
