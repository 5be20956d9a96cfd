//! The file backends: the configuration as one file in one directory, in
//! the property-list form or in the key/value text form.

use crate::configuration::{configuration_view, AppConfiguration, ConfigurationModel};
use crate::error::{ConfigurationError, ErrorModel};
use crate::ini_file;
use crate::property_list;
use crate::property_list::bytes_view;
use crate::storage::{fetch_view, unit_view, AppConfigurationStorage, StorageModel};
use vstd::prelude::*;

verus! {

/// What is found where a file backend keeps its file.
#[derive(Debug, Clone, PartialEq, Eq)]
pub enum FileImage {
    /// The directory does not exist.
    NoDirectory,
    /// The directory exists and the file does not.
    NoFile,
    /// The file exists and holds these bytes.
    File(Vec<u8>),
}

/// What is found where a file backend keeps its file, as a mathematical value.
pub enum FileImageModel {
    NoDirectory,
    NoFile,
    File(Seq<u8>),
}

impl View for FileImage {
    type V = FileImageModel;

    open spec fn view(&self) -> FileImageModel {
        match self {
            FileImage::NoDirectory => FileImageModel::NoDirectory,
            FileImage::NoFile => FileImageModel::NoFile,
            FileImage::File(bytes) => FileImageModel::File(bytes@),
        }
    }
}

/// What reading the file gave.
#[derive(Debug, Clone, PartialEq, Eq)]
pub enum FileRead {
    /// There is no such file.
    NotFound,
    /// The file holds these bytes.
    Bytes(Vec<u8>),
    /// The file is there and could not be read.
    Failed,
}

/// What to do with the file.
#[derive(Debug, Clone, PartialEq, Eq)]
pub enum FileChange {
    /// Leave it as it is.
    Keep,
    /// Write it with these bytes, in place of what it held.
    Write(Vec<u8>),
    /// Remove it.
    Remove,
}

/// The changes to make on disk: the directory first, then the file.
#[derive(Debug, Clone, PartialEq, Eq)]
pub struct FileChanges {
    /// Whether to create the directory.
    pub create_directory: bool,
    pub file: FileChange,
}

/// What to do with the file, as a mathematical value.
pub enum FileChangeModel {
    Keep,
    Write(Seq<u8>),
    Remove,
}

impl View for FileChange {
    type V = FileChangeModel;

    open spec fn view(&self) -> FileChangeModel {
        match self {
            FileChange::Keep => FileChangeModel::Keep,
            FileChange::Write(bytes) => FileChangeModel::Write(bytes@),
            FileChange::Remove => FileChangeModel::Remove,
        }
    }
}

impl FileImageModel {
    /// What is found once the changes were made: a directory is created only
    /// where there is none, a file is written only into a directory, and
    /// only a file that is there is removed.
    pub open spec fn after(self, create_directory: bool, file: FileChangeModel) -> FileImageModel {
        let made = if create_directory && self is NoDirectory {
            FileImageModel::NoFile
        } else {
            self
        };
        match file {
            FileChangeModel::Keep => made,
            FileChangeModel::Write(bytes) => if made is NoDirectory {
                made
            } else {
                FileImageModel::File(bytes)
            },
            FileChangeModel::Remove => if made is File {
                FileImageModel::NoFile
            } else {
                made
            },
        }
    }
}

impl FileImage {
    /// The image of what was found: whether the directory exists and, where
    /// it does, what reading the file gave. A file that could not be read
    /// counts as one that cannot be decoded.
    pub fn load(directory_exists: bool, read: FileRead) -> (outcome: Result<
        FileImage,
        ConfigurationError,
    >)
        ensures
            match outcome {
                Ok(image) => image@ == if !directory_exists {
                    FileImageModel::NoDirectory
                } else {
                    match read {
                        FileRead::Bytes(bytes) => FileImageModel::File(bytes@),
                        _ => FileImageModel::NoFile,
                    }
                },
                Err(error) => error@ == ErrorModel::InvalidConfigurationFile,
            },
            outcome is Err <==> directory_exists && read is Failed,
    {
        if !directory_exists {
            return Ok(FileImage::NoDirectory);
        }
        match read {
            FileRead::NotFound => Ok(FileImage::NoFile),
            FileRead::Bytes(bytes) => Ok(FileImage::File(bytes)),
            FileRead::Failed => Err(ConfigurationError::InvalidConfigurationFile),
        }
    }

    /// The changes that turn what `self` shows into what `after` shows: the
    /// directory is created where it was missing, then the file is written
    /// or removed. A directory is never removed, so nothing leads to an
    /// image without one.
    pub fn changes(&self, after: &FileImage) -> (changes: FileChanges)
        ensures
            (after is NoDirectory ==> self is NoDirectory) ==> self@.after(
                changes.create_directory,
                changes.file@,
            ) == after@,
            changes.create_directory <==> self is NoDirectory && !(after is NoDirectory),
            changes.file@ == match *after {
                FileImage::File(bytes) => FileChangeModel::Write(bytes@),
                FileImage::NoFile => if self is File {
                    FileChangeModel::Remove
                } else {
                    FileChangeModel::Keep
                },
                FileImage::NoDirectory => FileChangeModel::Keep,
            },
    {
        let create_directory = match (self, after) {
            (_, FileImage::NoDirectory) => false,
            (FileImage::NoDirectory, _) => true,
            _ => false,
        };
        let file = match after {
            FileImage::File(bytes) => FileChange::Write(bytes.clone()),
            FileImage::NoFile => match self {
                FileImage::File(_) => FileChange::Remove,
                _ => FileChange::Keep,
            },
            FileImage::NoDirectory => FileChange::Keep,
        };
        FileChanges { create_directory, file }
    }
}

impl FileChanges {
    /// The failure to report where the directory at `path` cannot be created.
    pub fn directory_failure(path: &str) -> (error: ConfigurationError)
        ensures
            error@ == (ErrorModel::ConfigurationStorageUnwritable { path: path@ }),
    {
        ConfigurationError::ConfigurationStorageUnwritable { path: String::from_str(path) }
    }

    /// The failure to report where the file cannot be written or removed.
    pub fn file_failure() -> (error: ConfigurationError)
        ensures
            error@ == ErrorModel::ConfigurationFileUnwritable,
    {
        ConfigurationError::ConfigurationFileUnwritable
    }
}

/// A form in which a file holds the configuration.
pub trait FileFormat {
    /// The configuration that the bytes of a file hold, if any.
    spec fn decoded(bytes: Seq<u8>) -> Option<ConfigurationModel>;

    /// The bytes of the file that holds the configuration, where it can be written.
    spec fn encoded(configuration: ConfigurationModel) -> Option<Seq<u8>>;

    /// Reads the configuration from the bytes of a file.
    fn decode(bytes: &Vec<u8>) -> (configuration: Option<AppConfiguration>)
        ensures
            configuration_view(configuration) == Self::decoded(bytes@),
    ;

    /// Writes the configuration as the bytes of a file.
    fn encode(configuration: &AppConfiguration) -> (bytes: Option<Vec<u8>>)
        ensures
            bytes_view(bytes) == Self::encoded(configuration@),
    ;
}

/// The property-list form.
#[derive(Debug, Clone, Copy, PartialEq, Eq)]
pub struct Plist {}

/// The key/value text form.
#[derive(Debug, Clone, Copy, PartialEq, Eq)]
pub struct Ini {}

impl FileFormat for Plist {
    open spec fn decoded(bytes: Seq<u8>) -> Option<ConfigurationModel> {
        property_list::decoded(bytes)
    }

    open spec fn encoded(configuration: ConfigurationModel) -> Option<Seq<u8>> {
        property_list::encoded(configuration)
    }

    fn decode(bytes: &Vec<u8>) -> (configuration: Option<AppConfiguration>) {
        property_list::decode(bytes)
    }

    fn encode(configuration: &AppConfiguration) -> (bytes: Option<Vec<u8>>) {
        property_list::encode(configuration)
    }
}

impl FileFormat for Ini {
    open spec fn decoded(bytes: Seq<u8>) -> Option<ConfigurationModel> {
        ini_file::decoded(bytes)
    }

    open spec fn encoded(configuration: ConfigurationModel) -> Option<Seq<u8>> {
        Some(ini_file::encoded(configuration))
    }

    fn decode(bytes: &Vec<u8>) -> (configuration: Option<AppConfiguration>) {
        ini_file::decode(bytes)
    }

    fn encode(configuration: &AppConfiguration) -> (bytes: Option<Vec<u8>>) {
        Some(ini_file::encode(configuration))
    }
}

/// What the image holds, read in the form `F`.
pub open spec fn image_model<F: FileFormat>(image: FileImage) -> StorageModel {
    match image {
        FileImage::NoDirectory => StorageModel::Missing,
        FileImage::NoFile => StorageModel::Empty,
        FileImage::File(bytes) => match F::decoded(bytes@) {
            Some(configuration) => StorageModel::Holds(configuration),
            None => StorageModel::Invalid,
        },
    }
}

/// Whether the form `F` can hold the configuration: it can be written, and
/// reading what was written gives it back.
pub open spec fn format_holds<F: FileFormat>(configuration: ConfigurationModel) -> bool {
    F::encoded(configuration) is Some && F::decoded(F::encoded(configuration)->0) == Some(
        configuration,
    )
}

/// The image of the file that holds the configuration in the form `F`: the
/// bytes that the form gives for it, and nothing of what was there before.
pub open spec fn written_image<F: FileFormat>(configuration: ConfigurationModel) -> FileImageModel {
    match F::encoded(configuration) {
        Some(bytes) => FileImageModel::File(bytes),
        None => FileImageModel::NoFile,
    }
}

/// Reads the configuration from what was found, in the form `F`.
pub fn read_image<F: FileFormat>(image: &FileImage) -> (outcome: Result<
    AppConfiguration,
    ConfigurationError,
>)
    ensures
        fetch_view(outcome) == image_model::<F>(*image).fetched(),
{
    match image {
        FileImage::File(bytes) => match F::decode(bytes) {
            Some(configuration) => Ok(configuration),
            None => Err(ConfigurationError::InvalidConfigurationFile),
        },
        _ => Err(ConfigurationError::MissingConfigurationFile),
    }
}

/// Writes the configuration into the image of the directory at `path`, in
/// the form `F`. Nothing is written unless reading it would give the
/// configuration back.
pub fn write_image<F: FileFormat>(
    configuration: &AppConfiguration,
    image: &mut FileImage,
    path: &str,
) -> (outcome: Result<(), ConfigurationError>)
    ensures
        unit_view(outcome) == image_model::<F>(*old(image)).save_result(
            format_holds::<F>(configuration@),
            path@,
        ),
        image_model::<F>(*final(image)) == image_model::<F>(*old(image)).after_save(
            configuration@,
            format_holds::<F>(configuration@),
        ),
        outcome is Ok ==> final(image)@ == written_image::<F>(configuration@),
        outcome is Err ==> *final(image) == *old(image),
{
    let written = match F::encode(configuration) {
        Some(bytes) => {
            let read_back = F::decode(&bytes);
            Some((bytes, read_back))
        },
        None => None,
    };
    image.store(configuration, written, path)
}

impl FileImage {
    /// Puts into the image of the directory at `path` the bytes that were
    /// written for `configuration`, where there are any and what was read
    /// back from them is the configuration. Otherwise the image stays as it is.
    pub fn store(
        &mut self,
        configuration: &AppConfiguration,
        written: Option<(Vec<u8>, Option<AppConfiguration>)>,
        path: &str,
    ) -> (outcome: Result<(), ConfigurationError>)
        ensures
            *old(self) is NoDirectory ==> (outcome matches Err(error) && error@
                == (ErrorModel::ConfigurationStorageUnwritable { path: path@ })),
            !(*old(self) is NoDirectory) && !reads_back(configuration@, written) ==> (
            outcome matches Err(error) && error@ == ErrorModel::InvalidConfiguration),
            !(*old(self) is NoDirectory) && reads_back(configuration@, written) ==> outcome is Ok
                && Some(*final(self)) == image_of(written),
            outcome is Err ==> *final(self) == *old(self),
    {
        if let FileImage::NoDirectory = self {
            return Err(FileChanges::directory_failure(path));
        }
        match written {
            Some((bytes, Some(read_back))) => {
                if read_back.same_as(configuration) {
                    *self = FileImage::File(bytes);
                    Ok(())
                } else {
                    Err(ConfigurationError::InvalidConfiguration)
                }
            },
            _ => Err(ConfigurationError::InvalidConfiguration),
        }
    }
}

/// Whether bytes were written and what was read back from them is the configuration.
pub open spec fn reads_back(
    configuration: ConfigurationModel,
    written: Option<(Vec<u8>, Option<AppConfiguration>)>,
) -> bool {
    match written {
        Some((_, Some(read_back))) => read_back@ == configuration,
        _ => false,
    }
}

/// The image of a file with the bytes that were written, if any.
pub open spec fn image_of(written: Option<(Vec<u8>, Option<AppConfiguration>)>) -> Option<
    FileImage,
> {
    match written {
        Some((bytes, _)) => Some(FileImage::File(bytes)),
        None => None,
    }
}

impl Plist {
    /// Reads the configuration from what was found where the property list is kept.
    pub fn read_configuration(image: &FileImage) -> (outcome: Result<
        AppConfiguration,
        ConfigurationError,
    >)
        ensures
            fetch_view(outcome) == image_model::<Plist>(*image).fetched(),
    {
        read_image::<Plist>(image)
    }

    /// Writes the configuration as a property list into the image of the
    /// directory at `path`.
    pub fn write_configuration(
        configuration: &AppConfiguration,
        image: &mut FileImage,
        path: &str,
    ) -> (outcome: Result<(), ConfigurationError>)
        ensures
            unit_view(outcome) == image_model::<Plist>(*old(image)).save_result(
                format_holds::<Plist>(configuration@),
                path@,
            ),
            image_model::<Plist>(*final(image)) == image_model::<Plist>(*old(image)).after_save(
                configuration@,
                format_holds::<Plist>(configuration@),
            ),
            outcome is Ok ==> final(image)@ == written_image::<Plist>(configuration@),
            outcome is Err ==> *final(image) == *old(image),
    {
        write_image::<Plist>(configuration, image, path)
    }
}

/// The image of one directory and of the configuration file in it, which is
/// kept in the form `F`.
#[derive(Debug, Clone, PartialEq, Eq)]
pub struct FileStorage<F: FileFormat> {
    pub path: String,
    pub image: FileImage,
    pub format: F,
}

/// The backend that keeps a property list.
pub type PropertyListStorage = FileStorage<Plist>;

/// The backend that keeps a key/value text file.
pub type IniFileStorage = FileStorage<Ini>;

impl<F: FileFormat> FileStorage<F> {
    /// The image of a directory that does not exist.
    pub fn new(path: String, format: F) -> (storage: FileStorage<F>)
        ensures
            storage.path == path,
            storage.image == FileImage::NoDirectory,
            storage.model() is Missing,
    {
        FileStorage { path, image: FileImage::NoDirectory, format }
    }
}

impl<F: FileFormat> AppConfigurationStorage for FileStorage<F> {
    open spec fn model(&self) -> StorageModel {
        image_model::<F>(self.image)
    }

    open spec fn holds(configuration: ConfigurationModel) -> bool {
        format_holds::<F>(configuration)
    }

    open spec fn location(&self) -> Seq<char> {
        self.path@
    }

    fn configuration_exists(&self) -> (present: bool) {
        match &self.image {
            FileImage::File(_) => true,
            _ => false,
        }
    }

    fn fetch(&self) -> (outcome: Result<AppConfiguration, ConfigurationError>) {
        read_image::<F>(&self.image)
    }

    /// Puts the file that holds `configuration` in place of what the
    /// directory held, where the directory exists and the form can hold it.
    fn save(&mut self, configuration: &AppConfiguration) -> (outcome: Result<
        (),
        ConfigurationError,
    >)
        ensures
            outcome is Ok ==> final(self).image@ == written_image::<F>(configuration@),
            outcome is Err ==> final(self).image == old(self).image,
            final(self).path == old(self).path,
    {
        write_image::<F>(configuration, &mut self.image, self.path.as_str())
    }

    fn delete(&mut self) -> (outcome: Result<(), ConfigurationError>) {
        if let FileImage::File(_) = &self.image {
            self.image = FileImage::NoFile;
        }
        Ok(())
    }

    fn create_configuration_storage_if_not_exists(&mut self) -> (outcome: Result<
        (),
        ConfigurationError,
    >) {
        if let FileImage::NoDirectory = &self.image {
            self.image = FileImage::NoFile;
        }
        Ok(())
    }
}

} // verus!
