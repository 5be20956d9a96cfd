//! Where each platform keeps the configuration: machine-wide for the
//! privileged account, per user for everyone else.

use crate::configuration::AppConfiguration;
use crate::text::{chars_of, string_of};
use vstd::prelude::*;

verus! {

/// The platforms, each with its own backend.
#[derive(Debug, Clone, Copy, PartialEq, Eq, Structural)]
pub enum Platform {
    /// A property list under an application-support directory.
    MacOs,
    /// A key/value text file under the system configuration directory.
    Linux,
    /// Three values under a registry key.
    Windows,
}

/// Whose configuration a location holds.
#[derive(Debug, Clone, Copy, PartialEq, Eq, Structural)]
pub enum Scope {
    /// The machine's, shared by every account.
    Machine,
    /// One user's.
    User,
}

/// Who runs the program: the account's name and, where known, its home directory.
#[derive(Debug, Clone, PartialEq, Eq)]
pub struct Identity {
    pub username: String,
    pub home: Option<String>,
}

/// `whoami::username`: the name of the account that runs the program.
/// Nothing is claimed of it: it is the operating system's to say.
#[verifier::external_body]
fn current_username() -> (username: String) {
    whoami::username()
}

/// `dirs::home_dir`: the home directory of the account that runs the
/// program, where there is one and its path is text. Nothing is claimed of it.
#[verifier::external_body]
fn home_directory() -> (home: Option<String>) {
    dirs::home_dir().and_then(|path| path.into_os_string().into_string().ok())
}

impl Identity {
    /// The identity under which the program runs.
    pub fn current() -> Identity {
        Identity { username: current_username(), home: home_directory() }
    }
}

/// The scope that an account resolves to: machine-wide for the privileged
/// account, which is `root` and on Windows `SYSTEM`, and per user for any other.
pub open spec fn scope_for(platform: Platform, username: Seq<char>) -> Scope {
    let privileged = if platform == Platform::Windows {
        "SYSTEM"@
    } else {
        "root"@
    };
    if username == privileged {
        Scope::Machine
    } else {
        Scope::User
    }
}

/// `base` with `name` behind it as one more component: a separator stands
/// between them unless `base` is empty or ends in one.
pub open spec fn joined(base: Seq<char>, name: Seq<char>, separator: char) -> Seq<char> {
    if base.len() == 0 || base.last() == separator {
        base + name
    } else {
        base + seq![separator] + name
    }
}

/// The directory or key under which the configuration is kept, or nothing
/// where it lies under a home directory that is not known.
pub open spec fn storage_path(platform: Platform, username: Seq<char>, home: Option<Seq<char>>) -> Option<
    Seq<char>,
> {
    match platform {
        Platform::Linux => Some("/etc"@),
        Platform::Windows => Some(joined("SOFTWARE"@, "ShutdownOnLan"@, '\\')),
        Platform::MacOs => match scope_for(platform, username) {
            Scope::Machine => Some("/Library/Application Support/ShutdownOnLan"@),
            Scope::User => match home {
                Some(directory) => Some(
                    joined(
                        joined(joined(directory, "Library"@, '/'), "Application Support"@, '/'),
                        "ShutdownOnLan"@,
                        '/',
                    ),
                ),
                None => None,
            },
        },
    }
}

/// The file that holds the configuration, where the platform keeps it in a file.
pub open spec fn file_path(platform: Platform, username: Seq<char>, home: Option<Seq<char>>) -> Option<
    Seq<char>,
> {
    match storage_path(platform, username, home) {
        Some(directory) => match platform {
            Platform::Linux => Some(joined(directory, "ShutDownOnLan"@, '/')),
            Platform::MacOs => Some(joined(directory, "ShutDownOnLan.plist"@, '/')),
            Platform::Windows => None,
        },
        None => None,
    }
}

/// An optional text as a mathematical value.
pub open spec fn text_view(text: Option<String>) -> Option<Seq<char>> {
    match text {
        Some(t) => Some(t@),
        None => None,
    }
}

/// Puts `name` behind `base` as one more component of a path.
pub fn join_path(base: &str, name: &str, separator: char) -> (path: String)
    ensures
        path@ == joined(base@, name@, separator),
{
    let mut chars = chars_of(base);
    if chars.len() > 0 && chars[chars.len() - 1] != separator {
        chars.push(separator);
    }
    let mut rest = chars_of(name);
    chars.append(&mut rest);
    proof {
        assert(chars@ =~= joined(base@, name@, separator));
    }
    string_of(&chars)
}

impl Identity {
    /// Whether the configuration of this account is the machine's or its own.
    pub fn scope(&self, platform: Platform) -> (scope: Scope)
        ensures
            scope == scope_for(platform, self.username@),
    {
        let privileged = match platform {
            Platform::Windows => String::from_str("SYSTEM"),
            _ => String::from_str("root"),
        };
        if self.username == privileged {
            Scope::Machine
        } else {
            Scope::User
        }
    }
}

impl AppConfiguration {
    /// The directory or key under which `platform` keeps the configuration
    /// of `identity`.
    pub fn configuration_storage_path(platform: Platform, identity: &Identity) -> (path: Option<
        String,
    >)
        ensures
            text_view(path) == storage_path(platform, identity.username@, text_view(identity.home)),
    {
        match platform {
            Platform::Linux => Some(String::from_str("/etc")),
            Platform::Windows => Some(join_path("SOFTWARE", "ShutdownOnLan", '\\')),
            Platform::MacOs => match identity.scope(platform) {
                Scope::Machine => Some(
                    String::from_str("/Library/Application Support/ShutdownOnLan"),
                ),
                Scope::User => match &identity.home {
                    Some(directory) => {
                        let library = join_path(directory.as_str(), "Library", '/');
                        let support = join_path(library.as_str(), "Application Support", '/');
                        Some(join_path(support.as_str(), "ShutdownOnLan", '/'))
                    },
                    None => None,
                },
            },
        }
    }

    /// The file in which `platform` keeps the configuration of `identity`.
    pub fn configuration_file_path(platform: Platform, identity: &Identity) -> (path: Option<String>)
        ensures
            text_view(path) == file_path(platform, identity.username@, text_view(identity.home)),
    {
        match AppConfiguration::configuration_storage_path(platform, identity) {
            Some(directory) => match platform {
                Platform::Linux => Some(join_path(directory.as_str(), "ShutDownOnLan", '/')),
                Platform::MacOs => Some(join_path(directory.as_str(), "ShutDownOnLan.plist", '/')),
                Platform::Windows => None,
            },
            None => None,
        }
    }
}

} // verus!
