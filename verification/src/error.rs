//! Error kinds for the credential store and the configuration bootstrap.

use vstd::prelude::*;
use vstd::string::*;

verus! {

/// Every failure the library and its callers distinguish.  Variants carry
/// enough context (a path, a user name, an underlying message) to be
/// actionable at the top level; no operation recovers from them.
#[derive(Debug)]
pub enum Error {
    /// No configuration file at the explicit path or at any probed location.
    ConfigNotFound,
    /// A configuration file was read but could not be parsed.
    ConfigInvalid,
    /// Reading or writing the configuration failed for another reason
    /// (permissions, disk); carries the underlying message.
    ConfigIoError(String),
    /// Config creation was asked to decide nothing about an existing file;
    /// carries the target path.
    ConfigAlreadyExists(String),
    /// The storage engine was unreachable or the connection string invalid.
    DatabaseConnectError(String),
    /// A user with this name already exists; carries the name.
    UserAlreadyExists(String),
    /// No user with this name exists; carries the name.
    UserNotFound(String),
    /// The password hashing primitive failed; carries its message.
    HashError(String),
    /// Any other failure of the underlying query execution.
    StorageQueryError(String),
}

/// The human-readable message for each error kind.
pub open spec fn spec_message(e: &Error) -> Seq<char> {
    match e {
        Error::ConfigNotFound => "The configuration file could not be found."@,
        Error::ConfigInvalid => "Invalid configuration."@,
        Error::ConfigIoError(m) => "Unable to read or write the configuration file: "@ + m@,
        Error::ConfigAlreadyExists(p) => "Unable to create config file at "@ + p@
            + ": the file already exists."@,
        Error::DatabaseConnectError(m) => "Unable to connect to the database: "@ + m@,
        Error::UserAlreadyExists(n) => "A user with name "@ + n@ + " already exists."@,
        Error::UserNotFound(n) => "No user found with the name "@ + n@ + "."@,
        Error::HashError(m) => "Unable to hash the password: "@ + m@,
        Error::StorageQueryError(m) => "Unable to query the database: "@ + m@,
    }
}

impl Error {
    /// Renders the error as one human-readable line.
    pub fn message(&self) -> (r: String)
        ensures
            r@ == spec_message(self),
    {
        match self {
            Error::ConfigNotFound => String::from_str(
                "The configuration file could not be found.",
            ),
            Error::ConfigInvalid => String::from_str("Invalid configuration."),
            Error::ConfigIoError(m) => String::from_str(
                "Unable to read or write the configuration file: ",
            ).concat(m.as_str()),
            Error::ConfigAlreadyExists(p) => String::from_str("Unable to create config file at ")
                .concat(p.as_str()).concat(": the file already exists."),
            Error::DatabaseConnectError(m) => String::from_str(
                "Unable to connect to the database: ",
            ).concat(m.as_str()),
            Error::UserAlreadyExists(n) => String::from_str("A user with name ").concat(
                n.as_str(),
            ).concat(" already exists."),
            Error::UserNotFound(n) => String::from_str("No user found with the name ").concat(
                n.as_str(),
            ).concat("."),
            Error::HashError(m) => String::from_str("Unable to hash the password: ").concat(
                m.as_str(),
            ),
            Error::StorageQueryError(m) => String::from_str("Unable to query the database: ")
                .concat(m.as_str()),
        }
    }
}

} // verus!
