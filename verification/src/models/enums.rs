use vstd::prelude::*;
use vstd::string::StringExecFns;

verus! {

/// The platform families the vault distinguishes when it places its store.
#[derive(Clone, Copy, Debug, PartialEq, Eq, Structural)]
pub enum OperatingSystem {
    Windows,
    Linux,
    Mac,
    Other,
}

/// What went wrong, by cause.
#[derive(Clone, Copy, Debug, PartialEq, Eq, Structural)]
pub enum ErrorType {
    /// The storage collaborator failed or holds a record it should not.
    Sqlite,
    /// A file could not be read or written.
    IO,
    /// The cipher layers could not be keyed or did not return whole blocks.
    Nettle,
    /// The master passphrase does not open the stored secret key.
    AuthenticationFailure,
    /// A ciphertext is not a whole number of cipher blocks.
    InvalidCiphertextLength,
    /// Bytes that should be text are not valid text.
    InvalidEncoding,
    /// A record with that name is already stored.
    AlreadyExists,
}

/// The platform family that a platform name stands for.
pub open spec fn os_for_name(name: Seq<char>) -> OperatingSystem {
    if name == "linux"@ {
        OperatingSystem::Linux
    } else if name == "windows"@ {
        OperatingSystem::Windows
    } else if name == "macos"@ {
        OperatingSystem::Mac
    } else {
        OperatingSystem::Other
    }
}

/// Maps the platform name that the build reports to a platform family.
/// Every name is mapped; unknown ones become `Other`.
pub fn get_os_and_username(os_name: &str) -> (os: Option<OperatingSystem>)
    ensures
        os == Some(os_for_name(os_name@)),
{
    let name = String::from_str(os_name);
    if name == String::from_str("linux") {
        Some(OperatingSystem::Linux)
    } else if name == String::from_str("windows") {
        Some(OperatingSystem::Windows)
    } else if name == String::from_str("macos") {
        Some(OperatingSystem::Mac)
    } else {
        Some(OperatingSystem::Other)
    }
}

} // verus!
