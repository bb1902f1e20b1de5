use vstd::prelude::*;

verus! {

/// Every way in which a command on the profile store, or a session opened
/// from it, can fail.
#[derive(Clone, Copy, Debug, PartialEq, Eq, Structural)]
pub enum StoreError {
    /// No store file exists yet.
    NotConfigured,
    /// The store file does not hold a well-formed store.
    CorruptConfig,
    /// A profile with the requested name already exists.
    DuplicateName,
    /// No profile has the requested name.
    UnknownProfile,
    /// The active-profile pointer matches no profile.
    NoActiveProfile,
    /// The port is not an unsigned 32-bit decimal number.
    InvalidPort,
    /// The key derivation function refused its parameters or input.
    KeyDerivationError,
    /// The store or the key could not be written.
    PersistenceError,
    /// The secured transport could not be established.
    ConnectionError,
    /// The server rejected the bind.
    AuthError,
    /// Both removal and replacement were requested for one modification.
    AmbiguousModifyMode,
    /// A search was requested without a filter.
    MissingFilter,
}

} // verus!
