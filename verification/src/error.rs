use vstd::prelude::*;

verus! {

/// The ways a persistence operation can fail.
///
/// Every failure is surfaced to the caller as one of these kinds; nothing is
/// swallowed and nothing is retried. The I/O layer around the library maps
/// its native errors onto the matching kind.
#[derive(Clone, Copy, Debug, PartialEq, Eq, Structural)]
pub enum EnvError {
    /// The user's home directory could not be resolved.
    NoHomeDirectory,
    /// No profile candidate could be opened for appending.
    ProfileUnwritable,
    /// `get`: the variable is not present.
    VariableNotFound,
    /// `get`: the variable's value is not valid text.
    UnsupportedEncoding,
    /// The per-user registry key could not be opened.
    RegistryOpenFailed,
    /// A registry value could not be written.
    RegistryWriteFailed,
}

} // verus!
