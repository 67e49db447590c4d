use vstd::prelude::*;

use crate::error::EnvError;

verus! {

/// What reading a variable from the process environment can find. The
/// thin layer outside the library performs the read and reports it as one
/// of these; the library judges the outcome.
pub enum Lookup {
    /// The variable is set to this text.
    Present(String),
    /// The variable is not set.
    Absent,
    /// The variable is set, but its bytes are not valid text.
    NotText,
}

impl Lookup {
    /// A lookup that found usable text: present and non-empty.
    pub open spec fn found_value(&self) -> bool {
        self matches Lookup::Present(s) && s@.len() > 0
    }
}

/// The condition `check_or_set` acts on: whether the lookup found usable
/// text, that is, a present and non-empty value.
pub fn found_value(lookup: &Lookup) -> (r: bool)
    ensures
        r == lookup.found_value(),
{
    match lookup {
        Lookup::Present(s) => s.unicode_len() > 0,
        _ => false,
    }
}

/// Turns a process-environment lookup into what `get` reports: the value
/// when there is one; `VariableNotFound` when the variable is absent —
/// never a success with made-up text — and `UnsupportedEncoding` when the
/// value is not valid text.
pub fn get(lookup: Lookup) -> (r: Result<String, EnvError>)
    ensures
        lookup matches Lookup::Present(s) ==> (r matches Ok(v) && v == s),
        lookup is Absent ==> r == Err::<String, EnvError>(EnvError::VariableNotFound),
        lookup is NotText ==> r == Err::<String, EnvError>(EnvError::UnsupportedEncoding),
{
    match lookup {
        Lookup::Present(s) => Ok(s),
        Lookup::Absent => Err(EnvError::VariableNotFound),
        Lookup::NotText => Err(EnvError::UnsupportedEncoding),
    }
}

} // verus!
