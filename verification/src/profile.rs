use vstd::prelude::*;

use crate::getenv::Lookup;
use crate::lines::append_line;
use crate::lines::append_line_spec;
use crate::lines::prepend_line;
use crate::lines::prepend_line_spec;
use crate::lines::set_line;
use crate::lines::set_line_spec;

verus! {

/// A model of the Unix persistence target: the text of the profile file
/// the locator picked. Every mutation appends a line at the end; nothing
/// already in the file is rewritten. Repeating a `set` therefore
/// accumulates assignment lines — the shell sources the last one — while
/// the registry backend overwrites in place.
pub struct Profile {
    /// The file's text.
    pub text: String,
}

impl View for Profile {
    type V = Seq<char>;

    open spec fn view(&self) -> Seq<char> {
        self.text@
    }
}

impl Profile {
    /// The model of a profile file that currently holds `text`.
    pub fn from_text(text: String) -> (r: Profile)
        ensures
            r@ == text@,
    {
        Profile { text }
    }

    /// Appends the `export NAME=VALUE` line, without looking at what the
    /// file already holds.
    pub fn set(&mut self, name: &str, value: &str)
        ensures
            final (self)@ == old(self)@ + set_line_spec(name@, value@),
    {
        let line = set_line(name, value);
        self.text.append(line.as_str());
    }

    /// Appends the `export NAME="VALUE:$NAME"` line.
    pub fn append(&mut self, name: &str, value: &str)
        ensures
            final (self)@ == old(self)@ + append_line_spec(name@, value@),
    {
        let line = append_line(name, value);
        self.text.append(line.as_str());
    }

    /// Appends the `export NAME="$NAME:VALUE"` line.
    pub fn prepend(&mut self, name: &str, value: &str)
        ensures
            final (self)@ == old(self)@ + prepend_line_spec(name@, value@),
    {
        let line = prepend_line(name, value);
        self.text.append(line.as_str());
    }

    /// Appends a `set` line only when the process-environment lookup found
    /// nothing usable; a present, non-empty variable leaves the file
    /// untouched, byte for byte. On Unix, `get` reads the process
    /// environment rather than the profile, so presence is judged from the
    /// lookup handed in, and a fresh `set` here stays invisible to `get`
    /// until a new shell sources the profile.
    pub fn check_or_set(&mut self, lookup: &Lookup, name: &str, value: &str)
        ensures
            lookup.found_value() ==> *final (self) == *old(self),
            !lookup.found_value() ==> final (self)@ == old(self)@ + set_line_spec(name@, value@),
    {
        match lookup {
            Lookup::Present(s) => {
                if s.unicode_len() == 0 {
                    self.set(name, value);
                }
            },
            _ => {
                self.set(name, value);
            },
        }
    }
}

} // verus!
