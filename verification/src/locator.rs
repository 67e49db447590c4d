use vstd::prelude::*;

use crate::error::EnvError;

verus! {

/// The profile files a login shell may source, in the order the locator
/// tries them: prefer the most specific file that already exists.
#[derive(Clone, Copy, Debug, PartialEq, Eq, Structural)]
pub enum Candidate {
    /// `.bash_profile`
    BashProfile,
    /// `.bash_login`
    BashLogin,
    /// `.profile`
    Profile,
}

/// The file name of a candidate, relative to the home directory.
pub open spec fn candidate_name_spec(c: Candidate) -> Seq<char> {
    match c {
        Candidate::BashProfile => ".bash_profile"@,
        Candidate::BashLogin => ".bash_login"@,
        Candidate::Profile => ".profile"@,
    }
}

/// Returns the file name of a candidate, relative to the home directory.
pub fn candidate_name(c: Candidate) -> (r: &'static str)
    ensures
        r@ == candidate_name_spec(c),
{
    match c {
        Candidate::BashProfile => ".bash_profile",
        Candidate::BashLogin => ".bash_login",
        Candidate::Profile => ".profile",
    }
}

/// What the locator decides to do once every candidate has been probed.
#[derive(Clone, Copy, Debug, PartialEq, Eq, Structural)]
pub enum Selection {
    /// Open this already-existing candidate in append mode.
    Open(Candidate),
    /// No candidate was openable: create `.bash_profile` and append to it.
    Create,
}

/// Picks the persistence target among the profile candidates, given whether
/// each can be opened for appending as it stands (without creating it).
///
/// The chain mirrors login-shell sourcing precedence: `.bash_profile`,
/// then `.bash_login`, then `.profile`; only when none is openable is
/// `.bash_profile` created as the conventional default. Each candidate is
/// judged on its own flag alone, so no state leaks from one attempt into
/// the next, and no file is ever created for a skipped candidate.
pub fn find_profile(bash_profile: bool, bash_login: bool, profile: bool) -> (r: Selection)
    ensures
        bash_profile ==> r == Selection::Open(Candidate::BashProfile),
        !bash_profile && bash_login ==> r == Selection::Open(Candidate::BashLogin),
        !bash_profile && !bash_login && profile ==> r == Selection::Open(Candidate::Profile),
        !bash_profile && !bash_login && !profile ==> r == Selection::Create,
{
    if bash_profile {
        Selection::Open(Candidate::BashProfile)
    } else if bash_login {
        Selection::Open(Candidate::BashLogin)
    } else if profile {
        Selection::Open(Candidate::Profile)
    } else {
        Selection::Create
    }
}

/// The full path of a candidate under the given home directory.
pub open spec fn profile_path_spec(home: Seq<char>, c: Candidate) -> Seq<char> {
    home + "/"@ + candidate_name_spec(c)
}

/// Joins the home directory and a candidate's file name into one path.
pub fn profile_path(home: &str, c: Candidate) -> (r: String)
    ensures
        r@ == profile_path_spec(home@, c),
{
    let mut r = String::new();
    r.append(home);
    r.append("/");
    r.append(candidate_name(c));
    proof {
        assert(r@ =~= profile_path_spec(home@, c));
    }
    r
}

/// Relies on dirs::home_dir: the user's home directory, if the system knows
/// one. The value depends on the environment, so nothing is promised of it.
#[verifier::external_body]
fn home_dir_text() -> (r: Option<String>) {
    match dirs::home_dir() {
        Some(p) => Some(p.to_string_lossy().into_owned()),
        None => None,
    }
}

/// Resolves the home directory the Unix locator starts from, or reports
/// that none is available.
pub fn locate_home() -> (r: Result<String, EnvError>)
    ensures
        r is Err ==> r == Err::<String, EnvError>(EnvError::NoHomeDirectory),
{
    match home_dir_text() {
        Some(h) => Ok(h),
        None => Err(EnvError::NoHomeDirectory),
    }
}

} // verus!
