use vstd::prelude::*;

use crate::split::join_spec;
use crate::split::join_str;
use crate::split::split_spec;
use crate::split::split_str;
use crate::text::contains_seq;
use crate::text::contains_str;

verus! {

/// The line before which generated commands are inserted in the
/// PowerShell profile script.
pub open spec fn marker_line_spec() -> Seq<char> {
    "# ----------------------------------SET_ENV_DEFS_END"@
}

/// Whether a script's text carries both sentinel markers that bracket the
/// generated region.
pub open spec fn has_markers_spec(content: Seq<char>) -> bool {
    &&& contains_seq(content, "# ----------------------------------SET_ENV_BEG"@)
    &&& contains_seq(content, "# ----------------------------------SET_ENV_END"@)
}

/// Tests whether the script's text carries both sentinel markers.
pub fn has_markers(content: &str) -> (r: bool)
    ensures
        r == has_markers_spec(content@),
{
    contains_str(content, "# ----------------------------------SET_ENV_BEG") && contains_str(
        content,
        "# ----------------------------------SET_ENV_END",
    )
}

/// The content the PowerShell profile script must have before anything is
/// injected: a missing script becomes the template; a script that already
/// carries both sentinel markers stays as it is; one without them gets a
/// line break and the template appended.
pub fn do_prerequisites(content: Option<&str>, template: &str) -> (r: String)
    ensures
        content is None ==> r@ == template@,
        content matches Some(c) ==> r@ == (if has_markers_spec(c@) {
            c@
        } else {
            c@ + "\r\n"@ + template@
        }),
{
    match content {
        None => String::from_str(template),
        Some(c) => {
            if has_markers(c) {
                String::from_str(c)
            } else {
                let mut r = String::from_str(c);
                r.append("\r\n");
                r.append(template);
                proof {
                    assert(r@ =~= c@ + "\r\n"@ + template@);
                }
                r
            }
        },
    }
}

/// The position of the first part equal to `x` at or after `from`, or
/// `-1` when there is none.
pub open spec fn first_eq_index(parts: Seq<Seq<char>>, x: Seq<char>, from: int) -> int
    decreases parts.len() - from,
{
    if from < 0 || from >= parts.len() {
        -1
    } else if parts[from] == x {
        from
    } else {
        first_eq_index(parts, x, from + 1)
    }
}

/// What `first_eq_index` finds: the first equal part, or `-1` exactly
/// when no part at or after `from` is equal.
proof fn lemma_first_eq_index(parts: Seq<Seq<char>>, x: Seq<char>, from: int)
    requires
        0 <= from,
    ensures
        first_eq_index(parts, x, from) >= 0 ==> from <= first_eq_index(parts, x, from)
            < parts.len() && parts[first_eq_index(parts, x, from)] == x && (forall|j: int|
            from <= j < first_eq_index(parts, x, from) ==> parts[j] != x),
        first_eq_index(parts, x, from) < 0 ==> forall|j: int|
            from <= j < parts.len() ==> parts[j] != x,
    decreases parts.len() - from,
{
    if from < parts.len() && parts[from] != x {
        lemma_first_eq_index(parts, x, from + 1);
    }
}

/// The script's text after inserting `command` as a new line immediately
/// before the first line that is exactly the end-of-definitions marker,
/// or nothing when no line is that marker. Lines are the `\r\n`-separated
/// parts of the text.
pub open spec fn injected_spec(content: Seq<char>, command: Seq<char>) -> Option<Seq<char>> {
    let parts = split_spec(content, "\r\n"@);
    let i = first_eq_index(parts, marker_line_spec(), 0);
    if i < 0 {
        None
    } else {
        Some(join_spec(parts.insert(i, command), "\r\n"@))
    }
}

/// Inserts a generated command line immediately before the
/// end-of-definitions marker line, keeping every other line as it was.
/// A script whose lines never equal the marker yields nothing.
pub fn inject(content: &str, command: &str) -> (r: Option<String>)
    ensures
        r is Some <==> injected_spec(content@, command@) is Some,
        r matches Some(out) ==> injected_spec(content@, command@) == Some(out@),
{
    proof {
        reveal_strlit("\r\n");
    }
    let mut parts = split_str(content, "\r\n");
    let marker = String::from_str("# ----------------------------------SET_ENV_DEFS_END");
    let n = parts.len();
    let mut i: usize = 0;
    while i < n
        invariant
            n == parts.deep_view().len(),
            i <= n,
            marker@ == marker_line_spec(),
            parts.deep_view() == split_spec(content@, "\r\n"@),
            forall|j: int| 0 <= j < i ==> parts.deep_view()[j] != marker_line_spec(),
        decreases n - i,
    {
        if parts[i] == marker {
            let ghost dv0 = parts.deep_view();
            proof {
                lemma_first_eq_index(dv0, marker_line_spec(), 0);
                if first_eq_index(dv0, marker_line_spec(), 0) != i {
                    assert(dv0[i as int] == marker_line_spec());
                    assert(false);
                }
            }
            parts.insert(i, String::from_str(command));
            proof {
                assert(parts.deep_view() =~= dv0.insert(i as int, command@));
            }
            let out = join_str(&parts, "\r\n");
            return Some(out);
        }
        i += 1;
    }
    proof {
        lemma_first_eq_index(parts.deep_view(), marker_line_spec(), 0);
    }
    None
}

/// The deferred command a Windows `set` injects, applied at the next
/// shell start: `setenv_set NAME VALUE`.
pub fn set_command(name: &str, value: &str) -> (r: String)
    ensures
        r@ == "setenv_set "@ + name@ + " "@ + value@,
{
    let mut r = String::from_str("setenv_set ");
    r.append(name);
    r.append(" ");
    r.append(value);
    proof {
        assert(r@ =~= "setenv_set "@ + name@ + " "@ + value@);
    }
    r
}

/// The deferred command a Windows `append` injects:
/// `setenv_append NAME VALUE`.
pub fn append_command(name: &str, value: &str) -> (r: String)
    ensures
        r@ == "setenv_append "@ + name@ + " "@ + value@,
{
    let mut r = String::from_str("setenv_append ");
    r.append(name);
    r.append(" ");
    r.append(value);
    proof {
        assert(r@ =~= "setenv_append "@ + name@ + " "@ + value@);
    }
    r
}

/// The deferred command a Windows `prepend` injects:
/// `setenv_prepend NAME VALUE`.
pub fn prepend_command(name: &str, value: &str) -> (r: String)
    ensures
        r@ == "setenv_prepend "@ + name@ + " "@ + value@,
{
    let mut r = String::from_str("setenv_prepend ");
    r.append(name);
    r.append(" ");
    r.append(value);
    proof {
        assert(r@ =~= "setenv_prepend "@ + name@ + " "@ + value@);
    }
    r
}

/// The deferred command a Windows `check_or_set` injects:
/// `setenv_set_if_not_exist NAME VALUE`.
pub fn check_or_set_command(name: &str, value: &str) -> (r: String)
    ensures
        r@ == "setenv_set_if_not_exist "@ + name@ + " "@ + value@,
{
    let mut r = String::from_str("setenv_set_if_not_exist ");
    r.append(name);
    r.append(" ");
    r.append(value);
    proof {
        assert(r@ =~= "setenv_set_if_not_exist "@ + name@ + " "@ + value@);
    }
    r
}

/// The PowerShell profile script's path under the documents directory.
pub open spec fn script_path_spec(docs: Seq<char>) -> Seq<char> {
    docs + "/WindowsPowerShell/Profile.ps1"@
}

/// Joins the documents directory and the profile script's fixed relative
/// path. The caller resolves the documents directory itself and reports
/// its own error when the system knows none.
pub fn script_path(docs: &str) -> (r: String)
    ensures
        r@ == script_path_spec(docs@),
{
    let mut r = String::from_str(docs);
    r.append("/WindowsPowerShell/Profile.ps1");
    r
}

} // verus!
