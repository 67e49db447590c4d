use vstd::prelude::*;

verus! {

/// The text a `set` appends to a Unix profile: a newline, then
/// `export NAME=VALUE`, then the line terminator. The value is written
/// verbatim; callers quote shell-sensitive values themselves.
pub open spec fn set_line_spec(name: Seq<char>, value: Seq<char>) -> Seq<char> {
    "\nexport "@ + name + "="@ + value + "\n"@
}

/// The text an `append` appends to a Unix profile:
/// `export NAME="VALUE:$NAME"`. The new segment stands before the `$NAME`
/// expansion, so a shell that sources the line sees it first; the
/// registry-list backend instead adds new segments at the end. That
/// asymmetry is deliberate and kept as each backend's native convention.
pub open spec fn append_line_spec(name: Seq<char>, value: Seq<char>) -> Seq<char> {
    "\nexport "@ + name + "=\""@ + value + ":$"@ + name + "\"\n"@
}

/// The text a `prepend` appends to a Unix profile:
/// `export NAME="$NAME:VALUE"` — the mirror image of [`append_line_spec`],
/// with the new segment after the `$NAME` expansion.
pub open spec fn prepend_line_spec(name: Seq<char>, value: Seq<char>) -> Seq<char> {
    "\nexport "@ + name + "=\"$"@ + name + ":"@ + value + "\"\n"@
}

/// Builds the profile line for `set(name, value)`.
pub fn set_line(name: &str, value: &str) -> (r: String)
    ensures
        r@ == set_line_spec(name@, value@),
{
    let mut r = String::new();
    r.append("\nexport ");
    r.append(name);
    r.append("=");
    r.append(value);
    r.append("\n");
    proof {
        assert(r@ =~= set_line_spec(name@, value@));
    }
    r
}

/// Builds the profile line for `append(name, value)`.
pub fn append_line(name: &str, value: &str) -> (r: String)
    ensures
        r@ == append_line_spec(name@, value@),
{
    let mut r = String::new();
    r.append("\nexport ");
    r.append(name);
    r.append("=\"");
    r.append(value);
    r.append(":$");
    r.append(name);
    r.append("\"\n");
    proof {
        assert(r@ =~= append_line_spec(name@, value@));
    }
    r
}

/// Builds the profile line for `prepend(name, value)`.
pub fn prepend_line(name: &str, value: &str) -> (r: String)
    ensures
        r@ == prepend_line_spec(name@, value@),
{
    let mut r = String::new();
    r.append("\nexport ");
    r.append(name);
    r.append("=\"$");
    r.append(name);
    r.append(":");
    r.append(value);
    r.append("\"\n");
    proof {
        assert(r@ =~= prepend_line_spec(name@, value@));
    }
    r
}

} // verus!
