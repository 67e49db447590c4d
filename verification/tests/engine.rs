use set_env::error::EnvError;
use set_env::getenv::Lookup;
use set_env::lines::append_line;
use set_env::lines::prepend_line;
use set_env::lines::set_line;
use set_env::locator::find_profile;
use set_env::locator::profile_path;
use set_env::locator::Candidate;
use set_env::locator::Selection;
use set_env::profile::Profile;
use set_env::registry::Registry;

#[test]
fn set_line_exact_text() {
    assert_eq!(set_line("DUMMY", "1"), "\nexport DUMMY=1\n");
}

#[test]
fn set_line_empty_value() {
    assert_eq!(set_line("DUMMY", ""), "\nexport DUMMY=\n");
}

#[test]
fn set_line_keeps_raw_quoting() {
    assert_eq!(set_line("DUMMY", "\"/something\""), "\nexport DUMMY=\"/something\"\n");
}

#[test]
fn append_line_exact_text() {
    assert_eq!(append_line("PATH", "X"), "\nexport PATH=\"X:$PATH\"\n");
}

#[test]
fn prepend_line_exact_text() {
    assert_eq!(prepend_line("PATH", "X"), "\nexport PATH=\"$PATH:X\"\n");
}

#[test]
fn append_line_home_segment() {
    assert_eq!(
        append_line("PATH", "$HOME/some/cool/bin"),
        "\nexport PATH=\"$HOME/some/cool/bin:$PATH\"\n"
    );
}

#[test]
fn profile_set_appends_line() {
    let mut p = Profile::from_text(String::from("# mine\n"));
    p.set("DUMMY", "1");
    assert_eq!(p.text, "# mine\n\nexport DUMMY=1\n");
}

#[test]
fn profile_set_twice_accumulates_lines() {
    let mut p = Profile::from_text(String::new());
    p.set("DUMMY", "1");
    p.set("DUMMY", "2");
    assert_eq!(p.text, "\nexport DUMMY=1\n\nexport DUMMY=2\n");
}

#[test]
fn profile_append_then_prepend() {
    let mut p = Profile::from_text(String::new());
    p.append("PATH", "X");
    p.prepend("PATH", "Y");
    assert_eq!(p.text, "\nexport PATH=\"X:$PATH\"\n\nexport PATH=\"$PATH:Y\"\n");
}

#[test]
fn profile_check_or_set_present_keeps_text() {
    let mut p = Profile::from_text(String::from("# mine\n"));
    p.check_or_set(&Lookup::Present(String::from("1")), "DUMMY", "2");
    assert_eq!(p.text, "# mine\n");
}

#[test]
fn profile_check_or_set_absent_appends_one_set_line() {
    let mut p = Profile::from_text(String::from("# mine\n"));
    p.check_or_set(&Lookup::Absent, "DUMMY", "2");
    assert_eq!(p.text, "# mine\n\nexport DUMMY=2\n");
}

#[test]
fn profile_check_or_set_empty_value_sets() {
    let mut p = Profile::from_text(String::new());
    p.check_or_set(&Lookup::Present(String::new()), "DUMMY", "2");
    assert_eq!(p.text, "\nexport DUMMY=2\n");
}

#[test]
fn found_value_judges_presence_and_content() {
    assert!(set_env::getenv::found_value(&Lookup::Present(String::from("x"))));
    assert!(!set_env::getenv::found_value(&Lookup::Present(String::new())));
    assert!(!set_env::getenv::found_value(&Lookup::Absent));
    assert!(!set_env::getenv::found_value(&Lookup::NotText));
}

#[test]
fn get_present_returns_value() {
    assert_eq!(set_env::getenv::get(Lookup::Present(String::from("v"))), Ok(String::from("v")));
}

#[test]
fn get_absent_is_not_found_error() {
    assert_eq!(set_env::getenv::get(Lookup::Absent), Err(EnvError::VariableNotFound));
}

#[test]
fn get_not_text_is_unsupported_error() {
    assert_eq!(set_env::getenv::get(Lookup::NotText), Err(EnvError::UnsupportedEncoding));
}

#[test]
fn registry_set_then_get_returns_written_value() {
    let mut reg = Registry::new();
    reg.set("DUMMY", "1");
    assert_eq!(reg.get("DUMMY"), Ok(String::from("1")));
}

#[test]
fn registry_set_overwrites() {
    let mut reg = Registry::new();
    reg.set("DUMMY", "1");
    reg.set("DUMMY", "2");
    assert_eq!(reg.get("DUMMY"), Ok(String::from("2")));
    reg.set("OTHER", "3");
    assert_eq!(reg.get("DUMMY"), Ok(String::from("2")));
    assert_eq!(reg.get("OTHER"), Ok(String::from("3")));
}

#[test]
fn registry_get_absent_is_not_found_error() {
    let reg = Registry::new();
    assert_eq!(reg.get("NOPE"), Err(EnvError::VariableNotFound));
}

#[test]
fn registry_append_twice_keeps_one_segment() {
    let mut reg = Registry::new();
    reg.set("PATH", "a;b");
    reg.append("PATH", "c");
    assert_eq!(reg.get("PATH"), Ok(String::from("a;b;c")));
    reg.append("PATH", "c");
    assert_eq!(reg.get("PATH"), Ok(String::from("a;b;c")));
}

#[test]
fn registry_append_existing_segment_changes_nothing() {
    let mut reg = Registry::new();
    reg.set("PATH", "a;b");
    reg.append("PATH", "a");
    assert_eq!(reg.get("PATH"), Ok(String::from("a;b")));
}

#[test]
fn registry_append_to_unset_starts_the_list() {
    let mut reg = Registry::new();
    reg.append("PATH", "c");
    assert_eq!(reg.get("PATH"), Ok(String::from("c")));
}

#[test]
fn registry_prepend_twice_inserts_at_front_once() {
    let mut reg = Registry::new();
    reg.set("PATH", "a;b");
    reg.prepend("PATH", "c");
    assert_eq!(reg.get("PATH"), Ok(String::from("c;a;b")));
    reg.prepend("PATH", "c");
    assert_eq!(reg.get("PATH"), Ok(String::from("c;a;b")));
}

#[test]
fn registry_prepend_existing_segment_changes_nothing() {
    let mut reg = Registry::new();
    reg.set("PATH", "a;b");
    reg.prepend("PATH", "b");
    assert_eq!(reg.get("PATH"), Ok(String::from("a;b")));
}

#[test]
fn registry_check_or_set_present_leaves_store_unchanged() {
    let mut reg = Registry::new();
    reg.set("DUMMY", "1");
    reg.check_or_set("DUMMY", "2");
    assert_eq!(reg.get("DUMMY"), Ok(String::from("1")));
}

#[test]
fn registry_check_or_set_unset_equals_plain_set() {
    let mut reg = Registry::new();
    reg.check_or_set("DUMMY", "2");
    let mut direct = Registry::new();
    direct.set("DUMMY", "2");
    assert_eq!(reg.get("DUMMY"), direct.get("DUMMY"));
}

#[test]
fn registry_check_or_set_stored_empty_sets() {
    let mut reg = Registry::new();
    reg.set("DUMMY", "");
    reg.check_or_set("DUMMY", "2");
    assert_eq!(reg.get("DUMMY"), Ok(String::from("2")));
}

#[test]
fn unix_set_does_not_change_what_get_sees() {
    let mut p = Profile::from_text(String::new());
    p.set("DUMMY", "1");
    assert_eq!(p.text, "\nexport DUMMY=1\n");
    assert_eq!(set_env::getenv::get(Lookup::Absent), Err(EnvError::VariableNotFound));
}

#[test]
fn locator_picks_profile_when_only_profile_exists() {
    assert_eq!(find_profile(false, false, true), Selection::Open(Candidate::Profile));
}

#[test]
fn locator_creates_bash_profile_when_none_exists() {
    assert_eq!(find_profile(false, false, false), Selection::Create);
}

#[test]
fn locator_prefers_bash_profile() {
    assert_eq!(find_profile(true, true, true), Selection::Open(Candidate::BashProfile));
}

#[test]
fn locator_falls_back_to_bash_login() {
    assert_eq!(find_profile(false, true, true), Selection::Open(Candidate::BashLogin));
}

#[test]
fn locator_builds_candidate_paths() {
    assert_eq!(profile_path("/home/me", Candidate::BashProfile), "/home/me/.bash_profile");
    assert_eq!(profile_path("/home/me", Candidate::BashLogin), "/home/me/.bash_login");
    assert_eq!(profile_path("/home/me", Candidate::Profile), "/home/me/.profile");
}
