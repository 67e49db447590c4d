use set_env::script::append_command;
use set_env::script::check_or_set_command;
use set_env::script::do_prerequisites;
use set_env::script::has_markers;
use set_env::script::inject;
use set_env::script::prepend_command;
use set_env::script::script_path;
use set_env::script::set_command;
use set_env::segments::contains_segment;
use set_env::segments::merge_append;
use set_env::segments::merge_prepend;
use set_env::split::join_str;
use set_env::split::split_str;

const TEMPLATE: &str = "# ----------------------------------SET_ENV_BEG\r\n# ----------------------------------SET_ENV_DEFS_END\r\n# ----------------------------------SET_ENV_END";

#[test]
fn split_on_semicolon() {
    let parts = split_str("a;;b", ";");
    assert_eq!(parts, vec![String::from("a"), String::new(), String::from("b")]);
}

#[test]
fn split_without_separator_is_one_part() {
    assert_eq!(split_str("abc", ";"), vec![String::from("abc")]);
}

#[test]
fn split_empty_text_is_one_empty_part() {
    assert_eq!(split_str("", ";"), vec![String::new()]);
}

#[test]
fn split_then_join_round_trip() {
    let text = ";a;b;;c;";
    assert_eq!(join_str(&split_str(text, ";"), ";"), text);
}

#[test]
fn split_on_two_char_separator() {
    let parts = split_str("a\r\nb\rc\r\n", "\r\n");
    assert_eq!(parts, vec![String::from("a"), String::from("b\rc"), String::new()]);
}

#[test]
fn merge_append_adds_absent_segment_at_end() {
    let parts = vec![String::from("a"), String::from("b")];
    assert_eq!(merge_append(parts, "c"), vec![
        String::from("a"),
        String::from("b"),
        String::from("c"),
    ]);
}

#[test]
fn merge_append_keeps_present_segment() {
    let parts = vec![String::from("a"), String::from("b")];
    assert_eq!(merge_append(parts, "a"), vec![String::from("a"), String::from("b")]);
}

#[test]
fn merge_prepend_adds_absent_segment_at_front() {
    let parts = vec![String::from("a"), String::from("b")];
    assert_eq!(merge_prepend(parts, "c"), vec![
        String::from("c"),
        String::from("a"),
        String::from("b"),
    ]);
}

#[test]
fn contains_segment_is_exact() {
    let parts = vec![String::from("ab"), String::from("c")];
    assert!(contains_segment(&parts, "ab"));
    assert!(!contains_segment(&parts, "a"));
    assert!(!contains_segment(&parts, "b"));
}

#[test]
fn inject_inserts_before_end_of_definitions_marker() {
    let content = "first\r\n# ----------------------------------SET_ENV_DEFS_END\r\nlast";
    let out = inject(content, "setenv_set DUMMY 1").unwrap();
    assert_eq!(
        out,
        "first\r\nsetenv_set DUMMY 1\r\n# ----------------------------------SET_ENV_DEFS_END\r\nlast"
    );
}

#[test]
fn inject_twice_stacks_commands_in_order() {
    let first = inject(TEMPLATE, "setenv_set A 1").unwrap();
    let second = inject(first.as_str(), "setenv_set B 2").unwrap();
    assert_eq!(
        second,
        "# ----------------------------------SET_ENV_BEG\r\nsetenv_set A 1\r\nsetenv_set B 2\r\n# ----------------------------------SET_ENV_DEFS_END\r\n# ----------------------------------SET_ENV_END"
    );
}

#[test]
fn inject_without_marker_line_yields_nothing() {
    assert_eq!(inject("a\r\nb", "setenv_set A 1"), None);
}

#[test]
fn inject_needs_the_marker_as_a_whole_line() {
    let content = "x # ----------------------------------SET_ENV_DEFS_END y";
    assert_eq!(inject(content, "setenv_set A 1"), None);
}

#[test]
fn prerequisites_missing_script_becomes_template() {
    assert_eq!(do_prerequisites(None, TEMPLATE), TEMPLATE);
}

#[test]
fn prerequisites_marked_script_stays_as_it_is() {
    let content = format!("{}\r\nsomething", TEMPLATE);
    assert_eq!(do_prerequisites(Some(content.as_str()), TEMPLATE), content);
}

#[test]
fn prerequisites_unmarked_script_gets_template_appended() {
    let out = do_prerequisites(Some("mine"), TEMPLATE);
    assert_eq!(out, format!("mine\r\n{}", TEMPLATE));
    assert!(has_markers(out.as_str()));
}

#[test]
fn marker_test_needs_both_markers() {
    assert!(has_markers(TEMPLATE));
    assert!(!has_markers("# ----------------------------------SET_ENV_BEG"));
    assert!(!has_markers("plain text"));
}

#[test]
fn script_path_under_documents() {
    assert_eq!(
        script_path("C:/Users/me/Documents"),
        "C:/Users/me/Documents/WindowsPowerShell/Profile.ps1"
    );
}

#[test]
fn command_builders_exact_text() {
    assert_eq!(set_command("DUMMY", "1"), "setenv_set DUMMY 1");
    assert_eq!(append_command("PATH", "X"), "setenv_append PATH X");
    assert_eq!(prepend_command("PATH", "X"), "setenv_prepend PATH X");
    assert_eq!(check_or_set_command("DUMMY", "1"), "setenv_set_if_not_exist DUMMY 1");
}
