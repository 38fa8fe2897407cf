use hw_assistant::error::ErrorKind;
use hw_assistant::format::{check_template, decimal_string};

fn bind(name: &str, value: &str) -> (String, String) {
    (name.to_string(), value.to_string())
}

#[test]
fn renders_a_named_placeholder() {
    let out = hw_assistant::format::format("HW{num}", &vec![bind("num", "7")]).unwrap();
    assert_eq!(out, "HW7");
}

#[test]
fn renders_escaped_braces() {
    let out = hw_assistant::format::format("{{{num}}}", &vec![bind("num", "12")]).unwrap();
    assert_eq!(out, "{12}");
}

#[test]
fn unbound_placeholder_is_a_format_error() {
    let err = hw_assistant::format::format("{name}-{num}", &vec![bind("num", "1")]).unwrap_err();
    assert_eq!(err.kind, ErrorKind::Format);
}

#[test]
fn positional_placeholders_are_refused() {
    assert_eq!(hw_assistant::format::format("HW{}", &vec![bind("num", "1")]).unwrap_err().kind, ErrorKind::Format);
    assert_eq!(hw_assistant::format::format("HW{0}", &vec![bind("num", "1")]).unwrap_err().kind, ErrorKind::Format);
}

#[test]
fn format_specifications_are_refused() {
    assert!(!check_template("HW{num:100000}"));
    assert_eq!(hw_assistant::format::format("HW{num:>8}", &vec![bind("num", "1")]).unwrap_err().kind, ErrorKind::Format);
}

#[test]
fn unmatched_braces_are_refused() {
    assert!(!check_template("HW{num"));
    assert!(!check_template("HW}"));
    assert!(!check_template("{ num }"));
    assert!(check_template("plain text: no braces"));
    assert!(check_template(""));
}

#[test]
fn decimal_string_matches_display() {
    for n in [0usize, 1, 9, 10, 11, 99, 100, 12345, usize::MAX] {
        assert_eq!(decimal_string(n), n.to_string());
    }
}

#[test]
fn format_outcome_keeps_text_and_maps_errors() {
    let ok = hw_assistant::format::format_outcome(Ok("text".to_string()));
    assert_eq!(ok.unwrap(), "text");
    let missing = formatx::Error::MissingArgument { name: "num".to_string(), offset: 2 };
    let err = hw_assistant::format::format_outcome(Err(missing)).unwrap_err();
    assert_eq!(err.kind, ErrorKind::Format);
    assert_eq!(err.message, "missing argument: `num`");
}

#[test]
fn unbound_placeholder_names_the_placeholder() {
    let err = hw_assistant::format::format("{name}", &vec![bind("num", "1")]).unwrap_err();
    assert_eq!(err.message, "missing argument: `name`");
}

#[test]
fn extra_bindings_are_ignored() {
    let out = hw_assistant::format::format("plain", &vec![bind("num", "1"), bind("x", "y")]);
    assert_eq!(out.unwrap(), "plain");
}

#[test]
fn same_bindings_render_the_same() {
    let bindings = vec![bind("num", "3"), bind("name", "algebra")];
    let first = hw_assistant::format::format("{name}/{num}/{name}", &bindings).unwrap();
    let second = hw_assistant::format::format("{name}/{num}/{name}", &bindings.clone()).unwrap();
    assert_eq!(first, second);
    assert_eq!(first, "algebra/3/algebra");
}

#[test]
fn values_are_not_read_as_templates() {
    let out = hw_assistant::format::format("{a}{b}", &vec![bind("a", "{b}"), bind("b", "}{")]);
    assert_eq!(out.unwrap(), "{b}}{");
}

#[test]
fn typed_helpers_bind_num_and_text() {
    assert_eq!(hw_assistant::format::format_num("HW{num}", 12).unwrap(), "HW12");
    assert_eq!(hw_assistant::format::format_text("[{f}]", "f", "x").unwrap(), "[x]");
    assert_eq!(
        hw_assistant::format::format_num_text("{name} {num}", 5, "name", "a").unwrap(),
        "a 5"
    );
    assert_eq!(
        hw_assistant::format::format_num("HW{name}", 12).unwrap_err().kind,
        ErrorKind::Format
    );
}

#[test]
fn names_may_hold_digits_and_underscores() {
    assert!(check_template("{_}{a1}{A_b_2}"));
    assert!(!check_template("{1a}"));
    assert!(!check_template("{a-b}"));
    assert!(!check_template("{é}"));
    assert!(!check_template("{}"));
    assert!(!check_template("{"));
    assert!(!check_template("}"));
    assert!(check_template("{{}}"));
    assert!(check_template("é{{é}}é"));
}
