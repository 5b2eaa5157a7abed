use threaded_transform::prompt::event::Command;
use threaded_transform::transformers::{
    passwordify, slugify, to_lower, to_pascal_case, to_upper, transform, with_no_spaces,
    PipelineError,
};

#[test]
fn empty_input_stays_empty_for_every_transform_command() {
    let commands = vec![
        Command::Lower,
        Command::Upper,
        Command::Slugify,
        Command::Nospace,
        Command::Title,
        Command::Pascal,
        Command::Passwordify,
    ];
    for command in commands {
        let out = transform(String::new(), command).unwrap();
        assert_eq!(out, "");
    }
}

#[test]
fn uppercase_twice_equals_uppercase_once() {
    let once = to_upper(String::from("Hello wOrld 42!"));
    let twice = to_upper(once.clone());
    assert_eq!(twice, once);
    let via_command = transform(once.clone(), Command::Upper).unwrap();
    assert_eq!(via_command, once);
}

#[test]
fn lowercase_then_uppercase() {
    let lowered = to_lower(String::from("HeLLo"));
    assert_eq!(lowered, "hello");
    assert_eq!(to_upper(lowered), "HELLO");
}

#[test]
fn pascal_of_hello_world() {
    let out = transform(String::from("hello world"), Command::Pascal).unwrap();
    assert_eq!(out, "HelloWorld");
}

#[test]
fn passwordify_exact_substitution_table() {
    let out = passwordify(String::from("assassin"));
    assert_eq!(out, "@$$@$$!n");
}

#[test]
fn password_command_pascal_cases_first() {
    let out = transform(String::from("my secret phrase"), Command::Passwordify).unwrap();
    assert_eq!(out, "MySecretPhr@$e");
}

#[test]
fn title_uppercases_after_each_space() {
    let out = transform(String::from("hello world"), Command::Title).unwrap();
    assert_eq!(out, "Hello World");
    let kept = transform(String::from("a  b"), Command::Title).unwrap();
    assert_eq!(kept, "A  B");
}

#[test]
fn title_fails_on_non_ascii() {
    let err = transform(String::from("café"), Command::Title).unwrap_err();
    assert_eq!(err, PipelineError::NonAscii { c: 'é' });
    assert_eq!(err.message(), "Letters has to be ascii, é detected!");
}

#[test]
fn pascal_case_stage_reports_first_non_ascii() {
    let err = to_pascal_case(String::from("naïve café")).unwrap_err();
    assert_eq!(err, PipelineError::NonAscii { c: 'ï' });
}

#[test]
fn nospace_removes_every_space() {
    let out = with_no_spaces(String::from(" a b  c "));
    assert_eq!(out, "abc");
    assert_eq!(transform(String::from("x y"), Command::Nospace).unwrap(), "xy");
}

#[test]
fn slugify_normalizes_to_url_safe_slug() {
    assert_eq!(slugify(String::from("Hello World")), "hello-world");
    assert_eq!(
        transform(String::from("My Test String!!!1!1"), Command::Slugify).unwrap(),
        "my-test-string-1-1"
    );
}

#[test]
fn help_lists_the_keywords() {
    let out = transform(String::from("anything"), Command::Help).unwrap();
    assert_eq!(
        out,
        "Commands: lower, upper, nospace, slugify, title, pascal, password, csv, help, exit"
    );
}
