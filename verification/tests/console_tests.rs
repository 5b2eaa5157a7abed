use threaded_transform::prompt::event::{Command, Event, EventType};
use threaded_transform::prompt::{ConsoleEffect, ConsoleState, Prompt};
use threaded_transform::worker::{file_request, worker_step};
use threaded_transform::prompt::parse_input;

fn displaying_prompt() -> Prompt {
    Prompt {
        state: ConsoleState::Displaying,
        command: Command::Lower,
        payload: String::new(),
    }
}

#[test]
fn parse_splits_keyword_and_payload() {
    let (command, payload) = parse_input("lower hello world").unwrap();
    assert_eq!(command, Command::Lower);
    assert_eq!(payload, "hello world");
}

#[test]
fn parse_rejoins_with_single_spaces() {
    let (command, payload) = parse_input("upper  a   b").unwrap();
    assert_eq!(command, Command::Upper);
    assert_eq!(payload, "a b");
}

#[test]
fn parse_splits_on_any_whitespace_run() {
    let (command, payload) = parse_input("lower\tx").unwrap();
    assert_eq!(command, Command::Lower);
    assert_eq!(payload, "x");
    let (command, payload) = parse_input("lower a\tb").unwrap();
    assert_eq!(command, Command::Lower);
    assert_eq!(payload, "a b");
    let (command, payload) = parse_input("upper \t a \r b").unwrap();
    assert_eq!(command, Command::Upper);
    assert_eq!(payload, "a b");
}

#[test]
fn parse_rejects_unknown_keyword() {
    assert!(parse_input("bogus x").is_err());
    assert!(parse_input("Lower x").is_err());
    assert!(parse_input("").is_err());
}

#[test]
fn every_keyword_maps_to_its_command() {
    let pairs = vec![
        ("lower", Command::Lower),
        ("upper", Command::Upper),
        ("nospace", Command::Nospace),
        ("slugify", Command::Slugify),
        ("title", Command::Title),
        ("pascal", Command::Pascal),
        ("password", Command::Passwordify),
        ("csv", Command::Csv),
        ("help", Command::Help),
        ("exit", Command::Exit),
    ];
    for (keyword, command) in pairs {
        assert_eq!(Command::from_str(keyword).unwrap(), command);
    }
}

#[test]
fn blank_line_is_ignored() {
    let mut prompt = Prompt::new();
    let effect = prompt.on_command_line("   \n");
    assert!(matches!(effect, ConsoleEffect::Ignore));
    assert_eq!(prompt.state, ConsoleState::AwaitingCommand);
}

#[test]
fn unparsable_line_is_rejected_and_console_reprompts() {
    let mut prompt = Prompt::new();
    let effect = prompt.on_command_line("frobnicate now\n");
    assert!(matches!(effect, ConsoleEffect::Reject));
    assert_eq!(prompt.state, ConsoleState::AwaitingCommand);
}

#[test]
fn plain_command_is_sent_at_once() {
    let mut prompt = Prompt::new();
    match prompt.on_command_line("lower ABC\n") {
        ConsoleEffect::Send(event) => {
            assert_eq!(event.e_type, EventType::CommandInput);
            assert_eq!(event.command, Command::Lower);
            assert_eq!(event.payload, "ABC");
        }
        _ => panic!("expected a request to be sent"),
    }
    assert_eq!(prompt.state, ConsoleState::AwaitingResponse);
}

#[test]
fn csv_command_collects_lines_until_blank() {
    let mut prompt = Prompt::new();
    let effect = prompt.on_command_line("csv a,bb\n");
    assert!(matches!(effect, ConsoleEffect::ReadPayloadLine));
    assert_eq!(prompt.state, ConsoleState::AwaitingMultilinePayload);
    let effect = prompt.on_payload_line("1,22\n");
    assert!(matches!(effect, ConsoleEffect::ReadPayloadLine));
    match prompt.on_payload_line("\n") {
        ConsoleEffect::Send(event) => {
            assert_eq!(event.command, Command::Csv);
            assert_eq!(event.payload, "a,bb\n1,22\n");
            let (response, stop) = worker_step(event);
            assert!(!stop);
            assert_eq!(response.e_type, EventType::CommandOutput);
            assert_eq!(response.payload, "=======\n|a |bb|\n=======\n|1 |22|\n=======\n");
        }
        _ => panic!("expected the assembled request to be sent"),
    }
}

#[test]
fn exit_handshake_terminates_without_printing() {
    let mut prompt = Prompt::new();
    match prompt.on_command_line("exit\n") {
        ConsoleEffect::Send(event) => {
            assert_eq!(event.command, Command::Exit);
            let (response, stop) = worker_step(event);
            assert!(stop);
            assert_eq!(response.command, Command::Exit);
            assert_eq!(response.e_type, EventType::CommandOutput);
            let effect = prompt.on_response(response);
            assert!(matches!(effect, ConsoleEffect::Stop));
            assert_eq!(prompt.state, ConsoleState::Terminated);
        }
        _ => panic!("expected the exit request to be sent"),
    }
}

#[test]
fn pipeline_error_is_displayed_and_session_continues() {
    let mut prompt = Prompt::new();
    match prompt.on_command_line("title café\n") {
        ConsoleEffect::Send(event) => {
            let (response, stop) = worker_step(event);
            assert!(!stop);
            assert_eq!(response.e_type, EventType::CommandError);
            match prompt.on_response(response) {
                ConsoleEffect::Display { text, is_error } => {
                    assert!(is_error);
                    assert_eq!(text, "Letters has to be ascii, é detected!");
                }
                _ => panic!("expected the error to be displayed"),
            }
            assert_eq!(prompt.state, ConsoleState::Displaying);
        }
        _ => panic!("expected the request to be sent"),
    }
}

#[test]
fn capital_n_ends_the_session() {
    let mut prompt = displaying_prompt();
    match prompt.on_continue_choice("N\n") {
        ConsoleEffect::SendExit(event) => {
            assert_eq!(event.command, Command::Exit);
            assert_eq!(event.e_type, EventType::CommandInput);
        }
        _ => panic!("expected an exit request"),
    }
    assert_eq!(prompt.state, ConsoleState::Terminated);
}

#[test]
fn small_n_ends_the_session() {
    let mut prompt = displaying_prompt();
    assert!(matches!(prompt.on_continue_choice(" n \n"), ConsoleEffect::SendExit(_)));
    assert_eq!(prompt.state, ConsoleState::Terminated);
}

#[test]
fn any_other_choice_continues_the_session() {
    for answer in ["\n", "y\n", "Y\n", "no\n", "N o\n"] {
        let mut prompt = displaying_prompt();
        assert!(matches!(prompt.on_continue_choice(answer), ConsoleEffect::Ignore));
        assert_eq!(prompt.state, ConsoleState::AwaitingCommand);
    }
}

#[test]
fn file_prefix_names_a_trimmed_path() {
    assert_eq!(file_request("file: /tmp/input.txt ").unwrap(), "/tmp/input.txt");
    assert_eq!(file_request("file:notes.txt").unwrap(), "notes.txt");
    assert!(file_request("plain text").is_none());
    assert!(file_request("fil").is_none());
}

#[test]
fn worker_answers_help_with_the_keyword_list() {
    let request = Event {
        e_type: EventType::CommandInput,
        command: Command::Help,
        payload: String::new(),
    };
    let (response, stop) = worker_step(request);
    assert!(!stop);
    assert_eq!(response.command, Command::Help);
    assert_eq!(
        response.payload,
        "Commands: lower, upper, nospace, slugify, title, pascal, password, csv, help, exit"
    );
}
