//! The worker's side of the protocol: executing one request at a time and
//! answering it, including the `exit` handshake and the `file:` indirection.

use vstd::prelude::*;
use vstd::string::StringExecFns;
use crate::prompt::event::{Command, Event, EventType};
use crate::prompt::{spec_console_response, ConsoleState};
use crate::text::{chars_to_string, split_at, str_chars, str_eq, trim_chars, trim_spec};
use crate::transformers::csv::csv_dims_ok;
use crate::transformers::{message_spec, spec_transform, transform};

verus! {

/// The payload of the response that acknowledges an `exit` request.
pub open spec fn exit_notice() -> Seq<char> {
    "Termination requested by the user"@
}

/// What the worker answers to one request, and whether its loop then stops:
/// an `Exit` request is echoed as an `Exit`-tagged response and stops the
/// loop; any other request runs the pipeline and answers its output, or the
/// failure's description as an error.
pub open spec fn spec_worker_step(command: Command, payload: Seq<char>) -> (
    EventType,
    Command,
    Seq<char>,
    bool,
) {
    if command == Command::Exit {
        (EventType::CommandOutput, Command::Exit, exit_notice(), true)
    } else {
        match spec_transform(payload, command) {
            Ok(o) => (EventType::CommandOutput, command, o, false),
            Err(e) => (EventType::CommandError, command, message_spec(e), false),
        }
    }
}

/// Executes one request fully and builds the response; the second component
/// says whether the receive loop stops.
pub fn worker_step(event: Event) -> (r: (Event, bool))
    requires
        event.command == Command::Csv ==> csv_dims_ok(event.payload@),
    ensures
        ({
            let (kind, command, payload, stop) = spec_worker_step(event.command, event.payload@);
            &&& r.0.e_type == kind
            &&& r.0.command == command
            &&& r.0.payload@ == payload
            &&& r.1 == stop
        }),
{
    if event.command == Command::Exit {
        let response = Event {
            e_type: EventType::CommandOutput,
            command: Command::Exit,
            payload: String::from_str("Termination requested by the user"),
        };
        return (response, true);
    }
    match transform(event.payload, event.command) {
        Ok(output) => (
            Event { e_type: EventType::CommandOutput, command: event.command, payload: output },
            false,
        ),
        Err(e) => (
            Event {
                e_type: EventType::CommandError,
                command: event.command,
                payload: e.message(),
            },
            false,
        ),
    }
}

/// The path named by a `file:` payload, trimmed, or nothing when the payload
/// is no indirection.
pub open spec fn spec_file_request(payload: Seq<char>) -> Option<Seq<char>> {
    if payload.len() >= 5 && payload.take(5) == "file:"@ {
        Some(trim_spec(payload.skip(5)))
    } else {
        None
    }
}

/// Decides whether a request's payload is a `file:` indirection, and if so
/// which path the surrounding loop must read before the pipeline runs.
pub fn file_request(payload: &str) -> (r: Option<String>)
    ensures
        match spec_file_request(payload@) {
            Some(p) => (r matches Some(s) && s@ == p),
            None => r is None,
        },
{
    let chars = str_chars(payload);
    if chars.len() < 5 {
        return None;
    }
    let mut prefix: Vec<char> = Vec::new();
    let mut i: usize = 0;
    while i < 5
        invariant
            i <= 5,
            chars@.len() >= 5,
            chars@ == payload@,
            prefix@ == payload@.subrange(0, i as int),
        decreases 5 - i,
    {
        prefix.push(chars[i]);
        i = i + 1;
        proof {
            assert(prefix@ =~= payload@.subrange(0, i as int));
        }
    }
    let prefix_str = chars_to_string(&prefix);
    if !str_eq(prefix_str.as_str(), "file:") {
        return None;
    }
    let mut tail: Vec<char> = Vec::new();
    let mut k: usize = 5;
    while k < chars.len()
        invariant
            5 <= k <= chars@.len(),
            chars@ == payload@,
            tail@ == payload@.subrange(5, k as int),
        decreases chars@.len() - k,
    {
        tail.push(chars[k]);
        k = k + 1;
        proof {
            assert(tail@ =~= payload@.subrange(5, k as int));
        }
    }
    proof {
        assert(tail@ =~= payload@.skip(5));
    }
    let trimmed = trim_chars(&tail);
    Some(chars_to_string(&trimmed))
}

/// The shutdown handshake: the line `exit` parses to the `Exit` command with
/// an empty payload; the worker answers any `Exit` request, whatever its
/// payload, with an `Exit`-tagged response and stops its loop; and the
/// console, on an `Exit`-tagged response, terminates without displaying
/// anything.
pub proof fn lemma_exit_handshake(payload: Seq<char>)
    ensures
        crate::prompt::event::keyword_of("exit"@) == Some(Command::Exit),
        crate::prompt::spec_parse_input("exit"@) == Ok::<
            (Command, Seq<char>),
            crate::prompt::event::CommandParseErr,
        >((Command::Exit, Seq::<char>::empty())),
        spec_worker_step(Command::Exit, payload).1 == Command::Exit,
        spec_worker_step(Command::Exit, payload).3 == true,
        spec_console_response(spec_worker_step(Command::Exit, payload).1).0
            == ConsoleState::Terminated,
        spec_console_response(spec_worker_step(Command::Exit, payload).1).1 == false,
{
    reveal_strlit("exit");
    reveal_strlit("lower");
    reveal_strlit("upper");
    reveal_strlit("nospace");
    reveal_strlit("slugify");
    reveal_strlit("title");
    reveal_strlit("pascal");
    reveal_strlit("password");
    reveal_strlit("csv");
    reveal_strlit("help");
    assert("exit"@.len() == 4);
    assert("exit"@ != "lower"@);
    assert("exit"@ != "upper"@);
    assert("exit"@ != "nospace"@);
    assert("exit"@ != "slugify"@);
    assert("exit"@ != "title"@);
    assert("exit"@ != "pascal"@);
    assert("exit"@ != "password"@);
    assert("exit"@ != "csv"@);
    assert("exit"@[0] != "help"@[0]);
    assert("exit"@ != "help"@);
    let s = "exit"@;
    let s3 = seq!['x', 'i', 't'];
    let s2 = seq!['i', 't'];
    let s1 = seq!['t'];
    let s0 = Seq::<char>::empty();
    assert(split_at(s0, ' ') =~~= seq![s0]);
    assert(s1.drop_first() =~= s0);
    assert(split_at(s1, ' ') =~~= seq![s1]);
    assert(s2.drop_first() =~= s1);
    assert(split_at(s2, ' ') =~~= seq![s2]);
    assert(s3.drop_first() =~= s2);
    assert(split_at(s3, ' ') =~~= seq![s3]);
    assert(s.drop_first() =~= s3);
    assert(split_at(s, ' ') =~~= seq![s]);
    assert(crate::text::space_normalized(s) =~= s);
    assert(crate::text::nonempty_pieces(seq![s].drop_first()) =~~= Seq::<Seq<char>>::empty());
    assert(crate::prompt::spec_tokens(s) =~~= seq![s]);
    assert(crate::text::join_with(seq![s].drop_first(), ' ') =~~= Seq::<char>::empty());
}

} // verus!
