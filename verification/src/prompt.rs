//! The console front end: parsing an operator's line into a command plus
//! payload, and the state machine that drives one operator turn.

pub mod event;

use vstd::prelude::*;
use vstd::string::StringExecFns;
use crate::prompt::event::{Command, CommandParseErr, Event, EventType, keyword_of};
use crate::text::{
    chars_to_string, join_with, nonempty_pieces, normalize_spaces, space_normalized, split_at,
    split_chars, str_chars, str_eq, trim_chars, trim_spec,
};

verus! {

/// The tokens of a command line: its maximal runs of non-whitespace
/// characters, in order.
pub open spec fn spec_tokens(line: Seq<char>) -> Seq<Seq<char>> {
    nonempty_pieces(split_at(space_normalized(line), ' '))
}

/// What parsing a command line yields: the command named by the first token
/// and the remaining tokens rejoined with single spaces, or a parse error
/// when there is no token or the first one is not a keyword.
pub open spec fn spec_parse_input(line: Seq<char>) -> Result<(Command, Seq<char>), CommandParseErr> {
    let toks = spec_tokens(line);
    if toks.len() == 0 {
        Err(CommandParseErr)
    } else {
        match keyword_of(toks[0]) {
            Some(c) => Ok((c, join_with(toks.drop_first(), ' '))),
            None => Err(CommandParseErr),
        }
    }
}

/// Splits a line on runs of whitespace, matches the first token against the
/// keyword table, and rejoins the remaining tokens with single spaces as the
/// payload.
pub fn parse_input(input: &str) -> (r: Result<(Command, String), CommandParseErr>)
    ensures
        match spec_parse_input(input@) {
            Ok((c, p)) => (r matches Ok(cp) && cp.0 == c && cp.1@ == p),
            Err(e) => r is Err,
        },
{
    let chars = str_chars(input);
    let normalized = normalize_spaces(&chars);
    let pieces = split_chars(&normalized, ' ');
    let ghost all = pieces.deep_view();
    let mut toks: Vec<Vec<char>> = Vec::new();
    let mut i: usize = 0;
    proof {
        assert(all.skip(0) =~~= all);
        assert(spec_tokens(input@) == nonempty_pieces(all));
    }
    while i < pieces.len()
        invariant
            i <= pieces@.len(),
            all == pieces.deep_view(),
            all.len() == pieces@.len(),
            nonempty_pieces(all) == toks.deep_view() + nonempty_pieces(all.skip(i as int)),
        decreases pieces@.len() - i,
    {
        let ghost suffix = all.skip(i as int);
        proof {
            assert(suffix[0] == all[i as int]);
            assert(all[i as int] == pieces@[i as int]@);
            assert(suffix.drop_first() =~~= all.skip(i as int + 1));
        }
        let piece = &pieces[i];
        if piece.len() > 0 {
            let mut tok: Vec<char> = Vec::new();
            let mut j: usize = 0;
            while j < piece.len()
                invariant
                    j <= piece@.len(),
                    tok@ == piece@.subrange(0, j as int),
                decreases piece@.len() - j,
            {
                tok.push(piece[j]);
                j = j + 1;
                proof {
                    assert(tok@ =~= piece@.subrange(0, j as int));
                }
            }
            proof {
                assert(tok@ =~= all[i as int]);
            }
            let ghost before = toks.deep_view();
            toks.push(tok);
            proof {
                assert(toks.deep_view() =~~= before.push(suffix[0]));
                assert(nonempty_pieces(suffix) =~~= seq![suffix[0]] + nonempty_pieces(
                    suffix.drop_first(),
                ));
                assert(nonempty_pieces(all) =~~= toks.deep_view() + nonempty_pieces(
                    all.skip(i as int + 1),
                ));
            }
        } else {
            proof {
                assert(nonempty_pieces(suffix) =~~= nonempty_pieces(suffix.drop_first()));
            }
        }
        i = i + 1;
    }
    proof {
        assert(all.skip(i as int) =~~= Seq::<Seq<char>>::empty());
        assert(nonempty_pieces(all) =~~= toks.deep_view());
        assert(toks.deep_view() == spec_tokens(input@));
    }
    if toks.len() == 0 {
        return Err(CommandParseErr);
    }
    let first = chars_to_string(&toks[0]);
    proof {
        assert(toks.deep_view()[0] == toks@[0]@);
    }
    let command = match Command::from_str(first.as_str()) {
        Ok(c) => c,
        Err(e) => {
            return Err(e);
        },
    };
    let ghost before = toks.deep_view();
    let _first_tok = toks.remove(0);
    proof {
        assert(toks.deep_view() =~~= before.drop_first());
    }
    let payload = join_chars_string(&toks);
    Ok((command, payload))
}

/// Joins tokens with single spaces into an owned payload string.
fn join_chars_string(parts: &Vec<Vec<char>>) -> (r: String)
    ensures
        r@ == join_with(parts.deep_view(), ' '),
{
    let joined = crate::text::join_chars(parts, ' ');
    chars_to_string(&joined)
}

/// The states of one operator turn.
#[derive(Clone, Copy, PartialEq, Eq, Structural, Debug)]
pub enum ConsoleState {
    AwaitingCommand,
    AwaitingMultilinePayload,
    AwaitingResponse,
    Displaying,
    Terminated,
}

/// What the surrounding terminal loop must do next after feeding the console
/// one line or one response.
pub enum ConsoleEffect {
    /// Nothing to do; prompt for the next command line.
    Ignore,
    /// The line was not a command; print a diagnostic, then prompt again.
    Reject,
    /// Collecting a multi-line table payload; read one more line.
    ReadPayloadLine,
    /// Send this request and wait for the matching response.
    Send(Event),
    /// Show a response to the operator, then ask whether to continue.
    Display { text: String, is_error: bool },
    /// Send this final request and terminate without waiting.
    SendExit(Event),
    /// Terminate silently.
    Stop,
}

/// Where the console goes on a response: an `Exit`-tagged response ends the
/// session silently, everything else is displayed.
pub open spec fn spec_console_response(command: Command) -> (ConsoleState, bool) {
    if command == Command::Exit {
        (ConsoleState::Terminated, false)
    } else {
        (ConsoleState::Displaying, true)
    }
}

/// The console's side of the protocol: it owns the operator-facing state of
/// one turn and decides every transition; the terminal loop around it only
/// reads lines, sends requests and prints.
pub struct Prompt {
    pub state: ConsoleState,
    pub command: Command,
    pub payload: String,
}

impl Prompt {
    /// A console awaiting its first command.
    pub fn new() -> (r: Prompt)
        ensures
            r.state == ConsoleState::AwaitingCommand,
    {
        Prompt { state: ConsoleState::AwaitingCommand, command: Command::Help, payload: String::new() }
    }

    /// One command line read while awaiting a command: blank lines are
    /// ignored, unparsable lines are rejected, a `csv` command opens the
    /// multi-line payload capture, and any other command is sent at once.
    pub fn on_command_line(&mut self, line: &str) -> (r: ConsoleEffect)
        requires
            old(self).state == ConsoleState::AwaitingCommand,
        ensures
            ({
                let t = trim_spec(line@);
                if t.len() == 0 {
                    final(self).state == ConsoleState::AwaitingCommand && r is Ignore
                } else {
                    match spec_parse_input(t) {
                        Err(e) => final(self).state == ConsoleState::AwaitingCommand
                            && r is Reject,
                        Ok((c, p)) => if c == Command::Csv {
                            &&& final(self).state == ConsoleState::AwaitingMultilinePayload
                            &&& final(self).command == Command::Csv
                            &&& final(self).payload@ == p.push('\n')
                            &&& r is ReadPayloadLine
                        } else {
                            &&& final(self).state == ConsoleState::AwaitingResponse
                            &&& final(self).command == c
                            &&& (r matches ConsoleEffect::Send(e) && e.e_type == EventType::CommandInput
                                && e.command == c && e.payload@ == p)
                        },
                    }
                }
            }),
    {
        let chars = str_chars(line);
        let trimmed = trim_chars(&chars);
        if trimmed.len() == 0 {
            return ConsoleEffect::Ignore;
        }
        let trimmed_str = chars_to_string(&trimmed);
        match parse_input(trimmed_str.as_str()) {
            Err(_e) => ConsoleEffect::Reject,
            Ok((command, mut payload)) => {
                if command == Command::Csv {
                    payload.append("\n");
                    self.state = ConsoleState::AwaitingMultilinePayload;
                    self.command = Command::Csv;
                    self.payload = payload;
                    proof {
                        reveal_strlit("\n");
                        let p = spec_parse_input(trim_spec(line@))->Ok_0.1;
                        assert(self.payload@ =~= p.push('\n'));
                    }
                    ConsoleEffect::ReadPayloadLine
                } else {
                    self.state = ConsoleState::AwaitingResponse;
                    self.command = command;
                    ConsoleEffect::Send(
                        Event { e_type: EventType::CommandInput, command, payload },
                    )
                }
            },
        }
    }

    /// One line read while collecting a table payload: a non-blank line is
    /// appended (with its newline) and another line is awaited; a blank line
    /// closes the capture and sends the assembled request.
    pub fn on_payload_line(&mut self, line: &str) -> (r: ConsoleEffect)
        requires
            old(self).state == ConsoleState::AwaitingMultilinePayload,
        ensures
            ({
                let t = trim_spec(line@);
                if t.len() > 0 {
                    &&& final(self).state == ConsoleState::AwaitingMultilinePayload
                    &&& final(self).command == old(self).command
                    &&& final(self).payload@ == old(self).payload@ + t + "\n"@
                    &&& r is ReadPayloadLine
                } else {
                    &&& final(self).state == ConsoleState::AwaitingResponse
                    &&& (r matches ConsoleEffect::Send(e) && e.e_type == EventType::CommandInput
                        && e.command == old(self).command && e.payload@ == old(self).payload@)
                }
            }),
    {
        let chars = str_chars(line);
        let trimmed = trim_chars(&chars);
        if trimmed.len() > 0 {
            let trimmed_str = chars_to_string(&trimmed);
            self.payload.append(trimmed_str.as_str());
            self.payload.append("\n");
            return ConsoleEffect::ReadPayloadLine;
        }
        let mut payload = String::new();
        core::mem::swap(&mut payload, &mut self.payload);
        self.state = ConsoleState::AwaitingResponse;
        ConsoleEffect::Send(
            Event { e_type: EventType::CommandInput, command: self.command, payload },
        )
    }

    /// The matching response: an `Exit`-tagged one terminates the console
    /// silently; any other is handed out for display, marked as an error
    /// when the worker failed.
    pub fn on_response(&mut self, response: Event) -> (r: ConsoleEffect)
        requires
            old(self).state == ConsoleState::AwaitingResponse,
        ensures
            final(self).state == spec_console_response(response.command).0,
            spec_console_response(response.command).1 ==> (r matches ConsoleEffect::Display {
                text,
                is_error,
            } && text@ == response.payload@ && is_error == (response.e_type
                == EventType::CommandError)),
            !spec_console_response(response.command).1 ==> r is Stop,
    {
        if response.command == Command::Exit {
            self.state = ConsoleState::Terminated;
            ConsoleEffect::Stop
        } else {
            self.state = ConsoleState::Displaying;
            ConsoleEffect::Display {
                text: response.payload,
                is_error: response.e_type == EventType::CommandError,
            }
        }
    }

    /// The continuation prompt's answer: `N` or `n` (after trimming) ends
    /// the session by sending an `Exit` request; any other answer, the empty
    /// one included, returns to command reading.
    pub fn on_continue_choice(&mut self, line: &str) -> (r: ConsoleEffect)
        requires
            old(self).state == ConsoleState::Displaying,
        ensures
            ({
                let t = trim_spec(line@);
                if t == "N"@ || t == "n"@ {
                    &&& final(self).state == ConsoleState::Terminated
                    &&& (r matches ConsoleEffect::SendExit(e) && e.e_type == EventType::CommandInput
                        && e.command == Command::Exit && e.payload@.len() == 0)
                } else {
                    final(self).state == ConsoleState::AwaitingCommand && r is Ignore
                }
            }),
    {
        let chars = str_chars(line);
        let trimmed = trim_chars(&chars);
        let trimmed_str = chars_to_string(&trimmed);
        if str_eq(trimmed_str.as_str(), "N") || str_eq(trimmed_str.as_str(), "n") {
            self.state = ConsoleState::Terminated;
            ConsoleEffect::SendExit(
                Event {
                    e_type: EventType::CommandInput,
                    command: Command::Exit,
                    payload: String::new(),
                },
            )
        } else {
            self.state = ConsoleState::AwaitingCommand;
            ConsoleEffect::Ignore
        }
    }
}

} // verus!
