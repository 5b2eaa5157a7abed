//! The transform pipeline: a catalogue of fail-fast string stages keyed by
//! the command that requests them.

pub mod csv;

use vstd::prelude::*;
use crate::prompt::event::Command;
use crate::text::{chars_to_string, dec_of, str_chars};

verus! {

/// What `str::to_lowercase` returns; it depends on the characters alone.
pub uninterp spec fn lower_of(s: Seq<char>) -> Seq<char>;

/// What `str::to_uppercase` returns; it depends on the characters alone.
pub uninterp spec fn upper_of(s: Seq<char>) -> Seq<char>;

/// What `slug::slugify` returns; it depends on the characters alone.
pub uninterp spec fn slug_of(s: Seq<char>) -> Seq<char>;

/// Relies on `str::to_lowercase`: the result is a function of the characters
/// alone, and an empty string stays empty.
#[verifier::external_body]
fn lowercase_str(s: &str) -> (r: String)
    ensures
        r@ == lower_of(s@),
        s@.len() == 0 ==> r@.len() == 0,
{
    s.to_lowercase()
}

/// Relies on `str::to_uppercase`: the result is a function of the characters
/// alone, and an empty string stays empty.
#[verifier::external_body]
fn uppercase_str(s: &str) -> (r: String)
    ensures
        r@ == upper_of(s@),
        s@.len() == 0 ==> r@.len() == 0,
{
    s.to_uppercase()
}

/// Relies on `slug::slugify`: the slug is a function of the characters alone,
/// and an empty string stays empty.
#[verifier::external_body]
fn slugify_str(s: &str) -> (r: String)
    ensures
        r@ == slug_of(s@),
        s@.len() == 0 ==> r@.len() == 0,
{
    slug::slugify(s)
}

/// A failure inside the pipeline: a character outside the 7-bit ASCII range
/// during title- or pascal-casing, or a ragged row during table building.
#[derive(Clone, Copy, PartialEq, Eq, Structural, Debug)]
pub enum PipelineError {
    NonAscii { c: char },
    ColumnMismatch { line: usize, expected: usize },
}

/// The operator-facing description of a pipeline failure.
pub open spec fn message_spec(e: PipelineError) -> Seq<char> {
    match e {
        PipelineError::NonAscii { c } => "Letters has to be ascii, "@ + seq![c] + " detected!"@,
        PipelineError::ColumnMismatch { line, expected } => "Mismatched columns count at line "@
            + dec_of(line as nat) + ", (all rows should have "@ + dec_of(expected as nat)
            + " columns)"@,
    }
}

impl PipelineError {
    /// The description that a response event carries as its payload.
    pub fn message(&self) -> (r: String)
        ensures
            r@ == message_spec(*self),
    {
        match self {
            PipelineError::NonAscii { c } => {
                let mut out = str_chars("Letters has to be ascii, ");
                out.push(*c);
                let mut tail = str_chars(" detected!");
                out.append(&mut tail);
                proof {
                    assert(out@ =~= message_spec(*self));
                }
                chars_to_string(&out)
            },
            PipelineError::ColumnMismatch { line, expected } => {
                let mut out = str_chars("Mismatched columns count at line ");
                crate::text::push_decimal(*line, &mut out);
                let mut mid = str_chars(", (all rows should have ");
                out.append(&mut mid);
                crate::text::push_decimal(*expected, &mut out);
                let mut tail = str_chars(" columns)");
                out.append(&mut tail);
                proof {
                    assert(out@ =~= message_spec(*self));
                }
                chars_to_string(&out)
            },
        }
    }
}

/// A transformation result with the returned string abstracted to its
/// characters.
pub open spec fn result_chars(r: Result<String, PipelineError>) -> Result<Seq<char>, PipelineError> {
    match r {
        Ok(s) => Ok(s@),
        Err(e) => Err(e),
    }
}

/// Whether `c` lies in the 7-bit ASCII range.
pub open spec fn is_ascii_char(c: char) -> bool {
    (c as u32) < 128
}

/// Whether every character of `s` lies in the 7-bit ASCII range.
pub open spec fn all_ascii(s: Seq<char>) -> bool {
    forall|i: int| 0 <= i < s.len() ==> is_ascii_char(s[i])
}

/// The index of the first character outside the ASCII range (the length of
/// `s` if there is none).
pub open spec fn first_non_ascii(s: Seq<char>) -> int
    decreases s.len(),
{
    if s.len() == 0 {
        0
    } else if !is_ascii_char(s[0]) {
        0
    } else {
        1 + first_non_ascii(s.drop_first())
    }
}

proof fn lemma_first_non_ascii(s: Seq<char>, i: int)
    requires
        0 <= i <= s.len(),
        forall|j: int| 0 <= j < i ==> is_ascii_char(s[j]),
        i < s.len() ==> !is_ascii_char(s[i]),
    ensures
        i < s.len() ==> first_non_ascii(s) == i,
    decreases i,
{
    if i > 0 {
        lemma_first_non_ascii(s.drop_first(), i - 1);
    }
}

/// The ASCII uppercase counterpart of `c`: a lowercase ASCII letter is
/// shifted to its uppercase form, every other character passes through.
pub open spec fn ascii_upper_char(c: char) -> char {
    if c == 'a' {
        'A'
    } else if c == 'b' {
        'B'
    } else if c == 'c' {
        'C'
    } else if c == 'd' {
        'D'
    } else if c == 'e' {
        'E'
    } else if c == 'f' {
        'F'
    } else if c == 'g' {
        'G'
    } else if c == 'h' {
        'H'
    } else if c == 'i' {
        'I'
    } else if c == 'j' {
        'J'
    } else if c == 'k' {
        'K'
    } else if c == 'l' {
        'L'
    } else if c == 'm' {
        'M'
    } else if c == 'n' {
        'N'
    } else if c == 'o' {
        'O'
    } else if c == 'p' {
        'P'
    } else if c == 'q' {
        'Q'
    } else if c == 'r' {
        'R'
    } else if c == 's' {
        'S'
    } else if c == 't' {
        'T'
    } else if c == 'u' {
        'U'
    } else if c == 'v' {
        'V'
    } else if c == 'w' {
        'W'
    } else if c == 'x' {
        'X'
    } else if c == 'y' {
        'Y'
    } else if c == 'z' {
        'Z'
    } else {
        c
    }
}

fn ascii_upper(c: char) -> (r: char)
    ensures
        r == ascii_upper_char(c),
{
    match c {
        'a' => 'A',
        'b' => 'B',
        'c' => 'C',
        'd' => 'D',
        'e' => 'E',
        'f' => 'F',
        'g' => 'G',
        'h' => 'H',
        'i' => 'I',
        'j' => 'J',
        'k' => 'K',
        'l' => 'L',
        'm' => 'M',
        'n' => 'N',
        'o' => 'O',
        'p' => 'P',
        'q' => 'Q',
        'r' => 'R',
        's' => 'S',
        't' => 'T',
        'u' => 'U',
        'v' => 'V',
        'w' => 'W',
        'x' => 'X',
        'y' => 'Y',
        'z' => 'Z',
        _ => c,
    }
}

/// `s` with every literal space character removed.
pub open spec fn remove_spaces_of(s: Seq<char>) -> Seq<char>
    decreases s.len(),
{
    if s.len() == 0 {
        Seq::<char>::empty()
    } else if s[0] == ' ' {
        remove_spaces_of(s.drop_first())
    } else {
        seq![s[0]] + remove_spaces_of(s.drop_first())
    }
}

/// `s` title-cased from the state `new_word`: the character after a space
/// (and the very first one) is replaced by its ASCII uppercase counterpart.
pub open spec fn title_rec(s: Seq<char>, new_word: bool) -> Seq<char>
    decreases s.len(),
{
    if s.len() == 0 {
        Seq::<char>::empty()
    } else {
        let c = if new_word {
            ascii_upper_char(s[0])
        } else {
            s[0]
        };
        seq![c] + title_rec(s.drop_first(), c == ' ')
    }
}

/// `s` with the first letter of every space-delimited word uppercased.
pub open spec fn title_of(s: Seq<char>) -> Seq<char> {
    title_rec(s, true)
}

/// The password substitution on one character: `a`, `o`, `s`, `i` (lowercase
/// only) become `@`, `0`, `$`, `!`.
pub open spec fn pw_char(c: char) -> char {
    if c == 'a' {
        '@'
    } else if c == 'o' {
        '0'
    } else if c == 's' {
        '$'
    } else if c == 'i' {
        '!'
    } else {
        c
    }
}

/// The password substitution applied to every character of `s`.
pub open spec fn passwordify_of(s: Seq<char>) -> Seq<char> {
    Seq::new(s.len(), |i: int| pw_char(s[i]))
}

/// Case-folds the whole input to lowercase.
pub fn to_lower(input: String) -> (r: String)
    ensures
        r@ == lower_of(input@),
        input@.len() == 0 ==> r@.len() == 0,
{
    lowercase_str(input.as_str())
}

/// Case-folds the whole input to uppercase.
pub fn to_upper(input: String) -> (r: String)
    ensures
        r@ == upper_of(input@),
        input@.len() == 0 ==> r@.len() == 0,
{
    uppercase_str(input.as_str())
}

/// Normalizes the input to a URL-safe slug.
pub fn slugify(input: String) -> (r: String)
    ensures
        r@ == slug_of(input@),
        input@.len() == 0 ==> r@.len() == 0,
{
    slugify_str(input.as_str())
}

/// Deletes every literal space character from the input.
pub fn with_no_spaces(input: String) -> (r: String)
    ensures
        r@ == remove_spaces_of(input@),
{
    let chars = str_chars(input.as_str());
    let ghost whole = chars@;
    let mut out: Vec<char> = Vec::new();
    let mut i: usize = 0;
    proof {
        assert(whole.skip(0) =~= whole);
    }
    while i < chars.len()
        invariant
            i <= chars.len(),
            whole == chars@,
            whole == input@,
            remove_spaces_of(whole) == out@ + remove_spaces_of(whole.skip(i as int)),
        decreases chars.len() - i,
    {
        let ghost suffix = whole.skip(i as int);
        proof {
            assert(suffix[0] == whole[i as int]);
            assert(suffix.drop_first() =~= whole.skip(i as int + 1));
        }
        let c = chars[i];
        if c != ' ' {
            out.push(c);
            proof {
                assert(out@ + remove_spaces_of(suffix.drop_first()) =~= (out@.drop_last())
                    + (seq![suffix[0]] + remove_spaces_of(suffix.drop_first())));
            }
        }
        i = i + 1;
    }
    proof {
        assert(whole.skip(i as int) =~= Seq::<char>::empty());
        assert(out@ =~= remove_spaces_of(whole));
    }
    chars_to_string(&out)
}

/// Uppercases the first letter of every space-delimited word; fails on the
/// first character outside the 7-bit ASCII range.
pub fn to_pascal_case(input: String) -> (r: Result<String, PipelineError>)
    ensures
        all_ascii(input@) ==> (r matches Ok(o) && o@ == title_of(input@)),
        !all_ascii(input@) ==> r == Err::<String, PipelineError>(
            PipelineError::NonAscii { c: input@[first_non_ascii(input@)] },
        ),
{
    let chars = str_chars(input.as_str());
    let ghost whole = chars@;
    let mut out: Vec<char> = Vec::new();
    let mut new_word = true;
    let mut i: usize = 0;
    proof {
        assert(whole.skip(0) =~= whole);
    }
    while i < chars.len()
        invariant
            i <= chars.len(),
            whole == chars@,
            whole == input@,
            forall|j: int| 0 <= j < i ==> is_ascii_char(whole[j]),
            title_of(whole) == out@ + title_rec(whole.skip(i as int), new_word),
        decreases chars.len() - i,
    {
        let ghost suffix = whole.skip(i as int);
        proof {
            assert(suffix[0] == whole[i as int]);
            assert(suffix.drop_first() =~= whole.skip(i as int + 1));
        }
        let c = chars[i];
        if (c as u32) >= 128 {
            proof {
                assert(whole == input@);
                assert(!is_ascii_char(whole[i as int]));
                lemma_first_non_ascii(whole, i as int);
                assert(first_non_ascii(input@) == i as int);
                assert(input@[first_non_ascii(input@)] == c);
            }
            return Err(PipelineError::NonAscii { c });
        }
        let d = if new_word {
            ascii_upper(c)
        } else {
            c
        };
        out.push(d);
        new_word = d == ' ';
        i = i + 1;
        proof {
            assert(out@ + title_rec(whole.skip(i as int), new_word) =~= (out@.drop_last()) + (
            seq![d] + title_rec(suffix.drop_first(), d == ' ')));
        }
    }
    proof {
        assert(whole.skip(i as int) =~= Seq::<char>::empty());
        assert(out@ =~= title_of(whole));
    }
    Ok(chars_to_string(&out))
}

/// Applies the password substitution table to every character of the input.
pub fn passwordify(input: String) -> (r: String)
    ensures
        r@ == passwordify_of(input@),
{
    let chars = str_chars(input.as_str());
    let ghost whole = chars@;
    let mut out: Vec<char> = Vec::new();
    let mut i: usize = 0;
    while i < chars.len()
        invariant
            i <= chars.len(),
            whole == chars@,
            whole == input@,
            out@ == passwordify_of(whole).take(i as int),
        decreases chars.len() - i,
    {
        let c = chars[i];
        let d = if c == 'a' {
            '@'
        } else if c == 'o' {
            '0'
        } else if c == 's' {
            '$'
        } else if c == 'i' {
            '!'
        } else {
            c
        };
        out.push(d);
        i = i + 1;
        proof {
            assert(out@ =~= passwordify_of(whole).take(i as int));
        }
    }
    proof {
        assert(out@ =~= passwordify_of(whole));
    }
    chars_to_string(&out)
}

/// The text returned for the `help` command: the list of command keywords.
pub open spec fn help_text() -> Seq<char> {
    "Commands: lower, upper, nospace, slugify, title, pascal, password, csv, help, exit"@
}

/// Whether `c` is a transform command (neither a control command nor `Csv`,
/// whose payload is a table rather than plain text).
pub open spec fn is_transform_command(c: Command) -> bool {
    c == Command::Lower || c == Command::Upper || c == Command::Slugify || c == Command::Nospace
        || c == Command::Title || c == Command::Pascal || c == Command::Passwordify
}

/// What the pipeline yields for each command, over the payload's characters.
/// `Pascal` is title-casing followed by space removal, and `Passwordify` is
/// both followed by the password substitution; the `Exit` control command
/// never reaches the pipeline.
pub open spec fn spec_transform(s: Seq<char>, command: Command) -> Result<Seq<char>, PipelineError> {
    match command {
        Command::Lower => Ok(lower_of(s)),
        Command::Upper => Ok(upper_of(s)),
        Command::Slugify => Ok(slug_of(s)),
        Command::Nospace => Ok(remove_spaces_of(s)),
        Command::Title => if all_ascii(s) {
            Ok(title_of(s))
        } else {
            Err(PipelineError::NonAscii { c: s[first_non_ascii(s)] })
        },
        Command::Pascal => if all_ascii(s) {
            Ok(remove_spaces_of(title_of(s)))
        } else {
            Err(PipelineError::NonAscii { c: s[first_non_ascii(s)] })
        },
        Command::Passwordify => if all_ascii(s) {
            Ok(passwordify_of(remove_spaces_of(title_of(s))))
        } else {
            Err(PipelineError::NonAscii { c: s[first_non_ascii(s)] })
        },
        Command::Csv => crate::transformers::csv::spec_to_csv(s),
        Command::Help => Ok(help_text()),
        Command::Exit => Ok(s),
    }
}

/// Runs the stages that `command` names over the payload, fail-fast; on an
/// empty payload every transform command returns an empty string.
pub fn transform(input: String, command: Command) -> (r: Result<String, PipelineError>)
    requires
        command != Command::Exit,
        command == Command::Csv ==> crate::transformers::csv::csv_dims_ok(input@),
    ensures
        result_chars(r) == spec_transform(input@, command),
        is_transform_command(command) && input@.len() == 0 ==> (r matches Ok(o) && o@.len()
            == 0),
{
    match command {
        Command::Lower => Ok(to_lower(input)),
        Command::Upper => Ok(to_upper(input)),
        Command::Slugify => Ok(slugify(input)),
        Command::Nospace => Ok(with_no_spaces(input)),
        Command::Title => match to_pascal_case(input) {
            Ok(o) => Ok(o),
            Err(e) => Err(e),
        },
        Command::Pascal => match to_pascal_case(input) {
            Ok(o) => Ok(with_no_spaces(o)),
            Err(e) => Err(e),
        },
        Command::Passwordify => match to_pascal_case(input) {
            Ok(o) => Ok(passwordify(with_no_spaces(o))),
            Err(e) => Err(e),
        },
        Command::Csv => crate::transformers::csv::to_csv(input),
        Command::Help => Ok(String::from_str(
            "Commands: lower, upper, nospace, slugify, title, pascal, password, csv, help, exit",
        )),
        Command::Exit => Ok(input),
    }
}

} // verus!
