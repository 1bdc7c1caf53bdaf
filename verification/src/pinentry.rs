//! The local PIN prompt: what is said to the `pinentry` program, and what it answers.

use vstd::prelude::*;
use vstd::slice::slice_to_vec;
use vstd::utf8::{
    decode_utf8, encode_utf8, encode_utf8_decode_utf8, encode_utf8_valid_utf8, valid_utf8,
};

use crate::crypto::{Hidden, HiddenText};
use crate::error::FidoError;
use crate::text::{chars_of, from_utf8};

verus! {

/// The value of a hexadecimal digit, as an ASCII code.
pub open spec fn hex_code(byte: u8) -> Option<u8> {
    if 0x30 <= byte <= 0x39 {
        Some((byte - 0x30) as u8)
    } else if 0x41 <= byte <= 0x46 {
        Some((byte - 0x41 + 10) as u8)
    } else if 0x61 <= byte <= 0x66 {
        Some((byte - 0x61 + 10) as u8)
    } else {
        None
    }
}

/// The byte that two characters write in hexadecimal; the first may be a plus sign.
pub open spec fn escaped(first: u8, second: u8) -> Option<u8> {
    match (hex_code(first), hex_code(second)) {
        (Some(high), Some(low)) => Some((high * 16 + low) as u8),
        (None, Some(low)) => if first == 0x2b {
            Some(low)
        } else {
            None
        },
        _ => None,
    }
}

/// The bytes that Assuan data stands for: a percent sign and two characters stand for
/// the byte that they write.
pub open spec fn assuan(data: Seq<u8>) -> Option<Seq<u8>>
    decreases data.len(),
{
    if data.len() == 0 {
        Some(seq![])
    } else if data[0] == 0x25 {
        if data.len() < 3 {
            None
        } else {
            match (escaped(data[1], data[2]), assuan(data.skip(3))) {
                (Some(byte), Some(rest)) => Some(seq![byte] + rest),
                _ => None,
            }
        }
    } else {
        match assuan(data.skip(1)) {
            Some(rest) => Some(seq![data[0]] + rest),
            None => None,
        }
    }
}

/// The text that Assuan data stands for, or why it stands for none.
pub open spec fn decoded_text(data: Seq<char>) -> Result<Seq<char>, FidoError> {
    match assuan(encode_utf8(data)) {
        None => Err(FidoError::PinentryResponse),
        Some(bytes) => if valid_utf8(bytes) {
            Ok(decode_utf8(bytes))
        } else {
            Err(FidoError::PinNotUtf8)
        },
    }
}

fn read_hex_code(byte: u8) -> (digit: Option<u8>)
    ensures
        digit == hex_code(byte),
        digit matches Some(value) ==> value < 16,
{
    if 0x30 <= byte && byte <= 0x39 {
        Some(byte - 0x30)
    } else if 0x41 <= byte && byte <= 0x46 {
        Some(byte - 0x41 + 10)
    } else if 0x61 <= byte && byte <= 0x66 {
        Some(byte - 0x61 + 10)
    } else {
        None
    }
}

fn read_escaped(first: u8, second: u8) -> (byte: Option<u8>)
    ensures
        byte == escaped(first, second),
{
    match (read_hex_code(first), read_hex_code(second)) {
        (Some(high), Some(low)) => Some(high * 16 + low),
        (None, Some(low)) => if first == 0x2b {
            Some(low)
        } else {
            None
        },
        _ => None,
    }
}

/// What has been decoded and what is left stand for the whole.
spec fn decoding(whole: Seq<u8>, done: Seq<u8>, left: Seq<u8>) -> bool {
    match assuan(left) {
        Some(rest) => assuan(whole) == Some(done + rest),
        None => assuan(whole) is None,
    }
}

/// What an outcome holds.
pub open spec fn outcome_of(result: Result<String, FidoError>) -> Result<Seq<char>, FidoError> {
    match result {
        Ok(text) => Ok(text@),
        Err(err) => Err(err),
    }
}

/// Decodes Assuan data.
pub fn decode_assuan_data(encoded: &str) -> (result: Result<String, FidoError>)
    ensures
        outcome_of(result) == decoded_text(encoded@),
{
    let bytes = encoded.as_bytes();
    let mut decoded = Hidden::with_capacity(bytes.len());
    let mut at: usize = 0;
    assert(bytes@.skip(0) =~= bytes@);
    proof {
        if let Some(rest) = assuan(bytes@) {
            assert(Seq::<u8>::empty() + rest =~= rest);
        }
    }
    while at < bytes.len()
        invariant
            bytes@ == encode_utf8(encoded@),
            at <= bytes@.len(),
            decoding(bytes@, decoded@, bytes@.skip(at as int)),
        decreases bytes@.len() - at,
    {
        let ghost left = bytes@.skip(at as int);
        let ghost done = decoded@;
        if bytes[at] == 0x25 {
            if bytes.len() - at < 3 {
                return Err(FidoError::PinentryResponse);
            }
            assert(left.skip(3) =~= bytes@.skip(at as int + 3));
            match read_escaped(bytes[at + 1], bytes[at + 2]) {
                None => {
                    return Err(FidoError::PinentryResponse);
                },
                Some(byte) => {
                    decoded.push(byte);
                    proof {
                        if let Some(rest) = assuan(left.skip(3)) {
                            assert(done + (seq![byte] + rest) =~= decoded@ + rest);
                        }
                    }
                },
            }
            at += 3;
        } else {
            assert(left.skip(1) =~= bytes@.skip(at as int + 1));
            decoded.push(bytes[at]);
            proof {
                if let Some(rest) = assuan(left.skip(1)) {
                    assert(done + (seq![left[0]] + rest) =~= decoded@ + rest);
                }
            }
            at += 1;
        }
    }
    assert(decoded@ + Seq::<u8>::empty() =~= decoded@);
    match from_utf8(slice_to_vec(decoded.as_slice())) {
        Some(text) => {
            proof {
                encode_utf8_valid_utf8(text@);
                encode_utf8_decode_utf8(text@);
            }
            Ok(text)
        },
        None => Err(FidoError::PinNotUtf8),
    }
}

/// Data without a percent sign stands for itself.
pub proof fn plain_data_stands_for_itself(data: Seq<u8>)
    requires
        forall|i: int| 0 <= i < data.len() ==> #[trigger] data[i] != 0x25,
    ensures
        assuan(data) == Some(data),
    decreases data.len(),
{
    if data.len() > 0 {
        assert forall|i: int| 0 <= i < data.skip(1).len() implies #[trigger] data.skip(1)[i]
            != 0x25 by {
            assert(data.skip(1)[i] == data[i + 1]);
        }
        plain_data_stands_for_itself(data.skip(1));
        assert(seq![data[0]] + data.skip(1) =~= data);
    } else {
        assert(data =~= seq![]);
    }
}

/// The place of the first line feed.
pub open spec fn first_line_feed(text: Seq<char>, at: int) -> bool {
    0 <= at < text.len() && text[at] == '\n' && forall|i: int|
        0 <= i < at ==> #[trigger] text[i] != '\n'
}

/// A line without the carriage return before its line feed.
pub open spec fn without_return(line: Seq<char>) -> Seq<char> {
    if line.len() > 0 && line.last() == '\r' {
        line.drop_last()
    } else {
        line
    }
}

/// The first line of a text, and what follows it.
pub open spec fn first_line(text: Seq<char>) -> (Seq<char>, Seq<char>) {
    if exists|at: int| first_line_feed(text, at) {
        let at = choose|at: int| first_line_feed(text, at);
        (without_return(text.take(at)), text.skip(at + 1))
    } else {
        (text, seq![])
    }
}

/// The data of a line that carries data.
pub open spec fn line_data(line: Seq<char>) -> Option<Seq<char>> {
    if line.len() >= 2 && line[0] == 'D' && line[1] == ' ' {
        Some(line.skip(2))
    } else {
        None
    }
}

/// The data of the first line that carries any.
pub open spec fn first_data(text: Seq<char>) -> Option<Seq<char>>
    decreases text.len(),
{
    if text.len() == 0 {
        None
    } else {
        match line_data(first_line(text).0) {
            Some(data) => Some(data),
            None => if first_line(text).1.len() < text.len() {
                first_data(first_line(text).1)
            } else {
                None
            },
        }
    }
}

/// The PIN in what the prompt answered, or why there is none.
pub open spec fn entered_pin(succeeded: bool, output: Seq<char>) -> Result<Seq<char>, FidoError> {
    if !succeeded {
        Err(FidoError::PinCancelled)
    } else {
        match first_data(output) {
            None => Err(FidoError::PinCancelled),
            Some(data) => match decoded_text(data) {
                Err(err) => Err(err),
                Ok(pin) => if pin.len() == 0 {
                    Err(FidoError::EmptyPin)
                } else {
                    Ok(pin)
                },
            },
        }
    }
}

/// The place of the first line feed from `from` on, or the end.
fn line_end(chars: &Vec<char>, from: usize) -> (end: usize)
    requires
        from <= chars@.len(),
    ensures
        from <= end <= chars@.len(),
        end < chars@.len() ==> first_line_feed(chars@.skip(from as int), end - from),
        end == chars@.len() ==> !exists|at: int| first_line_feed(chars@.skip(from as int), at),
{
    let ghost text = chars@.skip(from as int);
    let mut at: usize = from;
    while at < chars.len()
        invariant
            from <= at <= chars@.len(),
            text == chars@.skip(from as int),
            forall|i: int| 0 <= i < at - from ==> #[trigger] text[i] != '\n',
        decreases chars@.len() - at,
    {
        assert(text[at - from] == chars@[at as int]);
        if chars[at] == '\n' {
            return at;
        }
        at += 1;
    }
    assert forall|other: int| !first_line_feed(text, other) by {
        if first_line_feed(text, other) {
            assert(text[other] == '\n');
        }
    }
    at
}

/// Where the data of the first line that carries any begins and ends.
fn find_data(chars: &Vec<char>) -> (found: Option<(usize, usize)>)
    ensures
        match found {
            Some((from, to)) => from <= to <= chars@.len() && first_data(chars@) == Some(
                chars@.subrange(from as int, to as int),
            ),
            None => first_data(chars@) is None,
        },
{
    let mut from: usize = 0;
    assert(chars@.skip(0) =~= chars@);
    while from < chars.len()
        invariant
            from <= chars@.len(),
            first_data(chars@.skip(from as int)) == first_data(chars@),
        decreases chars@.len() - from,
    {
        let ghost text = chars@.skip(from as int);
        let end: usize = line_end(chars, from);
        let to: usize = if end < chars.len() && end > from && chars[end - 1] == '\r' {
            end - 1
        } else {
            end
        };
        proof {
            if end < chars@.len() {
                let at = choose|at: int| first_line_feed(text, at);
                assert(first_line_feed(text, end - from));
                assert(at == end - from) by {
                    if at < end - from {
                        assert(text[at] != '\n');
                    }
                    if at > end - from {
                        assert(text[end - from] != '\n');
                    }
                }
                assert(text.skip(at + 1) =~= chars@.skip(end as int + 1));
                if end > from {
                    assert(text.take(at).last() == chars@[end as int - 1]);
                }
                assert(without_return(text.take(at)) =~= chars@.subrange(from as int, to as int));
            } else {
                assert(text =~= chars@.subrange(from as int, to as int));
            }
        }
        let ghost line = chars@.subrange(from as int, to as int);
        assert(first_line(text).0 == line);
        if to - from >= 2 && chars[from] == 'D' && chars[from + 1] == ' ' {
            assert(line.skip(2) =~= chars@.subrange(from as int + 2, to as int));
            return Some((from + 2, to));
        }
        if end == chars.len() {
            assert(first_data(Seq::<char>::empty()) is None);
            return None;
        }
        from = end + 1;
    }
    None
}

/// Reads the PIN in what the prompt answered. It fails exactly when the prompt failed or
/// answered no data, when the data is malformed, or when the PIN is empty.
pub fn read_pin(succeeded: bool, output: &str) -> (result: Result<HiddenText, FidoError>)
    ensures
        match result {
            Ok(pin) => entered_pin(succeeded, output@) == Ok::<_, FidoError>(pin@),
            Err(err) => entered_pin(succeeded, output@) == Err::<Seq<char>, _>(err),
        },
{
    if !succeeded {
        return Err(FidoError::PinCancelled);
    }
    let chars = chars_of(output);
    match find_data(&chars) {
        None => Err(FidoError::PinCancelled),
        Some((from, to)) => {
            let pin = HiddenText::new(decode_assuan_data(output.substring_char(from, to))?);
            if pin.as_str().is_empty() {
                return Err(FidoError::EmptyPin);
            }
            Ok(pin)
        },
    }
}

/// The path of the prompt program that is tried after so many others, if there is one more.
pub open spec fn program_after(tried: nat) -> Option<Seq<char>> {
    if tried == 0 {
        Some("/usr/bin/pinentry-gnome3"@)
    } else if tried == 1 {
        Some("/usr/bin/pinentry"@)
    } else {
        None
    }
}

/// The prompt programs, in the order in which they are tried.
pub fn pinentry_program(tried: usize) -> (program: Option<&'static str>)
    ensures
        match program {
            Some(path) => program_after(tried as nat) == Some(path@),
            None => program_after(tried as nat) is None,
        },
{
    if tried == 0 {
        Some("/usr/bin/pinentry-gnome3")
    } else if tried == 1 {
        Some("/usr/bin/pinentry")
    } else {
        None
    }
}

/// What came of an attempt with a prompt program.
pub enum Attempt {
    /// There is no such program.
    NotFound,
    /// The program could not be started or talked to.
    Failed,
    /// The program ended, with success or not, and answered this.
    Ended { succeeded: bool, output: HiddenText },
}

/// What to do after an attempt, as a mathematical value.
pub enum Prompting {
    /// Try the program at this path.
    Start(Seq<char>),
    /// The PIN.
    Entered(Seq<char>),
    /// There is no PIN.
    Refused(FidoError),
}

/// What to do after an attempt.
pub enum PromptStep {
    /// Try this program.
    Start(&'static str),
    /// The PIN.
    Entered(HiddenText),
    /// There is no PIN.
    Refused(FidoError),
}

impl View for PromptStep {
    type V = Prompting;

    open spec fn view(&self) -> Prompting {
        match self {
            PromptStep::Start(program) => Prompting::Start(program@),
            PromptStep::Entered(pin) => Prompting::Entered(pin@),
            PromptStep::Refused(err) => Prompting::Refused(*err),
        }
    }
}

/// What to do when so many programs have been tried in vain.
pub open spec fn prompting(tried: nat) -> Prompting {
    match program_after(tried) {
        Some(program) => Prompting::Start(program),
        None => Prompting::Refused(FidoError::NoPinentry),
    }
}

/// What to do when so many programs have been tried, the last with this outcome. The next
/// program is tried only where the last is not there at all.
pub open spec fn after_attempt(tried: nat, attempt: Attempt) -> Prompting {
    match attempt {
        Attempt::NotFound => prompting(tried),
        Attempt::Failed => Prompting::Refused(FidoError::PinentryFailed),
        Attempt::Ended { succeeded, output } => match entered_pin(succeeded, output@) {
            Ok(pin) => Prompting::Entered(pin),
            Err(err) => Prompting::Refused(err),
        },
    }
}

/// Says what to do when so many programs have been tried in vain.
pub fn next_prompt(tried: usize) -> (step: PromptStep)
    ensures
        step@ == prompting(tried as nat),
{
    match pinentry_program(tried) {
        Some(program) => PromptStep::Start(program),
        None => PromptStep::Refused(FidoError::NoPinentry),
    }
}

/// Says what to do when so many programs have been tried, the last with this outcome.
pub fn prompt_step(tried: usize, attempt: Attempt) -> (step: PromptStep)
    ensures
        step@ == after_attempt(tried as nat, attempt),
{
    match attempt {
        Attempt::NotFound => next_prompt(tried),
        Attempt::Failed => PromptStep::Refused(FidoError::PinentryFailed),
        Attempt::Ended { succeeded, output } => match read_pin(succeeded, output.as_str()) {
            Ok(pin) => PromptStep::Entered(pin),
            Err(err) => PromptStep::Refused(err),
        },
    }
}

/// What is said to the prompt program.
pub fn pinentry_script() -> (script: &'static str)
    ensures
        script@
            == "SETTITLE Sanzu - YubiKey locale\nSETPROMPT PIN:\nSETDESC Entrez le PIN de la YubiKey branchee sur cet ordinateur\nGETPIN\nBYE\n"@,
{
    "SETTITLE Sanzu - YubiKey locale\nSETPROMPT PIN:\nSETDESC Entrez le PIN de la YubiKey branchee sur cet ordinateur\nGETPIN\nBYE\n"
}

/// The ASCII code of a hexadecimal digit, in upper or in lower case.
pub open spec fn digit_code(digit: int, upper: bool) -> u8 {
    if digit < 10 {
        (0x30 + digit) as u8
    } else if upper {
        (0x41 + digit - 10) as u8
    } else {
        (0x61 + digit - 10) as u8
    }
}

/// A percent sign and two hexadecimal digits, in either case, stand for the byte that they
/// write, and what follows stands for what it stands for alone. Any other byte stands for
/// itself. Nothing stands for nothing.
pub proof fn escapes_stand_for_their_bytes(
    byte: u8,
    rest: Seq<u8>,
    first_upper: bool,
    second_upper: bool,
)
    ensures
        assuan(seq![]) == Some(Seq::<u8>::empty()),
        ({
            let written = seq![
                0x25u8,
                digit_code(byte as int / 16, first_upper),
                digit_code(byte as int % 16, second_upper),
            ];
            match assuan(rest) {
                Some(plain) => assuan(written + rest) == Some(seq![byte] + plain),
                None => assuan(written + rest) is None,
            }
        }),
        byte != 0x25 ==> match assuan(rest) {
            Some(plain) => assuan(seq![byte] + rest) == Some(seq![byte] + plain),
            None => assuan(seq![byte] + rest) is None,
        },
{
    let first = digit_code(byte as int / 16, first_upper);
    let second = digit_code(byte as int % 16, second_upper);
    let written = seq![0x25u8, first, second];
    assert((written + rest).skip(3) =~= rest);
    assert((seq![byte] + rest).skip(1) =~= rest);
    assert(hex_code(first) == Some((byte as int / 16) as u8));
    assert(hex_code(second) == Some((byte as int % 16) as u8));
    assert(escaped(first, second) == Some(byte));
}

/// A percent sign without two characters after it, or before what is no hexadecimal number,
/// makes the data stand for nothing.
pub proof fn broken_escapes_are_refused(first: u8, second: u8, rest: Seq<u8>)
    ensures
        assuan(seq![0x25u8]) is None,
        assuan(seq![0x25u8, first]) is None,
        !is_hex_code(second) || (!is_hex_code(first) && first != 0x2b) ==> assuan(
            seq![0x25u8, first, second] + rest,
        ) is None,
{
}

/// The ASCII code of a hexadecimal digit.
pub open spec fn is_hex_code(code: u8) -> bool {
    0x30 <= code <= 0x39 || 0x41 <= code <= 0x46 || 0x61 <= code <= 0x66
}

/// A line ends before its line feed, and before a carriage return that precedes it.
proof fn lemma_first_line(line: Seq<char>, rest: Seq<char>)
    requires
        forall|i: int| 0 <= i < line.len() ==> #[trigger] line[i] != '\n',
    ensures
        first_line(line + seq!['\n'] + rest) == (without_return(line), rest),
        first_line(line) == (line, Seq::<char>::empty()),
{
    let text = line + seq!['\n'] + rest;
    let at = line.len() as int;
    assert(first_line_feed(text, at)) by {
        assert forall|i: int| 0 <= i < at implies #[trigger] text[i] != '\n' by {
            assert(text[i] == line[i]);
        }
    }
    let found = choose|found: int| first_line_feed(text, found);
    assert(found == at) by {
        if found < at {
            assert(text[found] == line[found]);
        }
        if found > at {
            assert(text[at] != '\n');
        }
    }
    assert(text.take(at) =~= line);
    assert(text.skip(at + 1) =~= rest);
    assert forall|other: int| !first_line_feed(line, other) by {
        if first_line_feed(line, other) {
            assert(line[other] == '\n');
        }
    }
}

/// The data is what follows `D ` on the first line that starts so, whether or not the line is
/// the last, and without a carriage return at its end where it is not. Lines that start
/// otherwise are passed over, and without another there is no data.
pub proof fn data_is_on_the_first_data_line(line: Seq<char>, rest: Seq<char>)
    requires
        forall|i: int| 0 <= i < line.len() ==> #[trigger] line[i] != '\n',
    ensures
        (line.len() == 0 || line.last() != '\r') ==> first_data(
            seq!['D', ' '] + line + seq!['\n'] + rest,
        ) == Some(line),
        first_data(seq!['D', ' '] + line + seq!['\r', '\n'] + rest) == Some(line),
        first_data(seq!['D', ' '] + line) == Some(line),
        line.len() < 2 || line[0] != 'D' || line[1] != ' ' ==> {
            &&& first_data(line + seq!['\n'] + rest) == first_data(rest)
            &&& first_data(line) is None
        },
        first_data(seq![]) is None,
{
    let marked = seq!['D', ' '] + line;
    assert forall|i: int| 0 <= i < marked.len() implies #[trigger] marked[i] != '\n' by {
        if i >= 2 {
            assert(marked[i] == line[i - 2]);
        }
    }
    assert(marked.skip(2) =~= line);
    lemma_first_line(marked, rest);
    let returned = marked + seq!['\r'];
    assert forall|i: int| 0 <= i < returned.len() implies #[trigger] returned[i] != '\n' by {
        if i < marked.len() {
            assert(returned[i] == marked[i]);
        }
    }
    lemma_first_line(returned, rest);
    assert(returned.drop_last() =~= marked);
    assert(seq!['D', ' '] + line + seq!['\r', '\n'] + rest =~= returned + seq!['\n'] + rest);
    if line.len() > 0 {
        assert(marked.last() == line.last());
    }
    lemma_first_line(line, rest);
    assert(without_return(line).len() <= line.len());
    assert(first_data(Seq::<char>::empty()) is None);
}

/// There is a PIN only where the prompt succeeded and answered data that stands for a text
/// that is not empty: that text. A prompt that fails or answers no data was cancelled.
pub proof fn pins_are_entered_or_refused(succeeded: bool, output: Seq<char>)
    ensures
        entered_pin(succeeded, output) == Err::<Seq<char>, _>(FidoError::PinCancelled) <==> !(
        succeeded && first_data(output) is Some),
        succeeded ==> (first_data(output) matches Some(data) ==> match assuan(encode_utf8(data)) {
            None => entered_pin(succeeded, output) == Err::<Seq<char>, _>(
                FidoError::PinentryResponse,
            ),
            Some(bytes) => {
                &&& !valid_utf8(bytes) ==> entered_pin(succeeded, output) == Err::<Seq<char>, _>(
                    FidoError::PinNotUtf8,
                )
                &&& valid_utf8(bytes) && decode_utf8(bytes).len() == 0 ==> entered_pin(
                    succeeded,
                    output,
                ) == Err::<Seq<char>, _>(FidoError::EmptyPin)
                &&& valid_utf8(bytes) && decode_utf8(bytes).len() > 0 ==> entered_pin(
                    succeeded,
                    output,
                ) == Ok::<_, FidoError>(decode_utf8(bytes))
            },
        }),
{
}

/// Two programs are tried, each once: first the one for GNOME, and then the other, which is
/// named the same but for that. A program that is there decides: the next is tried only where
/// the last is not there.
pub proof fn programs_are_tried_in_turn(tried: nat, attempt: Attempt)
    ensures
        prompting(0) matches Prompting::Start(first) && (prompting(1) matches Prompting::Start(
            second,
        ) && first == second + "-gnome3"@ && second == "/usr/bin/pinentry"@),
        tried >= 2 ==> prompting(tried) == Prompting::Refused(FidoError::NoPinentry),
        match attempt {
            Attempt::NotFound => after_attempt(tried, attempt) == prompting(tried),
            Attempt::Failed => after_attempt(tried, attempt) == Prompting::Refused(
                FidoError::PinentryFailed,
            ),
            Attempt::Ended { succeeded, output } => match entered_pin(succeeded, output@) {
                Ok(pin) => after_attempt(tried, attempt) == Prompting::Entered(pin),
                Err(err) => after_attempt(tried, attempt) == Prompting::Refused(err),
            },
        },
{
    reveal_strlit("/usr/bin/pinentry-gnome3");
    reveal_strlit("/usr/bin/pinentry");
    reveal_strlit("-gnome3");
    assert("/usr/bin/pinentry-gnome3"@ =~= "/usr/bin/pinentry"@ + "-gnome3"@);
}

} // verus!
