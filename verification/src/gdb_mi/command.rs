use vstd::prelude::*;
use vstd::utf8::encode_scalar;

use super::strings::{digit_char, decimal, push_char, push_decimal, push_signed_decimal, push_str, signed_decimal};

verus! {

/// `std::fmt::Error`, the error type of formatting operations.
#[verifier::external_type_specification]
#[verifier::external_body]
pub struct ExFmtError(std::fmt::Error);

/// Mathematical model of one command argument.
pub enum SpecMiArgument {
    Raw(Seq<char>),
    Quoted(Seq<char>),
    Integer(int),
}

/// Mathematical model of a GDB/MI command.
pub struct SpecMiCommand {
    pub token: Option<u64>,
    pub operation: Seq<char>,
    pub arguments: Seq<SpecMiArgument>,
}

/// A GDB/MI command with an optional numeric token.
#[derive(Debug, Clone, PartialEq, Eq)]
pub struct MiCommand {
    token: Option<u64>,
    operation: String,
    arguments: Vec<MiArgument>,
}

/// One argument of a GDB/MI command.
#[derive(Debug, Clone, PartialEq, Eq)]
enum MiArgument {
    Raw(String),
    String(String),
    Integer(i64),
}

impl View for MiArgument {
    type V = SpecMiArgument;

    closed spec fn view(&self) -> SpecMiArgument {
        match self {
            MiArgument::Raw(s) => SpecMiArgument::Raw(s@),
            MiArgument::String(s) => SpecMiArgument::Quoted(s@),
            MiArgument::Integer(i) => SpecMiArgument::Integer(*i as int),
        }
    }
}

impl View for MiCommand {
    type V = SpecMiCommand;

    closed spec fn view(&self) -> SpecMiCommand {
        SpecMiCommand {
            token: self.token,
            operation: self.operation@,
            arguments: self.arguments@.map_values(|a: MiArgument| a@),
        }
    }
}

/// Unicode control characters (general category Cc): U+0000..=U+001F and
/// U+007F..=U+009F (`char::is_control`).
pub open spec fn is_control(c: char) -> bool {
    (c as u32) <= 0x1F || (0x7F <= (c as u32) && (c as u32) <= 0x9F)
}

/// `\` followed by the three octal digits of a byte.
pub open spec fn octal_byte(b: u8) -> Seq<char> {
    seq![
        '\\',
        digit_char((b / 64) as nat),
        digit_char(((b / 8) % 8) as nat),
        digit_char((b % 8) as nat),
    ]
}

/// Octal escapes of a byte sequence.
pub open spec fn octal_bytes(bytes: Seq<u8>) -> Seq<char>
    decreases bytes.len(),
{
    if bytes.len() == 0 {
        Seq::empty()
    } else {
        octal_bytes(bytes.drop_last()) + octal_byte(bytes.last())
    }
}

/// How one character is written inside a quoted MI argument.
pub open spec fn quoted_char(c: char) -> Seq<char> {
    if c == '\\' {
        seq!['\\', '\\']
    } else if c == '"' {
        seq!['\\', '"']
    } else if c == '\n' {
        seq!['\\', 'n']
    } else if c == '\r' {
        seq!['\\', 'r']
    } else if c == '\t' {
        seq!['\\', 't']
    } else if c == '\x08' {
        seq!['\\', 'b']
    } else if c == '\x0c' {
        seq!['\\', 'f']
    } else if is_control(c) {
        octal_bytes(encode_scalar(c as u32))
    } else {
        seq![c]
    }
}

/// The escaped characters of a quoted MI argument, without the quotes.
pub open spec fn quoted_body(s: Seq<char>) -> Seq<char>
    decreases s.len(),
{
    if s.len() == 0 {
        Seq::empty()
    } else {
        quoted_body(s.drop_last()) + quoted_char(s.last())
    }
}

/// A string written as a quoted MI argument.
pub open spec fn quoted(s: Seq<char>) -> Seq<char> {
    seq!['"'] + quoted_body(s) + seq!['"']
}

/// The text of one argument.
pub open spec fn argument_text(a: SpecMiArgument) -> Seq<char> {
    match a {
        SpecMiArgument::Raw(s) => s,
        SpecMiArgument::Quoted(s) => quoted(s),
        SpecMiArgument::Integer(i) => signed_decimal(i),
    }
}

/// The arguments, each preceded by a space.
pub open spec fn arguments_text(args: Seq<SpecMiArgument>) -> Seq<char>
    decreases args.len(),
{
    if args.len() == 0 {
        Seq::empty()
    } else {
        arguments_text(args.drop_last()) + seq![' '] + argument_text(args.last())
    }
}

/// The decimal token, when there is one.
pub open spec fn token_text(token: Option<u64>) -> Seq<char> {
    match token {
        Some(t) => decimal(t as nat),
        None => Seq::empty(),
    }
}

/// The text of a command, without the terminating newline.
pub open spec fn command_text(c: SpecMiCommand) -> Seq<char> {
    token_text(c.token) + seq!['-'] + c.operation + arguments_text(c.arguments)
}

impl MiCommand {
    /// Creates a command without a token.
    ///
    /// The operation name must not include the leading `-`.
    pub fn new(operation: &str) -> (res: MiCommand)
        ensures
            res@ == (SpecMiCommand { token: None, operation: operation@, arguments: Seq::empty() }),
    {
        let res = MiCommand { token: None, operation: operation.to_owned(), arguments: Vec::new() };
        assert(res@.arguments =~= Seq::empty());
        res
    }

    /// Assigns a numeric token to the command.
    pub fn with_token(self, token: u64) -> (res: MiCommand)
        ensures
            res@ == (SpecMiCommand { token: Some(token), ..self@ }),
    {
        MiCommand { token: Some(token), operation: self.operation, arguments: self.arguments }
    }

    fn push_argument(self, argument: MiArgument) -> (res: MiCommand)
        ensures
            res@ == (SpecMiCommand { arguments: self@.arguments.push(argument@), ..self@ }),
    {
        let mut arguments = self.arguments;
        let ghost before = arguments@;
        arguments.push(argument);
        let res = MiCommand { token: self.token, operation: self.operation, arguments };
        assert(res@.arguments =~= self@.arguments.push(argument@));
        res
    }

    /// Appends a raw argument.
    ///
    /// Raw arguments are written without quoting or escaping. Use this only
    /// for arguments whose syntax is controlled by the adapter, such as
    /// `qnx`, `--thread`, or a numeric identifier.
    pub fn raw_argument(self, argument: &str) -> (res: MiCommand)
        ensures
            res@ == (SpecMiCommand {
                arguments: self@.arguments.push(SpecMiArgument::Raw(argument@)),
                ..self@
            }),
    {
        self.push_argument(MiArgument::Raw(argument.to_owned()))
    }

    /// Appends a quoted and escaped string argument.
    pub fn string_argument(self, argument: &str) -> (res: MiCommand)
        ensures
            res@ == (SpecMiCommand {
                arguments: self@.arguments.push(SpecMiArgument::Quoted(argument@)),
                ..self@
            }),
    {
        self.push_argument(MiArgument::String(argument.to_owned()))
    }

    /// Appends an integer argument.
    pub fn integer_argument(self, argument: i64) -> (res: MiCommand)
        ensures
            res@ == (SpecMiCommand {
                arguments: self@.arguments.push(SpecMiArgument::Integer(argument as int)),
                ..self@
            }),
    {
        self.push_argument(MiArgument::Integer(argument))
    }

    /// Returns the command token.
    pub fn token(&self) -> (res: Option<u64>)
        ensures
            res == self@.token,
    {
        self.token
    }

    /// Returns the MI operation name without the leading `-`.
    pub fn operation(&self) -> (res: &str)
        ensures
            res@ == self@.operation,
    {
        self.operation.as_str()
    }

    /// Serializes the command without a terminating newline.
    ///
    /// Writing into a `String` cannot fail, so the result is always `Ok`.
    pub fn encode(&self) -> (res: Result<String, std::fmt::Error>)
        ensures
            res matches Ok(text) && text@ == command_text(self@),
    {
        let mut output = String::new();
        if let Some(token) = self.token {
            push_decimal(&mut output, token);
        }
        push_char(&mut output, '-');
        push_str(&mut output, self.operation.as_str());
        let ghost start = output@;
        let mut i: usize = 0;
        while i < self.arguments.len()
            invariant
                i <= self.arguments.len(),
                output@ == start + arguments_text(self@.arguments.take(i as int)),
            decreases self.arguments.len() - i,
        {
            assert(self@.arguments.take(i + 1).drop_last() =~= self@.arguments.take(i as int));
            push_char(&mut output, ' ');
            self.arguments[i].write_to(&mut output);
            i = i + 1;
        }
        assert(self@.arguments.take(self.arguments.len() as int) =~= self@.arguments);
        assert(output@ =~= command_text(self@));
        Ok(output)
    }
}

impl MiArgument {
    fn write_to(&self, output: &mut String)
        ensures
            final(output)@ == old(output)@ + argument_text(self@),
    {
        match self {
            MiArgument::Raw(value) => push_str(output, value.as_str()),
            MiArgument::String(value) => write_quoted_string(output, value.as_str()),
            MiArgument::Integer(value) => push_signed_decimal(output, *value),
        }
    }
}

/// The octal escapes of a single byte.
proof fn lemma_octal_bytes_single(b: u8)
    ensures
        octal_bytes(seq![b]) == octal_byte(b),
{
    let one = seq![b];
    assert(one.drop_last() =~= Seq::<u8>::empty());
    assert(one.last() == b);
    assert(octal_bytes(Seq::<u8>::empty()) == Seq::<char>::empty());
    assert(Seq::<char>::empty() + octal_byte(b) =~= octal_byte(b));
}

/// Appends `\` and the three octal digits of `b`.
fn push_octal_byte(output: &mut String, b: u8)
    ensures
        final(output)@ == old(output)@ + octal_byte(b),
{
    push_char(output, '\\');
    push_char(output, (48u8 + b / 64) as char);
    push_char(output, (48u8 + (b / 8) % 8) as char);
    push_char(output, (48u8 + b % 8) as char);
    assert(final(output)@ =~= old(output)@ + octal_byte(b));
}

/// Appends the escaped form of one character.
fn push_quoted_char(output: &mut String, character: char)
    ensures
        final(output)@ == old(output)@ + quoted_char(character),
{
    if character == '\\' {
        push_str(output, "\\\\");
        proof { reveal_strlit("\\\\"); }
    } else if character == '"' {
        push_str(output, "\\\"");
        proof { reveal_strlit("\\\""); }
    } else if character == '\n' {
        push_str(output, "\\n");
        proof { reveal_strlit("\\n"); }
    } else if character == '\r' {
        push_str(output, "\\r");
        proof { reveal_strlit("\\r"); }
    } else if character == '\t' {
        push_str(output, "\\t");
        proof { reveal_strlit("\\t"); }
    } else if character == '\x08' {
        push_str(output, "\\b");
        proof { reveal_strlit("\\b"); }
    } else if character == '\x0c' {
        push_str(output, "\\f");
        proof { reveal_strlit("\\f"); }
    } else {
        let v = character as u32;
        if v <= 0x1f || v == 0x7f {
            let b = (v & 0x7F) as u8;
            proof {
                assert(encode_scalar(v) =~= seq![b]);
                assert(seq![b].drop_last() =~= Seq::<u8>::empty());
                lemma_octal_bytes_single(b);
            }
            push_octal_byte(output, b);
        } else if 0x80 <= v && v <= 0x9f {
            let b1 = 0xC0u8 | (((v >> 6) & 0x1F) as u8);
            let b2 = 0x80u8 | ((v & 0x3F) as u8);
            let ghost mid = output@;
            push_octal_byte(output, b1);
            push_octal_byte(output, b2);
            proof {
                assert(encode_scalar(v) =~= seq![b1, b2]);
                assert(seq![b1, b2].drop_last() =~= seq![b1]);
                assert(seq![b1].drop_last() =~= Seq::<u8>::empty());
                lemma_octal_bytes_single(b1);
                assert(octal_bytes(seq![b1, b2]) =~= octal_bytes(seq![b1]) + octal_byte(b2));
                assert(octal_bytes(seq![b1, b2]) =~= octal_byte(b1) + octal_byte(b2));
            }
        } else {
            push_char(output, character);
        }
    }
    assert(final(output)@ =~= old(output)@ + quoted_char(character));
}

/// Appends `value` as a double-quoted MI string, escaping backslashes,
/// quotes and control characters.
fn write_quoted_string(output: &mut String, value: &str)
    ensures
        final(output)@ == old(output)@ + quoted(value@),
{
    push_char(output, '"');
    let ghost start = output@;
    for character in it: value.chars()
        invariant
            it.seq() == value@,
            output@ == start + quoted_body(it.seq().take(it.index() as int)),
    {
        assert(it.seq().take(it.index() + 1).drop_last() =~= it.seq().take(it.index() as int));
        push_quoted_char(output, character);
    }
    assert(value@.take(value@.len() as int) =~= value@);
    push_char(output, '"');
    assert(final(output)@ =~= old(output)@ + quoted(value@));
}

/// Generates monotonically increasing GDB/MI command tokens.
#[derive(Debug)]
pub struct MiTokenGenerator {
    next: u64,
}

impl MiTokenGenerator {
    /// The token that the next call of `next_token` returns.
    pub closed spec fn upcoming(&self) -> u64 {
        self.next
    }

    /// Creates a token generator whose first token is `1`.
    pub fn new() -> (res: MiTokenGenerator)
        ensures
            res.upcoming() == 1,
    {
        MiTokenGenerator { next: 1 }
    }

    /// The token that the next call of `next_token` returns.
    pub fn peek(&self) -> (token: u64)
        ensures
            token == self.upcoming(),
    {
        self.next
    }

    /// Returns the next command token.
    ///
    /// The `u64` token space must not be exhausted.
    pub fn next_token(&mut self) -> (token: u64)
        requires
            old(self).upcoming() < u64::MAX,
        ensures
            token == old(self).upcoming(),
            final(self).upcoming() == token + 1,
    {
        let current = self.next;
        self.next = self.next + 1;
        current
    }
}

impl Default for MiTokenGenerator {
    fn default() -> (res: MiTokenGenerator)
        ensures
            res.upcoming() == 1,
    {
        MiTokenGenerator::new()
    }
}

} // verus!
