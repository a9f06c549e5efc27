use vstd::prelude::*;

use crate::gdb_mi::parser_spec::{digits_value, is_digit};
use crate::gdb_mi::strings::{chars_of, decimal, digit_char, lemma_decimal, push_decimal, push_str};
use crate::text::{
    ascii_lower, eq_ignore_ascii_case, equal_ignoring_ascii_case, find_char_from, is_whitespace,
    parse_unsigned, parse_unsigned_str, skip_whitespace, split_once, split_once_chars,
    strip_line_end, strip_trailing_whitespace, trim, trim_line_end, trim_line_end_str, trim_str,
    unsigned_digits,
};

verus! {

/// Largest message body accepted by default: 16 MiB.
pub const DEFAULT_MAX_CONTENT_LENGTH: usize = 16 * 1024 * 1024;

/// Reads DAP messages from an input stream.
#[derive(Debug)]
pub struct DapReader<R> {
    inner: R,
    max_content_length: usize,
}

impl<R> DapReader<R> {
    /// The underlying stream.
    pub closed spec fn spec_inner(&self) -> R {
        self.inner
    }

    /// The largest accepted message body.
    pub closed spec fn spec_max_content_length(&self) -> usize {
        self.max_content_length
    }

    /// A reader with the default body limit.
    pub fn new(inner: R) -> (res: DapReader<R>)
        ensures
            res.spec_inner() == inner,
            res.spec_max_content_length() == DEFAULT_MAX_CONTENT_LENGTH,
    {
        DapReader { inner, max_content_length: DEFAULT_MAX_CONTENT_LENGTH }
    }

    /// A reader with the given body limit.
    pub fn with_max_content_length(inner: R, max_content_length: usize) -> (res: DapReader<R>)
        ensures
            res.spec_inner() == inner,
            res.spec_max_content_length() == max_content_length,
    {
        DapReader { inner, max_content_length }
    }

    /// The largest accepted message body.
    pub fn max_content_length(&self) -> (res: usize)
        ensures
            res == self.spec_max_content_length(),
    {
        self.max_content_length
    }

    /// Mutable access to the underlying stream.
    pub fn inner_mut(&mut self) -> (res: &mut R)
        ensures
            *res == old(self).spec_inner(),
            final(self).spec_inner() == *final(res),
            final(self).spec_max_content_length() == old(self).spec_max_content_length(),
    {
        &mut self.inner
    }

    /// Returns ownership of the underlying stream.
    pub fn into_inner(self) -> (res: R)
        ensures
            res == self.spec_inner(),
    {
        self.inner
    }
}

/// Writes DAP messages to an output stream.
#[derive(Debug)]
pub struct DapWriter<W> {
    inner: W,
}

impl<W> DapWriter<W> {
    /// The underlying stream.
    pub closed spec fn spec_inner(&self) -> W {
        self.inner
    }

    /// A writer over `inner`.
    pub fn new(inner: W) -> (res: DapWriter<W>)
        ensures
            res.spec_inner() == inner,
    {
        DapWriter { inner }
    }

    /// Mutable access to the underlying stream.
    pub fn inner_mut(&mut self) -> (res: &mut W)
        ensures
            *res == old(self).spec_inner(),
            final(self).spec_inner() == *final(res),
    {
        &mut self.inner
    }

    /// Returns ownership of the underlying output stream.
    pub fn into_inner(self) -> (res: W)
        ensures
            res == self.spec_inner(),
    {
        self.inner
    }
}

/// Framing errors of a DAP message, apart from I/O and JSON errors.
#[derive(Debug, PartialEq, Eq)]
pub enum FramingError {
    /// The input ended inside the headers.
    UnexpectedEndOfHeaders,
    /// A header line has no `:`.
    MalformedHeader(String),
    /// No `Content-Length` header was present.
    MissingContentLength,
    /// More than one `Content-Length` header was present.
    DuplicateContentLength,
    /// The `Content-Length` value is not an unsigned number.
    InvalidContentLength { value: String },
    /// The declared body is larger than allowed.
    MessageTooLarge { content_length: usize, maximum: usize },
}

/// Mathematical model of a framing error.
pub enum SpecFramingError {
    UnexpectedEndOfHeaders,
    MalformedHeader(Seq<char>),
    MissingContentLength,
    DuplicateContentLength,
    InvalidContentLength { value: Seq<char> },
    MessageTooLarge { content_length: usize, maximum: usize },
}

impl View for FramingError {
    type V = SpecFramingError;

    open spec fn view(&self) -> SpecFramingError {
        match self {
            FramingError::UnexpectedEndOfHeaders => SpecFramingError::UnexpectedEndOfHeaders,
            FramingError::MalformedHeader(line) => SpecFramingError::MalformedHeader(line@),
            FramingError::MissingContentLength => SpecFramingError::MissingContentLength,
            FramingError::DuplicateContentLength => SpecFramingError::DuplicateContentLength,
            FramingError::InvalidContentLength { value } => SpecFramingError::InvalidContentLength {
                value: value@,
            },
            FramingError::MessageTooLarge { content_length, maximum } =>
                SpecFramingError::MessageTooLarge {
                content_length: *content_length,
                maximum: *maximum,
            },
        }
    }
}

/// Outcome of reading one header line.
#[derive(Debug, PartialEq, Eq)]
pub enum HeaderStep {
    /// More header lines follow.
    Continue,
    /// The headers ended; the body has the given length.
    Complete(usize),
    /// The headers are invalid.
    Failed(FramingError),
}

/// Mathematical model of the outcome of one header line.
pub enum SpecHeaderStep {
    Continue,
    Complete(usize),
    Failed(SpecFramingError),
}

impl View for HeaderStep {
    type V = SpecHeaderStep;

    open spec fn view(&self) -> SpecHeaderStep {
        match self {
            HeaderStep::Continue => SpecHeaderStep::Continue,
            HeaderStep::Complete(n) => SpecHeaderStep::Complete(*n),
            HeaderStep::Failed(e) => SpecHeaderStep::Failed(e@),
        }
    }
}

/// What has been learned from the header lines read so far.
#[derive(Debug, Clone, Copy, PartialEq, Eq, Structural)]
pub struct HeaderState {
    /// The `Content-Length` value, once seen.
    pub content_length: Option<usize>,
    /// Whether any line has been read.
    pub read_any_data: bool,
}

/// The header name whose value is the body length, compared ignoring ASCII case.
pub open spec fn content_length_name() -> Seq<char> {
    "content-length"@
}

/// The effect of one header line, as read with its line ending, on the
/// state: a blank line ends the headers; a line without `:` is malformed;
/// the `Content-Length` header (name compared after trimming, ignoring ASCII
/// case) may occur once and holds an unsigned number after trimming; other
/// headers are ignored.
pub open spec fn header_step(state: HeaderState, line: Seq<char>) -> (HeaderState, SpecHeaderStep) {
    let text = trim_line_end(line);
    let seen = HeaderState { read_any_data: true, ..state };
    if text.len() == 0 {
        match state.content_length {
            Some(n) => (seen, SpecHeaderStep::Complete(n)),
            None => (seen, SpecHeaderStep::Failed(SpecFramingError::MissingContentLength)),
        }
    } else {
        match split_once(text, ':') {
            None => (seen, SpecHeaderStep::Failed(SpecFramingError::MalformedHeader(text))),
            Some((name, value)) => if eq_ignore_ascii_case(trim(name), content_length_name()) {
                if state.content_length is Some {
                    (seen, SpecHeaderStep::Failed(SpecFramingError::DuplicateContentLength))
                } else {
                    match parse_unsigned(trim(value), usize::MAX as nat) {
                        None => (
                            seen,
                            SpecHeaderStep::Failed(
                                SpecFramingError::InvalidContentLength { value: trim(value) },
                            ),
                        ),
                        Some(n) => (
                            HeaderState { content_length: Some(n as usize), read_any_data: true },
                            SpecHeaderStep::Continue,
                        ),
                    }
                }
            } else {
                (seen, SpecHeaderStep::Continue)
            },
        }
    }
}

impl HeaderState {
    /// The state before any header line.
    pub fn new() -> (res: HeaderState)
        ensures
            res.content_length is None,
            !res.read_any_data,
    {
        HeaderState { content_length: None, read_any_data: false }
    }

    /// Reads one header line, including its line ending.
    pub fn accept_line(&mut self, line: &str) -> (step: HeaderStep)
        ensures
            (*final(self), step@) == header_step(*old(self), line@),
    {
        let text = trim_line_end_str(line);
        self.read_any_data = true;
        let chars = chars_of(text.as_str());
        if chars.len() == 0 {
            return match self.content_length {
                Some(n) => HeaderStep::Complete(n),
                None => HeaderStep::Failed(FramingError::MissingContentLength),
            };
        }
        match split_once_chars(&chars, ':') {
            None => HeaderStep::Failed(FramingError::MalformedHeader(text)),
            Some((name, value)) => {
                let name = trim_str(name.as_str());
                proof {
                    reveal_strlit("content-length");
                }
                if equal_ignoring_ascii_case(name.as_str(), "content-length") {
                    if self.content_length.is_some() {
                        return HeaderStep::Failed(FramingError::DuplicateContentLength);
                    }
                    let value = trim_str(value.as_str());
                    let max = usize::MAX as u64;
                    match parse_unsigned_str(value.as_str(), max) {
                        None => HeaderStep::Failed(FramingError::InvalidContentLength { value }),
                        Some(n) => {
                            self.content_length = Some(n as usize);
                            HeaderStep::Continue
                        },
                    }
                } else {
                    HeaderStep::Continue
                }
            },
        }
    }

    /// The outcome when the input ends before another header line: no
    /// message when nothing was read, else truncated headers.
    pub fn end_of_input(&self) -> (res: Result<Option<usize>, FramingError>)
        ensures
            !self.read_any_data ==> res == Ok::<Option<usize>, FramingError>(None),
            self.read_any_data ==> res == Err::<Option<usize>, FramingError>(
                FramingError::UnexpectedEndOfHeaders,
            ),
    {
        if self.read_any_data {
            Err(FramingError::UnexpectedEndOfHeaders)
        } else {
            Ok(None)
        }
    }
}

/// Checks a declared body length against the configured limit.
pub fn check_content_length(content_length: usize, maximum: usize) -> (res: Result<(), FramingError>)
    ensures
        content_length <= maximum ==> res is Ok,
        content_length > maximum ==> res == Err::<(), FramingError>(
            FramingError::MessageTooLarge { content_length, maximum },
        ),
{
    if content_length > maximum {
        Err(FramingError::MessageTooLarge { content_length, maximum })
    } else {
        Ok(())
    }
}

/// The header written before a body of `length` bytes.
pub open spec fn frame_header_text(length: nat) -> Seq<char> {
    "Content-Length: "@ + decimal(length) + "\r\n\r\n"@
}

/// The header written before a body of `length` bytes:
/// `Content-Length: LENGTH` followed by an empty line, both ended by CRLF.
pub fn frame_header(length: usize) -> (res: String)
    ensures
        res@ == frame_header_text(length as nat),
{
    let mut text = String::new();
    push_str(&mut text, "Content-Length: ");
    push_decimal(&mut text, length as u64);
    push_str(&mut text, "\r\n\r\n");
    text
}

/// The `Content-Length` line of a frame header, with its line ending.
pub open spec fn content_length_line(length: nat) -> Seq<char> {
    "Content-Length: "@ + decimal(length) + "\r\n"@
}

proof fn lemma_find_char_at(s: Seq<char>, c: char, i: int, k: int)
    requires
        0 <= i <= k < s.len(),
        s[k] == c,
        forall|j: int| i <= j < k ==> s[j] != c,
    ensures
        find_char_from(s, c, i) == Some(k),
    decreases k - i,
{
    if i < k {
        lemma_find_char_at(s, c, i + 1, k);
    }
}

/// The header line of a frame, read from a fresh state, records the body
/// length and asks for more lines.
proof fn lemma_content_length_line(length: usize)
    ensures
        header_step(HeaderState { content_length: None, read_any_data: false }, content_length_line(length as nat))
            == (HeaderState { content_length: Some(length), read_any_data: true }, SpecHeaderStep::Continue),
{
    reveal_strlit("Content-Length: ");
    reveal_strlit("\r\n");
    reveal_strlit("content-length");
    let n = length as nat;
    lemma_decimal(n);
    let d = decimal(n);
    let prefix = "Content-Length: "@;
    let line = content_length_line(n);
    let text = prefix + d;
    let len = line.len() as int;
    assert(prefix.len() == 16);
    assert(line[len - 1] == '\n');
    assert(line[len - 2] == '\r');
    assert(line[len - 3] == d[d.len() - 1]);
    assert(is_digit(d[d.len() - 1]));
    assert(strip_line_end(line, len - 2) == len - 2);
    assert(strip_line_end(line, len - 1) == len - 2);
    assert(strip_line_end(line, len) == len - 2);
    assert(trim_line_end(line) =~= text);
    assert forall|j: int| 0 <= j < 14 implies text[j] != ':' by {
        assert(text[j] == prefix[j]);
    }
    assert(text[14] == ':');
    lemma_find_char_at(text, ':', 0, 14);
    let name = text.subrange(0, 14);
    let value = text.subrange(15, text.len() as int);
    assert(split_once(text, ':') == Some((name, value)));
    assert(skip_whitespace(name, 0) == 0);
    assert(strip_trailing_whitespace(name, 14) == 14);
    assert(trim(name) =~= name);
    assert(eq_ignore_ascii_case(trim(name), content_length_name())) by {
        assert forall|i: int| 0 <= i < 14 implies ascii_lower(#[trigger] name[i]) == ascii_lower(content_length_name()[i]) by {
            assert(name[i] == prefix[i]);
        }
    }
    assert(value[0] == ' ');
    assert(value[1] == d[0]);
    assert(is_digit(d[0]));
    assert(skip_whitespace(value, 1) == 1);
    assert(skip_whitespace(value, 0) == 1);
    assert(value[value.len() - 1] == d[d.len() - 1]);
    assert(strip_trailing_whitespace(value, value.len() as int) == value.len());
    assert(trim(value) =~= d);
    assert(unsigned_digits(d) == d);
    assert(parse_unsigned(d, usize::MAX as nat) == Some(n));
}

/// A frame header reads back: its two lines, fed one after the other to a
/// fresh header state, end the headers with the body length that was written.
pub proof fn law_frame_header_reads_back(length: usize)
    ensures
        frame_header_text(length as nat) == content_length_line(length as nat) + "\r\n"@,
        header_step(HeaderState { content_length: None, read_any_data: false }, content_length_line(length as nat)).1
            == SpecHeaderStep::Continue,
        header_step(
            header_step(HeaderState { content_length: None, read_any_data: false }, content_length_line(length as nat)).0,
            "\r\n"@,
        ).1 == SpecHeaderStep::Complete(length),
{
    reveal_strlit("\r\n");
    reveal_strlit("\r\n\r\n");
    lemma_content_length_line(length);
    let blank = "\r\n"@;
    assert(strip_line_end(blank, 0) == 0);
    assert(strip_line_end(blank, 1) == 0);
    assert(strip_line_end(blank, 2) == 0);
    assert(trim_line_end(blank).len() == 0);
    assert(frame_header_text(length as nat) =~= content_length_line(length as nat) + blank);
}

/// Bytes of ASCII text.
pub open spec fn ascii_bytes(s: Seq<char>) -> Seq<u8> {
    s.map_values(|c: char| (c as u32) as u8)
}

/// Text of ASCII bytes.
pub open spec fn ascii_text(b: Seq<u8>) -> Seq<char> {
    b.map_values(|x: u8| (x as u32) as char)
}

/// The bytes a writer sends for one message body: the frame header, then the body.
pub open spec fn frame_bytes(body: Seq<u8>) -> Seq<u8> {
    ascii_bytes(frame_header_text(body.len())) + body
}

/// Index just after the first line feed at or after `i`, or the end.
pub open spec fn line_end(input: Seq<u8>, i: int) -> int
    decreases input.len() - i,
{
    if i < 0 || i >= input.len() {
        input.len() as int
    } else if input[i] == 10 {
        i + 1
    } else {
        line_end(input, i + 1)
    }
}

pub proof fn lemma_line_end(input: Seq<u8>, i: int)
    requires
        0 <= i <= input.len(),
    ensures
        i < input.len() ==> i < line_end(input, i) <= input.len(),
        i == input.len() ==> line_end(input, i) == i,
    decreases input.len() - i,
{
    if i < input.len() && input[i] != 10 {
        lemma_line_end(input, i + 1);
    }
}

proof fn lemma_line_end_at(input: Seq<u8>, i: int, k: int)
    requires
        0 <= i <= k < input.len(),
        input[k] == 10,
        forall|j: int| i <= j < k ==> input[j] != 10,
    ensures
        line_end(input, i) == k + 1,
    decreases k - i,
{
    if i < k {
        lemma_line_end_at(input, i + 1, k);
    }
}

/// Outcome of reading the header lines of one message.
pub enum SpecHeadersRead {
    /// The input ended before any header line.
    End,
    /// The headers ended with this body length; the body starts the rest.
    Complete(usize, Seq<u8>),
    /// The headers are invalid, or ended early.
    Failed(SpecFramingError),
}

/// Reading header lines, each up to and including its line feed, as the
/// reader does with `accept_line`, and `end_of_input` when the input ends.
/// Lines are taken as ASCII text.
pub open spec fn read_headers(state: HeaderState, input: Seq<u8>) -> SpecHeadersRead
    decreases input.len(),
{
    if input.len() == 0 {
        if state.read_any_data {
            SpecHeadersRead::Failed(SpecFramingError::UnexpectedEndOfHeaders)
        } else {
            SpecHeadersRead::End
        }
    } else {
        let n = line_end(input, 0);
        proof {
            lemma_line_end(input, 0);
        }
        let (next, step) = header_step(state, ascii_text(input.subrange(0, n)));
        match step {
            SpecHeaderStep::Continue => read_headers(next, input.subrange(n, input.len() as int)),
            SpecHeaderStep::Complete(length) => SpecHeadersRead::Complete(
                length,
                input.subrange(n, input.len() as int),
            ),
            SpecHeaderStep::Failed(e) => SpecHeadersRead::Failed(e),
        }
    }
}

/// Outcome of reading one message from the input.
pub enum SpecFrameRead {
    /// The input ended before another message.
    End,
    /// A message body, and the input after it.
    Frame(Seq<u8>, Seq<u8>),
    /// The framing is invalid.
    Failed(SpecFramingError),
    /// The input ended inside the body.
    TruncatedBody,
}

/// Reading one message: the headers from a fresh state, the limit check,
/// then the body of the declared length.
pub open spec fn read_frame(input: Seq<u8>, max: usize) -> SpecFrameRead {
    match read_headers(HeaderState { content_length: None, read_any_data: false }, input) {
        SpecHeadersRead::End => SpecFrameRead::End,
        SpecHeadersRead::Failed(e) => SpecFrameRead::Failed(e),
        SpecHeadersRead::Complete(length, rest) => if length > max {
            SpecFrameRead::Failed(SpecFramingError::MessageTooLarge { content_length: length, maximum: max })
        } else if rest.len() < length {
            SpecFrameRead::TruncatedBody
        } else {
            SpecFrameRead::Frame(rest.subrange(0, length as int), rest.subrange(length as int, rest.len() as int))
        },
    }
}

/// The bytes of several messages written one after the other.
pub open spec fn frames_bytes(bodies: Seq<Seq<u8>>) -> Seq<u8>
    decreases bodies.len(),
{
    if bodies.len() == 0 {
        Seq::empty()
    } else {
        frame_bytes(bodies[0]) + frames_bytes(bodies.drop_first())
    }
}

proof fn lemma_ascii_round_trip(s: Seq<char>)
    requires
        forall|i: int| 0 <= i < s.len() ==> (#[trigger] s[i] as u32) < 128,
    ensures
        ascii_text(ascii_bytes(s)) == s,
        forall|i: int| 0 <= i < s.len() ==> #[trigger] ascii_bytes(s)[i] as u32 == s[i] as u32,
{
    assert forall|i: int| 0 <= i < s.len() implies #[trigger] ascii_text(ascii_bytes(s))[i] == s[i] by {
        let c = s[i];
        let v = c as u32;
        assert(v < 128);
        assert((v as u8) as u32 == v) by (bit_vector)
            requires
                v < 128,
        ;
        let b = v as u8;
        assert(b as u32 == v);
        vstd::utf8::char_u32_cast(c, v);
        assert(((b as u32) as char) == c);
    }
    assert(ascii_text(ascii_bytes(s)) =~= s);
}

/// One written message reads back: its body, with the reader left at the
/// bytes that follow it.
proof fn lemma_frame_reads_back(body: Seq<u8>, rest: Seq<u8>, max: usize)
    requires
        body.len() <= max,
    ensures
        read_frame(frame_bytes(body) + rest, max) == SpecFrameRead::Frame(body, rest),
{
    reveal_strlit("Content-Length: ");
    reveal_strlit("\r\n");
    reveal_strlit("\r\n\r\n");
    let length = body.len() as usize;
    let n = length as nat;
    lemma_decimal(n);
    lemma_content_length_line(length);
    law_frame_header_reads_back(length);
    let line1 = content_length_line(n);
    let blank = "\r\n"@;
    let header = frame_header_text(n);
    assert(header == line1 + blank);
    let d = decimal(n);
    assert forall|i: int| 0 <= i < header.len() implies (#[trigger] header[i] as u32) < 128 by {
        if 16 <= i < 16 + d.len() {
            assert(header[i] == d[i - 16]);
            assert(is_digit(d[i - 16]));
        }
    }
    assert forall|i: int| 0 <= i < line1.len() implies (#[trigger] line1[i] as u32) < 128 by {
        assert(line1[i] == header[i]);
    }
    assert forall|i: int| 0 <= i < blank.len() implies (#[trigger] blank[i] as u32) < 128 by {}
    lemma_ascii_round_trip(header);
    lemma_ascii_round_trip(line1);
    lemma_ascii_round_trip(blank);
    let input = frame_bytes(body) + rest;
    let hb = ascii_bytes(header);
    let l1 = line1.len() as int;
    assert(input.subrange(0, hb.len() as int) =~= hb);
    assert(ascii_bytes(header) =~= ascii_bytes(line1) + ascii_bytes(blank));
    // The first line ends at the line feed that ends `Content-Length: N\r\n`.
    assert forall|j: int| 0 <= j < l1 - 1 implies input[j] != 10 by {
        assert(input[j] == hb[j]);
        assert(hb[j] as u32 == header[j] as u32);
        if 16 <= j < 16 + d.len() {
            assert(header[j] == d[j - 16]);
            assert(is_digit(d[j - 16]));
        }
    }
    assert(input[l1 - 1] == hb[l1 - 1]);
    assert(input[l1 - 1] == 10);
    lemma_line_end_at(input, 0, l1 - 1);
    assert(input.subrange(0, l1) =~= ascii_bytes(line1));
    let after1 = input.subrange(l1, input.len() as int);
    let first = header_step(HeaderState { content_length: None, read_any_data: false }, line1);
    assert(after1[0] == 13);
    assert(after1[1] == 10);
    lemma_line_end_at(after1, 0, 1);
    assert(after1.subrange(0, 2) =~= ascii_bytes(blank));
    let after2 = after1.subrange(2, after1.len() as int);
    assert(after2 =~= body + rest);
    assert(after1.len() > 0);
    assert(read_headers(first.0, after1) == SpecHeadersRead::Complete(length, after2));
    assert(read_headers(HeaderState { content_length: None, read_any_data: false }, input)
        == read_headers(first.0, after1));
    assert(after2.subrange(0, length as int) =~= body);
    assert(after2.subrange(length as int, after2.len() as int) =~= rest);
}

/// Messages written one after the other read back one by one: reading from
/// the start of the k-th message gives its body and leaves the reader at
/// the start of the next; once all are read, the input is empty and reading
/// reports the end of input, with no error.
pub proof fn law_frames_read_back(bodies: Seq<Seq<u8>>, max: usize, k: int)
    requires
        0 <= k <= bodies.len(),
        forall|i: int| 0 <= i < bodies.len() ==> #[trigger] bodies[i].len() <= max,
    ensures
        k < bodies.len() ==> read_frame(frames_bytes(bodies.subrange(k, bodies.len() as int)), max)
            == SpecFrameRead::Frame(bodies[k], frames_bytes(bodies.subrange(k + 1, bodies.len() as int))),
        k == bodies.len() ==> read_frame(frames_bytes(bodies.subrange(k, bodies.len() as int)), max)
            == SpecFrameRead::End,
{
    let tail = bodies.subrange(k, bodies.len() as int);
    if k < bodies.len() {
        assert(tail[0] == bodies[k]);
        assert(tail.drop_first() =~= bodies.subrange(k + 1, bodies.len() as int));
        lemma_frame_reads_back(bodies[k], frames_bytes(bodies.subrange(k + 1, bodies.len() as int)), max);
    } else {
        assert(tail.len() == 0);
        assert(frames_bytes(tail) =~= Seq::<u8>::empty());
    }
}

} // verus!
