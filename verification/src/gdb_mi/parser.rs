use vstd::prelude::*;
use vstd::utf8::encode_utf8;

use super::parser_spec::{
    bare_end, digits_end, digits_value, identifier_end, is_digit, is_identifier_char,
    is_octal_digit, lemma_identifier_end, octal_run, peek, prompt_line, spec_bare_const,
    spec_c_string, spec_c_string_body, spec_class_and_results, spec_consume, spec_escape,
    spec_expect, spec_identifier, spec_list, spec_list_item, spec_list_items,
    spec_looks_like_result, spec_optional_results, spec_parse_record, spec_result, spec_token,
    spec_tuple, spec_tuple_items, spec_value, SpecParse, SpecParseError,
};
use super::record::{MiAsyncRecord, MiRecord, MiResultRecord, SpecMiRecord, SpecRecordBody};
use super::strings::{byte_offset_of, chars_of, push_char, str_equal, string_from_chars};
use super::value::{
    items_view, lemma_items_view_push, lemma_results_view_push, results_view, MiListItem,
    MiResult, MiValue, SpecMiValue,
};

verus! {

/// Error produced while parsing GDB/MI output. Positions are byte offsets
/// into the parsed line.
#[derive(Debug, PartialEq, Eq)]
pub enum MiParseError {
    /// The record does not contain a record prefix.
    MissingRecordPrefix,
    /// Unknown record prefix character.
    UnknownRecordPrefix(char),
    /// Unexpected end of input.
    UnexpectedEndOfInput,
    /// A specific character was expected.
    UnexpectedCharacter { expected: char, actual: char, position: usize },
    /// An identifier was expected.
    ExpectedIdentifier { position: usize },
    /// A value was expected.
    ExpectedValue { position: usize },
    /// A C string is not terminated.
    UnterminatedString,
    /// An escape sequence is not terminated.
    UnterminatedEscape,
    /// The numeric token does not fit in 64 bits.
    InvalidToken { value: String },
    /// The octal escape does not denote a byte.
    InvalidOctalEscape { value: String },
    /// Input remains after a complete record.
    TrailingInput(String),
}

impl View for MiParseError {
    type V = SpecParseError;

    open spec fn view(&self) -> SpecParseError {
        match self {
            MiParseError::MissingRecordPrefix => SpecParseError::MissingRecordPrefix,
            MiParseError::UnknownRecordPrefix(c) => SpecParseError::UnknownRecordPrefix(*c),
            MiParseError::UnexpectedEndOfInput => SpecParseError::UnexpectedEndOfInput,
            MiParseError::UnexpectedCharacter { expected, actual, position } =>
                SpecParseError::UnexpectedCharacter {
                    expected: *expected,
                    actual: *actual,
                    position: *position as int,
                },
            MiParseError::ExpectedIdentifier { position } => SpecParseError::ExpectedIdentifier {
                position: *position as int,
            },
            MiParseError::ExpectedValue { position } => SpecParseError::ExpectedValue {
                position: *position as int,
            },
            MiParseError::UnterminatedString => SpecParseError::UnterminatedString,
            MiParseError::UnterminatedEscape => SpecParseError::UnterminatedEscape,
            MiParseError::InvalidToken { value } => SpecParseError::InvalidToken { value: value@ },
            MiParseError::InvalidOctalEscape { value } => SpecParseError::InvalidOctalEscape {
                value: value@,
            },
            MiParseError::TrailingInput(rest) => SpecParseError::TrailingInput(rest@),
        }
    }
}

/// `res` is the executable outcome described by `spec`, ending at `end`.
pub open spec fn agrees<T: View>(
    res: Result<T, MiParseError>,
    spec: SpecParse<T::V>,
    end: int,
) -> bool {
    match spec {
        Ok((v, q)) => res matches Ok(x) && x@ == v && end == q,
        Err(e) => res matches Err(x) && x@ == e,
    }
}

/// Parses one complete line of GDB/MI output.
///
/// The terminating newline must not be included.
pub fn parse_record(line: &str) -> (res: Result<MiRecord, MiParseError>)
    ensures
        match spec_parse_record(line@) {
            Ok(r) => res matches Ok(x) && x@ == r,
            Err(e) => res matches Err(x) && x@ == e,
        },
{
    if line.is_empty() {
        return Ok(MiRecord::Empty);
    }
    proof {
        reveal_strlit("(gdb)");
        reveal_strlit("(gdb) ");
        assert("(gdb)"@ =~= prompt_line());
        assert("(gdb) "@ =~= prompt_line().push(' '));
    }
    if str_equal(line, "(gdb)") || str_equal(line, "(gdb) ") {
        return Ok(MiRecord::Prompt);
    }
    let mut parser = Parser::new(line);
    let token = parser.parse_optional_token()?;
    let prefix = match parser.next_char() {
        Some(c) => c,
        None => {
            return Err(MiParseError::MissingRecordPrefix);
        },
    };
    let record = if prefix == '^' {
        MiRecord::Result(parser.parse_result_record(token)?)
    } else if prefix == '*' {
        MiRecord::ExecAsync(parser.parse_async_record(token)?)
    } else if prefix == '+' {
        MiRecord::StatusAsync(parser.parse_async_record(token)?)
    } else if prefix == '=' {
        MiRecord::NotifyAsync(parser.parse_async_record(token)?)
    } else if prefix == '~' {
        MiRecord::ConsoleStream(parser.parse_stream_record()?)
    } else if prefix == '@' {
        MiRecord::TargetStream(parser.parse_stream_record()?)
    } else if prefix == '&' {
        MiRecord::LogStream(parser.parse_stream_record()?)
    } else {
        return Err(MiParseError::UnknownRecordPrefix(prefix));
    };
    parser.expect_end()?;
    Ok(record)
}

/// Recursive-descent reader over the characters of one line.
struct Parser {
    input: Vec<char>,
    index: usize,
}

impl Parser {
    spec fn wf(&self) -> bool {
        &&& self.index <= self.input.len()
        &&& encode_utf8(self.input@).len() <= usize::MAX
    }

    spec fn text(&self) -> Seq<char> {
        self.input@
    }

    fn new(input: &str) -> (p: Parser)
        ensures
            p.wf(),
            p.text() == input@,
            p.index == 0,
    {
        let bytes = input.as_bytes();
        let _n = bytes.len();
        Parser { input: chars_of(input), index: 0 }
    }

    fn peek_char(&self) -> (c: Option<char>)
        requires
            self.wf(),
        ensures
            c == peek(self.text(), self.index as int),
    {
        if self.index < self.input.len() {
            Some(self.input[self.index])
        } else {
            None
        }
    }

    fn next_char(&mut self) -> (c: Option<char>)
        requires
            old(self).wf(),
        ensures
            final(self).wf(),
            final(self).text() == old(self).text(),
            c == peek(old(self).text(), old(self).index as int),
            final(self).index == if c is Some {
                old(self).index + 1
            } else {
                old(self).index as int
            },
    {
        let c = self.peek_char();
        if c.is_some() {
            self.index = self.index + 1;
        }
        c
    }

    fn consume_char(&mut self, expected: char) -> (b: bool)
        requires
            old(self).wf(),
        ensures
            final(self).wf(),
            final(self).text() == old(self).text(),
            b == spec_consume(old(self).text(), old(self).index as int, expected),
            final(self).index == if b {
                old(self).index + 1
            } else {
                old(self).index as int
            },
    {
        match self.peek_char() {
            Some(c) => {
                if c == expected {
                    self.index = self.index + 1;
                    true
                } else {
                    false
                }
            },
            None => false,
        }
    }

    fn expect_char(&mut self, expected: char) -> (res: Result<(), MiParseError>)
        requires
            old(self).wf(),
        ensures
            final(self).wf(),
            final(self).text() == old(self).text(),
            match spec_expect(old(self).text(), old(self).index as int, expected) {
                Ok(q) => res is Ok && final(self).index == q,
                Err(e) => res matches Err(x) && x@ == e,
            },
    {
        let start = self.index;
        match self.next_char() {
            Some(actual) => {
                if actual == expected {
                    Ok(())
                } else {
                    let position = byte_offset_of(&self.input, start);
                    Err(MiParseError::UnexpectedCharacter { expected, actual, position })
                }
            },
            None => Err(MiParseError::UnexpectedEndOfInput),
        }
    }

    fn expect_end(&self) -> (res: Result<(), MiParseError>)
        requires
            self.wf(),
        ensures
            self.index == self.input.len() ==> res is Ok,
            self.index != self.input.len() ==> (res matches Err(x) && x@
                == SpecParseError::TrailingInput(
                self.text().subrange(self.index as int, self.text().len() as int),
            )),
    {
        if self.index == self.input.len() {
            return Ok(());
        }
        Err(MiParseError::TrailingInput(string_from_chars(&self.input, self.index, self.input.len())))
    }

    fn parse_optional_token(&mut self) -> (res: Result<Option<u64>, MiParseError>)
        requires
            old(self).wf(),
            old(self).index == 0,
        ensures
            final(self).wf(),
            final(self).text() == old(self).text(),
            agrees(res, spec_token(old(self).text()), final(self).index as int),
    {
        let ghost s = self.text();
        let start = self.index;
        while self.index < self.input.len() && '0' <= self.input[self.index] && self.input[self.index] <= '9'
            invariant
                self.wf(),
                self.text() == s,
                s == old(self).text(),
                start == 0,
                digits_end(s, 0) == digits_end(s, self.index as int),
                forall|k: int| 0 <= k < self.index ==> is_digit(#[trigger] s[k]),
            decreases self.input.len() - self.index,
        {
            self.index = self.index + 1;
        }
        let end = self.index;
        assert(digits_end(s, end as int) == end);
        if end == start {
            return Ok(None);
        }
        let ghost d = s.subrange(0, end as int);
        let mut value: u64 = 0;
        let mut i: usize = 0;
        while i < end
            invariant
                i <= end <= s.len(),
                self.wf(),
                self.text() == s,
                s == old(self).text(),
                self.index == end,
                d == s.subrange(0, end as int),
                digits_end(s, 0) == end,
                forall|k: int| 0 <= k < end ==> is_digit(#[trigger] s[k]),
                value == digits_value(d.take(i as int), 10),
            decreases end - i,
        {
            assert(d.take(i + 1).drop_last() =~= d.take(i as int));
            let digit = (self.input[i] as u32 - '0' as u32) as u64;
            if value > 1844674407370955161u64 || (value == 1844674407370955161u64 && digit > 5) {
                proof {
                    lemma_digits_value_prefix(d, (i + 1) as int, 10);
                }
                return Err(MiParseError::InvalidToken { value: string_from_chars(&self.input, 0, end) });
            }
            value = value * 10 + digit;
            i = i + 1;
        }
        assert(d.take(end as int) =~= d);
        Ok(Some(value))
    }

    fn parse_identifier(&mut self) -> (res: Result<String, MiParseError>)
        requires
            old(self).wf(),
        ensures
            final(self).wf(),
            final(self).text() == old(self).text(),
            agrees(res, spec_identifier(old(self).text(), old(self).index as int), final(self).index as int),
            res is Ok ==> final(self).index > old(self).index,
    {
        let ghost s = self.text();
        let start = self.index;
        while self.index < self.input.len() && is_identifier_character(self.input[self.index])
            invariant
                self.wf(),
                self.text() == s,
                s == old(self).text(),
                start <= self.index,
                identifier_end(s, start as int) == identifier_end(s, self.index as int),
            decreases self.input.len() - self.index,
        {
            self.index = self.index + 1;
        }
        if self.index == start {
            let position = byte_offset_of(&self.input, self.index);
            return Err(MiParseError::ExpectedIdentifier { position });
        }
        Ok(string_from_chars(&self.input, start, self.index))
    }

    fn parse_bare_const(&mut self) -> (res: Result<MiValue, MiParseError>)
        requires
            old(self).wf(),
        ensures
            final(self).wf(),
            final(self).text() == old(self).text(),
            agrees(res, spec_bare_const(old(self).text(), old(self).index as int), final(self).index as int),
            res is Ok ==> final(self).index > old(self).index,
    {
        let ghost s = self.text();
        let start = self.index;
        while self.index < self.input.len() && self.input[self.index] != ','
            && self.input[self.index] != '}' && self.input[self.index] != ']'
            invariant
                self.wf(),
                self.text() == s,
                s == old(self).text(),
                start <= self.index,
                bare_end(s, start as int) == bare_end(s, self.index as int),
            decreases self.input.len() - self.index,
        {
            self.index = self.index + 1;
        }
        if self.index == start {
            let position = byte_offset_of(&self.input, self.index);
            return Err(MiParseError::ExpectedValue { position });
        }
        Ok(MiValue::Const(string_from_chars(&self.input, start, self.index)))
    }

    fn parse_octal_escape(&mut self, first: char) -> (res: Result<char, MiParseError>)
        requires
            old(self).wf(),
            is_octal_digit(first),
        ensures
            final(self).wf(),
            final(self).text() == old(self).text(),
            agrees(res, spec_escape(old(self).text(), old(self).index as int, first), final(self).index as int),
    {
        let ghost s = self.text();
        let ghost q = self.index as int;
        let mut digits: Vec<char> = Vec::new();
        digits.push(first);
        let mut count: usize = 0;
        while count < 2 && self.index < self.input.len() && '0' <= self.input[self.index]
            && self.input[self.index] <= '7'
            invariant
                self.wf(),
                self.text() == s,
                s == old(self).text(),
                count <= 2,
                self.index == q + count,
                count <= octal_run(s, q),
                digits@ == seq![first] + s.subrange(q, q + count),
                count == 1 ==> is_octal_digit(s[q]),
            decreases 2 - count,
        {
            digits.push(self.input[self.index]);
            self.index = self.index + 1;
            count = count + 1;
            assert(digits@ =~= seq![first] + s.subrange(q, q + count));
        }
        assert(count == octal_run(s, q));
        let mut value: u32 = 0;
        let mut i: usize = 0;
        while i < digits.len()
            invariant
                i <= digits.len() <= 3,
                forall|k: int| 0 <= k < digits.len() ==> is_octal_digit(#[trigger] digits@[k]),
                value == digits_value(digits@.take(i as int), 8),
                value <= 511,
            decreases digits.len() - i,
        {
            assert(digits@.take(i + 1).drop_last() =~= digits@.take(i as int));
            let d = digits[i] as u32 - '0' as u32;
            assert(i < 3);
            proof {
                lemma_digits_value_bound(digits@.take(i as int), 8);
            }
            value = value * 8 + d;
            i = i + 1;
        }
        assert(digits@.take(digits.len() as int) =~= digits@);
        if value > 255 {
            let mut text = String::new();
            let mut j: usize = 0;
            while j < digits.len()
                invariant
                    j <= digits.len(),
                    text@ == digits@.take(j as int),
                decreases digits.len() - j,
            {
                push_char(&mut text, digits[j]);
                assert(digits@.take(j + 1) =~= digits@.take(j as int).push(digits@[j as int]));
                j = j + 1;
            }
            assert(digits@.take(digits.len() as int) =~= digits@);
            return Err(MiParseError::InvalidOctalEscape { value: text });
        }
        Ok((value as u8) as char)
    }

    fn push_escape(&mut self, output: &mut String, escaped: char) -> (res: Result<(), MiParseError>)
        requires
            old(self).wf(),
        ensures
            final(self).wf(),
            final(self).text() == old(self).text(),
            match spec_escape(old(self).text(), old(self).index as int, escaped) {
                Ok((c, q)) => res is Ok && final(output)@ == old(output)@.push(c) && final(self).index == q,
                Err(e) => res matches Err(x) && x@ == e,
            },
    {
        if escaped == 'a' {
            push_char(output, '\x07');
        } else if escaped == 'b' {
            push_char(output, '\x08');
        } else if escaped == 't' {
            push_char(output, '\t');
        } else if escaped == 'n' {
            push_char(output, '\n');
        } else if escaped == 'v' {
            push_char(output, '\x0b');
        } else if escaped == 'f' {
            push_char(output, '\x0c');
        } else if escaped == 'r' {
            push_char(output, '\r');
        } else if escaped == '"' {
            push_char(output, '"');
        } else if escaped == '\\' {
            push_char(output, '\\');
        } else if '0' <= escaped && escaped <= '7' {
            let c = self.parse_octal_escape(escaped)?;
            push_char(output, c);
        } else {
            push_char(output, escaped);
        }
        Ok(())
    }

    fn parse_c_string(&mut self) -> (res: Result<String, MiParseError>)
        requires
            old(self).wf(),
        ensures
            final(self).wf(),
            final(self).text() == old(self).text(),
            agrees(res, spec_c_string(old(self).text(), old(self).index as int), final(self).index as int),
            res is Ok ==> final(self).index > old(self).index,
    {
        let ghost s = self.text();
        let ghost p = self.index as int;
        self.expect_char('"')?;
        let mut output = String::new();
        loop
            invariant
                self.wf(),
                self.text() == s,
                s == old(self).text(),
                self.index > p,
                p == old(self).index,
                spec_c_string(s, p) == spec_c_string_body(s, self.index as int, output@),
            decreases self.input.len() - self.index,
        {
            let character = match self.next_char() {
                Some(c) => c,
                None => {
                    return Err(MiParseError::UnterminatedString);
                },
            };
            if character == '"' {
                return Ok(output);
            } else if character == '\\' {
                let escaped = match self.next_char() {
                    Some(c) => c,
                    None => {
                        return Err(MiParseError::UnterminatedEscape);
                    },
                };
                self.push_escape(&mut output, escaped)?;
            } else {
                push_char(&mut output, character);
            }
        }
    }

    fn looks_like_result(&self) -> (b: bool)
        requires
            self.wf(),
        ensures
            b == spec_looks_like_result(self.text(), self.index as int),
    {
        let ghost s = self.text();
        proof {
            lemma_identifier_end(s, self.index as int);
        }
        if self.index >= self.input.len() || !is_identifier_character(self.input[self.index]) {
            return false;
        }
        let mut k = self.index + 1;
        proof {
            lemma_identifier_end(s, k as int);
        }
        while k < self.input.len()
            invariant
                self.wf(),
                self.index < k <= self.input.len(),
                self.text() == s,
                identifier_end(s, self.index as int) == identifier_end(s, k as int),
            decreases self.input.len() - k,
        {
            let c = self.input[k];
            if c == '=' {
                return true;
            }
            if !is_identifier_character(c) {
                return false;
            }
            k = k + 1;
        }
        false
    }

    fn parse_value(&mut self) -> (res: Result<MiValue, MiParseError>)
        requires
            old(self).wf(),
        ensures
            final(self).wf(),
            final(self).text() == old(self).text(),
            agrees(res, spec_value(old(self).text(), old(self).index as int), final(self).index as int),
            res is Ok ==> final(self).index > old(self).index,
        decreases old(self).input@.len() - old(self).index, 1int,
    {
        match self.peek_char() {
            Some(c) => {
                if c == '"' {
                    let text = self.parse_c_string()?;
                    Ok(MiValue::Const(text))
                } else if c == '{' {
                    self.parse_tuple()
                } else if c == '[' {
                    self.parse_list()
                } else {
                    self.parse_bare_const()
                }
            },
            None => Err(MiParseError::UnexpectedEndOfInput),
        }
    }

    fn parse_tuple(&mut self) -> (res: Result<MiValue, MiParseError>)
        requires
            old(self).wf(),
        ensures
            final(self).wf(),
            final(self).text() == old(self).text(),
            agrees(res, spec_tuple(old(self).text(), old(self).index as int), final(self).index as int),
            res is Ok ==> final(self).index > old(self).index,
        decreases old(self).input@.len() - old(self).index, 0int,
    {
        let ghost s = self.text();
        let ghost p = self.index as int;
        self.expect_char('{')?;
        let ghost q = self.index as int;
        let mut results: Vec<MiResult> = Vec::new();
        if self.consume_char('}') {
            return Ok(MiValue::Tuple(results));
        }
        assert(results_view(results@) =~= Seq::empty());
        loop
            invariant
                self.wf(),
                self.text() == s,
                s == old(self).text(),
                self.index > p,
                p == old(self).index,
                spec_expect(s, p, '{') == Ok::<int, SpecParseError>(q),
                !spec_consume(s, q, '}'),
                spec_tuple_items(s, q, Seq::empty()) == spec_tuple_items(
                    s,
                    self.index as int,
                    results_view(results@),
                ),
            decreases self.input@.len() - self.index,
        {
            let ghost before = self.index as int;
            let ghost acc = results@;
            let member = self.parse_result()?;
            proof {
                lemma_results_view_push(acc, member);
            }
            results.push(member);
            if self.consume_char('}') {
                return Ok(MiValue::Tuple(results));
            }
            self.expect_char(',')?;
        }
    }

    fn parse_list(&mut self) -> (res: Result<MiValue, MiParseError>)
        requires
            old(self).wf(),
        ensures
            final(self).wf(),
            final(self).text() == old(self).text(),
            agrees(res, spec_list(old(self).text(), old(self).index as int), final(self).index as int),
            res is Ok ==> final(self).index > old(self).index,
        decreases old(self).input@.len() - old(self).index, 0int,
    {
        let ghost s = self.text();
        let ghost p = self.index as int;
        self.expect_char('[')?;
        let ghost q = self.index as int;
        let mut items: Vec<MiListItem> = Vec::new();
        if self.consume_char(']') {
            return Ok(MiValue::List(items));
        }
        assert(items_view(items@) =~= Seq::empty());
        loop
            invariant
                self.wf(),
                self.text() == s,
                s == old(self).text(),
                self.index > p,
                p == old(self).index,
                spec_expect(s, p, '[') == Ok::<int, SpecParseError>(q),
                !spec_consume(s, q, ']'),
                spec_list_items(s, q, Seq::empty()) == spec_list_items(
                    s,
                    self.index as int,
                    items_view(items@),
                ),
            decreases self.input@.len() - self.index,
        {
            let ghost acc = items@;
            let item = self.parse_list_item()?;
            proof {
                lemma_items_view_push(acc, item);
            }
            items.push(item);
            if self.consume_char(']') {
                return Ok(MiValue::List(items));
            }
            self.expect_char(',')?;
        }
    }

    fn parse_list_item(&mut self) -> (res: Result<MiListItem, MiParseError>)
        requires
            old(self).wf(),
        ensures
            final(self).wf(),
            final(self).text() == old(self).text(),
            agrees(res, spec_list_item(old(self).text(), old(self).index as int), final(self).index as int),
            res is Ok ==> final(self).index > old(self).index,
        decreases old(self).input@.len() - old(self).index, 2int,
    {
        if self.looks_like_result() {
            let r = self.parse_result()?;
            return Ok(MiListItem::Result(r));
        }
        let v = self.parse_value()?;
        Ok(MiListItem::Value(v))
    }

    fn parse_result(&mut self) -> (res: Result<MiResult, MiParseError>)
        requires
            old(self).wf(),
        ensures
            final(self).wf(),
            final(self).text() == old(self).text(),
            agrees(res, spec_result(old(self).text(), old(self).index as int), final(self).index as int),
            res is Ok ==> final(self).index > old(self).index,
        decreases old(self).input@.len() - old(self).index, 0int,
    {
        let variable = self.parse_identifier()?;
        self.expect_char('=')?;
        let value = self.parse_value()?;
        Ok(MiResult { variable, value })
    }

    fn parse_optional_results(&mut self) -> (res: Result<Vec<MiResult>, MiParseError>)
        requires
            old(self).wf(),
        ensures
            final(self).wf(),
            final(self).text() == old(self).text(),
            match spec_optional_results(old(self).text(), old(self).index as int, Seq::empty()) {
                Ok((rs, q)) => res matches Ok(x) && results_view(x@) == rs && final(self).index == q,
                Err(e) => res matches Err(x) && x@ == e,
            },
    {
        let ghost s = self.text();
        let ghost p = self.index as int;
        let mut results: Vec<MiResult> = Vec::new();
        assert(results_view(results@) =~= Seq::empty());
        loop
            invariant
                self.wf(),
                self.text() == s,
                s == old(self).text(),
                p == old(self).index,
                spec_optional_results(s, p, Seq::empty()) == spec_optional_results(
                    s,
                    self.index as int,
                    results_view(results@),
                ),
            decreases self.input@.len() - self.index,
        {
            let ghost before = self.index as int;
            let ghost acc = results@;
            if !self.consume_char(',') {
                return Ok(results);
            }
            let r = self.parse_result()?;
            proof {
                lemma_results_view_push(acc, r);
            }
            results.push(r);
        }
    }

    fn parse_result_record(&mut self, token: Option<u64>) -> (res: Result<MiResultRecord, MiParseError>)
        requires
            old(self).wf(),
        ensures
            final(self).wf(),
            final(self).text() == old(self).text(),
            match spec_class_and_results(old(self).text(), old(self).index as int) {
                Ok(((class, results), q)) => res matches Ok(x) && x@ == (SpecRecordBody {
                    token,
                    class,
                    results,
                }) && final(self).index == q,
                Err(e) => res matches Err(x) && x@ == e,
            },
    {
        let class = self.parse_identifier()?;
        let results = self.parse_optional_results()?;
        Ok(MiResultRecord { token, class, results })
    }

    fn parse_async_record(&mut self, token: Option<u64>) -> (res: Result<MiAsyncRecord, MiParseError>)
        requires
            old(self).wf(),
        ensures
            final(self).wf(),
            final(self).text() == old(self).text(),
            match spec_class_and_results(old(self).text(), old(self).index as int) {
                Ok(((class, results), q)) => res matches Ok(x) && x@ == (SpecRecordBody {
                    token,
                    class,
                    results,
                }) && final(self).index == q,
                Err(e) => res matches Err(x) && x@ == e,
            },
    {
        let class = self.parse_identifier()?;
        let results = self.parse_optional_results()?;
        Ok(MiAsyncRecord { token, class, results })
    }

    fn parse_stream_record(&mut self) -> (res: Result<String, MiParseError>)
        requires
            old(self).wf(),
        ensures
            final(self).wf(),
            final(self).text() == old(self).text(),
            agrees(res, spec_c_string(old(self).text(), old(self).index as int), final(self).index as int),
    {
        self.parse_c_string()
    }
}

/// ASCII letters, digits, `-`, `_` and `.` may appear in identifiers.
fn is_identifier_character(c: char) -> (b: bool)
    ensures
        b == is_identifier_char(c),
{
    ('a' <= c && c <= 'z') || ('A' <= c && c <= 'Z') || ('0' <= c && c <= '9') || c == '-'
        || c == '_' || c == '.'
}

/// The value of a longer run of digits is at least that of its prefix.
proof fn lemma_digits_value_prefix(d: Seq<char>, k: int, base: nat)
    requires
        0 <= k <= d.len(),
        base >= 1,
        forall|i: int| 0 <= i < d.len() ==> '0' <= #[trigger] d[i],
    ensures
        digits_value(d.take(k), base) <= digits_value(d, base),
    decreases d.len() - k,
{
    if k < d.len() {
        lemma_digits_value_prefix(d, k + 1, base);
        assert(d.take(k + 1).drop_last() =~= d.take(k));
        let v = digits_value(d.take(k), base);
        assert(v * base >= v) by (nonlinear_arith)
            requires
                base >= 1,
        ;
    } else {
        assert(d.take(k) =~= d);
    }
}

/// Up to `n` octal digits have a value below `8^n`.
proof fn lemma_digits_value_bound(d: Seq<char>, base: nat)
    requires
        base == 8,
        d.len() <= 2,
        forall|i: int| 0 <= i < d.len() ==> '0' <= #[trigger] d[i] <= '7',
    ensures
        digits_value(d, base) <= if d.len() == 0 {
            0nat
        } else if d.len() == 1 {
            7nat
        } else {
            63nat
        },
    decreases d.len(),
{
    if d.len() > 0 {
        lemma_digits_value_bound(d.drop_last(), base);
    }
}

} // verus!
