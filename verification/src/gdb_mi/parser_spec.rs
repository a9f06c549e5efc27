use vstd::prelude::*;

use super::record::{SpecMiRecord, SpecRecordBody};
use super::strings::byte_offset;
use super::value::{SpecMiListItem, SpecMiResult, SpecMiValue};

verus! {

/// Mathematical model of a GDB/MI parse error. Positions are byte offsets.
pub enum SpecParseError {
    MissingRecordPrefix,
    UnknownRecordPrefix(char),
    UnexpectedEndOfInput,
    UnexpectedCharacter { expected: char, actual: char, position: int },
    ExpectedIdentifier { position: int },
    ExpectedValue { position: int },
    UnterminatedString,
    UnterminatedEscape,
    InvalidToken { value: Seq<char> },
    InvalidOctalEscape { value: Seq<char> },
    TrailingInput(Seq<char>),
}

/// Outcome of parsing one construct: its model and the index just after it.
pub type SpecParse<T> = Result<(T, int), SpecParseError>;

/// Characters allowed in identifiers: ASCII letters, digits, `-`, `_`, `.`.
pub open spec fn is_identifier_char(c: char) -> bool {
    ||| ('a' <= c && c <= 'z')
    ||| ('A' <= c && c <= 'Z')
    ||| ('0' <= c && c <= '9')
    ||| c == '-'
    ||| c == '_'
    ||| c == '.'
}

/// ASCII decimal digit.
pub open spec fn is_digit(c: char) -> bool {
    '0' <= c && c <= '9'
}

/// ASCII octal digit.
pub open spec fn is_octal_digit(c: char) -> bool {
    '0' <= c && c <= '7'
}

/// Index just after the run of identifier characters starting at `p`.
pub open spec fn identifier_end(s: Seq<char>, p: int) -> int
    decreases s.len() - p,
{
    if 0 <= p < s.len() && is_identifier_char(s[p]) {
        identifier_end(s, p + 1)
    } else {
        p
    }
}

/// Index just after the run of decimal digits starting at `p`.
pub open spec fn digits_end(s: Seq<char>, p: int) -> int
    decreases s.len() - p,
{
    if 0 <= p < s.len() && is_digit(s[p]) {
        digits_end(s, p + 1)
    } else {
        p
    }
}

/// Index of the first `,`, `}` or `]` at or after `p`, or the end of input.
pub open spec fn bare_end(s: Seq<char>, p: int) -> int
    decreases s.len() - p,
{
    if 0 <= p < s.len() && s[p] != ',' && s[p] != '}' && s[p] != ']' {
        bare_end(s, p + 1)
    } else {
        p
    }
}

/// Value of a sequence of digits in the given base.
pub open spec fn digits_value(d: Seq<char>, base: nat) -> nat
    decreases d.len(),
{
    if d.len() == 0 {
        0
    } else {
        digits_value(d.drop_last(), base) * base + ((d.last() as int) - ('0' as int)) as nat
    }
}

/// The character at `p`, when there is one.
pub open spec fn peek(s: Seq<char>, p: int) -> Option<char> {
    if 0 <= p < s.len() {
        Some(s[p])
    } else {
        None
    }
}

/// Whether the character at `p` is `c`.
pub open spec fn spec_consume(s: Seq<char>, p: int, c: char) -> bool {
    peek(s, p) == Some(c)
}

/// Requiring the character `c` at `p`.
pub open spec fn spec_expect(s: Seq<char>, p: int, c: char) -> Result<int, SpecParseError> {
    if 0 <= p < s.len() {
        if s[p] == c {
            Ok(p + 1)
        } else {
            Err(
                SpecParseError::UnexpectedCharacter {
                    expected: c,
                    actual: s[p],
                    position: byte_offset(s, p),
                },
            )
        }
    } else {
        Err(SpecParseError::UnexpectedEndOfInput)
    }
}

/// A non-empty identifier starting at `p`.
pub open spec fn spec_identifier(s: Seq<char>, p: int) -> SpecParse<Seq<char>> {
    let e = identifier_end(s, p);
    if e == p {
        Err(SpecParseError::ExpectedIdentifier { position: byte_offset(s, p) })
    } else {
        Ok((s.subrange(p, e), e))
    }
}

/// The optional numeric token at the start of a line.
pub open spec fn spec_token(s: Seq<char>) -> SpecParse<Option<u64>> {
    let e = digits_end(s, 0);
    if e == 0 {
        Ok((None, 0))
    } else {
        let d = s.subrange(0, e);
        if digits_value(d, 10) > u64::MAX {
            Err(SpecParseError::InvalidToken { value: d })
        } else {
            Ok((Some(digits_value(d, 10) as u64), e))
        }
    }
}

/// Character denoted by a non-octal escape letter.
pub open spec fn simple_escape(e: char) -> char {
    if e == 'a' {
        '\x07'
    } else if e == 'b' {
        '\x08'
    } else if e == 't' {
        '\t'
    } else if e == 'n' {
        '\n'
    } else if e == 'v' {
        '\x0b'
    } else if e == 'f' {
        '\x0c'
    } else if e == 'r' {
        '\r'
    } else {
        e
    }
}

/// Number (0 to 2) of octal digits that follow an octal escape's first digit.
pub open spec fn octal_run(s: Seq<char>, q: int) -> int {
    if 0 <= q < s.len() && is_octal_digit(s[q]) {
        if q + 1 < s.len() && is_octal_digit(s[q + 1]) {
            2
        } else {
            1
        }
    } else {
        0
    }
}

/// The escape introduced by `\` followed by `e`, whose remaining characters
/// start at `q`: the character it denotes and the index after it.
pub open spec fn spec_escape(s: Seq<char>, q: int, e: char) -> SpecParse<char> {
    if is_octal_digit(e) {
        let n = octal_run(s, q);
        let digits = seq![e] + s.subrange(q, q + n);
        let v = digits_value(digits, 8);
        if v > 255 {
            Err(SpecParseError::InvalidOctalEscape { value: digits })
        } else {
            Ok((((v as u8) as char), q + n))
        }
    } else {
        Ok((simple_escape(e), q))
    }
}

/// The numeric value of a decimal or octal digit character.
pub open spec fn digit_of(c: char) -> int {
    (c as int) - ('0' as int)
}

/// Inside a C string, a backslash followed by `n` octal digits (one to three,
/// and no fourth digit taken) denotes one character: the one whose code is
/// the digits' octal value, when that value is a byte (at most 255, so
/// `\303` is U+00C3); a larger value is an invalid octal escape naming the
/// digits. Decoding goes on after the digits.
pub proof fn law_octal_escape_is_one_byte(s: Seq<char>, q: int, acc: Seq<char>, n: int)
    requires
        0 <= q,
        1 <= n <= 3,
        q + 1 + n <= s.len(),
        s[q] == '\\',
        forall|k: int| q + 1 <= k < q + 1 + n ==> is_octal_digit(#[trigger] s[k]),
        n < 3 ==> (q + 1 + n == s.len() || !is_octal_digit(s[q + 1 + n])),
    ensures
        ({
            let v = if n == 1 {
                digit_of(s[q + 1])
            } else if n == 2 {
                8 * digit_of(s[q + 1]) + digit_of(s[q + 2])
            } else {
                64 * digit_of(s[q + 1]) + 8 * digit_of(s[q + 2]) + digit_of(s[q + 3])
            };
            &&& v <= 255 ==> spec_c_string_body(s, q, acc) == spec_c_string_body(
                s,
                q + 1 + n,
                acc.push(v as char),
            )
            &&& v > 255 ==> spec_c_string_body(s, q, acc) == Err::<(Seq<char>, int), SpecParseError>(
                SpecParseError::InvalidOctalEscape { value: s.subrange(q + 1, q + 1 + n) },
            )
        }),
{
    let e = s[q + 1];
    let m = octal_run(s, q + 2);
    assert(is_octal_digit(e));
    assert(m == n - 1);
    let digits = seq![e] + s.subrange(q + 2, q + 2 + m);
    assert(digits =~= s.subrange(q + 1, q + 1 + n));
    if n == 1 {
        assert(digits.drop_last() =~= Seq::<char>::empty());
    } else if n == 2 {
        assert(digits.drop_last() =~= seq![s[q + 1]]);
        assert(digits.drop_last().drop_last() =~= Seq::<char>::empty());
    } else {
        assert(digits.drop_last() =~= seq![s[q + 1], s[q + 2]]);
        assert(digits.drop_last().drop_last() =~= seq![s[q + 1]]);
        assert(digits.drop_last().drop_last().drop_last() =~= Seq::<char>::empty());
    }
    let v = digits_value(digits, 8);
    let w = if n == 1 {
        digit_of(s[q + 1])
    } else if n == 2 {
        8 * digit_of(s[q + 1]) + digit_of(s[q + 2])
    } else {
        64 * digit_of(s[q + 1]) + 8 * digit_of(s[q + 2]) + digit_of(s[q + 3])
    };
    assert(v == w) by {
        reveal_with_fuel(digits_value, 4);
    }
    assert(s[q] != '"');
    assert(q + 1 < s.len());
    assert(spec_escape(s, q + 2, s[q + 1]) == if v > 255 {
        Err::<(char, int), SpecParseError>(SpecParseError::InvalidOctalEscape { value: digits })
    } else {
        Ok((((v as u8) as char), q + 2 + m))
    });
    if v <= 255 {
        assert(((v as u8) as char) == (w as char));
    }
}

/// Inside a C string, `\a`, `\b`, `\t`, `\n`, `\v`, `\f` and `\r` denote the
/// control characters 7, 8, 9, 10, 11, 12 and 13; a backslash before any
/// other character that is not an octal digit (such as `"` or `\`) denotes
/// that character. Decoding goes on after the two characters.
pub proof fn law_simple_escape(s: Seq<char>, q: int, acc: Seq<char>)
    requires
        0 <= q,
        q + 2 <= s.len(),
        s[q] == '\\',
        !is_octal_digit(s[q + 1]),
    ensures
        spec_c_string_body(s, q, acc) == spec_c_string_body(
            s,
            q + 2,
            acc.push(
                if s[q + 1] == 'a' {
                    7 as char
                } else if s[q + 1] == 'b' {
                    8 as char
                } else if s[q + 1] == 't' {
                    9 as char
                } else if s[q + 1] == 'n' {
                    10 as char
                } else if s[q + 1] == 'v' {
                    11 as char
                } else if s[q + 1] == 'f' {
                    12 as char
                } else if s[q + 1] == 'r' {
                    13 as char
                } else {
                    s[q + 1]
                },
            ),
        ),
{
    assert(s[q] != '"');
    assert(('\x07' as int) == 7 && ('\x08' as int) == 8 && ('\t' as int) == 9 && ('\n' as int) == 10);
    assert(('\x0b' as int) == 11 && ('\x0c' as int) == 12 && ('\r' as int) == 13);
}

/// Inside a C string, a character other than `"` and `\` stands for itself.
pub proof fn law_plain_character(s: Seq<char>, q: int, acc: Seq<char>)
    requires
        0 <= q < s.len(),
        s[q] != '\\',
        s[q] != '"',
    ensures
        spec_c_string_body(s, q, acc) == spec_c_string_body(s, q + 1, acc.push(s[q])),
{
}

/// The rest of a C string starting at `q`, with `acc` already decoded.
pub open spec fn spec_c_string_body(s: Seq<char>, q: int, acc: Seq<char>) -> SpecParse<Seq<char>>
    decreases s.len() - q,
{
    if q < 0 || q >= s.len() {
        Err(SpecParseError::UnterminatedString)
    } else if s[q] == '"' {
        Ok((acc, q + 1))
    } else if s[q] == '\\' {
        if q + 1 >= s.len() {
            Err(SpecParseError::UnterminatedEscape)
        } else {
            match spec_escape(s, q + 2, s[q + 1]) {
                Err(e) => Err(e),
                Ok((c, r)) => spec_c_string_body(s, r, acc.push(c)),
            }
        }
    } else {
        spec_c_string_body(s, q + 1, acc.push(s[q]))
    }
}

/// A double-quoted C string starting at `p`.
pub open spec fn spec_c_string(s: Seq<char>, p: int) -> SpecParse<Seq<char>> {
    match spec_expect(s, p, '"') {
        Err(e) => Err(e),
        Ok(q) => spec_c_string_body(s, q, Seq::empty()),
    }
}

/// An unquoted constant: everything up to `,`, `}`, `]` or the end.
pub open spec fn spec_bare_const(s: Seq<char>, p: int) -> SpecParse<SpecMiValue> {
    let e = bare_end(s, p);
    if e == p {
        Err(SpecParseError::ExpectedValue { position: byte_offset(s, p) })
    } else {
        Ok((SpecMiValue::Const(s.subrange(p, e)), e))
    }
}

/// Whether the text at `p` starts with an identifier followed by `=`.
pub open spec fn spec_looks_like_result(s: Seq<char>, p: int) -> bool {
    &&& 0 <= p < s.len()
    &&& is_identifier_char(s[p])
    &&& identifier_end(s, p) < s.len()
    &&& s[identifier_end(s, p)] == '='
}

/// Identifier runs never move backwards.
pub proof fn lemma_identifier_end(s: Seq<char>, p: int)
    ensures
        identifier_end(s, p) >= p,
        p <= s.len() ==> identifier_end(s, p) <= s.len(),
        forall|k: int| p <= k < identifier_end(s, p) ==> is_identifier_char(#[trigger] s[k]),
        identifier_end(s, p) < s.len() && 0 <= p ==> !is_identifier_char(s[identifier_end(s, p)]),
    decreases s.len() - p,
{
    if 0 <= p < s.len() && is_identifier_char(s[p]) {
        lemma_identifier_end(s, p + 1);
    }
}

/// A value starting at `p`.
pub open spec fn spec_value(s: Seq<char>, p: int) -> SpecParse<SpecMiValue>
    decreases s.len() - p, 1int,
{
    if 0 <= p < s.len() {
        if s[p] == '"' {
            match spec_c_string(s, p) {
                Err(e) => Err(e),
                Ok((text, q)) => Ok((SpecMiValue::Const(text), q)),
            }
        } else if s[p] == '{' {
            spec_tuple(s, p)
        } else if s[p] == '[' {
            spec_list(s, p)
        } else {
            spec_bare_const(s, p)
        }
    } else {
        Err(SpecParseError::UnexpectedEndOfInput)
    }
}

/// A tuple `{...}` starting at `p`.
pub open spec fn spec_tuple(s: Seq<char>, p: int) -> SpecParse<SpecMiValue>
    decreases s.len() - p, 0int,
{
    match spec_expect(s, p, '{') {
        Err(e) => Err(e),
        Ok(q) => if spec_consume(s, q, '}') {
            Ok((SpecMiValue::Tuple(Seq::empty()), q + 1))
        } else {
            match spec_tuple_items(s, q, Seq::empty()) {
                Err(e) => Err(e),
                Ok((results, r)) => Ok((SpecMiValue::Tuple(results), r)),
            }
        },
    }
}

/// The members of a tuple from `q` on, after the members in `acc`.
/// Positions only move forward; the check on `r` keeps the definition
/// well founded.
pub open spec fn spec_tuple_items(s: Seq<char>, q: int, acc: Seq<SpecMiResult>) -> SpecParse<
    Seq<SpecMiResult>,
>
    decreases s.len() - q, 1int,
{
    match spec_result(s, q) {
        Err(e) => Err(e),
        Ok((member, r)) => if r < q {
            Err(SpecParseError::UnexpectedEndOfInput)
        } else if spec_consume(s, r, '}') {
            Ok((acc.push(member), r + 1))
        } else {
            match spec_expect(s, r, ',') {
                Err(e) => Err(e),
                Ok(t) => spec_tuple_items(s, t, acc.push(member)),
            }
        },
    }
}

/// A list `[...]` starting at `p`.
pub open spec fn spec_list(s: Seq<char>, p: int) -> SpecParse<SpecMiValue>
    decreases s.len() - p, 0int,
{
    match spec_expect(s, p, '[') {
        Err(e) => Err(e),
        Ok(q) => if spec_consume(s, q, ']') {
            Ok((SpecMiValue::List(Seq::empty()), q + 1))
        } else {
            match spec_list_items(s, q, Seq::empty()) {
                Err(e) => Err(e),
                Ok((items, r)) => Ok((SpecMiValue::List(items), r)),
            }
        },
    }
}

/// The items of a list from `q` on, after the items in `acc`.
pub open spec fn spec_list_items(s: Seq<char>, q: int, acc: Seq<SpecMiListItem>) -> SpecParse<
    Seq<SpecMiListItem>,
>
    decreases s.len() - q, 3int,
{
    match spec_list_item(s, q) {
        Err(e) => Err(e),
        Ok((item, r)) => if r < q {
            Err(SpecParseError::UnexpectedEndOfInput)
        } else if spec_consume(s, r, ']') {
            Ok((acc.push(item), r + 1))
        } else {
            match spec_expect(s, r, ',') {
                Err(e) => Err(e),
                Ok(t) => spec_list_items(s, t, acc.push(item)),
            }
        },
    }
}

/// One list item: a named result when the text looks like one, else a value.
pub open spec fn spec_list_item(s: Seq<char>, q: int) -> SpecParse<SpecMiListItem>
    decreases s.len() - q, 2int,
{
    if spec_looks_like_result(s, q) {
        match spec_result(s, q) {
            Err(e) => Err(e),
            Ok((r, t)) => Ok((SpecMiListItem::Result(r), t)),
        }
    } else {
        match spec_value(s, q) {
            Err(e) => Err(e),
            Ok((v, t)) => Ok((SpecMiListItem::Value(v), t)),
        }
    }
}

/// A named result `name=value` starting at `q`.
pub open spec fn spec_result(s: Seq<char>, q: int) -> SpecParse<SpecMiResult>
    decreases s.len() - q, 0int,
{
    proof {
        lemma_identifier_end(s, q);
    }
    match spec_identifier(s, q) {
        Err(e) => Err(e),
        Ok((name, e)) => match spec_expect(s, e, '=') {
            Err(err) => Err(err),
            Ok(f) => match spec_value(s, f) {
                Err(err) => Err(err),
                Ok((v, g)) => Ok((SpecMiResult { variable: name, value: v }, g)),
            },
        },
    }
}

/// The results `,name=value,...` from `p` on, after the results in `acc`.
pub open spec fn spec_optional_results(s: Seq<char>, p: int, acc: Seq<SpecMiResult>) -> SpecParse<
    Seq<SpecMiResult>,
>
    decreases s.len() - p,
{
    if spec_consume(s, p, ',') {
        match spec_result(s, p + 1) {
            Err(e) => Err(e),
            Ok((r, q)) => if q <= p || q > s.len() {
                Err(SpecParseError::UnexpectedEndOfInput)
            } else {
                spec_optional_results(s, q, acc.push(r))
            },
        }
    } else {
        Ok((acc, p))
    }
}

/// A record class followed by its results, starting at `p`.
pub open spec fn spec_class_and_results(s: Seq<char>, p: int) -> SpecParse<(Seq<char>, Seq<SpecMiResult>)> {
    match spec_identifier(s, p) {
        Err(e) => Err(e),
        Ok((class, e)) => match spec_optional_results(s, e, Seq::empty()) {
            Err(err) => Err(err),
            Ok((results, q)) => Ok(((class, results), q)),
        },
    }
}

/// The record that follows the prefix character `c`, from `p` on.
pub open spec fn spec_record_body(s: Seq<char>, p: int, c: char, token: Option<u64>) -> SpecParse<SpecMiRecord> {
    if c == '^' || c == '*' || c == '+' || c == '=' {
        match spec_class_and_results(s, p) {
            Err(e) => Err(e),
            Ok(((class, results), q)) => {
                let body = SpecRecordBody { token, class, results };
                let record = if c == '^' {
                    SpecMiRecord::Result(body)
                } else if c == '*' {
                    SpecMiRecord::ExecAsync(body)
                } else if c == '+' {
                    SpecMiRecord::StatusAsync(body)
                } else {
                    SpecMiRecord::NotifyAsync(body)
                };
                Ok((record, q))
            },
        }
    } else if c == '~' || c == '@' || c == '&' {
        match spec_c_string(s, p) {
            Err(e) => Err(e),
            Ok((text, q)) => {
                let record = if c == '~' {
                    SpecMiRecord::ConsoleStream(text)
                } else if c == '@' {
                    SpecMiRecord::TargetStream(text)
                } else {
                    SpecMiRecord::LogStream(text)
                };
                Ok((record, q))
            },
        }
    } else {
        Err(SpecParseError::UnknownRecordPrefix(c))
    }
}

/// The GDB prompt line.
pub open spec fn prompt_line() -> Seq<char> {
    seq!['(', 'g', 'd', 'b', ')']
}

/// The meaning of one complete line of GDB/MI output.
pub open spec fn spec_parse_record(s: Seq<char>) -> Result<SpecMiRecord, SpecParseError> {
    if s.len() == 0 {
        Ok(SpecMiRecord::Empty)
    } else if s == prompt_line() || s == prompt_line().push(' ') {
        Ok(SpecMiRecord::Prompt)
    } else {
        match spec_token(s) {
            Err(e) => Err(e),
            Ok((token, p)) => if p >= s.len() {
                Err(SpecParseError::MissingRecordPrefix)
            } else {
                match spec_record_body(s, p + 1, s[p], token) {
                    Err(e) => Err(e),
                    Ok((record, q)) => if q == s.len() {
                        Ok(record)
                    } else {
                        Err(SpecParseError::TrailingInput(s.subrange(q, s.len() as int)))
                    },
                }
            },
        }
    }
}

} // verus!
