//! How quoted command arguments read back as MI C strings.

use vstd::prelude::*;
use vstd::utf8::encode_scalar;

use super::command::{is_control, octal_byte, octal_bytes, quoted, quoted_body, quoted_char};
use super::parser_spec::{
    digits_end, digits_value, is_octal_digit, octal_run, prompt_line, simple_escape,
    spec_c_string, spec_c_string_body, spec_escape, spec_parse_record, SpecParseError,
};
use super::record::SpecMiRecord;
use super::strings::digit_char;

verus! {

/// A C1 control character (U+0080 to U+009F). Its quoted form holds the two
/// bytes of its UTF-8 encoding, which read back as two characters.
pub open spec fn is_c1_control(c: char) -> bool {
    0x80 <= (c as u32) && (c as u32) <= 0x9F
}

/// The string holds no C1 control character.
pub open spec fn no_c1_controls(s: Seq<char>) -> bool {
    forall|i: int| 0 <= i < s.len() ==> !is_c1_control(#[trigger] s[i])
}

proof fn lemma_quoted_body_append(a: Seq<char>, b: Seq<char>)
    ensures
        quoted_body(a + b) == quoted_body(a) + quoted_body(b),
    decreases b.len(),
{
    if b.len() == 0 {
        assert(a + b =~= a);
        assert(quoted_body(a) + quoted_body(b) =~= quoted_body(a));
    } else {
        lemma_quoted_body_append(a, b.drop_last());
        assert((a + b).drop_last() =~= a + b.drop_last());
        assert((a + b).last() == b.last());
        assert(quoted_body(a + b) =~= quoted_body(a) + quoted_body(b));
    }
}

proof fn lemma_quoted_body_cons(c: char, x: Seq<char>)
    ensures
        quoted_body(seq![c] + x) == quoted_char(c) + quoted_body(x),
{
    lemma_quoted_body_append(seq![c], x);
    assert(seq![c].drop_last() =~= Seq::<char>::empty());
    assert(seq![c].last() == c);
    assert(quoted_body(Seq::<char>::empty()) =~= Seq::<char>::empty());
    assert(quoted_body(seq![c]) =~= quoted_char(c));
}

proof fn lemma_octal_digit(b: u8)
    requires
        b < 128,
    ensures
        is_octal_digit(digit_char((b / 64) as nat)),
        is_octal_digit(digit_char(((b / 8) % 8) as nat)),
        is_octal_digit(digit_char((b % 8) as nat)),
        (digit_char((b / 64) as nat) as int) - ('0' as int) == b / 64,
        (digit_char(((b / 8) % 8) as nat) as int) - ('0' as int) == (b / 8) % 8,
        (digit_char((b % 8) as nat) as int) - ('0' as int) == b % 8,
        ((b / 64) * 8 + (b / 8) % 8) * 8 + b % 8 == b,
{
    assert(((b / 64) * 8 + (b / 8) % 8) * 8 + b % 8 == b) by (nonlinear_arith)
        requires
            b < 128,
    ;
}

proof fn lemma_step(t: Seq<char>, q: int, acc: Seq<char>, c: char)
    requires
        !is_c1_control(c),
        0 <= q,
        q + quoted_char(c).len() <= t.len(),
        t.subrange(q, q + quoted_char(c).len()) == quoted_char(c),
    ensures
        spec_c_string_body(t, q, acc) == spec_c_string_body(t, q + quoted_char(c).len(), acc.push(c)),
{
    let k = quoted_char(c).len() as int;
    assert(forall|i: int| 0 <= i < k ==> t[q + i] == #[trigger] quoted_char(c)[i]) by {
        assert forall|i: int| 0 <= i < k implies t[q + i] == #[trigger] quoted_char(c)[i] by {
            assert(t.subrange(q, q + k)[i] == t[q + i]);
        }
    }
    if c == '\\' || c == '"' || c == '\n' || c == '\r' || c == '\t' || c == '\x08' || c == '\x0c' {
        assert(t[q] == '\\');
        assert(!is_octal_digit(t[q + 1]));
        assert(simple_escape(t[q + 1]) == c);
    } else if is_control(c) {
        let v = c as u32;
        assert(v <= 0x7F);
        let b = (v & 0x7F) as u8;
        assert(((v & 0x7F) as u8) as u32 == v) by (bit_vector)
            requires
                v <= 0x7F,
        ;
        assert(encode_scalar(v) =~= seq![b]);
        assert(seq![b].drop_last() =~= Seq::<u8>::empty());
        assert(seq![b].last() == b);
        assert(octal_bytes(Seq::<u8>::empty()) =~= Seq::<char>::empty());
        assert(octal_bytes(seq![b]) =~= octal_byte(b));
        assert(quoted_char(c) =~= octal_byte(b));
        lemma_octal_digit(b);
        let d1 = digit_char((b / 64) as nat);
        let d2 = digit_char(((b / 8) % 8) as nat);
        let d3 = digit_char((b % 8) as nat);
        assert(t[q] == '\\');
        assert(t[q + 1] == d1);
        assert(t[q + 2] == d2);
        assert(t[q + 3] == d3);
        assert(octal_run(t, q + 2) == 2);
        let digits = seq![d1] + t.subrange(q + 2, q + 4);
        assert(digits =~= seq![d1, d2, d3]);
        assert(digits.drop_last() =~= seq![d1, d2]);
        assert(digits.drop_last().drop_last() =~= seq![d1]);
        assert(digits.drop_last().drop_last().drop_last() =~= Seq::<char>::empty());
        assert(digits_value(seq![d1], 8) == b / 64) by {
            assert(seq![d1].drop_last() =~= Seq::<char>::empty());
            assert(seq![d1].last() == d1);
            assert(digits_value(Seq::<char>::empty(), 8) == 0);
        }
        assert(digits_value(seq![d1, d2], 8) == (b / 64) * 8 + (b / 8) % 8) by {
            assert(seq![d1, d2].drop_last() =~= seq![d1]);
            assert(seq![d1, d2].last() == d2);
        }
        assert(digits_value(digits, 8) == b) by {
            assert(digits.drop_last() =~= seq![d1, d2]);
            assert(digits.last() == d3);
        }
        assert(((b as u8) as char) == c);
        assert(spec_escape(t, q + 2, t[q + 1]) == Ok::<(char, int), SpecParseError>((c, q + 4)));
    } else {
        assert(quoted_char(c) =~= seq![c]);
        assert(quoted_char(c)[0] == c);
        assert(t[q] == c);
    }
}

proof fn lemma_body(t: Seq<char>, q: int, acc: Seq<char>, x: Seq<char>)
    requires
        no_c1_controls(x),
        0 <= q,
        q + quoted_body(x).len() < t.len(),
        t.subrange(q, q + quoted_body(x).len()) == quoted_body(x),
        t[q + quoted_body(x).len()] == '"',
    ensures
        spec_c_string_body(t, q, acc) == Ok::<(Seq<char>, int), SpecParseError>(
            (acc + x, q + quoted_body(x).len() + 1),
        ),
    decreases x.len(),
{
    if x.len() == 0 {
        assert(acc + x =~= acc);
    } else {
        let c = x[0];
        let rest = x.drop_first();
        assert(x =~= seq![c] + rest);
        lemma_quoted_body_cons(c, rest);
        let k = quoted_char(c).len() as int;
        let n = quoted_body(x).len() as int;
        assert(!is_c1_control(x[0]));
        assert(t.subrange(q, q + k) =~= t.subrange(q, q + n).subrange(0, k));
        assert(quoted_body(x).subrange(0, k) =~= quoted_char(c));
        lemma_step(t, q, acc, c);
        assert(t.subrange(q + k, q + n) =~= t.subrange(q, q + n).subrange(k, n));
        assert(quoted_body(x).subrange(k, n) =~= quoted_body(rest));
        assert(no_c1_controls(rest)) by {
            assert forall|i: int| 0 <= i < rest.len() implies !is_c1_control(#[trigger] rest[i]) by {
                assert(rest[i] == x[i + 1]);
            }
        }
        lemma_body(t, q + k, acc.push(c), rest);
        assert(acc.push(c) + rest =~= acc + x);
    }
}

proof fn lemma_stream_line(s: Seq<char>, c: char)
    requires
        no_c1_controls(s),
        c == '~' || c == '@' || c == '&',
    ensures
        spec_parse_record(seq![c] + quoted(s)) == Ok::<SpecMiRecord, SpecParseError>(stream_record(c, s)),
{
    let t = quoted(s);
    let n = quoted_body(s).len() as int;
    let line = seq![c] + t;
    assert(line.subrange(2, 2 + n) =~= quoted_body(s));
    assert(line[2 + n] == '"');
    assert(line[1] == '"');
    assert(line[0] == c);
    lemma_body(line, 2, Seq::empty(), s);
    assert(Seq::<char>::empty() + s =~= s);
    assert(digits_end(line, 0) == 0);
    assert(line != prompt_line());
    assert(line != prompt_line().push(' '));
    assert(line.len() == 3 + n);
}

/// The stream record that a line starting with `c` holds: console for `~`,
/// target for `@`, log for `&`.
pub open spec fn stream_record(c: char, text: Seq<char>) -> SpecMiRecord {
    if c == '~' {
        SpecMiRecord::ConsoleStream(text)
    } else if c == '@' {
        SpecMiRecord::TargetStream(text)
    } else {
        SpecMiRecord::LogStream(text)
    }
}

/// A string written as a quoted MI argument reads back, as an MI C string,
/// as the same string, for every string without C1 control characters; a
/// stream line made of `~`, `@` or `&` and that quoted text is the console,
/// target or log stream record holding that string.
pub proof fn law_quoted_argument_reads_back(s: Seq<char>)
    requires
        no_c1_controls(s),
    ensures
        spec_c_string(quoted(s), 0) == Ok::<(Seq<char>, int), SpecParseError>((s, quoted(s).len() as int)),
        spec_parse_record(seq!['~'] + quoted(s)) == Ok::<SpecMiRecord, SpecParseError>(
            SpecMiRecord::ConsoleStream(s),
        ),
        spec_parse_record(seq!['@'] + quoted(s)) == Ok::<SpecMiRecord, SpecParseError>(
            SpecMiRecord::TargetStream(s),
        ),
        spec_parse_record(seq!['&'] + quoted(s)) == Ok::<SpecMiRecord, SpecParseError>(
            SpecMiRecord::LogStream(s),
        ),
{
    let t = quoted(s);
    let n = quoted_body(s).len() as int;
    assert(t.subrange(1, 1 + n) =~= quoted_body(s));
    assert(t[1 + n] == '"');
    lemma_body(t, 1, Seq::empty(), s);
    assert(Seq::<char>::empty() + s =~= s);
    lemma_stream_line(s, '~');
    lemma_stream_line(s, '@');
    lemma_stream_line(s, '&');
}

} // verus!
