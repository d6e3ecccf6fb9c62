//! The failure surface of the store.
//!
//! Only the existence check reports failure; it does so with a single error
//! kind that wraps the database's own message. The transport layer turns
//! that error into a fixed generic server-error classification and a JSON
//! payload of the shape `{"error": <message>}`; the payload text is built
//! here, character by character, with the message escaped as a JSON string
//! literal requires.

use vstd::prelude::*;
use vstd::string::StrSliceExecFns;
use vstd::string::StringExecFns;

verus! {

/// Appends one character to a string. Relies on `String::push` from std,
/// which appends the given `char` to the end of the `String`.
pub assume_specification[ String::push ](s: &mut String, ch: char)
    ensures
        final(s)@ == old(s)@.push(ch),
;

/// The lower-case hexadecimal digit for `n`.
pub open spec fn hex_digit_char(n: int) -> char {
    if n == 0 {
        '0'
    } else if n == 1 {
        '1'
    } else if n == 2 {
        '2'
    } else if n == 3 {
        '3'
    } else if n == 4 {
        '4'
    } else if n == 5 {
        '5'
    } else if n == 6 {
        '6'
    } else if n == 7 {
        '7'
    } else if n == 8 {
        '8'
    } else if n == 9 {
        '9'
    } else if n == 10 {
        'a'
    } else if n == 11 {
        'b'
    } else if n == 12 {
        'c'
    } else if n == 13 {
        'd'
    } else if n == 14 {
        'e'
    } else {
        'f'
    }
}

/// How one character appears inside a JSON string literal: quote and
/// backslash are escaped, the control characters with short escapes use
/// them, every other control character becomes `\u00..`, and everything
/// else stands for itself.
pub open spec fn escaped_char(c: char) -> Seq<char> {
    if c == '"' {
        seq!['\\', '"']
    } else if c == '\\' {
        seq!['\\', '\\']
    } else if c == '\n' {
        seq!['\\', 'n']
    } else if c == '\r' {
        seq!['\\', 'r']
    } else if c == '\t' {
        seq!['\\', 't']
    } else if c == '\u{0008}' {
        seq!['\\', 'b']
    } else if c == '\u{000C}' {
        seq!['\\', 'f']
    } else if (c as int) < 0x20 {
        seq!['\\', 'u', '0', '0', hex_digit_char(c as int / 16), hex_digit_char(c as int % 16)]
    } else {
        seq![c]
    }
}

/// A string's characters as the content of a JSON string literal: each
/// character escaped as `escaped_char` says, in order.
pub open spec fn json_escaped(s: Seq<char>) -> Seq<char>
    decreases s.len(),
{
    if s.len() == 0 {
        Seq::empty()
    } else {
        escaped_char(s[0]) + json_escaped(s.skip(1))
    }
}

/// Escaping a string is escaping all but its last character, then that one.
proof fn lemma_json_escaped_snoc(s: Seq<char>)
    requires
        s.len() > 0,
    ensures
        json_escaped(s) == json_escaped(s.drop_last()) + escaped_char(s.last()),
    decreases s.len(),
{
    if s.len() == 1 {
        assert(s.drop_last() =~= Seq::<char>::empty());
        assert(s.skip(1) =~= Seq::<char>::empty());
        assert(json_escaped(s) =~= json_escaped(s.drop_last()) + escaped_char(s.last()));
    } else {
        let rest = s.skip(1);
        lemma_json_escaped_snoc(rest);
        assert(rest.drop_last() =~= s.drop_last().skip(1));
        assert(rest.last() == s.last());
        assert(s.drop_last().len() > 0 && s.drop_last()[0] == s[0]);
        assert(json_escaped(s.drop_last()) == escaped_char(s[0]) + json_escaped(
            s.drop_last().skip(1),
        ));
        assert(json_escaped(s) =~= json_escaped(s.drop_last()) + escaped_char(s.last()));
    }
}

/// The JSON payload of a failure response: one object whose one field,
/// named `error`, holds the message as a JSON string.
pub open spec fn error_body_model(message: Seq<char>) -> Seq<char> {
    "{\"error\":\""@ + json_escaped(message) + "\"}"@
}

/// The value of a lower-case hexadecimal digit.
pub open spec fn hex_value(c: char) -> int {
    if c == '0' {
        0
    } else if c == '1' {
        1
    } else if c == '2' {
        2
    } else if c == '3' {
        3
    } else if c == '4' {
        4
    } else if c == '5' {
        5
    } else if c == '6' {
        6
    } else if c == '7' {
        7
    } else if c == '8' {
        8
    } else if c == '9' {
        9
    } else if c == 'a' {
        10
    } else if c == 'b' {
        11
    } else if c == 'c' {
        12
    } else if c == 'd' {
        13
    } else if c == 'e' {
        14
    } else {
        15
    }
}

/// The character a short escape `\x` stands for; quote and backslash stand
/// for themselves.
pub open spec fn short_escape_char(c: char) -> char {
    if c == 'n' {
        '\n'
    } else if c == 'r' {
        '\r'
    } else if c == 't' {
        '\t'
    } else if c == 'b' {
        '\u{0008}'
    } else if c == 'f' {
        '\u{000C}'
    } else {
        c
    }
}

/// How a JSON parser reads a string literal's content back: a backslash
/// starts an escape — `\u` followed by four hexadecimal digits, or a short
/// one of two characters — and every other character stands for itself.
/// Content that breaks off inside an escape has no reading; the remainder is
/// dropped.
pub open spec fn json_unescaped(s: Seq<char>) -> Seq<char>
    decreases s.len(),
{
    if s.len() == 0 {
        Seq::empty()
    } else if s[0] == '\\' {
        if s.len() >= 6 && s[1] == 'u' {
            seq![
                ((((hex_value(s[2]) * 16 + hex_value(s[3])) * 16 + hex_value(s[4])) * 16
                    + hex_value(s[5])) as char),
            ] + json_unescaped(s.skip(6))
        } else if s.len() >= 2 && s[1] != 'u' {
            seq![short_escape_char(s[1])] + json_unescaped(s.skip(2))
        } else {
            Seq::empty()
        }
    } else {
        seq![s[0]] + json_unescaped(s.skip(1))
    }
}

/// Reading back one escaped character from the front of any content yields
/// that character and leaves the rest to be read.
proof fn lemma_unescape_one_char(c: char, tail: Seq<char>)
    ensures
        json_unescaped(escaped_char(c) + tail) == seq![c] + json_unescaped(tail),
{
    let s = escaped_char(c) + tail;
    if c == '"' || c == '\\' || c == '\n' || c == '\r' || c == '\t' || c == '\u{0008}' || c
        == '\u{000C}' {
        assert(s.skip(2) =~= tail);
        assert(json_unescaped(s) =~= seq![c] + json_unescaped(tail));
    } else if (c as int) < 0x20 {
        assert(s.skip(6) =~= tail);
        assert(s[2] == '0' && s[3] == '0');
        assert(hex_value(hex_digit_char(c as int / 16)) == c as int / 16);
        assert(hex_value(hex_digit_char(c as int % 16)) == c as int % 16);
        assert((c as int / 16) * 16 + (c as int % 16) == c as int);
        assert(((c as int) as char) == c);
        assert(json_unescaped(s) =~= seq![c] + json_unescaped(tail));
    } else {
        assert(s.skip(1) =~= tail);
        assert(json_unescaped(s) =~= seq![c] + json_unescaped(tail));
    }
}

/// Law: escaping loses nothing — the escaped content of the failure payload
/// reads back to exactly the message that was escaped.
pub proof fn lemma_json_escaping_round_trips(s: Seq<char>)
    ensures
        json_unescaped(json_escaped(s)) == s,
    decreases s.len(),
{
    if s.len() == 0 {
        assert(json_unescaped(json_escaped(s)) =~= s);
    } else {
        lemma_unescape_one_char(s[0], json_escaped(s.skip(1)));
        lemma_json_escaping_round_trips(s.skip(1));
        assert(json_unescaped(json_escaped(s)) =~= s);
    }
}

/// Law: escaped content holds no control character: everything below the
/// space character has been replaced by an escape, as a JSON string
/// requires.
pub proof fn lemma_json_escaped_has_no_control_chars(s: Seq<char>)
    ensures
        forall|i: int| 0 <= i < json_escaped(s).len() ==> 0x20 <= (json_escaped(s)[i] as int),
    decreases s.len(),
{
    if s.len() > 0 {
        lemma_json_escaped_has_no_control_chars(s.skip(1));
        assert forall|i: int| 0 <= i < json_escaped(s).len() implies 0x20 <= (
        json_escaped(s)[i] as int) by {
            let head = escaped_char(s[0]);
            if i < head.len() {
                assert(json_escaped(s)[i] == head[i]);
            } else {
                assert(json_escaped(s)[i] == json_escaped(s.skip(1))[i - head.len()]);
            }
        }
    }
}

/// The lower-case hexadecimal digit for `n`.
fn hex_digit(n: u32) -> (digit: char)
    requires
        n < 16,
    ensures
        digit == hex_digit_char(n as int),
{
    if n == 0 {
        '0'
    } else if n == 1 {
        '1'
    } else if n == 2 {
        '2'
    } else if n == 3 {
        '3'
    } else if n == 4 {
        '4'
    } else if n == 5 {
        '5'
    } else if n == 6 {
        '6'
    } else if n == 7 {
        '7'
    } else if n == 8 {
        '8'
    } else if n == 9 {
        '9'
    } else if n == 10 {
        'a'
    } else if n == 11 {
        'b'
    } else if n == 12 {
        'c'
    } else if n == 13 {
        'd'
    } else if n == 14 {
        'e'
    } else {
        'f'
    }
}

/// Appends `c` to `out` in its JSON string-literal form.
fn append_escaped_char(out: &mut String, c: char)
    ensures
        final(out)@ == old(out)@ + escaped_char(c),
{
    if c == '"' {
        out.append("\\\"");
        proof {
            reveal_strlit("\\\"");
            assert(old(out)@ + "\\\""@ =~= old(out)@ + escaped_char(c));
        }
    } else if c == '\\' {
        out.append("\\\\");
        proof {
            reveal_strlit("\\\\");
            assert(old(out)@ + "\\\\"@ =~= old(out)@ + escaped_char(c));
        }
    } else if c == '\n' {
        out.append("\\n");
        proof {
            reveal_strlit("\\n");
            assert(old(out)@ + "\\n"@ =~= old(out)@ + escaped_char(c));
        }
    } else if c == '\r' {
        out.append("\\r");
        proof {
            reveal_strlit("\\r");
            assert(old(out)@ + "\\r"@ =~= old(out)@ + escaped_char(c));
        }
    } else if c == '\t' {
        out.append("\\t");
        proof {
            reveal_strlit("\\t");
            assert(old(out)@ + "\\t"@ =~= old(out)@ + escaped_char(c));
        }
    } else if c == '\u{0008}' {
        out.append("\\b");
        proof {
            reveal_strlit("\\b");
            assert(old(out)@ + "\\b"@ =~= old(out)@ + escaped_char(c));
        }
    } else if c == '\u{000C}' {
        out.append("\\f");
        proof {
            reveal_strlit("\\f");
            assert(old(out)@ + "\\f"@ =~= old(out)@ + escaped_char(c));
        }
    } else if (c as u32) < 0x20 {
        let code: u32 = c as u32;
        out.push('\\');
        out.push('u');
        out.push('0');
        out.push('0');
        out.push(hex_digit(code / 16));
        out.push(hex_digit(code % 16));
        proof {
            assert(out@ =~= old(out)@ + escaped_char(c));
        }
    } else {
        out.push(c);
        proof {
            assert(out@ =~= old(out)@ + escaped_char(c));
        }
    }
}

/// Builds the failure payload `{"error": <message>}` as JSON text, the
/// message escaped as a JSON string literal.
pub fn error_body(message: &str) -> (body: String)
    ensures
        body@ == error_body_model(message@),
{
    let mut body = String::new();
    body.append("{\"error\":\"");
    let n: usize = message.unicode_len();
    let mut i: usize = 0;
    while i < n
        invariant
            n == message@.len(),
            i <= n,
            body@ == "{\"error\":\""@ + json_escaped(message@.take(i as int)),
        decreases n - i,
    {
        let c = message.get_char(i);
        append_escaped_char(&mut body, c);
        proof {
            let taken = message@.take(i + 1);
            lemma_json_escaped_snoc(taken);
            assert(taken.drop_last() =~= message@.take(i as int));
            assert(taken.last() == message@[i as int]);
            assert(body@ =~= "{\"error\":\""@ + json_escaped(taken));
        }
        i += 1;
    }
    body.append("\"}");
    proof {
        assert(message@.take(n as int) =~= message@);
        assert(body@ =~= error_body_model(message@));
    }
    body
}

/// Failure of a query against the underlying store. Only the existence
/// check surfaces it; the three mutations discard their failures by design.
pub enum StorageError {
    DatabaseError(String),
}

impl StorageError {
    /// The database's own message, as carried by the error.
    pub open spec fn message_model(&self) -> Seq<char> {
        match self {
            StorageError::DatabaseError(message) => message@,
        }
    }

    /// The database's own message, as carried by the error.
    pub fn message(&self) -> (message: &str)
        ensures
            message@ == self.message_model(),
    {
        match self {
            StorageError::DatabaseError(message) => message.as_str(),
        }
    }

    /// The transport classification of a storage failure: the fixed generic
    /// server-error status, whatever the message.
    pub fn status_code(&self) -> (code: u16)
        ensures
            code == 500,
    {
        500
    }

    /// The JSON payload of the failure response: an object whose one field
    /// `error` carries the database's message.
    pub fn response_body(&self) -> (body: String)
        ensures
            body@ == error_body_model(self.message_model()),
    {
        error_body(self.message())
    }
}

} // verus!
