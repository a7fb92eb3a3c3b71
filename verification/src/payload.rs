//! The JSON body of a request: a token and a command, escaped for a JSON string.

use vstd::prelude::*;
use vstd::string::StringExecFns;
use crate::text::push_char;

verus! {

/// How one character stands inside a JSON string: a backslash goes before `"` and `\`,
/// line feed, carriage return and tab become `\n`, `\r` and `\t`, and every other
/// character, the remaining control characters too, stands for itself.
pub open spec fn escape_char(c: char) -> Seq<char> {
    if c == '"' {
        seq!['\\', '"']
    } else if c == '\\' {
        seq!['\\', '\\']
    } else if c == '\n' {
        seq!['\\', 'n']
    } else if c == '\r' {
        seq!['\\', 'r']
    } else if c == '\t' {
        seq!['\\', 't']
    } else {
        seq![c]
    }
}

/// A text with each of its characters escaped, in order.
pub open spec fn escaped(s: Seq<char>) -> Seq<char>
    decreases s.len(),
{
    if s.len() == 0 {
        Seq::<char>::empty()
    } else {
        escaped(s.drop_last()) + escape_char(s.last())
    }
}

/// The JSON object that carries a token and a command, without any whitespace.
pub open spec fn payload_text(token: Seq<char>, command: Seq<char>) -> Seq<char> {
    "{\"token\":\""@ + escaped(token) + "\",\"command\":\""@ + escaped(command) + "\"}"@
}

/// Escapes `input` for use inside a JSON string.
pub fn json_escape(input: &str) -> (out: String)
    ensures
        out@ == escaped(input@),
{
    let mut out = String::new();
    for c in it: input.chars()
        invariant
            it.seq() == input@,
            out@ == escaped(input@.take(it.index())),
    {
        proof {
            let longer = input@.take(it.index() + 1);
            assert(longer.drop_last() =~= input@.take(it.index()));
        }
        if c == '"' {
            push_char(&mut out, '\\');
            push_char(&mut out, '"');
        } else if c == '\\' {
            push_char(&mut out, '\\');
            push_char(&mut out, '\\');
        } else if c == '\n' {
            push_char(&mut out, '\\');
            push_char(&mut out, 'n');
        } else if c == '\r' {
            push_char(&mut out, '\\');
            push_char(&mut out, 'r');
        } else if c == '\t' {
            push_char(&mut out, '\\');
            push_char(&mut out, 't');
        } else {
            push_char(&mut out, c);
        }
    }
    assert(input@.take(input@.len() as int) =~= input@);
    out
}

/// Builds the JSON object `{"token":"..","command":".."}` around the two escaped texts.
pub fn encode(token: &str, command: &str) -> (payload: String)
    ensures
        payload@ == payload_text(token@, command@),
{
    let mut payload = String::from_str("{\"token\":\"");
    let token = json_escape(token);
    payload.append(token.as_str());
    payload.append("\",\"command\":\"");
    let command = json_escape(command);
    payload.append(command.as_str());
    payload.append("\"}");
    payload
}

/// True for the control characters U+0000 to U+001F, which JSON forbids inside a
/// string unless they are escaped.
pub open spec fn is_control(c: char) -> bool {
    c < ' '
}

/// True when escaping leaves no control character bare: each one in `s` is a line
/// feed, a carriage return or a tab.
pub open spec fn escapes_fully(s: Seq<char>) -> bool {
    forall|i: int|
        0 <= i < s.len() && is_control(#[trigger] s[i]) ==> s[i] == '\n' || s[i] == '\r' || s[i]
            == '\t'
}

/// The character that a backslash followed by `c` stands for in a JSON string. The
/// escape `\u`, which the encoder never writes, is left out.
pub open spec fn unescape(c: char) -> Option<char> {
    if c == '"' || c == '\\' || c == '/' {
        Some(c)
    } else if c == 'b' {
        Some('\u{8}')
    } else if c == 'f' {
        Some('\u{c}')
    } else if c == 'n' {
        Some('\n')
    } else if c == 'r' {
        Some('\r')
    } else if c == 't' {
        Some('\t')
    } else {
        None
    }
}

/// How a JSON reader takes a string that starts right after its opening quote: the
/// value it stands for, and the text that follows its closing quote. `None` where the
/// text is no such string: it ends before a closing quote, holds a bare control
/// character, or a backslash with no known escape after it.
pub open spec fn read_string(text: Seq<char>) -> Option<(Seq<char>, Seq<char>)>
    decreases text.len(),
{
    if text.len() == 0 {
        None
    } else if text[0] == '"' {
        Some((Seq::<char>::empty(), text.skip(1)))
    } else if text[0] == '\\' {
        if text.len() >= 2 && unescape(text[1]) is Some {
            match read_string(text.skip(2)) {
                Some((value, rest)) => Some((seq![unescape(text[1])->0] + value, rest)),
                None => None,
            }
        } else {
            None
        }
    } else if is_control(text[0]) {
        None
    } else {
        match read_string(text.skip(1)) {
            Some((value, rest)) => Some((seq![text[0]] + value, rest)),
            None => None,
        }
    }
}

/// How a JSON reader takes an object written as the encoder writes it, with the key
/// `token` first, the key `command` second and no whitespace: the two values. `None`
/// for any other text.
pub open spec fn read_payload(text: Seq<char>) -> Option<(Seq<char>, Seq<char>)> {
    let opening = "{\"token\":\""@;
    let between = ",\"command\":\""@;
    if !opening.is_prefix_of(text) {
        None
    } else {
        match read_string(text.skip(opening.len() as int)) {
            None => None,
            Some((token, rest)) => if !between.is_prefix_of(rest) {
                None
            } else {
                match read_string(rest.skip(between.len() as int)) {
                    None => None,
                    Some((command, end)) => if end == "}"@ {
                        Some((token, command))
                    } else {
                        None
                    },
                }
            },
        }
    }
}

/// Escaping two texts one after the other escapes their concatenation.
pub proof fn lemma_escaped_concat(a: Seq<char>, b: Seq<char>)
    ensures
        escaped(a + b) == escaped(a) + escaped(b),
    decreases b.len(),
{
    if b.len() > 0 {
        lemma_escaped_concat(a, b.drop_last());
        assert((a + b).drop_last() =~= a + b.drop_last());
    }
}

/// A JSON reader that meets an escaped text and then a quote reads the text back and
/// goes on after the quote, unless the text holds a control character that escaping
/// leaves bare: then it reads nothing.
pub proof fn lemma_read_string_escaped(s: Seq<char>, rest: Seq<char>)
    ensures
        read_string(escaped(s) + seq!['"'] + rest) == if escapes_fully(s) {
            Some((s, rest))
        } else {
            None
        },
    decreases s.len(),
{
    let text = escaped(s) + seq!['"'] + rest;
    if s.len() > 0 {
        let c = s.first();
        let tail = s.drop_first();
        let after = escaped(tail) + seq!['"'] + rest;
        assert(s =~= seq![c] + tail);
        lemma_escaped_concat(seq![c], tail);
        assert(escaped(seq![c]) =~= escape_char(c)) by {
            assert(seq![c].drop_last() =~= Seq::<char>::empty());
            assert(escaped(Seq::<char>::empty()) =~= Seq::<char>::empty());
        }
        let bare = is_control(c) && c != '\n' && c != '\r' && c != '\t';
        assert(escapes_fully(s) <==> !bare && escapes_fully(tail));
        lemma_read_string_escaped(tail, rest);
        if escape_char(c).len() == 2 {
            assert(text.skip(2) =~= after);
        } else {
            assert(text.skip(1) =~= after);
        }
    }
}

/// A JSON reader gets the token and the command back from the encoded object,
/// whatever quotes, backslashes, line feeds, carriage returns and tabs they hold.
/// Where one of them holds another control character, which escaping leaves bare,
/// the reader refuses the object.
pub proof fn lemma_payload_reads_back(token: Seq<char>, command: Seq<char>)
    ensures
        read_payload(payload_text(token, command)) == if escapes_fully(token) && escapes_fully(
            command,
        ) {
            Some((token, command))
        } else {
            None
        },
{
    reveal_strlit("{\"token\":\"");
    reveal_strlit("\",\"command\":\"");
    reveal_strlit(",\"command\":\"");
    reveal_strlit("\"}");
    reveal_strlit("}");
    let opening = "{\"token\":\""@;
    let between = ",\"command\":\""@;
    let text = payload_text(token, command);
    let second = escaped(command) + seq!['"'] + "}"@;
    let first = escaped(token) + seq!['"'] + (between + second);
    assert(text.skip(opening.len() as int) =~= first);
    lemma_read_string_escaped(token, between + second);
    assert((between + second).skip(between.len() as int) =~= second);
    lemma_read_string_escaped(command, "}"@);
}

} // verus!
