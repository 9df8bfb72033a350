//! The JSON wire format of the Injection API, as this library emits it.
//!
//! The spec functions here define, character by character, the envelope the
//! remote service expects: PascalCase keys in a fixed order, no extra
//! whitespace, strings quoted with the short escapes and `\u00XX` for the
//! remaining control characters. The exec functions build exactly those
//! characters and are verified against the spec.

use vstd::prelude::*;

use crate::message::Message;
use crate::message::MessageView;
use crate::response::ResponseView;
use crate::transport::chars_vec;

verus! {

/// The hexadecimal digit `d` as a lowercase character, as the wire format
/// writes control-character escapes.
pub open spec fn hex_digit(d: int) -> char {
    if d == 0 {
        '0'
    } else if d == 1 {
        '1'
    } else if d == 2 {
        '2'
    } else if d == 3 {
        '3'
    } else if d == 4 {
        '4'
    } else if d == 5 {
        '5'
    } else if d == 6 {
        '6'
    } else if d == 7 {
        '7'
    } else if d == 8 {
        '8'
    } else if d == 9 {
        '9'
    } else if d == 10 {
        'a'
    } else if d == 11 {
        'b'
    } else if d == 12 {
        'c'
    } else if d == 13 {
        'd'
    } else if d == 14 {
        'e'
    } else {
        'f'
    }
}

/// How one character appears inside a JSON string literal on the wire:
/// quote and backslash are escaped, the five control characters with short
/// escapes use them, every other control character below U+0020 is written
/// `\u00XX` with lowercase hex, and every remaining character stands for
/// itself.
pub open spec fn escaped_char(c: char) -> Seq<char> {
    if c == '"' {
        seq!['\\', '"']
    } else if c == '\\' {
        seq!['\\', '\\']
    } else if c == '\u{8}' {
        seq!['\\', 'b']
    } else if c == '\u{c}' {
        seq!['\\', 'f']
    } else if c == '\n' {
        seq!['\\', 'n']
    } else if c == '\r' {
        seq!['\\', 'r']
    } else if c == '\t' {
        seq!['\\', 't']
    } else if (c as u32) < 0x20 {
        seq!['\\', 'u', '0', '0', hex_digit((c as u32) as int / 16), hex_digit(
            (c as u32) as int % 16,
        )]
    } else {
        seq![c]
    }
}

/// The body of a JSON string literal holding `s`.
pub open spec fn escaped(s: Seq<char>) -> Seq<char>
    decreases s.len(),
{
    if s.len() == 0 {
        Seq::<char>::empty()
    } else {
        escaped_char(s[0]) + escaped(s.skip(1))
    }
}

/// The JSON string literal holding `s`.
pub open spec fn quoted(s: Seq<char>) -> Seq<char> {
    seq!['"'] + escaped(s) + seq!['"']
}

/// The decimal digit `d` as a character.
pub open spec fn digit_char(d: int) -> char {
    if d == 0 {
        '0'
    } else if d == 1 {
        '1'
    } else if d == 2 {
        '2'
    } else if d == 3 {
        '3'
    } else if d == 4 {
        '4'
    } else if d == 5 {
        '5'
    } else if d == 6 {
        '6'
    } else if d == 7 {
        '7'
    } else if d == 8 {
        '8'
    } else {
        '9'
    }
}

/// `n` in decimal, most significant digit first, no leading zeros.
pub open spec fn dec_nat(n: nat) -> Seq<char>
    decreases n,
{
    if n < 10 {
        seq![digit_char(n as int)]
    } else {
        dec_nat(n / 10) + seq![digit_char((n % 10) as int)]
    }
}

/// The comma-separated JSON string literals of `ss`, in order.
pub open spec fn quoted_items(ss: Seq<Seq<char>>) -> Seq<char>
    decreases ss.len(),
{
    if ss.len() == 0 {
        Seq::<char>::empty()
    } else if ss.len() == 1 {
        quoted(ss[0])
    } else {
        quoted(ss[0]) + seq![','] + quoted_items(ss.skip(1))
    }
}

/// The JSON array of string literals holding `ss`, in order.
pub open spec fn string_array(ss: Seq<Seq<char>>) -> Seq<char> {
    seq!['['] + quoted_items(ss) + seq![']']
}

/// The JSON object for one message, keys in the API's fixed order and casing.
pub open spec fn message_json(m: MessageView) -> Seq<char> {
    "{\"From\":"@ + quoted(m.from) + ",\"To\":"@ + string_array(m.to) + ",\"Subject\":"@
        + quoted(m.subject) + ",\"TextBody\":"@ + quoted(m.body) + "}"@
}

/// The comma-separated message objects of `ms`, in order.
pub open spec fn message_items(ms: Seq<MessageView>) -> Seq<char>
    decreases ms.len(),
{
    if ms.len() == 0 {
        Seq::<char>::empty()
    } else if ms.len() == 1 {
        message_json(ms[0])
    } else {
        message_json(ms[0]) + seq![','] + message_items(ms.skip(1))
    }
}

/// The JSON array holding the message objects of `ms`, in order.
pub open spec fn messages_array(ms: Seq<MessageView>) -> Seq<char> {
    seq!['['] + message_items(ms) + seq![']']
}

/// The transaction receipt on the wire: `null` or a string literal.
pub open spec fn receipt_json(r: Option<Seq<char>>) -> Seq<char> {
    match r {
        Some(s) => quoted(s),
        None => "null"@,
    }
}

/// The whole reply envelope for a `Response` value, written token by token:
/// each key as a JSON string literal, in the order the service writes them.
pub open spec fn response_json(r: ResponseView) -> Seq<char> {
    "{"@ + quoted("ErrorCode"@) + ":"@ + quoted(r.error_code) + ","@ + quoted(
        "TransactionReceipt"@,
    ) + ":"@ + receipt_json(r.transaction_receipt) + ","@ + quoted("MessageResults"@) + ":"@
        + string_array(r.message_results) + "}"@
}

/// Escaping distributes over appending one character at the end.
pub proof fn lemma_escaped_snoc(s: Seq<char>, c: char)
    ensures
        escaped(s.push(c)) == escaped(s) + escaped_char(c),
    decreases s.len(),
{
    if s.len() == 0 {
        assert(s =~= Seq::<char>::empty());
        assert(s.push(c).skip(1) =~= Seq::<char>::empty());
        assert(escaped(s.push(c)) == escaped_char(c) + escaped(s.push(c).skip(1)));
        assert(escaped(s.push(c)) =~= escaped(s) + escaped_char(c));
    } else {
        assert(s.push(c).skip(1) =~= s.skip(1).push(c));
        lemma_escaped_snoc(s.skip(1), c);
        assert(escaped(s.push(c)) =~= escaped(s) + escaped_char(c));
    }
}

/// Joining string literals distributes over appending one string at the end.
pub proof fn lemma_quoted_items_snoc(ss: Seq<Seq<char>>, t: Seq<char>)
    ensures
        quoted_items(ss.push(t)) == if ss.len() == 0 {
            quoted(t)
        } else {
            quoted_items(ss) + seq![','] + quoted(t)
        },
    decreases ss.len(),
{
    if ss.len() == 0 {
        assert(quoted_items(ss.push(t)) == quoted(ss.push(t)[0]));
    } else {
        assert(ss.push(t).skip(1) =~= ss.skip(1).push(t));
        lemma_quoted_items_snoc(ss.skip(1), t);
        if ss.len() == 1 {
            assert(quoted_items(ss.push(t)) =~= quoted_items(ss) + seq![','] + quoted(t));
        } else {
            assert(quoted_items(ss.push(t)) =~= quoted_items(ss) + seq![','] + quoted(t));
        }
    }
}

/// Joining message objects distributes over appending one message at the end.
pub proof fn lemma_message_items_snoc(ms: Seq<MessageView>, m: MessageView)
    ensures
        message_items(ms.push(m)) == if ms.len() == 0 {
            message_json(m)
        } else {
            message_items(ms) + seq![','] + message_json(m)
        },
    decreases ms.len(),
{
    if ms.len() == 0 {
        assert(message_items(ms.push(m)) == message_json(ms.push(m)[0]));
    } else {
        assert(ms.push(m).skip(1) =~= ms.skip(1).push(m));
        lemma_message_items_snoc(ms.skip(1), m);
        assert(message_items(ms.push(m)) =~= message_items(ms) + seq![','] + message_json(m));
    }
}

/// Appends the characters of the literal `s` to `out`.
pub fn push_lit(out: &mut Vec<char>, s: &str)
    ensures
        final(out)@ == old(out)@ + s@,
{
    let mut v = chars_vec(s);
    out.append(&mut v);
}

/// Appends the lowercase hexadecimal digit `d` to `out`.
pub fn push_hex_digit(out: &mut Vec<char>, d: u32)
    requires
        d < 16,
    ensures
        final(out)@ == old(out)@ + seq![hex_digit(d as int)],
{
    if d == 0 {
        out.push('0');
    } else if d == 1 {
        out.push('1');
    } else if d == 2 {
        out.push('2');
    } else if d == 3 {
        out.push('3');
    } else if d == 4 {
        out.push('4');
    } else if d == 5 {
        out.push('5');
    } else if d == 6 {
        out.push('6');
    } else if d == 7 {
        out.push('7');
    } else if d == 8 {
        out.push('8');
    } else if d == 9 {
        out.push('9');
    } else if d == 10 {
        out.push('a');
    } else if d == 11 {
        out.push('b');
    } else if d == 12 {
        out.push('c');
    } else if d == 13 {
        out.push('d');
    } else if d == 14 {
        out.push('e');
    } else {
        out.push('f');
    }
}

/// Appends the escaped body of a string literal holding `s@` to `out`.
pub fn push_escaped(out: &mut Vec<char>, s: &Vec<char>)
    ensures
        final(out)@ == old(out)@ + escaped(s@),
{
    let n = s.len();
    let mut i: usize = 0;
    proof {
        assert(s@.take(0) =~= Seq::<char>::empty());
        assert(out@ =~= old(out)@ + escaped(s@.take(0)));
    }
    while i < n
        invariant
            i <= n,
            n == s@.len(),
            out@ == old(out)@ + escaped(s@.take(i as int)),
        decreases n - i,
    {
        let c = s[i];
        if c == '"' {
            out.push('\\');
            out.push('"');
        } else if c == '\\' {
            out.push('\\');
            out.push('\\');
        } else if c == '\u{8}' {
            out.push('\\');
            out.push('b');
        } else if c == '\u{c}' {
            out.push('\\');
            out.push('f');
        } else if c == '\n' {
            out.push('\\');
            out.push('n');
        } else if c == '\r' {
            out.push('\\');
            out.push('r');
        } else if c == '\t' {
            out.push('\\');
            out.push('t');
        } else if (c as u32) < 0x20 {
            let v: u32 = c as u32;
            out.push('\\');
            out.push('u');
            out.push('0');
            out.push('0');
            push_hex_digit(out, v / 16);
            push_hex_digit(out, v % 16);
        } else {
            out.push(c);
        }
        proof {
            lemma_escaped_snoc(s@.take(i as int), s@[i as int]);
            assert(s@.take(i as int + 1) =~= s@.take(i as int).push(s@[i as int]));
            assert(out@ =~= old(out)@ + escaped(s@.take(i as int + 1)));
        }
        i = i + 1;
    }
    proof {
        assert(s@.take(n as int) =~= s@);
    }
}

/// Appends the JSON string literal holding `s@` to `out`.
pub fn push_quoted(out: &mut Vec<char>, s: &str)
    ensures
        final(out)@ == old(out)@ + quoted(s@),
{
    out.push('"');
    let cs = chars_vec(s);
    push_escaped(out, &cs);
    out.push('"');
    proof {
        assert(out@ =~= old(out)@ + quoted(s@));
    }
}

/// Appends the decimal digit `d` to `out`.
pub fn push_digit(out: &mut Vec<char>, d: u16)
    requires
        d < 10,
    ensures
        final(out)@ == old(out)@ + seq![digit_char(d as int)],
{
    if d == 0 {
        out.push('0');
    } else if d == 1 {
        out.push('1');
    } else if d == 2 {
        out.push('2');
    } else if d == 3 {
        out.push('3');
    } else if d == 4 {
        out.push('4');
    } else if d == 5 {
        out.push('5');
    } else if d == 6 {
        out.push('6');
    } else if d == 7 {
        out.push('7');
    } else if d == 8 {
        out.push('8');
    } else {
        out.push('9');
    }
}

/// Appends `n` in decimal to `out`.
pub fn push_dec(out: &mut Vec<char>, n: u16)
    ensures
        final(out)@ == old(out)@ + dec_nat(n as nat),
    decreases n,
{
    if n < 10 {
        push_digit(out, n);
    } else {
        push_dec(out, n / 10);
        push_digit(out, n % 10);
        proof {
            assert(out@ =~= old(out)@ + dec_nat(n as nat));
        }
    }
}

/// Appends the JSON array of the string literals of `ss` to `out`.
pub fn push_string_array(out: &mut Vec<char>, ss: &Vec<String>)
    ensures
        final(out)@ == old(out)@ + string_array(ss@.map_values(|s: String| s@)),
{
    let ghost vs: Seq<Seq<char>> = ss@.map_values(|s: String| s@);
    out.push('[');
    let n = ss.len();
    let mut i: usize = 0;
    proof {
        assert(vs.take(0) =~= Seq::<Seq<char>>::empty());
        assert(out@ =~= old(out)@ + seq!['['] + quoted_items(vs.take(0)));
    }
    while i < n
        invariant
            i <= n,
            n == ss@.len(),
            vs == ss@.map_values(|s: String| s@),
            out@ == old(out)@ + seq!['['] + quoted_items(vs.take(i as int)),
        decreases n - i,
    {
        if i > 0 {
            out.push(',');
        }
        push_quoted(out, ss[i].as_str());
        proof {
            lemma_quoted_items_snoc(vs.take(i as int), vs[i as int]);
            assert(vs.take(i as int + 1) =~= vs.take(i as int).push(vs[i as int]));
            assert(out@ =~= old(out)@ + seq!['['] + quoted_items(vs.take(i as int + 1)));
        }
        i = i + 1;
    }
    out.push(']');
    proof {
        assert(vs.take(n as int) =~= vs);
        assert(out@ =~= old(out)@ + string_array(vs));
    }
}

/// Appends the JSON object of one message to `out`.
pub fn push_message(out: &mut Vec<char>, m: &Message)
    ensures
        final(out)@ == old(out)@ + message_json(m@),
{
    push_lit(out, "{\"From\":");
    push_quoted(out, m.from.as_str());
    push_lit(out, ",\"To\":");
    push_string_array(out, &m.to);
    push_lit(out, ",\"Subject\":");
    push_quoted(out, m.subject.as_str());
    push_lit(out, ",\"TextBody\":");
    push_quoted(out, m.body.as_str());
    push_lit(out, "}");
    proof {
        assert(out@ =~= old(out)@ + message_json(m@));
    }
}

/// Appends the JSON array of the message objects of `ms` to `out`.
pub fn push_messages_array(out: &mut Vec<char>, ms: &Vec<Message>)
    ensures
        final(out)@ == old(out)@ + messages_array(ms@.map_values(|m: Message| m@)),
{
    let ghost vs: Seq<MessageView> = ms@.map_values(|m: Message| m@);
    out.push('[');
    let n = ms.len();
    let mut i: usize = 0;
    proof {
        assert(vs.take(0) =~= Seq::<MessageView>::empty());
        assert(out@ =~= old(out)@ + seq!['['] + message_items(vs.take(0)));
    }
    while i < n
        invariant
            i <= n,
            n == ms@.len(),
            vs == ms@.map_values(|m: Message| m@),
            out@ == old(out)@ + seq!['['] + message_items(vs.take(i as int)),
        decreases n - i,
    {
        if i > 0 {
            out.push(',');
        }
        push_message(out, &ms[i]);
        proof {
            lemma_message_items_snoc(vs.take(i as int), vs[i as int]);
            assert(vs.take(i as int + 1) =~= vs.take(i as int).push(vs[i as int]));
            assert(out@ =~= old(out)@ + seq!['['] + message_items(vs.take(i as int + 1)));
        }
        i = i + 1;
    }
    out.push(']');
    proof {
        assert(vs.take(n as int) =~= vs);
        assert(out@ =~= old(out)@ + messages_array(vs));
    }
}

} // verus!
