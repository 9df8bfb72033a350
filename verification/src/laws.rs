//! The laws the wire format obeys, proved once and for all: serialization is
//! a function of the request value alone, message order is kept on the wire,
//! and parsing a serialized reply gives back exactly the reply value.

use vstd::prelude::*;

use crate::message::MessageView;
use crate::parse::PartialReply;
use crate::parse::parse_response;
use crate::parse::expect;
use crate::parse::hex4;
use crate::parse::hex_val;
use crate::parse::parse_member_val;
use crate::parse::parse_members;
use crate::parse::is_ws;
use crate::parse::parse_more_strings;
use crate::parse::parse_receipt;
use crate::parse::parse_string;
use crate::parse::parse_string_array;
use crate::parse::parse_string_body;
use crate::parse::skip_ws;
use crate::parse::tok;
use crate::parse::unescaped_char;
use crate::request::RequestView;
use crate::request::request_json;
use crate::response::ResponseView;
use crate::wire::response_json;
use crate::wire::escaped;
use crate::wire::escaped_char;
use crate::wire::hex_digit;
use crate::wire::message_items;
use crate::wire::message_json;
use crate::wire::messages_array;
use crate::wire::quoted;
use crate::wire::quoted_items;
use crate::wire::receipt_json;
use crate::wire::string_array;

verus! {

/// Serialization is deterministic: the wire characters of a request are a
/// function of its value alone, so equal requests serialize identically.
pub proof fn lemma_request_serialization_deterministic(a: RequestView, b: RequestView)
    requires
        a == b,
    ensures
        request_json(a) == request_json(b),
{
}

/// Message order is preserved on the wire: a request holding the messages
/// `[a, b]` serializes them as the array `[a_json,b_json]`, in that order.
pub proof fn lemma_messages_order_preserved(a: MessageView, b: MessageView)
    ensures
        messages_array(seq![a, b]) == seq!['['] + message_json(a) + seq![','] + message_json(b)
            + seq![']'],
{
    let ms = seq![a, b];
    assert(ms.skip(1) =~= seq![b]);
    assert(message_items(seq![b]) == message_json(b));
    assert(message_items(ms) == message_json(a) + seq![','] + message_json(b));
    assert(messages_array(ms) =~= seq!['['] + message_json(a) + seq![','] + message_json(b)
        + seq![']']);
}

/// A hexadecimal digit written by the serializer reads back to its value.
proof fn lemma_hex_digit_val(d: int)
    requires
        0 <= d < 16,
    ensures
        hex_val(hex_digit(d)) == Some(d as u32),
{
}

/// Skipping whitespace at a non-whitespace position (or at the end) stays put.
proof fn lemma_skip_ws_at(s: Seq<char>, i: int)
    requires
        0 <= i <= s.len(),
        i == s.len() || !is_ws(s[i]),
    ensures
        skip_ws(s, i) == i,
{
}

/// A string literal body followed by its closing quote parses back to
/// exactly the characters it was built from.
proof fn lemma_parse_body_exact(s: Seq<char>, i: int, t: Seq<char>)
    requires
        0 <= i,
        i + escaped(t).len() + 1 <= s.len(),
        s.subrange(i, i + escaped(t).len() + 1) == escaped(t) + seq!['"'],
    ensures
        parse_string_body(s, i) == Some((t, i + escaped(t).len() + 1)),
    decreases t.len(),
{
    let et = escaped(t);
    if t.len() == 0 {
        assert(t =~= Seq::<char>::empty());
        assert(et == Seq::<char>::empty());
        assert(s[i] == (et + seq!['"'])[0]) by {
            assert(s.subrange(i, i + et.len() + 1)[0] == s[i]);
        }
        assert(s[i] == '"');
        assert(parse_string_body(s, i) == Some((Seq::<char>::empty(), i + 1)));
    } else {
        let c0 = t[0];
        let e0 = escaped_char(c0);
        let tr = t.skip(1);
        assert(et == e0 + escaped(tr));
        assert(s[i] == (et + seq!['"'])[0]) by {
            assert(s.subrange(i, i + et.len() + 1)[0] == s[i]);
        }
        if c0 == '"' || c0 == '\\' || c0 == '\u{8}' || c0 == '\u{c}' || c0 == '\n' || c0 == '\r'
            || c0 == '\t' {
            assert(e0.len() == 2 && e0[0] == '\\');
            let x = e0[1];
            assert(unescaped_char(x) == Some(c0));
            assert(x != 'u');
            assert(s[i] == '\\');
            assert(s[i + 1] == (et + seq!['"'])[1]) by {
                assert(s.subrange(i, i + et.len() + 1)[1] == s[i + 1]);
            }
            assert(s[i + 1] == x);
            let w = escaped(tr) + seq!['"'];
            assert forall|k: int| 0 <= k < w.len() implies s[i + 2 + k] == w[k] by {
                assert(s.subrange(i, i + et.len() + 1)[2 + k] == s[i + 2 + k]);
                assert((et + seq!['"'])[2 + k] == w[k]);
            }
            assert(s.subrange(i + 2, i + 2 + escaped(tr).len() + 1) =~= w);
            lemma_parse_body_exact(s, i + 2, tr);
            assert(seq![c0] + tr =~= t);
            assert(parse_string_body(s, i) == Some((t, i + et.len() + 1)));
        } else if (c0 as u32) < 0x20 {
            let n: u32 = c0 as u32;
            let hi = n as int / 16;
            let lo = n as int % 16;
            assert(e0.len() == 6 && e0[0] == '\\' && e0[1] == 'u' && e0[2] == '0' && e0[3] == '0'
                && e0[4] == hex_digit(hi) && e0[5] == hex_digit(lo));
            assert(s[i] == '\\');
            assert forall|k: int| 1 <= k < 6 implies s[i + k] == e0[k] by {
                assert(s.subrange(i, i + et.len() + 1)[k] == s[i + k]);
                assert((et + seq!['"'])[k] == e0[k]);
            }
            lemma_hex_digit_val(hi);
            lemma_hex_digit_val(lo);
            assert(hex4(s, i + 2) == Some(n)) by {
                assert(s[i + 2] == '0' && s[i + 3] == '0' && s[i + 4] == hex_digit(hi) && s[i + 5]
                    == hex_digit(lo));
                assert(hex_val('0') == Some(0u32));
                assert(0 * 4096 + 0 * 256 + hi * 16 + lo == n as int);
            }
            assert(!(0xDC00 <= n && n < 0xE000) && !(0xD800 <= n && n < 0xDC00));
            let w = escaped(tr) + seq!['"'];
            assert forall|k: int| 0 <= k < w.len() implies s[i + 6 + k] == w[k] by {
                assert(s.subrange(i, i + et.len() + 1)[6 + k] == s[i + 6 + k]);
                assert((et + seq!['"'])[6 + k] == w[k]);
            }
            assert(s.subrange(i + 6, i + 6 + escaped(tr).len() + 1) =~= w);
            lemma_parse_body_exact(s, i + 6, tr);
            vstd::utf8::char_u32_cast(c0, n);
            assert((n as char) == c0);
            assert(seq![c0] + tr =~= t);
            assert(parse_string_body(s, i) == Some((t, i + et.len() + 1)));
        } else {
            assert(e0 =~= seq![c0]);
            assert(s[i] == c0);
            assert(c0 != '"' && c0 != '\\' && (c0 as u32) >= 0x20);
            let w = escaped(tr) + seq!['"'];
            assert forall|k: int| 0 <= k < w.len() implies s[i + 1 + k] == w[k] by {
                assert(s.subrange(i, i + et.len() + 1)[1 + k] == s[i + 1 + k]);
                assert((et + seq!['"'])[1 + k] == w[k]);
            }
            assert(s.subrange(i + 1, i + 1 + escaped(tr).len() + 1) =~= w);
            lemma_parse_body_exact(s, i + 1, tr);
            assert(seq![c0] + tr =~= t);
            assert(parse_string_body(s, i) == Some((t, i + et.len() + 1)));
        }
    }
}

/// A serialized string literal parses back to exactly the string it holds.
proof fn lemma_parse_string_exact(s: Seq<char>, i: int, t: Seq<char>)
    requires
        0 <= i,
        i + quoted(t).len() <= s.len(),
        s.subrange(i, i + quoted(t).len()) == quoted(t),
    ensures
        parse_string(s, i) == Some((t, i + quoted(t).len())),
{
    let q = quoted(t);
    assert(q.len() == escaped(t).len() + 2);
    assert(s[i] == q[0]) by {
        assert(s.subrange(i, i + q.len())[0] == s[i]);
    }
    assert(s[i] == '"');
    lemma_skip_ws_at(s, i);
    let w = escaped(t) + seq!['"'];
    assert forall|k: int| 0 <= k < w.len() implies s[i + 1 + k] == w[k] by {
        assert(s.subrange(i, i + q.len())[1 + k] == s[i + 1 + k]);
        assert(q[1 + k] == w[k]);
    }
    assert(s.subrange(i + 1, i + 1 + escaped(t).len() + 1) =~= w);
    lemma_parse_body_exact(s, i + 1, t);
}

/// A serialized receipt (`null` or a string literal) parses back to exactly
/// the optional string it holds.
proof fn lemma_parse_receipt_exact(s: Seq<char>, i: int, o: Option<Seq<char>>)
    requires
        0 <= i,
        i + receipt_json(o).len() <= s.len(),
        s.subrange(i, i + receipt_json(o).len()) == receipt_json(o),
    ensures
        parse_receipt(s, i) == Some((o, i + receipt_json(o).len())),
{
    let r = receipt_json(o);
    match o {
        None => {
            reveal_strlit("null");
            assert(r.len() == 4);
            assert(s[i] == r[0]) by {
                assert(s.subrange(i, i + r.len())[0] == s[i]);
            }
            assert(s[i] == 'n');
            lemma_skip_ws_at(s, i);
            assert(s.subrange(i, i + 4) =~= "null"@);
            assert(expect(s, i, "null"@) == Some(i + 4));
        },
        Some(t) => {
            assert(s[i] == r[0]) by {
                assert(s.subrange(i, i + r.len())[0] == s[i]);
            }
            assert(s[i] == '"');
            lemma_skip_ws_at(s, i);
            lemma_parse_string_exact(s, i, t);
        },
    }
}

/// The wire characters of the rest of a string array, after its first
/// element: each further element behind a comma, then the closing bracket.
pub open spec fn more_items(ss: Seq<Seq<char>>) -> Seq<char>
    decreases ss.len(),
{
    if ss.len() == 0 {
        seq![']']
    } else {
        seq![','] + quoted(ss[0]) + more_items(ss.skip(1))
    }
}

/// A nonempty joined string array decomposes as its first literal followed
/// by the rest behind commas.
proof fn lemma_items_decomp(ss: Seq<Seq<char>>)
    requires
        ss.len() > 0,
    ensures
        quoted_items(ss) + seq![']'] == quoted(ss[0]) + more_items(ss.skip(1)),
    decreases ss.len(),
{
    if ss.len() == 1 {
        assert(ss.skip(1) =~= Seq::<Seq<char>>::empty());
        assert(quoted_items(ss) + seq![']'] =~= quoted(ss[0]) + more_items(ss.skip(1)));
    } else {
        let s1 = ss.skip(1);
        lemma_items_decomp(s1);
        assert(quoted_items(ss) == quoted(ss[0]) + seq![','] + quoted_items(s1));
        assert(more_items(s1) == seq![','] + quoted(s1[0]) + more_items(s1.skip(1)));
        assert(quoted_items(ss) + seq![']'] =~= quoted(ss[0]) + seq![','] + (quoted_items(s1)
            + seq![']']));
        assert(quoted(ss[0]) + seq![','] + (quoted(s1[0]) + more_items(s1.skip(1))) =~= quoted(
            ss[0],
        ) + more_items(s1));
    }
}

/// The serialized rest of a string array parses back to exactly the
/// remaining elements.
proof fn lemma_parse_more_exact(s: Seq<char>, i: int, ss: Seq<Seq<char>>)
    requires
        0 <= i,
        i + more_items(ss).len() <= s.len(),
        s.subrange(i, i + more_items(ss).len()) == more_items(ss),
    ensures
        parse_more_strings(s, i) == Some((ss, i + more_items(ss).len())),
    decreases ss.len(),
{
    let m = more_items(ss);
    assert(s[i] == m[0]) by {
        assert(s.subrange(i, i + m.len())[0] == s[i]);
    }
    if ss.len() == 0 {
        assert(s[i] == ']');
        lemma_skip_ws_at(s, i);
        assert(ss =~= Seq::<Seq<char>>::empty());
    } else {
        assert(s[i] == ',');
        lemma_skip_ws_at(s, i);
        let q = quoted(ss[0]);
        let rest = more_items(ss.skip(1));
        assert(m == seq![','] + q + rest);
        assert forall|k: int| 0 <= k < q.len() implies s[i + 1 + k] == q[k] by {
            assert(s.subrange(i, i + m.len())[1 + k] == s[i + 1 + k]);
            assert(m[1 + k] == q[k]);
        }
        assert(s.subrange(i + 1, i + 1 + q.len()) =~= q);
        lemma_parse_string_exact(s, i + 1, ss[0]);
        let p = i + 1 + q.len();
        assert forall|k: int| 0 <= k < rest.len() implies s[p + k] == rest[k] by {
            assert(s.subrange(i, i + m.len())[1 + q.len() + k] == s[p + k]);
            assert(m[1 + q.len() + k] == rest[k]);
        }
        assert(s.subrange(p, p + rest.len()) =~= rest);
        lemma_parse_more_exact(s, p, ss.skip(1));
        assert(seq![ss[0]] + ss.skip(1) =~= ss);
        assert(parse_more_strings(s, i) == Some((ss, i + m.len())));
    }
}

/// A serialized string array parses back to exactly the strings it holds,
/// in order.
proof fn lemma_parse_array_exact(s: Seq<char>, i: int, ss: Seq<Seq<char>>)
    requires
        0 <= i,
        i + string_array(ss).len() <= s.len(),
        s.subrange(i, i + string_array(ss).len()) == string_array(ss),
    ensures
        parse_string_array(s, i) == Some((ss, i + string_array(ss).len())),
{
    let a = string_array(ss);
    reveal_strlit("[");
    assert(s[i] == a[0]) by {
        assert(s.subrange(i, i + a.len())[0] == s[i]);
    }
    assert(s[i] == '[');
    lemma_skip_ws_at(s, i);
    assert(s.subrange(i, i + 1) =~= "["@);
    assert(expect(s, i, "["@) == Some(i + 1));
    assert(tok(s, i, "["@) == Some(i + 1));
    if ss.len() == 0 {
        assert(a =~= seq!['[', ']']);
        assert(s[i + 1] == a[1]) by {
            assert(s.subrange(i, i + a.len())[1] == s[i + 1]);
        }
        assert(s[i + 1] == ']');
        lemma_skip_ws_at(s, i + 1);
        assert(ss =~= Seq::<Seq<char>>::empty());
        assert(parse_string_array(s, i) == Some((ss, i + 2)));
    } else {
        lemma_items_decomp(ss);
        let q = quoted(ss[0]);
        let rest = more_items(ss.skip(1));
        assert(a == seq!['['] + quoted_items(ss) + seq![']']);
        assert(a =~= seq!['['] + (quoted(ss[0]) + more_items(ss.skip(1))));
        assert forall|k: int| 0 <= k < q.len() implies s[i + 1 + k] == q[k] by {
            assert(s.subrange(i, i + a.len())[1 + k] == s[i + 1 + k]);
            assert(a[1 + k] == q[k]);
        }
        assert(s.subrange(i + 1, i + 1 + q.len()) =~= q);
        assert(s[i + 1] == q[0]);
        assert(s[i + 1] == '"');
        lemma_skip_ws_at(s, i + 1);
        lemma_parse_string_exact(s, i + 1, ss[0]);
        let p = i + 1 + q.len();
        assert forall|k: int| 0 <= k < rest.len() implies s[p + k] == rest[k] by {
            assert(s.subrange(i, i + a.len())[1 + q.len() + k] == s[p + k]);
            assert(a[1 + q.len() + k] == rest[k]);
        }
        assert(s.subrange(p, p + rest.len()) =~= rest);
        lemma_parse_more_exact(s, p, ss.skip(1));
        assert(seq![ss[0]] + ss.skip(1) =~= ss);
        assert(a.len() == 1 + q.len() + rest.len());
        assert(parse_string_array(s, i) == Some((ss, i + a.len())));
    }
}

/// A verbatim literal that starts with no whitespace is the next token at
/// the position where it stands.
proof fn lemma_tok_lit(s: Seq<char>, i: int, t: Seq<char>)
    requires
        0 <= i,
        i + t.len() <= s.len(),
        t.len() > 0,
        !is_ws(t[0]),
        s.subrange(i, i + t.len()) == t,
    ensures
        tok(s, i, t) == Some(i + t.len()),
{
    assert(s[i] == t[0]) by {
        assert(s.subrange(i, i + t.len())[0] == s[i]);
    }
    lemma_skip_ws_at(s, i);
    assert(expect(s, i, t) == Some(i + t.len()));
}

/// A subrange made of two pieces carries each piece as a subrange of its
/// own, at the matching offsets.
proof fn lemma_peel(s: Seq<char>, i: int, x: Seq<char>, y: Seq<char>)
    requires
        0 <= i,
        i + x.len() + y.len() <= s.len(),
        s.subrange(i, i + x.len() + y.len()) == x + y,
    ensures
        s.subrange(i, i + x.len()) == x,
        s.subrange(i + x.len(), i + x.len() + y.len()) == y,
{
    assert forall|k: int| 0 <= k < x.len() implies s.subrange(i, i + x.len() as int)[k] == x[k] by {
        assert(s.subrange(i, i + x.len() + y.len())[k] == s[i + k]);
        assert(s.subrange(i, i + x.len() as int)[k] == s[i + k]);
    }
    assert(s.subrange(i, i + x.len() as int) =~= x);
    assert forall|k: int|
        0 <= k < y.len() implies s.subrange(i + x.len(), i + x.len() + y.len())[k] == y[k] by {
        assert(s.subrange(i, i + x.len() + y.len())[x.len() + k] == s[i + x.len() + k]);
        assert(s.subrange(i + x.len(), i + x.len() + y.len())[k] == s[i + x.len() + k]);
    }
    assert(s.subrange(i + x.len(), i + x.len() + y.len()) =~= y);
}

/// The offsets of the tokens inside a serialized reply envelope.
spec fn reply_o2(v: ResponseView) -> int {
    1 + quoted("ErrorCode"@).len() as int
}

spec fn reply_o3(v: ResponseView) -> int {
    reply_o2(v) + 1
}

spec fn reply_o4(v: ResponseView) -> int {
    reply_o3(v) + quoted(v.error_code).len() as int
}

spec fn reply_o5(v: ResponseView) -> int {
    reply_o4(v) + 1
}

spec fn reply_o6(v: ResponseView) -> int {
    reply_o5(v) + quoted("TransactionReceipt"@).len() as int
}

spec fn reply_o7(v: ResponseView) -> int {
    reply_o6(v) + 1
}

spec fn reply_o8(v: ResponseView) -> int {
    reply_o7(v) + receipt_json(v.transaction_receipt).len() as int
}

spec fn reply_o9(v: ResponseView) -> int {
    reply_o8(v) + 1
}

spec fn reply_o10(v: ResponseView) -> int {
    reply_o9(v) + quoted("MessageResults"@).len() as int
}

spec fn reply_o11(v: ResponseView) -> int {
    reply_o10(v) + 1
}

spec fn reply_end(v: ResponseView) -> int {
    reply_o11(v) + string_array(v.message_results).len() as int
}

/// A serialized reply envelope carries each of its pieces as the subrange
/// at that piece's offset.
#[verifier::rlimit(100)]
proof fn lemma_reply_pieces(v: ResponseView)
    ensures
        response_json(v).len() == reply_end(v) + 1,
        response_json(v).subrange(0, 1) == "{"@,
        response_json(v).subrange(1, reply_o2(v)) == quoted("ErrorCode"@),
        response_json(v).subrange(reply_o2(v), reply_o3(v)) == ":"@,
        response_json(v).subrange(reply_o3(v), reply_o4(v)) == quoted(v.error_code),
        response_json(v).subrange(reply_o4(v), reply_o5(v)) == ","@,
        response_json(v).subrange(reply_o5(v), reply_o6(v)) == quoted("TransactionReceipt"@),
        response_json(v).subrange(reply_o6(v), reply_o7(v)) == ":"@,
        response_json(v).subrange(reply_o7(v), reply_o8(v)) == receipt_json(
            v.transaction_receipt,
        ),
        response_json(v).subrange(reply_o8(v), reply_o9(v)) == ","@,
        response_json(v).subrange(reply_o9(v), reply_o10(v)) == quoted("MessageResults"@),
        response_json(v).subrange(reply_o10(v), reply_o11(v)) == ":"@,
        response_json(v).subrange(reply_o11(v), reply_end(v)) == string_array(v.message_results),
        response_json(v).subrange(reply_end(v), reply_end(v) + 1) == "}"@,
{
    let t0 = "{"@;
    let t1 = quoted("ErrorCode"@);
    let t2 = ":"@;
    let t3 = quoted(v.error_code);
    let t4 = ","@;
    let t5 = quoted("TransactionReceipt"@);
    let t7 = receipt_json(v.transaction_receipt);
    let t9 = quoted("MessageResults"@);
    let t11 = string_array(v.message_results);
    let t12 = "}"@;
    let s = response_json(v);
    reveal_strlit("{");
    reveal_strlit(":");
    reveal_strlit(",");
    reveal_strlit("}");
    let c1 = t0 + t1;
    let c2 = c1 + t2;
    let c3 = c2 + t3;
    let c4 = c3 + t4;
    let c5 = c4 + t5;
    let c6 = c5 + t2;
    let c7 = c6 + t7;
    let c8 = c7 + t4;
    let c9 = c8 + t9;
    let c10 = c9 + t2;
    let c11 = c10 + t11;
    let c12 = c11 + t12;
    assert(s == c12);
    assert(s.subrange(0, s.len() as int) =~= s);
    lemma_peel(s, 0, c11, t12);
    lemma_peel(s, 0, c10, t11);
    lemma_peel(s, 0, c9, t2);
    lemma_peel(s, 0, c8, t9);
    lemma_peel(s, 0, c7, t4);
    lemma_peel(s, 0, c6, t7);
    lemma_peel(s, 0, c5, t2);
    lemma_peel(s, 0, c4, t5);
    lemma_peel(s, 0, c3, t4);
    lemma_peel(s, 0, c2, t3);
    lemma_peel(s, 0, c1, t2);
    lemma_peel(s, 0, t0, t1);
    assert(c1.len() == reply_o2(v) && c2.len() == reply_o3(v) && c3.len() == reply_o4(v));
    assert(c4.len() == reply_o5(v) && c5.len() == reply_o6(v) && c6.len() == reply_o7(v));
    assert(c7.len() == reply_o8(v) && c8.len() == reply_o9(v) && c9.len() == reply_o10(v));
    assert(c10.len() == reply_o11(v) && c11.len() == reply_end(v));
}

/// Each token of a serialized reply envelope parses at its own offset.
#[verifier::rlimit(100)]
proof fn lemma_reply_tokens(v: ResponseView)
    ensures
        response_json(v).len() == reply_end(v) + 1,
        1 < reply_o2(v) < reply_o3(v) < reply_o4(v) < reply_o5(v) < reply_o6(v) < reply_o7(v)
            < reply_o8(v) < reply_o9(v) < reply_o10(v) < reply_o11(v) < reply_end(v),
        tok(response_json(v), 0, "{"@) == Some(1int),
        parse_string(response_json(v), 1) == Some(("ErrorCode"@, reply_o2(v))),
        tok(response_json(v), reply_o2(v), ":"@) == Some(reply_o3(v)),
        parse_string(response_json(v), reply_o3(v)) == Some((v.error_code, reply_o4(v))),
        skip_ws(response_json(v), reply_o4(v)) == reply_o4(v),
        response_json(v)[reply_o4(v)] == ',',
        parse_string(response_json(v), reply_o5(v)) == Some(
            ("TransactionReceipt"@, reply_o6(v)),
        ),
        tok(response_json(v), reply_o6(v), ":"@) == Some(reply_o7(v)),
        parse_receipt(response_json(v), reply_o7(v)) == Some(
            (v.transaction_receipt, reply_o8(v)),
        ),
        skip_ws(response_json(v), reply_o8(v)) == reply_o8(v),
        response_json(v)[reply_o8(v)] == ',',
        parse_string(response_json(v), reply_o9(v)) == Some(("MessageResults"@, reply_o10(v))),
        tok(response_json(v), reply_o10(v), ":"@) == Some(reply_o11(v)),
        parse_string_array(response_json(v), reply_o11(v)) == Some(
            (v.message_results, reply_end(v)),
        ),
        skip_ws(response_json(v), reply_end(v)) == reply_end(v),
        response_json(v)[reply_end(v)] == '}',
        skip_ws(response_json(v), reply_end(v) + 1) == reply_end(v) + 1,
        "TransactionReceipt"@ != "ErrorCode"@,
        "MessageResults"@ != "ErrorCode"@,
        "MessageResults"@ != "TransactionReceipt"@,
{
    let ec = v.error_code;
    let tr = v.transaction_receipt;
    let mr = v.message_results;
    let s = response_json(v);
    reveal_strlit("{");
    reveal_strlit("ErrorCode");
    reveal_strlit(":");
    reveal_strlit(",");
    reveal_strlit("TransactionReceipt");
    reveal_strlit("MessageResults");
    reveal_strlit("}");
    reveal_strlit("null");
    lemma_reply_pieces(v);
    assert(receipt_json(tr).len() >= 2);
    lemma_tok_lit(s, 0, "{"@);
    lemma_parse_string_exact(s, 1, "ErrorCode"@);
    lemma_tok_lit(s, reply_o2(v), ":"@);
    lemma_parse_string_exact(s, reply_o3(v), ec);
    assert(s[reply_o4(v)] == ',') by {
        assert(s.subrange(reply_o4(v), reply_o5(v))[0] == s[reply_o4(v)]);
    }
    lemma_skip_ws_at(s, reply_o4(v));
    lemma_parse_string_exact(s, reply_o5(v), "TransactionReceipt"@);
    lemma_tok_lit(s, reply_o6(v), ":"@);
    lemma_parse_receipt_exact(s, reply_o7(v), tr);
    assert(s[reply_o8(v)] == ',') by {
        assert(s.subrange(reply_o8(v), reply_o9(v))[0] == s[reply_o8(v)]);
    }
    lemma_skip_ws_at(s, reply_o8(v));
    lemma_parse_string_exact(s, reply_o9(v), "MessageResults"@);
    lemma_tok_lit(s, reply_o10(v), ":"@);
    lemma_parse_array_exact(s, reply_o11(v), mr);
    assert(s[reply_end(v)] == '}') by {
        assert(s.subrange(reply_end(v), reply_end(v) + 1)[0] == s[reply_end(v)]);
    }
    lemma_skip_ws_at(s, reply_end(v));
    lemma_skip_ws_at(s, reply_end(v) + 1);
}

/// Round trip: a serialized reply envelope parses back to exactly the reply
/// value it was built from.
#[verifier::rlimit(100)]
pub proof fn lemma_reply_round_trip(v: ResponseView)
    ensures
        parse_response(response_json(v)) == Some(v),
{
    let ec = v.error_code;
    let tr = v.transaction_receipt;
    let mr = v.message_results;
    let s = response_json(v);
    lemma_reply_tokens(v);
    let o4 = reply_o4(v);
    let o5 = reply_o5(v);
    let o8 = reply_o8(v);
    let o9 = reply_o9(v);
    let p3 = reply_end(v);
    let st0 = PartialReply { error_code: None, transaction_receipt: None, message_results: None };
    let st1 = PartialReply {
        error_code: Some(ec),
        transaction_receipt: None,
        message_results: None,
    };
    let st2 = PartialReply {
        error_code: Some(ec),
        transaction_receipt: Some(tr),
        message_results: None,
    };
    let st3 = PartialReply {
        error_code: Some(ec),
        transaction_receipt: Some(tr),
        message_results: Some(mr),
    };
    assert(parse_member_val(s, reply_o3(v), "ErrorCode"@, st0) == Some((st1, o4)));
    assert(parse_member_val(s, reply_o7(v), "TransactionReceipt"@, st1) == Some((st2, o8)));
    assert(parse_member_val(s, reply_o11(v), "MessageResults"@, st2) == Some((st3, p3)));
    assert(parse_members(s, o9, st2) == Some((st3, p3 + 1)));
    assert(parse_members(s, o5, st1) == Some((st3, p3 + 1)));
    assert(parse_members(s, 1, st0) == Some((st3, p3 + 1)));
    assert(parse_response(s) == Some(
        ResponseView { error_code: ec, transaction_receipt: tr, message_results: mr },
    ));
    assert(ResponseView { error_code: ec, transaction_receipt: tr, message_results: mr } == v);
}

} // verus!
