//! Parsing the Injection API's JSON reply into a `Response`.
//!
//! The spec functions define the reply grammar the way a JSON reader treats
//! an object with known fields: one object holding the members `ErrorCode`,
//! `TransactionReceipt` and `MessageResults` in any order, each exactly once,
//! with unknown members skipped over, whitespace allowed between tokens,
//! strings with the short escapes and `\uXXXX` (surrogate pairs included,
//! lone surrogates rejected), raw control characters rejected inside strings,
//! and nothing after the closing brace. The exec functions are verified to
//! return exactly what the grammar says.

use vstd::prelude::*;

use crate::response::Response;
use crate::response::ResponseView;
use crate::transport::char_of_u32;
use crate::transport::chars_vec;
use crate::transport::string_of;

verus! {

/// The whitespace JSON allows between tokens.
pub open spec fn is_ws(c: char) -> bool {
    c == ' ' || c == '\n' || c == '\r' || c == '\t'
}

/// A decimal digit.
pub open spec fn is_digit(c: char) -> bool {
    '0' <= c && c <= '9'
}

/// The first position at or after `i` holding no whitespace.
pub open spec fn skip_ws(s: Seq<char>, i: int) -> int
    decreases s.len() - i,
{
    if 0 <= i < s.len() && is_ws(s[i]) {
        skip_ws(s, i + 1)
    } else {
        i
    }
}

/// The position just past `t` when `s` carries `t` verbatim at `i`.
pub open spec fn expect(s: Seq<char>, i: int, t: Seq<char>) -> Option<int> {
    if 0 <= i && i + t.len() <= s.len() && s.subrange(i, i + t.len() as int) == t {
        Some(i + t.len() as int)
    } else {
        None
    }
}

/// The position just past `t` when `t` is the next token at `i`.
pub open spec fn tok(s: Seq<char>, i: int, t: Seq<char>) -> Option<int> {
    expect(s, skip_ws(s, i), t)
}

/// What a single-character backslash escape stands for.
pub open spec fn unescaped_char(c: char) -> Option<char> {
    if c == '"' {
        Some('"')
    } else if c == '\\' {
        Some('\\')
    } else if c == '/' {
        Some('/')
    } else if c == 'b' {
        Some('\u{8}')
    } else if c == 'f' {
        Some('\u{c}')
    } else if c == 'n' {
        Some('\n')
    } else if c == 'r' {
        Some('\r')
    } else if c == 't' {
        Some('\t')
    } else {
        None
    }
}

/// The value of one hexadecimal digit, either case.
pub open spec fn hex_val(c: char) -> Option<u32> {
    if c == '0' {
        Some(0u32)
    } else if c == '1' {
        Some(1u32)
    } else if c == '2' {
        Some(2u32)
    } else if c == '3' {
        Some(3u32)
    } else if c == '4' {
        Some(4u32)
    } else if c == '5' {
        Some(5u32)
    } else if c == '6' {
        Some(6u32)
    } else if c == '7' {
        Some(7u32)
    } else if c == '8' {
        Some(8u32)
    } else if c == '9' {
        Some(9u32)
    } else if c == 'a' || c == 'A' {
        Some(10u32)
    } else if c == 'b' || c == 'B' {
        Some(11u32)
    } else if c == 'c' || c == 'C' {
        Some(12u32)
    } else if c == 'd' || c == 'D' {
        Some(13u32)
    } else if c == 'e' || c == 'E' {
        Some(14u32)
    } else if c == 'f' || c == 'F' {
        Some(15u32)
    } else {
        None
    }
}

/// The value of four hexadecimal digits starting at `i`.
pub open spec fn hex4(s: Seq<char>, i: int) -> Option<u32> {
    if 0 <= i && i + 4 <= s.len() {
        match hex_val(s[i]) {
            Some(a) => match hex_val(s[i + 1]) {
                Some(b) => match hex_val(s[i + 2]) {
                    Some(c) => match hex_val(s[i + 3]) {
                        Some(d) => Some(((a * 4096 + b * 256 + c * 16 + d) as u32)),
                        None => None,
                    },
                    None => None,
                },
                None => None,
            },
            None => None,
        }
    } else {
        None
    }
}

/// The scalar a UTF-16 surrogate pair stands for.
pub open spec fn pair_char(hi: u32, lo: u32) -> char {
    ((0x10000 + (hi - 0xD800) * 0x400 + (lo - 0xDC00)) as char)
}

/// The characters of a string literal body starting at `i` (just past the
/// opening quote), and the position just past the closing quote. Raw control
/// characters are rejected; a `\u` escape carrying a leading surrogate must
/// be followed by a trailing one.
pub open spec fn parse_string_body(s: Seq<char>, i: int) -> Option<(Seq<char>, int)>
    decreases s.len() - i,
{
    if i < 0 || i >= s.len() {
        None
    } else if s[i] == '"' {
        Some((Seq::<char>::empty(), i + 1))
    } else if s[i] == '\\' {
        if i + 1 < s.len() {
            if s[i + 1] == 'u' {
                match hex4(s, i + 2) {
                    Some(n) => if 0xDC00 <= n && n < 0xE000 {
                        None
                    } else if 0xD800 <= n && n < 0xDC00 {
                        if i + 8 <= s.len() && s[i + 6] == '\\' && s[i + 7] == 'u' {
                            match hex4(s, i + 8) {
                                Some(n2) => if 0xDC00 <= n2 && n2 < 0xE000 {
                                    match parse_string_body(s, i + 12) {
                                        Some(r) => Some((seq![pair_char(n, n2)] + r.0, r.1)),
                                        None => None,
                                    }
                                } else {
                                    None
                                },
                                None => None,
                            }
                        } else {
                            None
                        }
                    } else {
                        match parse_string_body(s, i + 6) {
                            Some(r) => Some((seq![(n as char)] + r.0, r.1)),
                            None => None,
                        }
                    },
                    None => None,
                }
            } else {
                match unescaped_char(s[i + 1]) {
                    Some(c) => match parse_string_body(s, i + 2) {
                        Some(r) => Some((seq![c] + r.0, r.1)),
                        None => None,
                    },
                    None => None,
                }
            }
        } else {
            None
        }
    } else if (s[i] as u32) < 0x20 {
        None
    } else {
        match parse_string_body(s, i + 1) {
            Some(r) => Some((seq![s[i]] + r.0, r.1)),
            None => None,
        }
    }
}

/// A whole string literal as the next token at `i`.
pub open spec fn parse_string(s: Seq<char>, i: int) -> Option<(Seq<char>, int)> {
    let j = skip_ws(s, i);
    if 0 <= j && j < s.len() && s[j] == '"' {
        parse_string_body(s, j + 1)
    } else {
        None
    }
}

/// The transaction receipt as the next token: `null` or a string literal.
pub open spec fn parse_receipt(s: Seq<char>, i: int) -> Option<(Option<Seq<char>>, int)> {
    let j = skip_ws(s, i);
    if 0 <= j && j < s.len() && s[j] == 'n' {
        match expect(s, j, "null"@) {
            Some(k) => Some((Option::<Seq<char>>::None, k)),
            None => None,
        }
    } else {
        match parse_string(s, j) {
            Some(r) => Some((Some(r.0), r.1)),
            None => None,
        }
    }
}

/// The rest of a string array after its first element: either the closing
/// bracket, or a comma, another string, and the rest again.
pub open spec fn parse_more_strings(s: Seq<char>, i: int) -> Option<(Seq<Seq<char>>, int)>
    decreases s.len() - i,
{
    let j = skip_ws(s, i);
    if 0 <= j && j < s.len() && s[j] == ']' {
        Some((Seq::<Seq<char>>::empty(), j + 1))
    } else if 0 <= j && j < s.len() && s[j] == ',' {
        match parse_string(s, j + 1) {
            Some(r) => if i < r.1 && r.1 <= s.len() {
                match parse_more_strings(s, r.1) {
                    Some(rr) => Some((seq![r.0] + rr.0, rr.1)),
                    None => None,
                }
            } else {
                None
            },
            None => None,
        }
    } else {
        None
    }
}

/// A whole JSON array of string literals as the next token at `i`.
pub open spec fn parse_string_array(s: Seq<char>, i: int) -> Option<(Seq<Seq<char>>, int)> {
    match tok(s, i, "["@) {
        Some(j) => {
            let k = skip_ws(s, j);
            if 0 <= k && k < s.len() && s[k] == ']' {
                Some((Seq::<Seq<char>>::empty(), k + 1))
            } else {
                match parse_string(s, j) {
                    Some(r) => match parse_more_strings(s, r.1) {
                        Some(rr) => Some((seq![r.0] + rr.0, rr.1)),
                        None => None,
                    },
                    None => None,
                }
            }
        },
        None => None,
    }
}

/// The first position at or after `i` holding no decimal digit.
pub open spec fn digit_end(s: Seq<char>, i: int) -> int
    decreases s.len() - i,
{
    if 0 <= i < s.len() && is_digit(s[i]) {
        digit_end(s, i + 1)
    } else {
        i
    }
}

/// The position past a JSON integer part: `0` alone, or digits without a
/// leading zero.
pub open spec fn skip_int(s: Seq<char>, i: int) -> Option<int> {
    if 0 <= i && i < s.len() {
        if s[i] == '0' {
            Some(i + 1)
        } else if is_digit(s[i]) {
            Some(digit_end(s, i))
        } else {
            None
        }
    } else {
        None
    }
}

/// The position past an optional JSON fraction part.
pub open spec fn skip_frac(s: Seq<char>, i: int) -> Option<int> {
    if 0 <= i && i < s.len() && s[i] == '.' {
        if i + 1 < s.len() && is_digit(s[i + 1]) {
            Some(digit_end(s, i + 1))
        } else {
            None
        }
    } else {
        Some(i)
    }
}

/// The position past an optional JSON exponent part.
pub open spec fn skip_exp(s: Seq<char>, i: int) -> Option<int> {
    if 0 <= i && i < s.len() && (s[i] == 'e' || s[i] == 'E') {
        let j = if i + 1 < s.len() && (s[i + 1] == '+' || s[i + 1] == '-') {
            i + 2
        } else {
            i + 1
        };
        if j < s.len() && is_digit(s[j]) {
            Some(digit_end(s, j))
        } else {
            None
        }
    } else {
        Some(i)
    }
}

/// The position past a whole JSON number starting at `i`.
pub open spec fn skip_number(s: Seq<char>, i: int) -> Option<int> {
    let j0 = if 0 <= i && i < s.len() && s[i] == '-' {
        i + 1
    } else {
        i
    };
    match skip_int(s, j0) {
        Some(j1) => match skip_frac(s, j1) {
            Some(j2) => skip_exp(s, j2),
            None => None,
        },
        None => None,
    }
}

/// The position past any well-formed JSON value whose next token starts at
/// `i`: used to skip members of the reply that the library does not read.
pub open spec fn skip_value(s: Seq<char>, i: int) -> Option<int>
    decreases s.len() - i, 0int,
{
    let j = skip_ws(s, i);
    if 0 <= i && i <= j && j < s.len() {
        if s[j] == '"' {
            match parse_string_body(s, j + 1) {
                Some(r) => Some(r.1),
                None => None,
            }
        } else if s[j] == '{' {
            let k = skip_ws(s, j + 1);
            if 0 <= k && k < s.len() && s[k] == '}' {
                Some(k + 1)
            } else if i < j + 1 && j + 1 <= s.len() {
                skip_members_rest(s, j + 1)
            } else {
                None
            }
        } else if s[j] == '[' {
            let k = skip_ws(s, j + 1);
            if 0 <= k && k < s.len() && s[k] == ']' {
                Some(k + 1)
            } else if i < j + 1 && j + 1 <= s.len() {
                skip_array_rest(s, j + 1)
            } else {
                None
            }
        } else if s[j] == 't' {
            expect(s, j, "true"@)
        } else if s[j] == 'f' {
            expect(s, j, "false"@)
        } else if s[j] == 'n' {
            expect(s, j, "null"@)
        } else if s[j] == '-' || is_digit(s[j]) {
            skip_number(s, j)
        } else {
            None
        }
    } else {
        None
    }
}

/// The elements of an array being skipped, from the first element on.
pub open spec fn skip_array_rest(s: Seq<char>, i: int) -> Option<int>
    decreases s.len() - i, 1int,
{
    if 0 <= i && i <= s.len() {
        match skip_value(s, i) {
            Some(k) => if i <= k && k <= s.len() {
                let j = skip_ws(s, k);
                if 0 <= j && j < s.len() && s[j] == ',' {
                    if i < j + 1 {
                        skip_array_rest(s, j + 1)
                    } else {
                        None
                    }
                } else if 0 <= j && j < s.len() && s[j] == ']' {
                    Some(j + 1)
                } else {
                    None
                }
            } else {
                None
            },
            None => None,
        }
    } else {
        None
    }
}

/// The members of an object being skipped, from the first member on.
pub open spec fn skip_members_rest(s: Seq<char>, i: int) -> Option<int>
    decreases s.len() - i, 1int,
{
    if 0 <= i && i <= s.len() {
        match parse_string(s, i) {
            Some(kr) => if i < kr.1 && kr.1 <= s.len() {
                match tok(s, kr.1, ":"@) {
                    Some(j2) => if i < j2 && j2 <= s.len() {
                        match skip_value(s, j2) {
                            Some(k) => if i <= k && k <= s.len() {
                                let j = skip_ws(s, k);
                                if 0 <= j && j < s.len() && s[j] == ',' {
                                    if i < j + 1 {
                                        skip_members_rest(s, j + 1)
                                    } else {
                                        None
                                    }
                                } else if 0 <= j && j < s.len() && s[j] == '}' {
                                    Some(j + 1)
                                } else {
                                    None
                                }
                            } else {
                                None
                            },
                            None => None,
                        }
                    } else {
                        None
                    },
                    None => None,
                }
            } else {
                None
            },
            None => None,
        }
    } else {
        None
    }
}

/// What the reply members seen so far have said: each known member either
/// not met yet, or met once with its value.
pub struct PartialReply {
    pub error_code: Option<Seq<char>>,
    pub transaction_receipt: Option<Option<Seq<char>>>,
    pub message_results: Option<Seq<Seq<char>>>,
}

/// One member's value, dispatched on its decoded key: a known key reads its
/// typed value and records it (a second occurrence is an error, as a typed
/// JSON reader treats duplicate fields); an unknown key skips its value.
pub open spec fn parse_member_val(s: Seq<char>, i: int, key: Seq<char>, st: PartialReply) -> Option<
    (PartialReply, int),
> {
    if key == "ErrorCode"@ {
        if st.error_code is Some {
            None
        } else {
            match parse_string(s, i) {
                Some(r) => Some(
                    (
                        PartialReply {
                            error_code: Some(r.0),
                            transaction_receipt: st.transaction_receipt,
                            message_results: st.message_results,
                        },
                        r.1,
                    ),
                ),
                None => None,
            }
        }
    } else if key == "TransactionReceipt"@ {
        if st.transaction_receipt is Some {
            None
        } else {
            match parse_receipt(s, i) {
                Some(r) => Some(
                    (
                        PartialReply {
                            error_code: st.error_code,
                            transaction_receipt: Some(r.0),
                            message_results: st.message_results,
                        },
                        r.1,
                    ),
                ),
                None => None,
            }
        }
    } else if key == "MessageResults"@ {
        if st.message_results is Some {
            None
        } else {
            match parse_string_array(s, i) {
                Some(r) => Some(
                    (
                        PartialReply {
                            error_code: st.error_code,
                            transaction_receipt: st.transaction_receipt,
                            message_results: Some(r.0),
                        },
                        r.1,
                    ),
                ),
                None => None,
            }
        }
    } else {
        match skip_value(s, i) {
            Some(k) => Some((st, k)),
            None => None,
        }
    }
}

/// The members of the reply object from position `i` on, folded over the
/// state `st`, up to and including the closing brace.
pub open spec fn parse_members(s: Seq<char>, i: int, st: PartialReply) -> Option<
    (PartialReply, int),
>
    decreases s.len() - i,
{
    if 0 <= i && i <= s.len() {
        match parse_string(s, i) {
            Some(kr) => if i < kr.1 && kr.1 <= s.len() {
                match tok(s, kr.1, ":"@) {
                    Some(j2) => if kr.1 <= j2 && j2 <= s.len() {
                        match parse_member_val(s, j2, kr.0, st) {
                            Some(vr) => if j2 <= vr.1 && vr.1 <= s.len() {
                                let j = skip_ws(s, vr.1);
                                if 0 <= j && j < s.len() && s[j] == ',' {
                                    if i < j + 1 {
                                        parse_members(s, j + 1, vr.0)
                                    } else {
                                        None
                                    }
                                } else if 0 <= j && j < s.len() && s[j] == '}' {
                                    Some((vr.0, j + 1))
                                } else {
                                    None
                                }
                            } else {
                                None
                            },
                            None => None,
                        }
                    } else {
                        None
                    },
                    None => None,
                }
            } else {
                None
            },
            None => None,
        }
    } else {
        None
    }
}

/// The whole reply grammar: the value a reply body stands for, if it is a
/// well-formed reply envelope holding all three members and nothing more.
pub open spec fn parse_response(s: Seq<char>) -> Option<ResponseView> {
    match tok(s, 0, "{"@) {
        Some(i1) => if 0 <= i1 && i1 <= s.len() {
            let st0 = PartialReply {
                error_code: None,
                transaction_receipt: None,
                message_results: None,
            };
            match parse_members(s, i1, st0) {
                Some(r) => if skip_ws(s, r.1) == s.len() {
                    match r.0.error_code {
                        Some(ec) => match r.0.transaction_receipt {
                            Some(tr) => match r.0.message_results {
                                Some(mr) => Some(
                                    ResponseView {
                                        error_code: ec,
                                        transaction_receipt: tr,
                                        message_results: mr,
                                    },
                                ),
                                None => None,
                            },
                            None => None,
                        },
                        None => None,
                    }
                } else {
                    None
                },
                None => None,
            }
        } else {
            None
        },
        None => None,
    }
}

/// Skips whitespace, exactly as `skip_ws` says.
fn skip_ws_x(s: &Vec<char>, i: usize) -> (j: usize)
    requires
        i <= s@.len(),
    ensures
        j as int == skip_ws(s@, i as int),
        i <= j <= s@.len(),
    decreases s@.len() - i,
{
    if i < s.len() {
        let c = s[i];
        if c == ' ' || c == '\n' || c == '\r' || c == '\t' {
            return skip_ws_x(s, i + 1);
        }
    }
    i
}

/// Matches a verbatim token, exactly as `expect` says.
fn expect_x(s: &Vec<char>, i: usize, t: &Vec<char>) -> (r: Option<usize>)
    requires
        i <= s@.len(),
    ensures
        match r {
            Some(j) => expect(s@, i as int, t@) == Some(j as int) && i <= j <= s@.len(),
            None => expect(s@, i as int, t@) is None,
        },
{
    if t.len() > s.len() - i {
        return None;
    }
    let mut k: usize = 0;
    while k < t.len()
        invariant
            k <= t@.len(),
            i + t@.len() <= s@.len(),
            s@.len() <= usize::MAX,
            forall|m: int| 0 <= m < k ==> s@[i + m] == t@[m],
        decreases t@.len() - k,
    {
        if s[i + k] != t[k] {
            proof {
                assert(s@.subrange(i as int, i + t@.len()) != t@) by {
                    assert(s@.subrange(i as int, i + t@.len())[k as int] == s@[i + k]);
                }
            }
            return None;
        }
        k = k + 1;
    }
    proof {
        assert(s@.subrange(i as int, i + t@.len()) =~= t@);
    }
    Some(i + t.len())
}

/// Matches the next token, exactly as `tok` says.
fn tok_x(s: &Vec<char>, i: usize, t: &Vec<char>) -> (r: Option<usize>)
    requires
        i <= s@.len(),
    ensures
        match r {
            Some(j) => tok(s@, i as int, t@) == Some(j as int) && i <= j <= s@.len(),
            None => tok(s@, i as int, t@) is None,
        },
{
    let j = skip_ws_x(s, i);
    expect_x(s, j, t)
}

/// Whether two character vectors hold the same characters.
fn eq_chars(a: &Vec<char>, b: &Vec<char>) -> (r: bool)
    ensures
        r == (a@ == b@),
{
    if a.len() != b.len() {
        return false;
    }
    let mut k: usize = 0;
    while k < a.len()
        invariant
            k <= a@.len(),
            a@.len() == b@.len(),
            forall|m: int| 0 <= m < k ==> a@[m] == b@[m],
        decreases a@.len() - k,
    {
        if a[k] != b[k] {
            return false;
        }
        k = k + 1;
    }
    proof {
        assert(a@ =~= b@);
    }
    true
}

/// Reads one hexadecimal digit, exactly as `hex_val` says.
fn hex_val_x(c: char) -> (r: Option<u32>)
    ensures
        r == hex_val(c),
        r matches Some(v) ==> v <= 15,
{
    if c == '0' {
        Some(0)
    } else if c == '1' {
        Some(1)
    } else if c == '2' {
        Some(2)
    } else if c == '3' {
        Some(3)
    } else if c == '4' {
        Some(4)
    } else if c == '5' {
        Some(5)
    } else if c == '6' {
        Some(6)
    } else if c == '7' {
        Some(7)
    } else if c == '8' {
        Some(8)
    } else if c == '9' {
        Some(9)
    } else if c == 'a' || c == 'A' {
        Some(10)
    } else if c == 'b' || c == 'B' {
        Some(11)
    } else if c == 'c' || c == 'C' {
        Some(12)
    } else if c == 'd' || c == 'D' {
        Some(13)
    } else if c == 'e' || c == 'E' {
        Some(14)
    } else if c == 'f' || c == 'F' {
        Some(15)
    } else {
        None
    }
}

/// Reads four hexadecimal digits, exactly as `hex4` says.
fn hex4_x(s: &Vec<char>, i: usize) -> (r: Option<u32>)
    requires
        i <= s@.len(),
    ensures
        r == hex4(s@, i as int),
        r matches Some(v) ==> v <= 0xFFFF,
{
    if s.len() - i < 4 {
        return None;
    }
    let a = match hex_val_x(s[i]) {
        Some(v) => v,
        None => {
            return None;
        },
    };
    let b = match hex_val_x(s[i + 1]) {
        Some(v) => v,
        None => {
            return None;
        },
    };
    let c = match hex_val_x(s[i + 2]) {
        Some(v) => v,
        None => {
            return None;
        },
    };
    let d = match hex_val_x(s[i + 3]) {
        Some(v) => v,
        None => {
            return None;
        },
    };
    Some(a * 4096 + b * 256 + c * 16 + d)
}

/// Reads a string literal body, exactly as `parse_string_body` says.
fn parse_string_body_x(s: &Vec<char>, i: usize) -> (r: Option<(Vec<char>, usize)>)
    requires
        i <= s@.len(),
    ensures
        match r {
            Some(p) => parse_string_body(s@, i as int) == Some((p.0@, p.1 as int)) && i < p.1
                <= s@.len(),
            None => parse_string_body(s@, i as int) is None,
        },
    decreases s@.len() - i,
{
    if i >= s.len() {
        return None;
    }
    let c = s[i];
    if c == '"' {
        return Some((Vec::new(), i + 1));
    }
    if c == '\\' {
        if i + 1 < s.len() {
            let e = s[i + 1];
            if e == 'u' {
                let n = match hex4_x(s, i + 2) {
                    Some(v) => v,
                    None => {
                        return None;
                    },
                };
                if 0xDC00 <= n && n < 0xE000 {
                    return None;
                }
                if 0xD800 <= n && n < 0xDC00 {
                    if 8 <= s.len() - i && s[i + 6] == '\\' && s[i + 7] == 'u' {
                        let n2 = match hex4_x(s, i + 8) {
                            Some(v) => v,
                            None => {
                                return None;
                            },
                        };
                        if 0xDC00 <= n2 && n2 < 0xE000 {
                            let code: u32 = 0x10000 + (n - 0xD800) * 0x400 + (n2 - 0xDC00);
                            match char_of_u32(code) {
                                Some(u) => {
                                    match parse_string_body_x(s, i + 12) {
                                        Some((mut v, j)) => {
                                            let ghost v0: Seq<char> = v@;
                                            v.insert(0, u);
                                            proof {
                                                assert(v@ =~= seq![pair_char(n, n2)] + v0);
                                            }
                                            Some((v, j))
                                        },
                                        None => None,
                                    }
                                },
                                None => {
                                    proof {
                                        assert(false);
                                    }
                                    None
                                },
                            }
                        } else {
                            None
                        }
                    } else {
                        None
                    }
                } else {
                    match char_of_u32(n) {
                        Some(u) => {
                            match parse_string_body_x(s, i + 6) {
                                Some((mut v, j)) => {
                                    let ghost v0: Seq<char> = v@;
                                    v.insert(0, u);
                                    proof {
                                        assert(v@ =~= seq![(n as char)] + v0);
                                    }
                                    Some((v, j))
                                },
                                None => None,
                            }
                        },
                        None => {
                            proof {
                                assert(false);
                            }
                            None
                        },
                    }
                }
            } else {
                let u: char;
                if e == '"' {
                    u = '"';
                } else if e == '\\' {
                    u = '\\';
                } else if e == '/' {
                    u = '/';
                } else if e == 'b' {
                    u = '\u{8}';
                } else if e == 'f' {
                    u = '\u{c}';
                } else if e == 'n' {
                    u = '\n';
                } else if e == 'r' {
                    u = '\r';
                } else if e == 't' {
                    u = '\t';
                } else {
                    return None;
                }
                match parse_string_body_x(s, i + 2) {
                    Some((mut v, j)) => {
                        let ghost v0: Seq<char> = v@;
                        v.insert(0, u);
                        proof {
                            assert(v@ =~= seq![u] + v0);
                        }
                        Some((v, j))
                    },
                    None => None,
                }
            }
        } else {
            None
        }
    } else if (c as u32) < 0x20 {
        None
    } else {
        match parse_string_body_x(s, i + 1) {
            Some((mut v, j)) => {
                let ghost v0: Seq<char> = v@;
                v.insert(0, c);
                proof {
                    assert(v@ =~= seq![c] + v0);
                }
                Some((v, j))
            },
            None => None,
        }
    }
}

/// Reads a string literal token, exactly as `parse_string` says.
fn parse_string_x(s: &Vec<char>, i: usize) -> (r: Option<(Vec<char>, usize)>)
    requires
        i <= s@.len(),
    ensures
        match r {
            Some(p) => parse_string(s@, i as int) == Some((p.0@, p.1 as int)) && i < p.1
                <= s@.len(),
            None => parse_string(s@, i as int) is None,
        },
{
    let j = skip_ws_x(s, i);
    if j < s.len() {
        let c = s[j];
        if c == '"' {
            return parse_string_body_x(s, j + 1);
        }
    }
    None
}

/// Reads the receipt token, exactly as `parse_receipt` says.
fn parse_receipt_x(s: &Vec<char>, i: usize) -> (r: Option<(Option<String>, usize)>)
    requires
        i <= s@.len(),
    ensures
        match r {
            Some(p) => parse_receipt(s@, i as int) == Some(
                (
                    match p.0 {
                        Some(t) => Some(t@),
                        None => None,
                    },
                    p.1 as int,
                ),
            ) && i <= p.1 <= s@.len(),
            None => parse_receipt(s@, i as int) is None,
        },
{
    let j = skip_ws_x(s, i);
    if j < s.len() && s[j] == 'n' {
        let null_lit = chars_vec("null");
        match expect_x(s, j, &null_lit) {
            Some(k) => Some((None, k)),
            None => None,
        }
    } else {
        match parse_string_x(s, j) {
            Some((v, k)) => Some((Some(string_of(v)), k)),
            None => None,
        }
    }
}

/// Reads the rest of a string array, exactly as `parse_more_strings` says.
fn parse_more_strings_x(s: &Vec<char>, i: usize) -> (r: Option<(Vec<String>, usize)>)
    requires
        i <= s@.len(),
    ensures
        match r {
            Some(p) => parse_more_strings(s@, i as int) == Some(
                (p.0@.map_values(|t: String| t@), p.1 as int),
            ) && i <= p.1 <= s@.len(),
            None => parse_more_strings(s@, i as int) is None,
        },
    decreases s@.len() - i,
{
    let j = skip_ws_x(s, i);
    if j < s.len() && s[j] == ']' {
        let out: Vec<String> = Vec::new();
        proof {
            assert(out@.map_values(|t: String| t@) =~= Seq::<Seq<char>>::empty());
        }
        return Some((out, j + 1));
    }
    if j < s.len() && s[j] == ',' {
        match parse_string_x(s, j + 1) {
            Some((v, k)) => {
                match parse_more_strings_x(s, k) {
                    Some((mut rest, e)) => {
                        let head = string_of(v);
                        let ghost rest0: Seq<String> = rest@;
                        rest.insert(0, head);
                        proof {
                            assert(rest@.map_values(|t: String| t@) =~= seq![v@] + rest0.map_values(
                                |t: String| t@,
                            ));
                        }
                        Some((rest, e))
                    },
                    None => None,
                }
            },
            None => None,
        }
    } else {
        None
    }
}

/// Reads a whole string array token, exactly as `parse_string_array` says.
fn parse_string_array_x(s: &Vec<char>, i: usize) -> (r: Option<(Vec<String>, usize)>)
    requires
        i <= s@.len(),
    ensures
        match r {
            Some(p) => parse_string_array(s@, i as int) == Some(
                (p.0@.map_values(|t: String| t@), p.1 as int),
            ) && i <= p.1 <= s@.len(),
            None => parse_string_array(s@, i as int) is None,
        },
{
    let lbracket = chars_vec("[");
    match tok_x(s, i, &lbracket) {
        Some(j) => {
            let k = skip_ws_x(s, j);
            if k < s.len() && s[k] == ']' {
                let out: Vec<String> = Vec::new();
                proof {
                    assert(out@.map_values(|t: String| t@) =~= Seq::<Seq<char>>::empty());
                }
                return Some((out, k + 1));
            }
            match parse_string_x(s, j) {
                Some((v, k2)) => {
                    match parse_more_strings_x(s, k2) {
                        Some((mut rest, e)) => {
                            let head = string_of(v);
                            let ghost rest0: Seq<String> = rest@;
                            rest.insert(0, head);
                            proof {
                                assert(rest@.map_values(|t: String| t@) =~= seq![v@]
                                    + rest0.map_values(|t: String| t@));
                            }
                            Some((rest, e))
                        },
                        None => None,
                    }
                },
                None => None,
            }
        },
        None => None,
    }
}

/// Scans past digits, exactly as `digit_end` says.
fn digit_end_x(s: &Vec<char>, i: usize) -> (j: usize)
    requires
        i <= s@.len(),
    ensures
        j as int == digit_end(s@, i as int),
        i <= j <= s@.len(),
    decreases s@.len() - i,
{
    if i < s.len() {
        let c = s[i];
        if '0' <= c && c <= '9' {
            return digit_end_x(s, i + 1);
        }
    }
    i
}

/// Scans past a JSON number, exactly as `skip_number` says.
fn skip_number_x(s: &Vec<char>, i: usize) -> (r: Option<usize>)
    requires
        i <= s@.len(),
    ensures
        match r {
            Some(k) => skip_number(s@, i as int) == Some(k as int) && i <= k <= s@.len(),
            None => skip_number(s@, i as int) is None,
        },
{
    let j0 = if i < s.len() && s[i] == '-' {
        i + 1
    } else {
        i
    };
    let j1: usize;
    if j0 < s.len() && s[j0] == '0' {
        j1 = j0 + 1;
    } else if j0 < s.len() && '0' <= s[j0] && s[j0] <= '9' {
        j1 = digit_end_x(s, j0);
    } else {
        return None;
    }
    let j2: usize;
    if j1 < s.len() && s[j1] == '.' {
        if j1 + 1 < s.len() && '0' <= s[j1 + 1] && s[j1 + 1] <= '9' {
            j2 = digit_end_x(s, j1 + 1);
        } else {
            return None;
        }
    } else {
        j2 = j1;
    }
    if j2 < s.len() && (s[j2] == 'e' || s[j2] == 'E') {
        let j3 = if j2 + 1 < s.len() && (s[j2 + 1] == '+' || s[j2 + 1] == '-') {
            j2 + 2
        } else {
            j2 + 1
        };
        if j3 < s.len() && '0' <= s[j3] && s[j3] <= '9' {
            Some(digit_end_x(s, j3))
        } else {
            None
        }
    } else {
        Some(j2)
    }
}

/// Skips one JSON value, exactly as `skip_value` says.
fn skip_value_x(s: &Vec<char>, i: usize) -> (r: Option<usize>)
    requires
        i <= s@.len(),
    ensures
        match r {
            Some(k) => skip_value(s@, i as int) == Some(k as int) && i <= k <= s@.len(),
            None => skip_value(s@, i as int) is None,
        },
    decreases s@.len() - i, 0int,
{
    let j = skip_ws_x(s, i);
    if j >= s.len() {
        return None;
    }
    let c = s[j];
    if c == '"' {
        match parse_string_body_x(s, j + 1) {
            Some((v, k)) => Some(k),
            None => None,
        }
    } else if c == '{' {
        let k = skip_ws_x(s, j + 1);
        if k < s.len() && s[k] == '}' {
            Some(k + 1)
        } else {
            skip_members_rest_x(s, j + 1)
        }
    } else if c == '[' {
        let k = skip_ws_x(s, j + 1);
        if k < s.len() && s[k] == ']' {
            Some(k + 1)
        } else {
            skip_array_rest_x(s, j + 1)
        }
    } else if c == 't' {
        expect_x(s, j, &chars_vec("true"))
    } else if c == 'f' {
        expect_x(s, j, &chars_vec("false"))
    } else if c == 'n' {
        expect_x(s, j, &chars_vec("null"))
    } else if c == '-' || ('0' <= c && c <= '9') {
        skip_number_x(s, j)
    } else {
        None
    }
}

/// Skips array elements, exactly as `skip_array_rest` says.
fn skip_array_rest_x(s: &Vec<char>, i: usize) -> (r: Option<usize>)
    requires
        i <= s@.len(),
    ensures
        match r {
            Some(k) => skip_array_rest(s@, i as int) == Some(k as int) && i <= k <= s@.len(),
            None => skip_array_rest(s@, i as int) is None,
        },
    decreases s@.len() - i, 1int,
{
    match skip_value_x(s, i) {
        Some(k) => {
            let j = skip_ws_x(s, k);
            if j < s.len() && s[j] == ',' {
                skip_array_rest_x(s, j + 1)
            } else if j < s.len() && s[j] == ']' {
                Some(j + 1)
            } else {
                None
            }
        },
        None => None,
    }
}

/// Skips object members, exactly as `skip_members_rest` says.
fn skip_members_rest_x(s: &Vec<char>, i: usize) -> (r: Option<usize>)
    requires
        i <= s@.len(),
    ensures
        match r {
            Some(k) => skip_members_rest(s@, i as int) == Some(k as int) && i <= k <= s@.len(),
            None => skip_members_rest(s@, i as int) is None,
        },
    decreases s@.len() - i, 1int,
{
    match parse_string_x(s, i) {
        Some((key, k1)) => {
            match tok_x(s, k1, &chars_vec(":")) {
                Some(j2) => {
                    match skip_value_x(s, j2) {
                        Some(k) => {
                            let j = skip_ws_x(s, k);
                            if j < s.len() && s[j] == ',' {
                                skip_members_rest_x(s, j + 1)
                            } else if j < s.len() && s[j] == '}' {
                                Some(j + 1)
                            } else {
                                None
                            }
                        },
                        None => None,
                    }
                },
                None => None,
            }
        },
        None => None,
    }
}

/// The spec value of the exec member state.
pub open spec fn st_view(
    ec: Option<String>,
    tr: Option<Option<String>>,
    mr: Option<Vec<String>>,
) -> PartialReply {
    PartialReply {
        error_code: match ec {
            Some(t) => Some(t@),
            None => None,
        },
        transaction_receipt: match tr {
            Some(o) => Some(
                match o {
                    Some(t) => Some(t@),
                    None => None,
                },
            ),
            None => None,
        },
        message_results: match mr {
            Some(v) => Some(v@.map_values(|t: String| t@)),
            None => None,
        },
    }
}

/// Reads one member's value, exactly as `parse_member_val` says.
fn parse_member_val_x(
    s: &Vec<char>,
    i: usize,
    key: &Vec<char>,
    ec: Option<String>,
    tr: Option<Option<String>>,
    mr: Option<Vec<String>>,
) -> (r: Option<(Option<String>, Option<Option<String>>, Option<Vec<String>>, usize)>)
    requires
        i <= s@.len(),
    ensures
        match r {
            Some(p) => parse_member_val(s@, i as int, key@, st_view(ec, tr, mr)) == Some(
                (st_view(p.0, p.1, p.2), p.3 as int),
            ) && i <= p.3 <= s@.len(),
            None => parse_member_val(s@, i as int, key@, st_view(ec, tr, mr)) is None,
        },
{
    let key_ec = chars_vec("ErrorCode");
    let key_tr = chars_vec("TransactionReceipt");
    let key_mr = chars_vec("MessageResults");
    if eq_chars(key, &key_ec) {
        if ec.is_some() {
            return None;
        }
        match parse_string_x(s, i) {
            Some((v, k)) => Some((Some(string_of(v)), tr, mr, k)),
            None => None,
        }
    } else if eq_chars(key, &key_tr) {
        if tr.is_some() {
            return None;
        }
        match parse_receipt_x(s, i) {
            Some((o, k)) => Some((ec, Some(o), mr, k)),
            None => None,
        }
    } else if eq_chars(key, &key_mr) {
        if mr.is_some() {
            return None;
        }
        match parse_string_array_x(s, i) {
            Some((v, k)) => Some((ec, tr, Some(v), k)),
            None => None,
        }
    } else {
        match skip_value_x(s, i) {
            Some(k) => Some((ec, tr, mr, k)),
            None => None,
        }
    }
}

/// Reads the reply members, exactly as `parse_members` says.
fn parse_members_x(
    s: &Vec<char>,
    i: usize,
    ec: Option<String>,
    tr: Option<Option<String>>,
    mr: Option<Vec<String>>,
) -> (r: Option<(Option<String>, Option<Option<String>>, Option<Vec<String>>, usize)>)
    requires
        i <= s@.len(),
    ensures
        match r {
            Some(p) => parse_members(s@, i as int, st_view(ec, tr, mr)) == Some(
                (st_view(p.0, p.1, p.2), p.3 as int),
            ) && i <= p.3 <= s@.len(),
            None => parse_members(s@, i as int, st_view(ec, tr, mr)) is None,
        },
    decreases s@.len() - i,
{
    let (key, k1) = match parse_string_x(s, i) {
        Some(p) => p,
        None => {
            return None;
        },
    };
    let j2 = match tok_x(s, k1, &chars_vec(":")) {
        Some(x) => x,
        None => {
            return None;
        },
    };
    let (ec2, tr2, mr2, j3) = match parse_member_val_x(s, j2, &key, ec, tr, mr) {
        Some(p) => p,
        None => {
            return None;
        },
    };
    let j4 = skip_ws_x(s, j3);
    if j4 < s.len() {
        let c = s[j4];
        if c == ',' {
            return parse_members_x(s, j4 + 1, ec2, tr2, mr2);
        }
        if c == '}' {
            return Some((ec2, tr2, mr2, j4 + 1));
        }
    }
    None
}

/// Parses a whole reply body, exactly as `parse_response` says.
pub fn parse_response_chars(s: &Vec<char>) -> (r: Option<Response>)
    ensures
        match r {
            Some(resp) => parse_response(s@) == Some(resp@),
            None => parse_response(s@) is None,
        },
{
    let i1 = match tok_x(s, 0, &chars_vec("{")) {
        Some(j) => j,
        None => {
            return None;
        },
    };
    let (ec, tr, mr, end) = match parse_members_x(s, i1, None, None, None) {
        Some(p) => p,
        None => {
            return None;
        },
    };
    let e = skip_ws_x(s, end);
    if e != s.len() {
        return None;
    }
    let ec_s = match ec {
        Some(t) => t,
        None => {
            return None;
        },
    };
    let tr_o = match tr {
        Some(o) => o,
        None => {
            return None;
        },
    };
    let mr_v = match mr {
        Some(v) => v,
        None => {
            return None;
        },
    };
    Some(Response { error_code: ec_s, transaction_receipt: tr_o, message_results: mr_v })
}

/// Parses a whole reply body given as text.
pub fn parse_response_text(text: &str) -> (r: Option<Response>)
    ensures
        match r {
            Some(resp) => parse_response(text@) == Some(resp@),
            None => parse_response(text@) is None,
        },
{
    let cs = chars_vec(text);
    parse_response_chars(&cs)
}

} // verus!
