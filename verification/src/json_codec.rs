//! The persisted file format: one JSON array per year, each element an object
//! with the two string fields `tanggal` and `keterangan`. The encoder and the
//! parser are both verified, and parsing an encoded list gives the list back.

use vstd::prelude::*;
use vstd::arithmetic::div_mod::lemma_fundamental_div_mod;
use crate::date_utils::{digit_char, digit_val};
use crate::holiday::{HolidayRaw, HolidayRawView};
use crate::text::{chars_eq_str, chars_to_string, str_chars};
use vstd::string::StrSliceExecFns;

verus! {

// ---------------------------------------------------------------------------
// Encoding
// ---------------------------------------------------------------------------
/// The whitespace JSON allows between tokens.
pub open spec fn is_json_ws(c: char) -> bool {
    c == ' ' || c == '\n' || c == '\t' || c == '\r'
}

/// A control character, which JSON strings must escape.
pub open spec fn is_control(c: char) -> bool {
    (c as u32) < 32
}

/// The lowercase hexadecimal digit for `d` in 0..=15.
pub open spec fn hex_char(d: int) -> char {
    if d <= 9 {
        digit_char(d)
    } else if d == 10 {
        'a'
    } else if d == 11 {
        'b'
    } else if d == 12 {
        'c'
    } else if d == 13 {
        'd'
    } else if d == 14 {
        'e'
    } else {
        'f'
    }
}

/// The value of a hexadecimal digit character, upper or lower case, or -1.
pub open spec fn hex_val(c: char) -> int {
    if c == 'a' || c == 'A' {
        10
    } else if c == 'b' || c == 'B' {
        11
    } else if c == 'c' || c == 'C' {
        12
    } else if c == 'd' || c == 'D' {
        13
    } else if c == 'e' || c == 'E' {
        14
    } else if c == 'f' || c == 'F' {
        15
    } else {
        digit_val(c)
    }
}

/// How one character is written inside a JSON string: the short escapes for
/// the quote, the backslash and the common control characters, a `\u00XX`
/// escape for the remaining control characters, and the character itself
/// otherwise.
pub open spec fn escape_char(c: char) -> Seq<char> {
    if c == '"' {
        seq!['\\', '"']
    } else if c == '\\' {
        seq!['\\', '\\']
    } else if c == '\n' {
        seq!['\\', 'n']
    } else if c == '\r' {
        seq!['\\', 'r']
    } else if c == '\t' {
        seq!['\\', 't']
    } else if c == '\u{8}' {
        seq!['\\', 'b']
    } else if c == '\u{c}' {
        seq!['\\', 'f']
    } else if is_control(c) {
        seq!['\\', 'u', '0', '0', hex_char(((c as u32) / 16) as int), hex_char(
            ((c as u32) % 16) as int,
        )]
    } else {
        seq![c]
    }
}

/// The body of a JSON string: each character escaped as needed.
pub open spec fn escape_string(s: Seq<char>) -> Seq<char>
    decreases s.len(),
{
    if s.len() == 0 {
        seq![]
    } else {
        escape_char(s[0]) + escape_string(s.drop_first())
    }
}

/// A complete JSON string token.
pub open spec fn quote_string(s: Seq<char>) -> Seq<char> {
    seq!['"'] + escape_string(s) + seq!['"']
}

/// One encoded record: the two fields in their fixed order, no whitespace.
pub open spec fn encode_record(r: HolidayRawView) -> Seq<char> {
    seq!['{'] + quote_string("tanggal"@) + seq![':'] + quote_string(r.tanggal) + seq![',']
        + quote_string("keterangan"@) + seq![':'] + quote_string(r.keterangan) + seq!['}']
}

/// The encoded records after the first: each preceded by a comma.
pub open spec fn encode_tail(rs: Seq<HolidayRawView>) -> Seq<char>
    decreases rs.len(),
{
    if rs.len() == 0 {
        seq![]
    } else {
        seq![','] + encode_record(rs[0]) + encode_tail(rs.drop_first())
    }
}

/// The inside of the encoded array.
pub open spec fn encode_body(rs: Seq<HolidayRawView>) -> Seq<char> {
    if rs.len() == 0 {
        seq![]
    } else {
        encode_record(rs[0]) + encode_tail(rs.drop_first())
    }
}

/// A full encoded file: the records as one JSON array.
pub open spec fn encode_records(rs: Seq<HolidayRawView>) -> Seq<char> {
    seq!['['] + encode_body(rs) + seq![']']
}

proof fn lemma_escape_push(s: Seq<char>, c: char)
    ensures
        escape_string(s.push(c)) == escape_string(s) + escape_char(c),
    decreases s.len(),
{
    if s.len() == 0 {
        assert(s.push(c).drop_first() =~= seq![]);
        assert(escape_char(c) + escape_string(seq![]) =~= escape_string(s) + escape_char(c));
    } else {
        assert(s.push(c).drop_first() =~= s.drop_first().push(c));
        lemma_escape_push(s.drop_first(), c);
        assert(escape_char(s[0]) + (escape_string(s.drop_first()) + escape_char(c)) =~= (escape_char(
            s[0],
        ) + escape_string(s.drop_first())) + escape_char(c));
    }
}

proof fn lemma_encode_tail_push(rs: Seq<HolidayRawView>, r: HolidayRawView)
    ensures
        encode_tail(rs.push(r)) == encode_tail(rs) + seq![','] + encode_record(r),
    decreases rs.len(),
{
    if rs.len() == 0 {
        assert(rs.push(r).drop_first() =~= seq![]);
        assert(seq![','] + encode_record(r) + encode_tail(seq![]) =~= encode_tail(rs) + seq![',']
            + encode_record(r));
    } else {
        assert(rs.push(r).drop_first() =~= rs.drop_first().push(r));
        lemma_encode_tail_push(rs.drop_first(), r);
        assert(seq![','] + encode_record(rs[0]) + (encode_tail(rs.drop_first()) + seq![',']
            + encode_record(r)) =~= (seq![','] + encode_record(rs[0]) + encode_tail(
            rs.drop_first(),
        )) + seq![','] + encode_record(r));
    }
}

proof fn lemma_encode_body_push(rs: Seq<HolidayRawView>, r: HolidayRawView)
    ensures
        rs.len() == 0 ==> encode_body(rs.push(r)) == encode_record(r),
        rs.len() > 0 ==> encode_body(rs.push(r)) == encode_body(rs) + seq![','] + encode_record(r),
{
    if rs.len() == 0 {
        assert(rs.push(r)[0] == r);
        assert(rs.push(r).drop_first() =~= seq![]);
        assert(encode_record(r) + encode_tail(seq![]) =~= encode_record(r));
    } else {
        assert(rs.push(r)[0] == rs[0]);
        assert(rs.push(r).drop_first() =~= rs.drop_first().push(r));
        lemma_encode_tail_push(rs.drop_first(), r);
        assert(encode_record(rs[0]) + (encode_tail(rs.drop_first()) + seq![','] + encode_record(r))
            =~= (encode_record(rs[0]) + encode_tail(rs.drop_first())) + seq![','] + encode_record(
            r,
        ));
    }
}

fn hex_char_exec(d: u32) -> (r: char)
    requires
        d <= 15,
    ensures
        r == hex_char(d as int),
{
    match d {
        0 => '0',
        1 => '1',
        2 => '2',
        3 => '3',
        4 => '4',
        5 => '5',
        6 => '6',
        7 => '7',
        8 => '8',
        9 => '9',
        10 => 'a',
        11 => 'b',
        12 => 'c',
        13 => 'd',
        14 => 'e',
        _ => 'f',
    }
}

fn push_escaped_char(out: &mut Vec<char>, c: char)
    ensures
        final(out)@ == old(out)@ + escape_char(c),
{
    if c == '"' {
        out.push('\\');
        out.push('"');
    } else if c == '\\' {
        out.push('\\');
        out.push('\\');
    } else if c == '\n' {
        out.push('\\');
        out.push('n');
    } else if c == '\r' {
        out.push('\\');
        out.push('r');
    } else if c == '\t' {
        out.push('\\');
        out.push('t');
    } else if c == '\u{8}' {
        out.push('\\');
        out.push('b');
    } else if c == '\u{c}' {
        out.push('\\');
        out.push('f');
    } else if (c as u32) < 32 {
        let n = c as u32;
        out.push('\\');
        out.push('u');
        out.push('0');
        out.push('0');
        out.push(hex_char_exec(n / 16));
        out.push(hex_char_exec(n % 16));
    } else {
        out.push(c);
    }
    proof {
        assert(out@ =~= old(out)@ + escape_char(c));
    }
}

fn push_quoted(out: &mut Vec<char>, s: &str)
    ensures
        final(out)@ == old(out)@ + quote_string(s@),
{
    out.push('"');
    let n = s.unicode_len();
    let mut i: usize = 0;
    while i < n
        invariant
            i <= n,
            n == s@.len(),
            out@ == old(out)@ + seq!['"'] + escape_string(s@.take(i as int)),
        decreases n - i,
    {
        let c = s.get_char(i);
        push_escaped_char(out, c);
        proof {
            lemma_escape_push(s@.take(i as int), s@[i as int]);
            assert(s@.take(i as int).push(s@[i as int]) =~= s@.take(i as int + 1));
            assert((old(out)@ + seq!['"'] + escape_string(s@.take(i as int))) + escape_char(
                s@[i as int],
            ) =~= old(out)@ + seq!['"'] + escape_string(s@.take(i as int + 1)));
        }
        i = i + 1;
    }
    out.push('"');
    proof {
        assert(s@.take(n as int) =~= s@);
        assert(out@ =~= old(out)@ + quote_string(s@));
    }
}

fn push_record_chars(out: &mut Vec<char>, r: &HolidayRaw)
    ensures
        final(out)@ == old(out)@ + encode_record(r@),
{
    out.push('{');
    push_quoted(out, "tanggal");
    out.push(':');
    push_quoted(out, r.tanggal.as_str());
    out.push(',');
    push_quoted(out, "keterangan");
    out.push(':');
    push_quoted(out, r.keterangan.as_str());
    out.push('}');
    proof {
        assert(out@ =~= old(out)@ + encode_record(r@));
    }
}

/// Encodes records as the persisted JSON array.
pub fn encode_holiday_records(records: &Vec<HolidayRaw>) -> (r: String)
    ensures
        r@ == encode_records(records.deep_view()),
{
    let ghost dv = records.deep_view();
    let mut out: Vec<char> = Vec::new();
    out.push('[');
    let n = records.len();
    let mut i: usize = 0;
    while i < n
        invariant
            i <= n,
            n == records@.len(),
            dv == records.deep_view(),
            dv.len() == n,
            out@ == seq!['['] + encode_body(dv.take(i as int)),
        decreases n - i,
    {
        if i > 0 {
            out.push(',');
        }
        push_record_chars(&mut out, &records[i]);
        proof {
            assert(dv[i as int] == records@[i as int]@);
            lemma_encode_body_push(dv.take(i as int), dv[i as int]);
            assert(dv.take(i as int).push(dv[i as int]) =~= dv.take(i as int + 1));
            assert(out@ =~= seq!['['] + encode_body(dv.take(i as int + 1)));
        }
        i = i + 1;
    }
    out.push(']');
    proof {
        assert(dv.take(n as int) =~= dv);
        assert(out@ =~= encode_records(dv));
    }
    chars_to_string(&out)
}

// ---------------------------------------------------------------------------
// Parsing (specification)
// ---------------------------------------------------------------------------
/// `s` without its leading JSON whitespace.
pub open spec fn skip_ws_front(s: Seq<char>) -> Seq<char>
    decreases s.len(),
{
    if s.len() > 0 && is_json_ws(s[0]) {
        skip_ws_front(s.drop_first())
    } else {
        s
    }
}

/// The character a short escape stands for.
pub open spec fn unescape_char(e: char) -> Option<char> {
    if e == '"' {
        Some('"')
    } else if e == '\\' {
        Some('\\')
    } else if e == '/' {
        Some('/')
    } else if e == 'n' {
        Some('\n')
    } else if e == 'r' {
        Some('\r')
    } else if e == 't' {
        Some('\t')
    } else if e == 'b' {
        Some('\u{8}')
    } else if e == 'f' {
        Some('\u{c}')
    } else {
        None
    }
}

/// Parses the body of a JSON string after its opening quote: the decoded
/// text and the remainder after the closing quote. `\uXXXX` escapes are
/// accepted for the control characters, the only ones the format writes.
pub open spec fn parse_string_body(s: Seq<char>) -> Option<(Seq<char>, Seq<char>)>
    decreases s.len(),
{
    if s.len() == 0 {
        None
    } else if s[0] == '"' {
        Some((seq![], s.drop_first()))
    } else if s[0] == '\\' {
        if s.len() >= 2 {
            if s[1] == 'u' {
                if s.len() >= 6 && s[2] == '0' && s[3] == '0' && hex_val(s[4]) >= 0 && hex_val(
                    s[5],
                ) >= 0 && hex_val(s[4]) * 16 + hex_val(s[5]) < 32 {
                    match parse_string_body(s.skip(6)) {
                        Some((t, rest)) => Some(
                            (seq![(((hex_val(s[4]) * 16 + hex_val(s[5])) as u32) as char)] + t,
                            rest),
                        ),
                        None => None,
                    }
                } else {
                    None
                }
            } else {
                match unescape_char(s[1]) {
                    Some(c) => match parse_string_body(s.skip(2)) {
                        Some((t, rest)) => Some((seq![c] + t, rest)),
                        None => None,
                    },
                    None => None,
                }
            }
        } else {
            None
        }
    } else if is_control(s[0]) {
        None
    } else {
        match parse_string_body(s.drop_first()) {
            Some((t, rest)) => Some((seq![s[0]] + t, rest)),
            None => None,
        }
    }
}

/// Parses a complete JSON string token.
pub open spec fn parse_string(s: Seq<char>) -> Option<(Seq<char>, Seq<char>)> {
    if s.len() > 0 && s[0] == '"' {
        parse_string_body(s.drop_first())
    } else {
        None
    }
}

/// Skips whitespace, then demands the single character `c`.
pub open spec fn expect_char(s: Seq<char>, c: char) -> Option<Seq<char>> {
    let t = skip_ws_front(s);
    if t.len() > 0 && t[0] == c {
        Some(t.drop_first())
    } else {
        None
    }
}

/// Parses `"key" : "value"`, demanding exactly the given key.
pub open spec fn parse_member(s: Seq<char>, key: Seq<char>) -> Option<(Seq<char>, Seq<char>)> {
    match parse_string(skip_ws_front(s)) {
        Some((k, s1)) => if k == key {
            match expect_char(s1, ':') {
                Some(s2) => parse_string(skip_ws_front(s2)),
                None => None,
            }
        } else {
            None
        },
        None => None,
    }
}

/// Parses one record object with its two fields in order.
pub open spec fn parse_record(s: Seq<char>) -> Option<(HolidayRawView, Seq<char>)> {
    match expect_char(s, '{') {
        Some(s1) => match parse_member(s1, "tanggal"@) {
            Some((t, s2)) => match expect_char(s2, ',') {
                Some(s3) => match parse_member(s3, "keterangan"@) {
                    Some((k, s4)) => match expect_char(s4, '}') {
                        Some(s5) => Some((HolidayRawView { tanggal: t, keterangan: k }, s5)),
                        None => None,
                    },
                    None => None,
                },
                None => None,
            },
            None => None,
        },
        None => None,
    }
}

pub proof fn lemma_skip_ws_len(s: Seq<char>)
    ensures
        skip_ws_front(s).len() <= s.len(),
    decreases s.len(),
{
    if s.len() > 0 && is_json_ws(s[0]) {
        lemma_skip_ws_len(s.drop_first());
    }
}

pub proof fn lemma_parse_string_body_len(s: Seq<char>)
    ensures
        parse_string_body(s) matches Some((t, rest)) ==> rest.len() < s.len(),
    decreases s.len(),
{
    if s.len() == 0 {
    } else if s[0] == '"' {
    } else if s[0] == '\\' {
        if s.len() >= 6 && s[1] == 'u' {
            lemma_parse_string_body_len(s.skip(6));
        } else if s.len() >= 2 && s[1] != 'u' {
            lemma_parse_string_body_len(s.skip(2));
        }
    } else {
        lemma_parse_string_body_len(s.drop_first());
    }
}

pub proof fn lemma_parse_record_len(s: Seq<char>)
    ensures
        parse_record(s) matches Some((r, rest)) ==> rest.len() < s.len(),
{
    lemma_skip_ws_len(s);
    match expect_char(s, '{') {
        Some(s1) => {
            lemma_parse_member_len(s1, "tanggal"@);
            match parse_member(s1, "tanggal"@) {
                Some((t, s2)) => {
                    lemma_skip_ws_len(s2);
                    match expect_char(s2, ',') {
                        Some(s3) => {
                            lemma_parse_member_len(s3, "keterangan"@);
                            match parse_member(s3, "keterangan"@) {
                                Some((k, s4)) => {
                                    lemma_skip_ws_len(s4);
                                },
                                None => {},
                            }
                        },
                        None => {},
                    }
                },
                None => {},
            }
        },
        None => {},
    }
}

pub proof fn lemma_parse_member_len(s: Seq<char>, key: Seq<char>)
    ensures
        parse_member(s, key) matches Some((v, rest)) ==> rest.len() < s.len(),
{
    lemma_skip_ws_len(s);
    let t0 = skip_ws_front(s);
    if t0.len() > 0 && t0[0] == '"' {
        lemma_parse_string_body_len(t0.drop_first());
        match parse_string(t0) {
            Some((k, s1)) => {
                lemma_skip_ws_len(s1);
                match expect_char(s1, ':') {
                    Some(s2) => {
                        lemma_skip_ws_len(s2);
                        let t2 = skip_ws_front(s2);
                        if t2.len() > 0 && t2[0] == '"' {
                            lemma_parse_string_body_len(t2.drop_first());
                        }
                    },
                    None => {},
                }
            },
            None => {},
        }
    }
}

/// Parses the rest of the array after a record: either the closing bracket or
/// a comma and another record, repeated.
pub open spec fn parse_records_rest(s: Seq<char>) -> Option<(Seq<HolidayRawView>, Seq<char>)>
    decreases s.len(),
    via parse_records_rest_decreases
{
    let t = skip_ws_front(s);
    if t.len() > 0 && t[0] == ']' {
        Some((seq![], t.drop_first()))
    } else if t.len() > 0 && t[0] == ',' {
        match parse_record(t.drop_first()) {
            Some((r, s1)) => match parse_records_rest(s1) {
                Some((rest, s2)) => Some((seq![r] + rest, s2)),
                None => None,
            },
            None => None,
        }
    } else {
        None
    }
}

#[via_fn]
proof fn parse_records_rest_decreases(s: Seq<char>) {
    lemma_skip_ws_len(s);
    let t = skip_ws_front(s);
    if t.len() > 0 && t[0] == ',' {
        lemma_parse_record_len(t.drop_first());
    }
}

/// Parses a whole file: one JSON array of records, then only whitespace.
pub open spec fn parse_top(s: Seq<char>) -> Option<Seq<HolidayRawView>> {
    match expect_char(s, '[') {
        Some(s1) => {
            let t = skip_ws_front(s1);
            if t.len() > 0 && t[0] == ']' {
                if skip_ws_front(t.drop_first()).len() == 0 {
                    Some(seq![])
                } else {
                    None
                }
            } else {
                match parse_record(s1) {
                    Some((r, s2)) => match parse_records_rest(s2) {
                        Some((rest, s3)) => if skip_ws_front(s3).len() == 0 {
                            Some(seq![r] + rest)
                        } else {
                            None
                        },
                        None => None,
                    },
                    None => None,
                }
            }
        },
        None => None,
    }
}

// ---------------------------------------------------------------------------
// Round trip: parsing an encoded list gives the list back
// ---------------------------------------------------------------------------
proof fn lemma_hex_val_char(d: int)
    requires
        0 <= d <= 15,
    ensures
        hex_val(hex_char(d)) == d,
{
}

#[verifier::rlimit(60)]
proof fn lemma_parse_body_round(x: Seq<char>, w: Seq<char>)
    ensures
        parse_string_body(escape_string(x) + seq!['"'] + w) == Some((x, w)),
    decreases x.len(),
{
    let s = escape_string(x) + seq!['"'] + w;
    if x.len() == 0 {
        assert(escape_string(x) =~= seq![]);
        assert(s =~= seq!['"'] + w);
        assert(s[0] == '"');
        assert(s.drop_first() =~= w);
        assert(x =~= Seq::<char>::empty());
    } else {
        let c = x[0];
        let x1 = x.drop_first();
        let ec = escape_char(c);
        let s1 = escape_string(x1) + seq!['"'] + w;
        assert(escape_string(x) == ec + escape_string(x1));
        assert(s =~= ec + s1);
        lemma_parse_body_round(x1, w);
        if c == '"' || c == '\\' || c == '\n' || c == '\r' || c == '\t' || c == '\u{8}' || c
            == '\u{c}' {
            assert(ec.len() == 2 && ec[0] == '\\');
            assert(s[0] == '\\');
            assert(s[1] == ec[1]);
            assert(s[1] != 'u');
            assert(unescape_char(ec[1]) == Some(c));
            assert(s.skip(2) =~= s1);
            assert(parse_string_body(s) == Some((seq![c] + x1, w)));
        } else if is_control(c) {
            let cu = c as u32;
            let hi = cu / 16;
            let lo = cu % 16;
            assert(cu < 32);
            assert(hi <= 1 && lo <= 15) by {
                lemma_fundamental_div_mod(cu as int, 16);
            }
            assert(ec == seq!['\\', 'u', '0', '0', hex_char(hi as int), hex_char(lo as int)]);
            assert(s.len() >= 6);
            assert(s[0] == '\\' && s[1] == 'u' && s[2] == '0' && s[3] == '0');
            assert(s[4] == hex_char(hi as int) && s[5] == hex_char(lo as int));
            lemma_hex_val_char(hi as int);
            lemma_hex_val_char(lo as int);
            assert(hex_val(s[4]) * 16 + hex_val(s[5]) == cu as int) by {
                lemma_fundamental_div_mod(cu as int, 16);
            }
            assert(((hex_val(s[4]) * 16 + hex_val(s[5])) as u32) == cu);
            assert((cu as char) == c) by {
                vstd::utf8::char_u32_cast(c, cu);
            }
            assert(s.skip(6) =~= s1);
            assert(parse_string_body(s) == Some((seq![c] + x1, w)));
        } else {
            assert(ec == seq![c]);
            assert(s[0] == c);
            assert(c != '"' && c != '\\' && !is_control(c));
            assert(s.drop_first() =~= s1);
            assert(parse_string_body(s) == Some((seq![c] + x1, w)));
        }
        assert(seq![c] + x1 =~= x);
    }
}

proof fn lemma_parse_quoted_round(x: Seq<char>, w: Seq<char>)
    ensures
        parse_string(quote_string(x) + w) == Some((x, w)),
{
    let s = quote_string(x) + w;
    assert(s[0] == '"');
    assert(s.drop_first() =~= escape_string(x) + seq!['"'] + w);
    lemma_parse_body_round(x, w);
}

proof fn lemma_parse_member_round(key: Seq<char>, val: Seq<char>, w: Seq<char>)
    ensures
        parse_member(quote_string(key) + seq![':'] + quote_string(val) + w, key) == Some((val, w)),
{
    let s = quote_string(key) + seq![':'] + quote_string(val) + w;
    assert(s[0] == '"');
    assert(!is_json_ws('"'));
    assert(skip_ws_front(s) == s);
    let w1 = seq![':'] + quote_string(val) + w;
    assert(s =~= quote_string(key) + w1);
    lemma_parse_quoted_round(key, w1);
    assert(w1[0] == ':');
    assert(!is_json_ws(':'));
    assert(skip_ws_front(w1) == w1);
    let w2 = quote_string(val) + w;
    assert(w1.drop_first() =~= w2);
    assert(w2[0] == '"');
    assert(skip_ws_front(w2) == w2);
    lemma_parse_quoted_round(val, w);
}

proof fn lemma_parse_record_round(r: HolidayRawView, w: Seq<char>)
    ensures
        parse_record(encode_record(r) + w) == Some((r, w)),
{
    let s = encode_record(r) + w;
    assert(s[0] == '{');
    assert(!is_json_ws('{'));
    assert(skip_ws_front(s) == s);
    let w1 = seq![','] + quote_string("keterangan"@) + seq![':'] + quote_string(r.keterangan)
        + seq!['}'] + w;
    let s1 = quote_string("tanggal"@) + seq![':'] + quote_string(r.tanggal) + w1;
    assert(s.drop_first() =~= s1);
    lemma_parse_member_round("tanggal"@, r.tanggal, w1);
    assert(w1[0] == ',');
    assert(!is_json_ws(','));
    assert(skip_ws_front(w1) == w1);
    let w2 = seq!['}'] + w;
    let s3 = quote_string("keterangan"@) + seq![':'] + quote_string(r.keterangan) + w2;
    assert(w1.drop_first() =~= s3);
    lemma_parse_member_round("keterangan"@, r.keterangan, w2);
    assert(w2[0] == '}');
    assert(!is_json_ws('}'));
    assert(skip_ws_front(w2) == w2);
    assert(w2.drop_first() =~= w);
    assert(parse_record(s) == Some(
        (HolidayRawView { tanggal: r.tanggal, keterangan: r.keterangan }, w),
    ));
}

proof fn lemma_parse_tail_round(rs: Seq<HolidayRawView>, w: Seq<char>)
    ensures
        parse_records_rest(encode_tail(rs) + seq![']'] + w) == Some((rs, w)),
    decreases rs.len(),
{
    let s = encode_tail(rs) + seq![']'] + w;
    if rs.len() == 0 {
        assert(encode_tail(rs) =~= seq![]);
        assert(s =~= seq![']'] + w);
        assert(s[0] == ']');
        assert(!is_json_ws(']'));
        assert(skip_ws_front(s) == s);
        assert(s.drop_first() =~= w);
        assert(rs =~= Seq::<HolidayRawView>::empty());
    } else {
        assert(encode_tail(rs) == seq![','] + encode_record(rs[0]) + encode_tail(rs.drop_first()));
        assert(s[0] == ',');
        assert(!is_json_ws(','));
        assert(skip_ws_front(s) == s);
        let w1 = encode_tail(rs.drop_first()) + seq![']'] + w;
        let s1 = encode_record(rs[0]) + w1;
        assert(s.drop_first() =~= s1);
        lemma_parse_record_round(rs[0], w1);
        lemma_parse_tail_round(rs.drop_first(), w);
        assert(seq![rs[0]] + rs.drop_first() =~= rs);
    }
}

/// Parsing an encoded list of records gives exactly that list back.
pub proof fn lemma_encode_parse_roundtrip(rs: Seq<HolidayRawView>)
    ensures
        parse_top(encode_records(rs)) == Some(rs),
{
    let s = encode_records(rs);
    assert(s[0] == '[');
    assert(!is_json_ws('['));
    assert(skip_ws_front(s) == s);
    let s1 = encode_body(rs) + seq![']'];
    assert(s.drop_first() =~= s1);
    if rs.len() == 0 {
        assert(encode_body(rs) =~= seq![]);
        assert(s1 =~= seq![']']);
        assert(s1[0] == ']');
        assert(!is_json_ws(']'));
        assert(skip_ws_front(s1) == s1);
        assert(s1.drop_first() =~= Seq::<char>::empty());
        assert(skip_ws_front(Seq::<char>::empty()).len() == 0);
        assert(rs =~= Seq::<HolidayRawView>::empty());
    } else {
        assert(s1[0] == '{');
        assert(!is_json_ws('{'));
        assert(skip_ws_front(s1) == s1);
        let w1 = encode_tail(rs.drop_first()) + seq![']'];
        assert(s1 =~= encode_record(rs[0]) + w1);
        lemma_parse_record_round(rs[0], w1);
        assert(w1 =~= encode_tail(rs.drop_first()) + seq![']'] + Seq::<char>::empty());
        lemma_parse_tail_round(rs.drop_first(), Seq::<char>::empty());
        assert(skip_ws_front(Seq::<char>::empty()).len() == 0);
        assert(seq![rs[0]] + rs.drop_first() =~= rs);
    }
}

// ---------------------------------------------------------------------------
// Parsing (executable)
// ---------------------------------------------------------------------------
fn is_json_ws_exec(c: char) -> (r: bool)
    ensures
        r == is_json_ws(c),
{
    c == ' ' || c == '\n' || c == '\t' || c == '\r'
}

fn skip_ws_exec(v: &Vec<char>, i: usize) -> (r: usize)
    requires
        i <= v@.len(),
    ensures
        i <= r <= v@.len(),
        skip_ws_front(v@.skip(i as int)) == v@.skip(r as int),
{
    let n = v.len();
    let mut j = i;
    while j < n && is_json_ws_exec(v[j])
        invariant
            i <= j <= n,
            n == v@.len(),
            skip_ws_front(v@.skip(i as int)) == skip_ws_front(v@.skip(j as int)),
        decreases n - j,
    {
        proof {
            assert(v@.skip(j as int)[0] == v@[j as int]);
            assert(v@.skip(j as int).drop_first() =~= v@.skip(j as int + 1));
        }
        j = j + 1;
    }
    proof {
        if j < n {
            assert(v@.skip(j as int)[0] == v@[j as int]);
        }
        assert(skip_ws_front(v@.skip(j as int)) == v@.skip(j as int));
    }
    j
}

fn hex_val_exec(c: char) -> (r: i32)
    ensures
        r == hex_val(c),
{
    match c {
        '0' => 0,
        '1' => 1,
        '2' => 2,
        '3' => 3,
        '4' => 4,
        '5' => 5,
        '6' => 6,
        '7' => 7,
        '8' => 8,
        '9' => 9,
        'a' | 'A' => 10,
        'b' | 'B' => 11,
        'c' | 'C' => 12,
        'd' | 'D' => 13,
        'e' | 'E' => 14,
        'f' | 'F' => 15,
        _ => -1,
    }
}

fn unescape_char_exec(e: char) -> (r: Option<char>)
    ensures
        r == unescape_char(e),
{
    match e {
        '"' => Some('"'),
        '\\' => Some('\\'),
        '/' => Some('/'),
        'n' => Some('\n'),
        'r' => Some('\r'),
        't' => Some('\t'),
        'b' => Some('\u{8}'),
        'f' => Some('\u{c}'),
        _ => None,
    }
}

fn control_char_exec(n: u32) -> (r: char)
    requires
        n < 32,
    ensures
        r == (n as char),
{
    match n {
        0 => '\u{0}',
        1 => '\u{1}',
        2 => '\u{2}',
        3 => '\u{3}',
        4 => '\u{4}',
        5 => '\u{5}',
        6 => '\u{6}',
        7 => '\u{7}',
        8 => '\u{8}',
        9 => '\u{9}',
        10 => '\u{a}',
        11 => '\u{b}',
        12 => '\u{c}',
        13 => '\u{d}',
        14 => '\u{e}',
        15 => '\u{f}',
        16 => '\u{10}',
        17 => '\u{11}',
        18 => '\u{12}',
        19 => '\u{13}',
        20 => '\u{14}',
        21 => '\u{15}',
        22 => '\u{16}',
        23 => '\u{17}',
        24 => '\u{18}',
        25 => '\u{19}',
        26 => '\u{1a}',
        27 => '\u{1b}',
        28 => '\u{1c}',
        29 => '\u{1d}',
        30 => '\u{1e}',
        _ => '\u{1f}',
    }
}

fn parse_string_body_exec(v: &Vec<char>, i: usize) -> (r: Option<(Vec<char>, usize)>)
    requires
        i <= v@.len(),
    ensures
        match r {
            Some(p) => i <= p.1 <= v@.len() && parse_string_body(v@.skip(i as int)) == Some(
                (p.0@, v@.skip(p.1 as int)),
            ),
            None => parse_string_body(v@.skip(i as int)) is None,
        },
    decreases v@.len() - i,
{
    let n = v.len();
    let ghost s = v@.skip(i as int);
    proof {
        assert(s.len() == n - i);
    }
    if i == n {
        return None;
    }
    let c0 = v[i];
    proof {
        assert(s[0] == v@[i as int]);
    }
    if c0 == '"' {
        proof {
            assert(s.drop_first() =~= v@.skip(i as int + 1));
        }
        let t: Vec<char> = Vec::new();
        return Some((t, i + 1));
    }
    if c0 == '\\' {
        if n - i < 2 {
            return None;
        }
        let c1 = v[i + 1];
        proof {
            assert(s[1] == v@[i as int + 1]);
        }
        if c1 == 'u' {
            if n - i < 6 {
                return None;
            }
            proof {
                assert(s[2] == v@[i as int + 2]);
                assert(s[3] == v@[i as int + 3]);
                assert(s[4] == v@[i as int + 4]);
                assert(s[5] == v@[i as int + 5]);
            }
            let h2 = v[i + 2];
            let h3 = v[i + 3];
            let hv4 = hex_val_exec(v[i + 4]);
            let hv5 = hex_val_exec(v[i + 5]);
            if !(h2 == '0' && h3 == '0' && hv4 >= 0 && hv5 >= 0 && hv4 * 16 + hv5 < 32) {
                return None;
            }
            let code = (hv4 * 16 + hv5) as u32;
            let c = control_char_exec(code);
            proof {
                assert(s.skip(6) =~= v@.skip(i as int + 6));
            }
            match parse_string_body_exec(v, i + 6) {
                Some(p) => {
                    let (t, k) = p;
                    let mut t2 = t;
                    t2.insert(0, c);
                    proof {
                        assert(t2@ =~= seq![c] + p.0@);
                    }
                    Some((t2, k))
                },
                None => None,
            }
        } else {
            match unescape_char_exec(c1) {
                Some(c) => {
                    proof {
                        assert(s.skip(2) =~= v@.skip(i as int + 2));
                    }
                    match parse_string_body_exec(v, i + 2) {
                        Some(p) => {
                            let (t, k) = p;
                            let mut t2 = t;
                            t2.insert(0, c);
                            proof {
                                assert(t2@ =~= seq![c] + p.0@);
                            }
                            Some((t2, k))
                        },
                        None => None,
                    }
                },
                None => None,
            }
        }
    } else if (c0 as u32) < 32 {
        None
    } else {
        proof {
            assert(s.drop_first() =~= v@.skip(i as int + 1));
        }
        match parse_string_body_exec(v, i + 1) {
            Some(p) => {
                let (t, k) = p;
                let mut t2 = t;
                t2.insert(0, c0);
                proof {
                    assert(t2@ =~= seq![c0] + p.0@);
                }
                Some((t2, k))
            },
            None => None,
        }
    }
}

fn parse_string_exec(v: &Vec<char>, i: usize) -> (r: Option<(Vec<char>, usize)>)
    requires
        i <= v@.len(),
    ensures
        match r {
            Some(p) => i <= p.1 <= v@.len() && parse_string(v@.skip(i as int)) == Some(
                (p.0@, v@.skip(p.1 as int)),
            ),
            None => parse_string(v@.skip(i as int)) is None,
        },
{
    let n = v.len();
    if i < n {
        let c = v[i];
        proof {
            assert(v@.skip(i as int)[0] == v@[i as int]);
        }
        if c == '"' {
            proof {
                assert(v@.skip(i as int).drop_first() =~= v@.skip(i as int + 1));
            }
            parse_string_body_exec(v, i + 1)
        } else {
            None
        }
    } else {
        None
    }
}

fn expect_char_exec(v: &Vec<char>, i: usize, c: char) -> (r: Option<usize>)
    requires
        i <= v@.len(),
    ensures
        match r {
            Some(k) => i < k <= v@.len() && expect_char(v@.skip(i as int), c) == Some(
                v@.skip(k as int),
            ),
            None => expect_char(v@.skip(i as int), c) is None,
        },
{
    let j = skip_ws_exec(v, i);
    if j < v.len() {
        let cj = v[j];
        proof {
            assert(v@.skip(j as int)[0] == v@[j as int]);
        }
        if cj == c {
            proof {
                assert(v@.skip(j as int).drop_first() =~= v@.skip(j as int + 1));
            }
            Some(j + 1)
        } else {
            None
        }
    } else {
        None
    }
}


fn parse_member_exec(v: &Vec<char>, i: usize, key: &str) -> (r: Option<(Vec<char>, usize)>)
    requires
        i <= v@.len(),
    ensures
        match r {
            Some(p) => i <= p.1 <= v@.len() && parse_member(v@.skip(i as int), key@) == Some(
                (p.0@, v@.skip(p.1 as int)),
            ),
            None => parse_member(v@.skip(i as int), key@) is None,
        },
{
    let j = skip_ws_exec(v, i);
    match parse_string_exec(v, j) {
        Some(p) => {
            let (k1, q) = p;
            if chars_eq_str(&k1, key) {
                match expect_char_exec(v, q, ':') {
                    Some(q2) => {
                        let j2 = skip_ws_exec(v, q2);
                        parse_string_exec(v, j2)
                    },
                    None => None,
                }
            } else {
                None
            }
        },
        None => None,
    }
}

fn parse_record_exec(v: &Vec<char>, i: usize) -> (r: Option<(HolidayRaw, usize)>)
    requires
        i <= v@.len(),
    ensures
        match r {
            Some(p) => i < p.1 <= v@.len() && parse_record(v@.skip(i as int)) == Some(
                (p.0@, v@.skip(p.1 as int)),
            ),
            None => parse_record(v@.skip(i as int)) is None,
        },
{
    match expect_char_exec(v, i, '{') {
        Some(p1) => match parse_member_exec(v, p1, "tanggal") {
            Some(m1) => {
                let (t, p2) = m1;
                match expect_char_exec(v, p2, ',') {
                    Some(p3) => match parse_member_exec(v, p3, "keterangan") {
                        Some(m2) => {
                            let (k, p4) = m2;
                            match expect_char_exec(v, p4, '}') {
                                Some(p5) => {
                                    let rec = HolidayRaw {
                                        tanggal: chars_to_string(&t),
                                        keterangan: chars_to_string(&k),
                                    };
                                    Some((rec, p5))
                                },
                                None => None,
                            }
                        },
                        None => None,
                    },
                    None => None,
                }
            },
            None => None,
        },
        None => None,
    }
}

fn parse_records_rest_exec(v: &Vec<char>, i: usize) -> (r: Option<(Vec<HolidayRaw>, usize)>)
    requires
        i <= v@.len(),
    ensures
        match r {
            Some(p) => i <= p.1 <= v@.len() && parse_records_rest(v@.skip(i as int)) == Some(
                (p.0.deep_view(), v@.skip(p.1 as int)),
            ),
            None => parse_records_rest(v@.skip(i as int)) is None,
        },
    decreases v@.len() - i,
{
    let n = v.len();
    let j = skip_ws_exec(v, i);
    if j == n {
        return None;
    }
    let c = v[j];
    proof {
        assert(v@.skip(j as int)[0] == v@[j as int]);
    }
    if c == ']' {
        let rs: Vec<HolidayRaw> = Vec::new();
        proof {
            assert(v@.skip(j as int).drop_first() =~= v@.skip(j as int + 1));
            assert(rs.deep_view() =~= Seq::<HolidayRawView>::empty());
        }
        return Some((rs, j + 1));
    }
    if c != ',' {
        return None;
    }
    proof {
        assert(v@.skip(j as int).drop_first() =~= v@.skip(j as int + 1));
    }
    match parse_record_exec(v, j + 1) {
        Some(p) => {
            let (rec, q) = p;
            match parse_records_rest_exec(v, q) {
                Some(p2) => {
                    let (rest, e) = p2;
                    let ghost old_dv = rest.deep_view();
                    let mut rest2 = rest;
                    rest2.insert(0, rec);
                    proof {
                        assert forall|x: int| 0 <= x < rest2@.len() implies rest2.deep_view()[x]
                            == (seq![p.0@] + old_dv)[x] by {
                            assert(rest2@[x] == if x == 0 {
                                p.0
                            } else {
                                p2.0@[x - 1]
                            });
                        }
                        assert(rest2.deep_view() =~= seq![p.0@] + old_dv);
                    }
                    Some((rest2, e))
                },
                None => None,
            }
        },
        None => None,
    }
}

/// Parses a persisted file into its records, if it is well-formed.
pub fn parse_holiday_records(s: &str) -> (r: Option<Vec<HolidayRaw>>)
    ensures
        match r {
            Some(rs) => parse_top(s@) == Some(rs.deep_view()),
            None => parse_top(s@) is None,
        },
{
    let v = str_chars(s);
    proof {
        assert(v@.skip(0) =~= s@);
    }
    match expect_char_exec(&v, 0, '[') {
        None => None,
        Some(p) => {
            let n = v.len();
            let j = skip_ws_exec(&v, p);
            if j < n {
                proof {
                    assert(v@.skip(j as int)[0] == v@[j as int]);
                }
            }
            if j < n && v[j] == ']' {
                proof {
                    assert(v@.skip(j as int).drop_first() =~= v@.skip(j as int + 1));
                }
                let e = skip_ws_exec(&v, j + 1);
                if e == n {
                    let rs: Vec<HolidayRaw> = Vec::new();
                    proof {
                        assert(rs.deep_view() =~= Seq::<HolidayRawView>::empty());
                    }
                    Some(rs)
                } else {
                    proof {
                        assert(v@.skip(e as int).len() > 0);
                    }
                    None
                }
            } else {
                match parse_record_exec(&v, p) {
                    None => None,
                    Some(pr) => {
                        let (rec, q) = pr;
                        match parse_records_rest_exec(&v, q) {
                            None => None,
                            Some(p2) => {
                                let (rest, e2) = p2;
                                let f = skip_ws_exec(&v, e2);
                                if f == n {
                                    let ghost old_dv = rest.deep_view();
                                    let mut rest2 = rest;
                                    rest2.insert(0, rec);
                                    proof {
                                        assert forall|x: int|
                                            0 <= x < rest2@.len() implies rest2.deep_view()[x] == (
                                        seq![pr.0@] + old_dv)[x] by {
                                            assert(rest2@[x] == if x == 0 {
                                                pr.0
                                            } else {
                                                p2.0@[x - 1]
                                            });
                                        }
                                        assert(rest2.deep_view() =~= seq![pr.0@] + old_dv);
                                    }
                                    Some(rest2)
                                } else {
                                    proof {
                                        assert(v@.skip(f as int).len() > 0);
                                    }
                                    None
                                }
                            },
                        }
                    },
                }
            }
        },
    }
}

} // verus!
