//! The wire format of the service: JSON documents, written and read
//! by this module's own verified writer and reader.
//!
//! A document is a [`Json`] value; its mathematical counterpart is
//! [`JsonV`].  `spec_write_value` gives the exact character sequence
//! the writer produces, and `spec_parse_value` gives the exact outcome
//! of the reader on any input, so that every function here is pinned
//! to one behaviour.  Numbers are integers: the service's payloads
//! carry nothing else, and a fraction or an exponent makes the
//! document unreadable here.

use vstd::prelude::*;

use crate::text::push_char;
use vstd::string::StrSliceExecFns;

verus! {

/// A JSON document as held in memory.
#[derive(Debug)]
pub enum Json {
    Null,
    Bool(bool),
    Int(i64),
    Text(String),
    Arr(Vec<Json>),
    Obj(Vec<(String, Json)>),
}

/// Mathematical view of a [`Json`] document.
#[verifier::ext_equal]
pub enum JsonV {
    Null,
    Bool(bool),
    Int(int),
    Text(Seq<char>),
    Arr(Seq<JsonV>),
    Obj(Seq<(Seq<char>, JsonV)>),
}

/// The view of a document: the same tree over sequences and
/// unbounded integers.
pub open spec fn json_view(j: Json) -> JsonV
    decreases j,
{
    match j {
        Json::Null => JsonV::Null,
        Json::Bool(b) => JsonV::Bool(b),
        Json::Int(n) => JsonV::Int(n as int),
        Json::Text(s) => JsonV::Text(s@),
        Json::Arr(items) => JsonV::Arr(json_view_list(items@)),
        Json::Obj(fields) => JsonV::Obj(json_view_fields(fields@)),
    }
}

/// The views of a list of documents, in order.
pub open spec fn json_view_list(l: Seq<Json>) -> Seq<JsonV>
    decreases l,
{
    if l.len() == 0 {
        Seq::empty()
    } else {
        seq![json_view(l[0])] + json_view_list(l.drop_first())
    }
}

/// The views of an object's fields, in order.
pub open spec fn json_view_fields(l: Seq<(String, Json)>) -> Seq<(Seq<char>, JsonV)>
    decreases l,
{
    if l.len() == 0 {
        Seq::empty()
    } else {
        seq![(l[0].0@, json_view(l[0].1))] + json_view_fields(l.drop_first())
    }
}

impl View for Json {
    type V = JsonV;

    open spec fn view(&self) -> JsonV {
        json_view(*self)
    }
}

impl DeepView for Json {
    type V = JsonV;

    open spec fn deep_view(&self) -> JsonV {
        json_view(*self)
    }
}

/// Indexing a list view picks the view of the indexed element.
pub proof fn lemma_json_view_list_index(l: Seq<Json>, i: int)
    requires
        0 <= i < l.len(),
    ensures
        json_view_list(l).len() == l.len(),
        json_view_list(l)[i] == json_view(l[i]),
    decreases l,
{
    if l.len() > 0 {
        if i > 0 {
            lemma_json_view_list_index(l.drop_first(), i - 1);
        } else {
            lemma_json_view_list_len(l.drop_first());
        }
    }
}

/// A list view is as long as the list.
pub proof fn lemma_json_view_list_len(l: Seq<Json>)
    ensures
        json_view_list(l).len() == l.len(),
    decreases l,
{
    if l.len() > 0 {
        lemma_json_view_list_len(l.drop_first());
    }
}

/// Indexing a field-list view picks the view of the indexed field.
pub proof fn lemma_json_view_fields_index(l: Seq<(String, Json)>, i: int)
    requires
        0 <= i < l.len(),
    ensures
        json_view_fields(l).len() == l.len(),
        json_view_fields(l)[i] == (l[i].0@, json_view(l[i].1)),
    decreases l,
{
    if l.len() > 0 {
        if i > 0 {
            lemma_json_view_fields_index(l.drop_first(), i - 1);
        } else {
            lemma_json_view_fields_len(l.drop_first());
        }
    }
}

/// A field-list view is as long as the field list.
pub proof fn lemma_json_view_fields_len(l: Seq<(String, Json)>)
    ensures
        json_view_fields(l).len() == l.len(),
    decreases l,
{
    if l.len() > 0 {
        lemma_json_view_fields_len(l.drop_first());
    }
}

// ---------------------------------------------------------------
// Characters
// ---------------------------------------------------------------

/// The whitespace JSON allows between tokens.
pub open spec fn is_ws(c: char) -> bool {
    c == ' ' || c == '\n' || c == '\r' || c == '\t'
}

/// A decimal digit.
pub open spec fn is_digit(c: char) -> bool {
    '0' <= c && c <= '9'
}

/// The value of a decimal digit.
pub open spec fn digit_val(c: char) -> nat {
    ((c as u32) - 48) as nat
}

/// The character of a decimal digit value.
pub open spec fn digit_char(d: nat) -> char {
    ((48 + d) as u8) as char
}

/// A lowercase hexadecimal digit, as the writer emits and the reader
/// accepts them.
pub open spec fn is_hex(c: char) -> bool {
    is_digit(c) || ('a' <= c && c <= 'f') || ('A' <= c && c <= 'F')
}

/// The value of a hexadecimal digit.
pub open spec fn hex_val(c: char) -> nat {
    if is_digit(c) {
        digit_val(c)
    } else if 'a' <= c && c <= 'f' {
        ((c as u32) - 87) as nat
    } else {
        ((c as u32) - 55) as nat
    }
}

/// The lowercase character of a hexadecimal digit value.
pub open spec fn hex_char(d: nat) -> char {
    if d < 10 {
        digit_char(d)
    } else {
        ((87 + d) as u8) as char
    }
}

// ---------------------------------------------------------------
// What the writer produces
// ---------------------------------------------------------------

/// The decimal digits of a natural number.
pub open spec fn spec_nat_chars(n: nat) -> Seq<char>
    decreases n,
{
    if n < 10 {
        seq![digit_char(n)]
    } else {
        spec_nat_chars(n / 10).push(digit_char(n % 10))
    }
}

/// The decimal form of an integer: a minus sign for negative values,
/// then the digits.
pub open spec fn spec_int_chars(i: int) -> Seq<char> {
    if i < 0 {
        seq!['-'] + spec_nat_chars((-i) as nat)
    } else {
        spec_nat_chars(i as nat)
    }
}

/// How one character is written inside a JSON string: the quote, the
/// backslash and the common control characters get their two-character
/// escapes, any other control character a `\u00..` escape, and
/// everything else stands as it is.
pub open spec fn spec_escape_char(c: char) -> Seq<char> {
    if c == '"' {
        seq!['\\', '"']
    } else if c == '\\' {
        seq!['\\', '\\']
    } else if c == '\n' {
        seq!['\\', 'n']
    } else if c == '\r' {
        seq!['\\', 'r']
    } else if c == '\t' {
        seq!['\\', 't']
    } else if (c as u32) < 32 {
        seq!['\\', 'u', '0', '0', hex_char(((c as u32) / 16) as nat), hex_char(
            ((c as u32) % 16) as nat,
        )]
    } else {
        seq![c]
    }
}

/// A whole character sequence written inside a JSON string.
pub open spec fn spec_escape(s: Seq<char>) -> Seq<char>
    decreases s,
{
    if s.len() == 0 {
        Seq::empty()
    } else {
        spec_escape_char(s[0]) + spec_escape(s.drop_first())
    }
}

/// Escaping a sequence extended by one character appends that
/// character's escape.
pub proof fn lemma_escape_snoc(s: Seq<char>, c: char)
    ensures
        spec_escape(s.push(c)) == spec_escape(s) + spec_escape_char(c),
    decreases s,
{
    if s.len() == 0 {
        assert(s.push(c)[0] == c);
        assert(s.push(c).drop_first() =~= Seq::<char>::empty());
        assert(spec_escape(Seq::<char>::empty()) =~= Seq::<char>::empty());
        assert(spec_escape(s.push(c)) =~= spec_escape(s) + spec_escape_char(c));
    } else {
        assert(s.push(c).drop_first() =~= s.drop_first().push(c));
        lemma_escape_snoc(s.drop_first(), c);
        assert(spec_escape(s.push(c)) =~= spec_escape(s) + spec_escape_char(c));
    }
}

/// The exact character sequence the writer produces for a document:
/// no whitespace, object fields in their held order, strings escaped
/// as [`spec_escape`] says.
pub open spec fn spec_write_value(v: JsonV) -> Seq<char>
    decreases v, 0int,
{
    match v {
        JsonV::Null => "null"@,
        JsonV::Bool(b) => if b {
            "true"@
        } else {
            "false"@
        },
        JsonV::Int(i) => spec_int_chars(i),
        JsonV::Text(s) => seq!['"'] + spec_escape(s) + seq!['"'],
        JsonV::Arr(items) => seq!['['] + spec_write_list(items) + seq![']'],
        JsonV::Obj(fields) => seq!['{'] + spec_write_fields(fields) + seq!['}'],
    }
}

/// The elements of an array, comma separated.
pub open spec fn spec_write_list(items: Seq<JsonV>) -> Seq<char>
    decreases items, 1int,
{
    if items.len() == 0 {
        Seq::empty()
    } else if items.len() == 1 {
        spec_write_value(items[0])
    } else {
        spec_write_value(items[0]) + seq![','] + spec_write_list(items.drop_first())
    }
}

/// The fields of an object, comma separated, each a quoted escaped
/// key, a colon and the value.
pub open spec fn spec_write_fields(fields: Seq<(Seq<char>, JsonV)>) -> Seq<char>
    decreases fields, 1int,
{
    if fields.len() == 0 {
        Seq::empty()
    } else {
        let head = seq!['"'] + spec_escape(fields[0].0) + seq!['"', ':'] + spec_write_value(
            fields[0].1,
        );
        if fields.len() == 1 {
            head
        } else {
            head + seq![','] + spec_write_fields(fields.drop_first())
        }
    }
}

// ---------------------------------------------------------------
// The writer
// ---------------------------------------------------------------

/// Appends the decimal digits of `m`.
pub(crate) fn push_u64_dec(out: &mut String, m: u64)
    ensures
        final(out)@ == old(out)@ + spec_nat_chars(m as nat),
    decreases m,
{
    if m < 10 {
        let c = ((48 + m) as u8) as char;
        proof {
            assert(c == digit_char(m as nat));
        }
        push_char(out, c);
        proof {
            assert(old(out)@.push(c) =~= old(out)@ + spec_nat_chars(m as nat));
        }
    } else {
        push_u64_dec(out, m / 10);
        let c = ((48 + m % 10) as u8) as char;
        proof {
            assert(c == digit_char((m % 10) as nat));
        }
        push_char(out, c);
        proof {
            assert((old(out)@ + spec_nat_chars((m / 10) as nat)).push(c) =~= old(out)@
                + spec_nat_chars(m as nat));
        }
    }
}

/// Appends the decimal form of `n`: a minus sign for negative values,
/// then the digits.
pub(crate) fn push_i64_dec(out: &mut String, n: i64)
    ensures
        final(out)@ == old(out)@ + spec_int_chars(n as int),
{
    if n >= 0 {
        push_u64_dec(out, n as u64);
    } else {
        out.append("-");
        let m: u64 = if n == i64::MIN {
            9223372036854775808u64
        } else {
            (-n) as u64
        };
        proof {
            reveal_strlit("-");
            assert(m as nat == (-(n as int)) as nat);
        }
        push_u64_dec(out, m);
        proof {
            assert(old(out)@ + "-"@ + spec_nat_chars(m as nat) =~= old(out)@ + spec_int_chars(
                n as int,
            ));
        }
    }
}

/// The lowercase character of a hexadecimal digit value.
fn hex_char_of(d: u8) -> (c: char)
    requires
        d < 16,
    ensures
        c == hex_char(d as nat),
{
    if d < 10 {
        ((48 + d) as u8) as char
    } else {
        ((87 + d) as u8) as char
    }
}

/// Appends one character of a JSON string, escaped as the format
/// asks.
fn push_escaped_char(out: &mut String, c: char)
    ensures
        final(out)@ == old(out)@ + spec_escape_char(c),
{
    if c == '"' {
        out.append("\\\"");
        proof {
            reveal_strlit("\\\"");
            assert(old(out)@ + "\\\""@ =~= old(out)@ + spec_escape_char(c));
        }
    } else if c == '\\' {
        out.append("\\\\");
        proof {
            reveal_strlit("\\\\");
            assert(old(out)@ + "\\\\"@ =~= old(out)@ + spec_escape_char(c));
        }
    } else if c == '\n' {
        out.append("\\n");
        proof {
            reveal_strlit("\\n");
            assert(old(out)@ + "\\n"@ =~= old(out)@ + spec_escape_char(c));
        }
    } else if c == '\r' {
        out.append("\\r");
        proof {
            reveal_strlit("\\r");
            assert(old(out)@ + "\\r"@ =~= old(out)@ + spec_escape_char(c));
        }
    } else if c == '\t' {
        out.append("\\t");
        proof {
            reveal_strlit("\\t");
            assert(old(out)@ + "\\t"@ =~= old(out)@ + spec_escape_char(c));
        }
    } else if (c as u32) < 32 {
        let ghost mid = out@;
        out.append("\\u00");
        let n = c as u32;
        push_char(out, hex_char_of((n / 16) as u8));
        push_char(out, hex_char_of((n % 16) as u8));
        proof {
            reveal_strlit("\\u00");
            assert(old(out)@ + "\\u00"@ + seq![hex_char(((c as u32) / 16) as nat)] + seq![
                hex_char(((c as u32) % 16) as nat),
            ] =~= old(out)@ + spec_escape_char(c));
        }
    } else {
        push_char(out, c);
        proof {
            assert(old(out)@.push(c) =~= old(out)@ + spec_escape_char(c));
        }
    }
}

/// Appends a whole string's characters, escaped.
fn push_escaped(out: &mut String, s: &str)
    ensures
        final(out)@ == old(out)@ + spec_escape(s@),
{
    let n = s.unicode_len();
    let mut i: usize = 0;
    while i < n
        invariant
            i <= n,
            n == s@.len(),
            out@ == old(out)@ + spec_escape(s@.take(i as int)),
        decreases n - i,
    {
        let c = s.get_char(i);
        push_escaped_char(out, c);
        proof {
            assert(s@.take(i as int).push(s@[i as int]) =~= s@.take(i + 1 as int));
            lemma_escape_snoc(s@.take(i as int), s@[i as int]);
        }
        i = i + 1;
    }
    proof {
        assert(s@.take(n as int) =~= s@);
    }
}

/// Appends the written form of a document.
pub(crate) fn write_value(out: &mut String, v: &Json)
    ensures
        final(out)@ == old(out)@ + spec_write_value(v@),
    decreases v, 0int,
{
    match v {
        Json::Null => {
            out.append("null");
            proof {
                assert(out@ == old(out)@ + spec_write_value(v@));
            }
        },
        Json::Bool(b) => {
            if *b {
                out.append("true");
            } else {
                out.append("false");
            }
            proof {
                assert(out@ == old(out)@ + spec_write_value(v@));
            }
        },
        Json::Int(n) => {
            push_i64_dec(out, *n);
            proof {
                assert(out@ == old(out)@ + spec_write_value(v@));
            }
        },
        Json::Text(s) => {
            out.append("\"");
            push_escaped(out, s.as_str());
            out.append("\"");
            proof {
                reveal_strlit("\"");
                assert(old(out)@ + "\""@ + spec_escape(s@) + "\""@ =~= old(out)@
                    + spec_write_value(v@));
                assert(out@ == old(out)@ + spec_write_value(v@));
            }
        },
        Json::Arr(items) => {
            out.append("[");
            write_list(out, items, 0);
            out.append("]");
            proof {
                reveal_strlit("[");
                reveal_strlit("]");
                lemma_json_view_list_len(items@);
                assert(json_view_list(items@).subrange(0, items@.len() as int)
                    =~= json_view_list(items@));
                assert(old(out)@ + "["@ + spec_write_list(json_view_list(items@)) + "]"@
                    =~= old(out)@ + spec_write_value(v@));
                assert(out@ == old(out)@ + spec_write_value(v@));
            }
        },
        Json::Obj(fields) => {
            out.append("{");
            write_fields(out, fields, 0);
            out.append("}");
            proof {
                reveal_strlit("{");
                reveal_strlit("}");
                lemma_json_view_fields_len(fields@);
                assert(json_view_fields(fields@).subrange(0, fields@.len() as int)
                    =~= json_view_fields(fields@));
                assert(old(out)@ + "{"@ + spec_write_fields(json_view_fields(fields@)) + "}"@
                    =~= old(out)@ + spec_write_value(v@));
                assert(out@ == old(out)@ + spec_write_value(v@));
            }
        },
    }
}

/// Appends the elements of an array from `idx` on, comma separated.
fn write_list(out: &mut String, items: &Vec<Json>, idx: usize)
    requires
        idx <= items.len(),
    ensures
        final(out)@ == old(out)@ + spec_write_list(
            json_view_list(items@).subrange(idx as int, items@.len() as int),
        ),
    decreases items, items.len() - idx,
{
    proof {
        lemma_json_view_list_len(items@);
    }
    let ghost whole = json_view_list(items@);
    if idx < items.len() {
        write_value(out, &items[idx]);
        proof {
            lemma_json_view_list_index(items@, idx as int);
        }
        if idx + 1 < items.len() {
            out.append(",");
            write_list(out, items, idx + 1);
            proof {
                reveal_strlit(",");
                let tail = whole.subrange(idx as int, items@.len() as int);
                assert(tail.drop_first() =~= whole.subrange(idx + 1, items@.len() as int));
                assert(tail[0] == json_view(items@[idx as int]));
                assert(old(out)@ + spec_write_value(json_view(items@[idx as int])) + ","@
                    + spec_write_list(whole.subrange(idx + 1, items@.len() as int)) =~= old(out)@
                    + spec_write_list(tail));
            }
        } else {
            proof {
                let tail = whole.subrange(idx as int, items@.len() as int);
                assert(tail.len() == 1);
                assert(tail[0] == json_view(items@[idx as int]));
            }
        }
    } else {
        proof {
            assert(whole.subrange(idx as int, items@.len() as int).len() == 0);
        }
    }
}

/// Appends the fields of an object from `idx` on, comma separated.
fn write_fields(out: &mut String, fields: &Vec<(String, Json)>, idx: usize)
    requires
        idx <= fields.len(),
    ensures
        final(out)@ == old(out)@ + spec_write_fields(
            json_view_fields(fields@).subrange(idx as int, fields@.len() as int),
        ),
    decreases fields, fields.len() - idx,
{
    proof {
        lemma_json_view_fields_len(fields@);
    }
    let ghost whole = json_view_fields(fields@);
    if idx < fields.len() {
        out.append("\"");
        push_escaped(out, fields[idx].0.as_str());
        out.append("\":");
        write_value(out, &fields[idx].1);
        proof {
            lemma_json_view_fields_index(fields@, idx as int);
            reveal_strlit("\"");
            reveal_strlit("\":");
        }
        if idx + 1 < fields.len() {
            out.append(",");
            write_fields(out, fields, idx + 1);
            proof {
                reveal_strlit(",");
                let tail = whole.subrange(idx as int, fields@.len() as int);
                assert(tail.drop_first() =~= whole.subrange(idx + 1, fields@.len() as int));
                assert(tail[0] == (fields@[idx as int].0@, json_view(fields@[idx as int].1)));
                let head = seq!['"'] + spec_escape(tail[0].0) + seq!['"', ':'] + spec_write_value(
                    tail[0].1,
                );
                assert(old(out)@ + "\""@ + spec_escape(fields@[idx as int].0@) + "\":"@
                    + spec_write_value(json_view(fields@[idx as int].1)) + ","@
                    + spec_write_fields(whole.subrange(idx + 1, fields@.len() as int)) =~= old(
                    out,
                )@ + spec_write_fields(tail));
            }
        } else {
            proof {
                let tail = whole.subrange(idx as int, fields@.len() as int);
                assert(tail.len() == 1);
                assert(tail[0] == (fields@[idx as int].0@, json_view(fields@[idx as int].1)));
                assert(old(out)@ + "\""@ + spec_escape(fields@[idx as int].0@) + "\":"@
                    + spec_write_value(json_view(fields@[idx as int].1)) =~= old(out)@
                    + spec_write_fields(tail));
            }
        }
    } else {
        proof {
            assert(whole.subrange(idx as int, fields@.len() as int).len() == 0);
        }
    }
}

/// Writes a whole document out as one string.
pub fn write_json(v: &Json) -> (r: String)
    ensures
        r@ == spec_write_value(v@),
{
    let mut out = String::new();
    write_value(&mut out, v);
    out
}

// ---------------------------------------------------------------
// What the reader accepts
// ---------------------------------------------------------------

/// Reads a run of decimal digits left to right, accumulating their
/// value; a run whose value leaves the unsigned 64-bit range is
/// refused.  Returns the accumulated value and the position after the
/// run.
pub open spec fn spec_parse_digits(s: Seq<char>, i: int, acc: int) -> Option<(int, int)>
    decreases s.len() - i, 0int,
{
    if 0 <= i < s.len() && is_digit(s[i]) {
        let a2 = acc * 10 + digit_val(s[i]);
        if a2 > u64::MAX {
            None
        } else {
            spec_parse_digits(s, i + 1, a2)
        }
    } else {
        Some((acc, i))
    }
}

/// Reads a number from its first digit on: no leading zero, no
/// fraction, no exponent, and a value that fits a signed 64-bit
/// integer once the sign is applied.
pub open spec fn spec_parse_number_tail(s: Seq<char>, i: int, neg: bool) -> Option<(JsonV, int)>
    decreases s.len() - i, 1int,
{
    if !(0 <= i < s.len() && is_digit(s[i])) {
        None
    } else if s[i] == '0' && i + 1 < s.len() && is_digit(s[i + 1]) {
        None
    } else {
        match spec_parse_digits(s, i + 1, digit_val(s[i]) as int) {
            None => None,
            Some((val, end)) => {
                if end < s.len() && (s[end] == '.' || s[end] == 'e' || s[end] == 'E') {
                    None
                } else if neg {
                    if val <= 0x8000000000000000 {
                        Some((JsonV::Int(-val), end))
                    } else {
                        None
                    }
                } else {
                    if val <= i64::MAX {
                        Some((JsonV::Int(val), end))
                    } else {
                        None
                    }
                }
            },
        }
    }
}

/// Reads a number, signed or not, starting at its minus sign or
/// first digit.
pub open spec fn spec_parse_number(s: Seq<char>, i: int) -> Option<(JsonV, int)>
    decreases s.len() - i, 2int,
{
    if !(0 <= i < s.len()) {
        None
    } else if s[i] == '-' {
        spec_parse_number_tail(s, i + 1, true)
    } else {
        spec_parse_number_tail(s, i, false)
    }
}

/// Reads the inside of a string up to its closing quote,
/// accumulating the characters: plain characters stand as they are,
/// the short escapes are taken back, and a `\u00..` escape below 128
/// is taken back to its character.  Other `\u` escapes are refused.
pub open spec fn spec_parse_string_body(s: Seq<char>, i: int, acc: Seq<char>) -> Option<
    (Seq<char>, int),
>
    decreases s.len() - i, 0int,
{
    if !(0 <= i < s.len()) {
        None
    } else if s[i] == '"' {
        Some((acc, i + 1))
    } else if s[i] == '\\' {
        if i + 1 >= s.len() {
            None
        } else {
            let e = s[i + 1];
            if e == '"' || e == '\\' || e == '/' {
                spec_parse_string_body(s, i + 2, acc.push(e))
            } else if e == 'n' {
                spec_parse_string_body(s, i + 2, acc.push('\n'))
            } else if e == 'r' {
                spec_parse_string_body(s, i + 2, acc.push('\r'))
            } else if e == 't' {
                spec_parse_string_body(s, i + 2, acc.push('\t'))
            } else if e == 'b' {
                spec_parse_string_body(s, i + 2, acc.push('\u{8}'))
            } else if e == 'f' {
                spec_parse_string_body(s, i + 2, acc.push('\u{c}'))
            } else if e == 'u' {
                if i + 6 <= s.len() && is_hex(s[i + 2]) && is_hex(s[i + 3]) && is_hex(s[i + 4])
                    && is_hex(s[i + 5]) {
                    let v = hex_val(s[i + 2]) * 4096 + hex_val(s[i + 3]) * 256 + hex_val(s[i + 4])
                        * 16 + hex_val(s[i + 5]);
                    if v < 128 {
                        spec_parse_string_body(s, i + 6, acc.push((v as u8) as char))
                    } else {
                        None
                    }
                } else {
                    None
                }
            } else {
                None
            }
        }
    } else {
        spec_parse_string_body(s, i + 1, acc.push(s[i]))
    }
}

/// Reads one document starting at `i`, leading whitespace allowed.
/// Returns the document and the position just after it.
pub open spec fn spec_parse_value(s: Seq<char>, i: int) -> Option<(JsonV, int)>
    decreases s.len() - i, 4int,
{
    if !(0 <= i < s.len()) {
        None
    } else if is_ws(s[i]) {
        spec_parse_value(s, i + 1)
    } else {
        let c = s[i];
        if c == 'n' {
            if i + 4 <= s.len() && s[i + 1] == 'u' && s[i + 2] == 'l' && s[i + 3] == 'l' {
                Some((JsonV::Null, i + 4))
            } else {
                None
            }
        } else if c == 't' {
            if i + 4 <= s.len() && s[i + 1] == 'r' && s[i + 2] == 'u' && s[i + 3] == 'e' {
                Some((JsonV::Bool(true), i + 4))
            } else {
                None
            }
        } else if c == 'f' {
            if i + 5 <= s.len() && s[i + 1] == 'a' && s[i + 2] == 'l' && s[i + 3] == 's' && s[i
                + 4] == 'e' {
                Some((JsonV::Bool(false), i + 5))
            } else {
                None
            }
        } else if c == '"' {
            match spec_parse_string_body(s, i + 1, Seq::empty()) {
                None => None,
                Some((t, k)) => Some((JsonV::Text(t), k)),
            }
        } else if c == '[' {
            match spec_parse_list(s, i + 1) {
                None => None,
                Some((items, k)) => Some((JsonV::Arr(items), k)),
            }
        } else if c == '{' {
            match spec_parse_members(s, i + 1) {
                None => None,
                Some((fields, k)) => Some((JsonV::Obj(fields), k)),
            }
        } else if c == '-' || is_digit(c) {
            spec_parse_number(s, i)
        } else {
            None
        }
    }
}

/// Reads what follows an array's opening bracket: a closing bracket,
/// or a first element and then the rest.
///
/// The guards on the sub-reader's end position (`k <= i || k >
/// s.len()`) never fire — a successful read always advances and
/// stays within the input — but they make the recursion's measure
/// plain, here and in the object readers below.
pub open spec fn spec_parse_list(s: Seq<char>, i: int) -> Option<(Seq<JsonV>, int)>
    decreases s.len() - i, 5int,
{
    if !(0 <= i < s.len()) {
        None
    } else if is_ws(s[i]) {
        spec_parse_list(s, i + 1)
    } else if s[i] == ']' {
        Some((Seq::empty(), i + 1))
    } else {
        match spec_parse_value(s, i) {
            None => None,
            Some((v, k)) => if k <= i || k > s.len() {
                None
            } else {
                match spec_parse_list_rest(s, k) {
                    None => None,
                    Some((rest, k2)) => Some((seq![v] + rest, k2)),
                }
            },
        }
    }
}

/// Reads what follows an array element: a closing bracket, or a comma
/// and the next element.
pub open spec fn spec_parse_list_rest(s: Seq<char>, i: int) -> Option<(Seq<JsonV>, int)>
    decreases s.len() - i, 5int,
{
    if !(0 <= i < s.len()) {
        None
    } else if is_ws(s[i]) {
        spec_parse_list_rest(s, i + 1)
    } else if s[i] == ']' {
        Some((Seq::empty(), i + 1))
    } else if s[i] == ',' {
        match spec_parse_value(s, i + 1) {
            None => None,
            Some((v, k)) => if k <= i || k > s.len() {
                None
            } else {
                match spec_parse_list_rest(s, k) {
                    None => None,
                    Some((rest, k2)) => Some((seq![v] + rest, k2)),
                }
            },
        }
    } else {
        None
    }
}

/// Reads a colon and the value after it.
pub open spec fn spec_parse_colon_value(s: Seq<char>, i: int) -> Option<(JsonV, int)>
    decreases s.len() - i, 3int,
{
    if !(0 <= i < s.len()) {
        None
    } else if is_ws(s[i]) {
        spec_parse_colon_value(s, i + 1)
    } else if s[i] == ':' {
        spec_parse_value(s, i + 1)
    } else {
        None
    }
}

/// Reads one object member: a quoted key, a colon, a value.
pub open spec fn spec_parse_member(s: Seq<char>, i: int) -> Option<((Seq<char>, JsonV), int)>
    decreases s.len() - i, 5int,
{
    if !(0 <= i < s.len()) {
        None
    } else if is_ws(s[i]) {
        spec_parse_member(s, i + 1)
    } else if s[i] == '"' {
        match spec_parse_string_body(s, i + 1, Seq::empty()) {
            None => None,
            Some((key, k)) => if k <= i || k > s.len() {
                None
            } else {
                match spec_parse_colon_value(s, k) {
                    None => None,
                    Some((v, k2)) => Some(((key, v), k2)),
                }
            },
        }
    } else {
        None
    }
}

/// Reads what follows an object's opening brace: a closing brace, or
/// a first member and then the rest.
pub open spec fn spec_parse_members(s: Seq<char>, i: int) -> Option<
    (Seq<(Seq<char>, JsonV)>, int),
>
    decreases s.len() - i, 6int,
{
    if !(0 <= i < s.len()) {
        None
    } else if is_ws(s[i]) {
        spec_parse_members(s, i + 1)
    } else if s[i] == '}' {
        Some((Seq::empty(), i + 1))
    } else {
        match spec_parse_member(s, i) {
            None => None,
            Some((kv, k)) => if k <= i || k > s.len() {
                None
            } else {
                match spec_parse_members_rest(s, k) {
                    None => None,
                    Some((rest, k2)) => Some((seq![kv] + rest, k2)),
                }
            },
        }
    }
}

/// Reads what follows an object member: a closing brace, or a comma
/// and the next member.
pub open spec fn spec_parse_members_rest(s: Seq<char>, i: int) -> Option<
    (Seq<(Seq<char>, JsonV)>, int),
>
    decreases s.len() - i, 6int,
{
    if !(0 <= i < s.len()) {
        None
    } else if is_ws(s[i]) {
        spec_parse_members_rest(s, i + 1)
    } else if s[i] == '}' {
        Some((Seq::empty(), i + 1))
    } else if s[i] == ',' {
        match spec_parse_member(s, i + 1) {
            None => None,
            Some((kv, k)) => if k <= i || k > s.len() {
                None
            } else {
                match spec_parse_members_rest(s, k) {
                    None => None,
                    Some((rest, k2)) => Some((seq![kv] + rest, k2)),
                }
            },
        }
    } else {
        None
    }
}

/// The JSON document a file is sent as: its three fields, in order.
pub open spec fn spec_file_json_doc(f: crate::models::FileV) -> JsonV {
    JsonV::Obj(
        seq![
            ("name"@, JsonV::Text(f.name)),
            ("content"@, JsonV::Text(f.content)),
            ("encoding"@, JsonV::Text(f.encoding)),
        ],
    )
}

/// The JSON document an executor is sent as: every request field, in
/// the order the service documents them.
pub open spec fn spec_executor_json_doc(e: crate::executor::ExecutorV) -> JsonV {
    JsonV::Obj(
        seq![
            ("language"@, JsonV::Text(e.language)),
            ("version"@, JsonV::Text(e.version)),
            (
                "files"@,
                JsonV::Arr(Seq::new(e.files.len(), |k: int| spec_file_json_doc(e.files[k]))),
            ),
            ("stdin"@, JsonV::Text(e.stdin)),
            ("args"@, JsonV::Arr(Seq::new(e.args.len(), |k: int| JsonV::Text(e.args[k])))),
            ("compile_timeout"@, JsonV::Int(e.compile_timeout)),
            ("run_timeout"@, JsonV::Int(e.run_timeout)),
            ("compile_memory_limit"@, JsonV::Int(e.compile_memory_limit)),
            ("run_memory_limit"@, JsonV::Int(e.run_memory_limit)),
        ],
    )
}

/// Extending a list by one element extends its view by that
/// element's view.
pub proof fn lemma_json_view_list_snoc(l: Seq<Json>, x: Json)
    ensures
        json_view_list(l.push(x)) == json_view_list(l).push(json_view(x)),
    decreases l,
{
    if l.len() == 0 {
        assert(l.push(x)[0] == x);
        assert(l.push(x).drop_first() =~= Seq::<Json>::empty());
        assert(json_view_list(Seq::<Json>::empty()) =~= Seq::<JsonV>::empty());
        assert(json_view_list(l.push(x)) =~= json_view_list(l).push(json_view(x)));
    } else {
        assert(l.push(x).drop_first() =~= l.drop_first().push(x));
        lemma_json_view_list_snoc(l.drop_first(), x);
        assert(json_view_list(l.push(x)) =~= json_view_list(l).push(json_view(x)));
    }
}

/// Extending a field list by one field extends its view by that
/// field's view.
pub proof fn lemma_json_view_fields_snoc(l: Seq<(String, Json)>, x: (String, Json))
    ensures
        json_view_fields(l.push(x)) == json_view_fields(l).push((x.0@, json_view(x.1))),
    decreases l,
{
    if l.len() == 0 {
        assert(l.push(x)[0] == x);
        assert(l.push(x).drop_first() =~= Seq::<(String, Json)>::empty());
        assert(json_view_fields(Seq::<(String, Json)>::empty()) =~= Seq::<
            (Seq<char>, JsonV),
        >::empty());
        assert(json_view_fields(l.push(x)) =~= json_view_fields(l).push(
            (x.0@, json_view(x.1)),
        ));
    } else {
        assert(l.push(x).drop_first() =~= l.drop_first().push(x));
        lemma_json_view_fields_snoc(l.drop_first(), x);
        assert(json_view_fields(l.push(x)) =~= json_view_fields(l).push(
            (x.0@, json_view(x.1)),
        ));
    }
}

/// A list view, element by element.
pub proof fn lemma_json_view_list_pointwise(l: Seq<Json>)
    ensures
        json_view_list(l) =~= Seq::new(l.len(), |i: int| json_view(l[i])),
{
    lemma_json_view_list_len(l);
    assert forall|i: int| 0 <= i < l.len() implies json_view_list(l)[i] == json_view(
        l[i],
    ) by {
        lemma_json_view_list_index(l, i);
    }
}

/// A field-list view, field by field.
pub proof fn lemma_json_view_fields_pointwise(l: Seq<(String, Json)>)
    ensures
        json_view_fields(l) =~= Seq::new(l.len(), |i: int| (l[i].0@, json_view(l[i].1))),
{
    lemma_json_view_fields_len(l);
    assert forall|i: int| 0 <= i < l.len() implies json_view_fields(l)[i] == (
        l[i].0@,
        json_view(l[i].1),
    ) by {
        lemma_json_view_fields_index(l, i);
    }
}

/// Nothing but whitespace from `i` on.
pub open spec fn spec_all_ws(s: Seq<char>, i: int) -> bool {
    forall|j: int| i <= j < s.len() ==> is_ws(#[trigger] s[j])
}

/// The document a whole character sequence denotes: one value, with
/// nothing but whitespace around it; anything else is refused.
pub open spec fn spec_parse_json(s: Seq<char>) -> Option<JsonV> {
    match spec_parse_value(s, 0) {
        None => None,
        Some((v, k)) => if spec_all_ws(s, k) {
            Some(v)
        } else {
            None
        },
    }
}

// ---------------------------------------------------------------
// The reader
// ---------------------------------------------------------------

/// Whether a character is JSON whitespace.
fn ws_char(c: char) -> (r: bool)
    ensures
        r == is_ws(c),
{
    c == ' ' || c == '\n' || c == '\r' || c == '\t'
}

/// Whether a character is a decimal digit.
fn digit_test(c: char) -> (r: bool)
    ensures
        r == is_digit(c),
{
    '0' <= c && c <= '9'
}

/// The value of a decimal digit.
fn digit_val_of(c: char) -> (r: u32)
    requires
        is_digit(c),
    ensures
        r == digit_val(c),
{
    (c as u32) - 48
}

/// Whether a character is a hexadecimal digit.
fn hex_test(c: char) -> (r: bool)
    ensures
        r == is_hex(c),
{
    ('0' <= c && c <= '9') || ('a' <= c && c <= 'f') || ('A' <= c && c <= 'F')
}

/// The value of a hexadecimal digit.
fn hex_val_of(c: char) -> (r: u32)
    requires
        is_hex(c),
    ensures
        r == hex_val(c),
{
    if '0' <= c && c <= '9' {
        (c as u32) - 48
    } else if 'a' <= c && c <= 'f' {
        (c as u32) - 87
    } else {
        (c as u32) - 55
    }
}

/// Reads a run of decimal digits, exactly as [`spec_parse_digits`]
/// says.
fn parse_digits(s: &Vec<char>, start: usize, acc0: u64) -> (r: Option<(u64, usize)>)
    requires
        start <= s.len(),
    ensures
        match r {
            Some((val, end)) => spec_parse_digits(s@, start as int, acc0 as int) == Some(
                ((val as int, end as int)),
            ) && end <= s.len(),
            None => spec_parse_digits(s@, start as int, acc0 as int) is None,
        },
{
    let mut i = start;
    let mut acc = acc0;
    loop
        invariant
            start <= i <= s.len(),
            spec_parse_digits(s@, start as int, acc0 as int) == spec_parse_digits(
                s@,
                i as int,
                acc as int,
            ),
        decreases s.len() - i,
    {
        if i < s.len() && digit_test(s[i]) {
            let d = digit_val_of(s[i]);
            let a2: u128 = (acc as u128) * 10 + (d as u128);
            if a2 > u64::MAX as u128 {
                return None;
            }
            acc = a2 as u64;
            i = i + 1;
        } else {
            return Some((acc, i));
        }
    }
}

/// Reads a number from its first digit on, exactly as
/// [`spec_parse_number_tail`] says.
fn parse_number_tail(s: &Vec<char>, i: usize, neg: bool) -> (r: Option<(Json, usize)>)
    ensures
        match r {
            Some((v, end)) => spec_parse_number_tail(s@, i as int, neg) == Some(
                ((v@, end as int)),
            ) && end <= s.len(),
            None => spec_parse_number_tail(s@, i as int, neg) is None,
        },
{
    if !(i < s.len() && digit_test(s[i])) {
        return None;
    }
    if s[i] == '0' && i + 1 < s.len() && digit_test(s[i + 1]) {
        return None;
    }
    let d0 = digit_val_of(s[i]);
    match parse_digits(s, i + 1, d0 as u64) {
        None => None,
        Some((val, end)) => {
            if end < s.len() && (s[end] == '.' || s[end] == 'e' || s[end] == 'E') {
                None
            } else if neg {
                if val <= 0x7fffffffffffffffu64 {
                    let n: i64 = -(val as i64);
                    proof {
                        assert(n as int == -(val as int));
                    }
                    Some((Json::Int(n), end))
                } else if val == 0x8000000000000000u64 {
                    Some((Json::Int(i64::MIN), end))
                } else {
                    None
                }
            } else {
                if val <= 0x7fffffffffffffffu64 {
                    Some((Json::Int(val as i64), end))
                } else {
                    None
                }
            }
        },
    }
}

/// Reads a number, exactly as [`spec_parse_number`] says.
fn parse_number(s: &Vec<char>, i: usize) -> (r: Option<(Json, usize)>)
    ensures
        match r {
            Some((v, end)) => spec_parse_number(s@, i as int) == Some(((v@, end as int))) && end
                <= s.len(),
            None => spec_parse_number(s@, i as int) is None,
        },
{
    if !(i < s.len()) {
        None
    } else if s[i] == '-' {
        parse_number_tail(s, i + 1, true)
    } else {
        parse_number_tail(s, i, false)
    }
}

/// Reads the inside of a string, exactly as
/// [`spec_parse_string_body`] says.
fn parse_string_body(s: &Vec<char>, start: usize) -> (r: Option<(String, usize)>)
    requires
        start <= s.len(),
    ensures
        match r {
            Some((t, end)) => spec_parse_string_body(s@, start as int, Seq::empty()) == Some(
                ((t@, end as int)),
            ) && end <= s.len(),
            None => spec_parse_string_body(s@, start as int, Seq::empty()) is None,
        },
{
    let mut i = start;
    let mut acc = String::new();
    loop
        invariant
            start <= i,
            i <= s.len() || i <= s.len() + 5,
            spec_parse_string_body(s@, start as int, Seq::empty()) == spec_parse_string_body(
                s@,
                i as int,
                acc@,
            ),
        decreases s.len() + 6 - i,
    {
        if !(i < s.len()) {
            return None;
        }
        let c = s[i];
        if c == '"' {
            return Some((acc, i + 1));
        } else if c == '\\' {
            if i + 1 >= s.len() {
                return None;
            }
            let e = s[i + 1];
            if e == '"' || e == '\\' || e == '/' {
                push_char(&mut acc, e);
                i = i + 2;
            } else if e == 'n' {
                push_char(&mut acc, '\n');
                i = i + 2;
            } else if e == 'r' {
                push_char(&mut acc, '\r');
                i = i + 2;
            } else if e == 't' {
                push_char(&mut acc, '\t');
                i = i + 2;
            } else if e == 'b' {
                push_char(&mut acc, '\u{8}');
                i = i + 2;
            } else if e == 'f' {
                push_char(&mut acc, '\u{c}');
                i = i + 2;
            } else if e == 'u' {
                if s.len() - i >= 6 && hex_test(s[i + 2]) && hex_test(s[i + 3]) && hex_test(
                    s[i + 4],
                ) && hex_test(s[i + 5]) {
                    let v = hex_val_of(s[i + 2]) * 4096 + hex_val_of(s[i + 3]) * 256 + hex_val_of(
                        s[i + 4],
                    ) * 16 + hex_val_of(s[i + 5]);
                    if v < 128 {
                        push_char(&mut acc, (v as u8) as char);
                        i = i + 6;
                    } else {
                        return None;
                    }
                } else {
                    return None;
                }
            } else {
                return None;
            }
        } else {
            push_char(&mut acc, c);
            i = i + 1;
        }
    }
}

/// Reads one document, exactly as [`spec_parse_value`] says.
pub(crate) fn parse_value(s: &Vec<char>, start: usize) -> (r: Option<(Json, usize)>)
    requires
        start <= s.len(),
    ensures
        match r {
            Some((v, end)) => spec_parse_value(s@, start as int) == Some(((v@, end as int)))
                && end <= s.len(),
            None => spec_parse_value(s@, start as int) is None,
        },
    decreases s@.len() - start, 4int,
{
    let mut i = start;
    while i < s.len() && ws_char(s[i])
        invariant
            start <= i <= s.len(),
            spec_parse_value(s@, start as int) == spec_parse_value(s@, i as int),
        decreases s.len() - i,
    {
        i = i + 1;
    }
    if !(i < s.len()) {
        return None;
    }
    let c = s[i];
    if c == 'n' {
        if s.len() - i >= 4 && s[i + 1] == 'u' && s[i + 2] == 'l' && s[i + 3] == 'l' {
            Some((Json::Null, i + 4))
        } else {
            None
        }
    } else if c == 't' {
        if s.len() - i >= 4 && s[i + 1] == 'r' && s[i + 2] == 'u' && s[i + 3] == 'e' {
            Some((Json::Bool(true), i + 4))
        } else {
            None
        }
    } else if c == 'f' {
        if s.len() - i >= 5 && s[i + 1] == 'a' && s[i + 2] == 'l' && s[i + 3] == 's' && s[i + 4]
            == 'e' {
            Some((Json::Bool(false), i + 5))
        } else {
            None
        }
    } else if c == '"' {
        match parse_string_body(s, i + 1) {
            None => None,
            Some((t, k)) => Some((Json::Text(t), k)),
        }
    } else if c == '[' {
        match parse_list(s, i + 1) {
            None => None,
            Some((items, k)) => {
                let ghost itemsv = items@;
                let v = Json::Arr(items);
                proof {
                    assert(v@ == JsonV::Arr(json_view_list(itemsv)));
                }
                Some((v, k))
            },
        }
    } else if c == '{' {
        match parse_members(s, i + 1) {
            None => None,
            Some((fields, k)) => Some((Json::Obj(fields), k)),
        }
    } else if c == '-' || digit_test(c) {
        parse_number(s, i)
    } else {
        None
    }
}

/// Reads the elements after an array's opening bracket, exactly as
/// [`spec_parse_list`] says.
fn parse_list(s: &Vec<char>, start: usize) -> (r: Option<(Vec<Json>, usize)>)
    requires
        start <= s.len(),
    ensures
        match r {
            Some((items, end)) => spec_parse_list(s@, start as int) == Some(
                ((json_view_list(items@), end as int)),
            ) && end <= s.len(),
            None => spec_parse_list(s@, start as int) is None,
        },
    decreases s@.len() - start, 5int,
{
    let mut i = start;
    while i < s.len() && ws_char(s[i])
        invariant
            start <= i <= s.len(),
            spec_parse_list(s@, start as int) == spec_parse_list(s@, i as int),
        decreases s.len() - i,
    {
        i = i + 1;
    }
    if !(i < s.len()) {
        return None;
    }
    if s[i] == ']' {
        let items: Vec<Json> = Vec::new();
        proof {
            assert(json_view_list(items@) =~= Seq::<JsonV>::empty());
        }
        return Some((items, i + 1));
    }
    match parse_value(s, i) {
        None => None,
        Some((v, k)) => {
            if k <= i {
                return None;
            }
            match parse_list_rest(s, k) {
                None => None,
                Some((rest, k2)) => {
                    let ghost restv = rest@;
                    let ghost vg = v;
                    let mut items = rest;
                    items.insert(0, v);
                    proof {
                        assert(items@.drop_first() =~= restv);
                        lemma_json_view_list_cons(vg, items@);
                    }
                    Some((items, k2))
                },
            }
        },
    }
}

/// Reads the elements after an array element, exactly as
/// [`spec_parse_list_rest`] says.
fn parse_list_rest(s: &Vec<char>, start: usize) -> (r: Option<(Vec<Json>, usize)>)
    requires
        start <= s.len(),
    ensures
        match r {
            Some((items, end)) => spec_parse_list_rest(s@, start as int) == Some(
                ((json_view_list(items@), end as int)),
            ) && end <= s.len(),
            None => spec_parse_list_rest(s@, start as int) is None,
        },
    decreases s@.len() - start, 5int,
{
    let mut i = start;
    while i < s.len() && ws_char(s[i])
        invariant
            start <= i <= s.len(),
            spec_parse_list_rest(s@, start as int) == spec_parse_list_rest(s@, i as int),
        decreases s.len() - i,
    {
        i = i + 1;
    }
    if !(i < s.len()) {
        return None;
    }
    if s[i] == ']' {
        let items: Vec<Json> = Vec::new();
        proof {
            assert(json_view_list(items@) =~= Seq::<JsonV>::empty());
        }
        return Some((items, i + 1));
    }
    if s[i] != ',' {
        return None;
    }
    match parse_value(s, i + 1) {
        None => None,
        Some((v, k)) => {
            if k <= i {
                return None;
            }
            match parse_list_rest(s, k) {
                None => None,
                Some((rest, k2)) => {
                    let ghost restv = rest@;
                    let ghost vg = v;
                    let mut items = rest;
                    items.insert(0, v);
                    proof {
                        assert(items@.drop_first() =~= restv);
                        lemma_json_view_list_cons(vg, items@);
                    }
                    Some((items, k2))
                },
            }
        },
    }
}

/// Putting an element in front of a list puts its view in front of
/// the list's view.
proof fn lemma_json_view_list_cons(v: Json, l: Seq<Json>)
    requires
        l.len() > 0,
        l[0] == v,
    ensures
        json_view_list(l) == seq![json_view(v)] + json_view_list(l.drop_first()),
{
}

/// Putting a field in front of a field list puts its view in front
/// of the list's view.
proof fn lemma_json_view_fields_cons(kv: (String, Json), l: Seq<(String, Json)>)
    requires
        l.len() > 0,
        l[0] == kv,
    ensures
        json_view_fields(l) == seq![(kv.0@, json_view(kv.1))] + json_view_fields(l.drop_first()),
{
}

/// Reads a colon and the value after it, exactly as
/// [`spec_parse_colon_value`] says.
fn parse_colon_value(s: &Vec<char>, start: usize) -> (r: Option<(Json, usize)>)
    requires
        start <= s.len(),
    ensures
        match r {
            Some((v, end)) => spec_parse_colon_value(s@, start as int) == Some(
                ((v@, end as int)),
            ) && end <= s.len(),
            None => spec_parse_colon_value(s@, start as int) is None,
        },
    decreases s@.len() - start, 3int,
{
    let mut i = start;
    while i < s.len() && ws_char(s[i])
        invariant
            start <= i <= s.len(),
            spec_parse_colon_value(s@, start as int) == spec_parse_colon_value(s@, i as int),
        decreases s.len() - i,
    {
        i = i + 1;
    }
    if !(i < s.len()) {
        return None;
    }
    if s[i] == ':' {
        parse_value(s, i + 1)
    } else {
        None
    }
}

/// Reads one object member, exactly as [`spec_parse_member`] says.
fn parse_member(s: &Vec<char>, start: usize) -> (r: Option<((String, Json), usize)>)
    requires
        start <= s.len(),
    ensures
        match r {
            Some((kv, end)) => spec_parse_member(s@, start as int) == Some(
                (((kv.0@, kv.1@), end as int)),
            ) && end <= s.len(),
            None => spec_parse_member(s@, start as int) is None,
        },
    decreases s@.len() - start, 5int,
{
    let mut i = start;
    while i < s.len() && ws_char(s[i])
        invariant
            start <= i <= s.len(),
            spec_parse_member(s@, start as int) == spec_parse_member(s@, i as int),
        decreases s.len() - i,
    {
        i = i + 1;
    }
    if !(i < s.len()) {
        return None;
    }
    if s[i] != '"' {
        return None;
    }
    match parse_string_body(s, i + 1) {
        None => None,
        Some((key, k)) => {
            if k <= i {
                return None;
            }
            match parse_colon_value(s, k) {
                None => None,
                Some((v, k2)) => Some(((key, v), k2)),
            }
        },
    }
}

/// Reads the members after an object's opening brace, exactly as
/// [`spec_parse_members`] says.
fn parse_members(s: &Vec<char>, start: usize) -> (r: Option<(Vec<(String, Json)>, usize)>)
    requires
        start <= s.len(),
    ensures
        match r {
            Some((fields, end)) => spec_parse_members(s@, start as int) == Some(
                ((json_view_fields(fields@), end as int)),
            ) && end <= s.len(),
            None => spec_parse_members(s@, start as int) is None,
        },
    decreases s@.len() - start, 6int,
{
    let mut i = start;
    while i < s.len() && ws_char(s[i])
        invariant
            start <= i <= s.len(),
            spec_parse_members(s@, start as int) == spec_parse_members(s@, i as int),
        decreases s.len() - i,
    {
        i = i + 1;
    }
    if !(i < s.len()) {
        return None;
    }
    if s[i] == '}' {
        let fields: Vec<(String, Json)> = Vec::new();
        proof {
            assert(json_view_fields(fields@) =~= Seq::<(Seq<char>, JsonV)>::empty());
        }
        return Some((fields, i + 1));
    }
    match parse_member(s, i) {
        None => None,
        Some((kv, k)) => {
            if k <= i {
                return None;
            }
            match parse_members_rest(s, k) {
                None => None,
                Some((rest, k2)) => {
                    let ghost restv = rest@;
                    let ghost kvg = kv;
                    let mut fields = rest;
                    fields.insert(0, kv);
                    proof {
                        assert(fields@.drop_first() =~= restv);
                        lemma_json_view_fields_cons(kvg, fields@);
                    }
                    Some((fields, k2))
                },
            }
        },
    }
}

/// Reads the members after an object member, exactly as
/// [`spec_parse_members_rest`] says.
fn parse_members_rest(s: &Vec<char>, start: usize) -> (r: Option<(Vec<(String, Json)>, usize)>)
    requires
        start <= s.len(),
    ensures
        match r {
            Some((fields, end)) => spec_parse_members_rest(s@, start as int) == Some(
                ((json_view_fields(fields@), end as int)),
            ) && end <= s.len(),
            None => spec_parse_members_rest(s@, start as int) is None,
        },
    decreases s@.len() - start, 6int,
{
    let mut i = start;
    while i < s.len() && ws_char(s[i])
        invariant
            start <= i <= s.len(),
            spec_parse_members_rest(s@, start as int) == spec_parse_members_rest(s@, i as int),
        decreases s.len() - i,
    {
        i = i + 1;
    }
    if !(i < s.len()) {
        return None;
    }
    if s[i] == '}' {
        let fields: Vec<(String, Json)> = Vec::new();
        proof {
            assert(json_view_fields(fields@) =~= Seq::<(Seq<char>, JsonV)>::empty());
        }
        return Some((fields, i + 1));
    }
    if s[i] != ',' {
        return None;
    }
    match parse_member(s, i + 1) {
        None => None,
        Some((kv, k)) => {
            if k <= i {
                return None;
            }
            match parse_members_rest(s, k) {
                None => None,
                Some((rest, k2)) => {
                    let ghost restv = rest@;
                    let ghost kvg = kv;
                    let mut fields = rest;
                    fields.insert(0, kv);
                    proof {
                        assert(fields@.drop_first() =~= restv);
                        lemma_json_view_fields_cons(kvg, fields@);
                    }
                    Some((fields, k2))
                },
            }
        },
    }
}

/// Reads a whole string as one document, exactly as
/// [`spec_parse_json`] says: one value with nothing but whitespace
/// around it.
pub fn parse_json(s: &str) -> (r: Option<Json>)
    ensures
        match r {
            Some(v) => spec_parse_json(s@) == Some(v@),
            None => spec_parse_json(s@) is None,
        },
{
    let chars = crate::text::to_chars(s);
    match parse_value(&chars, 0) {
        None => None,
        Some((v, end)) => {
            let mut i = end;
            while i < chars.len() && ws_char(chars[i])
                invariant
                    end <= i <= chars.len(),
                    forall|j: int| end <= j < i ==> is_ws(#[trigger] chars@[j]),
                decreases chars.len() - i,
            {
                i = i + 1;
            }
            if i < chars.len() {
                proof {
                    assert(!is_ws(chars@[i as int]));
                    assert(!spec_all_ws(s@, end as int));
                }
                None
            } else {
                Some(v)
            }
        },
    }
}

} // verus!
