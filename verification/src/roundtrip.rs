//! The writer and the reader agree: a well-formed document, written
//! out by this crate's writer, is read back by this crate's reader as
//! exactly the same document.  [`lemma_parse_of_write`] states the
//! law; everything above it builds the induction, one grammar layer
//! at a time.

use vstd::prelude::*;

use crate::executor::Executor;
use crate::executor::ExecutorV;
use crate::executor::lemma_executor_view_limits;
use crate::json::JsonV;
use crate::json::spec_executor_json_doc;
use crate::json::spec_file_json_doc;
use crate::models::FileV;
use crate::json::digit_char;
use crate::json::digit_val;
use crate::json::is_digit;
use crate::json::is_ws;
use crate::json::hex_char;
use crate::json::hex_val;
use crate::json::is_hex;
use crate::json::spec_escape;
use crate::json::spec_escape_char;
use crate::json::spec_int_chars;
use crate::json::spec_nat_chars;
use crate::json::spec_parse_digits;
use crate::json::spec_all_ws;
use crate::json::spec_parse_colon_value;
use crate::json::spec_parse_json;
use crate::json::spec_parse_list;
use crate::json::spec_parse_list_rest;
use crate::json::spec_parse_member;
use crate::json::spec_parse_members;
use crate::json::spec_parse_members_rest;
use crate::json::spec_parse_number;
use crate::json::spec_parse_number_tail;
use crate::json::spec_parse_string_body;
use crate::json::spec_parse_value;
use crate::json::spec_write_fields;
use crate::json::spec_write_list;
use crate::json::spec_write_value;

verus! {

/// A document every part of which the reader can hand back: its
/// integers fit a signed 64-bit word.
pub open spec fn spec_wf_json(v: JsonV) -> bool
    decreases v, 0int,
{
    match v {
        JsonV::Null => true,
        JsonV::Bool(_) => true,
        JsonV::Int(i) => i64::MIN <= i <= i64::MAX,
        JsonV::Text(_) => true,
        JsonV::Arr(items) => spec_wf_list(items),
        JsonV::Obj(fields) => spec_wf_fields(fields),
    }
}

/// Every element of the list is well formed.
pub open spec fn spec_wf_list(items: Seq<JsonV>) -> bool
    decreases items, 1int,
{
    forall|k: int| 0 <= k < items.len() ==> spec_wf_json(#[trigger] items[k])
}

/// Every value of the field list is well formed.
pub open spec fn spec_wf_fields(fields: Seq<(Seq<char>, JsonV)>) -> bool
    decreases fields, 1int,
{
    forall|k: int| 0 <= k < fields.len() ==> spec_wf_json(#[trigger] fields[k].1)
}

/// Ten to the `k`.
pub open spec fn pow10(k: nat) -> nat
    decreases k,
{
    if k == 0 {
        1
    } else {
        10 * pow10((k - 1) as nat)
    }
}

/// The value of a run of digit characters.
pub open spec fn digits_val(ds: Seq<char>) -> nat
    decreases ds,
{
    if ds.len() == 0 {
        0
    } else {
        digits_val(ds.drop_last()) * 10 + digit_val(ds.last())
    }
}

/// All characters of the run are digits.
pub open spec fn all_digits(ds: Seq<char>) -> bool {
    forall|k: int| 0 <= k < ds.len() ==> is_digit(#[trigger] ds[k])
}

/// A digit character reads back as its value.
proof fn lemma_digit_char_val(d: nat)
    requires
        d < 10,
    ensures
        is_digit(digit_char(d)),
        digit_val(digit_char(d)) == d,
        d == 0 <==> digit_char(d) == '0',
{
    assert(((48 + d) as u8) as char as u32 == 48 + d);
}

/// Ten to the `k` is positive.
proof fn lemma_pow10_pos(k: nat)
    ensures
        pow10(k) >= 1,
    decreases k,
{
    if k > 0 {
        lemma_pow10_pos((k - 1) as nat);
    }
}

/// The value of a run read from the left: the first digit weighs the
/// rest's length.
proof fn lemma_digits_val_first(ds: Seq<char>)
    requires
        ds.len() > 0,
    ensures
        digits_val(ds) == digit_val(ds[0]) * pow10((ds.len() - 1) as nat) + digits_val(
            ds.drop_first(),
        ),
    decreases ds,
{
    if ds.len() == 1 {
        assert(ds.drop_last() =~= Seq::<char>::empty());
        assert(ds.drop_first() =~= Seq::<char>::empty());
        assert(ds.last() == ds[0]);
        assert(digits_val(Seq::<char>::empty()) == 0);
        assert(pow10(0) == 1);
        assert(digit_val(ds[0]) * pow10(0) == digit_val(ds[0])) by (nonlinear_arith)
            requires
                pow10(0) == 1,
        ;
    } else {
        let head = ds.drop_last();
        lemma_digits_val_first(head);
        assert(head.drop_first() =~= ds.drop_first().drop_last());
        assert(head[0] == ds[0]);
        assert(ds.drop_first().last() == ds.last());
        let tail = ds.drop_first();
        assert(tail.len() > 0);
        assert(digits_val(tail) == digits_val(tail.drop_last()) * 10 + digit_val(tail.last()));
        let d0 = digit_val(ds[0]);
        let m = (ds.len() - 2) as nat;
        let pm = pow10(m);
        let rv = digits_val(tail.drop_last());
        assert(digits_val(ds) == digits_val(head) * 10 + digit_val(ds.last()));
        assert(digits_val(head) == d0 * pm + rv);
        assert((d0 * pm + rv) * 10 == d0 * (pm * 10) + rv * 10) by (nonlinear_arith);
        assert(pow10((ds.len() - 1) as nat) == 10 * pm);
        assert(d0 * pow10((ds.len() - 1) as nat) == d0 * (pm * 10)) by (nonlinear_arith)
            requires
                pow10((ds.len() - 1) as nat) == 10 * pm,
        ;
        assert(digits_val(ds) == d0 * (pm * 10) + (rv * 10 + digit_val(ds.last())));
        assert(digits_val(ds) == d0 * pow10((ds.len() - 1) as nat) + digits_val(tail));
    }
}

/// Reading a run of digits accumulates exactly its value, and never
/// overflows when the whole value fits the accumulator's range.
proof fn lemma_parse_digits_run(s: Seq<char>, i: int, j: int, acc: int)
    requires
        0 <= i <= j <= s.len(),
        all_digits(s.subrange(i, j)),
        j == s.len() || !is_digit(s[j]),
        0 <= acc,
        acc * pow10((j - i) as nat) + digits_val(s.subrange(i, j)) <= u64::MAX,
    ensures
        spec_parse_digits(s, i, acc) == Some(
            ((acc * pow10((j - i) as nat) + digits_val(s.subrange(i, j))) as int, j),
        ),
    decreases j - i,
{
    let ds = s.subrange(i, j);
    if i == j {
        assert(ds.len() == 0);
        assert(pow10(0) == 1);
        assert(digits_val(ds) == 0);
        assert(acc * pow10(0) == acc) by (nonlinear_arith)
            requires
                pow10(0) == 1,
        ;
        if i < s.len() {
            assert(!is_digit(s[i]));
        }
        assert(spec_parse_digits(s, i, acc) == Some((acc, i)));
    } else {
        assert(is_digit(s[i])) by {
            assert(ds[0] == s[i]);
        }
        let d = digit_val(s[i]) as int;
        let a2 = acc * 10 + d;
        let rest = s.subrange(i + 1, j);
        assert(ds.drop_first() =~= rest);
        lemma_digits_val_first(ds);
        assert(ds[0] == s[i]);
        assert(digits_val(ds) == d * pow10((j - i - 1) as nat) + digits_val(rest));
        lemma_pow10_pos((j - i - 1) as nat);
        let p1 = pow10((j - i - 1) as nat) as int;
        let p = pow10((j - i) as nat) as int;
        assert(p == 10 * p1);
        assert(acc * p == (acc * 10) * p1) by (nonlinear_arith)
            requires
                p == 10 * p1,
        ;
        assert(a2 * p1 == (acc * 10) * p1 + d * p1) by (nonlinear_arith)
            requires
                a2 == acc * 10 + d,
        ;
        assert(a2 * p1 + digits_val(rest) == acc * p + digits_val(ds));
        assert(a2 <= a2 * p1) by (nonlinear_arith)
            requires
                a2 >= 0,
                p1 >= 1,
        ;
        assert(a2 <= u64::MAX);
        assert(forall|k: int| 0 <= k < rest.len() ==> is_digit(#[trigger] rest[k])) by {
            assert(forall|k: int| 0 <= k < rest.len() ==> rest[k] == ds[k + 1]);
        }
        lemma_parse_digits_run(s, i + 1, j, a2);
        assert(spec_parse_digits(s, i, acc) == spec_parse_digits(s, i + 1, a2));
    }
}

/// The digits of a natural number are digits, read back as that
/// number, and never start with a superfluous zero.
proof fn lemma_nat_chars_facts(n: nat)
    ensures
        spec_nat_chars(n).len() >= 1,
        all_digits(spec_nat_chars(n)),
        digits_val(spec_nat_chars(n)) == n,
        n >= 1 ==> digit_val(spec_nat_chars(n)[0]) >= 1,
        n < 10 ==> spec_nat_chars(n).len() == 1,
    decreases n,
{
    if n < 10 {
        lemma_digit_char_val(n);
        let ds = spec_nat_chars(n);
        assert(ds =~= seq![digit_char(n)]);
        assert(ds.drop_last() =~= Seq::<char>::empty());
        assert(digits_val(Seq::<char>::empty()) == 0);
        assert(ds.last() == digit_char(n));
        assert(digits_val(ds) == digits_val(ds.drop_last()) * 10 + digit_val(ds.last()));
        assert(digits_val(ds) == n);
    } else {
        lemma_nat_chars_facts(n / 10);
        lemma_digit_char_val(n % 10);
        let head = spec_nat_chars(n / 10);
        let ds = spec_nat_chars(n);
        assert(ds == head.push(digit_char(n % 10)));
        assert(ds.drop_last() =~= head);
        assert(ds.last() == digit_char(n % 10));
        assert(digits_val(ds) == (n / 10) * 10 + n % 10);
        assert((n / 10) * 10 + n % 10 == n);
        assert(forall|k: int| 0 <= k < ds.len() ==> is_digit(#[trigger] ds[k])) by {
            assert(forall|k: int| 0 <= k < head.len() ==> ds[k] == head[k]);
        }
        assert(ds[0] == head[0]);
    }
}

/// A number written by the writer is read back as itself, provided
/// what follows it is not a digit.
pub proof fn lemma_parse_number_of_write(m: int, s: Seq<char>, i: int)
    requires
        i64::MIN <= m <= i64::MAX,
        0 <= i,
        i + spec_int_chars(m).len() <= s.len(),
        s.subrange(i, i + spec_int_chars(m).len()) == spec_int_chars(m),
        i + spec_int_chars(m).len() == s.len() || (!is_digit(s[i + spec_int_chars(m).len()])
            && s[i + spec_int_chars(m).len()] != '.' && s[i + spec_int_chars(m).len()] != 'e'
            && s[i + spec_int_chars(m).len()] != 'E'),
    ensures
        spec_parse_number(s, i) == Some((JsonV::Int(m), i + spec_int_chars(m).len())),
{
    let w = spec_int_chars(m);
    let j = i + w.len();
    if m < 0 {
        let n = (-m) as nat;
        lemma_nat_chars_facts(n);
        let digits = spec_nat_chars(n);
        assert(w == seq!['-'] + digits);
        assert(s[i] == w[0]);
        assert(w[0] == '-');
        assert(s.subrange(i + 1, j) =~= digits) by {
            assert(forall|k: int| 0 <= k < digits.len() ==> s.subrange(i, j)[k + 1] == digits[k]);
        }
        // the first digit: no leading zero unless the value is zero
        assert(s[i + 1] == digits[0]);
        assert(is_digit(s[i + 1])) by {
            assert(digits[0] == s.subrange(i + 1, j)[0]);
        }
        assert(spec_parse_number(s, i) == spec_parse_number_tail(s, i + 1, true));
        lemma_parse_number_tail_of_digits(n, true, s, i + 1, j);
        assert(n <= 0x8000000000000000);
        assert(m == -(n as int));
    } else {
        let n = m as nat;
        lemma_nat_chars_facts(n);
        assert(w == spec_nat_chars(n));
        assert(s[i] == w[0]);
        assert(is_digit(s[i])) by {
            assert(w[0] == s.subrange(i, j)[0]);
        }
        assert(s[i] != '-') by {
            lemma_digit_char_val(digit_val(s[i]));
        }
        assert(s.subrange(i, j) =~= spec_nat_chars(n));
        assert(spec_parse_number(s, i) == spec_parse_number_tail(s, i, false));
        lemma_parse_number_tail_of_digits(n, false, s, i, j);
        assert(n <= i64::MAX);
    }
}

/// The tail of a number read over exactly the digits of `n`.
proof fn lemma_parse_number_tail_of_digits(n: nat, neg: bool, s: Seq<char>, i: int, j: int)
    requires
        0 <= i <= j <= s.len(),
        s.subrange(i, j) == spec_nat_chars(n),
        j == s.len() || (!is_digit(s[j]) && s[j] != '.' && s[j] != 'e' && s[j] != 'E'),
        neg ==> 1 <= n <= 0x8000000000000000,
        !neg ==> n <= i64::MAX,
    ensures
        neg ==> spec_parse_number_tail(s, i, neg) == Some((JsonV::Int(-(n as int)), j)),
        !neg ==> spec_parse_number_tail(s, i, neg) == Some((JsonV::Int(n as int), j)),
{
    lemma_nat_chars_facts(n);
    let digits = spec_nat_chars(n);
    assert(j - i == digits.len());
    assert(s[i] == digits[0]) by {
        assert(s.subrange(i, j)[0] == digits[0]);
    }
    assert(is_digit(s[i]));
    // no leading zero: a zero first digit means the number is 0,
    // whose digits are just "0", so nothing follows it
    if s[i] == '0' && i + 1 < s.len() && is_digit(s[i + 1]) {
        lemma_digit_char_val(digit_val(digits[0]));
        assert(digit_val(digits[0]) == 0);
        assert(n < 10) by {
            if n >= 10 {
                assert(digit_val(digits[0]) >= 1);
            }
        }
        assert(n == 0) by {
            if n >= 1 {
                assert(digit_val(digits[0]) >= 1);
            }
        }
        assert(digits.len() == 1);
        assert(j == i + 1);
        assert(is_digit(s[j]));
        assert(false);
    }
    assert(forall|k: int| 0 <= k < digits.len() ==> s.subrange(i, j)[k] == digits[k]);
    assert(all_digits(s.subrange(i, j)));
    assert(s.subrange(i + 1, j) =~= digits.drop_first());
    lemma_digits_val_first(digits);
    lemma_pow10_pos((digits.len() - 1) as nat);
    assert(digit_val(s[i]) * pow10((j - i - 1) as nat) + digits_val(s.subrange(i + 1, j)) == n)
        by {
        assert(digits_val(s.subrange(i + 1, j)) == digits_val(digits.drop_first()));
        assert(digit_val(digits[0]) * pow10((digits.len() - 1) as nat) + digits_val(
            digits.drop_first(),
        ) == digits_val(digits));
    }
    assert(all_digits(s.subrange(i + 1, j))) by {
        assert(s.subrange(i + 1, j) =~= digits.drop_first());
        assert(forall|k: int|
            0 <= k < digits.drop_first().len() ==> is_digit(
                #[trigger] digits.drop_first()[k],
            )) by {
            assert(forall|k: int|
                0 <= k < digits.drop_first().len() ==> digits.drop_first()[k] == digits[k + 1]);
        }
    }
    lemma_parse_digits_run(s, i + 1, j, digit_val(s[i]) as int);
    assert(spec_parse_digits(s, i + 1, digit_val(s[i]) as int) == Some((n as int, j)));
}

/// A hexadecimal digit character reads back as its value.
proof fn lemma_hex_char_val(d: nat)
    requires
        d < 16,
    ensures
        is_hex(hex_char(d)),
        hex_val(hex_char(d)) == d,
    decreases d,
{
    if d < 10 {
        lemma_digit_char_val(d);
    } else {
        assert(((87 + d) as u8) as char as u32 == 87 + d);
    }
}

/// The escaped form of a string, followed by a closing quote, reads
/// back as that string appended to whatever was read before it.
proof fn lemma_parse_string_of_escape(t: Seq<char>, s: Seq<char>, i: int, acc: Seq<char>)
    requires
        0 <= i,
        i + spec_escape(t).len() + 1 <= s.len(),
        s.subrange(i, i + spec_escape(t).len()) == spec_escape(t),
        s[i + spec_escape(t).len()] == '"',
    ensures
        spec_parse_string_body(s, i, acc) == Some((acc + t, i + spec_escape(t).len() + 1)),
    decreases t.len(),
{
    let w = spec_escape(t);
    let region = s.subrange(i, i + w.len());
    if t.len() == 0 {
        assert(w.len() == 0);
        assert(s[i] == '"');
        assert(acc + t =~= acc);
    } else {
        let c = t[0];
        let e0 = spec_escape_char(c);
        let rest = spec_escape(t.drop_first());
        assert(w == e0 + rest);
        assert(e0.len() >= 1);
        let i2 = i + e0.len();
        assert(s.subrange(i2, i + w.len()) =~= rest) by {
            assert forall|k: int|
                0 <= k < rest.len() implies s.subrange(i2, i + w.len())[k] == rest[k] by {
                assert(s.subrange(i2, i + w.len())[k] == s[i2 + k]);
                assert(region[e0.len() + k] == s[i + e0.len() + k]);
                assert((e0 + rest)[e0.len() + k] == rest[k]);
            }
        }
        assert(acc.push(c) + t.drop_first() =~= acc + t);
        if c == '"' || c == '\\' {
            assert(region[0] == s[i] && region[1] == s[i + 1]);
            assert((e0 + rest)[0] == e0[0] && (e0 + rest)[1] == e0[1]);
            assert(s[i] == '\\' && s[i + 1] == c);
            lemma_parse_string_of_escape(t.drop_first(), s, i + 2, acc.push(c));
        } else if c == '\n' {
            assert(region[0] == s[i] && region[1] == s[i + 1]);
            assert((e0 + rest)[0] == e0[0] && (e0 + rest)[1] == e0[1]);
            assert(s[i] == '\\' && s[i + 1] == 'n');
            lemma_parse_string_of_escape(t.drop_first(), s, i + 2, acc.push(c));
        } else if c == '\r' {
            assert(region[0] == s[i] && region[1] == s[i + 1]);
            assert((e0 + rest)[0] == e0[0] && (e0 + rest)[1] == e0[1]);
            assert(s[i] == '\\' && s[i + 1] == 'r');
            lemma_parse_string_of_escape(t.drop_first(), s, i + 2, acc.push(c));
        } else if c == '\t' {
            assert(region[0] == s[i] && region[1] == s[i + 1]);
            assert((e0 + rest)[0] == e0[0] && (e0 + rest)[1] == e0[1]);
            assert(s[i] == '\\' && s[i + 1] == 't');
            lemma_parse_string_of_escape(t.drop_first(), s, i + 2, acc.push(c));
        } else if (c as u32) < 32 {
            let hi = ((c as u32) / 16) as nat;
            let lo = ((c as u32) % 16) as nat;
            assert(region[0] == s[i] && region[1] == s[i + 1] && region[2] == s[i + 2]
                && region[3] == s[i + 3] && region[4] == s[i + 4] && region[5] == s[i + 5]);
            assert((e0 + rest)[0] == e0[0] && (e0 + rest)[1] == e0[1] && (e0 + rest)[2] == e0[2]
                && (e0 + rest)[3] == e0[3] && (e0 + rest)[4] == e0[4] && (e0 + rest)[5]
                == e0[5]);
            assert(s[i] == '\\' && s[i + 1] == 'u' && s[i + 2] == '0' && s[i + 3] == '0');
            assert(s[i + 4] == hex_char(hi) && s[i + 5] == hex_char(lo));
            lemma_hex_char_val(hi);
            lemma_hex_char_val(lo);
            assert(is_hex('0') && hex_val('0') == 0) by {
                assert('0' as u32 == 48);
            }
            let v = hex_val(s[i + 2]) * 4096 + hex_val(s[i + 3]) * 256 + hex_val(s[i + 4]) * 16
                + hex_val(s[i + 5]);
            assert(v == hi * 16 + lo);
            assert(v == c as u32);
            assert(v < 128);
            assert(((v as u8) as char) == c) by {
                let b: u8 = (c as u32) as u8;
                assert(b as u32 == c as u32);
                assert((b as char) as u32 == b as u32);
                vstd::utf8::char_u32_cast(c, c as u32);
                vstd::utf8::char_u32_cast((b as char), (b as char) as u32);
                assert(b as char == c);
                assert(v as u8 == b);
            }
            lemma_parse_string_of_escape(t.drop_first(), s, i + 6, acc.push(c));
        } else {
            assert(e0 == seq![c]);
            assert(region[0] == s[i]);
            assert((e0 + rest)[0] == e0[0]);
            assert(s[i] == c);
            assert(c != '"' && c != '\\');
            lemma_parse_string_of_escape(t.drop_first(), s, i + 1, acc.push(c));
        }
    }
}

/// What follows an array's first element in its written form: for
/// the last element nothing, else a comma and the remaining
/// elements.
pub open spec fn spec_write_list_tail(r: Seq<JsonV>) -> Seq<char>
    decreases r, 2int,
{
    if r.len() == 0 {
        Seq::empty()
    } else {
        seq![','] + spec_write_list(r)
    }
}

/// What follows an object's first member in its written form.
pub open spec fn spec_write_fields_tail(r: Seq<(Seq<char>, JsonV)>) -> Seq<char>
    decreases r, 2int,
{
    if r.len() == 0 {
        Seq::empty()
    } else {
        seq![','] + spec_write_fields(r)
    }
}

/// One member in its written form: the quoted escaped key, a colon,
/// the value.
pub open spec fn spec_member_text(kv: (Seq<char>, JsonV)) -> Seq<char> {
    seq!['"'] + spec_escape(kv.0) + seq!['"', ':'] + spec_write_value(kv.1)
}

/// A written list splits into its first element and the tail.
proof fn lemma_write_list_split(r: Seq<JsonV>)
    requires
        r.len() > 0,
    ensures
        spec_write_list(r) == spec_write_value(r[0]) + spec_write_list_tail(r.drop_first()),
{
    if r.len() == 1 {
        assert(r.drop_first().len() == 0);
        assert(spec_write_list(r) =~= spec_write_value(r[0]) + spec_write_list_tail(
            r.drop_first(),
        ));
    } else {
        assert(r.drop_first().len() > 0);
        assert(spec_write_list(r) =~= spec_write_value(r[0]) + spec_write_list_tail(
            r.drop_first(),
        ));
    }
}

/// A written field list splits into its first member and the tail.
proof fn lemma_write_fields_split(r: Seq<(Seq<char>, JsonV)>)
    requires
        r.len() > 0,
    ensures
        spec_write_fields(r) == spec_member_text(r[0]) + spec_write_fields_tail(r.drop_first()),
{
    if r.len() == 1 {
        assert(r.drop_first().len() == 0);
        assert(spec_write_fields(r) =~= spec_member_text(r[0]) + spec_write_fields_tail(
            r.drop_first(),
        ));
    } else {
        assert(r.drop_first().len() > 0);
        assert(spec_write_fields(r) =~= spec_member_text(r[0]) + spec_write_fields_tail(
            r.drop_first(),
        ));
    }
}

/// The first character a written document starts with: never
/// whitespace and never a closing token, so the reader's dispatch is
/// unambiguous.
proof fn lemma_write_first_char(v: JsonV)
    requires
        spec_wf_json(v),
    ensures
        spec_write_value(v).len() >= 1,
        !is_ws(spec_write_value(v)[0]),
        spec_write_value(v)[0] != ']',
        spec_write_value(v)[0] != '}',
        spec_write_value(v)[0] != ',',
        spec_write_value(v)[0] != ':',
        spec_write_value(v)[0] != '"' || v is Text,
{
    let w = spec_write_value(v);
    match v {
        JsonV::Null => {
            proof_strlits();
            assert(w[0] == 'n');
        },
        JsonV::Bool(b) => {
            proof_strlits();
            if b {
                assert(w[0] == 't');
            } else {
                assert(w[0] == 'f');
            }
        },
        JsonV::Int(m) => {
            lemma_int_chars_first(m);
        },
        JsonV::Text(_) => {
            assert(w[0] == '"');
        },
        JsonV::Arr(_) => {
            assert(w[0] == '[');
        },
        JsonV::Obj(_) => {
            assert(w[0] == '{');
        },
    }
}

/// The written form of an integer starts with a minus sign or a
/// digit, and a digit is none of the reader's structural tokens.
proof fn lemma_int_chars_first(m: int)
    ensures
        spec_int_chars(m).len() >= 1,
        spec_int_chars(m)[0] == '-' || is_digit(spec_int_chars(m)[0]),
        !is_ws(spec_int_chars(m)[0]),
        spec_int_chars(m)[0] != ']' && spec_int_chars(m)[0] != '}' && spec_int_chars(m)[0] != ','
            && spec_int_chars(m)[0] != ':' && spec_int_chars(m)[0] != '"' && spec_int_chars(
            m,
        )[0] != 'n' && spec_int_chars(m)[0] != 't' && spec_int_chars(m)[0] != 'f'
            && spec_int_chars(m)[0] != '[' && spec_int_chars(m)[0] != '{',
{
    let w = spec_int_chars(m);
    if m < 0 {
        lemma_nat_chars_facts((-m) as nat);
        assert(w[0] == '-');
    } else {
        lemma_nat_chars_facts(m as nat);
        assert(w == spec_nat_chars(m as nat));
        assert(is_digit(w[0]));
        assert('0' as u32 == 48 && '9' as u32 == 57);
    }
}

/// Reveals the literal keywords of the grammar.
proof fn proof_strlits()
    ensures
        "null"@ =~= seq!['n', 'u', 'l', 'l'],
        "true"@ =~= seq!['t', 'r', 'u', 'e'],
        "false"@ =~= seq!['f', 'a', 'l', 's', 'e'],
{
    reveal_strlit("null");
    reveal_strlit("true");
    reveal_strlit("false");
}

/// A well-formed document, written and then read from the same spot,
/// is read back as itself, ending right after its written form.  The
/// character after it, if any, must not continue a number.
pub proof fn lemma_parse_of_write(v: JsonV, s: Seq<char>, i: int)
    requires
        spec_wf_json(v),
        0 <= i,
        i + spec_write_value(v).len() <= s.len(),
        s.subrange(i, i + spec_write_value(v).len()) == spec_write_value(v),
        i + spec_write_value(v).len() == s.len() || (!is_digit(s[i + spec_write_value(v).len()])
            && s[i + spec_write_value(v).len()] != '.' && s[i + spec_write_value(v).len()] != 'e'
            && s[i + spec_write_value(v).len()] != 'E'),
    ensures
        spec_parse_value(s, i) == Some((v, i + spec_write_value(v).len())),
    decreases v, 0int,
{
    let w = spec_write_value(v);
    let region = s.subrange(i, i + w.len());
    lemma_write_first_char(v);
    assert(s[i] == w[0]) by {
        assert(region[0] == w[0]);
    }
    match v {
        JsonV::Null => {
            proof_strlits();
            assert(s[i + 1] == w[1] && s[i + 2] == w[2] && s[i + 3] == w[3]) by {
                assert(region[1] == w[1] && region[2] == w[2] && region[3] == w[3]);
            }
        },
        JsonV::Bool(b) => {
            proof_strlits();
            if b {
                assert(s[i + 1] == w[1] && s[i + 2] == w[2] && s[i + 3] == w[3]) by {
                    assert(region[1] == w[1] && region[2] == w[2] && region[3] == w[3]);
                }
            } else {
                assert(s[i + 1] == w[1] && s[i + 2] == w[2] && s[i + 3] == w[3] && s[i + 4]
                    == w[4]) by {
                    assert(region[1] == w[1] && region[2] == w[2] && region[3] == w[3]
                        && region[4] == w[4]);
                }
            }
        },
        JsonV::Int(m) => {
            lemma_int_chars_first(m);
            lemma_parse_number_of_write(m, s, i);
        },
        JsonV::Text(t) => {
            let esc = spec_escape(t);
            assert(w == seq!['"'] + esc + seq!['"']);
            assert(s.subrange(i + 1, i + 1 + esc.len()) =~= esc) by {
                assert forall|k: int|
                    0 <= k < esc.len() implies s.subrange(i + 1, i + 1 + esc.len())[k]
                    == esc[k] by {
                    assert(region[1 + k] == w[1 + k]);
                    assert(w[1 + k] == esc[k]);
                }
            }
            assert(s[i + 1 + esc.len()] == '"') by {
                assert(region[w.len() - 1] == w[w.len() - 1]);
                assert(w[w.len() - 1] == '"');
            }
            lemma_parse_string_of_escape(t, s, i + 1, Seq::empty());
            assert(Seq::<char>::empty() + t =~= t);
        },
        JsonV::Arr(items) => {
            let wl = spec_write_list(items);
            assert(w == seq!['['] + wl + seq![']']);
            assert(s.subrange(i + 1, i + 1 + wl.len()) =~= wl) by {
                assert forall|k: int|
                    0 <= k < wl.len() implies s.subrange(i + 1, i + 1 + wl.len())[k]
                    == wl[k] by {
                    assert(region[1 + k] == w[1 + k]);
                    assert(w[1 + k] == wl[k]);
                }
            }
            assert(s[i + 1 + wl.len()] == ']') by {
                assert(region[w.len() - 1] == w[w.len() - 1]);
                assert(w[w.len() - 1] == ']');
            }
            lemma_parse_list_of_write(items, s, i + 1);
        },
        JsonV::Obj(fields) => {
            let wf = spec_write_fields(fields);
            assert(w == seq!['{'] + wf + seq!['}']);
            assert(s.subrange(i + 1, i + 1 + wf.len()) =~= wf) by {
                assert forall|k: int|
                    0 <= k < wf.len() implies s.subrange(i + 1, i + 1 + wf.len())[k]
                    == wf[k] by {
                    assert(region[1 + k] == w[1 + k]);
                    assert(w[1 + k] == wf[k]);
                }
            }
            assert(s[i + 1 + wf.len()] == '}') by {
                assert(region[w.len() - 1] == w[w.len() - 1]);
                assert(w[w.len() - 1] == '}');
            }
            lemma_parse_members_of_write(fields, s, i + 1);
        },
    }
}

/// A written element list followed by a closing bracket reads back
/// as those elements.
proof fn lemma_parse_list_of_write(items: Seq<JsonV>, s: Seq<char>, i: int)
    requires
        spec_wf_list(items),
        0 <= i,
        i + spec_write_list(items).len() + 1 <= s.len(),
        s.subrange(i, i + spec_write_list(items).len()) == spec_write_list(items),
        s[i + spec_write_list(items).len()] == ']',
    ensures
        spec_parse_list(s, i) == Some((items, i + spec_write_list(items).len() + 1)),
    decreases items, 1int,
{
    let wl = spec_write_list(items);
    if items.len() == 0 {
        assert(wl.len() == 0);
        assert(s[i] == ']');
    } else {
        lemma_write_list_split(items);
        let w0 = spec_write_value(items[0]);
        let tail = spec_write_list_tail(items.drop_first());
        assert(wl == w0 + tail);
        lemma_write_first_char(items[0]);
        assert(s[i] == w0[0]) by {
            assert(s.subrange(i, i + wl.len())[0] == wl[0]);
            assert(wl[0] == w0[0]);
        }
        let k = i + w0.len();
        assert(s.subrange(i, k) =~= w0) by {
            assert forall|j: int| 0 <= j < w0.len() implies s.subrange(i, k)[j] == w0[j] by {
                assert(s.subrange(i, i + wl.len())[j] == wl[j]);
                assert(wl[j] == w0[j]);
            }
        }
        assert(s.subrange(k, k + tail.len()) =~= tail) by {
            assert forall|j: int|
                0 <= j < tail.len() implies s.subrange(k, k + tail.len())[j] == tail[j] by {
                assert(s.subrange(i, i + wl.len())[w0.len() + j] == wl[w0.len() + j]);
                assert(wl[w0.len() + j] == tail[j]);
            }
        }
        assert(s[k + tail.len()] == ']');
        // the character after the first element is ',' or ']'
        if items.len() == 1 {
            assert(tail.len() == 0);
            assert(s[k] == ']');
            lemma_parse_of_write(items[0], s, i);
        } else {
            assert(items.drop_first().len() > 0);
            assert(s[k] == ',') by {
                assert(s.subrange(k, k + tail.len())[0] == tail[0]);
                assert(tail[0] == ',');
            }
            lemma_parse_of_write(items[0], s, i);
        }
        lemma_parse_list_rest_of_write(items.drop_first(), s, k);
        assert(seq![items[0]] + items.drop_first() =~= items);
    }
}

/// The written tail of a list, followed by a closing bracket, reads
/// back as the remaining elements.
proof fn lemma_parse_list_rest_of_write(r: Seq<JsonV>, s: Seq<char>, i: int)
    requires
        spec_wf_list(r),
        0 <= i,
        i + spec_write_list_tail(r).len() + 1 <= s.len(),
        s.subrange(i, i + spec_write_list_tail(r).len()) == spec_write_list_tail(r),
        s[i + spec_write_list_tail(r).len()] == ']',
    ensures
        spec_parse_list_rest(s, i) == Some((r, i + spec_write_list_tail(r).len() + 1)),
    decreases r, 2int,
{
    let tail = spec_write_list_tail(r);
    if r.len() == 0 {
        assert(tail.len() == 0);
        assert(s[i] == ']');
    } else {
        let wl = spec_write_list(r);
        assert(tail == seq![','] + wl);
        assert(s[i] == ',') by {
            assert(s.subrange(i, i + tail.len())[0] == tail[0]);
            assert(tail[0] == ',');
        }
        assert(s.subrange(i + 1, i + 1 + wl.len()) =~= wl) by {
            assert forall|j: int|
                0 <= j < wl.len() implies s.subrange(i + 1, i + 1 + wl.len())[j] == wl[j] by {
                assert(s.subrange(i, i + tail.len())[1 + j] == tail[1 + j]);
                assert(tail[1 + j] == wl[j]);
            }
        }
        assert(s[i + 1 + wl.len()] == ']');
        lemma_write_list_split(r);
        let w0 = spec_write_value(r[0]);
        let tail2 = spec_write_list_tail(r.drop_first());
        assert(wl == w0 + tail2);
        lemma_write_first_char(r[0]);
        let k = i + 1 + w0.len();
        assert(s.subrange(i + 1, k) =~= w0) by {
            assert forall|j: int| 0 <= j < w0.len() implies s.subrange(i + 1, k)[j] == w0[j] by {
                assert(s.subrange(i + 1, i + 1 + wl.len())[j] == wl[j]);
                assert(wl[j] == w0[j]);
            }
        }
        assert(s.subrange(k, k + tail2.len()) =~= tail2) by {
            assert forall|j: int|
                0 <= j < tail2.len() implies s.subrange(k, k + tail2.len())[j] == tail2[j] by {
                assert(s.subrange(i + 1, i + 1 + wl.len())[w0.len() + j] == wl[w0.len() + j]);
                assert(wl[w0.len() + j] == tail2[j]);
            }
        }
        assert(s[k + tail2.len()] == ']');
        if r.len() == 1 {
            assert(tail2.len() == 0);
            assert(s[k] == ']');
            lemma_parse_of_write(r[0], s, i + 1);
        } else {
            assert(r.drop_first().len() > 0);
            assert(s[k] == ',') by {
                assert(s.subrange(k, k + tail2.len())[0] == tail2[0]);
                assert(tail2[0] == ',');
            }
            lemma_parse_of_write(r[0], s, i + 1);
        }
        lemma_parse_list_rest_of_write(r.drop_first(), s, k);
        assert(seq![r[0]] + r.drop_first() =~= r);
    }
}

/// A written member reads back as itself, ending right after its
/// written form.
proof fn lemma_parse_member_of_write(kv: (Seq<char>, JsonV), s: Seq<char>, i: int)
    requires
        spec_wf_json(kv.1),
        0 <= i,
        i + spec_member_text(kv).len() <= s.len(),
        s.subrange(i, i + spec_member_text(kv).len()) == spec_member_text(kv),
        i + spec_member_text(kv).len() == s.len() || (!is_digit(s[i + spec_member_text(kv).len()])
            && s[i + spec_member_text(kv).len()] != '.' && s[i + spec_member_text(kv).len()]
            != 'e' && s[i + spec_member_text(kv).len()] != 'E'),
    ensures
        spec_parse_member(s, i) == Some((kv, i + spec_member_text(kv).len())),
    decreases kv, 1int,
{
    let w = spec_member_text(kv);
    let region = s.subrange(i, i + w.len());
    let esc = spec_escape(kv.0);
    assert(s[i] == '"') by {
        assert(region[0] == w[0]);
        assert(w[0] == '"');
    }
    assert(s.subrange(i + 1, i + 1 + esc.len()) =~= esc) by {
        assert forall|k: int|
            0 <= k < esc.len() implies s.subrange(i + 1, i + 1 + esc.len())[k] == esc[k] by {
            assert(region[1 + k] == w[1 + k]);
            assert(w[1 + k] == esc[k]);
        }
    }
    let k1 = i + 1 + esc.len() + 1;
    assert(s[i + 1 + esc.len()] == '"') by {
        assert(region[1 + esc.len() as int] == w[1 + esc.len() as int]);
        assert(w[1 + esc.len() as int] == '"');
    }
    lemma_parse_string_of_escape(kv.0, s, i + 1, Seq::empty());
    assert(Seq::<char>::empty() + kv.0 =~= kv.0);
    assert(s[k1] == ':') by {
        assert(region[k1 - i] == w[k1 - i]);
        assert(w[k1 - i] == ':');
    }
    let w1 = spec_write_value(kv.1);
    assert(s.subrange(k1 + 1, k1 + 1 + w1.len()) =~= w1) by {
        assert forall|k: int|
            0 <= k < w1.len() implies s.subrange(k1 + 1, k1 + 1 + w1.len())[k] == w1[k] by {
            assert(region[k1 + 1 - i + k] == w[k1 + 1 - i + k]);
            assert(w[k1 + 1 - i + k] == w1[k]);
        }
    }
    assert(k1 + 1 + w1.len() == i + w.len());
    lemma_parse_of_write(kv.1, s, k1 + 1);
    assert(spec_parse_value(s, k1 + 1) == Some((kv.1, i + w.len())));
    assert(spec_parse_colon_value(s, k1) == Some((kv.1, i + w.len())));
    assert(spec_parse_string_body(s, i + 1, Seq::empty()) == Some((kv.0, k1)));
    assert(((kv.0, kv.1)) == kv);
    assert(spec_parse_member(s, i) == Some((kv, i + w.len())));
}

/// A written member list followed by a closing brace reads back as
/// those members.
proof fn lemma_parse_members_of_write(fields: Seq<(Seq<char>, JsonV)>, s: Seq<char>, i: int)
    requires
        spec_wf_fields(fields),
        0 <= i,
        i + spec_write_fields(fields).len() + 1 <= s.len(),
        s.subrange(i, i + spec_write_fields(fields).len()) == spec_write_fields(fields),
        s[i + spec_write_fields(fields).len()] == '}',
    ensures
        spec_parse_members(s, i) == Some((fields, i + spec_write_fields(fields).len() + 1)),
    decreases fields, 2int,
{
    let wf = spec_write_fields(fields);
    if fields.len() == 0 {
        assert(wf.len() == 0);
        assert(s[i] == '}');
    } else {
        lemma_write_fields_split(fields);
        let w0 = spec_member_text(fields[0]);
        let tail = spec_write_fields_tail(fields.drop_first());
        assert(wf == w0 + tail);
        assert(w0.len() >= 1);
        assert(s[i] == '"') by {
            assert(s.subrange(i, i + wf.len())[0] == wf[0]);
            assert(wf[0] == w0[0]);
            assert(w0[0] == '"');
        }
        let k = i + w0.len();
        assert(s.subrange(i, k) =~= w0) by {
            assert forall|j: int| 0 <= j < w0.len() implies s.subrange(i, k)[j] == w0[j] by {
                assert(s.subrange(i, i + wf.len())[j] == wf[j]);
                assert(wf[j] == w0[j]);
            }
        }
        assert(s.subrange(k, k + tail.len()) =~= tail) by {
            assert forall|j: int|
                0 <= j < tail.len() implies s.subrange(k, k + tail.len())[j] == tail[j] by {
                assert(s.subrange(i, i + wf.len())[w0.len() + j] == wf[w0.len() + j]);
                assert(wf[w0.len() + j] == tail[j]);
            }
        }
        assert(s[k + tail.len()] == '}');
        if fields.len() == 1 {
            assert(tail.len() == 0);
            assert(s[k] == '}');
            lemma_parse_member_of_write(fields[0], s, i);
        } else {
            assert(fields.drop_first().len() > 0);
            assert(s[k] == ',') by {
                assert(s.subrange(k, k + tail.len())[0] == tail[0]);
                assert(tail[0] == ',');
            }
            lemma_parse_member_of_write(fields[0], s, i);
        }
        lemma_parse_members_rest_of_write(fields.drop_first(), s, k);
        assert(seq![fields[0]] + fields.drop_first() =~= fields);
    }
}

/// The written tail of a member list, followed by a closing brace,
/// reads back as the remaining members.
proof fn lemma_parse_members_rest_of_write(r: Seq<(Seq<char>, JsonV)>, s: Seq<char>, i: int)
    requires
        spec_wf_fields(r),
        0 <= i,
        i + spec_write_fields_tail(r).len() + 1 <= s.len(),
        s.subrange(i, i + spec_write_fields_tail(r).len()) == spec_write_fields_tail(r),
        s[i + spec_write_fields_tail(r).len()] == '}',
    ensures
        spec_parse_members_rest(s, i) == Some((r, i + spec_write_fields_tail(r).len() + 1)),
    decreases r, 3int,
{
    let tail = spec_write_fields_tail(r);
    if r.len() == 0 {
        assert(tail.len() == 0);
        assert(s[i] == '}');
    } else {
        let wf = spec_write_fields(r);
        assert(tail == seq![','] + wf);
        assert(s[i] == ',') by {
            assert(s.subrange(i, i + tail.len())[0] == tail[0]);
            assert(tail[0] == ',');
        }
        assert(s.subrange(i + 1, i + 1 + wf.len()) =~= wf) by {
            assert forall|j: int|
                0 <= j < wf.len() implies s.subrange(i + 1, i + 1 + wf.len())[j] == wf[j] by {
                assert(s.subrange(i, i + tail.len())[1 + j] == tail[1 + j]);
                assert(tail[1 + j] == wf[j]);
            }
        }
        assert(s[i + 1 + wf.len()] == '}');
        lemma_write_fields_split(r);
        let w0 = spec_member_text(r[0]);
        let tail2 = spec_write_fields_tail(r.drop_first());
        assert(wf == w0 + tail2);
        let k = i + 1 + w0.len();
        assert(s.subrange(i + 1, k) =~= w0) by {
            assert forall|j: int| 0 <= j < w0.len() implies s.subrange(i + 1, k)[j] == w0[j] by {
                assert(s.subrange(i + 1, i + 1 + wf.len())[j] == wf[j]);
                assert(wf[j] == w0[j]);
            }
        }
        assert(s.subrange(k, k + tail2.len()) =~= tail2) by {
            assert forall|j: int|
                0 <= j < tail2.len() implies s.subrange(k, k + tail2.len())[j] == tail2[j] by {
                assert(s.subrange(i + 1, i + 1 + wf.len())[w0.len() + j] == wf[w0.len() + j]);
                assert(wf[w0.len() + j] == tail2[j]);
            }
        }
        assert(s[k + tail2.len()] == '}');
        if r.len() == 1 {
            assert(tail2.len() == 0);
            assert(s[k] == '}');
            lemma_parse_member_of_write(r[0], s, i + 1);
        } else {
            assert(r.drop_first().len() > 0);
            assert(s[k] == ',') by {
                assert(s.subrange(k, k + tail2.len())[0] == tail2[0]);
                assert(tail2[0] == ',');
            }
            lemma_parse_member_of_write(r[0], s, i + 1);
        }
        lemma_parse_members_rest_of_write(r.drop_first(), s, k);
        assert(seq![r[0]] + r.drop_first() =~= r);
    }
}

/// The round trip of the wire format: a well-formed document written
/// by this crate's writer is read back by this crate's reader as
/// exactly the same document.
pub proof fn lemma_parse_json_of_write(v: JsonV)
    requires
        spec_wf_json(v),
    ensures
        spec_parse_json(spec_write_value(v)) == Some(v),
{
    let s = spec_write_value(v);
    assert(s.subrange(0, s.len() as int) =~= s);
    lemma_parse_of_write(v, s, 0);
    assert(spec_all_ws(s, s.len() as int));
}

/// A file's document is well formed: nothing but strings.
proof fn lemma_file_doc_wf(f: FileV)
    ensures
        spec_wf_json(spec_file_json_doc(f)),
{
    let doc = spec_file_json_doc(f);
    let fields = seq![
        ("name"@, JsonV::Text(f.name)),
        ("content"@, JsonV::Text(f.content)),
        ("encoding"@, JsonV::Text(f.encoding)),
    ];
    assert(doc == JsonV::Obj(fields));
    assert forall|k: int| 0 <= k < fields.len() implies spec_wf_json(
        #[trigger] fields[k].1,
    ) by {
        if k == 0 {
            assert(fields[k].1 is Text);
        } else if k == 1 {
            assert(fields[k].1 is Text);
        } else {
            assert(fields[k].1 is Text);
        }
    }
}

/// The body of an execute request reads back as exactly the
/// executor's document: nothing of the request is lost or changed on
/// the wire, as far as this library writes and reads it.
pub proof fn lemma_request_body_reads_back(e: ExecutorV)
    requires
        isize::MIN <= e.compile_timeout <= isize::MAX,
        isize::MIN <= e.run_timeout <= isize::MAX,
        isize::MIN <= e.compile_memory_limit <= isize::MAX,
        isize::MIN <= e.run_memory_limit <= isize::MAX,
    ensures
        spec_parse_json(spec_write_value(spec_executor_json_doc(e))) == Some(
            spec_executor_json_doc(e),
        ),
{
    let doc = spec_executor_json_doc(e);
    let files = JsonV::Arr(Seq::new(e.files.len(), |k: int| spec_file_json_doc(e.files[k])));
    let args = JsonV::Arr(Seq::new(e.args.len(), |k: int| JsonV::Text(e.args[k])));
    let fields = seq![
        ("language"@, JsonV::Text(e.language)),
        ("version"@, JsonV::Text(e.version)),
        ("files"@, files),
        ("stdin"@, JsonV::Text(e.stdin)),
        ("args"@, args),
        ("compile_timeout"@, JsonV::Int(e.compile_timeout)),
        ("run_timeout"@, JsonV::Int(e.run_timeout)),
        ("compile_memory_limit"@, JsonV::Int(e.compile_memory_limit)),
        ("run_memory_limit"@, JsonV::Int(e.run_memory_limit)),
    ];
    assert(doc == JsonV::Obj(fields));
    assert(spec_wf_json(files)) by {
        assert forall|k: int|
            0 <= k < e.files.len() implies spec_wf_json(
            #[trigger] (files->Arr_0)[k],
        ) by {
            assert((files->Arr_0)[k] == spec_file_json_doc(e.files[k]));
            lemma_file_doc_wf(e.files[k]);
        }
    }
    assert(spec_wf_json(args)) by {
        assert forall|k: int|
            0 <= k < e.args.len() implies spec_wf_json(#[trigger] (args->Arr_0)[k]) by {
            assert((args->Arr_0)[k] == JsonV::Text(e.args[k]));
        }
    }
    assert(spec_wf_json(doc)) by {
        assert forall|k: int| 0 <= k < fields.len() implies spec_wf_json(
            #[trigger] fields[k].1,
        ) by {
            if k == 2 {
                assert(fields[k].1 == files);
            } else if k == 4 {
                assert(fields[k].1 == args);
            } else if k == 0 || k == 1 || k == 3 {
                assert(fields[k].1 is Text);
            } else {
                assert(fields[k].1 is Int);
            }
        }
    }
    lemma_parse_json_of_write(doc);
}

/// The round trip for any executor a caller can actually build: the
/// body [`crate::Client::execute_request`] sends for it reads back
/// as exactly the executor's document.
pub proof fn lemma_executor_request_reads_back(ex: &Executor)
    ensures
        spec_parse_json(spec_write_value(spec_executor_json_doc(ex@))) == Some(
            spec_executor_json_doc(ex@),
        ),
{
    lemma_executor_view_limits(ex);
    lemma_request_body_reads_back(ex@);
}

} // verus!
