//! Decoding service documents into the response model: which fields
//! an execution response and a runtime listing must carry, of which
//! kinds, and what becomes of a document that does not fit.
//!
//! Fields are found by name, so the order the service writes them in
//! does not matter, and fields this library does not know are passed
//! over.

use vstd::prelude::*;

use crate::executor::ExecResult;
use crate::executor::ExecResultV;
use crate::executor::ExecResponse;
use crate::executor::ExecResponseV;
use crate::json::Json;
use crate::json::JsonV;
use crate::json::json_view_fields;
use crate::json::json_view_list;
use crate::json::lemma_json_view_fields_index;
use crate::json::lemma_json_view_fields_len;
use crate::json::lemma_json_view_list_index;
use crate::json::lemma_json_view_list_len;
use crate::models::Runtime;
use crate::models::RuntimeV;
use crate::text::str_eq;

verus! {

/// The first value held under `key`, if the object has the field.
pub open spec fn spec_get(fields: Seq<(Seq<char>, JsonV)>, key: Seq<char>) -> Option<JsonV>
    decreases fields,
{
    if fields.len() == 0 {
        None
    } else if fields[0].0 == key {
        Some(fields[0].1)
    } else {
        spec_get(fields.drop_first(), key)
    }
}

/// A field that must hold a string.
pub open spec fn spec_text_field(fields: Seq<(Seq<char>, JsonV)>, key: Seq<char>) -> Option<
    Seq<char>,
> {
    match spec_get(fields, key) {
        Some(JsonV::Text(t)) => Some(t),
        _ => None,
    }
}

/// The `code` field: an integer that fits the machine's signed word,
/// or null for a process that never exited.
pub open spec fn spec_code_field(fields: Seq<(Seq<char>, JsonV)>, key: Seq<char>) -> Option<
    Option<int>,
> {
    match spec_get(fields, key) {
        Some(JsonV::Int(n)) => if isize::MIN <= n <= isize::MAX {
            Some(Some(n))
        } else {
            None
        },
        Some(JsonV::Null) => Some(None),
        _ => None,
    }
}

/// The `signal` field: a string, or null for a process that exited
/// on its own.
pub open spec fn spec_signal_field(fields: Seq<(Seq<char>, JsonV)>, key: Seq<char>) -> Option<
    Option<Seq<char>>,
> {
    match spec_get(fields, key) {
        Some(JsonV::Text(t)) => Some(Some(t)),
        Some(JsonV::Null) => Some(None),
        _ => None,
    }
}

/// The result of one phase, as the service sends it: an object with
/// `stdout`, `stderr` and `output` strings, an integer-or-null
/// `code`, and a string-or-null `signal`.
pub open spec fn spec_result_of_json(v: JsonV) -> Option<ExecResultV> {
    match v {
        JsonV::Obj(fields) => {
            match (
                spec_text_field(fields, "stdout"@),
                spec_text_field(fields, "stderr"@),
                spec_text_field(fields, "output"@),
                spec_code_field(fields, "code"@),
                spec_signal_field(fields, "signal"@),
            ) {
                (Some(stdout), Some(stderr), Some(output), Some(code), Some(signal)) => Some(
                    ExecResultV { stdout, stderr, output, code, signal },
                ),
                _ => None,
            }
        },
        _ => None,
    }
}

/// A full execution response, as the service sends it: `language`
/// and `version` strings, a `run` result, and a `compile` result that
/// may be null or missing for languages without a compile phase.  The
/// HTTP status the body came with is carried along.
pub open spec fn spec_response_of_json(v: JsonV, status: int) -> Option<ExecResponseV> {
    match v {
        JsonV::Obj(fields) => {
            let compile = match spec_get(fields, "compile"@) {
                None => Some(None),
                Some(JsonV::Null) => Some(None),
                Some(cv) => match spec_result_of_json(cv) {
                    Some(c) => Some(Some(c)),
                    None => None,
                },
            };
            let run = match spec_get(fields, "run"@) {
                Some(rv) => spec_result_of_json(rv),
                None => None,
            };
            match (
                spec_text_field(fields, "language"@),
                spec_text_field(fields, "version"@),
                run,
                compile,
            ) {
                (Some(language), Some(version), Some(r), Some(c)) => Some(
                    ExecResponseV { language, version, run: r, compile: c, status },
                ),
                _ => None,
            }
        },
        _ => None,
    }
}

/// A list of strings, refused as soon as one element is not a
/// string.
pub open spec fn spec_texts_of(l: Seq<JsonV>) -> Option<Seq<Seq<char>>>
    decreases l,
{
    if l.len() == 0 {
        Some(Seq::empty())
    } else {
        match l[0] {
            JsonV::Text(t) => match spec_texts_of(l.drop_first()) {
                Some(rest) => Some(seq![t] + rest),
                None => None,
            },
            _ => None,
        }
    }
}

/// One runtime, as the discovery call sends it: `language` and
/// `version` strings and an `aliases` array of strings.
pub open spec fn spec_runtime_of_json(v: JsonV) -> Option<RuntimeV> {
    match v {
        JsonV::Obj(fields) => {
            let aliases = match spec_get(fields, "aliases"@) {
                Some(JsonV::Arr(items)) => spec_texts_of(items),
                _ => None,
            };
            match (
                spec_text_field(fields, "language"@),
                spec_text_field(fields, "version"@),
                aliases,
            ) {
                (Some(language), Some(version), Some(a)) => Some(
                    RuntimeV { language, version, aliases: a },
                ),
                _ => None,
            }
        },
        _ => None,
    }
}

/// A sequence of runtimes, refused as soon as one element does not
/// describe a runtime.
pub open spec fn spec_runtime_seq(l: Seq<JsonV>) -> Option<Seq<RuntimeV>>
    decreases l,
{
    if l.len() == 0 {
        Some(Seq::empty())
    } else {
        match spec_runtime_of_json(l[0]) {
            Some(rt) => match spec_runtime_seq(l.drop_first()) {
                Some(rest) => Some(seq![rt] + rest),
                None => None,
            },
            None => None,
        }
    }
}

/// The runtime listing, as the discovery call sends it: an array of
/// runtimes, in the service's order.
pub open spec fn spec_runtimes_of_json(v: JsonV) -> Option<Seq<RuntimeV>> {
    match v {
        JsonV::Arr(items) => spec_runtime_seq(items),
        _ => None,
    }
}

// ---------------------------------------------------------------
// The decoders
// ---------------------------------------------------------------

/// Finds the first field held under `key`, exactly as [`spec_get`]
/// says.
fn get_field<'a>(fields: &'a Vec<(String, Json)>, key: &str) -> (r: Option<&'a Json>)
    ensures
        match r {
            Some(j) => spec_get(json_view_fields(fields@), key@) == Some(j@),
            None => spec_get(json_view_fields(fields@), key@) is None,
        },
{
    proof {
        lemma_json_view_fields_len(fields@);
    }
    let ghost whole = json_view_fields(fields@);
    let n = fields.len();
    proof {
        assert(whole.subrange(0, n as int) =~= whole);
    }
    let mut i: usize = 0;
    while i < n
        invariant
            i <= n,
            n == fields.len(),
            whole == json_view_fields(fields@),
            whole.len() == n,
            spec_get(whole, key@) == spec_get(whole.subrange(i as int, n as int), key@),
        decreases n - i,
    {
        proof {
            lemma_json_view_fields_index(fields@, i as int);
            assert(whole.subrange(i as int, n as int)[0] == whole[i as int]);
        }
        if str_eq(fields[i].0.as_str(), key) {
            return Some(&fields[i].1);
        }
        proof {
            assert(whole.subrange(i as int, n as int).drop_first() =~= whole.subrange(
                i + 1,
                n as int,
            ));
        }
        i = i + 1;
    }
    proof {
        assert(whole.subrange(n as int, n as int).len() == 0);
    }
    None
}

/// Reads a string field, exactly as [`spec_text_field`] says.
fn text_field(fields: &Vec<(String, Json)>, key: &str) -> (r: Option<String>)
    ensures
        match r {
            Some(s) => spec_text_field(json_view_fields(fields@), key@) == Some(s@),
            None => spec_text_field(json_view_fields(fields@), key@) is None,
        },
{
    match get_field(fields, key) {
        Some(Json::Text(s)) => Some(s.clone()),
        _ => None,
    }
}

/// Reads the `code` field, exactly as [`spec_code_field`] says.
fn code_field(fields: &Vec<(String, Json)>, key: &str) -> (r: Option<Option<isize>>)
    ensures
        match r {
            Some(Some(c)) => spec_code_field(json_view_fields(fields@), key@) == Some(
                Some(c as int),
            ),
            Some(None) => spec_code_field(json_view_fields(fields@), key@) == Some(
                Option::<int>::None,
            ),
            None => spec_code_field(json_view_fields(fields@), key@) is None,
        },
{
    match get_field(fields, key) {
        Some(Json::Int(n)) => {
            if isize::MIN as i64 <= *n && *n <= isize::MAX as i64 {
                Some(Some(*n as isize))
            } else {
                None
            }
        },
        Some(Json::Null) => Some(None),
        _ => None,
    }
}

/// Reads the `signal` field, exactly as [`spec_signal_field`] says.
fn signal_field(fields: &Vec<(String, Json)>, key: &str) -> (r: Option<Option<String>>)
    ensures
        match r {
            Some(Some(s)) => spec_signal_field(json_view_fields(fields@), key@) == Some(
                Some(s@),
            ),
            Some(None) => spec_signal_field(json_view_fields(fields@), key@) == Some(
                Option::<Seq<char>>::None,
            ),
            None => spec_signal_field(json_view_fields(fields@), key@) is None,
        },
{
    match get_field(fields, key) {
        Some(Json::Text(s)) => Some(Some(s.clone())),
        Some(Json::Null) => Some(None),
        _ => None,
    }
}

/// Decodes one phase's result, exactly as [`spec_result_of_json`]
/// says.
pub(crate) fn result_of_json(j: &Json) -> (r: Option<ExecResult>)
    ensures
        match r {
            Some(res) => spec_result_of_json(j@) == Some(res@),
            None => spec_result_of_json(j@) is None,
        },
{
    match j {
        Json::Obj(fields) => {
            match (
                text_field(fields, "stdout"),
                text_field(fields, "stderr"),
                text_field(fields, "output"),
                code_field(fields, "code"),
                signal_field(fields, "signal"),
            ) {
                (Some(stdout), Some(stderr), Some(output), Some(code), Some(signal)) => Some(
                    ExecResult::new(stdout, stderr, output, code, signal),
                ),
                _ => None,
            }
        },
        _ => None,
    }
}

/// Decodes a full execution response, exactly as
/// [`spec_response_of_json`] says.
pub(crate) fn response_of_json(j: &Json, status: u16) -> (r: Option<ExecResponse>)
    ensures
        match r {
            Some(resp) => spec_response_of_json(j@, status as int) == Some(resp@),
            None => spec_response_of_json(j@, status as int) is None,
        },
{
    match j {
        Json::Obj(fields) => {
            let compile: Option<Option<ExecResult>> = match get_field(fields, "compile") {
                None => Some(None),
                Some(Json::Null) => Some(None),
                Some(cv) => match result_of_json(cv) {
                    Some(c) => Some(Some(c)),
                    None => None,
                },
            };
            let run: Option<ExecResult> = match get_field(fields, "run") {
                Some(rv) => result_of_json(rv),
                None => None,
            };
            match (
                text_field(fields, "language"),
                text_field(fields, "version"),
                run,
                compile,
            ) {
                (Some(language), Some(version), Some(r0), Some(c0)) => Some(
                    ExecResponse::new(language, version, r0, c0, status),
                ),
                _ => None,
            }
        },
        _ => None,
    }
}

/// Decodes a list of strings, exactly as [`spec_texts_of`] says.
fn texts_of(items: &Vec<Json>) -> (r: Option<Vec<String>>)
    ensures
        match r {
            Some(v) => spec_texts_of(json_view_list(items@)) == Some(v.deep_view()),
            None => spec_texts_of(json_view_list(items@)) is None,
        },
{
    proof {
        lemma_json_view_list_len(items@);
    }
    let ghost whole = json_view_list(items@);
    let n = items.len();
    proof {
        assert(whole.subrange(0, n as int) =~= whole);
    }
    let mut out: Vec<String> = Vec::new();
    let mut i: usize = 0;
    while i < n
        invariant
            i <= n,
            n == items.len(),
            whole == json_view_list(items@),
            whole.len() == n,
            spec_texts_of(whole) == (match spec_texts_of(whole.subrange(i as int, n as int)) {
                Some(rest) => Some(out.deep_view() + rest),
                None => None::<Seq<Seq<char>>>,
            }),
        decreases n - i,
    {
        proof {
            lemma_json_view_list_index(items@, i as int);
            assert(whole.subrange(i as int, n as int)[0] == whole[i as int]);
            assert(whole.subrange(i as int, n as int).drop_first() =~= whole.subrange(
                i + 1,
                n as int,
            ));
        }
        let ghost outv = out.deep_view();
        match &items[i] {
            Json::Text(s) => {
                out.push(s.clone());
                proof {
                    assert(out.deep_view() =~= outv.push(whole[i as int]->Text_0));
                    assert forall|rest: Seq<Seq<char>>|
                        outv + (seq![whole[i as int]->Text_0] + rest) =~= out.deep_view()
                            + rest by {}
                }
            },
            _ => {
                proof {
                    assert(spec_texts_of(whole.subrange(i as int, n as int)) is None);
                }
                return None;
            },
        }
        i = i + 1;
    }
    proof {
        assert(whole.subrange(n as int, n as int).len() == 0);
        assert(out.deep_view() + Seq::<Seq<char>>::empty() =~= out.deep_view());
    }
    Some(out)
}

/// Decodes one runtime, exactly as [`spec_runtime_of_json`] says.
pub(crate) fn runtime_of_json(j: &Json) -> (r: Option<Runtime>)
    ensures
        match r {
            Some(rt) => spec_runtime_of_json(j@) == Some(rt@),
            None => spec_runtime_of_json(j@) is None,
        },
{
    match j {
        Json::Obj(fields) => {
            let aliases: Option<Vec<String>> = match get_field(fields, "aliases") {
                Some(Json::Arr(items)) => texts_of(items),
                _ => None,
            };
            match (text_field(fields, "language"), text_field(fields, "version"), aliases) {
                (Some(language), Some(version), Some(a)) => Some(
                    Runtime::new(language, version, a),
                ),
                _ => None,
            }
        },
        _ => None,
    }
}

/// Decodes the runtime listing, exactly as [`spec_runtimes_of_json`]
/// says.
pub(crate) fn runtimes_of_json(j: &Json) -> (r: Option<Vec<Runtime>>)
    ensures
        match r {
            Some(v) => spec_runtimes_of_json(j@) == Some(v.deep_view()),
            None => spec_runtimes_of_json(j@) is None,
        },
{
    match j {
        Json::Arr(items) => {
            proof {
                lemma_json_view_list_len(items@);
            }
            let ghost whole = json_view_list(items@);
            let n = items.len();
            proof {
                assert(whole.subrange(0, n as int) =~= whole);
                assert(j@ == JsonV::Arr(whole));
            }
            let mut out: Vec<Runtime> = Vec::new();
            let mut i: usize = 0;
            while i < n
                invariant
                    i <= n,
                    n == items.len(),
                    whole == json_view_list(items@),
                    whole.len() == n,
                    j@ == JsonV::Arr(whole),
                    spec_runtime_seq(whole) == (match spec_runtime_seq(
                        whole.subrange(i as int, n as int),
                    ) {
                        Some(rest) => Some(out.deep_view() + rest),
                        None => None::<Seq<RuntimeV>>,
                    }),
                decreases n - i,
            {
                proof {
                    lemma_json_view_list_index(items@, i as int);
                    assert(whole.subrange(i as int, n as int)[0] == whole[i as int]);
                    assert(whole.subrange(i as int, n as int).drop_first() =~= whole.subrange(
                        i + 1,
                        n as int,
                    ));
                }
                let ghost outv = out.deep_view();
                match runtime_of_json(&items[i]) {
                    Some(rt) => {
                        let ghost rtv = rt@;
                        out.push(rt);
                        proof {
                            assert(out.deep_view() =~= outv.push(rtv));
                            assert forall|rest: Seq<RuntimeV>|
                                outv + (seq![rtv] + rest) =~= out.deep_view() + rest by {}
                        }
                    },
                    None => {
                        proof {
                            assert(spec_runtime_seq(whole.subrange(i as int, n as int)) is None);
                            assert(spec_runtime_seq(whole) is None);
                            assert(j@ == JsonV::Arr(whole));
                            assert(spec_runtimes_of_json(j@) is None);
                        }
                        return None;
                    },
                }
                i = i + 1;
            }
            proof {
                assert(whole.subrange(n as int, n as int).len() == 0);
                assert(out.deep_view() + Seq::<RuntimeV>::empty() =~= out.deep_view());
            }
            Some(out)
        },
        _ => None,
    }
}

} // verus!
