//! The streaming response pipeline: envelopes around decoded reply
//! chunks, the frame parser for a complete streamed body, the ordered
//! chunk sequence it yields, and the producer state machine of the
//! lazily-consumed streaming path.
use vstd::prelude::*;

use super::function::{FunctionCall, function_call_decodable, is_function_call_json};
use crate::errors::ErnieError;
use crate::json::{
    JsonValue, json_from_str, json_parse, spec_get, spec_usage_counter, usage_counter_of,
};

verus! {

/// One reply unit of the service: an immutable wrapper around one decoded
/// JSON value, with typed, fallible field extraction.
#[derive(Debug, PartialEq, Eq)]
pub struct Response {
    raw_response: JsonValue,
}

impl View for Response {
    type V = JsonValue;

    closed spec fn view(&self) -> JsonValue {
        self.raw_response
    }
}

impl DeepView for Response {
    type V = JsonValue;

    open spec fn deep_view(&self) -> JsonValue {
        self.view()
    }
}

/// What extracting the textual `result` field of an envelope yields.
pub enum TextOutcome {
    Text(Seq<char>),
    NotString,
    Missing,
}

/// The textual `result` field of the value `v`: present and a string,
/// present with another type, or absent.
pub open spec fn text_result_of(v: JsonValue) -> TextOutcome {
    match spec_get(v, "result"@) {
        Some(JsonValue::Str(s)) => TextOutcome::Text(s@),
        Some(_) => TextOutcome::NotString,
        None => TextOutcome::Missing,
    }
}

impl Response {
    /// Wrap one decoded JSON value.
    pub fn new(raw_response: JsonValue) -> (r: Response)
        ensures
            r@ == raw_response,
    {
        Response { raw_response }
    }

    /// The wrapped JSON value itself.
    pub fn get_raw_response(&self) -> (r: &JsonValue)
        ensures
            *r == self@,
    {
        &self.raw_response
    }

    /// The top-level field under `key`, when the reply is an object
    /// carrying it.
    pub fn get<'a>(&'a self, key: &str) -> (r: Option<&'a JsonValue>)
        ensures
            match r {
                Some(f) => spec_get(self@, key@) == Some(*f),
                None => spec_get(self@, key@) is None,
            },
    {
        self.raw_response.get(key)
    }

    /// The text of the chat reply: the string field `result`.
    ///
    /// Fails when `result` is absent, and when it is present with another
    /// type; each failure keeps its own description.
    pub fn get_chat_result(&self) -> (r: Result<String, ErnieError>)
        ensures
            match text_result_of(self@) {
                TextOutcome::Text(s) => r matches Ok(t) && t@ == s,
                TextOutcome::NotString => r matches Err(ErnieError::GetResponseError(m)) && m@
                    == "result is not a string"@,
                TextOutcome::Missing => r matches Err(ErnieError::GetResponseError(m)) && m@
                    == "result is not found"@,
            },
    {
        match self.raw_response.get("result") {
            Some(v) => match v {
                JsonValue::Str(s) => Ok(s.clone()),
                _ => Err(
                    ErnieError::GetResponseError(String::from_str("result is not a string")),
                ),
            },
            None => Err(ErnieError::GetResponseError(String::from_str("result is not found"))),
        }
    }

    /// The tokens the prompt used, read from the best-effort `usage`
    /// telemetry; `None` whenever the path to the counter is not there.
    pub fn get_prompt_tokens(&self) -> (r: Option<u64>)
        ensures
            r == spec_usage_counter(self@, "prompt_tokens"@),
    {
        self.usage_counter("prompt_tokens")
    }

    /// The tokens the completion used, read as `get_prompt_tokens` does.
    pub fn get_completion_tokens(&self) -> (r: Option<u64>)
        ensures
            r == spec_usage_counter(self@, "completion_tokens"@),
    {
        self.usage_counter("completion_tokens")
    }

    /// The tokens the whole exchange used, read as `get_prompt_tokens`
    /// does.
    pub fn get_total_tokens(&self) -> (r: Option<u64>)
        ensures
            r == spec_usage_counter(self@, "total_tokens"@),
    {
        self.usage_counter("total_tokens")
    }

    fn usage_counter(&self, key: &str) -> (r: Option<u64>)
        ensures
            r == spec_usage_counter(self@, key@),
    {
        usage_counter_of(&self.raw_response, key)
    }

    /// The structured function call of the reply, decoded from the
    /// optional `function_call` object. Absence is tolerated and yields
    /// `Ok(None)`; a field that is present but not structurally valid is
    /// a failure of its own, never mistaken for absence.
    pub fn get_function_call(&self) -> (r: Result<Option<FunctionCall>, ErnieError>)
        ensures
            match spec_get(self@, "function_call"@) {
                Some(fc) => if function_call_decodable(fc) {
                    r matches Ok(Some(c)) && is_function_call_json(fc, c)
                } else {
                    r matches Err(e) && (e matches ErnieError::GetResponseError(m) && m@
                        == "function_call is not valid"@)
                },
                None => r matches Ok(c) && c is None,
            },
    {
        let fc = match self.raw_response.get("function_call") {
            Some(fc) => fc,
            None => {
                return Ok(None);
            },
        };
        let name = match fc.get("name") {
            Some(JsonValue::Str(s)) => s.clone(),
            _ => {
                return Err(
                    ErnieError::GetResponseError(String::from_str("function_call is not valid")),
                );
            },
        };
        let arguments = match fc.get("arguments") {
            Some(JsonValue::Str(s)) => s.clone(),
            _ => {
                return Err(
                    ErnieError::GetResponseError(String::from_str("function_call is not valid")),
                );
            },
        };
        let thoughts = match fc.get("thoughts") {
            Some(JsonValue::Str(s)) => Some(s.clone()),
            Some(JsonValue::Null) => None,
            None => None,
            _ => {
                return Err(
                    ErnieError::GetResponseError(String::from_str("function_call is not valid")),
                );
            },
        };
        Ok(Some(FunctionCall { name, arguments, thoughts }))
    }
}

/// A frame separator (a blank line) starts at position `j` of the body.
pub open spec fn sep_at(s: Seq<char>, j: int) -> bool {
    0 <= j && j + 1 < s.len() && s[j] == '\n' && s[j + 1] == '\n'
}

/// The position of the first frame separator of the body, if any.
pub open spec fn find_sep(s: Seq<char>) -> Option<int>
    decreases s.len(),
{
    if s.len() < 2 {
        None
    } else if s[0] == '\n' && s[1] == '\n' {
        Some(0)
    } else {
        match find_sep(s.skip(1)) {
            Some(j) => Some(j + 1),
            None => None,
        }
    }
}

/// `find_sep` yields the least separator position, and `None` exactly
/// when the body carries no separator.
proof fn lemma_find_sep_spec(s: Seq<char>)
    ensures
        match find_sep(s) {
            Some(j) => sep_at(s, j) && (forall|k: int| 0 <= k < j ==> !sep_at(s, k)),
            None => forall|k: int| !sep_at(s, k),
        },
    decreases s.len(),
{
    if s.len() < 2 {
    } else if s[0] == '\n' && s[1] == '\n' {
    } else {
        lemma_find_sep_spec(s.skip(1));
        assert forall|k: int| 1 <= k implies sep_at(s, k) == sep_at(s.skip(1), k - 1) by {
            if 0 <= k - 1 && k < s.len() - 1 {
                assert(s.skip(1)[k - 1] == s[k]);
                assert(s.skip(1)[k] == s[k + 1]);
            }
        }
        assert(!sep_at(s, 0));
    }
}

/// The body split on the frame separator, left to right, the separators
/// themselves dropped: an empty body yields one empty fragment.
pub open spec fn split_frames(s: Seq<char>) -> Seq<Seq<char>>
    decreases s.len(),
    via split_frames_decreases
{
    match find_sep(s) {
        None => seq![s],
        Some(j) => seq![s.take(j)] + split_frames(s.skip(j + 2)),
    }
}

#[via_fn]
proof fn split_frames_decreases(s: Seq<char>) {
    lemma_find_sep_spec(s);
}

/// The fragment starts with the literal frame marker `data: `.
pub open spec fn has_marker(p: Seq<char>) -> bool {
    &&& p.len() >= 6
    &&& p[0] == 'd'
    &&& p[1] == 'a'
    &&& p[2] == 't'
    &&& p[3] == 'a'
    &&& p[4] == ':'
    &&& p[5] == ' '
}

/// The fragment's payload: what follows the frame marker.
pub open spec fn frame_payload(p: Seq<char>) -> Seq<char> {
    p.skip(6)
}

/// What one fragment of a split body contributes to the parse.
pub enum FragOutcome {
    Skip,
    Chunk(JsonValue),
    NoMarker,
    Undecodable,
}

/// One fragment's contribution: empty fragments are skipped, a fragment
/// without the marker fails, and otherwise the payload must decode as
/// one JSON object — a payload that is not valid JSON, or decodes to a
/// non-object, is rejected here, so that every envelope wraps an object.
pub open spec fn frag_outcome(p: Seq<char>) -> FragOutcome {
    if p.len() == 0 {
        FragOutcome::Skip
    } else if !has_marker(p) {
        FragOutcome::NoMarker
    } else {
        match json_parse(frame_payload(p)) {
            Some(v) => if v is Obj {
                FragOutcome::Chunk(v)
            } else {
                FragOutcome::Undecodable
            },
            None => FragOutcome::Undecodable,
        }
    }
}

/// The outcome of parsing a whole body: the decoded chunks in frame
/// order, or the first failing fragment (fail-fast, no partial result).
pub enum BodyParse {
    Frames(Seq<JsonValue>),
    NoMarker(Seq<char>),
    Undecodable(Seq<char>),
}

/// Fold the fragments left to right; the first failure wins, and a
/// failure carries the offending fragment (for a missing marker) or the
/// offending payload (for one that does not decode to an object).
pub open spec fn parse_parts(parts: Seq<Seq<char>>) -> BodyParse
    decreases parts.len(),
{
    if parts.len() == 0 {
        BodyParse::Frames(seq![])
    } else {
        match frag_outcome(parts[0]) {
            FragOutcome::Skip => parse_parts(parts.skip(1)),
            FragOutcome::NoMarker => BodyParse::NoMarker(parts[0]),
            FragOutcome::Undecodable => BodyParse::Undecodable(frame_payload(parts[0])),
            FragOutcome::Chunk(v) => match parse_parts(parts.skip(1)) {
                BodyParse::Frames(vs) => BodyParse::Frames(seq![v] + vs),
                e => e,
            },
        }
    }
}

/// The parse of a complete body text.
pub open spec fn parse_body(text: Seq<char>) -> BodyParse {
    parse_parts(split_frames(text))
}

/// The description reported for a fragment without the frame marker.
pub open spec fn no_marker_message(p: Seq<char>) -> Seq<char> {
    "json_str is not found in this part of data: "@ + p
}

/// The description reported for a payload that does not decode to a
/// JSON object.
pub open spec fn undecodable_message(p: Seq<char>) -> Seq<char> {
    "invalid json object in this part of data: "@ + p
}

proof fn lemma_find_sep_at(s: Seq<char>, start: int, i: int)
    requires
        0 <= start <= i,
        i + 1 < s.len(),
        s[i] == '\n',
        s[i + 1] == '\n',
        forall|k: int| start <= k < i ==> !sep_at(s, k),
    ensures
        find_sep(s.skip(start)) == Some(i - start),
{
    let t = s.skip(start);
    assert forall|k: int| 0 <= k implies sep_at(t, k) == sep_at(s, start + k) by {
        if k + 1 < t.len() {
            assert(t[k] == s[start + k]);
            assert(t[k + 1] == s[start + k + 1]);
        }
    }
    assert(sep_at(t, i - start));
    lemma_find_sep_spec(t);
    match find_sep(t) {
        Some(j) => {
            if j < i - start {
                assert(sep_at(s, start + j));
                assert(false);
            }
            if j > i - start {
                assert(!sep_at(t, i - start));
                assert(false);
            }
        },
        None => {
            assert(!sep_at(t, i - start));
            assert(false);
        },
    }
}

proof fn lemma_split_step(s: Seq<char>, start: int, i: int)
    requires
        0 <= start <= i,
        i + 1 < s.len(),
        s[i] == '\n',
        s[i + 1] == '\n',
        forall|k: int| start <= k < i ==> !sep_at(s, k),
    ensures
        split_frames(s.skip(start)) == seq![s.subrange(start, i)] + split_frames(s.skip(i + 2)),
{
    let t = s.skip(start);
    lemma_find_sep_at(s, start, i);
    assert(t.take(i - start) =~= s.subrange(start, i));
    assert(t.skip(i - start + 2) =~= s.skip(i + 2));
    assert(split_frames(t) == seq![t.take(i - start)] + split_frames(t.skip(i - start + 2)));
    assert(seq![t.take(i - start)] + split_frames(t.skip(i - start + 2)) =~= seq![
        s.subrange(start, i),
    ] + split_frames(s.skip(i + 2)));
}

proof fn lemma_split_last(s: Seq<char>, start: int)
    requires
        0 <= start <= s.len(),
        forall|k: int| start <= k ==> !sep_at(s, k),
    ensures
        split_frames(s.skip(start)) == seq![s.skip(start)],
{
    let t = s.skip(start);
    assert forall|k: int| !sep_at(t, k) by {
        if 0 <= k && k + 1 < t.len() {
            assert(t[k] == s[start + k]);
            assert(t[k + 1] == s[start + k + 1]);
            assert(!sep_at(s, start + k));
        }
    }
    lemma_find_sep_spec(t);
    if find_sep(t) is Some {
        assert(sep_at(t, find_sep(t)->0));
        assert(false);
    }
}

proof fn lemma_parse_parts_cons(p: Seq<char>, rest: Seq<Seq<char>>)
    ensures
        parse_parts(seq![p] + rest) == (match frag_outcome(p) {
            FragOutcome::Skip => parse_parts(rest),
            FragOutcome::NoMarker => BodyParse::NoMarker(p),
            FragOutcome::Undecodable => BodyParse::Undecodable(frame_payload(p)),
            FragOutcome::Chunk(v) => match parse_parts(rest) {
                BodyParse::Frames(vs) => BodyParse::Frames(seq![v] + vs),
                e => e,
            },
        }),
{
    let q = seq![p] + rest;
    assert(q.len() == 1 + rest.len());
    assert(q[0] == p);
    assert(q.skip(1) =~= rest);
}

/// Apply one fragment of a split body: push its decoded chunk, skip it
/// when empty, or report the fragment's failure.
fn apply_fragment(out: &mut Vec<Response>, frag: &str) -> (r: Result<(), ErnieError>)
    ensures
        match frag_outcome(frag@) {
            FragOutcome::Skip => r is Ok && final(out).deep_view() == old(out).deep_view(),
            FragOutcome::Chunk(v) => r is Ok && final(out).deep_view() == old(
                out,
            ).deep_view().push(v),
            FragOutcome::NoMarker => final(out).deep_view() == old(out).deep_view() && (r matches
                Err(e) && (e matches ErnieError::GetResponseError(m) && m@ == no_marker_message(
                frag@,
            ))),
            FragOutcome::Undecodable => final(out).deep_view() == old(out).deep_view() && (r
                matches Err(e) && (e matches ErnieError::GetResponseError(m) && m@
                == undecodable_message(frame_payload(frag@)))),
        },
{
    let n = frag.unicode_len();
    if n == 0 {
        return Ok(());
    }
    let marker_ok = n >= 6 && frag.get_char(0) == 'd' && frag.get_char(1) == 'a' && frag.get_char(
        2,
    ) == 't' && frag.get_char(3) == 'a' && frag.get_char(4) == ':' && frag.get_char(5) == ' ';
    if !marker_ok {
        return Err(
            ErnieError::GetResponseError(
                String::from_str("json_str is not found in this part of data: ").concat(frag),
            ),
        );
    }
    let payload = frag.substring_char(6, n);
    proof {
        assert(payload@ =~= frame_payload(frag@));
    }
    match json_from_str(payload) {
        Some(v) => match v {
            JsonValue::Obj(_) => {
                let ghost vv = v;
                let ghost prior = out.deep_view();
                out.push(Response::new(v));
                proof {
                    assert(out.deep_view() =~= prior.push(vv));
                }
                Ok(())
            },
            _ => Err(
                ErnieError::GetResponseError(
                    String::from_str("invalid json object in this part of data: ").concat(
                        payload,
                    ),
                ),
            ),
        },
        None => Err(
            ErnieError::GetResponseError(
                String::from_str("invalid json object in this part of data: ").concat(payload),
            ),
        ),
    }
}

/// The Ordered Chunk Sequence: the finite, ordered chunks of one
/// complete streamed body, in frame order.
#[derive(Debug, PartialEq, Eq)]
pub struct Responses {
    responses: Vec<Response>,
}

impl View for Responses {
    type V = Seq<JsonValue>;

    closed spec fn view(&self) -> Seq<JsonValue> {
        self.responses.deep_view()
    }
}

impl Responses {
    /// Parse one complete streamed body: split it on blank lines, demand
    /// the `data: ` marker of every non-empty fragment, and decode each
    /// payload as one JSON object, in order. One bad fragment fails the
    /// whole parse, and no envelope ever wraps a non-object.
    ///
    /// An empty body, or one of separators alone, yields an empty
    /// sequence.
    pub fn from_text(text: String) -> (r: Result<Responses, ErnieError>)
        ensures
            match parse_body(text@) {
                BodyParse::Frames(vs) => r matches Ok(resps) && resps@ == vs,
                BodyParse::NoMarker(p) => r matches Err(e) && (e matches
                    ErnieError::GetResponseError(m) && m@ == no_marker_message(p)),
                BodyParse::Undecodable(p) => r matches Err(e) && (e matches
                    ErnieError::GetResponseError(m) && m@ == undecodable_message(p)),
            },
    {
        let s = text.as_str();
        let n = s.unicode_len();
        let mut out: Vec<Response> = Vec::new();
        let mut start: usize = 0;
        let mut i: usize = 0;
        proof {
            assert(s@.skip(0) =~= s@);
            assert(out.deep_view() =~= Seq::<JsonValue>::empty());
            assert(forall|vs: Seq<JsonValue>|
                out.deep_view() + vs =~= vs);
        }
        while i < n
            invariant
                s@ == text@,
                n == s@.len(),
                0 <= start <= i <= n,
                forall|k: int| start <= k < i ==> !sep_at(s@, k),
                ({
                    let rest = parse_parts(split_frames(s@.skip(start as int)));
                    match rest {
                        BodyParse::Frames(vs) => parse_body(s@) == BodyParse::Frames(
                            out.deep_view() + vs,
                        ),
                        _ => parse_body(s@) == rest,
                    }
                }),
            decreases n - i,
        {
            if i + 1 < n && s.get_char(i) == '\n' && s.get_char(i + 1) == '\n' {
                let frag = s.substring_char(start, i);
                proof {
                    lemma_split_step(s@, start as int, i as int);
                    lemma_parse_parts_cons(frag@, split_frames(s@.skip(i as int + 2)));
                }
                let ghost prior = out.deep_view();
                match apply_fragment(&mut out, frag) {
                    Ok(()) => {},
                    Err(e) => {
                        return Err(e);
                    },
                }
                proof {
                    match frag_outcome(frag@) {
                        FragOutcome::Chunk(v) => {
                            assert(forall|vs: Seq<JsonValue>|
                                prior + (seq![v] + vs) =~= prior.push(v) + vs);
                        },
                        _ => {},
                    }
                }
                start = i + 2;
                i = i + 2;
            } else {
                i = i + 1;
            }
        }
        let frag = s.substring_char(start, n);
        proof {
            lemma_split_last(s@, start as int);
            lemma_parse_parts_cons(frag@, Seq::empty());
            assert(seq![frag@] + Seq::<Seq<char>>::empty() =~= seq![frag@]);
            assert(frag@ =~= s@.skip(start as int));
        }
        let ghost prior = out.deep_view();
        match apply_fragment(&mut out, frag) {
            Ok(()) => {},
            Err(e) => {
                return Err(e);
            },
        }
        proof {
            match frag_outcome(frag@) {
                FragOutcome::Chunk(v) => {
                    assert(prior + seq![v] =~= prior.push(v));
                },
                _ => {
                    assert(prior + Seq::<JsonValue>::empty() =~= prior);
                },
            }
            assert(out.deep_view() + Seq::<JsonValue>::empty() =~= out.deep_view());
        }
        Ok(Responses { responses: out })
    }

    /// How many chunks the sequence holds.
    pub fn len(&self) -> (r: usize)
        ensures
            r == self@.len(),
    {
        self.responses.len()
    }

    /// Every chunk's `result` text, in frame order, the first failing
    /// chunk failing the whole read.
    pub fn get_results(&self) -> (r: Result<Vec<String>, ErnieError>)
        ensures
            match results_of(self@) {
                ResultsOutcome::Texts(ts) => r matches Ok(out) && out.deep_view() == ts,
                ResultsOutcome::NotString => r matches Err(e) && (e matches
                    ErnieError::GetResponseError(m) && m@ == "result is not a string"@),
                ResultsOutcome::Missing => r matches Err(e) && (e matches
                    ErnieError::GetResponseError(m) && m@ == "result is not found"@),
            },
    {
        let n = self.responses.len();
        let mut out: Vec<String> = Vec::new();
        let mut i: usize = 0;
        proof {
            assert(self@.skip(0) =~= self@);
            assert(out.deep_view() =~= Seq::<Seq<char>>::empty());
        }
        while i < n
            invariant
                n == self@.len(),
                0 <= i <= n,
                out.deep_view().len() == i,
                ({
                    let rest = results_of(self@.skip(i as int));
                    match rest {
                        ResultsOutcome::Texts(ts) => results_of(self@) == ResultsOutcome::Texts(
                            out.deep_view() + ts,
                        ),
                        _ => results_of(self@) == rest,
                    }
                }),
            decreases n - i,
        {
            proof {
                assert(self@.skip(i as int)[0] == self@[i as int]);
                assert(self@.skip(i as int).skip(1) =~= self@.skip(i as int + 1));
            }
            let ghost prior = out.deep_view();
            match self.responses[i].get_chat_result() {
                Ok(t) => {
                    out.push(t);
                },
                Err(e) => {
                    return Err(e);
                },
            }
            proof {
                match text_result_of(self@[i as int]) {
                    TextOutcome::Text(s) => {
                        assert(out.deep_view() =~= prior.push(s));
                        assert(forall|ts: Seq<Seq<char>>|
                            prior + (seq![s] + ts) =~= prior.push(s) + ts);
                    },
                    _ => {},
                }
            }
            i = i + 1;
        }
        proof {
            assert(out.deep_view() + Seq::<Seq<char>>::empty() =~= out.deep_view());
        }
        Ok(out)
    }

    /// The whole reply: every chunk's `result` text concatenated in
    /// frame order, the first failing chunk failing the whole read.
    pub fn get_whole_result(&self) -> (r: Result<String, ErnieError>)
        ensures
            match whole_of(self@) {
                WholeOutcome::Whole(t) => r matches Ok(w) && w@ == t,
                WholeOutcome::NotString => r matches Err(e) && (e matches
                    ErnieError::GetResponseError(m) && m@ == "result is not a string"@),
                WholeOutcome::Missing => r matches Err(e) && (e matches
                    ErnieError::GetResponseError(m) && m@ == "result is not found"@),
            },
    {
        let n = self.responses.len();
        let mut acc = String::new();
        let mut i: usize = 0;
        proof {
            assert(self@.skip(0) =~= self@);
        }
        while i < n
            invariant
                n == self@.len(),
                0 <= i <= n,
                ({
                    let rest = whole_of(self@.skip(i as int));
                    match rest {
                        WholeOutcome::Whole(t) => whole_of(self@) == WholeOutcome::Whole(
                            acc@ + t,
                        ),
                        _ => whole_of(self@) == rest,
                    }
                }),
            decreases n - i,
        {
            proof {
                assert(self@.skip(i as int)[0] == self@[i as int]);
                assert(self@.skip(i as int).skip(1) =~= self@.skip(i as int + 1));
            }
            let ghost prior = acc@;
            match self.responses[i].get_chat_result() {
                Ok(t) => {
                    acc.append(t.as_str());
                },
                Err(e) => {
                    return Err(e);
                },
            }
            proof {
                match text_result_of(self@[i as int]) {
                    TextOutcome::Text(s) => {
                        assert(forall|t: Seq<char>| (prior + s) + t =~= prior + (s + t));
                    },
                    _ => {},
                }
            }
            i = i + 1;
        }
        proof {
            assert(acc@ + Seq::<char>::empty() =~= acc@);
        }
        Ok(acc)
    }
}

/// What reading every chunk's `result` text yields: the texts in frame
/// order, or the first chunk's failure.
pub enum ResultsOutcome {
    Texts(Seq<Seq<char>>),
    NotString,
    Missing,
}

/// The per-chunk texts of the sequence, first failure first.
pub open spec fn results_of(vs: Seq<JsonValue>) -> ResultsOutcome
    decreases vs.len(),
{
    if vs.len() == 0 {
        ResultsOutcome::Texts(seq![])
    } else {
        match text_result_of(vs[0]) {
            TextOutcome::Text(s) => match results_of(vs.skip(1)) {
                ResultsOutcome::Texts(ts) => ResultsOutcome::Texts(seq![s] + ts),
                e => e,
            },
            TextOutcome::NotString => ResultsOutcome::NotString,
            TextOutcome::Missing => ResultsOutcome::Missing,
        }
    }
}

/// What concatenating every chunk's `result` text yields.
pub enum WholeOutcome {
    Whole(Seq<char>),
    NotString,
    Missing,
}

/// The concatenated text of the sequence, first failure first.
pub open spec fn whole_of(vs: Seq<JsonValue>) -> WholeOutcome
    decreases vs.len(),
{
    if vs.len() == 0 {
        WholeOutcome::Whole(seq![])
    } else {
        match text_result_of(vs[0]) {
            TextOutcome::Text(s) => match whole_of(vs.skip(1)) {
                WholeOutcome::Whole(t) => WholeOutcome::Whole(s + t),
                WholeOutcome::NotString => WholeOutcome::NotString,
                WholeOutcome::Missing => WholeOutcome::Missing,
            },
            TextOutcome::NotString => WholeOutcome::NotString,
            TextOutcome::Missing => WholeOutcome::Missing,
        }
    }
}

/// The concatenation of a list of texts, in order.
pub open spec fn concat_all(ts: Seq<Seq<char>>) -> Seq<char>
    decreases ts.len(),
{
    if ts.len() == 0 {
        seq![]
    } else {
        ts[0] + concat_all(ts.skip(1))
    }
}

/// How many fragments of a split body are frames: the non-empty ones.
pub open spec fn frame_count(parts: Seq<Seq<char>>) -> int
    decreases parts.len(),
{
    if parts.len() == 0 {
        0
    } else {
        (if parts[0].len() == 0 {
            0int
        } else {
            1int
        }) + frame_count(parts.skip(1))
    }
}

proof fn lemma_chunks_per_frame(parts: Seq<Seq<char>>, vs: Seq<JsonValue>)
    requires
        parse_parts(parts) == BodyParse::Frames(vs),
    ensures
        vs.len() == frame_count(parts),
    decreases parts.len(),
{
    if parts.len() == 0 {
    } else {
        match frag_outcome(parts[0]) {
            FragOutcome::Skip => {
                lemma_chunks_per_frame(parts.skip(1), vs);
            },
            FragOutcome::Chunk(v) => {
                match parse_parts(parts.skip(1)) {
                    BodyParse::Frames(vs2) => {
                        lemma_chunks_per_frame(parts.skip(1), vs2);
                        assert(vs == seq![v] + vs2);
                    },
                    _ => {
                        assert(false);
                    },
                }
            },
            _ => {
                assert(false);
            },
        }
    }
}

/// A well-formed body of N frames parses to an Ordered Chunk Sequence of
/// length N: one chunk per non-empty fragment of the split body.
pub proof fn lemma_ordered_sequence_length(text: Seq<char>, vs: Seq<JsonValue>)
    requires
        parse_body(text) == BodyParse::Frames(vs),
    ensures
        vs.len() == frame_count(split_frames(text)),
{
    lemma_chunks_per_frame(split_frames(text), vs);
}

/// When every chunk carries a string `result`, reading the per-chunk
/// texts succeeds and yields exactly one text per chunk.
pub proof fn lemma_results_length(vs: Seq<JsonValue>)
    requires
        forall|k: int| 0 <= k < vs.len() ==> text_result_of(vs[k]) is Text,
    ensures
        results_of(vs) matches ResultsOutcome::Texts(ts) && ts.len() == vs.len(),
    decreases vs.len(),
{
    if vs.len() > 0 {
        assert(text_result_of(vs[0]) is Text);
        assert forall|k: int| 0 <= k < vs.skip(1).len() implies text_result_of(
            vs.skip(1)[k],
        ) is Text by {
            assert(vs.skip(1)[k] == vs[k + 1]);
        }
        lemma_results_length(vs.skip(1));
    }
}

/// The whole result is the concatenation, in frame order, of the
/// per-chunk results, and the two reads fail alike.
pub proof fn lemma_whole_result_is_concat(vs: Seq<JsonValue>)
    ensures
        match results_of(vs) {
            ResultsOutcome::Texts(ts) => whole_of(vs) == WholeOutcome::Whole(concat_all(ts)),
            ResultsOutcome::NotString => whole_of(vs) == WholeOutcome::NotString,
            ResultsOutcome::Missing => whole_of(vs) == WholeOutcome::Missing,
        },
    decreases vs.len(),
{
    if vs.len() == 0 {
    } else {
        lemma_whole_result_is_concat(vs.skip(1));
        match text_result_of(vs[0]) {
            TextOutcome::Text(s) => {
                match results_of(vs.skip(1)) {
                    ResultsOutcome::Texts(ts) => {
                        assert((seq![s] + ts)[0] == s);
                        assert((seq![s] + ts).skip(1) =~= ts);
                    },
                    _ => {},
                }
            },
            _ => {},
        }
    }
}

proof fn lemma_parts_with_bad_fragment(parts: Seq<Seq<char>>, k: int)
    requires
        0 <= k < parts.len(),
        !(frag_outcome(parts[k]) is Skip),
        !(frag_outcome(parts[k]) is Chunk),
    ensures
        !(parse_parts(parts) is Frames),
    decreases parts.len(),
{
    match frag_outcome(parts[0]) {
        FragOutcome::Skip => {
            assert(k != 0);
            assert(parts.skip(1)[k - 1] == parts[k]);
            lemma_parts_with_bad_fragment(parts.skip(1), k - 1);
        },
        FragOutcome::Chunk(_) => {
            assert(k != 0);
            assert(parts.skip(1)[k - 1] == parts[k]);
            lemma_parts_with_bad_fragment(parts.skip(1), k - 1);
        },
        _ => {},
    }
}

/// A body one of whose frames is bad — without the `data: ` marker, or
/// with a payload that is not valid JSON — never parses to a chunk
/// sequence: the whole parse fails and no partial sequence is returned.
pub proof fn lemma_bad_frame_fails_whole_parse(text: Seq<char>, k: int)
    requires
        0 <= k < split_frames(text).len(),
        !(frag_outcome(split_frames(text)[k]) is Skip),
        !(frag_outcome(split_frames(text)[k]) is Chunk),
    ensures
        !(parse_body(text) is Frames),
{
    lemma_parts_with_bad_fragment(split_frames(text), k);
}

proof fn lemma_parse_parts_all_empty(parts: Seq<Seq<char>>)
    requires
        forall|k: int| 0 <= k < parts.len() ==> parts[k].len() == 0,
    ensures
        parse_parts(parts) == BodyParse::Frames(seq![]),
    decreases parts.len(),
{
    if parts.len() > 0 {
        assert(parts[0].len() == 0);
        assert forall|k: int| 0 <= k < parts.skip(1).len() implies parts.skip(1)[k].len()
            == 0 by {
            assert(parts.skip(1)[k] == parts[k + 1]);
        }
        lemma_parse_parts_all_empty(parts.skip(1));
    }
}

/// A body of separators alone (the zero-length body among them) parses
/// to an empty Ordered Chunk Sequence, not an error: such a body is one
/// whose split yields empty fragments only.
pub proof fn lemma_blank_body_parses_empty(text: Seq<char>)
    requires
        forall|k: int|
            0 <= k < split_frames(text).len() ==> #[trigger] split_frames(text)[k].len() == 0,
    ensures
        parse_body(text) == BodyParse::Frames(seq![]),
{
    lemma_parse_parts_all_empty(split_frames(text));
}

proof fn lemma_parts_chunks_are_objects(parts: Seq<Seq<char>>, vs: Seq<JsonValue>)
    requires
        parse_parts(parts) == BodyParse::Frames(vs),
    ensures
        forall|k: int| 0 <= k < vs.len() ==> vs[k] is Obj,
    decreases parts.len(),
{
    if parts.len() == 0 {
    } else {
        match frag_outcome(parts[0]) {
            FragOutcome::Skip => {
                lemma_parts_chunks_are_objects(parts.skip(1), vs);
            },
            FragOutcome::Chunk(v) => {
                match parse_parts(parts.skip(1)) {
                    BodyParse::Frames(vs2) => {
                        lemma_parts_chunks_are_objects(parts.skip(1), vs2);
                        assert(vs == seq![v] + vs2);
                        assert forall|k: int| 0 <= k < vs.len() implies vs[k] is Obj by {
                            if k > 0 {
                                assert(vs[k] == vs2[k - 1]);
                            }
                        }
                    },
                    _ => {
                        assert(false);
                    },
                }
            },
            _ => {
                assert(false);
            },
        }
    }
}

/// The Envelope invariant of the blocking path: every chunk of a parsed
/// body wraps a JSON object, since the parser boundary rejects every
/// other payload.
pub proof fn lemma_parsed_chunks_are_objects(text: Seq<char>, vs: Seq<JsonValue>)
    requires
        parse_body(text) == BodyParse::Frames(vs),
    ensures
        forall|k: int| 0 <= k < vs.len() ==> vs[k] is Obj,
{
    lemma_parts_chunks_are_objects(split_frames(text), vs);
}

/// Parsing the same body text twice yields element-wise equal Ordered
/// Chunk Sequences: the parse is a function of the text alone.
pub proof fn lemma_parse_deterministic(text: Seq<char>, a: Seq<JsonValue>, b: Seq<JsonValue>)
    requires
        parse_body(text) == BodyParse::Frames(a),
        parse_body(text) == BodyParse::Frames(b),
    ensures
        a.len() == b.len(),
        forall|k: int| 0 <= k < a.len() ==> a[k] == b[k],
{
    assert(a == b);
}

/// One observable happening on the open streaming connection, as the
/// background producer sees it: an open notification, a message whose
/// payload is one frame's JSON text, a connection failure, or the peer
/// closing cleanly.
#[derive(Debug, Clone, PartialEq, Eq)]
pub enum SourceEvent {
    Open,
    Message(String),
    TransportFailed,
    Ended,
}

/// Why the producer stopped: the terminal state of the streaming path.
#[derive(Debug, Clone, Copy, PartialEq, Eq)]
pub enum StreamClose {
    EndOfStream,
    TransportError,
    DecodeError,
}

/// What the producer does with one event: deliver a chunk to the
/// consumer, skip the event, or close with a terminal reason.
#[derive(Debug, PartialEq, Eq)]
pub enum StepAction {
    Skip,
    Deliver(Response),
    Close(StreamClose),
}

/// The model of one producer step.
pub enum StepModel {
    Skip,
    Deliver(JsonValue),
    Close(StreamClose),
}

/// The producer's decision on one event: open notifications are
/// ignored, a failure closes with `TransportError`, a clean end with
/// `EndOfStream`, and a message is delivered exactly when its payload
/// decodes as one JSON object, else the stream closes with
/// `DecodeError` — a non-object payload never reaches the consumer.
pub open spec fn step_model(ev: SourceEvent) -> StepModel {
    match ev {
        SourceEvent::Open => StepModel::Skip,
        SourceEvent::TransportFailed => StepModel::Close(StreamClose::TransportError),
        SourceEvent::Ended => StepModel::Close(StreamClose::EndOfStream),
        SourceEvent::Message(s) => match json_parse(s@) {
            Some(v) => if v is Obj {
                StepModel::Deliver(v)
            } else {
                StepModel::Close(StreamClose::DecodeError)
            },
            None => StepModel::Close(StreamClose::DecodeError),
        },
    }
}

/// Decide one event of the streaming connection.
pub fn stream_step(ev: &SourceEvent) -> (r: StepAction)
    ensures
        match r {
            StepAction::Skip => step_model(*ev) == StepModel::Skip,
            StepAction::Deliver(resp) => step_model(*ev) == StepModel::Deliver(resp@),
            StepAction::Close(c) => step_model(*ev) == StepModel::Close(c),
        },
{
    match ev {
        SourceEvent::Open => StepAction::Skip,
        SourceEvent::TransportFailed => StepAction::Close(StreamClose::TransportError),
        SourceEvent::Ended => StepAction::Close(StreamClose::EndOfStream),
        SourceEvent::Message(s) => match json_from_str(s.as_str()) {
            Some(v) => match v {
                JsonValue::Obj(_) => StepAction::Deliver(Response::new(v)),
                _ => StepAction::Close(StreamClose::DecodeError),
            },
            None => StepAction::Close(StreamClose::DecodeError),
        },
    }
}

/// What the producer makes of a whole event feed: the chunks delivered
/// before the first closing event, and the terminal reason. A feed that
/// runs out without a closing event counts as a clean end.
pub open spec fn pump_model(evs: Seq<SourceEvent>) -> (Seq<JsonValue>, StreamClose)
    decreases evs.len(),
{
    if evs.len() == 0 {
        (seq![], StreamClose::EndOfStream)
    } else {
        match step_model(evs[0]) {
            StepModel::Skip => pump_model(evs.skip(1)),
            StepModel::Close(c) => (seq![], c),
            StepModel::Deliver(v) => (
                seq![v] + pump_model(evs.skip(1)).0,
                pump_model(evs.skip(1)).1,
            ),
        }
    }
}

/// The Envelope invariant of the streaming path: every chunk the
/// producer delivers wraps a JSON object, since every other payload
/// closes the stream instead.
pub proof fn lemma_pumped_chunks_are_objects(evs: Seq<SourceEvent>)
    ensures
        forall|k: int| 0 <= k < pump_model(evs).0.len() ==> pump_model(evs).0[k] is Obj,
    decreases evs.len(),
{
    if evs.len() > 0 {
        lemma_pumped_chunks_are_objects(evs.skip(1));
        match step_model(evs[0]) {
            StepModel::Deliver(v) => {
                let rest = pump_model(evs.skip(1)).0;
                assert(pump_model(evs).0 == seq![v] + rest);
                assert forall|k: int| 0 <= k < pump_model(evs).0.len() implies pump_model(
                    evs,
                ).0[k] is Obj by {
                    if k > 0 {
                        assert(pump_model(evs).0[k] == rest[k - 1]);
                    }
                }
            },
            _ => {},
        }
    }
}

/// Fold a whole event feed through the producer's decisions: the chunks
/// the consumer observes, in arrival order, and why the stream closed.
pub fn pump(events: &Vec<SourceEvent>) -> (r: (Vec<Response>, StreamClose))
    ensures
        r.0.deep_view() == pump_model(events@).0,
        r.1 == pump_model(events@).1,
{
    let n = events.len();
    let mut out: Vec<Response> = Vec::new();
    let mut i: usize = 0;
    proof {
        assert(events@.skip(0) =~= events@);
        assert(out.deep_view() =~= Seq::<JsonValue>::empty());
    }
    while i < n
        invariant
            n == events@.len(),
            0 <= i <= n,
            pump_model(events@).0 == out.deep_view() + pump_model(events@.skip(i as int)).0,
            pump_model(events@).1 == pump_model(events@.skip(i as int)).1,
        decreases n - i,
    {
        proof {
            assert(events@.skip(i as int)[0] == events@[i as int]);
            assert(events@.skip(i as int).skip(1) =~= events@.skip(i as int + 1));
        }
        let ghost prior = out.deep_view();
        match stream_step(&events[i]) {
            StepAction::Skip => {},
            StepAction::Deliver(resp) => {
                let ghost v = resp@;
                out.push(resp);
                proof {
                    assert(out.deep_view() =~= prior.push(v));
                    assert(prior + (seq![v] + pump_model(events@.skip(i as int + 1)).0)
                        =~= prior.push(v) + pump_model(events@.skip(i as int + 1)).0);
                }
            },
            StepAction::Close(c) => {
                proof {
                    assert(prior + Seq::<JsonValue>::empty() =~= prior);
                }
                return (out, c);
            },
        }
        i = i + 1;
    }
    proof {
        assert(out.deep_view() + Seq::<JsonValue>::empty() =~= out.deep_view());
    }
    (out, StreamClose::EndOfStream)
}

} // verus!
