//! The text-to-image endpoint's reply and its extraction.
use vstd::prelude::*;

use crate::errors::ErnieError;
use crate::json::{
    JsonValue, all_indexed, keyed_positions, spec_get, spec_index_key, spec_usage_counter,
    usage_counter_of,
};
use crate::sort::{lemma_sort_elements, sort_by_key, sort_pairs};

verus! {

/// The reply of one text-to-image exchange: an immutable wrapper around
/// one decoded JSON value.
#[derive(Debug, PartialEq, Eq)]
pub struct Text2ImageResponse {
    raw_response: JsonValue,
}

impl View for Text2ImageResponse {
    type V = JsonValue;

    closed spec fn view(&self) -> JsonValue {
        self.raw_response
    }
}

/// What reading the generated pictures yields: each entry's base64 text,
/// ordered by the `index` key, or the first failure.
pub enum ImagesOutcome {
    Images(Seq<Seq<char>>),
    NoData,
    DataNotArray,
    EntryMissing,
    EntryNotString,
}

/// Walk the entries in the given order; each must carry a `b64_image`
/// string, and the first failing entry fails the whole read.
pub open spec fn collect_images(items: Seq<JsonValue>, order: Seq<(i64, usize)>) -> ImagesOutcome
    decreases order.len(),
{
    if order.len() == 0 {
        ImagesOutcome::Images(seq![])
    } else {
        match spec_get(items[order[0].1 as int], "b64_image"@) {
            None => ImagesOutcome::EntryMissing,
            Some(JsonValue::Str(s)) => match collect_images(items, order.skip(1)) {
                ImagesOutcome::Images(rest) => ImagesOutcome::Images(seq![s@] + rest),
                e => e,
            },
            Some(_) => ImagesOutcome::EntryNotString,
        }
    }
}

/// The outcome of reading the pictures of the reply `v`: the `data`
/// array's entries, sorted stably by their `index` key.
pub open spec fn images_outcome(v: JsonValue) -> ImagesOutcome {
    match spec_get(v, "data"@) {
        None => ImagesOutcome::NoData,
        Some(JsonValue::Arr(items)) => collect_images(
            items@,
            sort_by_key(keyed_positions(items@)),
        ),
        Some(_) => ImagesOutcome::DataNotArray,
    }
}

impl Text2ImageResponse {
    /// Wrap one decoded JSON value.
    pub fn new(raw_response: JsonValue) -> (r: Text2ImageResponse)
        ensures
            r@ == raw_response,
    {
        Text2ImageResponse { raw_response }
    }

    /// The wrapped JSON value itself.
    pub fn get_raw_response(&self) -> (r: &JsonValue)
        ensures
            *r == self@,
    {
        &self.raw_response
    }

    /// The top-level field under `key`, when the reply is an object
    /// carrying it.
    pub fn get<'a>(&'a self, key: &str) -> (r: Option<&'a JsonValue>)
        ensures
            match r {
                Some(f) => spec_get(self@, key@) == Some(*f),
                None => spec_get(self@, key@) is None,
            },
    {
        self.raw_response.get(key)
    }

    /// The tokens the prompt used, from the best-effort `usage`
    /// telemetry.
    pub fn get_prompt_tokens(&self) -> (r: Option<u64>)
        ensures
            r == spec_usage_counter(self@, "prompt_tokens"@),
    {
        usage_counter_of(&self.raw_response, "prompt_tokens")
    }

    /// The tokens the whole exchange used, from the best-effort `usage`
    /// telemetry.
    pub fn get_total_tokens(&self) -> (r: Option<u64>)
        ensures
            r == spec_usage_counter(self@, "total_tokens"@),
    {
        usage_counter_of(&self.raw_response, "total_tokens")
    }

    /// The generated pictures as base64 texts, ordered by each entry's
    /// `index` key.
    ///
    /// The caller owes every entry an integer `index`; the reply's own
    /// shape is otherwise checked here, and the first failure wins.
    pub fn get_image_results(&self) -> (r: Result<Vec<String>, ErnieError>)
        requires
            match spec_get(self@, "data"@) {
                Some(JsonValue::Arr(items)) => all_indexed(items@),
                _ => true,
            },
        ensures
            match images_outcome(self@) {
                ImagesOutcome::Images(ss) => r matches Ok(out) && out.deep_view() == ss,
                ImagesOutcome::NoData => r matches Err(e) && (e matches
                    ErnieError::GetResponseError(m) && m@ == "embedding data is not found"@),
                ImagesOutcome::DataNotArray => r matches Err(e) && (e matches
                    ErnieError::GetResponseError(m) && m@ == "embedding data is not an array"@),
                ImagesOutcome::EntryMissing => r matches Err(e) && (e matches
                    ErnieError::GetResponseError(m) && m@ == "image is not found"@),
                ImagesOutcome::EntryNotString => r matches Err(e) && (e matches
                    ErnieError::GetResponseError(m) && m@ == "image is not a string"@),
            },
    {
        let data = match self.raw_response.get("data") {
            Some(d) => d,
            None => {
                return Err(
                    ErnieError::GetResponseError(String::from_str("embedding data is not found")),
                );
            },
        };
        let items = match data {
            JsonValue::Arr(items) => items,
            _ => {
                return Err(
                    ErnieError::GetResponseError(
                        String::from_str("embedding data is not an array"),
                    ),
                );
            },
        };
        let n = items.len();
        let ghost keyed = keyed_positions(items@);
        let mut pairs: Vec<(i64, usize)> = Vec::new();
        let mut k: usize = 0;
        proof {
            assert(pairs@ =~= keyed.take(0));
        }
        while k < n
            invariant
                n == items@.len(),
                0 <= k <= n,
                all_indexed(items@),
                keyed == keyed_positions(items@),
                pairs@ == keyed.take(k as int),
            decreases n - k,
        {
            let item = &items[k];
            let key_opt = match item.get("index") {
                Some(JsonValue::Num(num)) => num.as_i64(),
                _ => None,
            };
            let key = match key_opt {
                Some(kk) => kk,
                None => {
                    proof {
                        assert(spec_index_key(items@[k as int]) is Some);
                        assert(false);
                    }
                    0i64
                },
            };
            pairs.push((key, k));
            proof {
                assert(pairs@ =~= keyed.take(k as int + 1));
            }
            k = k + 1;
        }
        proof {
            assert(keyed.take(n as int) =~= keyed);
        }
        let sorted = sort_pairs(pairs);
        let ghost order = sorted@;
        proof {
            lemma_sort_elements(keyed);
        }
        assert forall|t: int| 0 <= t < order.len() implies (order[t].1 as int) < n as int by {
            let k2 = choose|k2: int| 0 <= k2 < keyed.len() && #[trigger] sort_by_key(keyed)[t]
                == keyed[k2];
            assert(keyed[k2].1 == k2 as usize);
        };
        let m = sorted.len();
        let mut out: Vec<String> = Vec::new();
        let mut j: usize = 0;
        proof {
            assert(order.skip(0) =~= order);
            assert(out.deep_view() =~= Seq::<Seq<char>>::empty());
            assert(images_outcome(self@) == collect_images(items@, order));
        }
        while j < m
            invariant
                m == order.len(),
                sorted@ == order,
                n == items@.len(),
                forall|t: int| 0 <= t < order.len() ==> (order[t].1 as int) < items@.len(),
                0 <= j <= m,
                images_outcome(self@) == collect_images(items@, order),
                ({
                    let rest = collect_images(items@, order.skip(j as int));
                    match rest {
                        ImagesOutcome::Images(ss2) => collect_images(items@, order)
                            == ImagesOutcome::Images(out.deep_view() + ss2),
                        _ => collect_images(items@, order) == rest,
                    }
                }),
            decreases m - j,
        {
            proof {
                assert(order.skip(j as int)[0] == order[j as int]);
                assert(order.skip(j as int).skip(1) =~= order.skip(j as int + 1));
            }
            let pos = sorted[j].1;
            let item = &items[pos];
            let text = match item.get("b64_image") {
                None => {
                    return Err(
                        ErnieError::GetResponseError(String::from_str("image is not found")),
                    );
                },
                Some(JsonValue::Str(s)) => s.clone(),
                Some(_) => {
                    return Err(
                        ErnieError::GetResponseError(String::from_str("image is not a string")),
                    );
                },
            };
            let ghost prior_out = out.deep_view();
            let ghost tv = text@;
            out.push(text);
            proof {
                assert(out.deep_view() =~= prior_out.push(tv));
                match collect_images(items@, order.skip(j as int + 1)) {
                    ImagesOutcome::Images(ss2) => {
                        assert(prior_out + (seq![tv] + ss2) =~= prior_out.push(tv) + ss2);
                    },
                    _ => {},
                }
            }
            j = j + 1;
        }
        proof {
            assert(out.deep_view() + Seq::<Seq<char>>::empty() =~= out.deep_view());
        }
        Ok(out)
    }
}

} // verus!
