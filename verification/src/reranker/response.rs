//! The reranker endpoint's reply and its extraction.
use vstd::prelude::*;

use crate::errors::ErnieError;
use crate::json::{JsonNum, JsonValue, spec_get, spec_usage_counter, usage_counter_of};

verus! {

/// One ranked document of a reranker reply: the document's text, its
/// relevance score as the decoder classified it, and its original
/// position.
#[derive(Debug, PartialEq, Eq)]
pub struct RerankData {
    pub document: String,
    pub relevance_score: JsonNum,
    pub index: u64,
}

/// The reply of one reranker exchange: an immutable wrapper around one
/// decoded JSON value.
#[derive(Debug, PartialEq, Eq)]
pub struct RerankerResponse {
    raw_response: JsonValue,
}

impl View for RerankerResponse {
    type V = JsonValue;

    closed spec fn view(&self) -> JsonValue {
        self.raw_response
    }
}

/// `item` has the shape one ranked entry must have to decode: a
/// `document` string, a `relevance_score` number, and an `index` that is
/// a non-negative integer.
pub open spec fn rerank_decodable(item: JsonValue) -> bool {
    &&& spec_get(item, "document"@) matches Some(JsonValue::Str(_))
    &&& spec_get(item, "relevance_score"@) matches Some(JsonValue::Num(_))
    &&& spec_get(item, "index"@) matches Some(JsonValue::Num(n)) && n.spec_as_u64() is Some
}

/// `d` is what the ranked entry `item` decodes to.
pub open spec fn is_rerank_json(item: JsonValue, d: RerankData) -> bool {
    &&& spec_get(item, "document"@) matches Some(JsonValue::Str(s)) && s@ == d.document@
    &&& spec_get(item, "relevance_score"@) matches Some(JsonValue::Num(n)) && n
        == d.relevance_score
    &&& spec_get(item, "index"@) matches Some(JsonValue::Num(n2)) && n2.spec_as_u64() == Some(
        d.index,
    )
}

/// Every entry of the results array decodes.
pub open spec fn all_rerank_decodable(items: Seq<JsonValue>) -> bool {
    forall|k: int| 0 <= k < items.len() ==> rerank_decodable(items[k])
}

impl RerankerResponse {
    /// Wrap one decoded JSON value.
    pub fn new(raw_response: JsonValue) -> (r: RerankerResponse)
        ensures
            r@ == raw_response,
    {
        RerankerResponse { raw_response }
    }

    /// The wrapped JSON value itself.
    pub fn get_raw_response(&self) -> (r: &JsonValue)
        ensures
            *r == self@,
    {
        &self.raw_response
    }

    /// The top-level field under `key`, when the reply is an object
    /// carrying it.
    pub fn get<'a>(&'a self, key: &str) -> (r: Option<&'a JsonValue>)
        ensures
            match r {
                Some(f) => spec_get(self@, key@) == Some(*f),
                None => spec_get(self@, key@) is None,
            },
    {
        self.raw_response.get(key)
    }

    /// The tokens the prompt used, from the best-effort `usage`
    /// telemetry.
    pub fn get_prompt_tokens(&self) -> (r: Option<u64>)
        ensures
            r == spec_usage_counter(self@, "prompt_tokens"@),
    {
        usage_counter_of(&self.raw_response, "prompt_tokens")
    }

    /// The tokens the whole exchange used, from the best-effort `usage`
    /// telemetry.
    pub fn get_total_tokens(&self) -> (r: Option<u64>)
        ensures
            r == spec_usage_counter(self@, "total_tokens"@),
    {
        usage_counter_of(&self.raw_response, "total_tokens")
    }

    /// The ranked documents of the reply, in the order the service sent
    /// them: one entry per element of the `results` array, each decoded
    /// to its document text, score and original position. One entry that
    /// does not decode fails the whole read.
    pub fn get_reranker_response(&self) -> (r: Result<Vec<RerankData>, ErnieError>)
        ensures
            match spec_get(self@, "results"@) {
                None => r matches Err(e) && (e matches ErnieError::GetResponseError(m) && m@
                    == "reranker results is not found"@),
                Some(JsonValue::Arr(items)) => if all_rerank_decodable(items@) {
                    r matches Ok(out) && out@.len() == items@.len() && (forall|k: int|
                        0 <= k < items@.len() ==> is_rerank_json(items@[k], out@[k]))
                } else {
                    r matches Err(e) && (e matches ErnieError::GetResponseError(m) && m@
                        == "rerank data is not valid"@)
                },
                Some(_) => r matches Err(e) && (e matches ErnieError::GetResponseError(m) && m@
                    == "reranker results is not an array"@),
            },
    {
        let data = match self.raw_response.get("results") {
            Some(d) => d,
            None => {
                return Err(
                    ErnieError::GetResponseError(String::from_str("reranker results is not found")),
                );
            },
        };
        let items = match data {
            JsonValue::Arr(items) => items,
            _ => {
                return Err(
                    ErnieError::GetResponseError(
                        String::from_str("reranker results is not an array"),
                    ),
                );
            },
        };
        let n = items.len();
        let mut out: Vec<RerankData> = Vec::new();
        let mut k: usize = 0;
        proof {
            assert(spec_get(self@, "results"@) matches Some(JsonValue::Arr(iv)) && iv@ == items@);
        }
        while k < n
            invariant
                n == items@.len(),
                0 <= k <= n,
                out@.len() == k,
                spec_get(self@, "results"@) matches Some(JsonValue::Arr(iv)) && iv@ == items@,
                forall|t: int| 0 <= t < k ==> rerank_decodable(items@[t]),
                forall|t: int| 0 <= t < k ==> is_rerank_json(items@[t], out@[t]),
            decreases n - k,
        {
            let item = &items[k];
            let document = match item.get("document") {
                Some(JsonValue::Str(s)) => s.clone(),
                _ => {
                    return Err(
                        ErnieError::GetResponseError(String::from_str("rerank data is not valid")),
                    );
                },
            };
            let relevance_score = match item.get("relevance_score") {
                Some(JsonValue::Num(num)) => num.clone(),
                _ => {
                    return Err(
                        ErnieError::GetResponseError(String::from_str("rerank data is not valid")),
                    );
                },
            };
            let index = match item.get("index") {
                Some(JsonValue::Num(num)) => match num.as_u64() {
                    Some(u) => u,
                    None => {
                        return Err(
                            ErnieError::GetResponseError(
                                String::from_str("rerank data is not valid"),
                            ),
                        );
                    },
                },
                _ => {
                    return Err(
                        ErnieError::GetResponseError(String::from_str("rerank data is not valid")),
                    );
                },
            };
            out.push(RerankData { document, relevance_score, index });
            k = k + 1;
        }
        Ok(out)
    }
}

} // verus!
