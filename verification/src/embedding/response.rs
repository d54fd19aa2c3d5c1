//! The embedding endpoint's reply and its extraction.
use vstd::prelude::*;

use crate::errors::ErnieError;
use crate::json::{
    JsonNum, JsonValue, all_indexed, keyed_positions, spec_get, spec_index_key,
    spec_usage_counter, usage_counter_of,
};
use crate::sort::{lemma_sort_elements, sort_by_key, sort_pairs};

verus! {

/// The reply of one embedding exchange: an immutable wrapper around one
/// decoded JSON value.
#[derive(Debug, PartialEq, Eq)]
pub struct EmbeddingResponse {
    raw_response: JsonValue,
}

impl View for EmbeddingResponse {
    type V = JsonValue;

    closed spec fn view(&self) -> JsonValue {
        self.raw_response
    }
}

/// The numbers of one embedding array, exactly when every element is a
/// number.
pub open spec fn nums_of(es: Seq<JsonValue>) -> Option<Seq<JsonNum>>
    decreases es.len(),
{
    if es.len() == 0 {
        Some(seq![])
    } else {
        match es[0] {
            JsonValue::Num(n) => match nums_of(es.skip(1)) {
                Some(r) => Some(seq![n] + r),
                None => None,
            },
            _ => None,
        }
    }
}

/// What reading the embedding vectors yields: the vectors ordered by
/// their `index` key, or the first failure.
pub enum EmbeddingsOutcome {
    Embeddings(Seq<Seq<JsonNum>>),
    NoData,
    DataNotArray,
    EntryMissing,
    EntryNotNumbers,
}

/// Walk the entries in the given order; each must carry an `embedding`
/// array of numbers, and the first failing entry fails the whole read.
pub open spec fn collect_embeddings(
    items: Seq<JsonValue>,
    order: Seq<(i64, usize)>,
) -> EmbeddingsOutcome
    decreases order.len(),
{
    if order.len() == 0 {
        EmbeddingsOutcome::Embeddings(seq![])
    } else {
        match spec_get(items[order[0].1 as int], "embedding"@) {
            None => EmbeddingsOutcome::EntryMissing,
            Some(JsonValue::Arr(es)) => match nums_of(es@) {
                Some(ns) => match collect_embeddings(items, order.skip(1)) {
                    EmbeddingsOutcome::Embeddings(rest) => EmbeddingsOutcome::Embeddings(
                        seq![ns] + rest,
                    ),
                    e => e,
                },
                None => EmbeddingsOutcome::EntryNotNumbers,
            },
            Some(_) => EmbeddingsOutcome::EntryNotNumbers,
        }
    }
}

/// The outcome of reading the embedding vectors of the reply `v`: the
/// `data` array's entries, sorted stably by their `index` key.
pub open spec fn embeddings_outcome(v: JsonValue) -> EmbeddingsOutcome {
    match spec_get(v, "data"@) {
        None => EmbeddingsOutcome::NoData,
        Some(JsonValue::Arr(items)) => collect_embeddings(
            items@,
            sort_by_key(keyed_positions(items@)),
        ),
        Some(_) => EmbeddingsOutcome::DataNotArray,
    }
}

impl EmbeddingResponse {
    /// Wrap one decoded JSON value.
    pub fn new(raw_response: JsonValue) -> (r: EmbeddingResponse)
        ensures
            r@ == raw_response,
    {
        EmbeddingResponse { raw_response }
    }

    /// The wrapped JSON value itself.
    pub fn get_raw_response(&self) -> (r: &JsonValue)
        ensures
            *r == self@,
    {
        &self.raw_response
    }

    /// The top-level field under `key`, when the reply is an object
    /// carrying it.
    pub fn get<'a>(&'a self, key: &str) -> (r: Option<&'a JsonValue>)
        ensures
            match r {
                Some(f) => spec_get(self@, key@) == Some(*f),
                None => spec_get(self@, key@) is None,
            },
    {
        self.raw_response.get(key)
    }

    /// The tokens the prompt used, from the best-effort `usage`
    /// telemetry.
    pub fn get_prompt_tokens(&self) -> (r: Option<u64>)
        ensures
            r == spec_usage_counter(self@, "prompt_tokens"@),
    {
        usage_counter_of(&self.raw_response, "prompt_tokens")
    }

    /// The tokens the whole exchange used, from the best-effort `usage`
    /// telemetry.
    pub fn get_total_tokens(&self) -> (r: Option<u64>)
        ensures
            r == spec_usage_counter(self@, "total_tokens"@),
    {
        usage_counter_of(&self.raw_response, "total_tokens")
    }

    /// The embedding vectors of the reply, ordered by each entry's
    /// `index` key; each number is kept as the decoder classified it.
    ///
    /// The caller owes every entry an integer `index`; the reply's own
    /// shape is otherwise checked here, and the first failure wins.
    pub fn get_embedding_results(&self) -> (r: Result<Vec<Vec<JsonNum>>, ErnieError>)
        requires
            match spec_get(self@, "data"@) {
                Some(JsonValue::Arr(items)) => all_indexed(items@),
                _ => true,
            },
        ensures
            match embeddings_outcome(self@) {
                EmbeddingsOutcome::Embeddings(ess) => r matches Ok(out) && out.deep_view() == ess,
                EmbeddingsOutcome::NoData => r matches Err(e) && (e matches
                    ErnieError::GetResponseError(m) && m@ == "embedding data is not found"@),
                EmbeddingsOutcome::DataNotArray => r matches Err(e) && (e matches
                    ErnieError::GetResponseError(m) && m@ == "embedding data is not an array"@),
                EmbeddingsOutcome::EntryMissing => r matches Err(e) && (e matches
                    ErnieError::GetResponseError(m) && m@ == "embedding is not found"@),
                EmbeddingsOutcome::EntryNotNumbers => r matches Err(e) && (e matches
                    ErnieError::GetResponseError(m) && m@
                    == "embedding is not an array of numbers"@),
            },
    {
        let data = match self.raw_response.get("data") {
            Some(d) => d,
            None => {
                return Err(
                    ErnieError::GetResponseError(String::from_str("embedding data is not found")),
                );
            },
        };
        let items = match data {
            JsonValue::Arr(items) => items,
            _ => {
                return Err(
                    ErnieError::GetResponseError(
                        String::from_str("embedding data is not an array"),
                    ),
                );
            },
        };
        let n = items.len();
        let ghost keyed = keyed_positions(items@);
        let mut pairs: Vec<(i64, usize)> = Vec::new();
        let mut k: usize = 0;
        proof {
            assert(pairs@ =~= keyed.take(0));
        }
        while k < n
            invariant
                n == items@.len(),
                0 <= k <= n,
                all_indexed(items@),
                keyed == keyed_positions(items@),
                pairs@ == keyed.take(k as int),
            decreases n - k,
        {
            let item = &items[k];
            let key_opt = match item.get("index") {
                Some(JsonValue::Num(num)) => num.as_i64(),
                _ => None,
            };
            let key = match key_opt {
                Some(kk) => kk,
                None => {
                    proof {
                        assert(spec_index_key(items@[k as int]) is Some);
                        assert(false);
                    }
                    0i64
                },
            };
            pairs.push((key, k));
            proof {
                assert(pairs@ =~= keyed.take(k as int + 1));
            }
            k = k + 1;
        }
        proof {
            assert(keyed.take(n as int) =~= keyed);
        }
        let sorted = sort_pairs(pairs);
        let ghost order = sorted@;
        proof {
            lemma_sort_elements(keyed);
        }
        assert forall|t: int| 0 <= t < order.len() implies (order[t].1 as int) < n as int by {
            let k2 = choose|k2: int| 0 <= k2 < keyed.len() && #[trigger] sort_by_key(keyed)[t]
                == keyed[k2];
            assert(keyed[k2].1 == k2 as usize);
        };
        let m = sorted.len();
        let mut out: Vec<Vec<JsonNum>> = Vec::new();
        let mut j: usize = 0;
        proof {
            assert(order.skip(0) =~= order);
            assert(out.deep_view() =~= Seq::<Seq<JsonNum>>::empty());
            assert(embeddings_outcome(self@) == collect_embeddings(items@, order));
        }
        while j < m
            invariant
                m == order.len(),
                sorted@ == order,
                n == items@.len(),
                forall|t: int| 0 <= t < order.len() ==> (order[t].1 as int) < items@.len(),
                0 <= j <= m,
                embeddings_outcome(self@) == collect_embeddings(items@, order),
                ({
                    let rest = collect_embeddings(items@, order.skip(j as int));
                    match rest {
                        EmbeddingsOutcome::Embeddings(es2) => collect_embeddings(items@, order)
                            == EmbeddingsOutcome::Embeddings(out.deep_view() + es2),
                        _ => collect_embeddings(items@, order) == rest,
                    }
                }),
            decreases m - j,
        {
            proof {
                assert(order.skip(j as int)[0] == order[j as int]);
                assert(order.skip(j as int).skip(1) =~= order.skip(j as int + 1));
            }
            let pos = sorted[j].1;
            let item = &items[pos];
            let es = match item.get("embedding") {
                None => {
                    return Err(
                        ErnieError::GetResponseError(String::from_str("embedding is not found")),
                    );
                },
                Some(JsonValue::Arr(es)) => es,
                Some(_) => {
                    return Err(
                        ErnieError::GetResponseError(
                            String::from_str("embedding is not an array of numbers"),
                        ),
                    );
                },
            };
            let en = es.len();
            let mut ns: Vec<JsonNum> = Vec::new();
            let mut t: usize = 0;
            proof {
                assert(es@.skip(0) =~= es@);
                if nums_of(es@) is None {
                    assert(collect_embeddings(items@, order.skip(j as int))
                        == EmbeddingsOutcome::EntryNotNumbers);
                }
            }
            while t < en
                invariant
                    en == es@.len(),
                    0 <= t <= en,
                    nums_of(es@) is None ==> embeddings_outcome(self@)
                        == EmbeddingsOutcome::EntryNotNumbers,
                    ({
                        let restn = nums_of(es@.skip(t as int));
                        match restn {
                            Some(r2) => nums_of(es@) == Some(ns@ + r2),
                            None => nums_of(es@) is None,
                        }
                    }),
                decreases en - t,
            {
                proof {
                    assert(es@.skip(t as int)[0] == es@[t as int]);
                    assert(es@.skip(t as int).skip(1) =~= es@.skip(t as int + 1));
                }
                let ghost prior = ns@;
                match &es[t] {
                    JsonValue::Num(num) => {
                        ns.push(num.clone());
                    },
                    _ => {
                        proof {
                            assert(nums_of(es@.skip(t as int)) is None);
                        }
                        return Err(
                            ErnieError::GetResponseError(
                                String::from_str("embedding is not an array of numbers"),
                            ),
                        );
                    },
                }
                proof {
                    match es@[t as int] {
                        JsonValue::Num(numv) => {
                            match nums_of(es@.skip(t as int + 1)) {
                                Some(r2) => {
                                    assert(prior + (seq![numv] + r2) =~= prior.push(numv) + r2);
                                },
                                None => {},
                            }
                        },
                        _ => {},
                    }
                }
                t = t + 1;
            }
            proof {
                assert(ns@ + Seq::<JsonNum>::empty() =~= ns@);
            }
            let ghost prior_out = out.deep_view();
            let ghost nsv = ns@;
            proof {
                assert(ns.deep_view() =~= ns@);
            }
            out.push(ns);
            proof {
                assert(out.deep_view() =~= prior_out.push(nsv));
                match collect_embeddings(items@, order.skip(j as int + 1)) {
                    EmbeddingsOutcome::Embeddings(es2) => {
                        assert(prior_out + (seq![nsv] + es2) =~= prior_out.push(nsv) + es2);
                    },
                    _ => {},
                }
            }
            j = j + 1;
        }
        proof {
            assert(out.deep_view() + Seq::<Seq<JsonNum>>::empty() =~= out.deep_view());
        }
        Ok(out)
    }
}

} // verus!
