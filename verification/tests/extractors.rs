use erniebot_rs::embedding::EmbeddingResponse;
use erniebot_rs::errors::ErnieError;
use erniebot_rs::json::{JsonNum, JsonValue, json_from_str};
use erniebot_rs::reranker::RerankerResponse;
use erniebot_rs::text2image::Text2ImageResponse;

#[test]
fn embedding_results_are_sorted_by_index() {
    let v = json_from_str(
        "{\"data\":[{\"index\":1,\"embedding\":[0.5,2]},{\"index\":0,\"embedding\":[1]}]}",
    )
    .unwrap();
    let response = EmbeddingResponse::new(v);
    let results = response.get_embedding_results().unwrap();
    assert_eq!(
        results,
        vec![
            vec![JsonNum::UInt(1)],
            vec![JsonNum::Other("0.5".to_string()), JsonNum::UInt(2)],
        ]
    );
}

#[test]
fn embedding_results_keep_equal_indexes_in_arrival_order() {
    let v = json_from_str(
        "{\"data\":[{\"index\":0,\"embedding\":[1]},{\"index\":0,\"embedding\":[2]}]}",
    )
    .unwrap();
    let response = EmbeddingResponse::new(v);
    let results = response.get_embedding_results().unwrap();
    assert_eq!(
        results,
        vec![vec![JsonNum::UInt(1)], vec![JsonNum::UInt(2)]]
    );
}

#[test]
fn embedding_results_errors() {
    let missing = EmbeddingResponse::new(json_from_str("{}").unwrap());
    assert_eq!(
        missing.get_embedding_results().unwrap_err(),
        ErnieError::GetResponseError("embedding data is not found".to_string())
    );
    let not_array = EmbeddingResponse::new(json_from_str("{\"data\":5}").unwrap());
    assert_eq!(
        not_array.get_embedding_results().unwrap_err(),
        ErnieError::GetResponseError("embedding data is not an array".to_string())
    );
    let no_embedding =
        EmbeddingResponse::new(json_from_str("{\"data\":[{\"index\":0}]}").unwrap());
    assert_eq!(
        no_embedding.get_embedding_results().unwrap_err(),
        ErnieError::GetResponseError("embedding is not found".to_string())
    );
    let bad_embedding = EmbeddingResponse::new(
        json_from_str("{\"data\":[{\"index\":0,\"embedding\":[\"x\"]}]}").unwrap(),
    );
    assert_eq!(
        bad_embedding.get_embedding_results().unwrap_err(),
        ErnieError::GetResponseError("embedding is not an array of numbers".to_string())
    );
}

#[test]
fn reranker_results_decode_in_arrival_order() {
    let v = json_from_str(
        "{\"results\":[{\"document\":\"b\",\"relevance_score\":0.9,\"index\":1},\
         {\"document\":\"a\",\"relevance_score\":1,\"index\":0}]}",
    )
    .unwrap();
    let response = RerankerResponse::new(v);
    let results = response.get_reranker_response().unwrap();
    assert_eq!(results.len(), 2);
    assert_eq!(results[0].document, "b");
    assert_eq!(results[0].relevance_score, JsonNum::Other("0.9".to_string()));
    assert_eq!(results[0].index, 1);
    assert_eq!(results[1].document, "a");
    assert_eq!(results[1].relevance_score, JsonNum::UInt(1));
    assert_eq!(results[1].index, 0);
}

#[test]
fn reranker_results_errors() {
    let missing = RerankerResponse::new(json_from_str("{}").unwrap());
    assert_eq!(
        missing.get_reranker_response().unwrap_err(),
        ErnieError::GetResponseError("reranker results is not found".to_string())
    );
    let not_array = RerankerResponse::new(json_from_str("{\"results\":{}}").unwrap());
    assert_eq!(
        not_array.get_reranker_response().unwrap_err(),
        ErnieError::GetResponseError("reranker results is not an array".to_string())
    );
    let invalid = RerankerResponse::new(
        json_from_str("{\"results\":[{\"document\":\"a\",\"index\":-1}]}").unwrap(),
    );
    assert_eq!(
        invalid.get_reranker_response().unwrap_err(),
        ErnieError::GetResponseError("rerank data is not valid".to_string())
    );
}

#[test]
fn image_results_are_sorted_by_index() {
    let v = json_from_str(
        "{\"data\":[{\"index\":2,\"b64_image\":\"cc\"},{\"index\":0,\"b64_image\":\"aa\"},\
         {\"index\":1,\"b64_image\":\"bb\"}]}",
    )
    .unwrap();
    let response = Text2ImageResponse::new(v);
    let results = response.get_image_results().unwrap();
    assert_eq!(
        results,
        vec!["aa".to_string(), "bb".to_string(), "cc".to_string()]
    );
}

#[test]
fn image_results_errors() {
    let no_image = Text2ImageResponse::new(json_from_str("{\"data\":[{\"index\":0}]}").unwrap());
    assert_eq!(
        no_image.get_image_results().unwrap_err(),
        ErnieError::GetResponseError("image is not found".to_string())
    );
    let not_string = Text2ImageResponse::new(
        json_from_str("{\"data\":[{\"index\":0,\"b64_image\":7}]}").unwrap(),
    );
    assert_eq!(
        not_string.get_image_results().unwrap_err(),
        ErnieError::GetResponseError("image is not a string".to_string())
    );
}

#[test]
fn usage_counters_on_auxiliary_responses() {
    let v = json_from_str("{\"usage\":{\"prompt_tokens\":3,\"total_tokens\":9}}").unwrap();
    let response = EmbeddingResponse::new(v);
    assert_eq!(response.get_prompt_tokens(), Some(3));
    assert_eq!(response.get_total_tokens(), Some(9));
    let v = json_from_str("{}").unwrap();
    let response = Text2ImageResponse::new(v);
    assert_eq!(response.get_prompt_tokens(), None);
    assert_eq!(response.get_total_tokens(), None);
}
