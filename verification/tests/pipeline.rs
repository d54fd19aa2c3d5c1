use erniebot_rs::chat::response::Responses;
use erniebot_rs::chat::{SourceEvent, StreamClose, pump};
use erniebot_rs::errors::ErnieError;

#[test]
fn whole_result_concatenates_in_frame_order() {
    let body = "data: {\"result\":\"Hel\"}\n\ndata: {\"result\":\"lo\"}\n\n".to_string();
    let responses = Responses::from_text(body).unwrap();
    assert_eq!(responses.len(), 2);
    assert_eq!(
        responses.get_results().unwrap(),
        vec!["Hel".to_string(), "lo".to_string()]
    );
    assert_eq!(responses.get_whole_result().unwrap(), "Hello");
}

#[test]
fn chunk_count_matches_frame_count() {
    let body = "data: {\"result\":\"a\"}\n\ndata: {\"result\":\"b\"}\n\ndata: {\"result\":\"c\"}"
        .to_string();
    let responses = Responses::from_text(body).unwrap();
    assert_eq!(responses.len(), 3);
    assert_eq!(responses.get_results().unwrap().len(), 3);
}

#[test]
fn parsing_twice_is_deterministic() {
    let body = "data: {\"result\":\"x\",\"usage\":{\"total_tokens\":3}}\n\ndata: {\"result\":\"y\"}";
    let first = Responses::from_text(body.to_string()).unwrap();
    let second = Responses::from_text(body.to_string()).unwrap();
    assert_eq!(first, second);
    assert_eq!(first.get_results().unwrap(), second.get_results().unwrap());
}

#[test]
fn missing_marker_fails_whole_parse() {
    let body = "data: {\"result\":\"a\"}\n\n{\"result\":\"b\"}\n\n".to_string();
    let err = Responses::from_text(body).unwrap_err();
    assert_eq!(
        err,
        ErnieError::GetResponseError(
            "json_str is not found in this part of data: {\"result\":\"b\"}".to_string()
        )
    );
}

#[test]
fn invalid_json_fails_whole_parse() {
    let body = "data: {\"result\":\"a\"}\n\ndata: not-json\n\n".to_string();
    let err = Responses::from_text(body).unwrap_err();
    assert_eq!(
        err,
        ErnieError::GetResponseError(
            "invalid json object in this part of data: not-json".to_string()
        )
    );
}

#[test]
fn non_object_payload_fails_whole_parse() {
    let body = "data: {\"result\":\"a\"}\n\ndata: 5\n\n".to_string();
    let err = Responses::from_text(body).unwrap_err();
    assert_eq!(
        err,
        ErnieError::GetResponseError("invalid json object in this part of data: 5".to_string())
    );
}

#[test]
fn empty_body_parses_to_empty_sequence() {
    let responses = Responses::from_text(String::new()).unwrap();
    assert_eq!(responses.len(), 0);
    assert_eq!(responses.get_results().unwrap(), Vec::<String>::new());
    assert_eq!(responses.get_whole_result().unwrap(), "");
}

#[test]
fn separators_only_body_parses_to_empty_sequence() {
    let responses = Responses::from_text("\n\n\n\n".to_string()).unwrap();
    assert_eq!(responses.len(), 0);
    assert_eq!(responses.get_whole_result().unwrap(), "");
}

#[test]
fn pump_delivers_messages_then_clean_end() {
    let events = vec![
        SourceEvent::Open,
        SourceEvent::Message("{\"result\":\"a\"}".to_string()),
        SourceEvent::Message("{\"result\":\"b\"}".to_string()),
        SourceEvent::Ended,
    ];
    let (chunks, close) = pump(&events);
    assert_eq!(chunks.len(), 2);
    assert_eq!(chunks[0].get_chat_result().unwrap(), "a");
    assert_eq!(chunks[1].get_chat_result().unwrap(), "b");
    assert_eq!(close, StreamClose::EndOfStream);
}

#[test]
fn pump_stops_at_first_undecodable_message() {
    let events = vec![
        SourceEvent::Open,
        SourceEvent::Message("{\"result\":\"a\"}".to_string()),
        SourceEvent::Message("not-json".to_string()),
        SourceEvent::Message("{\"result\":\"b\"}".to_string()),
    ];
    let (chunks, close) = pump(&events);
    assert_eq!(chunks.len(), 1);
    assert_eq!(chunks[0].get_chat_result().unwrap(), "a");
    assert_eq!(close, StreamClose::DecodeError);
}

#[test]
fn pump_stops_at_a_non_object_message() {
    let events = vec![
        SourceEvent::Open,
        SourceEvent::Message("{\"result\":\"a\"}".to_string()),
        SourceEvent::Message("5".to_string()),
        SourceEvent::Ended,
    ];
    let (chunks, close) = pump(&events);
    assert_eq!(chunks.len(), 1);
    assert_eq!(chunks[0].get_chat_result().unwrap(), "a");
    assert_eq!(close, StreamClose::DecodeError);
}

#[test]
fn pump_reports_transport_failure() {
    let events = vec![
        SourceEvent::Open,
        SourceEvent::Message("{\"result\":\"a\"}".to_string()),
        SourceEvent::TransportFailed,
    ];
    let (chunks, close) = pump(&events);
    assert_eq!(chunks.len(), 1);
    assert_eq!(close, StreamClose::TransportError);
}
