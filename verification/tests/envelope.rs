use erniebot_rs::chat::{Message, Response, Role, ToolChoice};
use erniebot_rs::errors::ErnieError;
use erniebot_rs::json::{JsonNum, JsonValue, json_from_str};

fn obj(fields: Vec<(&str, JsonValue)>) -> JsonValue {
    JsonValue::Obj(
        fields
            .into_iter()
            .map(|(k, v)| (k.to_string(), v))
            .collect(),
    )
}

#[test]
fn chat_result_reads_the_result_string() {
    let envelope = Response::new(obj(vec![(
        "result",
        JsonValue::Str("hello".to_string()),
    )]));
    assert_eq!(envelope.get_chat_result().unwrap(), "hello");
}

#[test]
fn chat_result_missing_field() {
    let envelope = Response::new(obj(vec![("other", JsonValue::Null)]));
    assert_eq!(
        envelope.get_chat_result().unwrap_err(),
        ErnieError::GetResponseError("result is not found".to_string())
    );
}

#[test]
fn chat_result_wrong_type() {
    let envelope = Response::new(obj(vec![("result", JsonValue::Num(JsonNum::UInt(5)))]));
    assert_eq!(
        envelope.get_chat_result().unwrap_err(),
        ErnieError::GetResponseError("result is not a string".to_string())
    );
}

#[test]
fn usage_counters_present() {
    let envelope = Response::new(obj(vec![
        ("result", JsonValue::Str("x".to_string())),
        (
            "usage",
            obj(vec![
                ("prompt_tokens", JsonValue::Num(JsonNum::UInt(5))),
                ("completion_tokens", JsonValue::Num(JsonNum::UInt(7))),
                ("total_tokens", JsonValue::Num(JsonNum::UInt(12))),
            ]),
        ),
    ]));
    assert_eq!(envelope.get_prompt_tokens(), Some(5));
    assert_eq!(envelope.get_completion_tokens(), Some(7));
    assert_eq!(envelope.get_total_tokens(), Some(12));
}

#[test]
fn usage_counters_absent_without_usage_object() {
    let envelope = Response::new(obj(vec![("result", JsonValue::Str("x".to_string()))]));
    assert_eq!(envelope.get_prompt_tokens(), None);
    assert_eq!(envelope.get_completion_tokens(), None);
    assert_eq!(envelope.get_total_tokens(), None);
}

#[test]
fn usage_counters_ignore_wrong_types() {
    let envelope = Response::new(obj(vec![(
        "usage",
        obj(vec![
            ("prompt_tokens", JsonValue::Str("5".to_string())),
            ("total_tokens", JsonValue::Num(JsonNum::Int(-1))),
        ]),
    )]));
    assert_eq!(envelope.get_prompt_tokens(), None);
    assert_eq!(envelope.get_total_tokens(), None);
}

#[test]
fn function_call_decodes_when_present_and_valid() {
    let envelope = Response::new(obj(vec![(
        "function_call",
        obj(vec![
            ("name", JsonValue::Str("lookup".to_string())),
            ("arguments", JsonValue::Str("{\"q\":1}".to_string())),
            ("thoughts", JsonValue::Str("because".to_string())),
        ]),
    )]));
    let call = envelope.get_function_call().unwrap().unwrap();
    assert_eq!(call.name, "lookup");
    assert_eq!(call.arguments, "{\"q\":1}");
    assert_eq!(call.thoughts, Some("because".to_string()));
}

#[test]
fn function_call_absent_yields_none() {
    let absent = Response::new(obj(vec![("result", JsonValue::Str("x".to_string()))]));
    assert_eq!(absent.get_function_call().unwrap(), None);
}

#[test]
fn function_call_present_but_invalid_fails() {
    let empty = Response::new(obj(vec![("function_call", obj(vec![]))]));
    assert_eq!(
        empty.get_function_call().unwrap_err(),
        ErnieError::GetResponseError("function_call is not valid".to_string())
    );
    let wrong_type = Response::new(obj(vec![(
        "function_call",
        obj(vec![("name", JsonValue::Num(JsonNum::UInt(1)))]),
    )]));
    assert_eq!(
        wrong_type.get_function_call().unwrap_err(),
        ErnieError::GetResponseError("function_call is not valid".to_string())
    );
}

#[test]
fn decoder_rebuilds_numbers_and_nesting() {
    let v = json_from_str("{\"a\":[1,-2,2.5],\"b\":{\"c\":null,\"d\":true}}").unwrap();
    let a = v.get("a").unwrap();
    assert_eq!(
        *a,
        JsonValue::Arr(vec![
            JsonValue::Num(JsonNum::UInt(1)),
            JsonValue::Num(JsonNum::Int(-2)),
            JsonValue::Num(JsonNum::Other("2.5".to_string())),
        ])
    );
    let b = v.get("b").unwrap();
    assert_eq!(b.get("c"), Some(&JsonValue::Null));
    assert_eq!(b.get("d"), Some(&JsonValue::Bool(true)));
    assert_eq!(json_from_str("not-json"), None);
}

#[test]
fn message_to_json_carries_role_content_and_name() {
    let message = Message {
        role: Role::User,
        content: "hi".to_string(),
        name: None,
    };
    let json = message.to_json();
    assert_eq!(json.get("role"), Some(&JsonValue::Str("user".to_string())));
    assert_eq!(json.get("content"), Some(&JsonValue::Str("hi".to_string())));
    assert_eq!(json.get("name"), None);
    let named = Message {
        role: Role::Assistant,
        content: "ok".to_string(),
        name: Some("bot".to_string()),
    };
    let json = named.to_json();
    assert_eq!(
        json.get("role"),
        Some(&JsonValue::Str("assistant".to_string()))
    );
    assert_eq!(json.get("name"), Some(&JsonValue::Str("bot".to_string())));
}

#[test]
fn tool_choice_from_function_name() {
    let choice = ToolChoice::from_function_name("lookup".to_string());
    assert_eq!(choice.tool_type, "function");
    assert_eq!(
        choice.function.get("name"),
        Some(&JsonValue::Str("lookup".to_string()))
    );
}

#[test]
fn error_messages_name_their_variant() {
    let e = ErnieError::GetResponseError("boom".to_string());
    assert_eq!(e.message(), "GetResponseError: boom");
    let e = ErnieError::RemoteAPIError("denied".to_string());
    assert_eq!(e.message(), "RemoteAPIError: denied");
}
