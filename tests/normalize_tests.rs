use openai_proxy::json::JsonValue;
use openai_proxy::normalize::{add_recovery_prompt, normalize_request};

fn s(t: &str) -> JsonValue {
    JsonValue::Str(t.to_string())
}

fn obj(fields: Vec<(&str, JsonValue)>) -> JsonValue {
    JsonValue::Object(fields.into_iter().map(|(k, v)| (k.to_string(), v)).collect())
}

fn arr(items: Vec<JsonValue>) -> JsonValue {
    JsonValue::Array(items)
}

fn text(v: &JsonValue) -> String {
    v.to_json_string()
}

fn messages(v: &JsonValue) -> Vec<String> {
    match v.get("messages") {
        Some(JsonValue::Array(ms)) => ms.iter().map(text).collect(),
        _ => panic!("no messages"),
    }
}

#[test]
fn responses_instructions_and_input_become_system_and_user() {
    let body = obj(vec![("instructions", s("You are terse")), ("input", s("say hi"))]);
    let out = normalize_request(&body).ok().unwrap();
    assert_eq!(
        messages(&out),
        vec![
            r#"{"role":"system","content":"You are terse"}"#.to_string(),
            r#"{"role":"user","content":"say hi"}"#.to_string(),
        ]
    );
}

#[test]
fn codex_shell_command_scalar_is_wrapped_in_array() {
    let call = obj(vec![
        ("type", s("local_shell_call")),
        ("call_id", s("c1")),
        ("action", obj(vec![("exec", obj(vec![("command", s("ls"))]))])),
    ]);
    let body = obj(vec![("input", arr(vec![call]))]);
    let out = normalize_request(&body).ok().unwrap();
    let ms = messages(&out);
    assert_eq!(ms.len(), 1);
    assert_eq!(
        ms[0],
        r#"{"role":"assistant","tool_calls":[{"id":"c1","type":"function","function":{"name":"shell","arguments":"{\"command\":[\"ls\"]}"}}]}"#
    );
    assert!(ms[0].contains(r#"\"command\":[\"ls\"]"#));
}

#[test]
fn codex_shell_keeps_array_command_and_workdir() {
    let call = obj(vec![
        ("type", s("local_shell_call")),
        ("id", s("c2")),
        (
            "action",
            obj(vec![(
                "exec",
                obj(vec![("command", arr(vec![s("ls"), s("-la")])), ("working_directory", s("/tmp"))]),
            )]),
        ),
    ]);
    let out = normalize_request(&obj(vec![("input", arr(vec![call]))])).ok().unwrap();
    let ms = messages(&out);
    assert!(ms[0].contains(r#""id":"c2""#));
    assert!(ms[0].contains(r#"{\"command\":[\"ls\",\"-la\"],\"workdir\":\"/tmp\"}"#));
}

#[test]
fn codex_tool_output_takes_name_from_call() {
    let call = obj(vec![
        ("type", s("function_call")),
        ("call_id", s("k")),
        ("name", s("lookup")),
        ("arguments", s("{\"q\":1}")),
    ]);
    let output = obj(vec![("type", s("function_call_output")), ("call_id", s("k")), ("output", s("found"))]);
    let orphan = obj(vec![
        ("type", s("custom_tool_call_output")),
        ("call_id", s("z")),
        ("output", obj(vec![("content", s("inner"))])),
    ]);
    let out = normalize_request(&obj(vec![("input", arr(vec![call, output, orphan]))])).ok().unwrap();
    let ms = messages(&out);
    assert_eq!(ms.len(), 3);
    assert!(ms[0].contains(r#""name":"lookup","arguments":"{\"q\":1}""#));
    assert_eq!(ms[1], r#"{"role":"tool","tool_call_id":"k","name":"lookup","content":"found"}"#);
    assert_eq!(ms[2], r#"{"role":"tool","tool_call_id":"z","name":"shell","content":"inner"}"#);
}

#[test]
fn codex_web_search_uses_query() {
    let call = obj(vec![
        ("type", s("web_search_call")),
        ("call_id", s("w")),
        ("action", obj(vec![("query", s("rust"))])),
    ]);
    let out = normalize_request(&obj(vec![("input", arr(vec![call]))])).ok().unwrap();
    let ms = messages(&out);
    assert!(ms[0].contains(r#""name":"google_search","arguments":"{\"query\":\"rust\"}""#));
}

#[test]
fn codex_message_with_images_becomes_block_list() {
    let msg = obj(vec![
        ("type", s("message")),
        ("role", s("user")),
        (
            "content",
            arr(vec![
                obj(vec![("type", s("input_text")), ("text", s("look"))]),
                obj(vec![("type", s("input_image")), ("image_url", s("http://x/i.png"))]),
            ]),
        ),
    ]);
    let out = normalize_request(&obj(vec![("input", arr(vec![msg]))])).ok().unwrap();
    assert_eq!(
        messages(&out)[0],
        r#"{"role":"user","content":[{"type":"text","text":"look"},{"type":"image_url","image_url":{"url":"http://x/i.png"}}]}"#
    );
}

#[test]
fn codex_message_without_images_joins_text() {
    let msg = obj(vec![
        ("type", s("message")),
        ("role", s("assistant")),
        ("content", arr(vec![obj(vec![("text", s("a"))]), obj(vec![("text", s("b"))])])),
    ]);
    let out = normalize_request(&obj(vec![("input", arr(vec![msg]))])).ok().unwrap();
    assert_eq!(messages(&out)[0], r#"{"role":"assistant","content":"a\nb"}"#);
}

#[test]
fn responses_role_list_is_taken_as_messages() {
    let m = obj(vec![("role", s("user")), ("content", s("hello"))]);
    let out = normalize_request(&obj(vec![("input", arr(vec![m]))])).ok().unwrap();
    assert_eq!(messages(&out), vec![r#"{"role":"user","content":"hello"}"#.to_string()]);
}

#[test]
fn responses_loose_array_is_joined() {
    let out = normalize_request(&obj(vec![("input", arr(vec![s("a"), JsonValue::Null, s("b")]))])).ok().unwrap();
    assert_eq!(messages(&out), vec![r#"{"role":"user","content":"a\n\nb"}"#.to_string()]);
}

#[test]
fn legacy_prompt_array_is_joined_and_removed() {
    let body = obj(vec![("model", s("m")), ("prompt", arr(vec![s("one"), JsonValue::Bool(true), s("two")]))]);
    let out = normalize_request(&body).ok().unwrap();
    assert!(out.get("prompt").is_none());
    assert_eq!(messages(&out), vec![r#"{"role":"user","content":"one\ntwo"}"#.to_string()]);
    assert_eq!(text(&out), r#"{"model":"m","messages":[{"role":"user","content":"one\ntwo"}]}"#);
}

#[test]
fn empty_messages_get_a_single_space_user_message() {
    let out = normalize_request(&obj(vec![("messages", arr(vec![]))])).ok().unwrap();
    assert_eq!(messages(&out), vec![r#"{"role":"user","content":" "}"#.to_string()]);
    let out2 = normalize_request(&obj(vec![])).ok().unwrap();
    assert_eq!(messages(&out2).len(), 1);
}

#[test]
fn chat_body_passes_through_unchanged() {
    let body = obj(vec![
        ("model", s("gpt-4o")),
        ("messages", arr(vec![obj(vec![("role", s("user")), ("content", s("hi"))])])),
        ("stream", JsonValue::Bool(false)),
    ]);
    let out = normalize_request(&body).ok().unwrap();
    assert_eq!(text(&out), text(&body));
}

#[test]
fn normalization_is_idempotent() {
    let bodies = vec![
        obj(vec![("instructions", s("sys")), ("input", s("q"))]),
        obj(vec![("prompt", s("p"))]),
        obj(vec![]),
        obj(vec![("input", JsonValue::Number("7".to_string()))]),
    ];
    for b in bodies {
        let once = normalize_request(&b).ok().unwrap();
        let twice = normalize_request(&once).ok().unwrap();
        assert_eq!(text(&once), text(&twice));
        assert!(!messages(&once).is_empty());
    }
}

#[test]
fn non_object_body_is_rejected() {
    assert!(normalize_request(&arr(vec![])).is_err());
    assert!(normalize_request(&s("x")).is_err());
}

#[test]
fn recovery_prompt_is_appended_to_last_user_string() {
    let body = obj(vec![(
        "messages",
        arr(vec![
            obj(vec![("role", s("user")), ("content", s("first"))]),
            obj(vec![("role", s("assistant")), ("content", s("reply"))]),
            obj(vec![("role", s("user")), ("content", s("again"))]),
        ]),
    )]);
    let out = add_recovery_prompt(&body);
    let ms = messages(&out);
    assert_eq!(ms[0], r#"{"role":"user","content":"first"}"#);
    assert_eq!(
        ms[2],
        r#"{"role":"user","content":"again\n\n[System Recovery] Your previous output contained an invalid signature. Please regenerate the response without the corrupted signature block."}"#
    );
}

#[test]
fn recovery_prompt_is_added_as_block_to_block_list() {
    let body = obj(vec![(
        "messages",
        arr(vec![obj(vec![
            ("role", s("user")),
            ("content", arr(vec![obj(vec![("type", s("text")), ("text", s("hi"))])])),
        ])]),
    )]);
    let out = add_recovery_prompt(&body);
    let ms = messages(&out);
    assert!(ms[0].starts_with(r#"{"role":"user","content":[{"type":"text","text":"hi"},{"type":"text","text":"\n\n[System Recovery]"#));
}

#[test]
fn json_text_escapes_strings() {
    let v = obj(vec![("a\"b", s("line\nnext\t\\ \u{1}")), ("n", JsonValue::Number("-1.5".to_string()))]);
    assert_eq!(v.to_json_string(), r#"{"a\"b":"line\nnext\t\\ \u0001","n":-1.5}"#);
    assert_eq!(arr(vec![JsonValue::Null, JsonValue::Bool(false)]).to_json_string(), "[null,false]");
}
