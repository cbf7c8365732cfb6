use openai_proxy::images::{
    aggregate_images, classify_edit_field, edit_count, edit_prompt, edit_quality, edit_request_parts,
    enhance_prompt, fresh_request_id, generation_params, image_request_body, image_response, image_response_now,
    inline_image_part, parse_image_config, text_part, EditField, EditForm,
};
use openai_proxy::json::JsonValue;
use openai_proxy::routing::{model_list, request_type_of, resolve_model_route, resolve_request_type, RequestType};
use openai_proxy::session::session_fingerprint;

fn s(t: &str) -> JsonValue {
    JsonValue::Str(t.to_string())
}

fn obj(fields: Vec<(&str, JsonValue)>) -> JsonValue {
    JsonValue::Object(fields.into_iter().map(|(k, v)| (k.to_string(), v)).collect())
}

fn image_reply(data: &str) -> JsonValue {
    obj(vec![(
        "response",
        obj(vec![(
            "candidates",
            JsonValue::Array(vec![obj(vec![(
                "content",
                obj(vec![(
                    "parts",
                    JsonValue::Array(vec![obj(vec![(
                        "inlineData",
                        obj(vec![("mimeType", s("image/jpeg")), ("data", s(data))]),
                    )])]),
                )]),
            )])]),
        )]),
    )])
}

#[test]
fn image_config_from_size_and_quality() {
    let c = parse_image_config(Some("1024x1024"), Some("standard"));
    assert_eq!((c.aspect_ratio.as_str(), c.image_size.as_str()), ("1:1", "1K"));
    let c = parse_image_config(Some("1792x1024"), Some("hd"));
    assert_eq!((c.aspect_ratio.as_str(), c.image_size.as_str()), ("16:9", "4K"));
    let c = parse_image_config(Some("1024x1792"), Some("medium"));
    assert_eq!((c.aspect_ratio.as_str(), c.image_size.as_str()), ("9:16", "2K"));
    let c = parse_image_config(Some("16:9"), None);
    assert_eq!((c.aspect_ratio.as_str(), c.image_size.as_str()), ("16:9", "1K"));
    let c = parse_image_config(Some("7:5"), Some("ultra"));
    assert_eq!((c.aspect_ratio.as_str(), c.image_size.as_str()), ("1:1", "1K"));
    let c = parse_image_config(Some("3000x1000"), None);
    assert_eq!(c.aspect_ratio, "1:1");
    let c = parse_image_config(None, None);
    assert_eq!(c.aspect_ratio, "1:1");
}

#[test]
fn generation_prompt_hints() {
    assert_eq!(
        enhance_prompt("a cat", "hd", "natural"),
        "a cat, (high quality, highly detailed, 4k resolution, hdr), (natural lighting, realistic, photorealistic)"
    );
    assert_eq!(enhance_prompt("a cat", "standard", "vivid"), "a cat, (vivid colors, dramatic lighting, rich details)");
    assert_eq!(enhance_prompt("a cat", "standard", "other"), "a cat");
    assert_eq!(edit_prompt("a dog", Some("anime")), "a dog, style: anime");
    assert_eq!(edit_prompt("a dog", None), "a dog");
}

#[test]
fn generation_params_defaults_and_missing_prompt() {
    let p = generation_params(&obj(vec![("prompt", s("x")), ("n", JsonValue::Number("3".to_string()))])).ok().unwrap();
    assert_eq!(p.prompt, "x");
    assert_eq!(p.model, "gemini-3-pro-image");
    assert_eq!(p.n, 3);
    assert_eq!(p.size, "1024x1024");
    assert_eq!(p.response_format, "b64_json");
    assert_eq!(p.quality, "standard");
    assert_eq!(p.style, "vivid");
    let p = generation_params(&obj(vec![("prompt", s("x")), ("n", JsonValue::Number("2.5".to_string()))])).ok().unwrap();
    assert_eq!(p.n, 1);
    assert_eq!(generation_params(&obj(vec![])).err().unwrap(), "Missing 'prompt' field");
}

#[test]
fn edit_fields_are_told_apart() {
    assert!(matches!(classify_edit_field("image"), EditField::MainImage));
    assert!(matches!(classify_edit_field("mask"), EditField::Mask));
    assert!(matches!(classify_edit_field("image1"), EditField::ReferenceImage));
    assert!(matches!(classify_edit_field("image_2"), EditField::ReferenceImage));
    assert!(matches!(classify_edit_field("image_size"), EditField::ImageSize));
    assert!(matches!(classify_edit_field("prompt"), EditField::Prompt));
    assert!(matches!(classify_edit_field("n"), EditField::Count));
    assert!(matches!(classify_edit_field("aspect_ratio"), EditField::AspectRatio));
    assert!(matches!(classify_edit_field("other"), EditField::Ignored));
    assert_eq!(edit_count("4"), 4);
    assert_eq!(edit_count("four"), 1);
    assert_eq!(edit_quality(Some("4K")), Some("hd"));
    assert_eq!(edit_quality(Some("2K")), Some("medium"));
    assert_eq!(edit_quality(Some("1K")), None);
    assert_eq!(edit_quality(None), None);
}

#[test]
fn inline_parts_are_base64() {
    assert_eq!(
        inline_image_part("image/png", b"hi").to_json_string(),
        r#"{"inlineData":{"mimeType":"image/png","data":"aGk="}}"#
    );
    let parts = edit_request_parts("p".to_string(), &Some(b"a".to_vec()), &None, &vec![b"bc".to_vec()]);
    let texts: Vec<String> = parts.iter().map(|p| p.to_json_string()).collect();
    assert_eq!(
        texts,
        vec![
            r#"{"text":"p"}"#.to_string(),
            r#"{"inlineData":{"mimeType":"image/png","data":"YQ=="}}"#.to_string(),
            r#"{"inlineData":{"mimeType":"image/jpeg","data":"YmM="}}"#.to_string(),
        ]
    );
}

#[test]
fn image_request_body_shape() {
    let c = parse_image_config(Some("1:1"), None);
    let body = image_request_body("proj", "agent-1".to_string(), "gemini-3-pro-image", vec![text_part("p".to_string())], &c, false);
    assert_eq!(
        body.to_json_string(),
        r#"{"project":"proj","requestId":"agent-1","model":"gemini-3-pro-image","userAgent":"antigravity","requestType":"image_gen","request":{"contents":[{"role":"user","parts":[{"text":"p"}]}],"generationConfig":{"candidateCount":1,"imageConfig":{"aspectRatio":"1:1","imageSize":"1K"}},"safetySettings":[{"category":"HARM_CATEGORY_HARASSMENT","threshold":"OFF"},{"category":"HARM_CATEGORY_HATE_SPEECH","threshold":"OFF"},{"category":"HARM_CATEGORY_SEXUALLY_EXPLICIT","threshold":"OFF"},{"category":"HARM_CATEGORY_DANGEROUS_CONTENT","threshold":"OFF"},{"category":"HARM_CATEGORY_CIVIC_INTEGRITY","threshold":"OFF"}]}}"#
    );
    let edit = image_request_body("p", "x".to_string(), "m", vec![], &c, true);
    assert!(edit.to_json_string().contains(
        r#""generationConfig":{"candidateCount":1,"imageConfig":{"aspectRatio":"1:1","imageSize":"1K"},"maxOutputTokens":8192,"stopSequences":[],"temperature":1.0,"topP":0.95,"topK":40}"#
    ));
}

#[test]
fn request_ids_are_fresh() {
    let a = fresh_request_id("agent-");
    let b = fresh_request_id("agent-");
    assert!(a.starts_with("agent-"));
    assert_eq!(a.len(), 42);
    assert_ne!(a, b);
}

#[test]
fn partial_image_success_is_200() {
    let results = vec![Ok(image_reply("AAA")), Err("Upstream error 500: boom".to_string()), Ok(image_reply("BBB"))];
    let out = aggregate_images(&results, false);
    assert_eq!(out.status, 200);
    assert_eq!(out.images.len(), 2);
    assert_eq!(out.images[0].to_json_string(), r#"{"b64_json":"AAA"}"#);
    assert_eq!(out.error, "Upstream error 500: boom");
    let url = aggregate_images(&vec![Ok(image_reply("CCC"))], true);
    assert_eq!(url.images[0].to_json_string(), r#"{"url":"data:image/jpeg;base64,CCC"}"#);
}

#[test]
fn no_images_is_502() {
    let none: Vec<Result<JsonValue, String>> = Vec::new();
    let out = aggregate_images(&none, false);
    assert_eq!(out.status, 502);
    assert!(out.images.is_empty());
    assert_eq!(out.error, "No images generated");
    let failed = aggregate_images(&vec![Err("a".to_string()), Err("b".to_string())], false);
    assert_eq!(failed.status, 502);
    assert_eq!(failed.error, "a; b");
}

#[test]
fn image_response_body() {
    assert_eq!(image_response(1700000000, vec![s("x")]).to_json_string(), r#"{"created":1700000000,"data":["x"]}"#);
    assert_eq!(image_response(-5, vec![]).to_json_string(), r#"{"created":-5,"data":[]}"#);
    assert!(image_response_now(vec![]).to_json_string().starts_with(r#"{"created":1"#));
}

#[test]
fn model_route_precedence() {
    let user = vec![("gpt-4o".to_string(), "gemini-3-pro".to_string()), ("x".to_string(), String::new())];
    let builtin = vec![("gpt-4o".to_string(), "gemini-2.5-pro".to_string()), ("gpt-4".to_string(), "gemini-2.5-flash".to_string())];
    assert_eq!(resolve_model_route("gpt-4o", &user, &builtin), "gemini-3-pro");
    assert_eq!(resolve_model_route("gpt-4", &user, &builtin), "gemini-2.5-flash");
    assert_eq!(resolve_model_route("x", &user, &builtin), "x");
    assert_eq!(resolve_model_route("llama-3", &user, &builtin), "llama-3");
    assert_eq!(resolve_model_route("", &user, &builtin), "gemini-2.5-flash");
}

#[test]
fn request_types() {
    let search = obj(vec![("type", s("function")), ("function", obj(vec![("name", s("google_search"))]))]);
    assert!(matches!(resolve_request_type("gemini-3-pro-image", &vec![search.duplicate()]), RequestType::ImageGen));
    assert!(matches!(resolve_request_type("gemini-2.5-flash", &vec![search]), RequestType::WebSearch));
    assert!(matches!(resolve_request_type("gemini-code-assist", &vec![]), RequestType::CodeAssist));
    assert!(matches!(resolve_request_type("gemini-2.5-flash", &vec![obj(vec![("type", s("function"))])]), RequestType::Chat));
    assert_eq!(RequestType::WebSearch.name(), "web_search");
}

#[test]
fn model_list_body() {
    let out = model_list(&vec!["a".to_string(), "b".to_string()]);
    assert_eq!(
        out.to_json_string(),
        r#"{"object":"list","data":[{"id":"a","object":"model","created":1706745600,"owned_by":"antigravity"},{"id":"b","object":"model","created":1706745600,"owned_by":"antigravity"}]}"#
    );
    assert_eq!(model_list(&vec![]).to_json_string(), r#"{"object":"list","data":[]}"#);
}

#[test]
fn session_fingerprint_is_stable() {
    let req = |c: &str| {
        obj(vec![(
            "messages",
            JsonValue::Array(vec![
                obj(vec![("role", s("system")), ("content", s("sys"))]),
                obj(vec![("role", s("user")), ("content", s(c))]),
            ]),
        )])
    };
    let a = session_fingerprint(&req("hello"));
    assert_eq!(a, session_fingerprint(&req("hello")));
    assert_ne!(a, session_fingerprint(&req("other")));
    assert!(a.starts_with("sid-"));
    assert_eq!(a.len(), 20);
    let long_a = "x".repeat(300);
    let long_b = format!("{}{}", "x".repeat(256), "y".repeat(44));
    assert_eq!(session_fingerprint(&req(&long_a)), session_fingerprint(&req(&long_b)));
    let with_conv = obj(vec![("conversation_id", s("c1")), ("messages", JsonValue::Array(vec![]))]);
    assert_ne!(session_fingerprint(&with_conv), session_fingerprint(&obj(vec![])));
}

#[test]
fn edit_form_fields_and_defaults() {
    let mut form = EditForm::new();
    assert_eq!(form.n, 1);
    assert_eq!(form.size, "1024x1024");
    assert_eq!(form.model, "gemini-3-pro-image");
    form.add_image(&classify_edit_field("image"), b"main".to_vec());
    form.add_image(&classify_edit_field("image1"), b"r1".to_vec());
    form.add_image(&classify_edit_field("image2"), b"r2".to_vec());
    form.add_image(&classify_edit_field("mask"), b"m".to_vec());
    form.set_text(&classify_edit_field("n"), "2".to_string());
    form.set_text(&classify_edit_field("model"), String::new());
    form.set_text(&classify_edit_field("image_size"), "4K".to_string());
    form.set_text(&classify_edit_field("prompt"), "a fox".to_string());
    assert_eq!(form.image, Some(b"main".to_vec()));
    assert_eq!(form.mask, Some(b"m".to_vec()));
    assert_eq!(form.references, vec![b"r1".to_vec(), b"r2".to_vec()]);
    assert_eq!(form.n, 2);
    assert_eq!(form.model, "gemini-3-pro-image");
    assert_eq!(form.image_size.as_deref(), Some("4K"));
    assert_eq!(form.prompt, "a fox");
    form.set_text(&classify_edit_field("n"), "many".to_string());
    assert_eq!(form.n, 1);
}

#[test]
fn request_type_reads_request_tools() {
    let req = obj(vec![("tools", JsonValue::Array(vec![obj(vec![("type", s("web_search_preview"))])]))]);
    assert!(matches!(request_type_of("gemini-2.5-flash", &req), RequestType::WebSearch));
    assert!(matches!(request_type_of("gemini-2.5-flash", &obj(vec![])), RequestType::Chat));
}
