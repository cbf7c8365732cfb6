//! Model routing, request-type resolution and the model list.
use vstd::prelude::*;
use crate::json::{Json, JsonValue, get, get_str, views, array_of, text_value, object2, object4};
use crate::text::{occurs_in, str_contains, text_eq};

verus! {

/// The model used when nothing else names one.
pub open spec fn default_model() -> Seq<char> {
    "gemini-2.5-flash"@
}

/// The target of the first entry among the first `n` of `table` for
/// `model` whose target is not empty.
pub open spec fn lookup(table: Seq<(String, String)>, model: Seq<char>, n: int) -> Option<Seq<char>>
    decreases n,
{
    if n <= 0 || n > table.len() {
        None
    } else {
        match lookup(table, model, n - 1) {
            Some(t) => Some(t),
            None => if table[n - 1].0@ == model && table[n - 1].1@.len() > 0 { Some(table[n - 1].1@) } else { None },
        }
    }
}

/// The upstream model for a client model: the user's mapping first, then
/// the built-in aliases, then the name itself; the default model for an
/// empty name that nothing maps.
pub open spec fn route(model: Seq<char>, user: Seq<(String, String)>, builtin: Seq<(String, String)>) -> Seq<char> {
    match lookup(user, model, user.len() as int) {
        Some(t) => t,
        None => match lookup(builtin, model, builtin.len() as int) {
            Some(t) => t,
            None => if model.len() > 0 { model } else { default_model() },
        },
    }
}

fn lookup_exec(table: &Vec<(String, String)>, model: &str) -> (r: Option<String>)
    ensures
        match r {
            Some(t) => lookup(table@, model@, table@.len() as int) == Some(t@),
            None => lookup(table@, model@, table@.len() as int) is None,
        },
        r matches Some(t) ==> t@.len() > 0,
{
    let mut i: usize = 0;
    while i < table.len()
        invariant
            i <= table@.len(),
            lookup(table@, model@, i as int) is None,
        decreases table@.len() - i,
    {
        if text_eq(table[i].0.as_str(), model) && !table[i].1.as_str().is_empty() {
            proof {
                lemma_lookup_found(table@, model@, i + 1);
            }
            return Some(table[i].1.clone());
        }
        i = i + 1;
    }
    None
}

proof fn lemma_lookup_found(table: Seq<(String, String)>, model: Seq<char>, n: int)
    requires
        1 <= n <= table.len(),
        lookup(table, model, n) is Some,
    ensures
        lookup(table, model, table.len() as int) == lookup(table, model, n),
    decreases table.len() - n,
{
    if n < table.len() {
        lemma_lookup_found(table, model, n + 1);
    }
}

/// The upstream model for a client model; never empty.
pub fn resolve_model_route(model: &str, user: &Vec<(String, String)>, builtin: &Vec<(String, String)>) -> (r: String)
    ensures
        r@ == route(model@, user@, builtin@),
        r@.len() > 0,
{
    proof {
        reveal_strlit("gemini-2.5-flash");
    }
    match lookup_exec(user, model) {
        Some(t) => t,
        None => match lookup_exec(builtin, model) {
            Some(t) => t,
            None => {
                if model.is_empty() {
                    String::from_str("gemini-2.5-flash")
                } else {
                    String::from_str(model)
                }
            },
        },
    }
}

/// The kind of request, which decides the accounts that may serve it.
pub enum RequestType {
    Chat,
    CodeAssist,
    WebSearch,
    ImageGen,
}

/// A tag that names a web search tool.
pub open spec fn search_tag(t: Option<Seq<char>>) -> bool {
    match t {
        Some(s) => occurs_in(s, "web_search"@) || occurs_in(s, "google_search"@) || occurs_in(s, "googleSearch"@),
        None => false,
    }
}

/// A tool descriptor that asks for web search: by its `type`, its `name`
/// or its `function.name`.
pub open spec fn search_tool(tool: Json) -> bool {
    search_tag(get_str(tool, "type"@)) || search_tag(get_str(tool, "name"@)) || match get(tool, "function"@) {
        Some(f) => search_tag(get_str(f, "name"@)),
        None => false,
    }
}

/// The request type: image models give `ImageGen`; else a web search tool
/// gives `WebSearch`; else a code model gives `CodeAssist`; else `Chat`.
pub open spec fn request_type_for(mapped: Seq<char>, tools: Seq<Json>) -> RequestType {
    if occurs_in(mapped, "image"@) {
        RequestType::ImageGen
    } else if exists|i: int| 0 <= i < tools.len() && search_tool(#[trigger] tools[i]) {
        RequestType::WebSearch
    } else if occurs_in(mapped, "code"@) {
        RequestType::CodeAssist
    } else {
        RequestType::Chat
    }
}

fn search_tag_exec(t: Option<&String>) -> (r: bool)
    ensures
        r == search_tag(match t { Some(s) => Some(s@), None => None }),
{
    match t {
        Some(s) => str_contains(s.as_str(), "web_search") || str_contains(s.as_str(), "google_search")
            || str_contains(s.as_str(), "googleSearch"),
        None => false,
    }
}

fn search_tool_exec(tool: &JsonValue) -> (r: bool)
    ensures
        r == search_tool(tool@),
{
    let by_function = match tool.get("function") {
        Some(f) => search_tag_exec(f.get_str("name")),
        None => false,
    };
    search_tag_exec(tool.get_str("type")) || search_tag_exec(tool.get_str("name")) || by_function
}

/// The request type of a request for the upstream model `mapped` with the
/// tool list `tools`.
pub fn resolve_request_type(mapped: &str, tools: &Vec<JsonValue>) -> (r: RequestType)
    ensures
        r == request_type_for(mapped@, views(tools@)),
{
    if str_contains(mapped, "image") {
        return RequestType::ImageGen;
    }
    let mut i: usize = 0;
    while i < tools.len()
        invariant
            i <= tools@.len(),
            !occurs_in(mapped@, "image"@),
            forall|k: int| 0 <= k < i ==> !search_tool(#[trigger] views(tools@)[k]),
        decreases tools@.len() - i,
    {
        if search_tool_exec(&tools[i]) {
            assert(search_tool(views(tools@)[i as int]));
            return RequestType::WebSearch;
        }
        i = i + 1;
    }
    if str_contains(mapped, "code") {
        RequestType::CodeAssist
    } else {
        RequestType::Chat
    }
}

impl RequestType {
    /// The name the token manager knows this type by.
    pub fn name(&self) -> (r: &'static str)
        ensures
            r@ == match self {
                RequestType::Chat => "chat"@,
                RequestType::CodeAssist => "code_assist"@,
                RequestType::WebSearch => "web_search"@,
                RequestType::ImageGen => "image_gen"@,
            },
    {
        match self {
            RequestType::Chat => "chat",
            RequestType::CodeAssist => "code_assist",
            RequestType::WebSearch => "web_search",
            RequestType::ImageGen => "image_gen",
        }
    }
}

/// One entry of the model list.
pub open spec fn model_entry(id: Seq<char>) -> Json {
    Json::Object(seq![
        ("id"@, Json::Str(id)),
        ("object"@, Json::Str("model"@)),
        ("created"@, Json::Number("1706745600"@)),
        ("owned_by"@, Json::Str("antigravity"@)),
    ])
}

/// The model list reply for the model ids `ids`.
pub open spec fn model_list_json(ids: Seq<String>) -> Json {
    Json::Object(seq![
        ("object"@, Json::Str("list"@)),
        ("data"@, Json::Array(ids.map_values(|s: String| model_entry(s@)))),
    ])
}

/// The model list reply `{object: "list", data: [...]}`.
pub fn model_list(ids: &Vec<String>) -> (r: JsonValue)
    ensures
        r@ == model_list_json(ids@),
{
    let mut data: Vec<JsonValue> = Vec::new();
    let mut i: usize = 0;
    while i < ids.len()
        invariant
            i <= ids@.len(),
            data@.len() == i,
            forall|k: int| 0 <= k < i ==> (#[trigger] data@[k])@ == model_entry(ids@[k]@),
        decreases ids@.len() - i,
    {
        let e = object4("id", JsonValue::Str(ids[i].clone()), "object", text_value("model"), "created",
            JsonValue::Number(String::from_str("1706745600")), "owned_by", text_value("antigravity"));
        data.push(e);
        i = i + 1;
    }
    assert(views(data@) =~= ids@.map_values(|s: String| model_entry(s@)));
    object2("object", text_value("list"), "data", array_of(data))
}


/// The tool list of a request; empty when it has none.
pub open spec fn tools_of(request: Json) -> Seq<Json> {
    match get(request, "tools"@) {
        Some(Json::Array(ts)) => ts,
        _ => Seq::empty(),
    }
}

/// The request type of a canonical request for the upstream model `mapped`.
pub fn request_type_of(mapped: &str, request: &JsonValue) -> (r: RequestType)
    ensures
        r == request_type_for(mapped@, tools_of(request@)),
{
    match request.get("tools") {
        Some(JsonValue::Array(ts)) => {
            proof {
                crate::json::lemma_array_view(*ts);
                assert(tools_of(request@) =~= views(ts@));
            }
            resolve_request_type(mapped, ts)
        },
        _ => {
            let none: Vec<JsonValue> = Vec::new();
            assert(views(none@) =~= tools_of(request@));
            resolve_request_type(mapped, &none)
        },
    }
}

} // verus!
