//! Collapses the Chat, Responses, Codex and Legacy request dialects into one
//! canonical chat request whose `messages` list is never empty.
use vstd::prelude::*;
use crate::json::{Json, JsonValue, get, get_str, json_text, json_view, member_from, views, lemma_array_view, lemma_object_view, array_of, text_value, object1, object2, object3, object4};
use crate::text::text_eq;

verus! {

/// The parts joined with line breaks.
pub open spec fn join_lines(parts: Seq<Seq<char>>) -> Seq<char>
    decreases parts.len(),
{
    if parts.len() == 0 {
        Seq::empty()
    } else if parts.len() == 1 {
        parts[0]
    } else {
        join_lines(parts.drop_last()) + seq!['\n'] + parts.last()
    }
}

/// The views of a sequence of strings.
pub open spec fn texts(s: Seq<String>) -> Seq<Seq<char>> {
    s.map_values(|x: String| x@)
}

/// A message `{role, content}` whose content is text.
pub open spec fn text_message(role: Seq<char>, text: Seq<char>) -> Json {
    Json::Object(seq![("role"@, Json::Str(role)), ("content"@, Json::Str(text))])
}

/// The string member `key` of `v`, or `default`.
pub open spec fn str_or(v: Json, key: Seq<char>, default: Seq<char>) -> Seq<char> {
    match get_str(v, key) {
        Some(s) => s,
        None => default,
    }
}

/// The call id of a call item: `call_id`, else `id`, else `unknown`.
pub open spec fn call_id_of(v: Json) -> Seq<char> {
    match get_str(v, "call_id"@) {
        Some(s) => s,
        None => str_or(v, "id"@, "unknown"@),
    }
}

/// The item types that describe a tool call.
pub open spec fn is_call_kind(t: Seq<char>) -> bool {
    t == "function_call"@ || t == "local_shell_call"@ || t == "web_search_call"@
}

/// The item types that carry a tool's output.
pub open spec fn is_output_kind(t: Seq<char>) -> bool {
    t == "function_call_output"@ || t == "custom_tool_call_output"@
}

/// The canonical tool name of a call item of type `t`.
pub open spec fn tool_name_of(v: Json, t: Seq<char>) -> Seq<char> {
    if t == "local_shell_call"@ {
        "shell"@
    } else if t == "web_search_call"@ {
        "google_search"@
    } else {
        str_or(v, "name"@, "unknown"@)
    }
}

/// The arguments object of a shell call: `command` always an array, and the
/// working directory when one is given.
pub open spec fn shell_args(exec: Json) -> Seq<(Seq<char>, Json)> {
    let cmd = match get(exec, "command"@) {
        Some(Json::Str(s)) => seq![("command"@, Json::Array(seq![Json::Str(s)]))],
        Some(c) => seq![("command"@, c)],
        None => Seq::empty(),
    };
    let wd = match get(exec, "working_directory"@) {
        Some(w) => seq![("workdir"@, w)],
        None => match get(exec, "workdir"@) {
            Some(w) => seq![("workdir"@, w)],
            None => Seq::empty(),
        },
    };
    cmd + wd
}

/// The arguments object of a web search call.
pub open spec fn search_args(action: Json) -> Seq<(Seq<char>, Json)> {
    match get(action, "query"@) {
        Some(q) => seq![("query"@, q)],
        None => Seq::empty(),
    }
}

/// The argument string of a call item of type `t`.
pub open spec fn call_arguments(v: Json, t: Seq<char>) -> Seq<char> {
    let given = str_or(v, "arguments"@, "{}"@);
    if t == "local_shell_call"@ {
        match get(v, "action"@) {
            Some(a) => match get(a, "exec"@) {
                Some(e) => json_text(Json::Object(shell_args(e))),
                None => given,
            },
            None => given,
        }
    } else if t == "web_search_call"@ {
        match get(v, "action"@) {
            Some(a) => json_text(Json::Object(search_args(a))),
            None => given,
        }
    } else {
        given
    }
}

/// An assistant message holding one tool call.
pub open spec fn call_message(id: Seq<char>, name: Seq<char>, args: Seq<char>) -> Json {
    Json::Object(seq![
        ("role"@, Json::Str("assistant"@)),
        ("tool_calls"@, Json::Array(seq![Json::Object(seq![
            ("id"@, Json::Str(id)),
            ("type"@, Json::Str("function"@)),
            ("function"@, Json::Object(seq![("name"@, Json::Str(name)), ("arguments"@, Json::Str(args))])),
        ])])),
    ])
}

/// The text of a tool output: a string as is, else its `content` string,
/// else its JSON text; empty when absent.
pub open spec fn output_text(v: Json) -> Seq<char> {
    match get(v, "output"@) {
        None => Seq::empty(),
        Some(Json::Str(s)) => s,
        Some(o) => match get_str(o, "content"@) {
            Some(c) => c,
            None => json_text(o),
        },
    }
}

/// The tool name that the last call item among the first `n` items with
/// call id `id` declared.
pub open spec fn call_name(items: Seq<Json>, id: Seq<char>, n: int) -> Option<Seq<char>>
    decreases n,
{
    if n <= 0 || n > items.len() {
        None
    } else {
        let v = items[n - 1];
        match get_str(v, "type"@) {
            Some(t) => if is_call_kind(t) && call_id_of(v) == id {
                Some(tool_name_of(v, t))
            } else {
                call_name(items, id, n - 1)
            },
            None => call_name(items, id, n - 1),
        }
    }
}

/// A tool-role message for an output item; the tool name comes from the
/// call with the same id, `shell` when there is none.
pub open spec fn output_message(items: Seq<Json>, v: Json) -> Json {
    let id = str_or(v, "call_id"@, "unknown"@);
    let name = match call_name(items, id, items.len() as int) {
        Some(n) => n,
        None => "shell"@,
    };
    Json::Object(seq![
        ("role"@, Json::Str("tool"@)),
        ("tool_call_id"@, Json::Str(id)),
        ("name"@, Json::Str(name)),
        ("content"@, Json::Str(output_text(v))),
    ])
}

/// The line-joined text of `parts`.
pub fn join_lines_of(parts: &Vec<String>) -> (r: String)
    ensures
        r@ == join_lines(texts(parts@)),
{
    let mut out = String::new();
    let mut i: usize = 0;
    while i < parts.len()
        invariant
            i <= parts@.len(),
            out@ == join_lines(texts(parts@.subrange(0, i as int))),
        decreases parts@.len() - i,
    {
        if i > 0 {
            out.push('\n');
        }
        out.append(parts[i].as_str());
        proof {
            let p = texts(parts@.subrange(0, i + 1));
            assert(p.drop_last() =~= texts(parts@.subrange(0, i as int)));
            assert(out@ =~= join_lines(p));
        }
        i = i + 1;
    }
    assert(parts@.subrange(0, parts@.len() as int) =~= parts@);
    out
}

fn str_or_exec(v: &JsonValue, key: &str, default: &str) -> (r: String)
    ensures
        r@ == str_or(v@, key@, default@),
{
    match v.get_str(key) {
        Some(s) => s.clone(),
        None => String::from_str(default),
    }
}

fn call_id_exec(v: &JsonValue) -> (r: String)
    ensures
        r@ == call_id_of(v@),
{
    match v.get_str("call_id") {
        Some(s) => s.clone(),
        None => str_or_exec(v, "id", "unknown"),
    }
}

fn is_call_kind_exec(t: &str) -> (r: bool)
    ensures
        r == is_call_kind(t@),
{
    text_eq(t, "function_call") || text_eq(t, "local_shell_call") || text_eq(t, "web_search_call")
}

fn is_output_kind_exec(t: &str) -> (r: bool)
    ensures
        r == is_output_kind(t@),
{
    text_eq(t, "function_call_output") || text_eq(t, "custom_tool_call_output")
}

fn tool_name_exec(v: &JsonValue, t: &str) -> (r: String)
    ensures
        r@ == tool_name_of(v@, t@),
{
    if text_eq(t, "local_shell_call") {
        String::from_str("shell")
    } else if text_eq(t, "web_search_call") {
        String::from_str("google_search")
    } else {
        str_or_exec(v, "name", "unknown")
    }
}

fn shell_args_exec(exec: &JsonValue) -> (r: JsonValue)
    ensures
        r@ == Json::Object(shell_args(exec@)),
{
    let mut f: Vec<(String, JsonValue)> = Vec::new();
    match exec.get("command") {
        Some(c) => {
            let v = match c {
                JsonValue::Str(s) => {
                    let mut one: Vec<JsonValue> = Vec::new();
                    one.push(JsonValue::Str(s.clone()));
                    let a = array_of(one);
                    assert(views(one@) =~= seq![Json::Str(s@)]);
                    a
                },
                _ => c.duplicate(),
            };
            f.push((String::from_str("command"), v));
        },
        None => {},
    }
    let wd = match exec.get("working_directory") {
        Some(w) => Some(w),
        None => exec.get("workdir"),
    };
    match wd {
        Some(w) => {
            f.push((String::from_str("workdir"), w.duplicate()));
        },
        None => {},
    }
    let ghost g = f;
    let r = JsonValue::Object(f);
    proof {
        lemma_object_view(g);
        assert(r@->Object_0 =~= shell_args(exec@));
    }
    r
}

fn search_args_exec(action: &JsonValue) -> (r: JsonValue)
    ensures
        r@ == Json::Object(search_args(action@)),
{
    let mut f: Vec<(String, JsonValue)> = Vec::new();
    match action.get("query") {
        Some(q) => {
            f.push((String::from_str("query"), q.duplicate()));
        },
        None => {},
    }
    let ghost g = f;
    let r = JsonValue::Object(f);
    proof {
        lemma_object_view(g);
        assert(r@->Object_0 =~= search_args(action@));
    }
    r
}

fn call_arguments_exec(v: &JsonValue, t: &str) -> (r: String)
    ensures
        r@ == call_arguments(v@, t@),
{
    let given = str_or_exec(v, "arguments", "{}");
    if text_eq(t, "local_shell_call") {
        match v.get("action") {
            Some(a) => match a.get("exec") {
                Some(e) => shell_args_exec(e).to_json_string(),
                None => given,
            },
            None => given,
        }
    } else if text_eq(t, "web_search_call") {
        match v.get("action") {
            Some(a) => search_args_exec(a).to_json_string(),
            None => given,
        }
    } else {
        given
    }
}

/// The assistant message for a tool call.
pub fn call_message_exec(id: String, name: String, args: String) -> (r: JsonValue)
    ensures
        r@ == call_message(id@, name@, args@),
{
    let function = object2("name", JsonValue::Str(name), "arguments", JsonValue::Str(args));
    let call = object3("id", JsonValue::Str(id), "type", text_value("function"), "function", function);
    let mut calls: Vec<JsonValue> = Vec::new();
    calls.push(call);
    let calls_v = array_of(calls);
    assert(views(calls@) =~= seq![call@]);
    object2("role", text_value("assistant"), "tool_calls", calls_v)
}

fn output_text_exec(v: &JsonValue) -> (r: String)
    ensures
        r@ == output_text(v@),
{
    match v.get("output") {
        None => String::new(),
        Some(JsonValue::Str(s)) => s.clone(),
        Some(o) => match o.get_str("content") {
            Some(c) => c.clone(),
            None => o.to_json_string(),
        },
    }
}

fn call_name_exec(items: &Vec<JsonValue>, id: &str) -> (r: Option<String>)
    ensures
        match r {
            Some(n) => call_name(views(items@), id@, items@.len() as int) == Some(n@),
            None => call_name(views(items@), id@, items@.len() as int) is None,
        },
{
    let ghost vs = views(items@);
    let mut n: usize = items.len();
    while n > 0
        invariant
            n <= items@.len(),
            vs == views(items@),
            call_name(vs, id@, items@.len() as int) == call_name(vs, id@, n as int),
        decreases n,
    {
        let v = &items[n - 1];
        match v.get_str("type") {
            Some(t) => {
                if is_call_kind_exec(t.as_str()) {
                    let cid = call_id_exec(v);
                    if text_eq(cid.as_str(), id) {
                        return Some(tool_name_exec(v, t.as_str()));
                    }
                }
            },
            None => {},
        }
        n = n - 1;
    }
    None
}

fn output_message_exec(items: &Vec<JsonValue>, v: &JsonValue) -> (r: JsonValue)
    ensures
        r@ == output_message(views(items@), v@),
{
    let id = str_or_exec(v, "call_id", "unknown");
    let name = match call_name_exec(items, id.as_str()) {
        Some(n) => n,
        None => String::from_str("shell"),
    };
    let content = output_text_exec(v);
    object4("role", text_value("tool"), "tool_call_id", JsonValue::Str(id), "name", JsonValue::Str(name),
        "content", JsonValue::Str(content))
}


/// An image content block.
pub open spec fn image_block(url: Json) -> Json {
    Json::Object(seq![("type"@, Json::Str("image_url"@)), ("image_url"@, url)])
}

/// A text content block.
pub open spec fn text_block(t: Seq<char>) -> Json {
    Json::Object(seq![("type"@, Json::Str("text"@)), ("text"@, Json::Str(t))])
}

/// The text fields among the first `n` content parts.
pub open spec fn part_texts(parts: Seq<Json>, n: int) -> Seq<Seq<char>>
    decreases n,
{
    if n <= 0 || n > parts.len() {
        Seq::empty()
    } else {
        part_texts(parts, n - 1) + match get_str(parts[n - 1], "text"@) {
            Some(t) => seq![t],
            None => Seq::empty(),
        }
    }
}

/// The image block that a content part without text contributes, if any:
/// an `input_image` with a URL string, or a standard `image_url` part.
pub open spec fn part_image(p: Json) -> Seq<Json> {
    if get_str(p, "text"@) is Some {
        Seq::empty()
    } else if get_str(p, "type"@) == Some("input_image"@) {
        match get_str(p, "image_url"@) {
            Some(u) => seq![image_block(Json::Object(seq![("url"@, Json::Str(u))]))],
            None => Seq::empty(),
        }
    } else if get_str(p, "type"@) == Some("image_url"@) {
        match get(p, "image_url"@) {
            Some(u) => seq![image_block(u)],
            None => Seq::empty(),
        }
    } else {
        Seq::empty()
    }
}

/// The image blocks among the first `n` content parts.
pub open spec fn part_images(parts: Seq<Json>, n: int) -> Seq<Json>
    decreases n,
{
    if n <= 0 || n > parts.len() {
        Seq::empty()
    } else {
        part_images(parts, n - 1) + part_image(parts[n - 1])
    }
}

/// The content parts of a message item.
pub open spec fn content_parts(v: Json) -> Seq<Json> {
    match get(v, "content"@) {
        Some(Json::Array(p)) => p,
        _ => Seq::empty(),
    }
}

/// The chat message for a `message` item: text parts joined by line breaks;
/// a block list when the item carries images, else a string.
pub open spec fn message_item(v: Json) -> Json {
    let role = str_or(v, "role"@, "user"@);
    let parts = content_parts(v);
    let ts = part_texts(parts, parts.len() as int);
    let imgs = part_images(parts, parts.len() as int);
    if imgs.len() == 0 {
        Json::Object(seq![("role"@, Json::Str(role)), ("content"@, Json::Str(join_lines(ts)))])
    } else {
        let lead = if ts.len() > 0 { seq![text_block(join_lines(ts))] } else { Seq::empty() };
        Json::Object(seq![("role"@, Json::Str(role)), ("content"@, Json::Array(lead + imgs))])
    }
}

/// The messages one structured input item becomes.
pub open spec fn item_messages(items: Seq<Json>, v: Json) -> Seq<Json> {
    match get_str(v, "type"@) {
        Some(t) => if t == "message"@ {
            seq![message_item(v)]
        } else if is_call_kind(t) {
            seq![call_message(call_id_of(v), tool_name_of(v, t), call_arguments(v, t))]
        } else if is_output_kind(t) {
            seq![output_message(items, v)]
        } else {
            Seq::empty()
        },
        None => Seq::empty(),
    }
}

/// The messages the first `n` structured input items become.
pub open spec fn codex_messages(items: Seq<Json>, n: int) -> Seq<Json>
    decreases n,
{
    if n <= 0 || n > items.len() {
        Seq::empty()
    } else {
        codex_messages(items, n - 1) + item_messages(items, items[n - 1])
    }
}

fn image_part_exec(p: &JsonValue) -> (r: Option<JsonValue>)
    ensures
        match r {
            Some(b) => part_image(p@) == seq![b@],
            None => part_image(p@).len() == 0,
        },
{
    if p.get_str("text").is_some() {
        return None;
    }
    let kind = p.get_str("type");
    let is_input_image = match kind {
        Some(k) => text_eq(k.as_str(), "input_image"),
        None => false,
    };
    let is_image_url = match kind {
        Some(k) => text_eq(k.as_str(), "image_url"),
        None => false,
    };
    if is_input_image {
        match p.get_str("image_url") {
            Some(u) => {
                let url = object1("url", JsonValue::Str(u.clone()));
                Some(object2("type", text_value("image_url"), "image_url", url))
            },
            None => None,
        }
    } else if is_image_url {
        match p.get("image_url") {
            Some(u) => Some(object2("type", text_value("image_url"), "image_url", u.duplicate())),
            None => None,
        }
    } else {
        None
    }
}

/// The chat message for a `message` item.
pub fn message_item_exec(v: &JsonValue) -> (r: JsonValue)
    ensures
        r@ == message_item(v@),
{
    let role = str_or_exec(v, "role", "user");
    let mut ts: Vec<String> = Vec::new();
    let mut imgs: Vec<JsonValue> = Vec::new();
    let ghost parts = content_parts(v@);
    match v.get("content") {
        Some(JsonValue::Array(items)) => {
            proof {
                lemma_array_view(*items);
                assert(JsonValue::Array(*items)@->Array_0 =~= views(items@));
            }
            let mut i: usize = 0;
            while i < items.len()
                invariant
                    parts == views(items@),
                    i <= items@.len(),
                    texts(ts@) == part_texts(parts, i as int),
                    views(imgs@) == part_images(parts, i as int),
                decreases items@.len() - i,
            {
                let p = &items[i];
                match p.get_str("text") {
                    Some(t) => {
                        ts.push(t.clone());
                    },
                    None => {},
                }
                match image_part_exec(p) {
                    Some(b) => {
                        imgs.push(b);
                    },
                    None => {},
                }
                assert(texts(ts@) =~= part_texts(parts, i + 1));
                assert(views(imgs@) =~= part_images(parts, i + 1));
                i = i + 1;
            }
        },
        _ => {
            assert(texts(ts@) =~= part_texts(parts, parts.len() as int));
            assert(views(imgs@) =~= part_images(parts, parts.len() as int));
        },
    }
    let joined = join_lines_of(&ts);
    if imgs.len() == 0 {
        object2("role", JsonValue::Str(role), "content", JsonValue::Str(joined))
    } else {
        let mut blocks: Vec<JsonValue> = Vec::new();
        if ts.len() > 0 {
            let tb = object2("type", text_value("text"), "text", JsonValue::Str(joined));
            blocks.push(tb);
            assert(views(blocks@) =~= seq![text_block(join_lines(texts(ts@)))]);
        } else {
            assert(views(blocks@) =~= Seq::<Json>::empty());
        }
        let ghost lead = views(blocks@);
        let mut j: usize = 0;
        while j < imgs.len()
            invariant
                j <= imgs@.len(),
                blocks@.len() == lead.len() + j,
                forall|k: int| 0 <= k < lead.len() ==> (#[trigger] blocks@[k])@ == lead[k],
                forall|k: int| 0 <= k < j ==> (#[trigger] blocks@[lead.len() + k])@ == imgs@[k]@,
            decreases imgs@.len() - j,
        {
            blocks.push(imgs[j].duplicate());
            j = j + 1;
        }
        assert forall|k: int| 0 <= k < blocks@.len() implies views(blocks@)[k] == (lead + views(imgs@))[k] by {
            if k >= lead.len() {
                let m = k - lead.len();
                assert(blocks@[lead.len() + m]@ == imgs@[m]@);
            }
        }
        assert(views(blocks@) =~= lead + views(imgs@));
        assert(texts(ts@).len() == ts@.len());
        object2("role", JsonValue::Str(role), "content", array_of(blocks))
    }
}

/// The messages one structured input item becomes.
fn item_messages_exec(items: &Vec<JsonValue>, v: &JsonValue) -> (r: Option<JsonValue>)
    ensures
        match r {
            Some(m) => item_messages(views(items@), v@) == seq![m@],
            None => item_messages(views(items@), v@).len() == 0,
        },
{
    match v.get_str("type") {
        Some(t) => {
            if text_eq(t.as_str(), "message") {
                Some(message_item_exec(v))
            } else if is_call_kind_exec(t.as_str()) {
                let id = call_id_exec(v);
                let name = tool_name_exec(v, t.as_str());
                let args = call_arguments_exec(v, t.as_str());
                Some(call_message_exec(id, name, args))
            } else if is_output_kind_exec(t.as_str()) {
                Some(output_message_exec(items, v))
            } else {
                None
            }
        },
        None => None,
    }
}

/// The messages a structured (Codex) input list becomes.
pub fn codex_messages_exec(items: &Vec<JsonValue>) -> (r: Vec<JsonValue>)
    ensures
        views(r@) == codex_messages(views(items@), items@.len() as int),
{
    let ghost vs = views(items@);
    let mut out: Vec<JsonValue> = Vec::new();
    let mut i: usize = 0;
    while i < items.len()
        invariant
            vs == views(items@),
            i <= items@.len(),
            views(out@) == codex_messages(vs, i as int),
        decreases items@.len() - i,
    {
        match item_messages_exec(items, &items[i]) {
            Some(m) => {
                out.push(m);
            },
            None => {},
        }
        assert(views(out@) =~= codex_messages(vs, i + 1));
        i = i + 1;
    }
    out
}


/// An input item that carries a `type` tag.
pub open spec fn typed_item(v: Json) -> bool {
    get_str(v, "type"@) is Some
}

/// Some item of the list carries a `type` tag: the structured (Codex) form.
pub open spec fn any_typed(items: Seq<Json>) -> bool {
    exists|i: int| 0 <= i < items.len() && typed_item(#[trigger] items[i])
}

/// The list's first item has a `role`: it is a list of messages.
pub open spec fn role_list(items: Seq<Json>) -> bool {
    items.len() > 0 && get(items[0], "role"@) is Some
}

/// The text a loose input element contributes: a string as is, an object
/// as its JSON text, anything else nothing.
pub open spec fn loose_text(v: Json) -> Seq<char> {
    match v {
        Json::Str(s) => s,
        Json::Object(_) => json_text(v),
        _ => Seq::empty(),
    }
}

/// The messages the Responses `input` field becomes.
pub open spec fn input_messages(input: Json) -> Seq<Json> {
    match input {
        Json::Str(s) => seq![text_message("user"@, s)],
        Json::Array(items) => if any_typed(items) {
            codex_messages(items, items.len() as int)
        } else if role_list(items) {
            items
        } else {
            let j = join_lines(items.map_values(|x: Json| loose_text(x)));
            if j.len() > 0 { seq![text_message("user"@, j)] } else { Seq::empty() }
        },
        other => seq![text_message("user"@, json_text(other))],
    }
}

/// The system message that non-empty `instructions` become.
pub open spec fn system_messages(body: Json) -> Seq<Json> {
    match get_str(body, "instructions"@) {
        Some(s) => if s.len() > 0 { seq![text_message("system"@, s)] } else { Seq::empty() },
        None => Seq::empty(),
    }
}

/// The strings among `items`, in order.
pub open spec fn strings_in(items: Seq<Json>) -> Seq<Seq<char>>
    decreases items.len(),
{
    if items.len() == 0 {
        Seq::empty()
    } else {
        strings_in(items.drop_last()) + match items.last() {
            Json::Str(s) => seq![s],
            _ => Seq::empty(),
        }
    }
}

/// The text of a Legacy `prompt`: a string, or the strings of an array
/// joined by line breaks, or else the JSON text.
pub open spec fn prompt_text(p: Json) -> Seq<char> {
    match p {
        Json::Str(s) => s,
        Json::Array(items) => join_lines(strings_in(items)),
        other => json_text(other),
    }
}

/// The body already holds a non-empty `messages` list (Chat dialect).
pub open spec fn has_messages(body: Json) -> bool {
    match get(body, "messages"@) {
        Some(Json::Array(ms)) => ms.len() > 0,
        _ => false,
    }
}

/// The body is in the Responses or Codex dialect.
pub open spec fn responses_style(body: Json) -> bool {
    get(body, "instructions"@) is Some || get(body, "input"@) is Some
}

/// The body is in the Legacy Completions dialect.
pub open spec fn legacy_style(body: Json) -> bool {
    !responses_style(body) && get(body, "prompt"@) is Some
}

/// The messages a body without a non-empty `messages` list stands for.
pub open spec fn dialect_messages(body: Json) -> Seq<Json> {
    if responses_style(body) {
        system_messages(body) + match get(body, "input"@) {
            Some(i) => input_messages(i),
            None => Seq::empty(),
        }
    } else if legacy_style(body) {
        seq![text_message("user"@, prompt_text(get(body, "prompt"@)->0))]
    } else {
        Seq::empty()
    }
}

/// The single message injected when nothing else is there.
pub open spec fn placeholder_messages() -> Seq<Json> {
    seq![text_message("user"@, " "@)]
}

/// The messages of the canonical request: never empty.
pub open spec fn canonical_messages(body: Json) -> Seq<Json> {
    let ms = dialect_messages(body);
    if ms.len() == 0 { placeholder_messages() } else { ms }
}

/// The members kept beside the new `messages`: all but `messages`, and
/// but `prompt` when `drop_prompt`.
pub open spec fn strip_members(f: Seq<(Seq<char>, Json)>, drop_prompt: bool) -> Seq<(Seq<char>, Json)>
    decreases f.len(),
{
    if f.len() == 0 {
        Seq::empty()
    } else {
        let m = f.last();
        strip_members(f.drop_last(), drop_prompt) + if m.0 == "messages"@ || (drop_prompt && m.0 == "prompt"@) {
            Seq::empty()
        } else {
            seq![m]
        }
    }
}

/// The canonical form of a request body (an object).
pub open spec fn normalized(body: Json) -> Json {
    if has_messages(body) {
        body
    } else {
        match body {
            Json::Object(f) => Json::Object(
                strip_members(f, legacy_style(body)).push(("messages"@, Json::Array(canonical_messages(body)))),
            ),
            other => other,
        }
    }
}

/// Why a body cannot be normalized.
pub enum NormalizeError {
    /// The body is not a JSON object.
    NotAnObject,
}

fn any_typed_exec(items: &Vec<JsonValue>) -> (r: bool)
    ensures
        r == any_typed(views(items@)),
{
    let mut i: usize = 0;
    while i < items.len()
        invariant
            i <= items@.len(),
            forall|k: int| 0 <= k < i ==> !typed_item(#[trigger] views(items@)[k]),
        decreases items@.len() - i,
    {
        if items[i].get_str("type").is_some() {
            assert(typed_item(views(items@)[i as int]));
            return true;
        }
        i = i + 1;
    }
    false
}

fn loose_text_exec(v: &JsonValue) -> (r: String)
    ensures
        r@ == loose_text(v@),
{
    match v {
        JsonValue::Str(s) => s.clone(),
        JsonValue::Object(_) => v.to_json_string(),
        _ => String::new(),
    }
}

fn copy_all(items: &Vec<JsonValue>) -> (r: Vec<JsonValue>)
    ensures
        views(r@) == views(items@),
{
    let mut out: Vec<JsonValue> = Vec::new();
    let mut i: usize = 0;
    while i < items.len()
        invariant
            i <= items@.len(),
            out@.len() == i,
            forall|k: int| 0 <= k < i ==> (#[trigger] out@[k])@ == items@[k]@,
        decreases items@.len() - i,
    {
        out.push(items[i].duplicate());
        i = i + 1;
    }
    assert(views(out@) =~= views(items@));
    out
}

fn text_message_exec(role: &str, text: String) -> (r: JsonValue)
    ensures
        r@ == text_message(role@, text@),
{
    object2("role", text_value(role), "content", JsonValue::Str(text))
}

/// The messages the Responses `input` field becomes.
pub fn input_messages_exec(input: &JsonValue) -> (r: Vec<JsonValue>)
    ensures
        views(r@) == input_messages(input@),
{
    let mut out: Vec<JsonValue> = Vec::new();
    match input {
        JsonValue::Str(s) => {
            out.push(text_message_exec("user", s.clone()));
            assert(views(out@) =~= input_messages(input@));
        },
        JsonValue::Array(items) => {
            proof {
                lemma_array_view(*items);
                assert(input@->Array_0 =~= views(items@));
            }
            if any_typed_exec(items) {
                out = codex_messages_exec(items);
            } else if items.len() > 0 && items[0].get("role").is_some() {
                out = copy_all(items);
            } else {
                let mut parts: Vec<String> = Vec::new();
                let mut i: usize = 0;
                while i < items.len()
                    invariant
                        i <= items@.len(),
                        parts@.len() == i,
                        forall|k: int| 0 <= k < i ==> (#[trigger] parts@[k])@ == loose_text(items@[k]@),
                    decreases items@.len() - i,
                {
                    parts.push(loose_text_exec(&items[i]));
                    i = i + 1;
                }
                assert(texts(parts@) =~= views(items@).map_values(|x: Json| loose_text(x)));
                let j = join_lines_of(&parts);
                if !j.as_str().is_empty() {
                    out.push(text_message_exec("user", j));
                    assert(views(out@) =~= input_messages(input@));
                } else {
                    assert(views(out@) =~= input_messages(input@));
                }
            }
        },
        _ => {
            out.push(text_message_exec("user", input.to_json_string()));
            assert(views(out@) =~= input_messages(input@));
        },
    }
    out
}

fn prompt_text_exec(p: &JsonValue) -> (r: String)
    ensures
        r@ == prompt_text(p@),
{
    match p {
        JsonValue::Str(s) => s.clone(),
        JsonValue::Array(items) => {
            proof {
                lemma_array_view(*items);
                assert(p@->Array_0 =~= views(items@));
            }
            let mut parts: Vec<String> = Vec::new();
            let mut i: usize = 0;
            while i < items.len()
                invariant
                    i <= items@.len(),
                    texts(parts@) == strings_in(views(items@).subrange(0, i as int)),
                decreases items@.len() - i,
            {
                match &items[i] {
                    JsonValue::Str(s) => {
                        parts.push(s.clone());
                    },
                    _ => {},
                }
                assert(views(items@).subrange(0, i + 1).drop_last() =~= views(items@).subrange(0, i as int));
                assert(texts(parts@) =~= strings_in(views(items@).subrange(0, i + 1)));
                i = i + 1;
            }
            assert(views(items@).subrange(0, items@.len() as int) =~= views(items@));
            join_lines_of(&parts)
        },
        _ => p.to_json_string(),
    }
}

/// Whether the body is in the Responses or Codex dialect.
pub fn is_responses_style(body: &JsonValue) -> (r: bool)
    ensures
        r == responses_style(body@),
{
    body.get("instructions").is_some() || body.get("input").is_some()
}

fn has_messages_exec(body: &JsonValue) -> (r: bool)
    ensures
        r == has_messages(body@),
{
    match body.get("messages") {
        Some(JsonValue::Array(ms)) => {
            proof {
                lemma_array_view(*ms);
            }
            ms.len() > 0
        },
        _ => false,
    }
}

/// Turns any accepted dialect into the canonical chat request: the body with
/// a non-empty `messages` list (and, for Legacy bodies, without `prompt`).
/// A body that already has a non-empty `messages` list is returned as is.
pub fn normalize_request(body: &JsonValue) -> (r: Result<JsonValue, NormalizeError>)
    ensures
        match r {
            Ok(v) => body@ is Object && v@ == normalized(body@),
            Err(_) => !(body@ is Object),
        },
{
    let fields = match body {
        JsonValue::Object(f) => f,
        _ => {
            return Err(NormalizeError::NotAnObject);
        },
    };
    if has_messages_exec(body) {
        return Ok(body.duplicate());
    }
    proof {
        lemma_object_view(*fields);
    }
    let responses = body.get("instructions").is_some() || body.get("input").is_some();
    let legacy = !responses && body.get("prompt").is_some();
    let mut msgs: Vec<JsonValue> = Vec::new();
    if responses {
        match body.get_str("instructions") {
            Some(s) => {
                if !s.as_str().is_empty() {
                    msgs.push(text_message_exec("system", s.clone()));
                }
            },
            None => {},
        }
        assert(views(msgs@) =~= system_messages(body@));
        match body.get("input") {
            Some(i) => {
                let more = input_messages_exec(i);
                let ghost before = views(msgs@);
                let mut j: usize = 0;
                while j < more.len()
                    invariant
                        j <= more@.len(),
                        msgs@.len() == before.len() + j,
                        forall|k: int| 0 <= k < before.len() ==> (#[trigger] msgs@[k])@ == before[k],
                        forall|k: int| 0 <= k < j ==> (#[trigger] msgs@[before.len() + k])@ == more@[k]@,
                    decreases more@.len() - j,
                {
                    msgs.push(more[j].duplicate());
                    j = j + 1;
                }
                assert forall|k: int| 0 <= k < msgs@.len() implies views(msgs@)[k] == (before + views(more@))[k] by {
                    if k >= before.len() {
                        let m = k - before.len();
                        assert(msgs@[before.len() + m]@ == more@[m]@);
                    }
                }
                assert(views(msgs@) =~= before + views(more@));
            },
            None => {
                assert(views(msgs@) =~= system_messages(body@) + Seq::<Json>::empty());
            },
        }
    } else if legacy {
        match body.get("prompt") {
            Some(p) => {
                msgs.push(text_message_exec("user", prompt_text_exec(p)));
            },
            None => {},
        }
        assert(views(msgs@) =~= dialect_messages(body@));
    } else {
        assert(views(msgs@) =~= dialect_messages(body@));
    }
    assert(views(msgs@) == dialect_messages(body@));
    if msgs.len() == 0 {
        msgs.push(text_message_exec("user", String::from_str(" ")));
        assert(views(msgs@) =~= placeholder_messages());
    }
    let ghost fv = body@->Object_0;
    let mut kept: Vec<(String, JsonValue)> = Vec::new();
    let mut i: usize = 0;
    while i < fields.len()
        invariant
            fv == body@->Object_0,
            fv.len() == fields@.len(),
            forall|k: int| 0 <= k < fields@.len() ==> fv[k] == (#[trigger] fields@[k].0@, json_view(fields@[k].1)),
            i <= fields@.len(),
            kept@.map_values(|m: (String, JsonValue)| (m.0@, m.1@)) == strip_members(fv.subrange(0, i as int), legacy),
        decreases fields@.len() - i,
    {
        let key = fields[i].0.as_str();
        let drop = text_eq(key, "messages") || (legacy && text_eq(key, "prompt"));
        let ghost before = kept@;
        if !drop {
            kept.push((fields[i].0.clone(), fields[i].1.duplicate()));
        }
        proof {
            assert(fv.subrange(0, i + 1).drop_last() =~= fv.subrange(0, i as int));
            assert(kept@.map_values(|m: (String, JsonValue)| (m.0@, m.1@)) =~= strip_members(fv.subrange(0, i + 1), legacy));
        }
        i = i + 1;
    }
    assert(fv.subrange(0, fields@.len() as int) =~= fv);
    let ghost mv = views(msgs@);
    let list = array_of(msgs);
    kept.push((String::from_str("messages"), list));
    let ghost g = kept;
    let r = JsonValue::Object(kept);
    proof {
        lemma_object_view(g);
        assert(r@->Object_0 =~= strip_members(fv, legacy).push(("messages"@, Json::Array(mv))));
    }
    Ok(r)
}

proof fn lemma_strip_has_no_messages(f: Seq<(Seq<char>, Json)>, drop_prompt: bool)
    ensures
        forall|k: int| 0 <= k < strip_members(f, drop_prompt).len() ==> (#[trigger] strip_members(f, drop_prompt)[k]).0 != "messages"@,
    decreases f.len(),
{
    if f.len() > 0 {
        let m = f.last();
        let a = strip_members(f.drop_last(), drop_prompt);
        let tail = if m.0 == "messages"@ || (drop_prompt && m.0 == "prompt"@) { Seq::empty() } else { seq![m] };
        lemma_strip_has_no_messages(f.drop_last(), drop_prompt);
        assert(strip_members(f, drop_prompt) == a + tail);
        assert forall|k: int| 0 <= k < (a + tail).len() implies (#[trigger] (a + tail)[k]).0 != "messages"@ by {
            if k < a.len() {
                assert((a + tail)[k] == a[k]);
            } else {
                assert((a + tail)[k] == tail[k - a.len()]);
            }
        }
    }
}

proof fn lemma_member_after(g: Seq<(Seq<char>, Json)>, key: Seq<char>, v: Json, i: int)
    requires
        0 <= i <= g.len(),
        forall|k: int| 0 <= k < g.len() ==> (#[trigger] g[k]).0 != key,
    ensures
        member_from(g.push((key, v)), key, i) == Some(v),
    decreases g.len() - i,
{
    if i < g.len() {
        lemma_member_after(g, key, v, i + 1);
    }
}

/// Every normalized body has a non-empty `messages` list.
pub proof fn lemma_normalized_has_messages(body: Json)
    requires
        body is Object,
    ensures
        has_messages(normalized(body)),
        get(normalized(body), "messages"@) matches Some(Json::Array(ms)) && ms.len() > 0,
{
    if !has_messages(body) {
        let f = body->Object_0;
        let g = strip_members(f, legacy_style(body));
        lemma_strip_has_no_messages(f, legacy_style(body));
        lemma_member_after(g, "messages"@, Json::Array(canonical_messages(body)), 0);
    }
}

/// Normalizing twice gives what normalizing once gives.
pub proof fn lemma_normalize_idempotent(body: Json)
    requires
        body is Object,
    ensures
        normalized(normalized(body)) == normalized(body),
{
    lemma_normalized_has_messages(body);
}


/// The note appended to the last user message after a signature failure.
pub open spec fn recovery_prompt() -> Seq<char> {
    "\n\n[System Recovery] Your previous output contained an invalid signature. Please regenerate the response without the corrupted signature block."@
}

fn recovery_prompt_exec() -> (r: &'static str)
    ensures
        r@ == recovery_prompt(),
{
    "\n\n[System Recovery] Your previous output contained an invalid signature. Please regenerate the response without the corrupted signature block."
}

/// An optional position as an integer.
pub open spec fn as_int(o: Option<usize>) -> Option<int> {
    match o {
        Some(i) => Some(i as int),
        None => None,
    }
}

/// The view of an optional value.
pub open spec fn opt_view(o: Option<JsonValue>) -> Option<Json> {
    match o {
        Some(v) => Some(v@),
        None => None,
    }
}

/// The position of the first member named `key` at or after `i`.
pub open spec fn member_index(f: Seq<(Seq<char>, Json)>, key: Seq<char>, i: int) -> Option<int>
    decreases f.len() - i,
{
    if i < 0 || i >= f.len() {
        None
    } else if f[i].0 == key {
        Some(i)
    } else {
        member_index(f, key, i + 1)
    }
}

/// The position of the last message among the first `n` whose role is `user`.
pub open spec fn last_user_index(ms: Seq<Json>, n: int) -> Option<int>
    decreases n,
{
    if n <= 0 || n > ms.len() {
        None
    } else if get_str(ms[n - 1], "role"@) == Some("user"@) {
        Some(n - 1)
    } else {
        last_user_index(ms, n - 1)
    }
}

/// Message content with the recovery note appended: to a string, or as a
/// trailing text block to a block list. Other content is left alone.
pub open spec fn repaired_content(c: Json) -> Option<Json> {
    match c {
        Json::Str(s) => Some(Json::Str(s + recovery_prompt())),
        Json::Array(bs) => Some(Json::Array(bs.push(text_block(recovery_prompt())))),
        _ => None,
    }
}

/// The object `v` with the first member `key` set to `new`, when it has one.
pub open spec fn with_member(v: Json, key: Seq<char>, new: Json) -> Json {
    match v {
        Json::Object(f) => match member_index(f, key, 0) {
            Some(i) => Json::Object(f.update(i, (key, new))),
            None => v,
        },
        _ => v,
    }
}

/// The request with the recovery note added to its last user message; the
/// request itself when it has no such message or its content is neither a
/// string nor a block list.
pub open spec fn with_recovery_prompt(body: Json) -> Json {
    match get(body, "messages"@) {
        Some(Json::Array(ms)) => match last_user_index(ms, ms.len() as int) {
            Some(u) => match get(ms[u], "content"@) {
                Some(c) => match repaired_content(c) {
                    Some(nc) => with_member(body, "messages"@, Json::Array(ms.update(u, with_member(ms[u], "content"@, nc)))),
                    None => body,
                },
                None => body,
            },
            None => body,
        },
        _ => body,
    }
}

proof fn lemma_member_index(f: Seq<(Seq<char>, Json)>, key: Seq<char>, i: int)
    requires
        0 <= i,
    ensures
        match member_index(f, key, i) {
            Some(j) => i <= j < f.len() && f[j].0 == key && member_from(f, key, i) == Some(f[j].1),
            None => member_from(f, key, i) is None,
        },
    decreases f.len() - i,
{
    if i < f.len() && f[i].0 != key {
        lemma_member_index(f, key, i + 1);
    }
}

fn member_index_exec(f: &Vec<(String, JsonValue)>, key: &str) -> (r: Option<usize>)
    ensures
        as_int(r) == member_index(f@.map_values(|m: (String, JsonValue)| (m.0@, m.1@)), key@, 0),
{
    let ghost fv = f@.map_values(|m: (String, JsonValue)| (m.0@, m.1@));
    let mut i: usize = 0;
    while i < f.len()
        invariant
            fv == f@.map_values(|m: (String, JsonValue)| (m.0@, m.1@)),
            i <= f@.len(),
            member_index(fv, key@, 0) == member_index(fv, key@, i as int),
        decreases f@.len() - i,
    {
        if text_eq(f[i].0.as_str(), key) {
            return Some(i);
        }
        i = i + 1;
    }
    None
}

/// A copy of the object `fields` with member `i` holding `new`.
fn replace_member(fields: &Vec<(String, JsonValue)>, i: usize, new: JsonValue) -> (r: JsonValue)
    requires
        i < fields@.len(),
    ensures
        r@ == Json::Object(JsonValue::Object(*fields)@->Object_0.update(i as int, (fields@[i as int].0@, new@))),
{
    proof {
        lemma_object_view(*fields);
    }
    let ghost nv = new@;
    let mut out: Vec<(String, JsonValue)> = Vec::new();
    let mut slot: Option<JsonValue> = Some(new);
    let mut k: usize = 0;
    while k < fields.len()
        invariant
            k <= fields@.len(),
            i < fields@.len(),
            out@.len() == k,
            k <= i ==> slot is Some && slot->0@ == nv,
            forall|j: int| 0 <= j < k ==> (#[trigger] out@[j]).0@ == fields@[j].0@,
            forall|j: int| 0 <= j < k && j != i ==> (#[trigger] out@[j]).1@ == fields@[j].1@,
            i < k ==> out@[i as int].1@ == nv,
        decreases fields@.len() - k,
    {
        if k == i {
            let v = slot.take().unwrap();
            out.push((fields[k].0.clone(), v));
        } else {
            out.push((fields[k].0.clone(), fields[k].1.duplicate()));
        }
        k = k + 1;
    }
    let ghost g = out;
    let r = JsonValue::Object(out);
    proof {
        lemma_object_view(g);
        assert(r@->Object_0 =~= JsonValue::Object(*fields)@->Object_0.update(i as int, (fields@[i as int].0@, nv)));
    }
    r
}

/// A copy of the array `items` with item `i` replaced by `new`.
fn replace_item(items: &Vec<JsonValue>, i: usize, new: JsonValue) -> (r: Vec<JsonValue>)
    requires
        i < items@.len(),
    ensures
        views(r@) == views(items@).update(i as int, new@),
{
    let ghost nv = new@;
    let mut out: Vec<JsonValue> = Vec::new();
    let mut slot: Option<JsonValue> = Some(new);
    let mut k: usize = 0;
    while k < items.len()
        invariant
            k <= items@.len(),
            i < items@.len(),
            out@.len() == k,
            k <= i ==> slot is Some && slot->0@ == nv,
            forall|j: int| 0 <= j < k && j != i ==> (#[trigger] out@[j])@ == items@[j]@,
            i < k ==> out@[i as int]@ == nv,
        decreases items@.len() - k,
    {
        if k == i {
            let v = slot.take().unwrap();
            out.push(v);
        } else {
            out.push(items[k].duplicate());
        }
        k = k + 1;
    }
    assert(views(out@) =~= views(items@).update(i as int, nv));
    out
}

fn last_user_index_exec(ms: &Vec<JsonValue>) -> (r: Option<usize>)
    ensures
        as_int(r) == last_user_index(views(ms@), ms@.len() as int),
        r is Some ==> r->0 < ms@.len(),
{
    let mut n: usize = ms.len();
    while n > 0
        invariant
            n <= ms@.len(),
            last_user_index(views(ms@), ms@.len() as int) == last_user_index(views(ms@), n as int),
        decreases n,
    {
        let is_user = match ms[n - 1].get_str("role") {
            Some(r) => text_eq(r.as_str(), "user"),
            None => false,
        };
        if is_user {
            return Some(n - 1);
        }
        n = n - 1;
    }
    None
}

fn repaired_content_exec(c: &JsonValue) -> (r: Option<JsonValue>)
    ensures
        opt_view(r) == repaired_content(c@),
{
    match c {
        JsonValue::Str(s) => {
            let mut t = s.clone();
            t.append(recovery_prompt_exec());
            Some(JsonValue::Str(t))
        },
        JsonValue::Array(bs) => {
            proof {
                lemma_array_view(*bs);
            }
            assert(c@->Array_0 =~= views(bs@));
            let mut out = copy_all(bs);
            out.push(object2("type", text_value("text"), "text", text_value(recovery_prompt_exec())));
            let r = array_of(out);
            assert(views(out@) =~= c@->Array_0.push(text_block(recovery_prompt())));
            Some(r)
        },
        _ => None,
    }
}

/// Adds the recovery note to the last user message of a canonical request,
/// keeping the shape of its content.
pub fn add_recovery_prompt(body: &JsonValue) -> (r: JsonValue)
    ensures
        r@ == with_recovery_prompt(body@),
{
    let fields = match body {
        JsonValue::Object(f) => f,
        _ => {
            return body.duplicate();
        },
    };
    proof {
        lemma_object_view(*fields);
        assert(body@->Object_0 =~= fields@.map_values(|m: (String, JsonValue)| (m.0@, m.1@)));
        lemma_member_index(body@->Object_0, "messages"@, 0);
    }
    let mi = match member_index_exec(fields, "messages") {
        Some(i) => i,
        None => {
            return body.duplicate();
        },
    };
    let ms = match &fields[mi].1 {
        JsonValue::Array(ms) => ms,
        _ => {
            return body.duplicate();
        },
    };
    proof {
        lemma_array_view(*ms);
        assert(fields@[mi as int].1@->Array_0 =~= views(ms@));
    }
    let u = match last_user_index_exec(ms) {
        Some(u) => u,
        None => {
            return body.duplicate();
        },
    };
    let msg = &ms[u];
    let mfields = match msg {
        JsonValue::Object(f) => f,
        _ => {
            return body.duplicate();
        },
    };
    proof {
        lemma_object_view(*mfields);
        assert(msg@->Object_0 =~= mfields@.map_values(|m: (String, JsonValue)| (m.0@, m.1@)));
        lemma_member_index(msg@->Object_0, "content"@, 0);
    }
    let ci = match member_index_exec(mfields, "content") {
        Some(i) => i,
        None => {
            return body.duplicate();
        },
    };
    let nc = match repaired_content_exec(&mfields[ci].1) {
        Some(nc) => nc,
        None => {
            return body.duplicate();
        },
    };
    let new_msg = replace_member(mfields, ci, nc);
    let new_ms = replace_item(ms, u, new_msg);
    replace_member(fields, mi, array_of(new_ms))
}

} // verus!
