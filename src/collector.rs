//! Folds the chunks of a translated chat event stream back into one chat
//! completion, and projects a chat completion onto the Legacy shape.
use vstd::prelude::*;
use crate::json::{Json, JsonValue, get, get_str, views, lemma_array_view, array_of, text_value, object2, object3};
use crate::normalize::str_or;
use crate::text::text_eq;

verus! {

/// What has been gathered for one choice: its index (as number text), its
/// text so far and its latest finish reason.
pub type Gathered = (Seq<char>, Seq<char>, Option<Seq<char>>);

/// The choices of a chunk.
pub open spec fn choice_list(chunk: Json) -> Seq<Json> {
    match get(chunk, "choices"@) {
        Some(Json::Array(cs)) => cs,
        _ => Seq::empty(),
    }
}

/// The index of a choice, as the text of its number; `0` when absent.
pub open spec fn index_text(c: Json) -> Seq<char> {
    match get(c, "index"@) {
        Some(Json::Number(t)) => t,
        _ => "0"@,
    }
}

/// The text fragment a choice carries in `delta.content`.
pub open spec fn delta_text(c: Json) -> Seq<char> {
    match get(c, "delta"@) {
        Some(d) => str_or(d, "content"@, Seq::empty()),
        None => Seq::empty(),
    }
}

/// The first entry of `acc` at or after `p` for choice index `idx`.
pub open spec fn find_entry(acc: Seq<Gathered>, idx: Seq<char>, p: int) -> Option<int>
    decreases acc.len() - p,
{
    if p < 0 || p >= acc.len() {
        None
    } else if acc[p].0 == idx {
        Some(p)
    } else {
        find_entry(acc, idx, p + 1)
    }
}

/// `acc` after taking in one choice.
pub open spec fn absorb_choice(acc: Seq<Gathered>, c: Json) -> Seq<Gathered> {
    let idx = index_text(c);
    let fin = get_str(c, "finish_reason"@);
    match find_entry(acc, idx, 0) {
        Some(p) => acc.update(p, (idx, acc[p].1 + delta_text(c), if fin is Some { fin } else { acc[p].2 })),
        None => acc.push((idx, delta_text(c), fin)),
    }
}

/// `acc` after taking in the first `m` choices of `cs`.
pub open spec fn absorb_choices(acc: Seq<Gathered>, cs: Seq<Json>, m: int) -> Seq<Gathered>
    decreases m,
{
    if m <= 0 || m > cs.len() {
        acc
    } else {
        absorb_choice(absorb_choices(acc, cs, m - 1), cs[m - 1])
    }
}

/// What the first `n` chunks gather.
pub open spec fn gathered(chunks: Seq<Json>, n: int) -> Seq<Gathered>
    decreases n,
{
    if n <= 0 || n > chunks.len() {
        Seq::empty()
    } else {
        let cs = choice_list(chunks[n - 1]);
        absorb_choices(gathered(chunks, n - 1), cs, cs.len() as int)
    }
}

/// The fragments for choice `idx` among the first `m` choices of `cs`, in order.
pub open spec fn chunk_text(cs: Seq<Json>, idx: Seq<char>, m: int) -> Seq<char>
    decreases m,
{
    if m <= 0 || m > cs.len() {
        Seq::empty()
    } else {
        chunk_text(cs, idx, m - 1) + if index_text(cs[m - 1]) == idx { delta_text(cs[m - 1]) } else { Seq::empty() }
    }
}

/// The fragments for choice `idx` in the first `n` chunks, in order.
pub open spec fn stream_text(chunks: Seq<Json>, idx: Seq<char>, n: int) -> Seq<char>
    decreases n,
{
    if n <= 0 || n > chunks.len() {
        Seq::empty()
    } else {
        let cs = choice_list(chunks[n - 1]);
        stream_text(chunks, idx, n - 1) + chunk_text(cs, idx, cs.len() as int)
    }
}

/// The member `key` of the first chunk; `null` when absent.
pub open spec fn first_member(chunks: Seq<Json>, key: Seq<char>) -> Json {
    if chunks.len() > 0 {
        match get(chunks[0], key) {
            Some(v) => v,
            None => Json::Null,
        }
    } else {
        Json::Null
    }
}

/// The last `usage` that is not null among the first `n` chunks; `null` when none.
pub open spec fn last_usage(chunks: Seq<Json>, n: int) -> Json
    decreases n,
{
    if n <= 0 || n > chunks.len() {
        Json::Null
    } else {
        match get(chunks[n - 1], "usage"@) {
            Some(u) => if u is Null { last_usage(chunks, n - 1) } else { u },
            None => last_usage(chunks, n - 1),
        }
    }
}

/// One choice of the collected completion.
pub open spec fn choice_json(g: Gathered) -> Json {
    Json::Object(seq![
        ("index"@, Json::Number(g.0)),
        ("message"@, Json::Object(seq![("role"@, Json::Str("assistant"@)), ("content"@, Json::Str(g.1))])),
        ("finish_reason"@, match g.2 { Some(f) => Json::Str(f), None => Json::Null }),
    ])
}

/// The chat completion that a stream of chunks collects into.
pub open spec fn collected(chunks: Seq<Json>) -> Json {
    Json::Object(seq![
        ("id"@, first_member(chunks, "id"@)),
        ("object"@, Json::Str("chat.completion"@)),
        ("created"@, first_member(chunks, "created"@)),
        ("model"@, first_member(chunks, "model"@)),
        ("choices"@, Json::Array(gathered(chunks, chunks.len() as int).map_values(|g: Gathered| choice_json(g)))),
        ("usage"@, last_usage(chunks, chunks.len() as int)),
    ])
}

/// `acc` holds, for every index it lists once, the text that the stream
/// `t` gives that index; an index it does not list has no text.
pub open spec fn faithful(acc: Seq<Gathered>, t: spec_fn(Seq<char>) -> Seq<char>) -> bool {
    &&& forall|p: int| 0 <= p < acc.len() ==> (#[trigger] acc[p]).1 == t(acc[p].0)
    &&& forall|p: int, q: int| 0 <= p < q < acc.len() ==> (#[trigger] acc[p]).0 != (#[trigger] acc[q]).0
    &&& forall|idx: Seq<char>| (forall|p: int| 0 <= p < acc.len() ==> (#[trigger] acc[p]).0 != idx) ==> (#[trigger] t(idx)).len() == 0
}

proof fn lemma_find_entry(acc: Seq<Gathered>, idx: Seq<char>, p: int)
    requires
        0 <= p,
    ensures
        match find_entry(acc, idx, p) {
            Some(q) => p <= q < acc.len() && acc[q].0 == idx,
            None => forall|k: int| p <= k < acc.len() ==> (#[trigger] acc[k]).0 != idx,
        },
    decreases acc.len() - p,
{
    if p < acc.len() && acc[p].0 != idx {
        lemma_find_entry(acc, idx, p + 1);
    }
}

proof fn lemma_absorb_choice(acc: Seq<Gathered>, c: Json, t: spec_fn(Seq<char>) -> Seq<char>)
    requires
        faithful(acc, t),
    ensures
        faithful(absorb_choice(acc, c), |idx: Seq<char>| t(idx) + if idx == index_text(c) { delta_text(c) } else { Seq::empty() }),
{
    let t2 = |idx: Seq<char>| t(idx) + if idx == index_text(c) { delta_text(c) } else { Seq::empty() };
    let idx = index_text(c);
    lemma_find_entry(acc, idx, 0);
    let r = absorb_choice(acc, c);
    match find_entry(acc, idx, 0) {
        Some(p) => {
            assert forall|q: int| 0 <= q < r.len() implies (#[trigger] r[q]).1 == t2(r[q].0) by {
                if q != p {
                    assert(acc[q].0 != idx);
                }
            }
            assert forall|idx2: Seq<char>| (forall|q: int| 0 <= q < r.len() ==> (#[trigger] r[q]).0 != idx2) implies (#[trigger] t2(idx2)).len() == 0 by {
                assert(r[p].0 == idx);
                assert forall|q: int| 0 <= q < acc.len() implies (#[trigger] acc[q]).0 != idx2 by {
                    assert(r[q].0 != idx2);
                    if q != p {
                        assert(r[q] == acc[q]);
                    }
                }
            }
        },
        None => {
            assert(t(idx).len() == 0);
            assert forall|q: int| 0 <= q < r.len() implies (#[trigger] r[q]).1 == t2(r[q].0) by {
                if q < acc.len() {
                    assert(r[q] == acc[q]);
                    assert(acc[q].0 != idx);
                } else {
                    assert(t(idx) + delta_text(c) =~= delta_text(c));
                }
            }
            assert forall|idx2: Seq<char>| (forall|q: int| 0 <= q < r.len() ==> (#[trigger] r[q]).0 != idx2) implies (#[trigger] t2(idx2)).len() == 0 by {
                assert(r[acc.len() as int].0 == idx);
                assert forall|q: int| 0 <= q < acc.len() implies (#[trigger] acc[q]).0 != idx2 by {
                    assert(r[q] == acc[q]);
                }
            }
        },
    }
}

proof fn lemma_absorb_choices(acc: Seq<Gathered>, cs: Seq<Json>, m: int, t: spec_fn(Seq<char>) -> Seq<char>)
    requires
        faithful(acc, t),
        0 <= m <= cs.len(),
    ensures
        faithful(absorb_choices(acc, cs, m), |idx: Seq<char>| t(idx) + chunk_text(cs, idx, m)),
    decreases m,
{
    if m == 0 {
        let t0 = |idx: Seq<char>| t(idx) + chunk_text(cs, idx, 0);
        assert forall|idx: Seq<char>| #[trigger] t0(idx) == t(idx) by {
            assert(t(idx) + Seq::<char>::empty() =~= t(idx));
        }
        assert(t0 =~= t);
    } else {
        lemma_absorb_choices(acc, cs, m - 1, t);
        let tp = |idx: Seq<char>| t(idx) + chunk_text(cs, idx, m - 1);
        lemma_absorb_choice(absorb_choices(acc, cs, m - 1), cs[m - 1], tp);
        let t3 = |idx: Seq<char>| tp(idx) + if idx == index_text(cs[m - 1]) { delta_text(cs[m - 1]) } else { Seq::empty() };
        let t4 = |idx: Seq<char>| t(idx) + chunk_text(cs, idx, m);
        assert forall|idx: Seq<char>| #[trigger] t3(idx) == t4(idx) by {
            assert(t3(idx) =~= t4(idx));
        }
        assert(t3 =~= t4);
    }
}

/// The text collected for each choice is the concatenation, in stream
/// order, of the `delta.content` fragments the chunks carry for its index;
/// each index appears once, and every index with text appears.
pub proof fn lemma_collected_text(chunks: Seq<Json>, n: int)
    requires
        0 <= n <= chunks.len(),
    ensures
        faithful(gathered(chunks, n), |idx: Seq<char>| stream_text(chunks, idx, n)),
    decreases n,
{
    if n == 0 {
        let t0 = |idx: Seq<char>| stream_text(chunks, idx, 0);
        assert(faithful(Seq::<Gathered>::empty(), t0));
    } else {
        lemma_collected_text(chunks, n - 1);
        let cs = choice_list(chunks[n - 1]);
        let tp = |idx: Seq<char>| stream_text(chunks, idx, n - 1);
        lemma_absorb_choices(gathered(chunks, n - 1), cs, cs.len() as int, tp);
        let t3 = |idx: Seq<char>| tp(idx) + chunk_text(cs, idx, cs.len() as int);
        let t4 = |idx: Seq<char>| stream_text(chunks, idx, n);
        assert forall|idx: Seq<char>| #[trigger] t3(idx) == t4(idx) by {}
        assert(t3 =~= t4);
    }
}


/// The view of an optional string.
pub open spec fn opt_seq(o: Option<String>) -> Option<Seq<char>> {
    match o {
        Some(f) => Some(f@),
        None => None,
    }
}

/// The view of what has been gathered.
pub open spec fn gathered_view(acc: Seq<(String, String, Option<String>)>) -> Seq<Gathered> {
    acc.map_values(|g: (String, String, Option<String>)| (g.0@, g.1@, opt_seq(g.2)))
}

fn index_text_exec(c: &JsonValue) -> (r: String)
    ensures
        r@ == index_text(c@),
{
    match c.get("index") {
        Some(JsonValue::Number(t)) => t.clone(),
        _ => String::from_str("0"),
    }
}

fn delta_text_exec(c: &JsonValue) -> (r: String)
    ensures
        r@ == delta_text(c@),
{
    match c.get("delta") {
        Some(d) => match d.get_str("content") {
            Some(t) => t.clone(),
            None => String::new(),
        },
        None => String::new(),
    }
}

fn absorb_choice_exec(acc: &mut Vec<(String, String, Option<String>)>, c: &JsonValue)
    ensures
        gathered_view(final(acc)@) == absorb_choice(gathered_view(old(acc)@), c@),
{
    let idx = index_text_exec(c);
    let delta = delta_text_exec(c);
    let fin: Option<String> = match c.get_str("finish_reason") {
        Some(f) => Some(f.clone()),
        None => None,
    };
    let ghost gv = gathered_view(acc@);
    let mut p: usize = 0;
    while p < acc.len()
        invariant
            gv == gathered_view(acc@),
            gv == gathered_view(old(acc)@),
            idx@ == index_text(c@),
            delta@ == delta_text(c@),
            match fin { Some(f) => get_str(c@, "finish_reason"@) == Some(f@), None => get_str(c@, "finish_reason"@) is None },
            p <= acc@.len(),
            find_entry(gv, idx@, 0) == find_entry(gv, idx@, p as int),
        decreases acc@.len() - p,
    {
        if text_eq(acc[p].0.as_str(), idx.as_str()) {
            let mut text = acc[p].1.clone();
            text.append(delta.as_str());
            let f = match fin {
                Some(f) => Some(f),
                None => match &acc[p].2 {
                    Some(g) => Some(g.clone()),
                    None => None,
                },
            };
            acc[p] = (idx, text, f);
            assert(gathered_view(acc@) =~= absorb_choice(gv, c@));
            return;
        }
        p = p + 1;
    }
    acc.push((idx, delta, fin));
    assert(gathered_view(acc@) =~= absorb_choice(gv, c@));
}

fn choice_json_exec(g: &(String, String, Option<String>)) -> (r: JsonValue)
    ensures
        r@ == choice_json((g.0@, g.1@, opt_seq(g.2))),
{
    let message = object2("role", text_value("assistant"), "content", JsonValue::Str(g.1.clone()));
    let fin = match &g.2 {
        Some(f) => JsonValue::Str(f.clone()),
        None => JsonValue::Null,
    };
    let r = object3("index", JsonValue::Number(g.0.clone()), "message", message, "finish_reason", fin);
    let ghost gg: Gathered = (g.0@, g.1@, opt_seq(g.2));
    assert(choice_json(gg)->Object_0 =~= seq![("index"@, Json::Number(g.0@)), ("message"@, message@), ("finish_reason"@, fin@)]);
    r
}

fn first_member_exec(chunks: &Vec<JsonValue>, key: &str) -> (r: JsonValue)
    ensures
        r@ == first_member(views(chunks@), key@),
{
    if chunks.len() > 0 {
        match chunks[0].get(key) {
            Some(v) => v.duplicate(),
            None => JsonValue::Null,
        }
    } else {
        JsonValue::Null
    }
}

fn last_usage_exec(chunks: &Vec<JsonValue>) -> (r: JsonValue)
    ensures
        r@ == last_usage(views(chunks@), chunks@.len() as int),
{
    let mut n: usize = chunks.len();
    while n > 0
        invariant
            n <= chunks@.len(),
            last_usage(views(chunks@), chunks@.len() as int) == last_usage(views(chunks@), n as int),
        decreases n,
    {
        match chunks[n - 1].get("usage") {
            Some(u) => match u {
                JsonValue::Null => {},
                _ => {
                    return u.duplicate();
                },
            },
            None => {},
        }
        n = n - 1;
    }
    JsonValue::Null
}

/// Folds the parsed data payloads of a chat event stream into one chat
/// completion: per choice index, the `delta.content` fragments in order and
/// the latest finish reason; `id`, `created` and `model` of the first
/// chunk; the last `usage` given.
pub fn collect_stream(chunks: &Vec<JsonValue>) -> (r: JsonValue)
    ensures
        r@ == collected(views(chunks@)),
{
    let ghost cv = views(chunks@);
    let mut acc: Vec<(String, String, Option<String>)> = Vec::new();
    let mut n: usize = 0;
    while n < chunks.len()
        invariant
            cv == views(chunks@),
            n <= chunks@.len(),
            gathered_view(acc@) == gathered(cv, n as int),
        decreases chunks@.len() - n,
    {
        let ghost before = gathered_view(acc@);
        match chunks[n].get("choices") {
            Some(JsonValue::Array(cs)) => {
                proof {
                    lemma_array_view(*cs);
                    assert(choice_list(cv[n as int]) =~= views(cs@));
                }
                let mut m: usize = 0;
                while m < cs.len()
                    invariant
                        m <= cs@.len(),
                        gathered_view(acc@) == absorb_choices(before, views(cs@), m as int),
                    decreases cs@.len() - m,
                {
                    absorb_choice_exec(&mut acc, &cs[m]);
                    m = m + 1;
                }
            },
            _ => {
                assert(choice_list(cv[n as int]) =~= Seq::<Json>::empty());
            },
        }
        n = n + 1;
    }
    let mut choices: Vec<JsonValue> = Vec::new();
    let mut k: usize = 0;
    while k < acc.len()
        invariant
            k <= acc@.len(),
            choices@.len() == k,
            forall|j: int| 0 <= j < k ==> (#[trigger] choices@[j])@ == choice_json(gathered_view(acc@)[j]),
        decreases acc@.len() - k,
    {
        let cj = choice_json_exec(&acc[k]);
        assert(cj@ == choice_json(gathered_view(acc@)[k as int]));
        choices.push(cj);
        k = k + 1;
    }
    assert(views(choices@) =~= gathered_view(acc@).map_values(|g: Gathered| choice_json(g)));
    let id = first_member_exec(chunks, "id");
    let created = first_member_exec(chunks, "created");
    let model = first_member_exec(chunks, "model");
    let usage = last_usage_exec(chunks);
    let ghost cj = views(choices@);
    let ghost w = (id@, created@, model@, usage@);
    let mut f: Vec<(String, JsonValue)> = Vec::new();
    f.push((String::from_str("id"), id));
    f.push((String::from_str("object"), text_value("chat.completion")));
    f.push((String::from_str("created"), created));
    f.push((String::from_str("model"), model));
    f.push((String::from_str("choices"), array_of(choices)));
    f.push((String::from_str("usage"), usage));
    let ghost g = f;
    let r = JsonValue::Object(f);
    proof {
        crate::json::lemma_object_view(g);
        assert(r@->Object_0 =~= collected(cv)->Object_0);
    }
    r
}


/// Member `key` of `v`; `null` when absent.
pub open spec fn member_or_null(v: Json, key: Seq<char>) -> Json {
    match get(v, key) {
        Some(x) => x,
        None => Json::Null,
    }
}

/// A chat choice in the Legacy shape: its message text (empty unless a
/// string), index, no log probabilities, and finish reason.
pub open spec fn legacy_choice(c: Json) -> Json {
    let text = match get(c, "message"@) {
        Some(m) => match get(m, "content"@) {
            Some(Json::Str(t)) => t,
            _ => Seq::empty(),
        },
        None => Seq::empty(),
    };
    Json::Object(seq![
        ("text"@, Json::Str(text)),
        ("index"@, member_or_null(c, "index"@)),
        ("logprobs"@, Json::Null),
        ("finish_reason"@, member_or_null(c, "finish_reason"@)),
    ])
}

/// The choices of a chat completion.
pub open spec fn chat_choices(chat: Json) -> Seq<Json> {
    match get(chat, "choices"@) {
        Some(Json::Array(cs)) => cs,
        _ => Seq::empty(),
    }
}

/// A chat completion in the Legacy Completions shape.
pub open spec fn legacy_completion(chat: Json) -> Json {
    Json::Object(seq![
        ("id"@, member_or_null(chat, "id"@)),
        ("object"@, Json::Str("text_completion"@)),
        ("created"@, member_or_null(chat, "created"@)),
        ("model"@, member_or_null(chat, "model"@)),
        ("choices"@, Json::Array(chat_choices(chat).map_values(|c: Json| legacy_choice(c)))),
        ("usage"@, member_or_null(chat, "usage"@)),
    ])
}

fn member_or_null_exec(v: &JsonValue, key: &str) -> (r: JsonValue)
    ensures
        r@ == member_or_null(v@, key@),
{
    match v.get(key) {
        Some(x) => x.duplicate(),
        None => JsonValue::Null,
    }
}

fn legacy_choice_exec(c: &JsonValue) -> (r: JsonValue)
    ensures
        r@ == legacy_choice(c@),
{
    let text = match c.get("message") {
        Some(m) => match m.get("content") {
            Some(JsonValue::Str(t)) => t.clone(),
            _ => String::new(),
        },
        None => String::new(),
    };
    let ghost tv = text@;
    let index = member_or_null_exec(c, "index");
    let fin = member_or_null_exec(c, "finish_reason");
    let ghost w = (index@, fin@);
    let r = crate::json::object4("text", JsonValue::Str(text), "index", index, "logprobs", JsonValue::Null, "finish_reason", fin);
    assert(r@->Object_0 =~= legacy_choice(c@)->Object_0);
    r
}

/// Projects a chat completion onto the Legacy Completions shape.
pub fn to_legacy_completion(chat: &JsonValue) -> (r: JsonValue)
    ensures
        r@ == legacy_completion(chat@),
{
    let mut choices: Vec<JsonValue> = Vec::new();
    match chat.get("choices") {
        Some(JsonValue::Array(cs)) => {
            proof {
                lemma_array_view(*cs);
                assert(chat_choices(chat@) =~= views(cs@));
            }
            let mut k: usize = 0;
            while k < cs.len()
                invariant
                    k <= cs@.len(),
                    choices@.len() == k,
                    chat_choices(chat@) == views(cs@),
                    forall|j: int| 0 <= j < k ==> (#[trigger] choices@[j])@ == legacy_choice(cs@[j]@),
                decreases cs@.len() - k,
            {
                choices.push(legacy_choice_exec(&cs[k]));
                k = k + 1;
            }
            assert(views(choices@) =~= chat_choices(chat@).map_values(|c: Json| legacy_choice(c)));
        },
        _ => {
            assert(views(choices@) =~= chat_choices(chat@).map_values(|c: Json| legacy_choice(c)));
        },
    }
    let id = member_or_null_exec(chat, "id");
    let created = member_or_null_exec(chat, "created");
    let model = member_or_null_exec(chat, "model");
    let usage = member_or_null_exec(chat, "usage");
    let ghost cj = views(choices@);
    let ghost w = (id@, created@, model@, usage@);
    let mut f: Vec<(String, JsonValue)> = Vec::new();
    f.push((String::from_str("id"), id));
    f.push((String::from_str("object"), text_value("text_completion")));
    f.push((String::from_str("created"), created));
    f.push((String::from_str("model"), model));
    f.push((String::from_str("choices"), array_of(choices)));
    f.push((String::from_str("usage"), usage));
    let ghost g = f;
    let r = JsonValue::Object(f);
    proof {
        crate::json::lemma_object_view(g);
        assert(r@->Object_0 =~= legacy_completion(chat@)->Object_0);
    }
    r
}


/// The end of the line that starts at `i`: the next line feed, or the end.
pub open spec fn line_end(b: Seq<u8>, i: int) -> int
    decreases b.len() - i,
{
    if i < 0 || i >= b.len() {
        b.len() as int
    } else if b[i] == 10 {
        i
    } else {
        line_end(b, i + 1)
    }
}

/// `data:`
pub open spec fn data_prefix() -> Seq<u8> {
    seq![100u8, 97u8, 116u8, 97u8, 58u8]
}

/// `[DONE]`
pub open spec fn done_marker() -> Seq<u8> {
    seq![91u8, 68u8, 79u8, 78u8, 69u8, 93u8]
}

/// The payload of an SSE line: the text after `data:` and one optional
/// space, a trailing carriage return removed; none for other lines, empty
/// payloads and the `[DONE]` marker.
pub open spec fn line_payload(line: Seq<u8>) -> Option<Seq<u8>> {
    let l = if line.len() > 0 && line.last() == 13 { line.drop_last() } else { line };
    if crate::text::begins_with(l, data_prefix()) {
        let rest = l.subrange(5, l.len() as int);
        let p = if rest.len() > 0 && rest[0] == 32 { rest.drop_first() } else { rest };
        if p.len() == 0 || p == done_marker() { None } else { Some(p) }
    } else {
        None
    }
}

/// The payloads of the lines of `b` from position `i` on.
pub open spec fn payloads_from(b: Seq<u8>, i: int) -> Seq<Seq<u8>>
    decreases b.len() - i,
{
    let e = line_end(b, i);
    if i < 0 || i >= b.len() || e < i || e > b.len() {
        Seq::empty()
    } else {
        let head = match line_payload(b.subrange(i, e)) {
            Some(p) => seq![p],
            None => Seq::empty(),
        };
        if e >= b.len() { head } else { head + payloads_from(b, e + 1) }
    }
}

proof fn lemma_line_end(b: Seq<u8>, i: int)
    requires
        0 <= i <= b.len(),
    ensures
        i <= line_end(b, i) <= b.len(),
    decreases b.len() - i,
{
    if i < b.len() && b[i] != 10 {
        lemma_line_end(b, i + 1);
    }
}

fn line_payload_exec(b: &[u8], start: usize, end: usize) -> (r: Option<Vec<u8>>)
    requires
        start <= end <= b@.len(),
    ensures
        match r {
            Some(p) => line_payload(b@.subrange(start as int, end as int)) == Some(p@),
            None => line_payload(b@.subrange(start as int, end as int)) is None,
        },
{
    let ghost line = b@.subrange(start as int, end as int);
    let mut e = end;
    if e > start && b[e - 1] == 13 {
        e = e - 1;
    }
    let ghost l = b@.subrange(start as int, e as int);
    assert(l == (if line.len() > 0 && line.last() == 13 { line.drop_last() } else { line }));
    if e - start < 5 || b[start] != 100 || b[start + 1] != 97 || b[start + 2] != 116 || b[start + 3] != 97 || b[start + 4] != 58 {
        proof {
            if l.len() >= 5 {
                if l.subrange(0, 5) == data_prefix() {
                    assert(l.subrange(0, 5)[0] == b@[start as int]);
                    assert(l.subrange(0, 5)[1] == b@[start + 1]);
                    assert(l.subrange(0, 5)[2] == b@[start + 2]);
                    assert(l.subrange(0, 5)[3] == b@[start + 3]);
                    assert(l.subrange(0, 5)[4] == b@[start + 4]);
                }
            }
        }
        return None;
    }
    assert(l.subrange(0, 5) =~= data_prefix());
    let mut p0 = start + 5;
    if p0 < e && b[p0] == 32 {
        p0 = p0 + 1;
    }
    let ghost rest = l.subrange(5, l.len() as int);
    let ghost p = b@.subrange(p0 as int, e as int);
    assert(p =~= (if rest.len() > 0 && rest[0] == 32 { rest.drop_first() } else { rest }));
    let mut out: Vec<u8> = Vec::new();
    let mut k: usize = p0;
    while k < e
        invariant
            p0 <= k <= e,
            e <= b@.len(),
            out@ == b@.subrange(p0 as int, k as int),
        decreases e - k,
    {
        out.push(b[k]);
        assert(out@ =~= b@.subrange(p0 as int, k + 1));
        k = k + 1;
    }
    let done: Vec<u8> = vec![91u8, 68u8, 79u8, 78u8, 69u8, 93u8];
    assert(done@ =~= done_marker());
    let is_done = out.len() == 6 && crate::text::bytes_begin_with(out.as_slice(), done.as_slice());
    proof {
        if out@.len() == 6 {
            assert(out@.subrange(0, 6) =~= out@);
        }
    }
    if out.len() == 0 || is_done {
        None
    } else {
        Some(out)
    }
}

/// The data payloads of an SSE chunk, line by line, without `[DONE]`.
pub fn sse_payloads(b: &[u8]) -> (r: Vec<Vec<u8>>)
    ensures
        r@.map_values(|p: Vec<u8>| p@) == payloads_from(b@, 0),
{
    let mut out: Vec<Vec<u8>> = Vec::new();
    let mut i: usize = 0;
    while i < b.len()
        invariant
            i <= b@.len(),
            out@.map_values(|p: Vec<u8>| p@) + payloads_from(b@, i as int) == payloads_from(b@, 0),
        decreases b@.len() - i,
    {
        let mut e = i;
        while e < b.len() && b[e] != 10
            invariant
                i <= e <= b@.len(),
                line_end(b@, i as int) == line_end(b@, e as int),
            decreases b@.len() - e,
        {
            e = e + 1;
        }
        let ghost before = out@.map_values(|p: Vec<u8>| p@);
        proof {
            lemma_line_end(b@, i as int);
        }
        match line_payload_exec(b, i, e) {
            Some(p) => {
                out.push(p);
            },
            None => {},
        }
        assert(out@.map_values(|p: Vec<u8>| p@) + payloads_from(b@, e + 1) =~= payloads_from(b@, 0)) by {
            assert(out@.map_values(|p: Vec<u8>| p@) =~= before + match line_payload(b@.subrange(i as int, e as int)) {
                Some(q) => seq![q],
                None => Seq::empty(),
            });
        }
        if e == b.len() {
            assert(payloads_from(b@, e + 1) =~= Seq::<Seq<u8>>::empty());
            assert(out@.map_values(|p: Vec<u8>| p@) =~= payloads_from(b@, 0));
            return out;
        }
        i = e + 1;
    }
    assert(out@.map_values(|p: Vec<u8>| p@) =~= payloads_from(b@, 0));
    out
}

} // verus!
