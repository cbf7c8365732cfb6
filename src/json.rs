//! A JSON value held as plain data, with its mathematical view and its text.
use vstd::prelude::*;
use crate::text::{chars_of, text_eq};

verus! {

/// A JSON value. A number is kept as the text that wrote it; an object keeps
/// its members in the order given.
pub enum JsonValue {
    Null,
    Bool(bool),
    Number(String),
    Str(String),
    Array(Vec<JsonValue>),
    Object(Vec<(String, JsonValue)>),
}

/// The mathematical form of a [`JsonValue`].
pub enum Json {
    Null,
    Bool(bool),
    Number(Seq<char>),
    Str(Seq<char>),
    Array(Seq<Json>),
    Object(Seq<(Seq<char>, Json)>),
}

pub open spec fn json_view(v: JsonValue) -> Json
    decreases v,
{
    match v {
        JsonValue::Null => Json::Null,
        JsonValue::Bool(b) => Json::Bool(b),
        JsonValue::Number(t) => Json::Number(t@),
        JsonValue::Str(s) => Json::Str(s@),
        JsonValue::Array(items) => Json::Array(Seq::new(items@.len(), |i: int|
            if 0 <= i < items@.len() { json_view(items@[i]) } else { Json::Null })),
        JsonValue::Object(fields) => Json::Object(Seq::new(fields@.len(), |i: int|
            if 0 <= i < fields@.len() { (fields@[i].0@, json_view(fields@[i].1)) } else { (Seq::empty(), Json::Null) })),
    }
}

/// The view of an array holds the views of its items.
pub proof fn lemma_array_view(v: Vec<JsonValue>)
    ensures
        JsonValue::Array(v)@ is Array,
        JsonValue::Array(v)@->Array_0.len() == v@.len(),
        forall|i: int| 0 <= i < v@.len() ==> JsonValue::Array(v)@->Array_0[i] == json_view(#[trigger] v@[i]),
{
}

/// The view of an object holds its keys and the views of its values.
pub proof fn lemma_object_view(f: Vec<(String, JsonValue)>)
    ensures
        JsonValue::Object(f)@ is Object,
        JsonValue::Object(f)@->Object_0.len() == f@.len(),
        forall|i: int| 0 <= i < f@.len() ==> JsonValue::Object(f)@->Object_0[i] == (#[trigger] f@[i].0@, json_view(f@[i].1)),
{
}

impl View for JsonValue {
    type V = Json;

    open spec fn view(&self) -> Json {
        json_view(*self)
    }
}

impl JsonValue {
    /// A value equal to this one.
    pub fn duplicate(&self) -> (r: JsonValue)
        ensures
            r@ == self@,
        decreases self,
    {
        match self {
            JsonValue::Null => JsonValue::Null,
            JsonValue::Bool(b) => JsonValue::Bool(*b),
            JsonValue::Number(t) => JsonValue::Number(t.clone()),
            JsonValue::Str(s) => JsonValue::Str(s.clone()),
            JsonValue::Array(items) => {
                let mut out: Vec<JsonValue> = Vec::new();
                let mut i: usize = 0;
                while i < items.len()
                    invariant
                        i <= items@.len(),
                        out@.len() == i,
                        *self == JsonValue::Array(*items),
                        forall|k: int| 0 <= k < i ==> json_view(#[trigger] out@[k]) == json_view(items@[k]),
                    decreases items@.len() - i,
                {
                    proof {
                        assert(decreases_to!(*self => (*self)->Array_0));
                        assert(decreases_to!(*items => items@));
                        assert(decreases_to!(items@ => items@[i as int]));
                    }
                    let c = items[i].duplicate();
                    out.push(c);
                    i = i + 1;
                }
                let ghost g = out;
                let r = JsonValue::Array(out);
                proof {
                    lemma_array_view(g);
                    lemma_array_view(*items);
                    assert(r@->Array_0 =~= self@->Array_0);
                }
                r
            },
            JsonValue::Object(fields) => {
                let mut out: Vec<(String, JsonValue)> = Vec::new();
                let mut i: usize = 0;
                while i < fields.len()
                    invariant
                        i <= fields@.len(),
                        out@.len() == i,
                        *self == JsonValue::Object(*fields),
                        forall|k: int| 0 <= k < i ==> (#[trigger] out@[k]).0@ == fields@[k].0@ && json_view(out@[k].1) == json_view(fields@[k].1),
                    decreases fields@.len() - i,
                {
                    proof {
                        assert(decreases_to!(*self => (*self)->Object_0));
                        assert(decreases_to!(*fields => fields@));
                        assert(decreases_to!(fields@ => fields@[i as int]));
                        assert(decreases_to!(fields@[i as int] => fields@[i as int].1));
                    }
                    let c = fields[i].1.duplicate();
                    out.push((fields[i].0.clone(), c));
                    i = i + 1;
                }
                let ghost g = out;
                let r = JsonValue::Object(out);
                proof {
                    lemma_object_view(g);
                    lemma_object_view(*fields);
                    assert(r@->Object_0 =~= self@->Object_0);
                }
                r
            },
        }
    }
}


/// The lowercase hexadecimal digit of `n`, for `n < 16`.
pub open spec fn hex_digit(n: u32) -> char {
    if n < 10 { ((n + '0' as u32) as u8) as char } else { ((n - 10 + 'a' as u32) as u8) as char }
}

/// How one character is written inside a JSON string.
pub open spec fn escape_char(c: char) -> Seq<char> {
    if c == '"' {
        seq!['\\', '"']
    } else if c == '\\' {
        seq!['\\', '\\']
    } else if c == '\n' {
        seq!['\\', 'n']
    } else if c == '\r' {
        seq!['\\', 'r']
    } else if c == '\t' {
        seq!['\\', 't']
    } else if c == '\x08' {
        seq!['\\', 'b']
    } else if c == '\x0c' {
        seq!['\\', 'f']
    } else if (c as u32) < 0x20 {
        seq!['\\', 'u', '0', '0', hex_digit(c as u32 / 16), hex_digit(c as u32 % 16)]
    } else {
        seq![c]
    }
}

/// The characters of `s`, each written as inside a JSON string.
pub open spec fn escaped(s: Seq<char>) -> Seq<char>
    decreases s.len(),
{
    if s.len() == 0 {
        Seq::empty()
    } else {
        escaped(s.drop_last()) + escape_char(s.last())
    }
}

/// `s` as a JSON string literal.
pub open spec fn quoted(s: Seq<char>) -> Seq<char> {
    seq!['"'] + escaped(s) + seq!['"']
}

/// The compact JSON text of a value: no whitespace, object members in order.
pub open spec fn json_text(v: Json) -> Seq<char>
    decreases v,
{
    match v {
        Json::Null => "null"@,
        Json::Bool(b) => if b { "true"@ } else { "false"@ },
        Json::Number(t) => t,
        Json::Str(s) => quoted(s),
        Json::Array(items) => seq!['['] + items_text(items) + seq![']'],
        Json::Object(fields) => seq!['{'] + members_text(fields) + seq!['}'],
    }
}

/// The texts of `items` separated by commas.
pub open spec fn items_text(items: Seq<Json>) -> Seq<char>
    decreases items,
{
    if items.len() == 0 {
        Seq::empty()
    } else if items.len() == 1 {
        json_text(items[0])
    } else {
        items_text(items.drop_last()) + seq![','] + json_text(items.last())
    }
}

/// The members `"key":value` of an object, separated by commas.
pub open spec fn members_text(fields: Seq<(Seq<char>, Json)>) -> Seq<char>
    decreases fields,
{
    if fields.len() == 0 {
        Seq::empty()
    } else if fields.len() == 1 {
        quoted(fields[0].0) + seq![':'] + json_text(fields[0].1)
    } else {
        members_text(fields.drop_last()) + seq![','] + quoted(fields.last().0) + seq![':'] + json_text(fields.last().1)
    }
}

/// The value of the first member named `key` at or after position `i`.
pub open spec fn member_from(fields: Seq<(Seq<char>, Json)>, key: Seq<char>, i: int) -> Option<Json>
    decreases fields.len() - i,
{
    if i < 0 || i >= fields.len() {
        None
    } else if fields[i].0 == key {
        Some(fields[i].1)
    } else {
        member_from(fields, key, i + 1)
    }
}

/// The value of member `key` of `v`, when `v` is an object that has one.
pub open spec fn get(v: Json, key: Seq<char>) -> Option<Json> {
    match v {
        Json::Object(fields) => member_from(fields, key, 0),
        _ => None,
    }
}

/// The text of `v`, when it is a string.
pub open spec fn str_of(v: Option<Json>) -> Option<Seq<char>> {
    match v {
        Some(Json::Str(s)) => Some(s),
        _ => None,
    }
}

/// The string member `key` of `v`.
pub open spec fn get_str(v: Json, key: Seq<char>) -> Option<Seq<char>> {
    str_of(get(v, key))
}

fn hex_char(n: u32) -> (c: char)
    requires
        n < 16,
    ensures
        c == hex_digit(n),
{
    if n < 10 { ((n + '0' as u32) as u8) as char } else { ((n - 10 + 'a' as u32) as u8) as char }
}

/// Appends the JSON escape of `c`.
fn push_escaped(out: &mut String, c: char)
    ensures
        final(out)@ == old(out)@ + escape_char(c),
{
    if c == '"' {
        out.push('\\');
        out.push('"');
    } else if c == '\\' {
        out.push('\\');
        out.push('\\');
    } else if c == '\n' {
        out.push('\\');
        out.push('n');
    } else if c == '\r' {
        out.push('\\');
        out.push('r');
    } else if c == '\t' {
        out.push('\\');
        out.push('t');
    } else if c == '\x08' {
        out.push('\\');
        out.push('b');
    } else if c == '\x0c' {
        out.push('\\');
        out.push('f');
    } else if (c as u32) < 0x20 {
        out.push('\\');
        out.push('u');
        out.push('0');
        out.push('0');
        out.push(hex_char(c as u32 / 16));
        out.push(hex_char(c as u32 % 16));
    } else {
        out.push(c);
    }
    assert(final(out)@ =~= old(out)@ + escape_char(c));
}

/// Appends `s` as a JSON string literal.
pub fn push_quoted(out: &mut String, s: &str)
    ensures
        final(out)@ == old(out)@ + quoted(s@),
{
    let cs = chars_of(s);
    let ghost start = out@;
    out.push('"');
    let mut i: usize = 0;
    while i < cs.len()
        invariant
            i <= cs@.len(),
            out@ == start + seq!['"'] + escaped(cs@.subrange(0, i as int)),
        decreases cs@.len() - i,
    {
        let ghost before = out@;
        push_escaped(out, cs[i]);
        assert(cs@.subrange(0, i + 1).drop_last() =~= cs@.subrange(0, i as int));
        assert(out@ =~= start + seq!['"'] + escaped(cs@.subrange(0, i + 1)));
        i = i + 1;
    }
    out.push('"');
    assert(cs@.subrange(0, cs@.len() as int) =~= s@);
    assert(out@ =~= start + quoted(s@));
}

impl JsonValue {
    /// Appends the JSON text of this value.
    pub fn write_text(&self, out: &mut String)
        ensures
            final(out)@ == old(out)@ + json_text(self@),
        decreases self,
    {
        let ghost start = out@;
        match self {
            JsonValue::Null => {
                out.append("null");
            },
            JsonValue::Bool(b) => {
                if *b {
                    out.append("true");
                } else {
                    out.append("false");
                }
            },
            JsonValue::Number(t) => {
                out.append(t.as_str());
            },
            JsonValue::Str(s) => {
                push_quoted(out, s.as_str());
            },
            JsonValue::Array(items) => {
                proof {
                    lemma_array_view(*items);
                }
                let ghost vs = self@->Array_0;
                out.push('[');
                let mut i: usize = 0;
                while i < items.len()
                    invariant
                        *self == JsonValue::Array(*items),
                        vs == self@->Array_0,
                        vs.len() == items@.len(),
                        forall|k: int| 0 <= k < items@.len() ==> vs[k] == json_view(#[trigger] items@[k]),
                        i <= items@.len(),
                        out@ == start + seq!['['] + items_text(vs.subrange(0, i as int)),
                    decreases items@.len() - i,
                {
                    proof {
                        assert(decreases_to!(*self => (*self)->Array_0));
                        assert(decreases_to!(*items => items@));
                        assert(decreases_to!(items@ => items@[i as int]));
                    }
                    if i > 0 {
                        out.push(',');
                    }
                    items[i].write_text(out);
                    proof {
                        let p = vs.subrange(0, i + 1);
                        assert(p.drop_last() =~= vs.subrange(0, i as int));
                        if i == 0 {
                            assert(vs.subrange(0, 0) =~= Seq::<Json>::empty());
                        }
                        assert(out@ =~= start + seq!['['] + items_text(p));
                    }
                    i = i + 1;
                }
                out.push(']');
                assert(vs.subrange(0, items@.len() as int) =~= vs);
                assert(out@ =~= start + json_text(self@));
            },
            JsonValue::Object(fields) => {
                proof {
                    lemma_object_view(*fields);
                }
                let ghost vs = self@->Object_0;
                out.push('{');
                let mut i: usize = 0;
                while i < fields.len()
                    invariant
                        *self == JsonValue::Object(*fields),
                        vs == self@->Object_0,
                        vs.len() == fields@.len(),
                        forall|k: int| 0 <= k < fields@.len() ==> vs[k] == (#[trigger] fields@[k].0@, json_view(fields@[k].1)),
                        i <= fields@.len(),
                        out@ == start + seq!['{'] + members_text(vs.subrange(0, i as int)),
                    decreases fields@.len() - i,
                {
                    proof {
                        assert(decreases_to!(*self => (*self)->Object_0));
                        assert(decreases_to!(*fields => fields@));
                        assert(decreases_to!(fields@ => fields@[i as int]));
                        assert(decreases_to!(fields@[i as int] => fields@[i as int].1));
                    }
                    if i > 0 {
                        out.push(',');
                    }
                    push_quoted(out, fields[i].0.as_str());
                    out.push(':');
                    fields[i].1.write_text(out);
                    proof {
                        let p = vs.subrange(0, i + 1);
                        assert(p.drop_last() =~= vs.subrange(0, i as int));
                        if i == 0 {
                            assert(vs.subrange(0, 0) =~= Seq::<(Seq<char>, Json)>::empty());
                        }
                        assert(out@ =~= start + seq!['{'] + members_text(p));
                    }
                    i = i + 1;
                }
                out.push('}');
                assert(vs.subrange(0, fields@.len() as int) =~= vs);
                assert(out@ =~= start + json_text(self@));
            },
        }
    }

    /// The compact JSON text of this value.
    pub fn to_json_string(&self) -> (r: String)
        ensures
            r@ == json_text(self@),
    {
        let mut out = String::new();
        self.write_text(&mut out);
        assert(out@ =~= json_text(self@));
        out
    }

    /// The member named `key`, when this value is an object that has one.
    pub fn get(&self, key: &str) -> (r: Option<&JsonValue>)
        ensures
            match r {
                Some(x) => get(self@, key@) == Some(x@),
                None => get(self@, key@) is None,
            },
    {
        match self {
            JsonValue::Object(fields) => {
                proof {
                    lemma_object_view(*fields);
                }
                let ghost vs = self@->Object_0;
                let mut i: usize = 0;
                while i < fields.len()
                    invariant
                        *self == JsonValue::Object(*fields),
                        vs == self@->Object_0,
                        vs.len() == fields@.len(),
                        forall|k: int| 0 <= k < fields@.len() ==> vs[k] == (#[trigger] fields@[k].0@, json_view(fields@[k].1)),
                        i <= fields@.len(),
                        member_from(vs, key@, 0) == member_from(vs, key@, i as int),
                    decreases fields@.len() - i,
                {
                    if text_eq(fields[i].0.as_str(), key) {
                        return Some(&fields[i].1);
                    }
                    i = i + 1;
                }
                None
            },
            _ => None,
        }
    }

    /// The text of member `key`, when it is a string.
    pub fn get_str(&self, key: &str) -> (r: Option<&String>)
        ensures
            match r {
                Some(s) => get_str(self@, key@) == Some(s@),
                None => get_str(self@, key@) is None,
            },
    {
        match self.get(key) {
            Some(JsonValue::Str(s)) => Some(s),
            _ => None,
        }
    }

    /// The text of this value, when it is a string.
    pub fn as_str(&self) -> (r: Option<&String>)
        ensures
            match r {
                Some(s) => self@ == Json::Str(s@),
                None => !(self@ is Str),
            },
    {
        match self {
            JsonValue::Str(s) => Some(s),
            _ => None,
        }
    }
}


/// The views of a sequence of values.
pub open spec fn views(s: Seq<JsonValue>) -> Seq<Json> {
    s.map_values(|x: JsonValue| x@)
}

/// A string value.
pub fn text_value(s: &str) -> (r: JsonValue)
    ensures
        r@ == Json::Str(s@),
{
    JsonValue::Str(String::from_str(s))
}

/// An array of the given items.
pub fn array_of(items: Vec<JsonValue>) -> (r: JsonValue)
    ensures
        r@ == Json::Array(views(items@)),
{
    let ghost g = items;
    let r = JsonValue::Array(items);
    proof {
        lemma_array_view(g);
        assert(r@->Array_0 =~= views(g@));
    }
    r
}

/// An object with one member.
pub fn object1(k1: &str, v1: JsonValue) -> (r: JsonValue)
    ensures
        r@ == Json::Object(seq![(k1@, v1@)]),
{
    let ghost w1 = v1@;
    let mut f: Vec<(String, JsonValue)> = Vec::new();
    f.push((String::from_str(k1), v1));
    let ghost g = f;
    let r = JsonValue::Object(f);
    proof {
        lemma_object_view(g);
        assert(r@->Object_0 =~= seq![(k1@, w1)]);
    }
    r
}

/// An object with two members.
pub fn object2(k1: &str, v1: JsonValue, k2: &str, v2: JsonValue) -> (r: JsonValue)
    ensures
        r@ == Json::Object(seq![(k1@, v1@), (k2@, v2@)]),
{
    let ghost w1 = v1@;
    let ghost w2 = v2@;
    let mut f: Vec<(String, JsonValue)> = Vec::new();
    f.push((String::from_str(k1), v1));
    f.push((String::from_str(k2), v2));
    let ghost g = f;
    let r = JsonValue::Object(f);
    proof {
        lemma_object_view(g);
        assert(r@->Object_0 =~= seq![(k1@, w1), (k2@, w2)]);
    }
    r
}

/// An object with three members.
pub fn object3(k1: &str, v1: JsonValue, k2: &str, v2: JsonValue, k3: &str, v3: JsonValue) -> (r: JsonValue)
    ensures
        r@ == Json::Object(seq![(k1@, v1@), (k2@, v2@), (k3@, v3@)]),
{
    let ghost w1 = v1@;
    let ghost w2 = v2@;
    let ghost w3 = v3@;
    let mut f: Vec<(String, JsonValue)> = Vec::new();
    f.push((String::from_str(k1), v1));
    f.push((String::from_str(k2), v2));
    f.push((String::from_str(k3), v3));
    let ghost g = f;
    let r = JsonValue::Object(f);
    proof {
        lemma_object_view(g);
        assert(r@->Object_0 =~= seq![(k1@, w1), (k2@, w2), (k3@, w3)]);
    }
    r
}

/// An object with four members.
pub fn object4(k1: &str, v1: JsonValue, k2: &str, v2: JsonValue, k3: &str, v3: JsonValue, k4: &str, v4: JsonValue) -> (r: JsonValue)
    ensures
        r@ == Json::Object(seq![(k1@, v1@), (k2@, v2@), (k3@, v3@), (k4@, v4@)]),
{
    let ghost w1 = v1@;
    let ghost w2 = v2@;
    let ghost w3 = v3@;
    let ghost w4 = v4@;
    let mut f: Vec<(String, JsonValue)> = Vec::new();
    f.push((String::from_str(k1), v1));
    f.push((String::from_str(k2), v2));
    f.push((String::from_str(k3), v3));
    f.push((String::from_str(k4), v4));
    let ghost g = f;
    let r = JsonValue::Object(f);
    proof {
        lemma_object_view(g);
        assert(r@->Object_0 =~= seq![(k1@, w1), (k2@, w2), (k3@, w3), (k4@, w4)]);
    }
    r
}

} // verus!
