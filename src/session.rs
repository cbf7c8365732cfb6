//! The sticky-session fingerprint of a canonical request.
use vstd::prelude::*;
use crate::json::{Json, JsonValue, get, get_str, hex_digit, json_text, lemma_array_view, views};
use crate::text::{chars_of, text_eq};

verus! {

/// FNV-1a offset basis.
pub const FNV_OFFSET: u64 = 0xcbf29ce484222325;
/// FNV-1a prime.
pub const FNV_PRIME: u64 = 0x100000001b3;
/// How many characters of the first user message the fingerprint reads.
pub const FINGERPRINT_CHARS: usize = 256;

/// FNV-1a over the code points of the first `n` characters of `s`.
pub open spec fn fnv(s: Seq<char>, n: int) -> u64
    decreases n,
{
    if n <= 0 || n > s.len() {
        FNV_OFFSET
    } else {
        (fnv(s, n - 1) ^ (s[n - 1] as u32 as u64)).wrapping_mul(FNV_PRIME)
    }
}

/// The last `n` hexadecimal digits of `h`, most significant first.
pub open spec fn hex_digits(h: u64, n: nat) -> Seq<char>
    decreases n,
{
    if n == 0 {
        Seq::empty()
    } else {
        hex_digits(h / 16, (n - 1) as nat) + seq![hex_digit((h % 16) as u32)]
    }
}

/// The first message whose role is `user`, among the first `n`.
pub open spec fn first_user(ms: Seq<Json>, n: int) -> Option<Json>
    decreases n,
{
    if n <= 0 || n > ms.len() {
        None
    } else {
        match first_user(ms, n - 1) {
            Some(m) => Some(m),
            None => if get_str(ms[n - 1], "role"@) == Some("user"@) { Some(ms[n - 1]) } else { None },
        }
    }
}

/// The text of a message's content: a string as is, other content as JSON text.
pub open spec fn content_text(m: Json) -> Seq<char> {
    match get(m, "content"@) {
        Some(Json::Str(s)) => s,
        Some(other) => json_text(other),
        None => Seq::empty(),
    }
}

/// What the fingerprint is taken over: the client's `conversation_id`
/// when given, then `user` and the first 256 characters of the first user
/// message's content.
pub open spec fn session_source(body: Json) -> Seq<char> {
    let conv = match get_str(body, "conversation_id"@) {
        Some(c) => c,
        None => Seq::empty(),
    };
    let ms = match get(body, "messages"@) {
        Some(Json::Array(ms)) => ms,
        _ => Seq::empty(),
    };
    let text = match first_user(ms, ms.len() as int) {
        Some(m) => content_text(m),
        None => Seq::empty(),
    };
    let bounded = if text.len() > FINGERPRINT_CHARS { text.subrange(0, FINGERPRINT_CHARS as int) } else { text };
    conv + "user"@ + bounded
}

/// The fingerprint: `sid-` and sixteen hexadecimal digits of FNV-1a.
pub open spec fn fingerprint(body: Json) -> Seq<char> {
    let src = session_source(body);
    "sid-"@ + hex_digits(fnv(src, src.len() as int), 16)
}

fn hex_char(n: u64) -> (c: char)
    requires
        n < 16,
    ensures
        c == hex_digit(n as u32),
{
    if n < 10 { ((n + '0' as u64) as u8) as char } else { ((n - 10 + 'a' as u64) as u8) as char }
}

fn push_hex(out: &mut String, h: u64, n: u32)
    ensures
        final(out)@ == old(out)@ + hex_digits(h, n as nat),
    decreases n,
{
    if n > 0 {
        push_hex(out, h / 16, n - 1);
        out.push(hex_char(h % 16));
        assert(final(out)@ =~= old(out)@ + hex_digits(h, n as nat));
    } else {
        assert(final(out)@ =~= old(out)@ + hex_digits(h, n as nat));
    }
}

fn content_text_exec(m: &JsonValue) -> (r: String)
    ensures
        r@ == content_text(m@),
{
    match m.get("content") {
        Some(JsonValue::Str(s)) => s.clone(),
        Some(other) => other.to_json_string(),
        None => String::new(),
    }
}

fn first_user_exec(ms: &Vec<JsonValue>) -> (r: Option<&JsonValue>)
    ensures
        match r {
            Some(m) => first_user(views(ms@), ms@.len() as int) == Some(m@),
            None => first_user(views(ms@), ms@.len() as int) is None,
        },
{
    let mut i: usize = 0;
    while i < ms.len()
        invariant
            i <= ms@.len(),
            first_user(views(ms@), i as int) is None,
        decreases ms@.len() - i,
    {
        let is_user = match ms[i].get_str("role") {
            Some(r) => text_eq(r.as_str(), "user"),
            None => false,
        };
        if is_user {
            proof {
                lemma_first_user_found(views(ms@), i + 1);
            }
            return Some(&ms[i]);
        }
        i = i + 1;
    }
    None
}

proof fn lemma_first_user_found(ms: Seq<Json>, n: int)
    requires
        1 <= n <= ms.len(),
        first_user(ms, n) is Some,
    ensures
        first_user(ms, ms.len() as int) == first_user(ms, n),
    decreases ms.len() - n,
{
    if n < ms.len() {
        lemma_first_user_found(ms, n + 1);
    }
}

/// The sticky-session fingerprint of a canonical request. Equal requests
/// give equal fingerprints.
pub fn session_fingerprint(body: &JsonValue) -> (r: String)
    ensures
        r@ == fingerprint(body@),
{
    let mut src: Vec<char> = Vec::new();
    match body.get_str("conversation_id") {
        Some(c) => {
            src = chars_of(c.as_str());
        },
        None => {},
    }
    src.push('u');
    src.push('s');
    src.push('e');
    src.push('r');
    let ghost msv = match get(body@, "messages"@) {
        Some(Json::Array(ms)) => ms,
        _ => Seq::empty(),
    };
    let ghost expected = match first_user(msv, msv.len() as int) {
        Some(m) => content_text(m),
        None => Seq::empty(),
    };
    let text: Vec<char> = match body.get("messages") {
        Some(JsonValue::Array(ms)) => {
            proof {
                lemma_array_view(*ms);
                assert(msv =~= views(ms@));
            }
            match first_user_exec(ms) {
                Some(m) => chars_of(content_text_exec(m).as_str()),
                None => Vec::new(),
            }
        },
        _ => Vec::new(),
    };
    assert(text@ == expected);
    assert(src@ =~= match get_str(body@, "conversation_id"@) {
        Some(c) => c,
        None => Seq::empty(),
    } + "user"@) by {
        reveal_strlit("user");
    }
    let ghost lead = src@;
    let bound = if text.len() > FINGERPRINT_CHARS { FINGERPRINT_CHARS } else { text.len() };
    let mut k: usize = 0;
    while k < bound
        invariant
            text@ == expected,
            bound <= text@.len(),
            k <= bound,
            src@ == lead + text@.subrange(0, k as int),
        decreases bound - k,
    {
        src.push(text[k]);
        assert(src@ =~= lead + text@.subrange(0, k + 1));
        k = k + 1;
    }
    let mut h: u64 = FNV_OFFSET;
    let mut i: usize = 0;
    while i < src.len()
        invariant
            src@ == lead + text@.subrange(0, bound as int),
            text@ == expected,
            bound == (if text@.len() > FINGERPRINT_CHARS { FINGERPRINT_CHARS as int } else { text@.len() as int }),
            i <= src@.len(),
            h == fnv(src@, i as int),
        decreases src@.len() - i,
    {
        h = (h ^ (src[i] as u32 as u64)).wrapping_mul(FNV_PRIME);
        i = i + 1;
    }
    proof {
        if text@.len() <= FINGERPRINT_CHARS {
            assert(text@.subrange(0, bound as int) =~= text@);
        }
        assert(src@ =~= session_source(body@));
    }
    let mut out = String::from_str("sid-");
    push_hex(&mut out, h, 16);
    out
}

} // verus!
