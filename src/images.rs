//! Image generation and editing: the image configuration, prompt hints,
//! the edit form's fields, the upstream request body, and the aggregation
//! of the parallel calls' results.
use vstd::prelude::*;
use base64::Engine;
use crate::json::{Json, JsonValue, get, get_str, views, lemma_array_view, array_of, text_value, object1, object2};
use crate::normalize::str_or;
use crate::retry::{decimal_value, parse_decimal};
use crate::text::{chars_of, text_eq};

verus! {

/// The aspect ratios the backend accepts, as `(width, height)`.
pub open spec fn ratios() -> Seq<(u64, u64)> {
    seq![(1, 1), (16, 9), (9, 16), (4, 3), (3, 4), (21, 9), (3, 2), (2, 3), (5, 4), (4, 5)]
}

/// `a:b` written out.
pub open spec fn ratio_text(a: u64, b: u64) -> Seq<char> {
    crate::orchestrator::decimal_text(a as nat) + seq![':'] + crate::orchestrator::decimal_text(b as nat)
}

/// `w / h` lies within a tenth of `a / b`.
pub open spec fn close_to(w: u64, h: u64, a: u64, b: u64) -> bool {
    h > 0 && b > 0 && {
        let d = w * b - h * a;
        10 * (if d < 0 { -d } else { d }) < h * b
    }
}

/// The first accepted ratio among the first `n` that `w / h` is close to.
pub open spec fn nearest_ratio(w: u64, h: u64, n: int) -> Option<(u64, u64)>
    decreases n,
{
    if n <= 0 || n > ratios().len() {
        None
    } else {
        match nearest_ratio(w, h, n - 1) {
            Some(r) => Some(r),
            None => if close_to(w, h, ratios()[n - 1].0, ratios()[n - 1].1) { Some(ratios()[n - 1]) } else { None },
        }
    }
}

/// The position of the first `c` in `s`.
pub open spec fn index_of(s: Seq<char>, c: char) -> Option<int> {
    if exists|i: int| 0 <= i < s.len() && s[i] == c {
        Some(choose|i: int| 0 <= i < s.len() && s[i] == c && forall|j: int| 0 <= j < i ==> s[j] != c)
    } else {
        None
    }
}

/// `s` names an accepted ratio `a:b` literally.
pub open spec fn is_ratio_text(s: Seq<char>) -> bool {
    exists|k: int| 0 <= k < ratios().len() && s == ratio_text(#[trigger] ratios()[k].0, ratios()[k].1)
}

/// The aspect ratio a `size` hint asks for: an accepted `a:b` as given, a
/// `WxH` whose ratio is within a tenth of an accepted one, else `1:1`.
pub open spec fn aspect_for(size: Option<Seq<char>>) -> Seq<char> {
    match size {
        None => "1:1"@,
        Some(s) => if is_ratio_text(s) {
            s
        } else {
            match split_dims(s) {
                Some((w, h)) => match nearest_ratio(w, h, ratios().len() as int) {
                    Some(r) => ratio_text(r.0, r.1),
                    None => "1:1"@,
                },
                None => "1:1"@,
            }
        },
    }
}

/// The width and height of `WxH`.
pub open spec fn split_dims(s: Seq<char>) -> Option<(u64, u64)> {
    match index_of(s, 'x') {
        Some(i) => match (decimal_value(s.subrange(0, i)), decimal_value(s.subrange(i + 1, s.len() as int))) {
            (Some(w), Some(h)) => Some((w, h)),
            _ => None,
        },
        None => None,
    }
}

/// The size tier a quality hint asks for: `hd` is 4K, `medium` 2K, anything else 1K.
pub open spec fn tier_for(quality: Option<Seq<char>>) -> Seq<char> {
    if quality == Some("hd"@) {
        "4K"@
    } else if quality == Some("medium"@) {
        "2K"@
    } else {
        "1K"@
    }
}

/// The view of an optional string.
pub open spec fn opt_seq(o: Option<&str>) -> Option<Seq<char>> {
    match o {
        Some(s) => Some(s@),
        None => None,
    }
}

/// The image configuration sent upstream.
pub struct ImageConfig {
    pub aspect_ratio: String,
    pub image_size: String,
}

fn decimal_u64(n: u64) -> (r: String)
    ensures
        r@ == crate::orchestrator::decimal_text(n as nat),
    decreases n,
{
    if n < 10 {
        let mut s = String::new();
        s.push(((('0' as u64) + n) as u8) as char);
        assert(s@ =~= crate::orchestrator::decimal_text(n as nat));
        s
    } else {
        let mut s = decimal_u64(n / 10);
        s.push(((('0' as u64) + (n % 10)) as u8) as char);
        assert(s@ =~= crate::orchestrator::decimal_text(n as nat));
        s
    }
}

fn ratio_table() -> (r: Vec<(u64, u64)>)
    ensures
        r@ == ratios(),
{
    let r: Vec<(u64, u64)> = vec![(1, 1), (16, 9), (9, 16), (4, 3), (3, 4), (21, 9), (3, 2), (2, 3), (5, 4), (4, 5)];
    assert(r@ =~= ratios());
    r
}

fn close_to_exec(w: u64, h: u64, a: u64, b: u64) -> (r: bool)
    requires
        a <= 21,
        b <= 16,
    ensures
        r == close_to(w, h, a, b),
{
    if h == 0 || b == 0 {
        return false;
    }
    assert(w as u128 * b as u128 <= 0xffff_ffff_ffff_ffffu128 * 16) by (nonlinear_arith)
        requires
            b <= 16,
            w <= 0xffff_ffff_ffff_ffffu64,
    ;
    assert(h as u128 * a as u128 <= 0xffff_ffff_ffff_ffffu128 * 21) by (nonlinear_arith)
        requires
            a <= 21,
            h <= 0xffff_ffff_ffff_ffffu64,
    ;
    let x: u128 = w as u128 * b as u128;
    let y: u128 = h as u128 * a as u128;
    let d: u128 = if x >= y { x - y } else { y - x };
    assert(d == (if w * b - h * a < 0 { -(w * b - h * a) } else { w * b - h * a })) by (nonlinear_arith)
        requires
            x == w * b,
            y == h * a,
            d == (if x >= y { x - y } else { y - x }),
    ;
    assert(h as u128 * b as u128 <= u64::MAX as u128 * 16) by (nonlinear_arith)
        requires
            b <= 16,
    ;
    assert(10 * d <= 10 * (u64::MAX as u128 * 21)) by (nonlinear_arith)
        requires
            x == w * b,
            y == h * a,
            a <= 21,
            b <= 16,
            d == (if x >= y { x - y } else { y - x }),
    ;
    10 * d < h as u128 * b as u128
}

fn nearest_ratio_exec(w: u64, h: u64) -> (r: Option<(u64, u64)>)
    ensures
        r == nearest_ratio(w, h, ratios().len() as int),
{
    let table = ratio_table();
    let mut k: usize = 0;
    while k < table.len()
        invariant
            table@ == ratios(),
            k <= table@.len(),
            nearest_ratio(w, h, k as int) is None,
        decreases table@.len() - k,
    {
        let (a, b) = table[k];
        if close_to_exec(w, h, a, b) {
            proof {
                lemma_nearest_found(w, h, k as int + 1);
            }
            return Some((a, b));
        }
        k = k + 1;
    }
    None
}

proof fn lemma_nearest_found(w: u64, h: u64, n: int)
    requires
        1 <= n <= ratios().len(),
        nearest_ratio(w, h, n) is Some,
    ensures
        nearest_ratio(w, h, ratios().len() as int) == nearest_ratio(w, h, n),
    decreases ratios().len() - n,
{
    if n < ratios().len() {
        lemma_nearest_found(w, h, n + 1);
    }
}

fn index_of_exec(s: &Vec<char>, c: char) -> (r: Option<usize>)
    ensures
        match r {
            Some(i) => index_of(s@, c) == Some(i as int) && i < s@.len(),
            None => index_of(s@, c) is None,
        },
{
    let mut i: usize = 0;
    while i < s.len()
        invariant
            i <= s@.len(),
            forall|j: int| 0 <= j < i ==> s@[j] != c,
        decreases s@.len() - i,
    {
        if s[i] == c {
            assert(0 <= i < s@.len() && s@[i as int] == c);
            let ghost ch = choose|k: int| 0 <= k < s@.len() && s@[k] == c && forall|j: int| 0 <= j < k ==> s@[j] != c;
            assert(ch == i) by {
                if ch < i {
                } else if ch > i {
                }
            }
            return Some(i);
        }
        i = i + 1;
    }
    None
}

fn split_dims_exec(s: &str) -> (r: Option<(u64, u64)>)
    ensures
        r == split_dims(s@),
{
    let cs = chars_of(s);
    match index_of_exec(&cs, 'x') {
        Some(i) => {
            let left = s.substring_char(0, i);
            let right = s.substring_char(i + 1, s.unicode_len());
            match (parse_decimal(left), parse_decimal(right)) {
                (Some(w), Some(h)) => Some((w, h)),
                _ => None,
            }
        },
        None => None,
    }
}

fn is_ratio_text_exec(s: &str) -> (r: bool)
    ensures
        r == is_ratio_text(s@),
{
    let table = ratio_table();
    let mut k: usize = 0;
    while k < table.len()
        invariant
            table@ == ratios(),
            k <= table@.len(),
            forall|j: int| 0 <= j < k ==> s@ != ratio_text(#[trigger] ratios()[j].0, ratios()[j].1),
        decreases table@.len() - k,
    {
        let (a, b) = table[k];
        let mut t = decimal_u64(a);
        t.push(':');
        t.append(decimal_u64(b).as_str());
        assert(t@ =~= ratio_text(a, b));
        if text_eq(s, t.as_str()) {
            return true;
        }
        k = k + 1;
    }
    false
}

/// The image configuration for a `size` hint (`WxH` or `a:b`) and a quality
/// hint (`standard`, `hd`, `medium`); unknown values give `1:1` and `1K`.
pub fn parse_image_config(size: Option<&str>, quality: Option<&str>) -> (r: ImageConfig)
    ensures
        r.aspect_ratio@ == aspect_for(opt_seq(size)),
        r.image_size@ == tier_for(opt_seq(quality)),
{
    let aspect_ratio = match size {
        None => String::from_str("1:1"),
        Some(s) => {
            if is_ratio_text_exec(s) {
                String::from_str(s)
            } else {
                match split_dims_exec(s) {
                    Some((w, h)) => match nearest_ratio_exec(w, h) {
                        Some((a, b)) => {
                            let mut t = decimal_u64(a);
                            t.push(':');
                            t.append(decimal_u64(b).as_str());
                            assert(t@ =~= ratio_text(a, b));
                            t
                        },
                        None => String::from_str("1:1"),
                    },
                    None => String::from_str("1:1"),
                }
            }
        },
    };
    let is_hd = match quality {
        Some(q) => text_eq(q, "hd"),
        None => false,
    };
    let is_medium = match quality {
        Some(q) => text_eq(q, "medium"),
        None => false,
    };
    let image_size = if is_hd {
        String::from_str("4K")
    } else if is_medium {
        String::from_str("2K")
    } else {
        String::from_str("1K")
    };
    ImageConfig { aspect_ratio, image_size }
}


/// The standard base64 encoding of `b`, with padding.
pub uninterp spec fn base64_of(b: Seq<u8>) -> Seq<char>;

/// Relies on `base64::engine::general_purpose::STANDARD.encode`, which
/// writes the standard base64 alphabet with padding; nothing in, nothing out.
#[verifier::external_body]
fn encode_base64(b: &[u8]) -> (r: String)
    ensures
        r@ == base64_of(b@),
        b@.len() == 0 ==> r@.len() == 0,
{
    base64::engine::general_purpose::STANDARD.encode(b)
}

/// Relies on `uuid::Uuid::new_v4` and its `Display`, which writes the
/// 36-character hyphenated form of a random UUID.
#[verifier::external_body]
fn random_uuid() -> (r: String)
    ensures
        r@.len() == 36,
{
    uuid::Uuid::new_v4().to_string()
}

/// Relies on `chrono::Utc::now().timestamp()`: the current time in seconds
/// since the Unix epoch.
#[verifier::external_body]
fn unix_now() -> (r: i64) {
    chrono::Utc::now().timestamp()
}

/// The hint appended to the prompt for `hd` quality.
pub open spec fn hd_hint() -> Seq<char> {
    ", (high quality, highly detailed, 4k resolution, hdr)"@
}

/// The hint appended to the prompt for the `vivid` style.
pub open spec fn vivid_hint() -> Seq<char> {
    ", (vivid colors, dramatic lighting, rich details)"@
}

/// The hint appended to the prompt for the `natural` style.
pub open spec fn natural_hint() -> Seq<char> {
    ", (natural lighting, realistic, photorealistic)"@
}

/// The prompt of a generation request with its quality and style hints.
pub open spec fn generation_prompt(prompt: Seq<char>, quality: Seq<char>, style: Seq<char>) -> Seq<char> {
    prompt + (if quality == "hd"@ { hd_hint() } else { Seq::empty() }) + (if style == "vivid"@ {
        vivid_hint()
    } else if style == "natural"@ {
        natural_hint()
    } else {
        Seq::empty()
    })
}

/// The prompt of a generation request with its quality and style hints.
pub fn enhance_prompt(prompt: &str, quality: &str, style: &str) -> (r: String)
    ensures
        r@ == generation_prompt(prompt@, quality@, style@),
{
    let mut p = String::from_str(prompt);
    if text_eq(quality, "hd") {
        p.append(", (high quality, highly detailed, 4k resolution, hdr)");
    }
    if text_eq(style, "vivid") {
        p.append(", (vivid colors, dramatic lighting, rich details)");
    } else if text_eq(style, "natural") {
        p.append(", (natural lighting, realistic, photorealistic)");
    }
    assert(p@ =~= generation_prompt(prompt@, quality@, style@));
    p
}

/// The prompt of an edit request: the style, when given, appended as `, style: <style>`.
pub fn edit_prompt(prompt: &str, style: Option<&str>) -> (r: String)
    ensures
        r@ == match style {
            Some(s) => prompt@ + ", style: "@ + s@,
            None => prompt@,
        },
{
    let mut p = String::from_str(prompt);
    match style {
        Some(s) => {
            p.append(", style: ");
            p.append(s);
        },
        None => {},
    }
    p
}

/// The parameters of an image generation request.
pub struct GenerationParams {
    pub prompt: String,
    pub model: String,
    pub n: u64,
    pub size: String,
    pub response_format: String,
    pub quality: String,
    pub style: String,
}

/// The count member of a request: a whole non-negative number; 1 otherwise.
pub open spec fn count_of(v: Json) -> u64 {
    match get(v, "n"@) {
        Some(Json::Number(t)) => match decimal_value(t) {
            Some(n) => n,
            None => 1,
        },
        _ => 1,
    }
}

/// Reads a generation request: `prompt` is required; `model`, `n`, `size`,
/// `response_format`, `quality` and `style` default to
/// `gemini-3-pro-image`, 1, `1024x1024`, `b64_json`, `standard` and `vivid`.
pub fn generation_params(body: &JsonValue) -> (r: Result<GenerationParams, String>)
    ensures
        match r {
            Ok(p) => get_str(body@, "prompt"@) == Some(p.prompt@)
                && p.model@ == str_or(body@, "model"@, "gemini-3-pro-image"@)
                && p.n == count_of(body@)
                && p.size@ == str_or(body@, "size"@, "1024x1024"@)
                && p.response_format@ == str_or(body@, "response_format"@, "b64_json"@)
                && p.quality@ == str_or(body@, "quality"@, "standard"@)
                && p.style@ == str_or(body@, "style"@, "vivid"@),
            Err(e) => get_str(body@, "prompt"@) is None && e@ == "Missing 'prompt' field"@,
        },
{
    let prompt = match body.get_str("prompt") {
        Some(p) => p.clone(),
        None => {
            return Err(String::from_str("Missing 'prompt' field"));
        },
    };
    let n = match body.get("n") {
        Some(JsonValue::Number(t)) => match parse_decimal(t.as_str()) {
            Some(n) => n,
            None => 1,
        },
        _ => 1,
    };
    Ok(GenerationParams {
        prompt,
        model: str_or_exec(body, "model", "gemini-3-pro-image"),
        n,
        size: str_or_exec(body, "size", "1024x1024"),
        response_format: str_or_exec(body, "response_format", "b64_json"),
        quality: str_or_exec(body, "quality", "standard"),
        style: str_or_exec(body, "style", "vivid"),
    })
}

fn str_or_exec(v: &JsonValue, key: &str, default: &str) -> (r: String)
    ensures
        r@ == str_or(v@, key@, default@),
{
    match v.get_str(key) {
        Some(s) => s.clone(),
        None => String::from_str(default),
    }
}

/// What a field of the edit form holds.
pub enum EditField {
    MainImage,
    Mask,
    ReferenceImage,
    Prompt,
    Count,
    Size,
    ImageSize,
    AspectRatio,
    Style,
    ResponseFormat,
    Model,
    Ignored,
}

/// What the edit-form field `name` holds: `image` is the main image, `mask`
/// the mask, any other name that begins with `image` but `image_size` a
/// reference image.
pub open spec fn edit_field(name: Seq<char>) -> EditField {
    if name == "image"@ {
        EditField::MainImage
    } else if name == "mask"@ {
        EditField::Mask
    } else if crate::text::begins_with(name, "image"@) && name != "image_size"@ {
        EditField::ReferenceImage
    } else if name == "prompt"@ {
        EditField::Prompt
    } else if name == "n"@ {
        EditField::Count
    } else if name == "size"@ {
        EditField::Size
    } else if name == "image_size"@ {
        EditField::ImageSize
    } else if name == "aspect_ratio"@ {
        EditField::AspectRatio
    } else if name == "style"@ {
        EditField::Style
    } else if name == "response_format"@ {
        EditField::ResponseFormat
    } else if name == "model"@ {
        EditField::Model
    } else {
        EditField::Ignored
    }
}

fn begins_with_text(s: &str, p: &str) -> (r: bool)
    ensures
        r == crate::text::begins_with(s@, p@),
{
    let sc = chars_of(s);
    let pc = chars_of(p);
    if pc.len() > sc.len() {
        return false;
    }
    let mut i: usize = 0;
    while i < pc.len()
        invariant
            sc@ == s@,
            pc@ == p@,
            pc@.len() <= sc@.len(),
            i <= pc@.len(),
            forall|k: int| 0 <= k < i ==> sc@[k] == pc@[k],
        decreases pc@.len() - i,
    {
        if sc[i] != pc[i] {
            assert(sc@.subrange(0, pc@.len() as int)[i as int] != pc@[i as int]);
            return false;
        }
        i = i + 1;
    }
    assert(sc@.subrange(0, pc@.len() as int) =~= pc@);
    true
}

/// What the edit-form field `name` holds.
pub fn classify_edit_field(name: &str) -> (r: EditField)
    ensures
        r == edit_field(name@),
{
    if text_eq(name, "image") {
        EditField::MainImage
    } else if text_eq(name, "mask") {
        EditField::Mask
    } else if begins_with_text(name, "image") && !text_eq(name, "image_size") {
        EditField::ReferenceImage
    } else if text_eq(name, "prompt") {
        EditField::Prompt
    } else if text_eq(name, "n") {
        EditField::Count
    } else if text_eq(name, "size") {
        EditField::Size
    } else if text_eq(name, "image_size") {
        EditField::ImageSize
    } else if text_eq(name, "aspect_ratio") {
        EditField::AspectRatio
    } else if text_eq(name, "style") {
        EditField::Style
    } else if text_eq(name, "response_format") {
        EditField::ResponseFormat
    } else if text_eq(name, "model") {
        EditField::Model
    } else {
        EditField::Ignored
    }
}

/// The count an edit form's `n` field gives: a whole number, else 1.
pub fn edit_count(text: &str) -> (r: u64)
    ensures
        r == match decimal_value(text@) {
            Some(n) => n,
            None => 1,
        },
{
    match parse_decimal(text) {
        Some(n) => n,
        None => 1,
    }
}

/// The quality hint an edit's `image_size` stands for: `4K` is `hd`, `2K`
/// is `medium`, anything else none.
pub fn edit_quality(image_size: Option<&str>) -> (r: Option<&'static str>)
    ensures
        opt_seq(r) == (if opt_seq(image_size) == Some("4K"@) {
            Some("hd"@)
        } else if opt_seq(image_size) == Some("2K"@) {
            Some("medium"@)
        } else {
            None::<Seq<char>>
        }),
{
    match image_size {
        Some(s) => {
            if text_eq(s, "4K") {
                Some("hd")
            } else if text_eq(s, "2K") {
                Some("medium")
            } else {
                None
            }
        },
        None => None,
    }
}

/// An inline image part.
pub open spec fn inline_part(mime: Seq<char>, data: Seq<char>) -> Json {
    Json::Object(seq![("inlineData"@, Json::Object(seq![("mimeType"@, Json::Str(mime)), ("data"@, Json::Str(data))]))])
}

/// An inline image part holding `bytes` in base64.
pub fn inline_image_part(mime: &str, bytes: &[u8]) -> (r: JsonValue)
    ensures
        r@ == inline_part(mime@, base64_of(bytes@)),
{
    let data = encode_base64(bytes);
    object1("inlineData", object2("mimeType", text_value(mime), "data", JsonValue::Str(data)))
}

/// A text part.
pub fn text_part(text: String) -> (r: JsonValue)
    ensures
        r@ == Json::Object(seq![("text"@, Json::Str(text@))]),
{
    object1("text", JsonValue::Str(text))
}

/// The parts of an edit request: the prompt, then the main image and the
/// mask as PNG when given, then the reference images as JPEG.
pub open spec fn edit_parts(prompt: Seq<char>, main: Option<Seq<u8>>, mask: Option<Seq<u8>>, refs: Seq<Seq<u8>>) -> Seq<Json> {
    seq![Json::Object(seq![("text"@, Json::Str(prompt))])]
        + (match main { Some(b) => seq![inline_part("image/png"@, base64_of(b))], None => Seq::empty() })
        + (match mask { Some(b) => seq![inline_part("image/png"@, base64_of(b))], None => Seq::empty() })
        + refs.map_values(|b: Seq<u8>| inline_part("image/jpeg"@, base64_of(b)))
}

/// The views of optional bytes.
pub open spec fn opt_bytes(o: Option<Vec<u8>>) -> Option<Seq<u8>> {
    match o {
        Some(b) => Some(b@),
        None => None,
    }
}

/// The parts of an edit request.
pub fn edit_request_parts(prompt: String, main: &Option<Vec<u8>>, mask: &Option<Vec<u8>>, refs: &Vec<Vec<u8>>) -> (r: Vec<JsonValue>)
    ensures
        views(r@) == edit_parts(prompt@, opt_bytes(*main), opt_bytes(*mask), refs@.map_values(|b: Vec<u8>| b@)),
{
    let mut out: Vec<JsonValue> = Vec::new();
    out.push(text_part(prompt));
    match main {
        Some(b) => {
            out.push(inline_image_part("image/png", b.as_slice()));
        },
        None => {},
    }
    match mask {
        Some(b) => {
            out.push(inline_image_part("image/png", b.as_slice()));
        },
        None => {},
    }
    let ghost lead = views(out@);
    let mut k: usize = 0;
    while k < refs.len()
        invariant
            k <= refs@.len(),
            out@.len() == lead.len() + k,
            forall|j: int| 0 <= j < lead.len() ==> (#[trigger] out@[j])@ == lead[j],
            forall|j: int| 0 <= j < k ==> (#[trigger] out@[lead.len() + j])@ == inline_part("image/jpeg"@, base64_of(refs@[j]@)),
        decreases refs@.len() - k,
    {
        out.push(inline_image_part("image/jpeg", refs[k].as_slice()));
        k = k + 1;
    }
    let ghost tail = refs@.map_values(|b: Vec<u8>| b@).map_values(|b: Seq<u8>| inline_part("image/jpeg"@, base64_of(b)));
    assert forall|j: int| 0 <= j < out@.len() implies views(out@)[j] == (lead + tail)[j] by {
        if j >= lead.len() {
            let m = j - lead.len();
            assert(out@[lead.len() + m]@ == inline_part("image/jpeg"@, base64_of(refs@[m]@)));
        }
    }
    assert(views(out@) =~= lead + tail);
    out
}


/// The safety categories whose filters are switched off.
pub open spec fn safety_categories() -> Seq<Seq<char>> {
    seq![
        "HARM_CATEGORY_HARASSMENT"@,
        "HARM_CATEGORY_HATE_SPEECH"@,
        "HARM_CATEGORY_SEXUALLY_EXPLICIT"@,
        "HARM_CATEGORY_DANGEROUS_CONTENT"@,
        "HARM_CATEGORY_CIVIC_INTEGRITY"@,
    ]
}

/// The safety settings: every category's threshold off.
pub open spec fn safety_settings() -> Seq<Json> {
    safety_categories().map_values(|c: Seq<char>| Json::Object(seq![("category"@, Json::Str(c)), ("threshold"@, Json::Str("OFF"@))]))
}

/// The generation configuration: one candidate per call, the image
/// configuration, and for edits the fixed sampling settings.
pub open spec fn generation_config(aspect: Seq<char>, size: Seq<char>, edit: bool) -> Json {
    let image = Json::Object(seq![("aspectRatio"@, Json::Str(aspect)), ("imageSize"@, Json::Str(size))]);
    if edit {
        Json::Object(seq![
            ("candidateCount"@, Json::Number("1"@)),
            ("imageConfig"@, image),
            ("maxOutputTokens"@, Json::Number("8192"@)),
            ("stopSequences"@, Json::Array(Seq::empty())),
            ("temperature"@, Json::Number("1.0"@)),
            ("topP"@, Json::Number("0.95"@)),
            ("topK"@, Json::Number("40"@)),
        ])
    } else {
        Json::Object(seq![("candidateCount"@, Json::Number("1"@)), ("imageConfig"@, image)])
    }
}

/// The body of one upstream image call.
pub open spec fn image_body(project: Seq<char>, request_id: Seq<char>, model: Seq<char>, parts: Seq<Json>, aspect: Seq<char>, size: Seq<char>, edit: bool) -> Json {
    Json::Object(seq![
        ("project"@, Json::Str(project)),
        ("requestId"@, Json::Str(request_id)),
        ("model"@, Json::Str(model)),
        ("userAgent"@, Json::Str("antigravity"@)),
        ("requestType"@, Json::Str("image_gen"@)),
        ("request"@, Json::Object(seq![
            ("contents"@, Json::Array(seq![Json::Object(seq![("role"@, Json::Str("user"@)), ("parts"@, Json::Array(parts))])])),
            ("generationConfig"@, generation_config(aspect, size, edit)),
            ("safetySettings"@, Json::Array(safety_settings())),
        ])),
    ])
}

/// An object built from its members.
fn object_from(f: Vec<(String, JsonValue)>) -> (r: JsonValue)
    ensures
        r@ == Json::Object(f@.map_values(|m: (String, JsonValue)| (m.0@, m.1@))),
{
    let ghost g = f;
    let r = JsonValue::Object(f);
    proof {
        crate::json::lemma_object_view(g);
        assert(r@->Object_0 =~= g@.map_values(|m: (String, JsonValue)| (m.0@, m.1@)));
    }
    r
}

fn number(t: &str) -> (r: JsonValue)
    ensures
        r@ == Json::Number(t@),
{
    JsonValue::Number(String::from_str(t))
}

fn safety_settings_exec() -> (r: JsonValue)
    ensures
        r@ == Json::Array(safety_settings()),
{
    let mut v: Vec<JsonValue> = Vec::new();
    v.push(object2("category", text_value("HARM_CATEGORY_HARASSMENT"), "threshold", text_value("OFF")));
    v.push(object2("category", text_value("HARM_CATEGORY_HATE_SPEECH"), "threshold", text_value("OFF")));
    v.push(object2("category", text_value("HARM_CATEGORY_SEXUALLY_EXPLICIT"), "threshold", text_value("OFF")));
    v.push(object2("category", text_value("HARM_CATEGORY_DANGEROUS_CONTENT"), "threshold", text_value("OFF")));
    v.push(object2("category", text_value("HARM_CATEGORY_CIVIC_INTEGRITY"), "threshold", text_value("OFF")));
    assert(views(v@) =~= safety_settings());
    array_of(v)
}

fn generation_config_exec(config: &ImageConfig, edit: bool) -> (r: JsonValue)
    ensures
        r@ == generation_config(config.aspect_ratio@, config.image_size@, edit),
{
    let image = object2("aspectRatio", JsonValue::Str(config.aspect_ratio.clone()), "imageSize", JsonValue::Str(config.image_size.clone()));
    let ghost iv = image@;
    let mut f: Vec<(String, JsonValue)> = Vec::new();
    f.push((String::from_str("candidateCount"), number("1")));
    f.push((String::from_str("imageConfig"), image));
    if edit {
        f.push((String::from_str("maxOutputTokens"), number("8192")));
        let empty: Vec<JsonValue> = Vec::new();
        let stops = array_of(empty);
        assert(views(empty@) =~= Seq::<Json>::empty());
        f.push((String::from_str("stopSequences"), stops));
        f.push((String::from_str("temperature"), number("1.0")));
        f.push((String::from_str("topP"), number("0.95")));
        f.push((String::from_str("topK"), number("40")));
    }
    let ghost fv = f@;
    let r = object_from(f);
    assert(r@->Object_0 =~= generation_config(config.aspect_ratio@, config.image_size@, edit)->Object_0);
    r
}

/// The body of one upstream image call.
pub fn image_request_body(project: &str, request_id: String, model: &str, parts: Vec<JsonValue>, config: &ImageConfig, edit: bool) -> (r: JsonValue)
    ensures
        r@ == image_body(project@, request_id@, model@, views(parts@), config.aspect_ratio@, config.image_size@, edit),
{
    let content = object2("role", text_value("user"), "parts", array_of(parts));
    let mut cs: Vec<JsonValue> = Vec::new();
    cs.push(content);
    let ghost cv = views(cs@);
    let contents = array_of(cs);
    let gen = generation_config_exec(config, edit);
    let safety = safety_settings_exec();
    let ghost w = (contents@, gen@, safety@);
    let request = crate::json::object3("contents", contents, "generationConfig", gen, "safetySettings", safety);
    let ghost rv = request@;
    let mut f: Vec<(String, JsonValue)> = Vec::new();
    f.push((String::from_str("project"), text_value(project)));
    f.push((String::from_str("requestId"), JsonValue::Str(request_id)));
    f.push((String::from_str("model"), text_value(model)));
    f.push((String::from_str("userAgent"), text_value("antigravity")));
    f.push((String::from_str("requestType"), text_value("image_gen")));
    f.push((String::from_str("request"), request));
    let r = object_from(f);
    assert(cv =~= seq![Json::Object(seq![("role"@, Json::Str("user"@)), ("parts"@, Json::Array(views(parts@)))])]);
    assert(rv->Object_0 =~= image_body(project@, request_id@, model@, views(parts@), config.aspect_ratio@, config.image_size@, edit)->Object_0[5].1->Object_0);
    assert(r@->Object_0 =~= image_body(project@, request_id@, model@, views(parts@), config.aspect_ratio@, config.image_size@, edit)->Object_0);
    r
}

/// A fresh request id: `prefix` followed by a random UUID.
pub fn fresh_request_id(prefix: &str) -> (r: String)
    ensures
        exists|u: Seq<char>| u.len() == 36 && r@ == prefix@ + u,
{
    let u = random_uuid();
    let mut id = String::from_str(prefix);
    id.append(u.as_str());
    id
}

/// The top-level payload of an upstream reply: under `response` when there, else the reply.
pub open spec fn reply_root(v: Json) -> Json {
    match get(v, "response"@) {
        Some(r) => r,
        None => v,
    }
}

/// The parts of the first candidate's content.
pub open spec fn candidate_parts(v: Json) -> Seq<Json> {
    match get(reply_root(v), "candidates"@) {
        Some(Json::Array(cs)) => if cs.len() > 0 {
            match get(cs[0], "content"@) {
                Some(c) => match get(c, "parts"@) {
                    Some(Json::Array(ps)) => ps,
                    _ => Seq::empty(),
                },
                None => Seq::empty(),
            }
        } else {
            Seq::empty()
        },
        _ => Seq::empty(),
    }
}

/// The image entry a part gives, when it holds inline data: a data URI
/// (`url`) or the raw base64 (`b64_json`).
pub open spec fn part_entry(p: Json, as_url: bool) -> Seq<Json> {
    match get(p, "inlineData"@) {
        Some(img) => {
            let data = str_or(img, "data"@, Seq::empty());
            if data.len() == 0 {
                Seq::empty()
            } else if as_url {
                let mime = str_or(img, "mimeType"@, "image/png"@);
                seq![Json::Object(seq![("url"@, Json::Str("data:"@ + mime + ";base64,"@ + data))])]
            } else {
                seq![Json::Object(seq![("b64_json"@, Json::Str(data))])]
            }
        },
        None => Seq::empty(),
    }
}

/// The image entries among the first `n` parts.
pub open spec fn part_entries(ps: Seq<Json>, as_url: bool, n: int) -> Seq<Json>
    decreases n,
{
    if n <= 0 || n > ps.len() {
        Seq::empty()
    } else {
        part_entries(ps, as_url, n - 1) + part_entry(ps[n - 1], as_url)
    }
}

/// The image entries of one upstream reply.
pub open spec fn reply_images(v: Json, as_url: bool) -> Seq<Json> {
    let ps = candidate_parts(v);
    part_entries(ps, as_url, ps.len() as int)
}

fn part_entry_exec(p: &JsonValue, as_url: bool) -> (r: Option<JsonValue>)
    ensures
        match r {
            Some(e) => part_entry(p@, as_url) == seq![e@],
            None => part_entry(p@, as_url).len() == 0,
        },
{
    match p.get("inlineData") {
        Some(img) => {
            proof {
                reveal_strlit("");
            }
            let data = str_or_exec(img, "data", "");
            if data.as_str().is_empty() {
                None
            } else if as_url {
                let mime = str_or_exec(img, "mimeType", "image/png");
                let mut uri = String::from_str("data:");
                uri.append(mime.as_str());
                uri.append(";base64,");
                uri.append(data.as_str());
                Some(object1("url", JsonValue::Str(uri)))
            } else {
                Some(object1("b64_json", JsonValue::Str(data)))
            }
        },
        None => None,
    }
}

fn candidate_parts_exec(v: &JsonValue) -> (r: Vec<JsonValue>)
    ensures
        views(r@) == candidate_parts(v@),
{
    let root = match v.get("response") {
        Some(x) => x,
        None => v,
    };
    let none: Vec<JsonValue> = Vec::new();
    assert(views(none@) =~= Seq::<Json>::empty());
    match root.get("candidates") {
        Some(JsonValue::Array(cs)) => {
            proof {
                lemma_array_view(*cs);
            }
            if cs.len() > 0 {
                match cs[0].get("content") {
                    Some(c) => match c.get("parts") {
                        Some(JsonValue::Array(ps)) => {
                            proof {
                                lemma_array_view(*ps);
                            }
                            let r = copy_items(ps);
                            assert(views(r@) =~= candidate_parts(v@));
                            r
                        },
                        _ => none,
                    },
                    None => none,
                }
            } else {
                none
            }
        },
        _ => none,
    }
}

fn copy_items(items: &Vec<JsonValue>) -> (r: Vec<JsonValue>)
    ensures
        views(r@) == views(items@),
{
    let mut out: Vec<JsonValue> = Vec::new();
    let mut i: usize = 0;
    while i < items.len()
        invariant
            i <= items@.len(),
            out@.len() == i,
            forall|k: int| 0 <= k < i ==> (#[trigger] out@[k])@ == items@[k]@,
        decreases items@.len() - i,
    {
        out.push(items[i].duplicate());
        i = i + 1;
    }
    assert(views(out@) =~= views(items@));
    out
}

/// The image entries of one upstream reply.
pub fn reply_image_entries(v: &JsonValue, as_url: bool) -> (r: Vec<JsonValue>)
    ensures
        views(r@) == reply_images(v@, as_url),
{
    let ps = candidate_parts_exec(v);
    let ghost pv = views(ps@);
    let mut out: Vec<JsonValue> = Vec::new();
    let mut i: usize = 0;
    while i < ps.len()
        invariant
            pv == views(ps@),
            i <= ps@.len(),
            views(out@) == part_entries(pv, as_url, i as int),
        decreases ps@.len() - i,
    {
        match part_entry_exec(&ps[i], as_url) {
            Some(e) => {
                out.push(e);
            },
            None => {},
        }
        assert(views(out@) =~= part_entries(pv, as_url, i + 1));
        i = i + 1;
    }
    out
}


/// The image entries of the first `n` call results, in order.
pub open spec fn result_images(rs: Seq<Result<JsonValue, String>>, as_url: bool, n: int) -> Seq<Json>
    decreases n,
{
    if n <= 0 || n > rs.len() {
        Seq::empty()
    } else {
        result_images(rs, as_url, n - 1) + match rs[n - 1] {
            Ok(v) => reply_images(v@, as_url),
            Err(_) => Seq::empty(),
        }
    }
}

/// The error messages of the first `n` call results, in order.
pub open spec fn result_errors(rs: Seq<Result<JsonValue, String>>, n: int) -> Seq<Seq<char>>
    decreases n,
{
    if n <= 0 || n > rs.len() {
        Seq::empty()
    } else {
        result_errors(rs, n - 1) + match rs[n - 1] {
            Ok(_) => Seq::empty(),
            Err(e) => seq![e@],
        }
    }
}

/// The parts joined with `; `.
pub open spec fn join_errors(parts: Seq<Seq<char>>) -> Seq<char>
    decreases parts.len(),
{
    if parts.len() == 0 {
        Seq::empty()
    } else if parts.len() == 1 {
        parts[0]
    } else {
        join_errors(parts.drop_last()) + "; "@ + parts.last()
    }
}

/// The outcome of the parallel image calls.
pub struct ImageOutcome {
    /// 200 when some image came back, else 502.
    pub status: u16,
    /// The image entries, in the order of the results.
    pub images: Vec<JsonValue>,
    /// The calls' errors joined with `; `; when no image came back and no
    /// call failed, `No images generated`.
    pub error: String,
}

/// Gathers the image entries of all calls; succeeds when at least one image
/// came back, partial failures included. With no calls at all (`n = 0`)
/// no image comes back and the outcome is a 502.
pub fn aggregate_images(results: &Vec<Result<JsonValue, String>>, as_url: bool) -> (r: ImageOutcome)
    ensures
        views(r.images@) == result_images(results@, as_url, results@.len() as int),
        r.status == (if r.images@.len() > 0 { 200u16 } else { 502u16 }),
        r.error@ == (if r.images@.len() == 0 && result_errors(results@, results@.len() as int).len() == 0 {
            "No images generated"@
        } else {
            join_errors(result_errors(results@, results@.len() as int))
        }),
{
    let mut images: Vec<JsonValue> = Vec::new();
    let mut error = String::new();
    let mut n_errors: usize = 0;
    let mut i: usize = 0;
    while i < results.len()
        invariant
            i <= results@.len(),
            views(images@) == result_images(results@, as_url, i as int),
            error@ == join_errors(result_errors(results@, i as int)),
            n_errors == result_errors(results@, i as int).len(),
            n_errors <= i,
        decreases results@.len() - i,
    {
        match &results[i] {
            Ok(v) => {
                let more = reply_image_entries(v, as_url);
                let ghost before = views(images@);
                let mut j: usize = 0;
                while j < more.len()
                    invariant
                        j <= more@.len(),
                        images@.len() == before.len() + j,
                        forall|k: int| 0 <= k < before.len() ==> (#[trigger] images@[k])@ == before[k],
                        forall|k: int| 0 <= k < j ==> (#[trigger] images@[before.len() + k])@ == more@[k]@,
                    decreases more@.len() - j,
                {
                    images.push(more[j].duplicate());
                    j = j + 1;
                }
                assert forall|k: int| 0 <= k < images@.len() implies views(images@)[k] == (before + views(more@))[k] by {
                    if k >= before.len() {
                        let m = k - before.len();
                        assert(images@[before.len() + m]@ == more@[m]@);
                    }
                }
                assert(views(images@) =~= result_images(results@, as_url, i + 1));
                assert(result_errors(results@, i + 1) =~= result_errors(results@, i as int));
            },
            Err(e) => {
                let ghost parts = result_errors(results@, i + 1);
                if n_errors > 0 {
                    error.append("; ");
                }
                error.append(e.as_str());
                n_errors = n_errors + 1;
                assert(parts.drop_last() =~= result_errors(results@, i as int));
                assert(error@ =~= join_errors(parts));
                assert(result_images(results@, as_url, i + 1) =~= result_images(results@, as_url, i as int));
            },
        }
        i = i + 1;
    }
    if images.len() > 0 {
        ImageOutcome { status: 200, images, error }
    } else {
        if n_errors == 0 {
            error = String::from_str("No images generated");
        }
        ImageOutcome { status: 502, images, error }
    }
}

/// The decimal text of a signed number.
pub open spec fn signed_text(n: int) -> Seq<char> {
    if n < 0 { "-"@ + crate::orchestrator::decimal_text((-n) as nat) } else { crate::orchestrator::decimal_text(n as nat) }
}

fn signed_string(n: i64) -> (r: String)
    ensures
        r@ == signed_text(n as int),
{
    if n < 0 {
        let m: u64 = (-(n as i128)) as u64;
        let mut s = String::from_str("-");
        s.append(decimal_u64(m).as_str());
        s
    } else {
        decimal_u64(n as u64)
    }
}

/// The images reply `{created, data}`.
pub fn image_response(created: i64, images: Vec<JsonValue>) -> (r: JsonValue)
    ensures
        r@ == Json::Object(seq![("created"@, Json::Number(signed_text(created as int))), ("data"@, Json::Array(views(images@)))]),
{
    object2("created", JsonValue::Number(signed_string(created)), "data", array_of(images))
}

/// The images reply, stamped with the current time.
pub fn image_response_now(images: Vec<JsonValue>) -> (r: JsonValue)
    ensures
        exists|t: i64| r@ == Json::Object(seq![("created"@, Json::Number(signed_text(t as int))), ("data"@, Json::Array(views(images@)))]),
{
    let t = unix_now();
    image_response(t, images)
}


/// What an edit form has given so far.
pub struct EditForm {
    pub image: Option<Vec<u8>>,
    pub mask: Option<Vec<u8>>,
    pub references: Vec<Vec<u8>>,
    pub prompt: String,
    pub n: u64,
    pub size: String,
    pub response_format: String,
    pub model: String,
    pub aspect_ratio: Option<String>,
    pub image_size: Option<String>,
    pub style: Option<String>,
}

impl EditForm {
    /// An empty form: one image, `1024x1024`, `b64_json`, `gemini-3-pro-image`.
    pub fn new() -> (r: EditForm)
        ensures
            r.image is None,
            r.mask is None,
            r.references@.len() == 0,
            r.prompt@.len() == 0,
            r.n == 1,
            r.size@ == "1024x1024"@,
            r.response_format@ == "b64_json"@,
            r.model@ == "gemini-3-pro-image"@,
            r.aspect_ratio is None,
            r.image_size is None,
            r.style is None,
    {
        EditForm {
            image: None,
            mask: None,
            references: Vec::new(),
            prompt: String::new(),
            n: 1,
            size: String::from_str("1024x1024"),
            response_format: String::from_str("b64_json"),
            model: String::from_str("gemini-3-pro-image"),
            aspect_ratio: None,
            image_size: None,
            style: None,
        }
    }

    /// Takes in the bytes of an image field: the main image, the mask or
    /// one more reference image. Other fields are left alone.
    pub fn add_image(&mut self, kind: &EditField, bytes: Vec<u8>)
        ensures
            match kind {
                EditField::MainImage => final(self).image == Some(bytes) && final(self).mask == old(self).mask
                    && final(self).references == old(self).references,
                EditField::Mask => final(self).mask == Some(bytes) && final(self).image == old(self).image
                    && final(self).references == old(self).references,
                EditField::ReferenceImage => final(self).references@ == old(self).references@.push(bytes)
                    && final(self).image == old(self).image && final(self).mask == old(self).mask,
                _ => *final(self) == *old(self),
            },
            final(self).prompt == old(self).prompt,
            final(self).n == old(self).n,
            final(self).model == old(self).model,
    {
        match kind {
            EditField::MainImage => {
                self.image = Some(bytes);
            },
            EditField::Mask => {
                self.mask = Some(bytes);
            },
            EditField::ReferenceImage => {
                self.references.push(bytes);
            },
            _ => {},
        }
    }

    /// Takes in the text of a field: the prompt, the count (a whole number,
    /// else 1), the size, the image size, the aspect ratio, the style, the
    /// response format, or a model name when it is not empty.
    pub fn set_text(&mut self, kind: &EditField, value: String)
        ensures
            final(self).image == old(self).image,
            final(self).mask == old(self).mask,
            final(self).references == old(self).references,
            match kind {
                EditField::Prompt => final(self).prompt == value,
                EditField::Count => final(self).n == match decimal_value(value@) {
                    Some(n) => n,
                    None => 1,
                },
                EditField::Size => final(self).size == value,
                EditField::ImageSize => final(self).image_size == Some(value),
                EditField::AspectRatio => final(self).aspect_ratio == Some(value),
                EditField::Style => final(self).style == Some(value),
                EditField::ResponseFormat => final(self).response_format == value,
                EditField::Model => final(self).model == (if value@.len() > 0 { value } else { old(self).model }),
                _ => *final(self) == *old(self),
            },
    {
        match kind {
            EditField::Prompt => {
                self.prompt = value;
            },
            EditField::Count => {
                self.n = edit_count(value.as_str());
            },
            EditField::Size => {
                self.size = value;
            },
            EditField::ImageSize => {
                self.image_size = Some(value);
            },
            EditField::AspectRatio => {
                self.aspect_ratio = Some(value);
            },
            EditField::Style => {
                self.style = Some(value);
            },
            EditField::ResponseFormat => {
                self.response_format = value;
            },
            EditField::Model => {
                if !value.as_str().is_empty() {
                    self.model = value;
                }
            },
            _ => {},
        }
    }
}

} // verus!
