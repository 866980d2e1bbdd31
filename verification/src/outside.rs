//! Calls into code that is not verified here: the standard library where vstd
//! gives it no specification, and the outside crates that the logic relies on.
//! Each item states what its documentation or source promises, and nothing more.

use vstd::prelude::*;
use scraper::{ElementRef, Html, Selector};

verus! {

/// `String::push`: appends one character.
#[verifier::external_body]
pub(crate) fn push_char(s: &mut String, c: char)
    ensures
        final(s)@ == old(s)@.push(c),
{
    s.push(c);
}


/// What `str::to_lowercase` returns for a string: the Unicode lowercase mapping
/// of every character, which takes tables to state.
pub uninterp spec fn unicode_lowercase(s: Seq<char>) -> Seq<char>;

/// The lowercase of a text: on ASCII text each letter `A`-`Z` made `a`-`z`;
/// on other text what `str::to_lowercase` returns.
pub open spec fn lowercase(s: Seq<char>) -> Seq<char> {
    if vstd::utf8::is_ascii_chars(s) {
        s.map_values(|c: char| ascii_lower(c))
    } else {
        unicode_lowercase(s)
    }
}

/// The lowercase of an ASCII character: `A`-`Z` become `a`-`z`, the rest stay.
pub open spec fn ascii_lower(c: char) -> char {
    if 'A' <= c && c <= 'Z' {
        ((c as u32) + 32) as char
    } else {
        c
    }
}

/// `str::to_lowercase`. Its result is a function of its argument alone and is
/// named; it is empty exactly when the argument is, since every character maps
/// to one or more characters; and on ASCII text, where the Unicode lowercase
/// mapping is the ASCII one, each letter `A`-`Z` becomes `a`-`z` and nothing else
/// changes.
#[verifier::external_body]
pub(crate) fn to_lowercase(s: &str) -> (r: String)
    ensures
        r@ == unicode_lowercase(s@),
        r@.len() == 0 <==> s@.len() == 0,
        vstd::utf8::is_ascii_chars(s@) ==> r@ == s@.map_values(|c: char| ascii_lower(c)),
{
    s.to_lowercase()
}


/// The captures of every non-overlapping match of `pattern` in `text`, as the
/// `regex` crate finds them (`None` when the pattern does not compile).
/// Each match lists its groups, group 0 being the whole match.
pub uninterp spec fn regex_matches(pattern: Seq<char>, text: Seq<char>) -> Option<
    Seq<Seq<Option<Seq<char>>>>,
>;

/// `regex::Regex::new(pattern)` followed by `captures_iter(text)`: the result is
/// named by `regex_matches`; the crate documents that group 0 of every match is
/// present.
#[verifier::external_body]
pub(crate) fn regex_captures(pattern: &str, text: &str) -> (r: Option<Vec<Vec<Option<String>>>>)
    ensures
        r.deep_view() == regex_matches(pattern@, text@),
        r matches Some(ms) ==> forall|i: int|
            0 <= i < ms.len() ==> #[trigger] ms@[i]@.len() > 0 && ms@[i]@[0] is Some,
{
    let re = regex::Regex::new(pattern).ok()?;
    Some(
        re.captures_iter(text).map(
            |c| c.iter().map(|g| g.map(|m| m.as_str().to_string())).collect(),
        ).collect(),
    )
}

/// For each element of `html` (parsed as a fragment) that matches the CSS
/// `selector`, in document order, the value of its attribute `attr`
/// (`None` when the selector does not parse).
pub uninterp spec fn fragment_attr_values(html: Seq<char>, selector: Seq<char>, attr: Seq<char>) -> Option<
    Seq<Option<Seq<char>>>,
>;

/// `scraper::Html::parse_fragment(html).select(selector)` mapped to the
/// attribute `attr` of each element; the result is named, not described.
#[verifier::external_body]
pub(crate) fn fragment_select_attr(html: &str, selector: &str, attr: &str) -> (r: Option<
    Vec<Option<String>>,
>)
    ensures
        r.deep_view() == fragment_attr_values(html@, selector@, attr@),
{
    let sel = scraper::Selector::parse(selector).ok()?;
    let doc = scraper::Html::parse_fragment(html);
    Some(doc.select(&sel).map(|e| e.value().attr(attr).map(|v| v.to_string())).collect())
}


/// What `urlencoding::decode` gives: percent escapes decoded, then the bytes
/// read as UTF-8 (`None` when they are not UTF-8).
pub uninterp spec fn url_decoded(s: Seq<char>) -> Option<Seq<char>>;

/// `urlencoding::decode`. Its source returns the input unchanged when it holds
/// no `%`; otherwise the result is only named.
#[verifier::external_body]
pub(crate) fn url_decode(s: &str) -> (r: Option<String>)
    ensures
        r.deep_view() == url_decoded(s@),
        !s@.contains('%') ==> r.deep_view() == Some(s@),
{
    urlencoding::decode(s).ok().map(|c| c.into_owned())
}

/// The bytes that `urlencoding::encode` keeps as they are: `0-9 A-Z a-z - . _ ~`.
pub open spec fn url_unreserved(b: u8) -> bool {
    (0x30 <= b <= 0x39) || (0x41 <= b <= 0x5A) || (0x61 <= b <= 0x7A) || b == 0x2D || b == 0x2E
        || b == 0x5F || b == 0x7E
}

/// The hexadecimal digit for `d` (below 16), in upper case, or with `lower` in lower case.
pub open spec fn hex_digit(d: int, lower: bool) -> char {
    if d < 10 {
        (48 + d) as char
    } else if lower {
        (87 + d) as char
    } else {
        (55 + d) as char
    }
}

/// Each byte kept when unreserved, else written as `%` and two upper-case hex digits.
pub open spec fn percent_encoded(bytes: Seq<u8>) -> Seq<char>
    decreases bytes.len(),
{
    if bytes.len() == 0 {
        seq![]
    } else {
        let b = bytes[0];
        let head = if url_unreserved(b) {
            seq![b as char]
        } else {
            seq!['%', hex_digit(b as int / 16, false), hex_digit(b as int % 16, false)]
        };
        head + percent_encoded(bytes.drop_first())
    }
}

/// What `urlencoding::encode` gives: the UTF-8 bytes of `s`, percent-encoded.
pub open spec fn url_encoded(s: Seq<char>) -> Seq<char> {
    percent_encoded(vstd::utf8::encode_utf8(s))
}

/// `urlencoding::encode`: its source percent-encodes every UTF-8 byte of the text
/// but the unreserved ones, with upper-case hex digits.
#[verifier::external_body]
pub(crate) fn url_encode(s: &str) -> (r: String)
    ensures
        r@ == url_encoded(s@),
{
    urlencoding::encode(s).into_owned()
}

/// For a JSON text whose top level is an object with an array under `list_key`,
/// the string under `item_key` of each element of that array (`None` for an
/// element without such a string); `None` when the text is not such JSON.
pub uninterp spec fn json_list_strings(text: Seq<char>, list_key: Seq<char>, item_key: Seq<char>) -> Option<Seq<Option<Seq<char>>>>;

/// `serde_json::from_str::<Value>` followed by `get(list_key)`, `as_array`, and
/// `get(item_key)` with `as_str` on each element; the result is named.
#[verifier::external_body]
pub(crate) fn json_list_field_strings(text: &str, list_key: &str, item_key: &str) -> (r: Option<Vec<Option<String>>>)
    ensures
        r.deep_view() == json_list_strings(text@, list_key@, item_key@),
{
    let data: serde_json::Value = serde_json::from_str(text).ok()?;
    let list = data.get(list_key)?.as_array()?;
    Some(list.iter().map(|e| e.get(item_key).and_then(|v| v.as_str()).map(|v| v.to_string())).collect())
}

/// The string that a JSON string literal denotes (`None` when `text` is not one).
pub uninterp spec fn json_string(text: Seq<char>) -> Option<Seq<char>>;

/// `serde_json::from_str::<String>`; the result is named.
#[verifier::external_body]
pub(crate) fn parse_json_string(text: &str) -> (r: Option<String>)
    ensures
        r.deep_view() == json_string(text@),
{
    serde_json::from_str::<String>(text).ok()
}

/// How `serde_json` writes one character inside a string literal: `"` and `\`
/// and the control characters escaped (short forms where JSON has them, else
/// `\u00XX` in lower-case hex), every other character as it is.
pub open spec fn json_char(c: char) -> Seq<char> {
    let n = c as int;
    if c == '"' {
        seq!['\\', '"']
    } else if c == '\\' {
        seq!['\\', '\\']
    } else if n == 8 {
        seq!['\\', 'b']
    } else if n == 9 {
        seq!['\\', 't']
    } else if n == 10 {
        seq!['\\', 'n']
    } else if n == 12 {
        seq!['\\', 'f']
    } else if n == 13 {
        seq!['\\', 'r']
    } else if n < 32 {
        seq!['\\', 'u', '0', '0', hex_digit(n / 16, true), hex_digit(n % 16, true)]
    } else {
        seq![c]
    }
}

/// The characters of `s`, each written as inside a JSON string literal.
pub open spec fn json_chars(s: Seq<char>) -> Seq<char>
    decreases s.len(),
{
    if s.len() == 0 {
        seq![]
    } else {
        json_char(s[0]) + json_chars(s.drop_first())
    }
}

/// The JSON string literal that encodes `s`, quotes included.
pub open spec fn json_encoded(s: Seq<char>) -> Seq<char> {
    seq!['"'] + json_chars(s) + seq!['"']
}

/// `serde_json::to_string` on a `&str`: its source writes the quoted literal with
/// the escapes of `json_char`. Encoding a string cannot fail, so the empty
/// fallback is never taken.
#[verifier::external_body]
pub(crate) fn to_json_string(s: &str) -> (r: String)
    ensures
        r@ == json_encoded(s@),
{
    serde_json::to_string(s).unwrap_or_default()
}


/// The characters that `regex::escape` escapes (its `is_meta_character`).
pub open spec fn regex_meta(c: char) -> bool {
    c == '\\' || c == '.' || c == '+' || c == '*' || c == '?' || c == '(' || c == ')' || c == '|'
        || c == '[' || c == ']' || c == '{' || c == '}' || c == '^' || c == '$' || c == '#'
        || c == '&' || c == '-' || c == '~'
}

/// What `regex::escape` gives: `s` with a backslash before every meta character.
pub open spec fn regex_escaped(s: Seq<char>) -> Seq<char>
    decreases s.len(),
{
    if s.len() == 0 {
        seq![]
    } else {
        let head = if regex_meta(s[0]) {
            seq!['\\', s[0]]
        } else {
            seq![s[0]]
        };
        head + regex_escaped(s.drop_first())
    }
}

/// `regex::escape`: its source pushes a backslash before each meta character.
#[verifier::external_body]
pub(crate) fn regex_escape(s: &str) -> (r: String)
    ensures
        r@ == regex_escaped(s@),
{
    regex::escape(s)
}

/// What `regex::Regex::replace_all` gives: every non-overlapping match of
/// `pattern` in `text` replaced by `rep`; `text` itself when the pattern does
/// not compile.
pub uninterp spec fn regex_replaced(pattern: Seq<char>, text: Seq<char>, rep: Seq<char>) -> Seq<char>;

/// `text` without the characters that occur in `gone`.
pub open spec fn without_chars(text: Seq<char>, gone: Seq<char>) -> Seq<char>
    decreases text.len(),
{
    if text.len() == 0 {
        seq![]
    } else {
        let head = if gone.contains(text[0]) {
            seq![]
        } else {
            seq![text[0]]
        };
        head + without_chars(text.drop_first(), gone)
    }
}

/// `regex::Regex::new(pattern)` then `replace_all(text, rep)`; the result is
/// named. For the one pattern the library cleans file names with, a bracketed
/// class of the literal characters `< > : " / \ | ? *`, the regex documentation
/// gives the result outright: such a class matches exactly one of those
/// characters, so replacing every match by nothing deletes each of them.
#[verifier::external_body]
pub(crate) fn regex_replace_all(pattern: &str, text: &str, rep: &str) -> (r: String)
    ensures
        r@ == regex_replaced(pattern@, text@, rep@),
        pattern@ == r#"[<>:"/\\|?*]"#@ && rep@.len() == 0 ==> r@ == without_chars(
            text@,
            seq!['<', '>', ':', '"', '/', '\\', '|', '?', '*'],
        ),
{
    match regex::Regex::new(pattern) {
        Ok(re) => re.replace_all(text, rep).into_owned(),
        Err(_) => text.to_string(),
    }
}

/// Whether `std::path::Path::is_absolute` holds of the path `s` (on the
/// platform the library is built for).
pub uninterp spec fn absolute_path(s: Seq<char>) -> bool;

/// `std::path::Path::new(s).is_absolute()`; the result is named.
#[verifier::external_body]
pub(crate) fn is_absolute_path(s: &str) -> (r: bool)
    ensures
        r == absolute_path(s@),
{
    std::path::Path::new(s).is_absolute()
}

/// What `std::path::Path::join` gives for two paths, written out.
pub uninterp spec fn joined_path(base: Seq<char>, rel: Seq<char>) -> Seq<char>;

/// `std::path::Path::new(base).join(rel)`, written out as a string; the
/// result is named.
#[verifier::external_body]
pub(crate) fn join_path(base: &str, rel: &str) -> (r: String)
    ensures
        r@ == joined_path(base@, rel@),
{
    std::path::Path::new(base).join(rel).to_string_lossy().into_owned()
}

/// The digit of the standard base64 alphabet for `v` (below 64).
pub open spec fn base64_digit(v: int) -> char {
    if v < 26 {
        (65 + v) as char
    } else if v < 52 {
        (71 + v) as char
    } else if v < 62 {
        (v - 4) as char
    } else if v == 62 {
        '+'
    } else {
        '/'
    }
}

/// Standard base64 with padding: each three bytes become four digits, and a
/// last group of one or two bytes is padded with `=`.
pub open spec fn base64_of(bytes: Seq<u8>) -> Seq<char>
    decreases bytes.len(),
{
    if bytes.len() == 0 {
        seq![]
    } else if bytes.len() == 1 {
        let a = bytes[0] as int;
        seq![base64_digit(a / 4), base64_digit((a % 4) * 16), '=', '=']
    } else if bytes.len() == 2 {
        let a = bytes[0] as int;
        let b = bytes[1] as int;
        seq![base64_digit(a / 4), base64_digit((a % 4) * 16 + b / 16), base64_digit((b % 16) * 4), '=']
    } else {
        let a = bytes[0] as int;
        let b = bytes[1] as int;
        let c = bytes[2] as int;
        seq![base64_digit(a / 4), base64_digit((a % 4) * 16 + b / 16), base64_digit((b % 16) * 4 + c / 64), base64_digit(c % 64)]
            + base64_of(bytes.subrange(3, bytes.len() as int))
    }
}

/// `base64::Engine::encode` with the `STANDARD` engine: standard alphabet, padded.
#[verifier::external_body]
pub(crate) fn base64_encode(bytes: &[u8]) -> (r: String)
    ensures
        r@ == base64_of(bytes@),
{
    base64::Engine::encode(&base64::engine::general_purpose::STANDARD, bytes)
}

/// The text before the first match of `pattern` in `text` (all of `text` when
/// nothing matches); `None` when the pattern does not compile.
pub uninterp spec fn regex_head(pattern: Seq<char>, text: Seq<char>) -> Option<Seq<char>>;

/// `regex::Regex::new(pattern)` followed by `split(text).next()`; the result is named.
#[verifier::external_body]
pub(crate) fn regex_split_first(pattern: &str, text: &str) -> (r: Option<String>)
    ensures
        r.deep_view() == regex_head(pattern@, text@),
{
    let re = regex::Regex::new(pattern).ok()?;
    let head = re.split(text).next().map(|s| s.to_string());
    head
}

/// `uuid::Uuid::new_v4` written out as a string: a random identifier, so
/// nothing is promised of its value.
#[verifier::external_body]
pub(crate) fn new_download_id() -> (r: String) {
    uuid::Uuid::new_v4().to_string()
}

/// What `String::from_utf8_lossy` gives for some bytes: the UTF-8 text they
/// hold, each invalid sequence replaced by U+FFFD.
pub uninterp spec fn lossy_decoded(b: Seq<u8>) -> Seq<char>;

/// The text some bytes hold: decoded as they are when they are valid UTF-8,
/// else what `String::from_utf8_lossy` makes of them.
pub open spec fn utf8_lossy(b: Seq<u8>) -> Seq<char> {
    if vstd::utf8::valid_utf8(b) {
        vstd::utf8::decode_utf8(b)
    } else {
        lossy_decoded(b)
    }
}

/// `String::from_utf8_lossy`, made an owned string; the result is named. Bytes
/// that are valid UTF-8 are read as they are, with nothing replaced.
#[verifier::external_body]
pub(crate) fn utf8_lossy_string(b: &Vec<u8>) -> (r: String)
    ensures
        r@ == lossy_decoded(b@),
        vstd::utf8::valid_utf8(b@) ==> r@ == vstd::utf8::decode_utf8(b@),
{
    String::from_utf8_lossy(b).into_owned()
}

/// What is read of one HTML element: its tag name, the values of the
/// attributes asked for (in the order asked), and its text.
pub type Element = (String, Vec<Option<String>>, String);

/// An element as the contracts see it.
pub type ElementView = (Seq<char>, Seq<Option<Seq<char>>>, Seq<char>);

/// How many elements of the document `html` match `selector` (0 when the
/// selector does not parse).
pub uninterp spec fn match_count(html: Seq<char>, selector: Seq<char>) -> nat;

/// For each element of the document `html` that matches `outer`, how many
/// elements inside it match `selector` (none when either does not parse).
pub uninterp spec fn group_counts(html: Seq<char>, outer: Seq<char>, selector: Seq<char>) -> Seq<nat>;

/// The elements of the document `html` that match `selector`, in document order.
pub uninterp spec fn selected(html: Seq<char>, selector: Seq<char>, attrs: Seq<Seq<char>>) -> Seq<
    ElementView,
>;

/// `scraper::Html::parse_document(html).select(selector)`, each element read
/// as an `Element`.
#[verifier::external_body]
pub(crate) fn select_elements(html: &str, selector: &str, attrs: &Vec<String>) -> (r: Vec<Element>)
    ensures
        r.deep_view() == selected(html@, selector@, attrs.deep_view()),
        r@.len() == match_count(html@, selector@),
        forall|i: int| 0 <= i < r@.len() ==> (#[trigger] r@[i]).1@.len() == attrs@.len(),
{
    let doc = Html::parse_document(html);
    let Ok(s) = Selector::parse(selector) else { return Vec::new() };
    doc.select(&s).map(|e| (e.value().name().into(), attrs.iter().map(|a| e.attr(a).map(String::from)).collect(), e.text().collect())).collect()
}

/// For each element of the document `html` that matches `selector`, the
/// elements inside it that match `probe` (none when `probe` does not parse).
pub uninterp spec fn probed_inside(
    html: Seq<char>,
    selector: Seq<char>,
    probe: Seq<char>,
    attrs: Seq<Seq<char>>,
) -> Seq<Seq<ElementView>>;

/// For each element of `select_elements(html, selector, ..)`, `select(probe)` inside it.
#[verifier::external_body]
pub(crate) fn select_inside(html: &str, selector: &str, probe: &str, attrs: &Vec<String>) -> (r: Vec<
    Vec<Element>,
>)
    ensures
        r.deep_view() == probed_inside(html@, selector@, probe@, attrs.deep_view()),
        r@.len() == match_count(html@, selector@),
        forall|i: int, j: int|
            0 <= i < r@.len() && 0 <= j < r@[i]@.len() ==> (#[trigger] r@[i]@[j]).1@.len()
                == attrs@.len(),
{
    let doc = Html::parse_document(html);
    let Ok(s) = Selector::parse(selector) else { return Vec::new() };
    let t = Selector::parse(probe).ok();
    let data = |e: ElementRef| (e.value().name().into(), attrs.iter().map(|a| e.attr(a).map(String::from)).collect(), e.text().collect());
    doc.select(&s).map(|e| t.iter().flat_map(|t| e.select(t).map(data)).collect()).collect()
}

/// For each element of the document `html` that matches `selector`: its
/// ancestor elements from the nearest outwards, and inside each the elements
/// that match `probe` (none when `probe` does not parse).
pub uninterp spec fn probed_around(
    html: Seq<char>,
    selector: Seq<char>,
    probe: Seq<char>,
    attrs: Seq<Seq<char>>,
) -> Seq<Seq<Seq<ElementView>>>;

/// For each element of `select_elements(html, selector, ..)`, `select(probe)`
/// inside each of its ancestor elements, nearest first.
#[verifier::external_body]
pub(crate) fn select_around(html: &str, selector: &str, probe: &str, attrs: &Vec<String>) -> (r: Vec<
    Vec<Vec<Element>>,
>)
    ensures
        r.deep_view() == probed_around(html@, selector@, probe@, attrs.deep_view()),
        r@.len() == match_count(html@, selector@),
        forall|i: int, j: int, k: int|
            0 <= i < r@.len() && 0 <= j < r@[i]@.len() && 0 <= k < r@[i]@[j]@.len()
                ==> (#[trigger] r@[i]@[j]@[k]).1@.len() == attrs@.len(),
{
    let doc = Html::parse_document(html);
    let Ok(s) = Selector::parse(selector) else { return Vec::new() };
    let t = Selector::parse(probe).ok();
    let data = |e: ElementRef| (e.value().name().into(), attrs.iter().map(|a| e.attr(a).map(String::from)).collect(), e.text().collect());
    let inside = |e: ElementRef| t.iter().flat_map(|t| e.select(t).map(data)).collect();
    doc.select(&s).map(|e| e.ancestors().filter_map(ElementRef::wrap).map(inside).collect()).collect()
}

/// For each element of the document `html` that matches `outer`: itself, and
/// the elements inside it that match `selector`.
pub uninterp spec fn grouped(html: Seq<char>, outer: Seq<char>, selector: Seq<char>, attrs: Seq<Seq<char>>) -> Seq<
    (ElementView, Seq<ElementView>),
>;

/// `scraper::Html::parse_document(html).select(outer)` and, inside each
/// match, `select(selector)`, each element read as an `Element`.
#[verifier::external_body]
pub(crate) fn select_groups(html: &str, outer: &str, selector: &str, attrs: &Vec<String>) -> (r: Vec<
    (Element, Vec<Element>),
>)
    ensures
        r.deep_view() == grouped(html@, outer@, selector@, attrs.deep_view()),
        r@.len() == group_counts(html@, outer@, selector@).len(),
        forall|i: int|
            0 <= i < r@.len() ==> (#[trigger] r@[i]).1@.len() == group_counts(html@, outer@, selector@)[i],
        forall|i: int| 0 <= i < r@.len() ==> (#[trigger] r@[i]).0.1@.len() == attrs@.len(),
        forall|i: int, j: int|
            0 <= i < r@.len() && 0 <= j < r@[i].1@.len() ==> (#[trigger] r@[i].1@[j]).1@.len()
                == attrs@.len(),
{
    let doc = Html::parse_document(html);
    let (Ok(o), Ok(s)) = (Selector::parse(outer), Selector::parse(selector)) else { return Vec::new() };
    let data = |e: ElementRef| (e.value().name().into(), attrs.iter().map(|a| e.attr(a).map(String::from)).collect(), e.text().collect());
    doc.select(&o).map(|p| (data(p), p.select(&s).map(data).collect())).collect()
}

/// For the elements of `grouped(html, outer, selector, ..)` that match
/// `selector`: the elements inside each that match `probe`.
pub uninterp spec fn grouped_inside(
    html: Seq<char>,
    outer: Seq<char>,
    selector: Seq<char>,
    probe: Seq<char>,
    attrs: Seq<Seq<char>>,
) -> Seq<Seq<Seq<ElementView>>>;

/// For each inner element of `select_groups(html, outer, selector, ..)`,
/// `select(probe)` inside it.
#[verifier::external_body]
pub(crate) fn select_group_inside(html: &str, outer: &str, selector: &str, probe: &str, attrs: &Vec<String>) -> (r: Vec<
    Vec<Vec<Element>>,
>)
    ensures
        r.deep_view() == grouped_inside(html@, outer@, selector@, probe@, attrs.deep_view()),
        r@.len() == group_counts(html@, outer@, selector@).len(),
        forall|i: int|
            0 <= i < r@.len() ==> (#[trigger] r@[i])@.len() == group_counts(html@, outer@, selector@)[i],
        forall|i: int, j: int, k: int|
            0 <= i < r@.len() && 0 <= j < r@[i]@.len() && 0 <= k < r@[i]@[j]@.len()
                ==> (#[trigger] r@[i]@[j]@[k]).1@.len() == attrs@.len(),
{
    let doc = Html::parse_document(html);
    let (Ok(o), Ok(s)) = (Selector::parse(outer), Selector::parse(selector)) else { return Vec::new() };
    let t = Selector::parse(probe).ok();
    let data = |e: ElementRef| (e.value().name().into(), attrs.iter().map(|a| e.attr(a).map(String::from)).collect(), e.text().collect());
    doc.select(&o).map(|p| p.select(&s).map(|e| t.iter().flat_map(|t| e.select(t).map(data)).collect()).collect()).collect()
}

/// A character that may stand in an HTTP header value: visible ASCII, a
/// space, a tab, or any non-ASCII character (whose UTF-8 bytes are all high).
pub open spec fn header_char(c: char) -> bool {
    (c as u32 >= 32 && c as u32 != 127) || c == '\t'
}

/// Text that may be an HTTP header value.
pub open spec fn header_text(s: Seq<char>) -> bool {
    forall|i: int| 0 <= i < s.len() ==> header_char(#[trigger] s[i])
}

/// `reqwest::header::HeaderValue::from_str` (the `http` crate's) accepts `s`
/// exactly when each of its bytes is at least 32 and not 127, or a tab.
#[verifier::external_body]
pub(crate) fn header_value_accepted(s: &str) -> (r: bool)
    ensures
        r == header_text(s@),
{
    reqwest::header::HeaderValue::from_str(s).is_ok()
}

} // verus!
