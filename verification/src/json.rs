//! Reading single string fields out of JSON documents held as text, and
//! percent-encoding for URLs.
use vstd::prelude::*;
use crate::text::{lemma_take_step, opt_string_view, push_line, strings_view};

verus! {

/// The string reached from the JSON document `doc` by following the object keys of `path` in
/// turn.  `None` when `doc` is not JSON, when a step meets something other than an object or a
/// missing key, or when the value reached is not a string.
pub uninterp spec fn json_str_at_path(doc: Seq<char>, path: Seq<Seq<char>>) -> Option<Seq<char>>;

/// The string stored under `key` at the top of `doc`.
pub open spec fn json_str_at(doc: Seq<char>, key: Seq<char>) -> Option<Seq<char>> {
    json_str_at_path(doc, seq![key])
}

pub open spec fn keys_view(path: Seq<&str>) -> Seq<Seq<char>> {
    path.map_values(|k: &str| k@)
}

/// The string reached from `doc` along `path`.
/// Trusted: parses `doc` with `serde_json::from_str` into a `serde_json::Value`, follows
/// `Value::get` for each key, and reads the end with `Value::as_str`.
#[verifier::external_body]
pub(crate) fn json_str_path(doc: &str, path: &Vec<&str>) -> (r: Option<String>)
    ensures
        match r {
            Some(s) => json_str_at_path(doc@, keys_view(path@)) == Some(s@),
            None => json_str_at_path(doc@, keys_view(path@)) is None,
        },
{
    let mut v: serde_json::Value = match serde_json::from_str(doc) {
        Ok(v) => v,
        Err(_) => return None,
    };
    for k in path.iter() {
        v = v.get(*k)?.clone();
    }
    v.as_str().map(|s| s.to_string())
}

/// The string under `key` at the top of the JSON document `doc`.
pub fn json_str_field(doc: &str, key: &str) -> (r: Option<String>)
    ensures
        match r {
            Some(s) => json_str_at(doc@, key@) == Some(s@),
            None => json_str_at(doc@, key@) is None,
        },
{
    let mut path: Vec<&str> = Vec::new();
    path.push(key);
    proof {
        assert(keys_view(path@) =~= seq![key@]);
    }
    json_str_path(doc, &path)
}

/// The string under `outer`.`key` in the JSON document `doc`.
pub fn json_str_field2(doc: &str, outer: &str, key: &str) -> (r: Option<String>)
    ensures
        match r {
            Some(s) => json_str_at_path(doc@, seq![outer@, key@]) == Some(s@),
            None => json_str_at_path(doc@, seq![outer@, key@]) is None,
        },
{
    let mut path: Vec<&str> = Vec::new();
    path.push(outer);
    path.push(key);
    proof {
        assert(keys_view(path@) =~= seq![outer@, key@]);
    }
    json_str_path(doc, &path)
}

/// The unsigned integer stored under `key` at the top of `doc`, when it is one.
pub uninterp spec fn json_u64_at(doc: Seq<char>, key: Seq<char>) -> Option<u64>;

/// Trusted: `serde_json::from_str` into a `serde_json::Value`, then `Value::get(key)` and
/// `Value::as_u64`.
#[verifier::external_body]
pub(crate) fn json_u64_field(doc: &str, key: &str) -> (r: Option<u64>)
    ensures
        r == json_u64_at(doc@, key@),
{
    match serde_json::from_str::<serde_json::Value>(doc) {
        Ok(v) => v.get(key).and_then(|x| x.as_u64()),
        Err(_) => None,
    }
}

/// The items of the array stored under `key` at the top of `doc`, each taken as a string when it
/// is one; `None` when there is no array there.
pub uninterp spec fn json_items_at(doc: Seq<char>, key: Seq<char>) -> Option<Seq<Option<Seq<char>>>>;

/// Trusted: `serde_json::from_str` into a `serde_json::Value`, then `Value::get(key)`,
/// `Value::as_array`, and `Value::as_str` on each item.
#[verifier::external_body]
fn json_items_field(doc: &str, key: &str) -> (r: Option<Vec<Option<String>>>)
    ensures
        match r {
            Some(v) => json_items_at(doc@, key@) == Some(v@.map_values(|o: Option<String>| opt_string_view(o))),
            None => json_items_at(doc@, key@) is None,
        },
{
    match serde_json::from_str::<serde_json::Value>(doc) {
        Ok(v) => v.get(key).and_then(|x| x.as_array()).map(|a| a.iter().map(|i| i.as_str().map(|s| s.to_string())).collect()),
        Err(_) => None,
    }
}

/// The strings among `items`, in order.
pub open spec fn strings_among(items: Seq<Option<Seq<char>>>) -> Seq<Seq<char>>
    decreases items.len(),
{
    if items.len() == 0 {
        Seq::empty()
    } else {
        strings_among(items.drop_last()) + match items.last() {
            Some(s) => seq![s],
            None => Seq::empty(),
        }
    }
}

/// The strings of the array stored under `key` at the top of `doc` (other items passed over);
/// `None` when there is no array there.
pub open spec fn json_str_list_at(doc: Seq<char>, key: Seq<char>) -> Option<Seq<Seq<char>>> {
    match json_items_at(doc, key) {
        Some(items) => Some(strings_among(items)),
        None => None,
    }
}

/// The strings of the array under `key` at the top of `doc` (see `json_str_list_at`).
pub fn json_str_list_field(doc: &str, key: &str) -> (r: Option<Vec<String>>)
    ensures
        match r {
            Some(v) => json_str_list_at(doc@, key@) == Some(strings_view(v@)),
            None => json_str_list_at(doc@, key@) is None,
        },
{
    let items = match json_items_field(doc, key) {
        Some(v) => v,
        None => return None,
    };
    let ghost iv = items@.map_values(|o: Option<String>| opt_string_view(o));
    let mut out: Vec<String> = Vec::new();
    let mut i: usize = 0;
    while i < items.len()
        invariant
            i <= items.len(),
            iv == items@.map_values(|o: Option<String>| opt_string_view(o)),
            strings_view(out@) == strings_among(iv.take(i as int)),
        decreases items.len() - i,
    {
        proof {
            lemma_take_step(iv, i as int);
        }
        match &items[i] {
            Some(s) => push_line(&mut out, s.clone()),
            None => {},
        }
        proof {
            assert(strings_view(out@) =~= strings_among(iv.take(i + 1)));
        }
        i = i + 1;
    }
    proof {
        assert(iv.take(iv.len() as int) =~= iv);
    }
    Some(out)
}

/// The signed integer stored under `key` at the top of `doc`, when it is one that fits `i64`.
pub uninterp spec fn json_i64_at(doc: Seq<char>, key: Seq<char>) -> Option<i64>;

/// Trusted: `serde_json::from_str` into a `serde_json::Value`, then `Value::get(key)` and
/// `Value::as_i64`.
#[verifier::external_body]
pub(crate) fn json_i64_field(doc: &str, key: &str) -> (r: Option<i64>)
    ensures
        r == json_i64_at(doc@, key@),
{
    match serde_json::from_str::<serde_json::Value>(doc) {
        Ok(v) => v.get(key).and_then(|x| x.as_i64()),
        Err(_) => None,
    }
}

/// The value stored under `key` at the top of `doc`, written back as compact JSON text.
pub uninterp spec fn json_value_text_at(doc: Seq<char>, key: Seq<char>) -> Option<Seq<char>>;

/// Trusted: `serde_json::from_str` into a `serde_json::Value`, then `Value::get(key)` and
/// `serde_json::to_string` of what is there (which cannot fail for a `Value`).
#[verifier::external_body]
pub(crate) fn json_value_text_field(doc: &str, key: &str) -> (r: Option<String>)
    ensures
        opt_string_view(r) == json_value_text_at(doc@, key@),
{
    match serde_json::from_str::<serde_json::Value>(doc) {
        Ok(v) => v.get(key).map(|x| serde_json::to_string(x).unwrap_or_default()),
        Err(_) => None,
    }
}

/// The items of the array stored under `key` at the top of `doc`, each written back as compact
/// JSON text; `None` when there is no array there.
pub uninterp spec fn json_item_texts_at(doc: Seq<char>, key: Seq<char>) -> Option<Seq<Seq<char>>>;

/// Trusted: `serde_json::from_str` into a `serde_json::Value`, then `Value::get(key)`,
/// `Value::as_array`, and `serde_json::to_string` of each item.
#[verifier::external_body]
pub(crate) fn json_item_texts_field(doc: &str, key: &str) -> (r: Option<Vec<String>>)
    ensures
        match r {
            Some(v) => json_item_texts_at(doc@, key@) == Some(strings_view(v@)),
            None => json_item_texts_at(doc@, key@) is None,
        },
{
    match serde_json::from_str::<serde_json::Value>(doc) {
        Ok(v) => v.get(key).and_then(|x| x.as_array()).map(|a| a.iter().map(|i| serde_json::to_string(i).unwrap_or_default()).collect()),
        Err(_) => None,
    }
}

// ─── Percent-encoding ──────────────────────────────────────────────────────

/// Bytes left as they are: ASCII letters and digits, '-', '.', '_' and '~'.
pub open spec fn is_unreserved(b: u8) -> bool {
    (48 <= b <= 57) || (65 <= b <= 90) || (97 <= b <= 122) || b == 45 || b == 46 || b == 95 || b == 126
}

pub open spec fn hex_upper(d: u8) -> char {
    if d < 10 {
        (48 + d) as char
    } else {
        (55 + d) as char
    }
}

/// Every byte but the unreserved ones written as '%' and two upper-case hex digits.
pub open spec fn percent_encoded(bytes: Seq<u8>) -> Seq<char>
    decreases bytes.len(),
{
    if bytes.len() == 0 {
        Seq::empty()
    } else {
        let b = bytes.last();
        percent_encoded(bytes.drop_last()) + if is_unreserved(b) {
            seq![b as char]
        } else {
            seq!['%', hex_upper(b / 16), hex_upper(b % 16)]
        }
    }
}

/// `s` percent-encoded for use in a URL.
/// Trusted: `urlencoding::encode`, which encodes the UTF-8 bytes of `s` this way.
#[verifier::external_body]
pub(crate) fn url_encode(s: &str) -> (r: String)
    ensures
        r@ == percent_encoded(vstd::utf8::encode_utf8(s@)),
{
    urlencoding::encode(s).into_owned()
}

/// The JSON document `doc` pretty-printed (two-space indentation); `doc` itself when it is not
/// JSON.
pub uninterp spec fn json_pretty_text(doc: Seq<char>) -> Seq<char>;

/// Trusted: `serde_json::from_str` into a `serde_json::Value`, then `serde_json::to_string_pretty`.
#[verifier::external_body]
pub(crate) fn json_pretty(doc: &str) -> (r: String)
    ensures
        r@ == json_pretty_text(doc@),
{
    match serde_json::from_str::<serde_json::Value>(doc) {
        Ok(v) => serde_json::to_string_pretty(&v).unwrap_or_default(),
        Err(_) => doc.to_string(),
    }
}


/// Whether the JSON texts `a` and `b` both parse and hold the same value.
pub uninterp spec fn json_same_value(a: Seq<char>, b: Seq<char>) -> bool;

/// Trusted: `serde_json::from_str` of both texts into `serde_json::Value`, compared with `==`
/// (false when either does not parse).
#[verifier::external_body]
pub(crate) fn json_same(a: &str, b: &str) -> (r: bool)
    ensures
        r == json_same_value(a@, b@),
{
    match (serde_json::from_str::<serde_json::Value>(a), serde_json::from_str::<serde_json::Value>(b)) {
        (Ok(x), Ok(y)) => x == y,
        _ => false,
    }
}

/// The JSON object `doc` with the string `value` stored under `key` (replacing what was there),
/// written compactly; `None` when `doc` is not a JSON object.
pub uninterp spec fn json_with_string_field(doc: Seq<char>, key: Seq<char>, value: Seq<char>) -> Option<Seq<char>>;

/// Trusted: `serde_json::from_str` into a `serde_json::Value`; for an object, `Map::insert` of
/// `key` with `Value::String(value)`, then `serde_json::to_string`.  What is written reads back:
/// the new text holds `value` under `key`, and the string under any other top-level key as before.
#[verifier::external_body]
pub(crate) fn json_set_string_field(doc: &str, key: &str, value: &str) -> (r: Option<String>)
    ensures
        opt_string_view(r) == json_with_string_field(doc@, key@, value@),
        r matches Some(t) ==> json_str_at(t@, key@) == Some(value@),
        r matches Some(t) ==> forall|k: Seq<char>| k != key@ ==> #[trigger] json_str_at(t@, k) == json_str_at(doc@, k),
{
    match serde_json::from_str::<serde_json::Value>(doc) {
        Ok(serde_json::Value::Object(mut m)) => {
            m.insert(key.to_string(), serde_json::Value::String(value.to_string()));
            serde_json::to_string(&serde_json::Value::Object(m)).ok()
        },
        _ => None,
    }
}

} // verus!
