//! Access to JSON documents through `serde_json`: whether a text is JSON,
//! what a JSON pointer designates in it, and the keys of an object.  The
//! configuration schema itself is decoded, and verified, in `parser`.
use serde_json::Value;
use vstd::prelude::*;

verus! {

/// What a JSON pointer designates in a document, reduced to what the
/// configuration decoder reads: scalars in full, arrays by their length,
/// objects by their kind (their members are reached by further pointers).
#[derive(Debug)]
pub enum JsonItem {
    /// The pointer designates nothing (or the text is not JSON).
    Absent,
    Null,
    Bool(bool),
    /// A number, with its value when it is an integer in `0..=u64::MAX`.
    Number(Option<u64>),
    Text(String),
    /// An array of the given length.
    Array(usize),
    Object,
}

/// What a [`JsonItem`] holds.
pub enum JsonItemView {
    Absent,
    Null,
    Bool(bool),
    Number(Option<u64>),
    Text(Seq<char>),
    Array(nat),
    Object,
}

impl View for JsonItem {
    type V = JsonItemView;

    open spec fn view(&self) -> JsonItemView {
        match self {
            JsonItem::Absent => JsonItemView::Absent,
            JsonItem::Null => JsonItemView::Null,
            JsonItem::Bool(b) => JsonItemView::Bool(*b),
            JsonItem::Number(n) => JsonItemView::Number(*n),
            JsonItem::Text(s) => JsonItemView::Text(s@),
            JsonItem::Array(n) => JsonItemView::Array(*n as nat),
            JsonItem::Object => JsonItemView::Object,
        }
    }
}

/// Whether `serde_json` accepts `text` as a JSON document.
pub uninterp spec fn json_accepts(text: Seq<char>) -> bool;

/// What `Value::pointer(pointer)` designates in the document that
/// `serde_json` parses from `text`.
pub uninterp spec fn json_pointer_item(text: Seq<char>, pointer: Seq<char>) -> JsonItemView;

/// The keys, in `serde_json`'s order, of the object that `pointer`
/// designates in the document parsed from `text` (empty if it is no object).
pub uninterp spec fn json_object_keys(text: Seq<char>, pointer: Seq<char>) -> Seq<Seq<char>>;

/// Calls `serde_json::from_str::<Value>`. Claimed: `Ok` exactly when the
/// text is accepted, as named by [`json_accepts`]; the error carries
/// serde_json's message, of which nothing is claimed.
#[verifier::external_body]
pub(crate) fn json_check(text: &str) -> (r: Result<(), String>)
    ensures
        r is Ok <==> json_accepts(text@),
{
    match serde_json::from_str::<Value>(text) {
        Ok(_) => Ok(()),
        Err(e) => Err(e.to_string()),
    }
}

/// Calls `serde_json::from_str::<Value>` and `Value::pointer`, and converts
/// what the pointer designates into a [`JsonItem`] (`Number::as_u64` for
/// numbers). Claimed: the result is the one named by [`json_pointer_item`],
/// a function of the text and the pointer alone.
#[verifier::external_body]
pub(crate) fn json_lookup(text: &str, pointer: &str) -> (r: JsonItem)
    ensures
        r@ == json_pointer_item(text@, pointer@),
{
    let doc: Value = match serde_json::from_str(text) {
        Ok(v) => v,
        Err(_) => return JsonItem::Absent,
    };
    match doc.pointer(pointer) {
        None => JsonItem::Absent,
        Some(Value::Null) => JsonItem::Null,
        Some(Value::Bool(b)) => JsonItem::Bool(*b),
        Some(Value::Number(n)) => JsonItem::Number(n.as_u64()),
        Some(Value::String(s)) => JsonItem::Text(s.clone()),
        Some(Value::Array(a)) => JsonItem::Array(a.len()),
        Some(Value::Object(_)) => JsonItem::Object,
    }
}

/// Calls `serde_json::from_str::<Value>`, `Value::pointer` and
/// `Map::keys`. Claimed: the keys are the ones named by
/// [`json_object_keys`], and no key occurs twice (a `serde_json::Map` holds
/// each key once).
#[verifier::external_body]
pub(crate) fn json_keys(text: &str, pointer: &str) -> (r: Vec<String>)
    ensures
        r@.map_values(|k: String| k@) == json_object_keys(text@, pointer@),
        r@.map_values(|k: String| k@).no_duplicates(),
{
    let doc: Value = match serde_json::from_str(text) {
        Ok(v) => v,
        Err(_) => return Vec::new(),
    };
    match doc.pointer(pointer) {
        Some(Value::Object(m)) => m.keys().cloned().collect(),
        _ => Vec::new(),
    }
}

// ---------------------------------------------------------------------------
// JSON pointers (RFC 6901)
// ---------------------------------------------------------------------------

/// The escape of one pointer token: `'~'` becomes `"~0"`, `'/'` becomes `"~1"`.
pub open spec fn escape_char(c: char) -> Seq<char> {
    if c == '~' {
        seq!['~', '0']
    } else if c == '/' {
        seq!['~', '1']
    } else {
        seq![c]
    }
}

/// A reference token escaped for use in a JSON pointer.
pub open spec fn escape_token(t: Seq<char>) -> Seq<char>
    decreases t.len(),
{
    if t.len() == 0 {
        Seq::empty()
    } else {
        escape_token(t.drop_last()) + escape_char(t.last())
    }
}

/// The pointer to member (or element) `token` of what `parent` designates.
pub open spec fn child(parent: Seq<char>, token: Seq<char>) -> Seq<char> {
    parent + seq!['/'] + escape_token(token)
}

/// Exec form of [`child`].
pub fn child_pointer(parent: &[char], token: &[char]) -> (r: Vec<char>)
    ensures
        r@ == child(parent@, token@),
{
    let mut r: Vec<char> = Vec::new();
    crate::text::push_all(&mut r, parent);
    r.push('/');
    let ghost base = r@;
    let mut i: usize = 0;
    while i < token.len()
        invariant
            i <= token@.len(),
            base == parent@ + seq!['/'],
            r@ == base + escape_token(token@.take(i as int)),
        decreases token@.len() - i,
    {
        let c = token[i];
        if c == '~' {
            r.push('~');
            r.push('0');
        } else if c == '/' {
            r.push('~');
            r.push('1');
        } else {
            r.push(c);
        }
        assert(token@.take(i + 1).drop_last() =~= token@.take(i as int));
        i = i + 1;
        assert(r@ =~= base + escape_token(token@.take(i as int)));
    }
    assert(token@.take(i as int) =~= token@);
    r
}

/// What `pointer` designates in `text`.
pub fn lookup(text: &str, pointer: &[char]) -> (r: JsonItem)
    ensures
        r@ == json_pointer_item(text@, pointer@),
{
    let p = crate::text::string_of(pointer);
    json_lookup(text, p.as_str())
}

/// Keys of the object `pointer` designates in `text`.
pub fn keys(text: &str, pointer: &[char]) -> (r: Vec<String>)
    ensures
        r@.map_values(|k: String| k@) == json_object_keys(text@, pointer@),
        r@.map_values(|k: String| k@).no_duplicates(),
{
    let p = crate::text::string_of(pointer);
    json_keys(text, p.as_str())
}

} // verus!
