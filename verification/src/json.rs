//! JSON documents, held as the text they were read from.

use vstd::prelude::*;
use vstd::string::*;

verus! {

/// The compact text of the document that a text holds, as `serde_json` reads
/// and prints it; nothing where the text is no JSON document.
pub uninterp spec fn compact_json(text: Seq<char>) -> Option<Seq<char>>;

/// The indented text of the document that a text holds, as `serde_json`
/// prints it.
pub uninterp spec fn pretty_json(text: Seq<char>) -> Option<Seq<char>>;

/// The string that the member `key` of the document holds, if the document is
/// an object with such a member and the member is a string.
pub uninterp spec fn string_member(text: Seq<char>, key: Seq<char>) -> Option<Seq<char>>;

/// Whether a text is a JSON document.
pub open spec fn is_document(text: Seq<char>) -> bool {
    compact_json(text) is Some
}

/// The text where it is a document, else `null`.
pub open spec fn document(text: Seq<char>) -> Seq<char> {
    if is_document(text) {
        text
    } else {
        "null"@
    }
}

/// The compact text of a document.
pub open spec fn compact_of(text: Seq<char>) -> Seq<char> {
    match compact_json(text) {
        Some(compact) => compact,
        None => "null"@,
    }
}

/// The indented text, or the compact one where there is none.
pub open spec fn pretty_or_compact(pretty: Option<Seq<char>>, text: Seq<char>) -> Seq<char> {
    match pretty {
        Some(pretty) => pretty,
        None => compact_of(text),
    }
}

/// A JSON document. Its view is the text it was read from: what is printed of
/// it is printed from that text, so that no number is read a second time from
/// a printed form of itself.
#[derive(Debug)]
pub struct Json {
    source: String,
}

impl View for Json {
    type V = Seq<char>;

    closed spec fn view(&self) -> Seq<char> {
        self.source@
    }
}

impl DeepView for Json {
    type V = Seq<char>;

    open spec fn deep_view(&self) -> Seq<char> {
        self@
    }
}

impl Clone for Json {
    fn clone(&self) -> (r: Self)
        ensures
            r@ == self@,
    {
        proof {
            use_type_invariant(self);
        }
        Json { source: self.source.clone() }
    }
}

/// `serde_json::from_str` into a `Value`, then its compact `Display` form. The
/// document `null` prints as it is written.
#[verifier::external_body]
fn reprint_compact(text: &str) -> (compact: Option<String>)
    ensures
        compact.deep_view() == compact_json(text@),
        text@ == "null"@ ==> compact.deep_view() == Some("null"@),
{
    serde_json::from_str::<serde_json::Value>(text).ok().map(|value| value.to_string())
}

/// `serde_json::from_str` into a `Value`, then `serde_json::to_string_pretty`.
#[verifier::external_body]
fn reprint_pretty(text: &str) -> (pretty: Option<String>)
    ensures
        pretty.deep_view() == pretty_json(text@),
{
    let value = serde_json::from_str::<serde_json::Value>(text).ok()?;
    serde_json::to_string_pretty(&value).ok()
}

/// `serde_json::from_str` into a `Value`, then `Value::get` and
/// `Value::as_str`.
#[verifier::external_body]
fn lookup_string(text: &str, key: &str) -> (found: Option<String>)
    ensures
        found.deep_view() == string_member(text@, key@),
{
    let value = serde_json::from_str::<serde_json::Value>(text).ok()?;
    value.get(key).and_then(|member| member.as_str()).map(|member| member.to_owned())
}

impl Json {
    #[verifier::type_invariant]
    spec fn holds_document(self) -> bool {
        is_document(self.source@)
    }

    /// The document `null`.
    pub fn null() -> (r: Json)
        ensures
            r@ == "null"@,
    {
        Json::parse("null").unwrap()
    }

    /// Reads a document.
    pub fn parse(text: &str) -> (r: Option<Json>)
        ensures
            match r {
                Some(json) => is_document(text@) && json@ == text@,
                None => !is_document(text@) && text@ != "null"@,
            },
    {
        match reprint_compact(text) {
            Some(_) => Some(Json { source: text.to_owned() }),
            None => None,
        }
    }

    /// The document that was read, or `null` where none was.
    pub fn or_null(parsed: Option<Json>) -> (r: Json)
        ensures
            match parsed {
                Some(json) => r@ == json@,
                None => r@ == "null"@,
            },
    {
        match parsed {
            Some(json) => json,
            None => Json::null(),
        }
    }

    /// Reads a document; a text that holds none gives `null`.
    pub fn parse_or_null(text: &str) -> (r: Json)
        ensures
            r@ == document(text@),
    {
        Json::or_null(Json::parse(text))
    }

    /// The text that the document was read from.
    pub fn source(&self) -> (r: &str)
        ensures
            r@ == self@,
            is_document(r@),
    {
        proof {
            use_type_invariant(self);
        }
        self.source.as_str()
    }

    /// The compact text.
    pub fn compact(&self) -> (r: String)
        ensures
            r@ == compact_of(self@),
            compact_json(self@) == Some(r@),
    {
        proof {
            use_type_invariant(self);
        }
        reprint_compact(self.source.as_str()).unwrap()
    }

    /// The indented text, or the compact one where there is none.
    pub fn pretty(&self) -> (r: String)
        ensures
            r@ == pretty_or_compact(pretty_json(self@), self@),
    {
        self.shown_as(reprint_pretty(self.source.as_str()))
    }

    /// A printed form of the document, or its compact text where there is
    /// none.
    pub fn shown_as(&self, printed: Option<String>) -> (r: String)
        ensures
            r@ == pretty_or_compact(printed.deep_view(), self@),
    {
        match printed {
            Some(text) => text,
            None => self.compact(),
        }
    }

    /// The string member `key`.
    pub fn get_str(&self, key: &str) -> (r: Option<String>)
        ensures
            r.deep_view() == string_member(self@, key@),
    {
        lookup_string(self.source.as_str(), key)
    }
}

} // verus!
