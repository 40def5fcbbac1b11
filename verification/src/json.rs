//! What this library reads out of JSON text.

use vstd::prelude::*;

verus! {

/// What parsing `text` as JSON and looking at its member `field` gives:
/// `Err` with the parser's message where `text` is not one JSON value;
/// `Ok(None)` where the value has no member `field` or that member is no
/// object; else `Ok` with the keys of that object.
pub uninterp spec fn json_object_keys(text: Seq<char>, field: Seq<char>) -> Result<
    Option<Seq<Seq<char>>>,
    Seq<char>,
>;

/// A key listing by the characters of its strings.
pub open spec fn key_listing_view(r: Result<Option<Vec<String>>, String>) -> Result<
    Option<Seq<Seq<char>>>,
    Seq<char>,
> {
    match r {
        Ok(Some(keys)) => Ok(Some(crate::text::texts(keys@))),
        Ok(None) => Ok(None),
        Err(e) => Err(e@),
    }
}

/// Parses `text` with `serde_json::from_str` into a `serde_json::Value`,
/// finds the object under `field` with `Value::get` and `Value::as_object`,
/// and lists its keys with `Map::keys`. A parse error comes back as its
/// `Display` text. The result depends on the two arguments alone, which is
/// all the contract claims.
#[verifier::external_body]
pub(crate) fn object_keys(text: &str, field: &str) -> (r: Result<Option<Vec<String>>, String>)
    ensures
        key_listing_view(r) == json_object_keys(text@, field@),
{
    let value: serde_json::Value = serde_json::from_str(text).map_err(|e| e.to_string())?;
    let object = value.get(field).and_then(|member| member.as_object());
    Ok(object.map(|members| members.keys().cloned().collect()))
}

} // verus!
