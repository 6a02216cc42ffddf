//! JSON documents: carried through, or asked for one text field.
use vstd::prelude::*;

verus! {

/// A JSON value of `serde_json`, carried through unread.
#[verifier::external_type_specification]
#[verifier::external_body]
pub struct ExValue(serde_json::Value);

/// The text in the member `key` of the object that the bytes hold as JSON; `None`
/// where they hold no JSON, no object, no such member, or a member that is no
/// text.
pub uninterp spec fn json_text(bytes: Seq<u8>, key: Seq<char>) -> Option<Seq<char>>;

/// `serde_json::from_slice` into a `serde_json::Value`, then `get` and `as_str` on
/// it: the text in a member of a JSON object. It depends on the bytes and the key
/// alone, and `json_text` names it.
#[verifier::external_body]
pub(crate) fn json_text_field(bytes: &[u8], key: &str) -> (r: Option<String>)
    ensures
        r is Some == json_text(bytes@, key@) is Some,
        r matches Some(s) ==> json_text(bytes@, key@) == Some(s@),
{
    let value: serde_json::Value = serde_json::from_slice(bytes).ok()?;
    value.get(key)?.as_str().map(|s| s.to_string())
}

} // verus!
