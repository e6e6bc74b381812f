use vstd::prelude::*;

verus! {

/// What serde_json reads out of `text` for `key` when it takes the text for a JSON object
/// whose values are all booleans: `None` where the text is no such object, `Some(None)`
/// where the object has no member `key`, and else the value of that member.
pub uninterp spec fn json_flag(text: Seq<char>, key: Seq<char>) -> Option<Option<bool>>;

/// Calls `serde_json::from_str` to read `text` as a map from strings to booleans, and
/// looks `key` up in the map. The parser reads the text and nothing else, so the same text
/// and key give the same answer every time. Which texts it accepts is serde_json's to say.
#[verifier::external_body]
pub(crate) fn read_flag(text: &str, key: &str) -> (flag: Option<Option<bool>>)
    ensures
        flag == json_flag(text@, key@),
{
    match serde_json::from_str::<std::collections::HashMap<String, bool>>(text) {
        Ok(map) => Some(map.get(key).copied()),
        Err(_) => None,
    }
}

} // verus!
