//! JSON, read and written by `serde_json`, as far as the library needs it:
//! the member of a name in a text, and the text of an object of strings.

use vstd::prelude::*;
use crate::jar::keys_ascend;
use crate::text::Text;

verus! {

/// A member of a JSON text: the member as compact JSON text, and the string
/// that it is where it is a JSON string.
pub type Member = (String, Option<String>);

/// A member, with texts as character sequences.
pub type MemberView = (Text, Option<Text>);

/// The view of what was found in a JSON text.
pub open spec fn found_view(r: Result<Option<Member>, String>) -> Result<Option<MemberView>, Text> {
    match r {
        Ok(Some(member)) => Ok(
            Some(
                (
                    member.0@,
                    match member.1 {
                        Some(s) => Some(s@),
                        None => None,
                    },
                ),
            ),
        ),
        Ok(None) => Ok(None),
        Err(message) => Err(message@),
    }
}

/// What the JSON text `body` holds under the name `name`: the member,
/// `None` where `body` is no object or has no member of that name, or the
/// message of the parser where `body` is no JSON text.
pub uninterp spec fn json_member(body: Seq<u8>, name: Text) -> Result<Option<MemberView>, Text>;

/// Reads the member named `name`. Trusted: `body` is parsed with
/// `serde_json::from_slice`; the name is looked up with
/// `serde_json::Value::get`, which finds members of objects only; the
/// member is written as compact JSON text by the `Display` of
/// `serde_json::Value`, and read as a string by `serde_json::Value::as_str`.
/// The result depends on `body` and `name` alone.
#[verifier::external_body]
pub(crate) fn read_member(body: &Vec<u8>, name: &str) -> (r: Result<Option<Member>, String>)
    ensures
        found_view(r) == json_member(body@, name@),
{
    match serde_json::from_slice::<serde_json::Value>(body.as_slice()) {
        Ok(root) => match root.get(name) {
            Some(member) => Ok(Some((member.to_string(), member.as_str().map(|s| s.to_owned())))),
            None => Ok(None),
        },
        Err(e) => Err(e.to_string()),
    }
}

/// The text of the JSON object whose members are the given names, in the
/// order given, with the given strings as values; or the message of the
/// writer where it fails.
pub uninterp spec fn json_object_text(members: Seq<(Text, Text)>) -> Result<Text, Text>;

/// The names and values of the members, in order.
pub open spec fn member_views(members: Seq<(String, String)>) -> Seq<(Text, Text)> {
    members.map_values(|m: (String, String)| (m.0@, m.1@))
}

/// The view of what was written.
pub open spec fn written_view(r: Result<String, String>) -> Result<Text, Text> {
    match r {
        Ok(text) => Ok(text@),
        Err(message) => Err(message@),
    }
}

/// Writes a JSON object. Trusted: the members are handed to
/// `serde_json::to_string` as a map from name to string, and the result is
/// what that call returns; it depends on the members alone. The members
/// come in ascending order of name, each name once, so that making the map
/// neither moves nor drops one.
#[verifier::external_body]
pub(crate) fn write_object(members: &Vec<(String, String)>) -> (r: Result<String, String>)
    requires
        keys_ascend(member_views(members@)),
    ensures
        written_view(r) == json_object_text(member_views(members@)),
{
    let map: std::collections::BTreeMap<&str, &str> =
        members.iter().map(|m| (m.0.as_str(), m.1.as_str())).collect();
    match serde_json::to_string(&map) {
        Ok(text) => Ok(text),
        Err(e) => Err(e.to_string()),
    }
}

} // verus!
