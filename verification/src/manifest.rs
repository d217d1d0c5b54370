//! The fixture manifest: a JSON document whose integers must be those that the
//! code uses.

use vstd::prelude::*;

use crate::naming::names_of;

verus! {

/// A JSON value.
#[verifier::external_type_specification]
#[verifier::external_body]
pub struct ExJsonValue(serde_json::Value);

/// Why a text is no JSON document.
#[verifier::external_type_specification]
#[verifier::external_body]
pub struct ExJsonError(serde_json::Error);

/// What stands at one place of a JSON document.
pub enum JsonPart {
    /// An object, with the names of its members.
    Object(Set<Seq<char>>),
    /// A number, with the integer that it is where it is held as one that fits
    /// into 64 bits with a sign.
    Number(Option<i64>),
    /// Anything else.
    Other,
}

/// What a JSON value holds: itself, and what is reached from it by member names,
/// each under the names that lead to it.
pub uninterp spec fn json_parts(value: serde_json::Value) -> Map<Seq<Seq<char>>, JsonPart>;

/// What the JSON document that a text is holds, or `None` where it is no JSON
/// document that the parser reads.
pub uninterp spec fn json_parsed(text: Seq<char>) -> Option<Map<Seq<Seq<char>>, JsonPart>>;

/// What a document holds below a member name.
pub open spec fn below(parts: Map<Seq<Seq<char>>, JsonPart>, key: Seq<char>) -> Map<
    Seq<Seq<char>>,
    JsonPart,
> {
    Map::new(
        |path: Seq<Seq<char>>| parts.dom().contains(seq![key] + path),
        |path: Seq<Seq<char>>| parts[seq![key] + path],
    )
}

/// What stands under a list of member names.
pub open spec fn part_at(parts: Map<Seq<Seq<char>>, JsonPart>, path: Seq<Seq<char>>) -> Option<
    JsonPart,
> {
    if parts.dom().contains(path) {
        Some(parts[path])
    } else {
        None
    }
}

/// The member names of the object under a list of member names, where there is
/// an object.
pub open spec fn members_at(parts: Map<Seq<Seq<char>>, JsonPart>, path: Seq<Seq<char>>) -> Option<
    Set<Seq<char>>,
> {
    match part_at(parts, path) {
        Some(JsonPart::Object(names)) => Some(names),
        _ => None,
    }
}

/// Whether a number stands under a list of member names.
pub open spec fn number_at(parts: Map<Seq<Seq<char>>, JsonPart>, path: Seq<Seq<char>>) -> bool {
    part_at(parts, path) matches Some(JsonPart::Number(_))
}

/// The integer under a list of member names, where there is one.
pub open spec fn integer_at(parts: Map<Seq<Seq<char>>, JsonPart>, path: Seq<Seq<char>>) -> Option<
    i64,
> {
    match part_at(parts, path) {
        Some(JsonPart::Number(integer)) => integer,
        _ => None,
    }
}

/// `serde_json::from_str` into `serde_json::Value`: a text is read in full, and
/// gives the value that it writes, or an error where it is no JSON document or
/// one that nests deeper than the parser reads.  What the error says is left
/// open.
#[verifier::external_body]
fn json_from_str(text: &str) -> (result: Result<serde_json::Value, serde_json::Error>)
    ensures
        match result {
            Ok(value) => json_parsed(text@) == Some(json_parts(value)),
            Err(_) => json_parsed(text@) is None,
        },
{
    serde_json::from_str(text)
}

/// `serde_json::Value::get` with a member name: the member of an object, and
/// nothing where the value is no object or has no such member.
#[verifier::external_body]
pub(crate) fn json_member<'a>(value: &'a serde_json::Value, key: &str) -> (member: Option<
    &'a serde_json::Value,
>)
    ensures
        match member {
            Some(member) => json_parts(*member) == below(json_parts(*value), key@),
            None => below(json_parts(*value), key@) == Map::<Seq<Seq<char>>, JsonPart>::empty(),
        },
        member is Some <==> (members_at(json_parts(*value), Seq::empty()) matches Some(names)
            && names.contains(key@)),
{
    value.get(key)
}

/// `serde_json::Value::as_i64`: the integer that a value itself is.
#[verifier::external_body]
fn json_integer(value: &serde_json::Value) -> (integer: Option<i64>)
    ensures
        integer == integer_at(json_parts(*value), Seq::empty()),
{
    value.as_i64()
}

/// `serde_json::Value::is_number`: whether a value itself is a number.
#[verifier::external_body]
pub(crate) fn json_is_number(value: &serde_json::Value) -> (number: bool)
    ensures
        number == number_at(json_parts(*value), Seq::empty()),
{
    value.is_number()
}

/// `serde_json::Value::as_object` and `serde_json::Map::keys`: the names of the
/// members of an object, each once, and nothing where the value is no object.
/// In which order the names come is left open.
#[verifier::external_body]
pub(crate) fn json_names(value: &serde_json::Value) -> (names: Option<Vec<String>>)
    ensures
        match names {
            Some(names) => {
                &&& names_of(names@).no_duplicates()
                &&& members_at(json_parts(*value), Seq::empty()) == Some(names_of(names@).to_set())
            },
            None => members_at(json_parts(*value), Seq::empty()) is None,
        },
{
    value.as_object().map(|members| members.keys().cloned().collect())
}

/// Why the manifest does not declare what it must.
#[derive(Debug, Clone, Copy, PartialEq, Eq, Structural)]
pub enum ManifestFailure {
    /// The text is no JSON document.
    NotJson,
    /// There is no integer under the name.
    NoInteger,
    /// The integer is another one.
    Differs { declared: i64 },
}

/// What a declared integer says of the one that the code uses.
pub open spec fn compared(declared: Option<i64>, expected: i64) -> Result<(), ManifestFailure> {
    match declared {
        None => Err(ManifestFailure::NoInteger),
        Some(declared) => if declared == expected {
            Ok(())
        } else {
            Err(ManifestFailure::Differs { declared })
        },
    }
}

/// Holds a declared integer against the one that the code uses.
pub fn declared_equals(declared: Option<i64>, expected: i64) -> (result: Result<
    (),
    ManifestFailure,
>)
    ensures
        result == compared(declared, expected),
{
    match declared {
        None => Err(ManifestFailure::NoInteger),
        Some(declared) => if declared == expected {
            Ok(())
        } else {
            Err(ManifestFailure::Differs { declared })
        },
    }
}

/// The manifest that a text is.
pub open spec fn is_manifest(
    text: Seq<char>,
    result: Result<serde_json::Value, ManifestFailure>,
) -> bool {
    match json_parsed(text) {
        Some(parts) => result is Ok && json_parts(result->Ok_0) == parts,
        None => result == Err::<serde_json::Value, ManifestFailure>(ManifestFailure::NotJson),
    }
}

fn manifest_of(text: &str) -> (result: Result<serde_json::Value, ManifestFailure>)
    ensures
        is_manifest(text@, result),
{
    match json_from_str(text) {
        Ok(value) => Ok(value),
        Err(_) => Err(ManifestFailure::NotJson),
    }
}

/// The manifest of the delivery fixtures.
pub fn cc6_manifest(text: &str) -> (result: Result<serde_json::Value, ManifestFailure>)
    ensures
        is_manifest(text@, result),
{
    manifest_of(text)
}

/// The manifest of the workflow fixtures.
pub fn cc7_manifest(text: &str) -> (result: Result<serde_json::Value, ManifestFailure>)
    ensures
        is_manifest(text@, result),
{
    manifest_of(text)
}

/// The views of a list of member names.
pub open spec fn keys_of(keys: Seq<&str>) -> Seq<Seq<char>> {
    keys.map_values(|key: &str| key@)
}

/// What is reached by member names, one after the other.
pub(crate) proof fn lemma_below(parts: Map<Seq<Seq<char>>, JsonPart>, key: Seq<char>, path: Seq<Seq<char>>)
    ensures
        part_at(below(parts, key), path) == part_at(parts, seq![key] + path),
{
}

/// The value under a list of member names, where there is one.
pub(crate) fn manifest_value<'a>(value: &'a serde_json::Value, path: &[&str]) -> (found: Option<
    &'a serde_json::Value,
>)
    ensures
        match found {
            Some(found) => forall|rest: Seq<Seq<char>>| #[trigger]
                part_at(json_parts(*found), rest) == part_at(
                    json_parts(*value),
                    keys_of(path@) + rest,
                ),
            None => part_at(json_parts(*value), keys_of(path@)) is None,
        },
{
    let ghost root = json_parts(*value);
    let ghost keys = keys_of(path@);
    let mut current = value;
    let mut i: usize = 0;
    proof {
        assert forall|rest: Seq<Seq<char>>| #[trigger] part_at(root, rest) == part_at(
            root,
            keys.take(0) + rest,
        ) by {
            assert(keys.take(0) + rest =~= rest);
        }
    }
    while i < path.len()
        invariant
            i <= path.len(),
            keys == keys_of(path@),
            root == json_parts(*value),
            forall|rest: Seq<Seq<char>>| #[trigger]
                part_at(json_parts(*current), rest) == part_at(root, keys.take(i as int) + rest),
        decreases path.len() - i,
    {
        let ghost here = json_parts(*current);
        let ghost key = path@[i as int]@;
        proof {
            assert forall|rest: Seq<Seq<char>>| #[trigger] part_at(below(here, key), rest)
                == part_at(root, keys.take(i + 1) + rest) by {
                lemma_below(here, key, rest);
                assert(keys.take(i as int) + (seq![key] + rest) =~= keys.take(i + 1) + rest);
                assert(part_at(here, seq![key] + rest) == part_at(
                    root,
                    keys.take(i as int) + (seq![key] + rest),
                ));
            }
        }
        match json_member(current, path[i]) {
            Some(member) => {
                current = member;
            },
            None => {
                proof {
                    let rest = keys.skip(i + 1);
                    assert(keys.take(i + 1) + rest =~= keys);
                    assert(part_at(below(here, key), rest) == part_at(root, keys));
                }
                return None;
            },
        }
        i += 1;
    }
    assert(keys.take(i as int) =~= keys);
    Some(current)
}

/// The integer under a list of member names, where there is one.
pub fn manifest_integer(value: &serde_json::Value, path: &[&str]) -> (integer: Option<i64>)
    ensures
        integer == integer_at(json_parts(*value), keys_of(path@)),
{
    assert(keys_of(path@) + Seq::<Seq<char>>::empty() =~= keys_of(path@));
    match manifest_value(value, path) {
        Some(found) => {
            assert(part_at(json_parts(*found), Seq::empty()) == part_at(
                json_parts(*value),
                keys_of(path@),
            ));
            json_integer(found)
        },
        None => None,
    }
}

/// Demands that a member of a value is an integer that the code uses.
pub fn assert_manifest_i64(parent: &serde_json::Value, key: &str, expected: i64) -> (result: Result<
    (),
    ManifestFailure,
>)
    ensures
        result == compared(integer_at(json_parts(*parent), seq![key@]), expected),
        result is Ok ==> (members_at(json_parts(*parent), Seq::empty()) matches Some(names)
            && names.contains(key@)),
{
    let declared = match json_member(parent, key) {
        Some(member) => json_integer(member),
        None => None,
    };
    proof {
        lemma_below(json_parts(*parent), key@, Seq::empty());
        assert(seq![key@] + Seq::<Seq<char>>::empty() =~= seq![key@]);
    }
    declared_equals(declared, expected)
}

/// A declared integer passes exactly where it is the expected one; another is
/// reported with its value, and a missing one as missing.
pub proof fn lemma_compared_exactly(declared: Option<i64>, expected: i64)
    ensures
        compared(declared, expected) is Ok <==> declared == Some(expected),
        compared(declared, expected) matches Err(failure) ==> match failure {
            ManifestFailure::NoInteger => declared is None,
            ManifestFailure::Differs { declared: found } => declared == Some(found) && found
                != expected,
            _ => false,
        },
{
}

/// An integer stands under member names exactly where the part there is a number
/// that is this integer, and members exactly where it is an object with them.
pub proof fn lemma_parts_by_path(
    parts: Map<Seq<Seq<char>>, JsonPart>,
    path: Seq<Seq<char>>,
    integer: i64,
    names: Set<Seq<char>>,
)
    ensures
        integer_at(parts, path) == Some(integer) <==> parts.dom().contains(path) && parts[path]
            == JsonPart::Number(Some(integer)),
        members_at(parts, path) == Some(names) <==> parts.dom().contains(path) && parts[path]
            == JsonPart::Object(names),
        number_at(parts, path) <==> parts.dom().contains(path) && parts[path] is Number,
        number_at(parts, path) ==> members_at(parts, path) is None,
{
}

/// What is below two member names, one after the other, is what is below both.
pub proof fn lemma_below_twice(
    parts: Map<Seq<Seq<char>>, JsonPart>,
    first: Seq<char>,
    second: Seq<char>,
)
    ensures
        integer_at(parts, seq![first, second]) == integer_at(below(parts, first), seq![second]),
        integer_at(parts, seq![first, second]) == integer_at(
            below(below(parts, first), second),
            Seq::empty(),
        ),
{
    lemma_below(parts, first, seq![second]);
    lemma_below(below(parts, first), second, Seq::empty());
    assert(seq![first] + seq![second] =~= seq![first, second]);
    assert(seq![second] + Seq::<Seq<char>>::empty() =~= seq![second]);
}

/// A text is a manifest exactly where it is JSON, and then holds what it writes.
pub proof fn lemma_manifest_exactly(
    text: Seq<char>,
    result: Result<serde_json::Value, ManifestFailure>,
)
    requires
        is_manifest(text, result),
    ensures
        result is Ok <==> json_parsed(text) is Some,
        result matches Ok(value) ==> json_parsed(text) == Some(json_parts(value)),
        result matches Err(failure) ==> failure is NotJson,
{
}

} // verus!
