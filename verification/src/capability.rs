//! The keys that an event device advertises, as `evdev` hands them out.
use evdev::{AttributeSetRef, KeyCode};
use vstd::prelude::*;

verus! {

/// `evdev::AttributeSetRef`: a borrowed set of codes.
#[verifier::external_type_specification]
#[verifier::external_body]
#[verifier::reject_recursive_types(T)]
pub struct ExAttributeSetRef<T>(evdev::AttributeSetRef<T>);

/// `evdev::KeyCode`: the code of a key.
#[verifier::external_type_specification]
#[verifier::external_body]
pub struct ExKeyCode(evdev::KeyCode);

/// The codes of the keys in a set.
pub uninterp spec fn key_codes(keys: &AttributeSetRef<KeyCode>) -> Set<u16>;

/// `AttributeSetRef::contains`: whether the key with this code is in the set.
#[verifier::external_body]
fn has_key(keys: &AttributeSetRef<KeyCode>, code: u16) -> (r: bool)
    ensures
        r == key_codes(keys).contains(code),
{
    keys.contains(KeyCode::new(code))
}

/// `AttributeSetRef::iter`: the keys in the set, each once, by ascending code.
#[verifier::external_body]
fn list_keys(keys: &AttributeSetRef<KeyCode>) -> (r: Vec<u16>)
    ensures
        forall|code: u16| r@.contains(code) <==> key_codes(keys).contains(code),
        forall|i: int, j: int| 0 <= i < j < r@.len() ==> r@[i] < r@[j],
{
    keys.iter().map(|key| key.0).collect()
}

/// The codes that a device advertises; a device without keys has none.
pub open spec fn advertised(keys: Option<&AttributeSetRef<KeyCode>>) -> Set<u16> {
    match keys {
        Some(set) => key_codes(set),
        None => Set::empty(),
    }
}

/// Whether a device advertises the key.
pub fn advertises(keys: Option<&AttributeSetRef<KeyCode>>, code: u16) -> (r: bool)
    ensures
        r == advertised(keys).contains(code),
{
    match keys {
        Some(set) => has_key(set, code),
        None => false,
    }
}

/// The codes that a device advertises, ascending.
pub fn advertised_keys(keys: Option<&AttributeSetRef<KeyCode>>) -> (r: Vec<u16>)
    ensures
        forall|code: u16| r@.contains(code) <==> advertised(keys).contains(code),
        forall|i: int, j: int| 0 <= i < j < r@.len() ==> r@[i] < r@[j],
{
    match keys {
        Some(set) => list_keys(set),
        None => Vec::new(),
    }
}

} // verus!
