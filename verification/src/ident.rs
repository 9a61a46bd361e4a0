//! Stable numeric identities for items and classes.
//!
//! Both kinds of identity are hashes of a name string, but they live in two
//! disjoint identifier spaces: an [`ItemId`] and a [`ClassId`] never compare
//! equal as [`Id`] values, even when the underlying numbers coincide, because
//! the tagged union distinguishes them.

use crate::error::LoadError;
use vstd::prelude::*;

verus! {

/// The value that hashing a given character sequence produces in this
/// process. Determinism (equal strings give equal values) is all that is
/// assumed of it; nothing is assumed about which value comes out.
pub uninterp spec fn hash_of(s: Seq<char>) -> u64;

/// Relies on std's `DefaultHasher`: hashers created through
/// `DefaultHasher::new` all behave alike, so within one process equal strings
/// hash to equal values.
#[verifier::external_body]
pub(crate) fn hash(s: &str) -> (r: u64)
    ensures
        r == hash_of(s@),
{
    let mut hasher = std::collections::hash_map::DefaultHasher::new();
    std::hash::Hash::hash(s, &mut hasher);
    std::hash::Hasher::finish(&hasher)
}

/// The stable identity of one item, derived from its display name.
#[derive(Clone, Copy, Debug, PartialEq, Eq, Structural)]
pub struct ItemId(pub u64);

/// The stable identity of one class tag, derived from the tag string.
#[derive(Clone, Copy, Debug, PartialEq, Eq, Structural)]
pub struct ClassId(pub u64);

/// The item identity that a name string maps to.
pub open spec fn spec_item_id(name: Seq<char>) -> ItemId {
    ItemId(hash_of(name))
}

/// The class identity that a tag string maps to.
pub open spec fn spec_class_id(tag: Seq<char>) -> ClassId {
    ClassId(hash_of(tag))
}

/// A recipe operand: either one exact item, or "any item carrying this class
/// tag". The two spaces never mix: the variant tag, not the numeric value,
/// tells them apart.
#[derive(Clone, Copy, Debug, PartialEq, Eq, Structural)]
pub enum Id {
    Item(ItemId),
    Class(ClassId),
}

/// The identifier that the textual reference `s` denotes: `#name` an item,
/// `.tag` a class; any other leading character, or a sigil with an empty
/// body, is malformed.
pub open spec fn spec_parse_id(s: Seq<char>) -> Result<Id, LoadError> {
    if s.len() > 1 && s[0] == '.' {
        Ok(Id::Class(spec_class_id(s.skip(1))))
    } else if s.len() > 1 && s[0] == '#' {
        Ok(Id::Item(spec_item_id(s.skip(1))))
    } else {
        Err(LoadError::MalformedIdentifier)
    }
}

impl Id {
    /// The class identifier of the tag `id` (no sigil expected).
    pub fn class(id: &str) -> (r: Self)
        ensures
            r == Id::Class(spec_class_id(id@)),
    {
        Id::Class(ClassId(hash(id)))
    }

    /// The item identifier of the name `id` (no sigil expected).
    pub fn item(id: &str) -> (r: Self)
        ensures
            r == Id::Item(spec_item_id(id@)),
    {
        Id::Item(ItemId(hash(id)))
    }

    /// Parses a textual identifier reference: a leading `.` denotes a class,
    /// a leading `#` an item. Any other leading character is malformed, and
    /// so is a bare sigil with an empty body.
    pub fn parse(s: &str) -> (r: Result<Id, LoadError>)
        ensures
            r == spec_parse_id(s@),
    {
        let n = s.unicode_len();
        if n < 2 {
            return Err(LoadError::MalformedIdentifier);
        }
        let sigil = s.get_char(0);
        let body = s.substring_char(1, n);
        proof {
            assert(body@ =~= s@.skip(1));
        }
        if sigil == '.' {
            Ok(Id::class(body))
        } else if sigil == '#' {
            Ok(Id::item(body))
        } else {
            Err(LoadError::MalformedIdentifier)
        }
    }
}

} // verus!
