//! Error kinds reported while loading the registry or rehydrating a saved
//! discovered-item list.

use vstd::prelude::*;

verus! {

/// Everything that can go wrong while loading configuration or resolving a
/// saved item name. Every kind but `UnknownSavedItem` is fatal for the whole
/// load: no partial registry is ever returned.
#[derive(Clone, Copy, Debug, PartialEq, Eq, Structural)]
pub enum LoadError {
    /// An identifier reference begins with neither `#` (item) nor `.` (class).
    MalformedIdentifier,
    /// A recipe node matches none of the expansion rules.
    InvalidRecipeShape,
    /// A class tag begins with the class sigil `.`.
    InvalidClassTag,
    /// The configuration lacks the `item` table, or an item entry lacks its
    /// `class` array or its `recipe` node.
    MissingSection,
    /// A saved display name resolves to no item of the registry. This is the
    /// one recoverable error: the caller skips the entry and continues.
    UnknownSavedItem,
}

} // verus!
