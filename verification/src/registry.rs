//! Loading the item registry from a configuration tree, and the queries the
//! surrounding program asks of it.
//!
//! Loading is all-or-nothing: the first error anywhere in the configuration
//! fails the whole load and no partial registry exists. Once loaded, the
//! registry is an ordered, immutable collection of items, preserved in
//! declaration order.

use crate::config::{str_eq, ConfigValue};
use crate::error::LoadError;
use crate::ident::{hash, spec_class_id, spec_item_id, ClassId, ItemId};
use crate::item::{spec_can_make, views_of, Item, ItemView};
use crate::recipe::{spec_expand, Recipe};
use vstd::prelude::*;

verus! {

/// Whether a class array entry is a misspelled tag: a string that starts
/// with the class sigil `.`. Such a tag is a configuration error.
pub open spec fn class_entry_bad(v: ConfigValue) -> bool {
    v matches ConfigValue::Text(s) && s@.len() > 0 && s@[0] == '.'
}

/// The class identities of a class array: one per string entry, in order;
/// entries of other kinds are silently skipped.
pub open spec fn spec_class_ids(entries: Seq<ConfigValue>) -> Seq<ClassId>
    decreases entries.len(),
{
    if entries.len() == 0 {
        Seq::empty()
    } else {
        let front = spec_class_ids(entries.drop_last());
        match entries.last() {
            ConfigValue::Text(s) => front.push(spec_class_id(s@)),
            _ => front,
        }
    }
}

/// The outcome of reading one `class` array: its class identities, or
/// `InvalidClassTag` when some string tag starts with `.`.
pub open spec fn spec_classes(entries: Seq<ConfigValue>) -> Result<Seq<ClassId>, LoadError> {
    if exists|i: int| 0 <= i < entries.len() && class_entry_bad(#[trigger] entries[i]) {
        Err(LoadError::InvalidClassTag)
    } else {
        Ok(spec_class_ids(entries))
    }
}

/// The item table's entries, in declaration order, or `MissingSection` when
/// the configuration root has no `item` table.
pub open spec fn spec_item_entries(config: ConfigValue) -> Result<
    Seq<(String, ConfigValue)>,
    LoadError,
> {
    match config.spec_get("item"@) {
        Some(ConfigValue::Table(entries)) => Ok(entries@),
        Some(_) => Err(LoadError::MissingSection),
        None => Err(LoadError::MissingSection),
    }
}

/// The outcome of reading one item entry's `class` array.
pub open spec fn spec_entry_classes(info: ConfigValue) -> Result<Seq<ClassId>, LoadError> {
    match info.spec_get("class"@) {
        Some(ConfigValue::List(cs)) => spec_classes(cs@),
        Some(_) => Err(LoadError::MissingSection),
        None => Err(LoadError::MissingSection),
    }
}

/// The outcome of expanding one item entry's `recipe` node.
pub open spec fn spec_entry_recipes(info: ConfigValue) -> Result<Seq<Recipe>, LoadError> {
    match info.spec_get("recipe"@) {
        Some(rv) => spec_expand(rv),
        None => Err(LoadError::MissingSection),
    }
}

/// Whether a loaded item faithfully renders one configuration entry: the
/// entry's key as name and identity seed, its class identities, and its
/// expanded recipes.
pub open spec fn item_ok(iv: ItemView, name: Seq<char>, info: ConfigValue) -> bool {
    &&& iv.name == name
    &&& iv.id == spec_item_id(name)
    &&& spec_entry_classes(info) == Ok::<Seq<ClassId>, LoadError>(iv.classes)
    &&& spec_entry_recipes(info) == Ok::<Seq<Recipe>, LoadError>(iv.recipes)
}

/// The first error in one item entry: its classes, then its recipes.
pub open spec fn spec_entry_err(info: ConfigValue) -> Option<LoadError> {
    match spec_entry_classes(info) {
        Err(e) => Some(e),
        Ok(_) => match spec_entry_recipes(info) {
            Err(e) => Some(e),
            Ok(_) => None,
        },
    }
}

/// The first error over the item entries, in declaration order.
pub open spec fn spec_entries_err(entries: Seq<(String, ConfigValue)>) -> Option<LoadError>
    decreases entries.len(),
{
    if entries.len() == 0 {
        None
    } else {
        match spec_entry_err(entries[0].1) {
            Some(e) => Some(e),
            None => spec_entries_err(entries.skip(1)),
        }
    }
}

/// The first error anywhere in the configuration, if any: a load succeeds
/// exactly when this is `None`.
pub open spec fn spec_load_err(config: ConfigValue) -> Option<LoadError> {
    match spec_item_entries(config) {
        Err(e) => Some(e),
        Ok(entries) => spec_entries_err(entries),
    }
}

/// Whether an item is available from the very beginning: its first recipe
/// entry is `Starter`.
pub open spec fn is_starter(iv: ItemView) -> bool {
    iv.recipes.len() > 0 && iv.recipes[0] == Recipe::Starter
}

/// The starter items of a registry, in registry order.
pub open spec fn spec_starters(items: Seq<ItemView>) -> Seq<ItemView>
    decreases items.len(),
{
    if items.len() == 0 {
        Seq::empty()
    } else {
        let front = spec_starters(items.drop_last());
        if is_starter(items.last()) {
            front.push(items.last())
        } else {
            front
        }
    }
}

/// Every item of the registry that the pair `(left, right)` produces, in
/// registry order — all of them, not only the first.
pub open spec fn spec_combine(items: Seq<ItemView>, left: ItemView, right: ItemView) -> Seq<
    ItemView,
>
    decreases items.len(),
{
    if items.len() == 0 {
        Seq::empty()
    } else {
        let front = spec_combine(items.drop_last(), left, right);
        if spec_can_make(items.last(), left, right) {
            front.push(items.last())
        } else {
            front
        }
    }
}

/// The first registry item with the given display name, if any.
pub open spec fn spec_lookup(items: Seq<ItemView>, name: Seq<char>) -> Option<ItemView>
    decreases items.len(),
{
    if items.len() == 0 {
        None
    } else if items[0].name == name {
        Some(items[0])
    } else {
        spec_lookup(items.skip(1), name)
    }
}

/// Reads one `class` array: checks every string tag for the forbidden
/// leading `.`, and hashes each string tag into a class identity.
#[verifier::loop_isolation(false)]
fn parse_classes(entries: &Vec<ConfigValue>) -> (r: Result<Vec<ClassId>, LoadError>)
    ensures
        match spec_classes(entries@) {
            Ok(ids) => r matches Ok(v) && v@ == ids,
            Err(e) => r matches Err(e2) && e2 == e,
        },
{
    let n = entries.len();
    let mut out: Vec<ClassId> = Vec::new();
    let mut i: usize = 0;
    proof {
        assert(entries@.take(0) =~= Seq::<ConfigValue>::empty());
    }
    while i < n
        invariant
            0 <= i <= n,
            forall|j: int| 0 <= j < i ==> !class_entry_bad(#[trigger] entries@[j]),
            out@ == spec_class_ids(entries@.take(i as int)),
        decreases n - i,
    {
        proof {
            assert(entries@.take(i as int + 1).drop_last() =~= entries@.take(i as int));
        }
        match &entries[i] {
            ConfigValue::Text(s) => {
                if s.unicode_len() > 0 && s.get_char(0) == '.' {
                    proof {
                        assert(class_entry_bad(entries@[i as int]));
                    }
                    return Err(LoadError::InvalidClassTag);
                }
                out.push(ClassId(hash(s.as_str())));
            },
            _ => {},
        }
        i = i + 1;
    }
    proof {
        assert(entries@.take(n as int) =~= entries@);
    }
    Ok(out)
}

/// Loads every item of the configuration's `item` table, in declaration
/// order. The first error is fatal for the whole load: either every entry
/// loads, or no items are returned.
#[verifier::loop_isolation(false)]
pub fn load_registry(config: &ConfigValue) -> (r: Result<Vec<Item>, LoadError>)
    ensures
        match r {
            Ok(items) => spec_item_entries(*config) matches Ok(entries) && items@.len()
                == entries.len() && (forall|i: int|
                0 <= i < entries.len() ==> item_ok(
                    (#[trigger] items@[i])@,
                    entries[i].0@,
                    entries[i].1,
                )),
            Err(e) => spec_load_err(*config) == Some(e),
        },
        r is Ok <==> spec_load_err(*config) is None,
{
    let item_node = match config.get("item") {
        Some(v) => v,
        None => {
            return Err(LoadError::MissingSection);
        },
    };
    let entries = match item_node {
        ConfigValue::Table(entries) => entries,
        _ => {
            return Err(LoadError::MissingSection);
        },
    };
    let n = entries.len();
    let mut items: Vec<Item> = Vec::new();
    let mut idx: usize = 0;
    proof {
        assert(entries@.skip(0) =~= entries@);
    }
    while idx < n
        invariant
            0 <= idx <= n,
            items@.len() == idx,
            forall|i: int|
                0 <= i < idx ==> item_ok((#[trigger] items@[i])@, entries@[i].0@, entries@[i].1),
            spec_entries_err(entries@) == spec_entries_err(entries@.skip(idx as int)),
        decreases n - idx,
    {
        proof {
            assert(entries@.skip(idx as int)[0] == entries@[idx as int]);
            assert(entries@.skip(idx as int).skip(1) =~= entries@.skip(idx as int + 1));
        }
        let info: &ConfigValue = &entries[idx].1;
        let class_node = match info.get("class") {
            Some(v) => v,
            None => {
                return Err(LoadError::MissingSection);
            },
        };
        let classes = match class_node {
            ConfigValue::List(cs) => {
                match parse_classes(cs) {
                    Ok(c) => c,
                    Err(e) => {
                        return Err(e);
                    },
                }
            },
            _ => {
                return Err(LoadError::MissingSection);
            },
        };
        let recipe_node = match info.get("recipe") {
            Some(v) => v,
            None => {
                return Err(LoadError::MissingSection);
            },
        };
        let recipes = match Recipe::from_value(recipe_node) {
            Ok(rs) => rs,
            Err(e) => {
                return Err(e);
            },
        };
        let name: &String = &entries[idx].0;
        let item = Item { name: name.clone(), recipes, id: ItemId(hash(name.as_str())), classes };
        items.push(item);
        idx = idx + 1;
    }
    proof {
        assert(entries@.skip(n as int) =~= Seq::<(String, ConfigValue)>::empty());
    }
    Ok(items)
}

/// The registry's starter items, cloned in registry order: the initial
/// discovered set of a fresh game.
#[verifier::loop_isolation(false)]
pub fn starters(registry: &Vec<Item>) -> (r: Vec<Item>)
    ensures
        views_of(r@) == spec_starters(views_of(registry@)),
{
    let ghost vs = views_of(registry@);
    let n = registry.len();
    let mut out: Vec<Item> = Vec::new();
    let mut i: usize = 0;
    proof {
        assert(vs.take(0) =~= Seq::<ItemView>::empty());
        assert(views_of(out@) =~= Seq::<ItemView>::empty());
    }
    while i < n
        invariant
            0 <= i <= n,
            views_of(out@) == spec_starters(vs.take(i as int)),
        decreases n - i,
    {
        proof {
            assert(vs.take(i as int + 1).drop_last() =~= vs.take(i as int));
            assert(vs.take(i as int + 1).last() == registry@[i as int]@);
        }
        let it = &registry[i];
        let starter = if it.recipes.len() > 0 {
            let first = it.recipes[0];
            match first {
                Recipe::Starter => true,
                _ => false,
            }
        } else {
            false
        };
        if starter {
            let ghost old_out = out@;
            out.push(it.clone());
            proof {
                assert(views_of(out@) =~= views_of(old_out).push(registry@[i as int]@));
            }
        }
        i = i + 1;
    }
    proof {
        assert(vs.take(n as int) =~= vs);
    }
    out
}

/// Every registry item that combining `left` with `right` produces, cloned
/// in registry order. A pair may legitimately produce several items at once;
/// all of them are returned.
#[verifier::loop_isolation(false)]
pub fn combine(registry: &Vec<Item>, left: &Item, right: &Item) -> (r: Vec<Item>)
    ensures
        views_of(r@) == spec_combine(views_of(registry@), left@, right@),
{
    let ghost vs = views_of(registry@);
    let n = registry.len();
    let mut out: Vec<Item> = Vec::new();
    let mut i: usize = 0;
    proof {
        assert(vs.take(0) =~= Seq::<ItemView>::empty());
        assert(views_of(out@) =~= Seq::<ItemView>::empty());
    }
    while i < n
        invariant
            0 <= i <= n,
            views_of(out@) == spec_combine(vs.take(i as int), left@, right@),
        decreases n - i,
    {
        proof {
            assert(vs.take(i as int + 1).drop_last() =~= vs.take(i as int));
            assert(vs.take(i as int + 1).last() == registry@[i as int]@);
        }
        let it = &registry[i];
        if it.can_make(left, right) {
            let ghost old_out = out@;
            out.push(it.clone());
            proof {
                assert(views_of(out@) =~= views_of(old_out).push(registry@[i as int]@));
            }
        }
        i = i + 1;
    }
    proof {
        assert(vs.take(n as int) =~= vs);
    }
    out
}

/// Resolves one saved display name to its registry item by exact string
/// equality. An unresolved name is the one recoverable error: the caller
/// skips the entry and continues.
#[verifier::loop_isolation(false)]
pub fn lookup_item(registry: &Vec<Item>, name: &str) -> (r: Result<Item, LoadError>)
    ensures
        match r {
            Ok(it) => spec_lookup(views_of(registry@), name@) == Some(it@),
            Err(e) => spec_lookup(views_of(registry@), name@) is None && e
                == LoadError::UnknownSavedItem,
        },
{
    let ghost vs = views_of(registry@);
    let n = registry.len();
    let mut i: usize = 0;
    proof {
        assert(vs.skip(0) =~= vs);
    }
    while i < n
        invariant
            0 <= i <= n,
            spec_lookup(vs, name@) == spec_lookup(vs.skip(i as int), name@),
        decreases n - i,
    {
        proof {
            assert(vs.skip(i as int)[0] == registry@[i as int]@);
            assert(vs.skip(i as int).skip(1) =~= vs.skip(i as int + 1));
        }
        if str_eq(registry[i].name.as_str(), name) {
            return Ok(registry[i].clone());
        }
        i = i + 1;
    }
    proof {
        assert(vs.skip(n as int) =~= Seq::<ItemView>::empty());
    }
    Err(LoadError::UnknownSavedItem)
}

} // verus!
