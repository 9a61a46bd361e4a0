//! The laws the engine guarantees, stated and proved once for all inputs.

use crate::config::ConfigValue;
use crate::ident::{spec_class_id, spec_item_id, spec_parse_id, ClassId, Id};
use crate::item::{recipe_matches, spec_can_make, ItemView};
use crate::recipe::{spec_cross_left, spec_cross_one, Recipe};
use crate::registry::spec_combine;
use vstd::prelude::*;

verus! {

/// Item and class identities live in disjoint spaces: the item identifier and
/// the class identifier of the same string never compare equal, because the
/// tag distinguishes them even where the underlying hash values coincide.
pub proof fn lemma_identity_spaces_disjoint(name: Seq<char>)
    ensures
        Id::Item(spec_item_id(name)) != Id::Class(spec_class_id(name)),
{
}

/// Matching is fully symmetric: the order in which the two operand items are
/// supplied never changes whether a candidate can be made.
pub proof fn lemma_can_make_symmetric(candidate: ItemView, a: ItemView, b: ItemView)
    ensures
        spec_can_make(candidate, a, b) == spec_can_make(candidate, b, a),
{
    if spec_can_make(candidate, a, b) {
        let (i, j, k): (int, int, int) = choose|i: int, j: int, k: int|
            0 <= i < candidate.recipes.len() && 0 <= j < a.id_seq().len() && 0 <= k
                < b.id_seq().len() && #[trigger] recipe_matches(
                candidate.recipes[i],
                a.id_seq()[j],
                b.id_seq()[k],
            );
        assert(recipe_matches(candidate.recipes[i], b.id_seq()[k], a.id_seq()[j]));
        assert(spec_can_make(candidate, b, a));
    }
    if spec_can_make(candidate, b, a) {
        let (i, j, k): (int, int, int) = choose|i: int, j: int, k: int|
            0 <= i < candidate.recipes.len() && 0 <= j < b.id_seq().len() && 0 <= k
                < a.id_seq().len() && #[trigger] recipe_matches(
                candidate.recipes[i],
                b.id_seq()[j],
                a.id_seq()[k],
            );
        assert(recipe_matches(candidate.recipes[i], a.id_seq()[k], b.id_seq()[j]));
        assert(spec_can_make(candidate, a, b));
    }
}

/// A candidate holding the exact-item recipe `Normal(idA, idB)` can be made
/// from items A and B, in either order.
pub proof fn lemma_exact_recipe_fires(candidate: ItemView, a: ItemView, b: ItemView, i: int)
    requires
        0 <= i < candidate.recipes.len(),
        candidate.recipes[i] == Recipe::Normal(Id::Item(a.id), Id::Item(b.id)),
    ensures
        spec_can_make(candidate, a, b),
        spec_can_make(candidate, b, a),
{
    assert(a.id_seq()[0] == Id::Item(a.id));
    assert(b.id_seq()[0] == Id::Item(b.id));
    assert(recipe_matches(candidate.recipes[i], a.id_seq()[0], b.id_seq()[0]));
    assert(spec_can_make(candidate, a, b));
    lemma_can_make_symmetric(candidate, a, b);
}

/// A class operand is a wildcard: a candidate holding the recipe
/// `Normal(.tag, idB)` can be made from ANY item carrying class `tag`
/// together with item B, not just one specific item.
pub proof fn lemma_class_wildcard(
    candidate: ItemView,
    a: ItemView,
    b: ItemView,
    i: int,
    tag: ClassId,
)
    requires
        0 <= i < candidate.recipes.len(),
        candidate.recipes[i] == Recipe::Normal(Id::Class(tag), Id::Item(b.id)),
        a.classes.contains(tag),
    ensures
        spec_can_make(candidate, a, b),
{
    let c = choose|c: int| 0 <= c < a.classes.len() && a.classes[c] == tag;
    assert(a.id_seq()[c + 1] == Id::Class(tag));
    assert(b.id_seq()[0] == Id::Item(b.id));
    assert(recipe_matches(candidate.recipes[i], a.id_seq()[c + 1], b.id_seq()[0]));
    assert(spec_can_make(candidate, a, b));
}

/// An item all of whose recipes are `Starter` can never be made from any
/// pair: starter recipes match no combination.
pub proof fn lemma_starter_never_made(candidate: ItemView, a: ItemView, b: ItemView)
    requires
        forall|i: int| 0 <= i < candidate.recipes.len() ==> candidate.recipes[i] == Recipe::Starter,
    ensures
        !spec_can_make(candidate, a, b),
{
    if spec_can_make(candidate, a, b) {
        let (i, j, k): (int, int, int) = choose|i: int, j: int, k: int|
            0 <= i < candidate.recipes.len() && 0 <= j < a.id_seq().len() && 0 <= k
                < b.id_seq().len() && #[trigger] recipe_matches(
                candidate.recipes[i],
                a.id_seq()[j],
                b.id_seq()[k],
            );
        assert(!recipe_matches(candidate.recipes[i], a.id_seq()[j], b.id_seq()[k]));
    }
}

/// An item all of whose recipes are `Starter` is never among the items that
/// `combine` reports for any input pair.
pub proof fn lemma_starter_excluded_from_combine(
    items: Seq<ItemView>,
    left: ItemView,
    right: ItemView,
    candidate: ItemView,
)
    requires
        forall|i: int| 0 <= i < candidate.recipes.len() ==> candidate.recipes[i] == Recipe::Starter,
    ensures
        !spec_combine(items, left, right).contains(candidate),
{
    lemma_starter_never_made(candidate, left, right);
    if spec_combine(items, left, right).contains(candidate) {
        let t = choose|t: int|
            0 <= t < spec_combine(items, left, right).len() && spec_combine(items, left, right)[t]
                == candidate;
        lemma_combine_only_matches(items, left, right, t);
    }
}

/// Combining reports every match: each registry item the pair can make is
/// among the results, not only the first.
pub proof fn lemma_combine_reports_all(
    items: Seq<ItemView>,
    left: ItemView,
    right: ItemView,
    i: int,
)
    requires
        0 <= i < items.len(),
        spec_can_make(items[i], left, right),
    ensures
        spec_combine(items, left, right).contains(items[i]),
    decreases items.len(),
{
    let res = spec_combine(items, left, right);
    let front = spec_combine(items.drop_last(), left, right);
    if i == items.len() - 1 {
        assert(res[res.len() - 1] == items[i]);
        assert(res.contains(items[i]));
    } else {
        lemma_combine_reports_all(items.drop_last(), left, right, i);
        let t = choose|t: int| 0 <= t < front.len() && front[t] == items[i];
        assert(res[t] == items[i]);
        assert(res.contains(items[i]));
    }
}

/// Combining reports only matches: everything reported is a registry item
/// that the pair can make.
pub proof fn lemma_combine_only_matches(
    items: Seq<ItemView>,
    left: ItemView,
    right: ItemView,
    t: int,
)
    requires
        0 <= t < spec_combine(items, left, right).len(),
    ensures
        spec_can_make(spec_combine(items, left, right)[t], left, right),
        items.contains(spec_combine(items, left, right)[t]),
    decreases items.len(),
{
    let res = spec_combine(items, left, right);
    let front = spec_combine(items.drop_last(), left, right);
    if t < front.len() {
        lemma_combine_only_matches(items.drop_last(), left, right, t);
        let j = choose|j: int|
            0 <= j < items.drop_last().len() && items.drop_last()[j] == front[t];
        assert(items[j] == res[t]);
        assert(items.contains(res[t]));
    } else {
        assert(res[t] == items.last());
        assert(items[items.len() - 1] == res[t]);
        assert(items.contains(res[t]));
    }
}

/// One fixed left identifier crossed with an array of `n` identifier strings
/// expands to exactly `n` recipes: the left identifier paired with each right
/// identifier, in order.
pub proof fn lemma_cross_one_expansion(left: Seq<char>, rights: Seq<ConfigValue>)
    requires
        spec_parse_id(left) is Ok,
        forall|i: int|
            0 <= i < rights.len() ==> ((#[trigger] rights[i]) matches ConfigValue::Text(s)
                && spec_parse_id(s@) is Ok),
    ensures
        spec_cross_one(left, rights) matches Ok(recipes) && recipes.len() == rights.len() && (
        forall|i: int|
            0 <= i < rights.len() ==> #[trigger] recipes[i] == Recipe::Normal(
                spec_parse_id(left)->Ok_0,
                spec_parse_id(rights[i]->Text_0@)->Ok_0,
            )),
    decreases rights.len(),
{
    if rights.len() > 0 {
        lemma_cross_one_expansion(left, rights.drop_last());
        assert(rights.last() == rights[rights.len() - 1]);
    }
}

/// Cross-product expansion: a pair node whose left operand is an array of
/// `n` identifier strings and whose right operand is one identifier string
/// expands to exactly `n` recipes, pairing each left identifier with the
/// right identifier, in order.
pub proof fn lemma_cross_product_expansion(lefts: Seq<ConfigValue>, right: ConfigValue)
    requires
        forall|i: int|
            0 <= i < lefts.len() ==> ((#[trigger] lefts[i]) matches ConfigValue::Text(s)
                && spec_parse_id(s@) is Ok),
        right matches ConfigValue::Text(r) && spec_parse_id(r@) is Ok,
    ensures
        spec_cross_left(lefts, Some(right)) matches Ok(recipes) && recipes.len() == lefts.len()
            && (forall|i: int|
            0 <= i < lefts.len() ==> #[trigger] recipes[i] == Recipe::Normal(
                spec_parse_id(lefts[i]->Text_0@)->Ok_0,
                spec_parse_id(right->Text_0@)->Ok_0,
            )),
    decreases lefts.len(),
{
    if lefts.len() > 0 {
        lemma_cross_product_expansion(lefts.drop_last(), right);
        assert(lefts.last() == lefts[lefts.len() - 1]);
    }
}

} // verus!
