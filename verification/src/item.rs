//! Items and the match engine.
//!
//! An item carries its display name, the identity hashed from that name, its
//! class memberships, and its expanded recipe list. The match engine decides
//! whether two items can produce a candidate: some recipe of the candidate
//! must pair one identifier of the left item with one identifier of the
//! right item, in either order.

use crate::ident::{ClassId, Id, ItemId};
use crate::recipe::Recipe;
use vstd::prelude::*;

verus! {

/// One discoverable item. Constructed at load time and immutable thereafter.
#[derive(Debug)]
pub struct Item {
    /// Display name, unique within the registry by convention (duplicate
    /// names silently collide in identity) and the seed of `id`.
    pub name: String,
    /// Every way this item can be produced, in declaration order.
    pub recipes: Vec<Recipe>,
    /// The stable identity hashed from `name`.
    pub id: ItemId,
    /// The classes this item belongs to, in declaration order.
    pub classes: Vec<ClassId>,
}

/// The mathematical model of an [`Item`]: the same four attributes as plain
/// sequences.
#[verifier::ext_equal]
pub struct ItemView {
    pub name: Seq<char>,
    pub recipes: Seq<Recipe>,
    pub id: ItemId,
    pub classes: Seq<ClassId>,
}

impl View for Item {
    type V = ItemView;

    open spec fn view(&self) -> ItemView {
        ItemView {
            name: self.name@,
            recipes: self.recipes@,
            id: self.id,
            classes: self.classes@,
        }
    }
}

/// The models of a sequence of items.
pub open spec fn views_of(items: Seq<Item>) -> Seq<ItemView> {
    items.map_values(|it: Item| it@)
}

/// Whether an identifier matches an item: an item identifier matches the
/// item with exactly that identity, a class identifier matches every item
/// carrying that class.
pub open spec fn spec_id_matches_item(id: Id, item: ItemView) -> bool {
    match id {
        Id::Item(i) => item.id == i,
        Id::Class(c) => item.classes.contains(c),
    }
}

impl Id {
    /// Decides whether this identifier matches `item`: its exact identity,
    /// or a class it carries.
    #[verifier::loop_isolation(false)]
    pub fn matches_item(&self, item: &Item) -> (r: bool)
        ensures
            r == spec_id_matches_item(*self, item@),
    {
        match self {
            Id::Item(id) => *id == item.id,
            Id::Class(c) => {
                let n = item.classes.len();
                let mut i: usize = 0;
                while i < n
                    invariant
                        0 <= i <= n,
                        forall|j: int| 0 <= j < i ==> item.classes@[j] != *c,
                    decreases n - i,
                {
                    if item.classes[i] == *c {
                        return true;
                    }
                    i = i + 1;
                }
                false
            },
        }
    }
}

/// Whether `recipe` matches the operand pair `(a, b)`: a `Normal` recipe
/// matches its two identifiers in either order; `Starter` matches no pair.
pub open spec fn recipe_matches(recipe: Recipe, a: Id, b: Id) -> bool {
    match recipe {
        Recipe::Starter => false,
        Recipe::Normal(l, r) => (l == a && r == b) || (l == b && r == a),
    }
}

/// Whether combining `left` with `right` produces `candidate`: some recipe of
/// the candidate matches some identifier of the left item paired with some
/// identifier of the right item.
pub open spec fn spec_can_make(candidate: ItemView, left: ItemView, right: ItemView) -> bool {
    exists|i: int, j: int, k: int|
        0 <= i < candidate.recipes.len() && 0 <= j < left.id_seq().len() && 0 <= k
            < right.id_seq().len() && #[trigger] recipe_matches(
            candidate.recipes[i],
            left.id_seq()[j],
            right.id_seq()[k],
        )
}

impl ItemView {
    /// Every identifier the item answers to: its own item identity first,
    /// then one class identity per class tag, in order.
    pub open spec fn id_seq(self) -> Seq<Id> {
        seq![Id::Item(self.id)] + self.classes.map_values(|c: ClassId| Id::Class(c))
    }
}

impl Item {
    /// Collects the item's identifiers: itself, then its classes, in order.
    #[verifier::loop_isolation(false)]
    pub fn ids(&self) -> (r: Vec<Id>)
        ensures
            r@ == self@.id_seq(),
    {
        let mut out: Vec<Id> = Vec::new();
        out.push(Id::Item(self.id));
        let n = self.classes.len();
        let mut i: usize = 0;
        while i < n
            invariant
                0 <= i <= n,
                out@.len() == 1 + i,
                out@[0] == Id::Item(self.id),
                forall|j: int| 0 <= j < i ==> out@[j + 1] == Id::Class(self.classes@[j]),
            decreases n - i,
        {
            out.push(Id::Class(self.classes[i]));
            i = i + 1;
        }
        proof {
            assert(out@ =~= self@.id_seq());
        }
        out
    }

    /// Decides whether combining `left` with `right` produces this item.
    #[verifier::loop_isolation(false)]
    pub fn can_make(&self, left: &Item, right: &Item) -> (r: bool)
        ensures
            r == spec_can_make(self@, left@, right@),
    {
        let left_ids = left.ids();
        let right_ids = right.ids();
        let n = self.recipes.len();
        let mut i: usize = 0;
        while i < n
            invariant
                0 <= i <= n,
                forall|ii: int, j: int, k: int|
                    0 <= ii < i && 0 <= j < left@.id_seq().len() && 0 <= k
                        < right@.id_seq().len() ==> !#[trigger] recipe_matches(
                        self@.recipes[ii],
                        left@.id_seq()[j],
                        right@.id_seq()[k],
                    ),
            decreases n - i,
        {
            if recipe_matches_pair(&self.recipes[i], &left_ids, &right_ids) {
                proof {
                    let r0 = self@.recipes[i as int];
                    let (j, k): (int, int) = choose|j: int, k: int|
                        0 <= j < left_ids@.len() && 0 <= k < right_ids@.len() && #[trigger]
                        recipe_matches(r0, left_ids@[j], right_ids@[k]);
                    assert(recipe_matches(self@.recipes[i as int], left@.id_seq()[j], right@.id_seq()[k]));
                    assert(spec_can_make(self@, left@, right@));
                }
                return true;
            }
            i = i + 1;
        }
        false
    }
}

/// Decides whether one recipe matches some pair drawn from the two
/// identifier lists, in either order.
#[verifier::loop_isolation(false)]
fn recipe_matches_pair(recipe: &Recipe, left_ids: &Vec<Id>, right_ids: &Vec<Id>) -> (r: bool)
    ensures
        r == exists|j: int, k: int|
            0 <= j < left_ids@.len() && 0 <= k < right_ids@.len() && #[trigger] recipe_matches(
                *recipe,
                left_ids@[j],
                right_ids@[k],
            ),
{
    let nl = left_ids.len();
    let nr = right_ids.len();
    let mut j: usize = 0;
    while j < nl
        invariant
            0 <= j <= nl,
            forall|jj: int, k: int|
                0 <= jj < j && 0 <= k < nr ==> !#[trigger] recipe_matches(
                    *recipe,
                    left_ids@[jj],
                    right_ids@[k],
                ),
        decreases nl - j,
    {
        let mut k: usize = 0;
        while k < nr
            invariant
                0 <= j < nl,
                0 <= k <= nr,
                forall|jj: int, kk: int|
                    0 <= jj < j && 0 <= kk < nr ==> !#[trigger] recipe_matches(
                        *recipe,
                        left_ids@[jj],
                        right_ids@[kk],
                    ),
                forall|kk: int|
                    0 <= kk < k ==> !#[trigger] recipe_matches(
                        *recipe,
                        left_ids@[j as int],
                        right_ids@[kk],
                    ),
            decreases nr - k,
        {
            let matched = match recipe {
                Recipe::Starter => false,
                Recipe::Normal(l, r) => {
                    (*l == left_ids[j] && *r == right_ids[k]) || (*l == right_ids[k] && *r
                        == left_ids[j])
                },
            };
            if matched {
                proof {
                    assert(recipe_matches(*recipe, left_ids@[j as int], right_ids@[k as int]));
                }
                return true;
            }
            k = k + 1;
        }
        j = j + 1;
    }
    false
}

impl Clone for Item {
    /// A field-for-field copy whose model equals the original's.
    fn clone(&self) -> (r: Self)
        ensures
            r@ == self@,
    {
        let r = Item {
            name: self.name.clone(),
            recipes: self.recipes.clone(),
            id: self.id,
            classes: self.classes.clone(),
        };
        proof {
            assert(r.recipes@ =~= self.recipes@);
            assert(r.classes@ =~= self.classes@);
            assert(r@ =~= self@);
        }
        r
    }
}

} // verus!
