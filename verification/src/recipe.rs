//! Recipes and the expansion of the recipe DSL into flat rules.
//!
//! A `recipe` node of the configuration expands into a list of concrete
//! two-operand recipes, in this precedence:
//! 1. the literal string `$starter` gives the single entry `Starter`;
//! 2. an array whose elements are all arrays is a list of recipe pairs: each
//!    element expands recursively and the results are concatenated;
//! 3. otherwise the node must be an array `[left, right]` where each operand
//!    is an identifier string or an array of identifier strings; expansion
//!    takes the full cross product of the two operand sets.
//! Any other shape is an `InvalidRecipeShape` error; a bad identifier inside
//! an otherwise well-shaped node is a `MalformedIdentifier` error.

use crate::config::{str_eq, ConfigValue};
use crate::error::LoadError;
use crate::ident::{spec_parse_id, Id};
use vstd::prelude::*;

verus! {

/// One production rule for an item: available from the start (`Starter`), or
/// produced by combining anything matching `left` with anything matching
/// `right`, in either order.
#[derive(Clone, Copy, Debug, PartialEq, Eq, Structural)]
pub enum Recipe {
    Starter,
    Normal(Id, Id),
}

/// The recipe that a pair of textual identifier references denotes, or the
/// first parse error (left operand first).
pub open spec fn spec_recipe(left: Seq<char>, right: Seq<char>) -> Result<Recipe, LoadError> {
    match (spec_parse_id(left), spec_parse_id(right)) {
        (Ok(l), Ok(r)) => Ok(Recipe::Normal(l, r)),
        (Err(e), _) => Err(e),
        (Ok(_), Err(e)) => Err(e),
    }
}

/// Whether every element of `vs` is an array.
pub open spec fn all_lists(vs: Seq<ConfigValue>) -> bool {
    forall|i: int| 0 <= i < vs.len() ==> vs[i] is List
}

/// One fixed left operand crossed with a list of right operand nodes, each of
/// which must be an identifier string. Errors surface in element order.
pub open spec fn spec_cross_one(left: Seq<char>, rights: Seq<ConfigValue>) -> Result<
    Seq<Recipe>,
    LoadError,
>
    decreases rights.len(),
{
    if rights.len() == 0 {
        Ok(Seq::empty())
    } else {
        match spec_cross_one(left, rights.drop_last()) {
            Err(e) => Err(e),
            Ok(front) => match rights.last() {
                ConfigValue::Text(r) => match spec_recipe(left, r@) {
                    Err(e) => Err(e),
                    Ok(rec) => Ok(front.push(rec)),
                },
                _ => Err(LoadError::InvalidRecipeShape),
            },
        }
    }
}

/// A list of left operand nodes crossed with the right operand node of the
/// pair (`None` when the pair has no second element, which only matters once
/// some left operand exists). Every left element must be an identifier
/// string; the right node may be a string or an array of strings.
pub open spec fn spec_cross_left(lefts: Seq<ConfigValue>, right: Option<ConfigValue>) -> Result<
    Seq<Recipe>,
    LoadError,
>
    decreases lefts.len(),
{
    if lefts.len() == 0 {
        Ok(Seq::empty())
    } else {
        match spec_cross_left(lefts.drop_last(), right) {
            Err(e) => Err(e),
            Ok(front) => match lefts.last() {
                ConfigValue::Text(l) => match right {
                    Some(ConfigValue::Text(r)) => match spec_recipe(l@, r@) {
                        Err(e) => Err(e),
                        Ok(rec) => Ok(front.push(rec)),
                    },
                    Some(ConfigValue::List(rs)) => match spec_cross_one(l@, rs@) {
                        Err(e) => Err(e),
                        Ok(sub) => Ok(front + sub),
                    },
                    _ => Err(LoadError::InvalidRecipeShape),
                },
                _ => Err(LoadError::InvalidRecipeShape),
            },
        }
    }
}

/// Expansion of a two-operand recipe pair `[left, right]` (rule 3).
pub open spec fn spec_expand_pair(vs: Seq<ConfigValue>) -> Result<Seq<Recipe>, LoadError> {
    if vs.len() == 0 {
        Err(LoadError::InvalidRecipeShape)
    } else {
        match vs[0] {
            ConfigValue::Text(l) => if vs.len() < 2 {
                Err(LoadError::InvalidRecipeShape)
            } else {
                match vs[1] {
                    ConfigValue::Text(r) => match spec_recipe(l@, r@) {
                        Err(e) => Err(e),
                        Ok(rec) => Ok(seq![rec]),
                    },
                    ConfigValue::List(rs) => spec_cross_one(l@, rs@),
                    _ => Err(LoadError::InvalidRecipeShape),
                }
            },
            ConfigValue::List(ls) => spec_cross_left(
                ls@,
                if vs.len() >= 2 {
                    Some(vs[1])
                } else {
                    None
                },
            ),
            _ => Err(LoadError::InvalidRecipeShape),
        }
    }
}

/// The flat recipe list that a `recipe` configuration node denotes, or the
/// first error met while expanding it.
pub open spec fn spec_expand(v: ConfigValue) -> Result<Seq<Recipe>, LoadError>
    decreases v,
{
    match v {
        ConfigValue::Text(s) => if s@ == "$starter"@ {
            Ok(seq![Recipe::Starter])
        } else {
            Err(LoadError::InvalidRecipeShape)
        },
        ConfigValue::List(vs) => if all_lists(vs@) {
            spec_expand_all(vs@)
        } else {
            spec_expand_pair(vs@)
        },
        _ => Err(LoadError::InvalidRecipeShape),
    }
}

/// Concatenated expansion of a list of recipe pairs (rule 2). Errors surface
/// in element order.
pub open spec fn spec_expand_all(vs: Seq<ConfigValue>) -> Result<Seq<Recipe>, LoadError>
    decreases vs,
{
    if vs.len() == 0 {
        Ok(Seq::empty())
    } else {
        match spec_expand_all(vs.drop_last()) {
            Err(e) => Err(e),
            Ok(front) => match spec_expand(vs.last()) {
                Err(e) => Err(e),
                Ok(sub) => Ok(front + sub),
            },
        }
    }
}

/// How an executable expansion result matches its specification: equal error,
/// or a vector whose view is the specified sequence.
pub open spec fn expands_to(
    r: Result<Vec<Recipe>, LoadError>,
    s: Result<Seq<Recipe>, LoadError>,
) -> bool {
    match s {
        Ok(sq) => r matches Ok(v) && v@ == sq,
        Err(e) => r matches Err(e2) && e2 == e,
    }
}

/// Once a prefix of the right operand list fails, the whole list fails the
/// same way.
proof fn lemma_cross_one_err_prefix(left: Seq<char>, rights: Seq<ConfigValue>, j: int)
    requires
        0 <= j <= rights.len(),
        spec_cross_one(left, rights.take(j)) is Err,
    ensures
        spec_cross_one(left, rights) == spec_cross_one(left, rights.take(j)),
    decreases rights.len() - j,
{
    if j == rights.len() {
        assert(rights.take(j) =~= rights);
    } else {
        assert(rights.take(j + 1).drop_last() =~= rights.take(j));
        lemma_cross_one_err_prefix(left, rights, j + 1);
    }
}

/// Once a prefix of the left operand list fails, the whole list fails the
/// same way.
proof fn lemma_cross_left_err_prefix(lefts: Seq<ConfigValue>, right: Option<ConfigValue>, j: int)
    requires
        0 <= j <= lefts.len(),
        spec_cross_left(lefts.take(j), right) is Err,
    ensures
        spec_cross_left(lefts, right) == spec_cross_left(lefts.take(j), right),
    decreases lefts.len() - j,
{
    if j == lefts.len() {
        assert(lefts.take(j) =~= lefts);
    } else {
        assert(lefts.take(j + 1).drop_last() =~= lefts.take(j));
        lemma_cross_left_err_prefix(lefts, right, j + 1);
    }
}

/// Once a prefix of a list of recipe pairs fails, the whole list fails the
/// same way.
proof fn lemma_expand_all_err_prefix(vs: Seq<ConfigValue>, j: int)
    requires
        0 <= j <= vs.len(),
        spec_expand_all(vs.take(j)) is Err,
    ensures
        spec_expand_all(vs) == spec_expand_all(vs.take(j)),
    decreases vs.len() - j,
{
    if j == vs.len() {
        assert(vs.take(j) =~= vs);
    } else {
        assert(vs.take(j + 1).drop_last() =~= vs.take(j));
        lemma_expand_all_err_prefix(vs, j + 1);
    }
}

/// Whether every element of `vs` is an array (rule 2 applies).
#[verifier::loop_isolation(false)]
fn all_elements_lists(vs: &Vec<ConfigValue>) -> (r: bool)
    ensures
        r == all_lists(vs@),
{
    let n = vs.len();
    let mut i: usize = 0;
    while i < n
        invariant
            0 <= i <= n,
            forall|j: int| 0 <= j < i ==> vs@[j] is List,
        decreases n - i,
    {
        match &vs[i] {
            ConfigValue::List(_) => {},
            _ => {
                return false;
            },
        }
        i = i + 1;
    }
    true
}

/// Crosses one left identifier string with a list of right operand nodes.
#[verifier::loop_isolation(false)]
fn cross_one(left: &str, rights: &Vec<ConfigValue>) -> (r: Result<Vec<Recipe>, LoadError>)
    ensures
        expands_to(r, spec_cross_one(left@, rights@)),
{
    let n = rights.len();
    let mut out: Vec<Recipe> = Vec::new();
    let mut i: usize = 0;
    proof {
        assert(rights@.take(0) =~= Seq::<ConfigValue>::empty());
    }
    while i < n
        invariant
            0 <= i <= n,
            spec_cross_one(left@, rights@.take(i as int)) == Ok::<Seq<Recipe>, LoadError>(out@),
        decreases n - i,
    {
        proof {
            assert(rights@.take(i as int + 1).drop_last() =~= rights@.take(i as int));
        }
        match &rights[i] {
            ConfigValue::Text(r) => {
                match Recipe::new(left, r.as_str()) {
                    Ok(rec) => {
                        out.push(rec);
                    },
                    Err(e) => {
                        proof {
                            lemma_cross_one_err_prefix(left@, rights@, i as int + 1);
                        }
                        return Err(e);
                    },
                }
            },
            _ => {
                proof {
                    lemma_cross_one_err_prefix(left@, rights@, i as int + 1);
                }
                return Err(LoadError::InvalidRecipeShape);
            },
        }
        i = i + 1;
    }
    proof {
        assert(rights@.take(n as int) =~= rights@);
    }
    Ok(out)
}

/// Expands a two-operand pair `[left, right]`, taking the cross product of
/// the operand sets.
#[verifier::loop_isolation(false)]
fn expand_pair(vs: &Vec<ConfigValue>) -> (r: Result<Vec<Recipe>, LoadError>)
    ensures
        expands_to(r, spec_expand_pair(vs@)),
{
    if vs.len() == 0 {
        return Err(LoadError::InvalidRecipeShape);
    }
    match &vs[0] {
        ConfigValue::Text(l) => {
            if vs.len() < 2 {
                return Err(LoadError::InvalidRecipeShape);
            }
            match &vs[1] {
                ConfigValue::Text(r) => match Recipe::new(l.as_str(), r.as_str()) {
                    Ok(rec) => {
                        let mut out: Vec<Recipe> = Vec::new();
                        out.push(rec);
                        proof {
                            assert(out@ =~= seq![rec]);
                        }
                        Ok(out)
                    },
                    Err(e) => Err(e),
                },
                ConfigValue::List(rs) => cross_one(l.as_str(), rs),
                _ => Err(LoadError::InvalidRecipeShape),
            }
        },
        ConfigValue::List(ls) => {
            let ghost right: Option<ConfigValue> = if vs@.len() >= 2 {
                Some(vs@[1])
            } else {
                None
            };
            let n = ls.len();
            let mut out: Vec<Recipe> = Vec::new();
            let mut i: usize = 0;
            proof {
                assert(ls@.take(0) =~= Seq::<ConfigValue>::empty());
            }
            while i < n
                invariant
                    0 <= i <= n,
                    spec_cross_left(ls@.take(i as int), right) == Ok::<Seq<Recipe>, LoadError>(
                        out@,
                    ),
                decreases n - i,
            {
                proof {
                    assert(ls@.take(i as int + 1).drop_last() =~= ls@.take(i as int));
                }
                match &ls[i] {
                    ConfigValue::Text(l) => {
                        if vs.len() < 2 {
                            proof {
                                lemma_cross_left_err_prefix(ls@, right, i as int + 1);
                            }
                            return Err(LoadError::InvalidRecipeShape);
                        }
                        match &vs[1] {
                            ConfigValue::Text(rt) => {
                                match Recipe::new(l.as_str(), rt.as_str()) {
                                    Ok(rec) => {
                                        out.push(rec);
                                    },
                                    Err(e) => {
                                        proof {
                                            lemma_cross_left_err_prefix(ls@, right, i as int + 1);
                                        }
                                        return Err(e);
                                    },
                                }
                            },
                            ConfigValue::List(rs) => {
                                match cross_one(l.as_str(), rs) {
                                    Ok(mut sub) => {
                                        out.append(&mut sub);
                                    },
                                    Err(e) => {
                                        proof {
                                            lemma_cross_left_err_prefix(ls@, right, i as int + 1);
                                        }
                                        return Err(e);
                                    },
                                }
                            },
                            _ => {
                                proof {
                                    lemma_cross_left_err_prefix(ls@, right, i as int + 1);
                                }
                                return Err(LoadError::InvalidRecipeShape);
                            },
                        }
                    },
                    _ => {
                        proof {
                            lemma_cross_left_err_prefix(ls@, right, i as int + 1);
                        }
                        return Err(LoadError::InvalidRecipeShape);
                    },
                }
                i = i + 1;
            }
            proof {
                assert(ls@.take(n as int) =~= ls@);
            }
            Ok(out)
        },
        _ => Err(LoadError::InvalidRecipeShape),
    }
}

impl Recipe {
    /// Builds the `Normal` recipe denoted by two textual identifier
    /// references, or reports the first malformed one.
    pub fn new(left: &str, right: &str) -> (r: Result<Self, LoadError>)
        ensures
            r == spec_recipe(left@, right@),
    {
        let l = match Id::parse(left) {
            Ok(l) => l,
            Err(e) => {
                return Err(e);
            },
        };
        let rt = match Id::parse(right) {
            Ok(rt) => rt,
            Err(e) => {
                return Err(e);
            },
        };
        Ok(Recipe::Normal(l, rt))
    }

    /// Expands one `recipe` configuration node into its flat list of
    /// recipes, or reports the first error in it.
    #[verifier::loop_isolation(false)]
    pub fn from_value(node: &ConfigValue) -> (r: Result<Vec<Recipe>, LoadError>)
        ensures
            expands_to(r, spec_expand(*node)),
        decreases *node,
    {
        match node {
            ConfigValue::Text(s) => {
                if str_eq(s.as_str(), "$starter") {
                    let mut out: Vec<Recipe> = Vec::new();
                    out.push(Recipe::Starter);
                    proof {
                        assert(out@ =~= seq![Recipe::Starter]);
                    }
                    Ok(out)
                } else {
                    Err(LoadError::InvalidRecipeShape)
                }
            },
            ConfigValue::List(vs) => {
                if all_elements_lists(vs) {
                    let n = vs.len();
                    let mut out: Vec<Recipe> = Vec::new();
                    let mut i: usize = 0;
                    proof {
                        assert(vs@.take(0) =~= Seq::<ConfigValue>::empty());
                    }
                    while i < n
                        invariant
                            0 <= i <= n,
                            spec_expand_all(vs@.take(i as int)) == Ok::<Seq<Recipe>, LoadError>(
                                out@,
                            ),
                        decreases n - i,
                    {
                        proof {
                            assert(vs@.take(i as int + 1).drop_last() =~= vs@.take(i as int));
                        }
                        match Self::from_value(&vs[i]) {
                            Ok(mut sub) => {
                                out.append(&mut sub);
                            },
                            Err(e) => {
                                proof {
                                    lemma_expand_all_err_prefix(vs@, i as int + 1);
                                }
                                return Err(e);
                            },
                        }
                        i = i + 1;
                    }
                    proof {
                        assert(vs@.take(n as int) =~= vs@);
                    }
                    Ok(out)
                } else {
                    expand_pair(vs)
                }
            },
            _ => Err(LoadError::InvalidRecipeShape),
        }
    }
}

} // verus!
