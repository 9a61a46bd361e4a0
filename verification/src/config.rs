//! The configuration tree that the engine consumes.
//!
//! The surface syntax of the configuration document is not the engine's
//! business: whatever format the surrounding program reads, it hands the
//! engine a tree of strings, lists and ordered tables. Nodes of any other
//! primitive kind appear as [`ConfigValue::Other`]; the engine treats them as
//! "neither a string nor an array", exactly as it treats them in a recipe or
//! class position.

use vstd::prelude::*;

verus! {

/// One node of the configuration tree: a string, an array, a table of named
/// entries in declaration order, or a value of some other primitive kind.
#[derive(Debug)]
pub enum ConfigValue {
    Text(String),
    List(Vec<ConfigValue>),
    Table(Vec<(String, ConfigValue)>),
    Other,
}

/// The value of the first entry named `key`, if any.
pub open spec fn table_get(entries: Seq<(String, ConfigValue)>, key: Seq<char>) -> Option<
    ConfigValue,
>
    decreases entries.len(),
{
    if entries.len() == 0 {
        None
    } else if entries[0].0@ == key {
        Some(entries[0].1)
    } else {
        table_get(entries.skip(1), key)
    }
}

impl ConfigValue {
    /// The value under `key` when `self` is a table; `None` on every other
    /// kind of node, as a lookup on a non-table finds nothing.
    pub open spec fn spec_get(self, key: Seq<char>) -> Option<ConfigValue> {
        match self {
            ConfigValue::Table(entries) => table_get(entries@, key),
            _ => None,
        }
    }

    /// Looks `key` up in a table node: the first entry with that exact name.
    pub fn get<'a>(&'a self, key: &str) -> (r: Option<&'a ConfigValue>)
        ensures
            match r {
                Some(v) => self.spec_get(key@) == Some(*v),
                None => self.spec_get(key@) is None,
            },
    {
        match self {
            ConfigValue::Table(entries) => {
                let n = entries.len();
                let mut i: usize = 0;
                proof {
                    assert(entries@.skip(0) =~= entries@);
                }
                while i < n
                    invariant
                        n == entries@.len(),
                        0 <= i <= n,
                        self.spec_get(key@) == table_get(entries@, key@),
                        table_get(entries@, key@) == table_get(entries@.skip(i as int), key@),
                    decreases n - i,
                {
                    proof {
                        assert(entries@.skip(i as int)[0] == entries@[i as int]);
                        assert(entries@.skip(i as int).skip(1) =~= entries@.skip(i as int + 1));
                    }
                    if str_eq(entries[i].0.as_str(), key) {
                        proof {
                            assert(table_get(entries@.skip(i as int), key@) == Some(
                                entries@[i as int].1,
                            ));
                        }
                        let found: &ConfigValue = &entries[i].1;
                        assert(*found == entries@[i as int].1);
                        return Some(found);
                    }
                    i = i + 1;
                }
                proof {
                    assert(entries@.skip(n as int) =~= Seq::<(String, ConfigValue)>::empty());
                }
                None
            },
            _ => None,
        }
    }
}

/// Character-for-character string equality, stated over the views.
pub fn str_eq(a: &str, b: &str) -> (r: bool)
    ensures
        r == (a@ == b@),
{
    let alen = a.unicode_len();
    let blen = b.unicode_len();
    if alen != blen {
        return false;
    }
    let mut i: usize = 0;
    while i < alen
        invariant
            alen == a@.len(),
            blen == b@.len(),
            alen == blen,
            0 <= i <= alen,
            forall|j: int| 0 <= j < i ==> a@[j] == b@[j],
        decreases alen - i,
    {
        if a.get_char(i) != b.get_char(i) {
            return false;
        }
        i = i + 1;
    }
    proof {
        assert(a@ =~= b@);
    }
    true
}

} // verus!
