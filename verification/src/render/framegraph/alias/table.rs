//! A table of values by image alias.

use std::collections::HashMap;

use crate::render::framegraph::graph::ImageAlias;
use vstd::prelude::*;
use vstd::std_specs::hash::*;

verus! {

/// A map from image aliases to values: a hash map in which each alias is
/// found by its position among the aliases.
#[derive(Debug)]
pub struct AliasTable<T> {
    places: HashMap<usize, T>,
}

impl<T> View for AliasTable<T> {
    type V = Map<ImageAlias, T>;

    closed spec fn view(&self) -> Map<ImageAlias, T> {
        Map::new(
            |alias: ImageAlias| self.places@.contains_key(alias.spec_index()),
            |alias: ImageAlias| self.places@[alias.spec_index()],
        )
    }
}

impl<T> AliasTable<T> {
    /// A table that holds nothing.
    pub fn new() -> (table: Self)
        ensures
            table@ == Map::<ImageAlias, T>::empty(),
    {
        broadcast use group_hash_axioms;

        let table = AliasTable { places: HashMap::new() };
        assert(table@ =~= Map::<ImageAlias, T>::empty());
        table
    }

    /// The value held for `alias`, if any.
    pub fn get(&self, alias: ImageAlias) -> (value: Option<&T>)
        ensures
            match value {
                Some(v) => self@.contains_key(alias) && *v == self@[alias],
                None => !self@.contains_key(alias),
            },
    {
        broadcast use group_hash_axioms;

        let place = alias.index();
        self.places.get(&place)
    }

    /// Whether a value is held for `alias`.
    pub fn contains_key(&self, alias: ImageAlias) -> (found: bool)
        ensures
            found == self@.contains_key(alias),
    {
        self.get(alias).is_some()
    }

    /// Holds `value` for `alias` from now on, in place of any earlier value.
    pub fn insert(&mut self, alias: ImageAlias, value: T)
        ensures
            final(self)@ == old(self)@.insert(alias, value),
    {
        broadcast use group_hash_axioms;

        let place = alias.index();
        self.places.insert(place, value);
        proof {
            assert forall|other: ImageAlias| other != alias implies other.spec_index()
                != alias.spec_index() by {}
            assert(final(self)@ =~= old(self)@.insert(alias, value));
        }
    }
}

} // verus!
