//! The canonical color model: a mapping from slot names to hex color values that
//! every reader fills and every writer reads.

use vstd::hash_map::StringHashMap;
use vstd::prelude::*;

verus! {

/// A color scheme, independent of any terminal's own syntax.
///
/// Its view is a map from slot name to hex value. Slot names are unique: storing
/// under a name that is already present replaces the value. Neither names nor
/// values are validated.
pub struct Base16Colors {
    slots: StringHashMap<String>,
}

impl View for Base16Colors {
    type V = Map<Seq<char>, Seq<char>>;

    closed spec fn view(&self) -> Map<Seq<char>, Seq<char>> {
        self.slots@.map_values(|v: String| v@)
    }
}

impl Base16Colors {
    /// A model without any slot.
    pub fn new() -> (r: Self)
        ensures
            r@ == Map::<Seq<char>, Seq<char>>::empty(),
    {
        let r = Base16Colors { slots: StringHashMap::new() };
        assert(r@ =~= Map::<Seq<char>, Seq<char>>::empty());
        r
    }

    /// Stores `value` under `key`, replacing what was there.
    pub fn insert(&mut self, key: String, value: String)
        ensures
            final(self)@ == old(self)@.insert(key@, value@),
    {
        self.slots.insert(key, value);
        assert(self@ =~= old(self)@.insert(key@, value@));
    }

    /// The value stored under `key`, if any.
    pub fn get(&self, key: &str) -> (r: Option<&String>)
        ensures
            match r {
                Some(v) => self@.contains_key(key@) && v@ == self@[key@],
                None => !self@.contains_key(key@),
            },
    {
        self.slots.get(key)
    }

    /// Whether a value is stored under `key`.
    pub fn contains_key(&self, key: &str) -> (r: bool)
        ensures
            r == self@.contains_key(key@),
    {
        self.slots.contains_key(key)
    }

    /// The number of slots.
    pub fn len(&self) -> (r: usize)
        ensures
            r == self@.len(),
    {
        assert(self@.dom() =~= self.slots@.dom());
        self.slots.len()
    }

    /// Whether the model has no slot.
    pub fn is_empty(&self) -> (r: bool)
        ensures
            r == (self@ == Map::<Seq<char>, Seq<char>>::empty()),
    {
        let r = self.slots.is_empty();
        proof {
            if r {
                assert(self@ =~= Map::<Seq<char>, Seq<char>>::empty());
            } else {
                assert(self@.dom() =~= self.slots@.dom());
            }
        }
        r
    }
}

} // verus!
