//! Tables from symbol names to absolute addresses.

use vstd::prelude::*;
use vstd::hash_map::StringHashMap;

verus! {

/// A mapping from symbol names to absolute addresses. Inserting a name that is
/// already present replaces its address.
pub struct SymbolTable {
    map: StringHashMap<u32>,
}

impl View for SymbolTable {
    type V = Map<Seq<char>, u32>;

    closed spec fn view(&self) -> Map<Seq<char>, u32> {
        self.map@
    }
}

impl SymbolTable {
    /// An empty table.
    pub fn new() -> (r: SymbolTable)
        ensures
            r@ == Map::<Seq<char>, u32>::empty(),
    {
        SymbolTable { map: StringHashMap::new() }
    }

    /// Binds `name` to `address`, replacing an earlier binding of `name`.
    pub fn insert(&mut self, name: &str, address: u32)
        ensures
            final(self)@ == old(self)@.insert(name@, address),
    {
        self.map.insert(name.to_owned(), address);
    }

    /// The address bound to `name`, if any.
    pub fn get(&self, name: &str) -> (r: Option<u32>)
        ensures
            r == (if self@.contains_key(name@) {
                Some(self@[name@])
            } else {
                None::<u32>
            }),
    {
        match self.map.get(name) {
            Some(a) => Some(*a),
            None => None,
        }
    }

    /// Whether `name` is bound.
    pub fn contains(&self, name: &str) -> (r: bool)
        ensures
            r == self@.contains_key(name@),
    {
        self.map.contains_key(name)
    }

    /// The number of bound names.
    pub fn len(&self) -> (r: usize)
        ensures
            r == self@.len(),
    {
        self.map.len()
    }
}

} // verus!
