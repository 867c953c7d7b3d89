//! Lookup table from application class to display name.

use vstd::hash_map::StringHashMap;
use vstd::prelude::*;

verus! {

/// Display names keyed by application class (`app_class` → `display_name`).
pub struct NameTable {
    map: StringHashMap<String>,
}

impl View for NameTable {
    type V = Map<Seq<char>, Seq<char>>;

    closed spec fn view(&self) -> Map<Seq<char>, Seq<char>> {
        self.map@.map_values(|v: String| v@)
    }
}

impl NameTable {
    /// An empty table.
    pub fn new() -> (r: NameTable)
        ensures
            r@ == Map::<Seq<char>, Seq<char>>::empty(),
    {
        let r = NameTable { map: StringHashMap::new() };
        assert(r@ =~= Map::<Seq<char>, Seq<char>>::empty());
        r
    }

    /// Sets the display name of `app_class`, replacing an earlier one.
    pub fn insert(&mut self, app_class: String, display_name: String)
        ensures
            final(self)@ == old(self)@.insert(app_class@, display_name@),
    {
        self.map.insert(app_class, display_name);
        assert(self@ =~= old(self)@.insert(app_class@, display_name@));
    }

    /// The display name recorded for `app_class`, if any.
    pub fn get(&self, app_class: &str) -> (r: Option<&String>)
        ensures
            match r {
                Some(v) => self@.contains_key(app_class@) && v@ == self@[app_class@],
                None => !self@.contains_key(app_class@),
            },
    {
        self.map.get(app_class)
    }
}

} // verus!
