//! The scaffold dictionary: reference sequence names and their numeric ids,
//! as listed in an alignment file's header.

use vstd::prelude::*;

verus! {

/// Reference names in header order; the id of a name is its index.
pub struct ScaffoldDict {
    names: Vec<String>,
}

/// The id of `name` in `names`: the first index that holds it.
pub open spec fn first_index_of(names: Seq<Seq<char>>, name: Seq<char>) -> Option<nat> {
    if exists|i: int| 0 <= i < names.len() && names[i] == name {
        let i = choose|i: int|
            0 <= i < names.len() && names[i] == name && forall|j: int| 0 <= j < i ==> names[j] != name;
        Some(i as nat)
    } else {
        None
    }
}

impl ScaffoldDict {
    pub closed spec fn names_spec(&self) -> Seq<Seq<char>> {
        self.names@.map_values(|s: String| s@)
    }

    /// A dictionary of the names in header order.
    pub fn new(names: Vec<String>) -> (r: ScaffoldDict)
        ensures
            r.names_spec() == names@.map_values(|s: String| s@),
    {
        ScaffoldDict { names }
    }

    pub fn len(&self) -> (r: usize)
        ensures
            r == self.names_spec().len(),
    {
        self.names.len()
    }

    /// The name of reference `id`, if there is one.
    pub fn id_to_str(&self, id: usize) -> (r: Option<String>)
        ensures
            match r {
                Some(s) => id < self.names_spec().len() && s@ == self.names_spec()[id as int],
                None => id >= self.names_spec().len(),
            },
    {
        if id < self.names.len() {
            Some(self.names[id].clone())
        } else {
            None
        }
    }

    /// The id of the reference named `name`, if the header lists it.
    pub fn str_to_id(&self, name: &String) -> (r: Option<usize>)
        ensures
            match r {
                Some(i) => first_index_of(self.names_spec(), name@) == Some(i as nat),
                None => first_index_of(self.names_spec(), name@) is None,
            },
    {
        let ghost ns = self.names_spec();
        let mut i: usize = 0;
        while i < self.names.len()
            invariant
                i <= self.names@.len(),
                ns == self.names_spec(),
                ns.len() == self.names@.len(),
                forall|j: int| 0 <= j < i ==> ns[j] != name@,
            decreases self.names@.len() - i,
        {
            if self.names[i] == *name {
                assert(ns[i as int] == name@);
                let ghost k = choose|k: int|
                    0 <= k < ns.len() && ns[k] == name@ && forall|j: int| 0 <= j < k ==> ns[j] != name@;
                assert(k == i as int) by {
                    if k < i as int {
                    } else if k > i as int {
                        assert(ns[i as int] != name@);
                    }
                }
                return Some(i);
            }
            i += 1;
        }
        None
    }
}

} // verus!
