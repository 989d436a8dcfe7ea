//! The module's registration list: the fixed, enumerable set of entry-point
//! names registered under one namespace at load time. The list is built once,
//! read-only thereafter, and its exact contents and order are part of the
//! host-facing contract.

use vstd::prelude::*;

verus! {

/// The entry-point names, in registration order.
pub open spec fn registered_names() -> Seq<Seq<char>> {
    seq![
        "sum_as_string"@,
        "returns_text"@,
        "sum_numbers"@,
        "unsafe_with_nested_gil"@,
        "type_me"@,
        "any_function"@,
        "iterable"@,
        "from_generator"@,
    ]
}

/// A read-only registry of named entry points.
pub struct Registry {
    names: Vec<String>,
}

impl View for Registry {
    type V = Seq<Seq<char>>;

    closed spec fn view(&self) -> Seq<Seq<char>> {
        self.names@.map_values(|s: String| s@)
    }
}

impl Registry {
    /// Builds the registry holding exactly the registered entry-point names,
    /// in registration order.
    pub fn new() -> (r: Registry)
        ensures
            r@ == registered_names(),
    {
        let mut names: Vec<String> = Vec::new();
        names.push(String::from_str("sum_as_string"));
        names.push(String::from_str("returns_text"));
        names.push(String::from_str("sum_numbers"));
        names.push(String::from_str("unsafe_with_nested_gil"));
        names.push(String::from_str("type_me"));
        names.push(String::from_str("any_function"));
        names.push(String::from_str("iterable"));
        names.push(String::from_str("from_generator"));
        let r = Registry { names };
        proof {
            assert(r@ =~= registered_names());
        }
        r
    }

    /// How many entry points are registered.
    pub fn len(&self) -> (r: usize)
        ensures
            r == self@.len(),
    {
        self.names.len()
    }

    /// The name at a registration slot.
    pub fn name_at(&self, i: usize) -> (r: &String)
        requires
            i < self@.len(),
        ensures
            r@ == self@[i as int],
    {
        &self.names[i]
    }

    /// Looks a name up: the first slot registered under it, or `None` where
    /// no slot is.
    pub fn lookup(&self, name: &String) -> (r: Option<usize>)
        ensures
            r matches Some(i) ==> {
                &&& i < self@.len()
                &&& self@[i as int] == name@
                &&& forall|j: int| 0 <= j < i ==> self@[j] != name@
            },
            r is None ==> forall|j: int| 0 <= j < self@.len() ==> self@[j] != name@,
    {
        let mut i: usize = 0;
        while i < self.names.len()
            invariant
                0 <= i <= self@.len(),
                self@.len() == self.names@.len(),
                forall|j: int| 0 <= j < i ==> self@[j] != name@,
            decreases self@.len() - i,
        {
            if self.names[i] == *name {
                return Some(i);
            }
            i = i + 1;
        }
        None
    }
}

} // verus!
