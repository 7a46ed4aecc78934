//! The registry format of the network protocol, used most notably at login:
//! a type name and a list of named elements, each numbered by its place.
use vstd::prelude::*;

verus! {

/// One element of a registry, with its name and number.
#[derive(Clone, Debug)]
pub struct NBTMapEntry<T> {
    name: String,
    id: i32,
    element: T,
}

/// A registry of elements of type `T`.
#[derive(Clone, Debug)]
pub struct NBTMap<T> {
    self_type: String,
    value: Vec<NBTMapEntry<T>>,
}

impl<T> NBTMap<T> {
    /// The registry's type name.
    pub closed spec fn spec_type(&self) -> Seq<char> {
        self.self_type@
    }

    /// The entries in order: name, number and element.
    pub closed spec fn spec_entries(&self) -> Seq<(Seq<char>, i32, T)> {
        self.value@.map_values(|e: NBTMapEntry<T>| (e.name@, e.id, e.element))
    }

    /// Every entry is numbered by its place.
    pub open spec fn numbered_in_order(&self) -> bool {
        forall|i: int| 0 <= i < self.spec_entries().len() ==> #[trigger] self.spec_entries()[i].1 == i
    }

    /// An empty registry of type `self_type`.
    pub fn new(self_type: String) -> (m: Self)
        ensures
            m.spec_type() == self_type@,
            m.spec_entries() == Seq::<(Seq<char>, i32, T)>::empty(),
            m.numbered_in_order(),
    {
        let m = NBTMap { self_type, value: Vec::new() };
        assert(m.spec_entries() =~= Seq::<(Seq<char>, i32, T)>::empty());
        m
    }

    /// Appends `element` under `name`, numbered by the count of entries
    /// before it.
    pub fn push_element(&mut self, name: String, element: T)
        ensures
            final(self).spec_type() == old(self).spec_type(),
            final(self).spec_entries() == old(self).spec_entries().push(
                (name@, old(self).spec_entries().len() as i32, element),
            ),
            old(self).numbered_in_order() && old(self).spec_entries().len() < i32::MAX
                ==> final(self).numbered_in_order(),
    {
        let id = self.value.len() as i32;
        let ghost before = self.spec_entries();
        self.value.push(NBTMapEntry { id, name, element });
        proof {
            assert(self.spec_entries() =~= before.push((name@, id, element)));
        }
    }

    /// How many entries the registry holds.
    pub fn len(&self) -> (n: usize)
        ensures
            n == self.spec_entries().len(),
    {
        self.value.len()
    }

    /// The registry's type name.
    pub fn self_type(&self) -> (t: &str)
        ensures
            t@ == self.spec_type(),
    {
        self.self_type.as_str()
    }

    /// The name and number of entry `i`.
    pub fn entry(&self, i: usize) -> (r: (&str, i32))
        requires
            i < self.spec_entries().len(),
        ensures
            r.0@ == self.spec_entries()[i as int].0,
            r.1 == self.spec_entries()[i as int].1,
    {
        let e = &self.value[i];
        (e.name.as_str(), e.id)
    }
}

} // verus!
