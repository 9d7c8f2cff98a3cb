//! Prototypes and their chain of parents.

use crate::assoc::{index_of_key, lookup};
use crate::interpretator::object::ObjectRef;
use std::rc::Rc;
use vstd::prelude::*;

verus! {

/// A shared prototype.
pub type PrototypeRef = Rc<Prototype>;

/// A named set of properties, with an optional parent to inherit from.
pub struct Prototype {
    pub name: String,
    /// The prototype whose properties this one inherits.
    pub parent: Option<PrototypeRef>,
    /// The properties of the prototype itself. Of two entries with one key
    /// the first counts.
    pub properties: Vec<(String, ObjectRef)>,
}

/// What a list of properties is to a specification.
pub open spec fn slots_view(slots: Seq<(String, ObjectRef)>) -> Seq<(Seq<char>, ObjectRef)> {
    Seq::new(slots.len(), |i: int| (slots[i].0@, slots[i].1))
}

/// `Rc::clone` makes another pointer to the same value.
#[verifier::external_body]
pub(crate) fn share<T>(rc: &Rc<T>) -> (r: Rc<T>)
    ensures
        r == *rc,
{
    Rc::clone(rc)
}

/// The index of the first property with the given key, or the number of
/// properties.
pub fn slot_position(slots: &Vec<(String, ObjectRef)>, key: &str) -> (r: usize)
    ensures
        r == index_of_key(slots_view(slots@), key@, 0),
        r <= slots.len(),
{
    let wanted = key.to_owned();
    let mut k: usize = 0;
    while k < slots.len()
        invariant
            k <= slots.len(),
            wanted@ == key@,
            index_of_key(slots_view(slots@), key@, k as int) == index_of_key(
                slots_view(slots@),
                key@,
                0,
            ),
        decreases slots.len() - k,
    {
        if slots[k].0 == wanted {
            return k;
        }
        k += 1;
    }
    k
}

/// The first property with the given key.
pub fn find_slot(slots: &Vec<(String, ObjectRef)>, key: &str) -> (r: Option<ObjectRef>)
    ensures
        r == lookup(slots_view(slots@), key@),
{
    let k = slot_position(slots, key);
    if k < slots.len() {
        Some(share(&slots[k].1))
    } else {
        None
    }
}

impl Prototype {
    /// The property that the prototype gives to `key`: its own, or else the
    /// one that its parent gives.
    pub open spec fn inherited(&self, key: Seq<char>) -> Option<ObjectRef>
        decreases self,
    {
        match lookup(slots_view(self.properties@), key) {
            Some(found) => Some(found),
            None => match self.parent {
                Some(parent) => parent.inherited(key),
                None => None,
            },
        }
    }

    /// A prototype without properties.
    pub fn new(name: &str, parent: Option<PrototypeRef>) -> (r: PrototypeRef)
        ensures
            r.name@ == name@,
            r.parent == parent,
            r.properties@.len() == 0,
    {
        Rc::new(Prototype { name: name.to_owned(), parent, properties: Vec::new() })
    }

    /// The property that the prototype gives to `key`, looked for up the
    /// chain of parents.
    pub fn lookup(&self, key: &str) -> (r: Option<ObjectRef>)
        ensures
            r == self.inherited(key@),
        decreases self,
    {
        if let Some(found) = find_slot(&self.properties, key) {
            return Some(found);
        }
        if let Some(parent) = &self.parent {
            return parent.lookup(key);
        }
        None
    }
}

} // verus!
