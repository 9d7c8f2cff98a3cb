//! Objects.

use crate::assoc::{inserted, lookup};
use crate::interpretator::prototype::{find_slot, slot_position, slots_view, PrototypeRef};
use crate::numeral::{integer_digits, integer_text};
use crate::text::{append, to_chars, to_text};
use std::rc::Rc;
use vstd::prelude::*;

verus! {

/// A shared object.
pub type ObjectRef = Rc<Object>;

/// What an object can hold besides its properties.
pub trait ObjectValue {
    /// What the value reads as.
    spec fn text(&self) -> Seq<char>;

    /// The value in words.
    fn to_text(&self) -> (r: String)
        ensures
            r@ == self.text(),
    ;
}

/// An object: a prototype, properties of its own, and a value or none.
pub struct Object {
    /// The prototype that the object inherits from.
    pub prototype: PrototypeRef,
    /// The properties of the object itself. Of two entries with one key the
    /// first counts.
    pub properties: Vec<(String, ObjectRef)>,
    /// What the object holds.
    pub value: Option<Box<dyn ObjectValue>>,
}

impl Object {
    /// The property that the object gives to `key`: its own, or else the
    /// one that its prototype gives.
    pub open spec fn property(&self, key: Seq<char>) -> Option<ObjectRef> {
        match lookup(slots_view(self.properties@), key) {
            Some(found) => Some(found),
            None => self.prototype.inherited(key),
        }
    }

    /// An object without properties of its own.
    pub fn new(prototype: PrototypeRef, value: Option<Box<dyn ObjectValue>>) -> (r: ObjectRef)
        ensures
            r.prototype == prototype,
            r.properties@.len() == 0,
            r.value == value,
    {
        Rc::new(Object { prototype, properties: Vec::new(), value })
    }

    /// The property under `key`: the object's own, or else the one found up
    /// the chain of prototypes.
    pub fn get(&self, key: &str) -> (r: Option<ObjectRef>)
        ensures
            r == self.property(key@),
    {
        if let Some(found) = find_slot(&self.properties, key) {
            return Some(found);
        }
        self.prototype.lookup(key)
    }

    /// Gives the object a property of its own under `key`, in the place of
    /// the first one that it had there.
    pub fn set(&mut self, key: &str, value: ObjectRef)
        ensures
            slots_view(final(self).properties@) == inserted(
                slots_view(old(self).properties@),
                key@,
                value,
            ),
            final(self).prototype == old(self).prototype,
            final(self).value == old(self).value,
            final(self).property(key@) == Some(value),
    {
        let ghost before = slots_view(self.properties@);
        let k = slot_position(&self.properties, key);
        proof {
            crate::assoc::lemma_lookup_inserted(before, key@, value, key@);
        }
        if k < self.properties.len() {
            self.properties.set(k, (key.to_owned(), value));
        } else {
            self.properties.push((key.to_owned(), value));
        }
        assert(slots_view(self.properties@) =~= inserted(before, key@, value));
    }

    /// What the object reads as: what its value reads as, or else what it
    /// is an instance of.
    pub open spec fn text(&self) -> Seq<char> {
        match self.value {
            Some(value) => value.text(),
            None => "<"@ + self.prototype.name@ + " instance>"@,
        }
    }

    /// The object in words: its value in the words of the value, or else
    /// what it is an instance of.
    pub fn to_text(&self) -> (r: String)
        ensures
            r@ == self.text(),
    {
        match &self.value {
            Some(value) => value.to_text(),
            None => {
                let mut text = to_chars("<");
                append(&mut text, &to_chars(self.prototype.name.as_str()));
                append(&mut text, &to_chars(" instance>"));
                to_text(&text)
            },
        }
    }
}

/// A whole number as the value of an object.
#[derive(Debug, Clone, Copy)]
pub struct IntegerValue(pub i64);

impl ObjectValue for IntegerValue {
    open spec fn text(&self) -> Seq<char> {
        integer_digits(self.0 as int)
    }

    fn to_text(&self) -> (r: String) {
        integer_text(self.0)
    }
}

} // verus!
