//! Objects that hold other objects or lines of text.

use crate::interpretator::object::{Object, ObjectRef, ObjectValue};
use crate::interpretator::prototype::PrototypeRef;
use crate::text::{append, split_into_lines, split_lines, to_chars, to_text};
use vstd::prelude::*;

verus! {

/// The value of an array object: its elements in order.
pub struct ArrayValue {
    pub elements: Vec<ObjectRef>,
}

impl ArrayValue {
    /// An array of the given elements.
    pub fn new(elements: Vec<ObjectRef>) -> (r: Self)
        ensures
            r.elements == elements,
    {
        ArrayValue { elements }
    }
}

/// The first `n` objects in words, each but the first preceded by a comma
/// and a space.
pub open spec fn listed_objects(elements: Seq<ObjectRef>, n: int) -> Seq<char>
    decreases n,
{
    if n <= 0 || n > elements.len() {
        Seq::empty()
    } else if n == 1 {
        elements[0].text()
    } else {
        listed_objects(elements, n - 1) + ", "@ + elements[n - 1].text()
    }
}

impl ObjectValue for ArrayValue {
    /// The elements in words, between square brackets.
    open spec fn text(&self) -> Seq<char> {
        "["@ + listed_objects(self.elements@, self.elements@.len() as int) + "]"@
    }

    fn to_text(&self) -> (r: String) {
        let mut text = to_chars("[");
        let ghost head = text@;
        let mut k: usize = 0;
        while k < self.elements.len()
            invariant
                k <= self.elements.len(),
                text@ == head + listed_objects(self.elements@, k as int),
            decreases self.elements.len() - k,
        {
            let ghost before = text@;
            if k > 0 {
                append(&mut text, &to_chars(", "));
            }
            append(&mut text, &to_chars(self.elements[k].to_text().as_str()));
            proof {
                let listed = listed_objects(self.elements@, k as int);
                let word = self.elements@[k as int].text();
                if k == 0 {
                    assert(head + Seq::<char>::empty() + word == head + word);
                } else {
                    assert(head + listed + ", "@ + word == head + (listed + ", "@ + word));
                }
            }
            k += 1;
        }
        append(&mut text, &to_chars("]"));
        to_text(&text)
    }
}

/// Makes array objects.
pub struct Array;

impl Array {
    /// An object that holds the elements.
    pub fn new_instance(proto: PrototypeRef, elements: Vec<ObjectRef>) -> (r: ObjectRef)
        ensures
            r.prototype == proto,
            r.properties@.len() == 0,
            r.value is Some,
    {
        Object::new(proto, Some(Box::new(ArrayValue::new(elements))))
    }
}

/// The value of a dictionary object: the entries of its user, apart from
/// the properties of the object.
pub struct DictionaryValue {
    pub entries: Vec<(String, ObjectRef)>,
}

impl DictionaryValue {
    /// A dictionary of the given entries.
    pub fn new(entries: Vec<(String, ObjectRef)>) -> (r: Self)
        ensures
            r.entries == entries,
    {
        DictionaryValue { entries }
    }
}

/// An entry in words: its key in quotes, a colon and a space, and its
/// object.
pub open spec fn entry_text(entry: (String, ObjectRef)) -> Seq<char> {
    "\""@ + entry.0@ + "\": "@ + entry.1.text()
}

/// The first `n` entries in words, each but the first preceded by a comma
/// and a space.
pub open spec fn listed_entries(entries: Seq<(String, ObjectRef)>, n: int) -> Seq<char>
    decreases n,
{
    if n <= 0 || n > entries.len() {
        Seq::empty()
    } else if n == 1 {
        entry_text(entries[0])
    } else {
        listed_entries(entries, n - 1) + ", "@ + entry_text(entries[n - 1])
    }
}

impl ObjectValue for DictionaryValue {
    /// The entries in words, between braces.
    open spec fn text(&self) -> Seq<char> {
        "{"@ + listed_entries(self.entries@, self.entries@.len() as int) + "}"@
    }

    fn to_text(&self) -> (r: String) {
        let mut text = to_chars("{");
        let ghost head = text@;
        let mut k: usize = 0;
        while k < self.entries.len()
            invariant
                k <= self.entries.len(),
                text@ == head + listed_entries(self.entries@, k as int),
            decreases self.entries.len() - k,
        {
            if k > 0 {
                append(&mut text, &to_chars(", "));
            }
            let mut entry = to_chars("\"");
            append(&mut entry, &to_chars(self.entries[k].0.as_str()));
            append(&mut entry, &to_chars("\": "));
            append(&mut entry, &to_chars(self.entries[k].1.to_text().as_str()));
            assert(entry@ == entry_text(self.entries@[k as int]));
            append(&mut text, &entry);
            proof {
                let listed = listed_entries(self.entries@, k as int);
                if k == 0 {
                    assert(head + Seq::<char>::empty() + entry@ == head + entry@);
                } else {
                    assert(head + listed + ", "@ + entry@ == head + (listed + ", "@ + entry@));
                }
            }
            k += 1;
        }
        append(&mut text, &to_chars("}"));
        to_text(&text)
    }
}

/// Makes dictionary objects.
pub struct Dictionary;

impl Dictionary {
    /// An object that holds the entries.
    pub fn new_instance(proto: PrototypeRef, entries: Vec<(String, ObjectRef)>) -> (r: ObjectRef)
        ensures
            r.prototype == proto,
            r.properties@.len() == 0,
            r.value is Some,
    {
        Object::new(proto, Some(Box::new(DictionaryValue::new(entries))))
    }
}

/// What a list of lines is to a specification.
pub open spec fn lines_view(lines: Seq<String>) -> Seq<Seq<char>> {
    Seq::new(lines.len(), |i: int| lines[i]@)
}

/// The value of a text of several lines: the text, and its lines apart.
pub struct MultilineStringValue {
    pub content: String,
    pub lines: Vec<String>,
}

impl MultilineStringValue {
    /// The text with its lines.
    pub fn new(content: String) -> (r: Self)
        ensures
            r.content == content,
            lines_view(r.lines@) == split_lines(content@),
    {
        let rows = split_into_lines(&to_chars(content.as_str()));
        let mut lines: Vec<String> = Vec::new();
        let mut k: usize = 0;
        while k < rows.len()
            invariant
                k <= rows.len(),
                lines.len() == k,
                forall|i: int| 0 <= i < k ==> (#[trigger] lines[i])@ == rows[i]@,
            decreases rows.len() - k,
        {
            lines.push(to_text(&rows[k]));
            k += 1;
        }
        assert(lines_view(lines@) =~= split_lines(content@));
        MultilineStringValue { content, lines }
    }
}

impl ObjectValue for MultilineStringValue {
    open spec fn text(&self) -> Seq<char> {
        self.content@
    }

    fn to_text(&self) -> (r: String) {
        self.content.clone()
    }
}

/// Makes objects that hold a text of several lines.
pub struct MultilineString;

impl MultilineString {
    /// An object that holds the text.
    pub fn new_instance(proto: PrototypeRef, content: String) -> (r: ObjectRef)
        ensures
            r.prototype == proto,
            r.properties@.len() == 0,
            r.value is Some,
    {
        Object::new(proto, Some(Box::new(MultilineStringValue::new(content))))
    }
}

} // verus!
