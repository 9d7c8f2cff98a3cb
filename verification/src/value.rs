//! The values of the language.
//!
//! A value is one of a closed set of kinds. A number with a fraction, and
//! the number of a scalar with a unit, is a [`Numeral`]: the text of a
//! floating-point literal. An object is a [`Dictionary`]: its entries in the
//! order in which their keys first arrived, every key once.

use crate::assoc::{index_of_key, inserted, keys_distinct, lookup, merged, merged_first};
use crate::numeral::Numeral;
use crate::units::{AngleUnit, DataSizeUnit, FrequencyUnit, LengthUnit, TimeUnit};
use vstd::prelude::*;

verus! {

/// A value of the language.
#[derive(Debug, PartialEq)]
pub enum LaCoNValue {
    /// A signed 64-bit integer.
    Int(i64),
    /// A number with a fraction or an exponent, an infinity or a not-a-number.
    Float(Numeral),
    Bool(bool),
    Array(Vec<LaCoNValue>),
    Dictionary(Dictionary),
    Length(Numeral, LengthUnit),
    Angle(Numeral, AngleUnit),
    Time(Numeral, TimeUnit),
    DataSize(Numeral, DataSizeUnit),
    Frequency(Numeral, FrequencyUnit),
    Percentage(Numeral),
    Fraction(Numeral),
    /// The keyword `auto`.
    Auto,
    /// The keyword `none`.
    Nothing,
    /// A text that was written in quotes and is never read as a scalar.
    StringLiteral(String),
    /// A text.
    String(String),
}

/// An object: keys with their values, in the order in which the keys first
/// arrived.
#[derive(Debug, PartialEq)]
pub struct Dictionary {
    entries: Vec<(String, LaCoNValue)>,
}

/// What a value is to a specification.
pub enum ValueView {
    Int(i64),
    Float(Seq<char>),
    Bool(bool),
    Array(Seq<ValueView>),
    Dictionary(Seq<(Seq<char>, ValueView)>),
    Length(Seq<char>, LengthUnit),
    Angle(Seq<char>, AngleUnit),
    Time(Seq<char>, TimeUnit),
    DataSize(Seq<char>, DataSizeUnit),
    Frequency(Seq<char>, FrequencyUnit),
    Percentage(Seq<char>),
    Fraction(Seq<char>),
    Auto,
    Nothing,
    StringLiteral(Seq<char>),
    String(Seq<char>),
}

impl View for LaCoNValue {
    type V = ValueView;

    open spec fn view(&self) -> ValueView
        decreases self,
    {
        match self {
            LaCoNValue::Int(i) => ValueView::Int(*i),
            LaCoNValue::Float(n) => ValueView::Float(n@),
            LaCoNValue::Bool(b) => ValueView::Bool(*b),
            LaCoNValue::Array(items) => ValueView::Array(items_view(items@)),
            LaCoNValue::Dictionary(d) => ValueView::Dictionary(d@),
            LaCoNValue::Length(n, u) => ValueView::Length(n@, *u),
            LaCoNValue::Angle(n, u) => ValueView::Angle(n@, *u),
            LaCoNValue::Time(n, u) => ValueView::Time(n@, *u),
            LaCoNValue::DataSize(n, u) => ValueView::DataSize(n@, *u),
            LaCoNValue::Frequency(n, u) => ValueView::Frequency(n@, *u),
            LaCoNValue::Percentage(n) => ValueView::Percentage(n@),
            LaCoNValue::Fraction(n) => ValueView::Fraction(n@),
            LaCoNValue::Auto => ValueView::Auto,
            LaCoNValue::Nothing => ValueView::Nothing,
            LaCoNValue::StringLiteral(s) => ValueView::StringLiteral(s@),
            LaCoNValue::String(s) => ValueView::String(s@),
        }
    }
}

impl View for Dictionary {
    type V = Seq<(Seq<char>, ValueView)>;

    closed spec fn view(&self) -> Seq<(Seq<char>, ValueView)>
        decreases self,
    {
        entries_view(self.entries@)
    }
}

/// What a list of values is to a specification.
pub open spec fn items_view(items: Seq<LaCoNValue>) -> Seq<ValueView>
    decreases items,
{
    Seq::new(
        items.len(),
        |i: int|
            if 0 <= i < items.len() {
                items[i]@
            } else {
                ValueView::Nothing
            },
    )
}

/// What a list of entries is to a specification.
pub open spec fn entries_view(entries: Seq<(String, LaCoNValue)>) -> Seq<(Seq<char>, ValueView)>
    decreases entries,
{
    Seq::new(
        entries.len(),
        |i: int|
            if 0 <= i < entries.len() {
                (entries[i].0@, entries[i].1@)
            } else {
                (Seq::empty(), ValueView::Nothing)
            },
    )
}

/// What an optional value is to a specification.
pub open spec fn option_view(v: Option<LaCoNValue>) -> Option<ValueView> {
    match v {
        Some(v) => Some(v@),
        None => None,
    }
}

impl LaCoNValue {
    /// The text, if the value is a plain text.
    pub fn as_string(&self) -> (r: Option<&str>)
        ensures
            match r {
                Some(s) => self@ == ValueView::String(s@),
                None => !(self@ is String),
            },
    {
        match self {
            LaCoNValue::String(s) => Some(s.as_str()),
            _ => None,
        }
    }

    /// The integer, if the value is one.
    pub fn as_int(&self) -> (r: Option<i64>)
        ensures
            match r {
                Some(i) => self@ == ValueView::Int(i),
                None => !(self@ is Int),
            },
    {
        match self {
            LaCoNValue::Int(i) => Some(*i),
            _ => None,
        }
    }

    /// The numeral, if the value is a number with a fraction.
    pub fn as_float(&self) -> (r: Option<&Numeral>)
        ensures
            match r {
                Some(n) => self@ == ValueView::Float(n@),
                None => !(self@ is Float),
            },
    {
        match self {
            LaCoNValue::Float(n) => Some(n),
            _ => None,
        }
    }

    /// The truth value, if the value is one.
    pub fn as_bool(&self) -> (r: Option<bool>)
        ensures
            match r {
                Some(b) => self@ == ValueView::Bool(b),
                None => !(self@ is Bool),
            },
    {
        match self {
            LaCoNValue::Bool(b) => Some(*b),
            _ => None,
        }
    }

    /// The items, if the value is an array.
    pub fn as_array(&self) -> (r: Option<&Vec<LaCoNValue>>)
        ensures
            match r {
                Some(items) => *self == LaCoNValue::Array(*items),
                None => !(self@ is Array),
            },
    {
        match self {
            LaCoNValue::Array(items) => Some(items),
            _ => None,
        }
    }

    /// The object, if the value is one.
    pub fn as_dict(&self) -> (r: Option<&Dictionary>)
        ensures
            match r {
                Some(d) => self@ == ValueView::Dictionary(d@),
                None => !(self@ is Dictionary),
            },
    {
        match self {
            LaCoNValue::Dictionary(d) => Some(d),
            _ => None,
        }
    }

    /// Whether the value is the keyword `auto`.
    pub fn is_auto(&self) -> (r: bool)
        ensures
            r == (self@ is Auto),
    {
        match self {
            LaCoNValue::Auto => true,
            _ => false,
        }
    }

    /// Whether the value is the keyword `none`.
    pub fn is_none(&self) -> (r: bool)
        ensures
            r == (self@ is Nothing),
    {
        match self {
            LaCoNValue::Nothing => true,
            _ => false,
        }
    }

    /// The text under `key`, if the value is an object that holds a plain
    /// text there.
    pub fn get_string(&self, key: &str) -> (r: Option<&str>)
        ensures
            match r {
                Some(s) => self@ is Dictionary && lookup(self@->Dictionary_0, key@) == Some(
                    ValueView::String(s@),
                ),
                None => !(self@ is Dictionary && lookup(self@->Dictionary_0, key@) is Some
                    && lookup(self@->Dictionary_0, key@)->0 is String),
            },
    {
        match self {
            LaCoNValue::Dictionary(d) => match d.get(key) {
                Some(v) => v.as_string(),
                None => None,
            },
            _ => None,
        }
    }
}

impl Dictionary {
    #[verifier::type_invariant]
    spec fn well_formed(&self) -> bool {
        keys_distinct(self@)
    }

    /// An object without entries.
    pub fn new() -> (r: Dictionary)
        ensures
            r@ == Seq::<(Seq<char>, ValueView)>::empty(),
    {
        let entries: Vec<(String, LaCoNValue)> = Vec::new();
        assert(entries_view(entries@) =~= Seq::<(Seq<char>, ValueView)>::empty());
        Dictionary { entries }
    }

    /// The number of entries.
    pub fn len(&self) -> (r: usize)
        ensures
            r == self@.len(),
            keys_distinct(self@),
    {
        proof {
            use_type_invariant(self);
        }
        self.entries.len()
    }

    /// Whether the object has no entries.
    pub fn is_empty(&self) -> (r: bool)
        ensures
            r == (self@.len() == 0),
    {
        self.entries.len() == 0
    }

    /// The key of entry `i`.
    pub fn key_at(&self, i: usize) -> (r: &str)
        requires
            i < self@.len(),
        ensures
            r@ == self@[i as int].0,
    {
        self.entries[i].0.as_str()
    }

    /// The value of entry `i`.
    pub fn value_at(&self, i: usize) -> (r: &LaCoNValue)
        requires
            i < self@.len(),
        ensures
            r@ == self@[i as int].1,
    {
        &self.entries[i].1
    }

    /// The index of the entry with the given key, or the number of entries.
    fn position(&self, key: &str) -> (r: usize)
        ensures
            r == index_of_key(self@, key@, 0),
            r <= self@.len(),
    {
        let wanted = key.to_owned();
        let mut k: usize = 0;
        while k < self.entries.len()
            invariant
                k <= self.entries.len(),
                wanted@ == key@,
                index_of_key(self@, key@, k as int) == index_of_key(self@, key@, 0),
            decreases self.entries.len() - k,
        {
            if self.entries[k].0 == wanted {
                return k;
            }
            k += 1;
        }
        k
    }

    /// Whether the object holds the key.
    pub fn contains_key(&self, key: &str) -> (r: bool)
        ensures
            r == (lookup(self@, key@) is Some),
    {
        self.position(key) < self.entries.len()
    }

    /// The value under `key`.
    pub fn get(&self, key: &str) -> (r: Option<&LaCoNValue>)
        ensures
            match r {
                Some(v) => lookup(self@, key@) == Some(v@),
                None => lookup(self@, key@) is None,
            },
    {
        let i = self.position(key);
        if i < self.entries.len() {
            Some(&self.entries[i].1)
        } else {
            None
        }
    }

    /// Stores `value` under `key`: in the place of the key's earlier value,
    /// or as the last entry.
    pub fn insert(&mut self, key: String, value: LaCoNValue)
        ensures
            final(self)@ == inserted(old(self)@, key@, value@),
    {
        proof {
            use_type_invariant(&*self);
            crate::assoc::lemma_inserted_keeps_keys_distinct(self@, key@, value@);
        }
        let i = self.position(key.as_str());
        let ghost before = self@;
        let mut entries: Vec<(String, LaCoNValue)> = Vec::new();
        assert(entries_view(entries@) =~= Seq::<(Seq<char>, ValueView)>::empty());
        std::mem::swap(&mut entries, &mut self.entries);
        assert(entries_view(entries@) == before);
        let ghost after = inserted(before, key@, value@);
        if i < entries.len() {
            assert(entries_view(entries@.update(i as int, (key, value))) =~= after);
            entries.set(i, (key, value));
        } else {
            assert(entries_view(entries@.push((key, value))) =~= after);
            entries.push((key, value));
        }
        self.entries = entries;
    }

    /// Stores every entry of `other`, in their order: a key that both hold
    /// keeps its place and takes the value of `other`.
    pub fn merge(&mut self, other: Dictionary)
        ensures
            final(self)@ == merged(old(self)@, other@),
    {
        let ghost incoming = other@;
        let mut rest = other.entries;
        let total = rest.len();
        let mut n: usize = 0;
        while n < total
            invariant
                n <= total,
                total == incoming.len(),
                rest.len() == total - n,
                self@ == merged_first(old(self)@, incoming, n as int),
                forall|k: int|
                    0 <= k < rest.len() ==> (#[trigger] rest[k]).0@ == incoming[n + k].0
                        && rest[k].1@ == incoming[n + k].1,
            decreases total - n,
        {
            let (key, value) = rest.remove(0);
            self.insert(key, value);
            n += 1;
        }
    }
}

impl Clone for LaCoNValue {
    fn clone(&self) -> (r: Self)
        ensures
            r@ == self@,
        decreases self,
    {
        match self {
            LaCoNValue::Int(i) => LaCoNValue::Int(*i),
            LaCoNValue::Float(n) => LaCoNValue::Float(n.clone()),
            LaCoNValue::Bool(b) => LaCoNValue::Bool(*b),
            LaCoNValue::Array(items) => {
                let copy = clone_items(items);
                assert(items_view(copy@) =~= items_view(items@));
                LaCoNValue::Array(copy)
            },
            LaCoNValue::Dictionary(d) => LaCoNValue::Dictionary(d.clone()),
            LaCoNValue::Length(n, u) => LaCoNValue::Length(n.clone(), *u),
            LaCoNValue::Angle(n, u) => LaCoNValue::Angle(n.clone(), *u),
            LaCoNValue::Time(n, u) => LaCoNValue::Time(n.clone(), *u),
            LaCoNValue::DataSize(n, u) => LaCoNValue::DataSize(n.clone(), *u),
            LaCoNValue::Frequency(n, u) => LaCoNValue::Frequency(n.clone(), *u),
            LaCoNValue::Percentage(n) => LaCoNValue::Percentage(n.clone()),
            LaCoNValue::Fraction(n) => LaCoNValue::Fraction(n.clone()),
            LaCoNValue::Auto => LaCoNValue::Auto,
            LaCoNValue::Nothing => LaCoNValue::Nothing,
            LaCoNValue::StringLiteral(s) => LaCoNValue::StringLiteral(s.clone()),
            LaCoNValue::String(s) => LaCoNValue::String(s.clone()),
        }
    }
}

/// A copy of each item, in order.
fn clone_items(items: &Vec<LaCoNValue>) -> (copy: Vec<LaCoNValue>)
    ensures
        copy.len() == items.len(),
        forall|k: int| 0 <= k < items.len() ==> (#[trigger] copy[k])@ == items[k]@,
    decreases items,
{
    let mut copy: Vec<LaCoNValue> = Vec::new();
    let mut i: usize = 0;
    while i < items.len()
        invariant
            i <= items.len(),
            copy.len() == i,
            forall|k: int| 0 <= k < i ==> (#[trigger] copy[k])@ == items[k]@,
        decreases items.len() - i,
    {
        proof {
            vstd::std_specs::vec::axiom_vec_index_decreases(*items, i as int);
        }
        copy.push(items[i].clone());
        i += 1;
    }
    copy
}

impl Clone for Dictionary {
    fn clone(&self) -> (r: Self)
        ensures
            r@ == self@,
        decreases self,
    {
        proof {
            use_type_invariant(self);
        }
        let mut entries: Vec<(String, LaCoNValue)> = Vec::new();
        let mut i: usize = 0;
        while i < self.entries.len()
            invariant
                i <= self.entries.len(),
                entries.len() == i,
                forall|k: int|
                    0 <= k < i ==> (#[trigger] entries[k]).0@ == self.entries[k].0@
                        && entries[k].1@ == self.entries[k].1@,
            decreases self.entries.len() - i,
        {
            proof {
                vstd::std_specs::vec::axiom_vec_index_decreases(self.entries, i as int);
            }
            entries.push((self.entries[i].0.clone(), self.entries[i].1.clone()));
            i += 1;
        }
        assert(entries_view(entries@) =~= self@);
        Dictionary { entries }
    }
}

} // verus!
