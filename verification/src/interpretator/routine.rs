//! Routines: functions, which give an object back, and procedures, which
//! give nothing back.

use crate::interpretator::object::{Object, ObjectRef, ObjectValue};
use crate::interpretator::prototype::PrototypeRef;
use crate::text::{append, to_chars, to_text};
use vstd::prelude::*;

verus! {

/// Code of the host that takes objects and gives one back.
pub trait NativeFunction {
    fn call(&self, args: Vec<ObjectRef>) -> ObjectRef;
}

/// Code of the host that takes objects and gives nothing back.
pub trait NativeProcedure {
    fn call(&self, args: Vec<ObjectRef>);
}

/// What a routine does when it is called.
pub enum RoutineContent {
    /// Code of the host that gives an object back.
    NativeFunction(Box<dyn NativeFunction>),
    /// Code of the host that gives nothing back.
    NativeProcedure(Box<dyn NativeProcedure>),
    /// A body written in the language.
    Defined(String),
}

impl RoutineContent {
    /// Whether the routine is code of the host.
    pub fn is_native(&self) -> (r: bool)
        ensures
            r == !(self is Defined),
    {
        match self {
            RoutineContent::Defined(_) => false,
            _ => true,
        }
    }

    /// The kind of content in words, with the body where there is one.
    pub fn to_text(&self) -> (r: String)
        ensures
            r@ == match self {
                RoutineContent::NativeFunction(_) => "NativeFunction"@,
                RoutineContent::NativeProcedure(_) => "NativeProcedure"@,
                RoutineContent::Defined(body) => "Defined("@ + body@ + ")"@,
            },
    {
        match self {
            RoutineContent::NativeFunction(_) => "NativeFunction".to_owned(),
            RoutineContent::NativeProcedure(_) => "NativeProcedure".to_owned(),
            RoutineContent::Defined(body) => {
                let mut text = to_chars("Defined(");
                append(&mut text, &to_chars(body.as_str()));
                append(&mut text, &to_chars(")"));
                to_text(&text)
            },
        }
    }
}

/// The value of a routine object.
pub struct RoutineValue {
    pub name: String,
    pub parameters: Vec<String>,
    pub content: RoutineContent,
}

/// What a list of names is to a specification.
pub open spec fn names_view(names: Seq<String>) -> Seq<Seq<char>> {
    Seq::new(names.len(), |i: int| names[i]@)
}

/// The first `n` names, each but the first preceded by a comma and a space.
pub open spec fn listed_first(names: Seq<Seq<char>>, n: int) -> Seq<char>
    decreases n,
{
    if n <= 0 || n > names.len() {
        Seq::empty()
    } else if n == 1 {
        names[0]
    } else {
        listed_first(names, n - 1) + ", "@ + names[n - 1]
    }
}

/// The signature of a routine in words.
pub open spec fn routine_text(native: bool, name: Seq<char>, parameters: Seq<Seq<char>>) -> Seq<
    char,
> {
    (if native {
        "<native routine "@
    } else {
        "<routine "@
    }) + name + "("@ + listed_first(parameters, parameters.len() as int) + ")>"@
}

impl ObjectValue for RoutineValue {
    open spec fn text(&self) -> Seq<char> {
        routine_text(!(self.content is Defined), self.name@, names_view(self.parameters@))
    }

    fn to_text(&self) -> (r: String) {
        let mut text = if self.content.is_native() {
            to_chars("<native routine ")
        } else {
            to_chars("<routine ")
        };
        append(&mut text, &to_chars(self.name.as_str()));
        append(&mut text, &to_chars("("));
        let ghost head = text@;
        let ghost names = names_view(self.parameters@);
        let mut k: usize = 0;
        while k < self.parameters.len()
            invariant
                k <= self.parameters.len(),
                names == names_view(self.parameters@),
                text@ == head + listed_first(names, k as int),
            decreases self.parameters.len() - k,
        {
            let ghost before = text@;
            if k > 0 {
                append(&mut text, &to_chars(", "));
            }
            append(&mut text, &to_chars(self.parameters[k].as_str()));
            proof {
                assert(names[k as int] == self.parameters@[k as int]@);
                if k == 0 {
                    assert(head + Seq::<char>::empty() + names[0] == head + names[0]);
                } else {
                    assert(head + listed_first(names, k as int) + ", "@ + names[k as int] == head
                        + (listed_first(names, k as int) + ", "@ + names[k as int]));
                }
            }
            k += 1;
        }
        append(&mut text, &to_chars(")>"));
        to_text(&text)
    }
}

/// Makes routine objects.
pub struct Routine;

impl Routine {
    /// An object that holds the routine.
    pub fn new_instance(
        proto: PrototypeRef,
        name: String,
        parameters: Vec<String>,
        content: RoutineContent,
    ) -> (r: ObjectRef)
        ensures
            r.prototype == proto,
            r.properties@.len() == 0,
            r.value is Some,
    {
        Object::new(proto, Some(Box::new(RoutineValue { name, parameters, content })))
    }
}

/// Makes function objects.
pub struct Function;

impl Function {
    /// An object that holds a function of the host.
    pub fn new_instance(
        proto: PrototypeRef,
        name: String,
        parameters: Vec<String>,
        func: Box<dyn NativeFunction>,
    ) -> (r: ObjectRef)
        ensures
            r.prototype == proto,
            r.properties@.len() == 0,
            r.value is Some,
    {
        Routine::new_instance(proto, name, parameters, RoutineContent::NativeFunction(func))
    }
}

/// Makes procedure objects.
pub struct Procedure;

impl Procedure {
    /// An object that holds a procedure of the host.
    pub fn new_instance(
        proto: PrototypeRef,
        name: String,
        parameters: Vec<String>,
        proc: Box<dyn NativeProcedure>,
    ) -> (r: ObjectRef)
        ensures
            r.prototype == proto,
            r.properties@.len() == 0,
            r.value is Some,
    {
        Routine::new_instance(proto, name, parameters, RoutineContent::NativeProcedure(proc))
    }
}

} // verus!
