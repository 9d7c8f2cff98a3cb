//! Objects that hold a value without parts.

use crate::interpretator::object::{Object, ObjectRef, ObjectValue};
use crate::interpretator::prototype::PrototypeRef;
use vstd::prelude::*;

verus! {

/// The value of a nil object.
#[derive(Debug, Clone, Copy)]
pub struct NilValue;

impl ObjectValue for NilValue {
    open spec fn text(&self) -> Seq<char> {
        "nil"@
    }

    fn to_text(&self) -> (r: String) {
        "nil".to_owned()
    }
}

/// Makes nil objects.
pub struct Nil;

impl Nil {
    /// A nil object.
    pub fn new_instance(proto: PrototypeRef) -> (r: ObjectRef)
        ensures
            r.prototype == proto,
            r.properties@.len() == 0,
            r.value is Some,
    {
        Object::new(proto, Some(Box::new(NilValue)))
    }
}

/// The value of an undefined object.
#[derive(Debug, Clone, Copy)]
pub struct UndefinedValue;

impl ObjectValue for UndefinedValue {
    open spec fn text(&self) -> Seq<char> {
        "undefined"@
    }

    fn to_text(&self) -> (r: String) {
        "undefined".to_owned()
    }
}

/// Makes undefined objects.
pub struct Undefined;

impl Undefined {
    /// An undefined object.
    pub fn new_instance(proto: PrototypeRef) -> (r: ObjectRef)
        ensures
            r.prototype == proto,
            r.properties@.len() == 0,
            r.value is Some,
    {
        Object::new(proto, Some(Box::new(UndefinedValue)))
    }
}

/// The value of a none object.
#[derive(Debug, Clone, Copy)]
pub struct NoneValue;

impl ObjectValue for NoneValue {
    open spec fn text(&self) -> Seq<char> {
        "none"@
    }

    fn to_text(&self) -> (r: String) {
        "none".to_owned()
    }
}

/// Makes none objects.
pub struct NoneObject;

impl NoneObject {
    /// A none object.
    pub fn new_instance(proto: PrototypeRef) -> (r: ObjectRef)
        ensures
            r.prototype == proto,
            r.properties@.len() == 0,
            r.value is Some,
    {
        Object::new(proto, Some(Box::new(NoneValue)))
    }
}

/// The value of an auto object.
#[derive(Debug, Clone, Copy)]
pub struct AutoValue;

impl ObjectValue for AutoValue {
    open spec fn text(&self) -> Seq<char> {
        "auto"@
    }

    fn to_text(&self) -> (r: String) {
        "auto".to_owned()
    }
}

/// Makes auto objects.
pub struct Auto;

impl Auto {
    /// An auto object.
    pub fn new_instance(proto: PrototypeRef) -> (r: ObjectRef)
        ensures
            r.prototype == proto,
            r.properties@.len() == 0,
            r.value is Some,
    {
        Object::new(proto, Some(Box::new(AutoValue)))
    }
}

/// An operator.
#[derive(Debug, Clone, Copy, PartialEq, Eq)]
pub enum OperatorType {
    Add,
    Sub,
    Mul,
    Div,
    IDiv,
    Mod,
    Pow,
    Less,
    Greater,
    LessEq,
    GreaterEq,
    Equal,
}

impl OperatorType {
    /// The symbol of the operator.
    pub open spec fn symbol(&self) -> Seq<char> {
        match self {
            OperatorType::Add => "+"@,
            OperatorType::Sub => "-"@,
            OperatorType::Mul => "*"@,
            OperatorType::Div => "/"@,
            OperatorType::IDiv => "//"@,
            OperatorType::Mod => "%"@,
            OperatorType::Pow => "**"@,
            OperatorType::Less => "<"@,
            OperatorType::Greater => ">"@,
            OperatorType::LessEq => "<="@,
            OperatorType::GreaterEq => ">="@,
            OperatorType::Equal => "=="@,
        }
    }

    /// The symbol of the operator.
    pub fn as_str(&self) -> (r: &'static str)
        ensures
            r@ == self.symbol(),
    {
        match self {
            OperatorType::Add => "+",
            OperatorType::Sub => "-",
            OperatorType::Mul => "*",
            OperatorType::Div => "/",
            OperatorType::IDiv => "//",
            OperatorType::Mod => "%",
            OperatorType::Pow => "**",
            OperatorType::Less => "<",
            OperatorType::Greater => ">",
            OperatorType::LessEq => "<=",
            OperatorType::GreaterEq => ">=",
            OperatorType::Equal => "==",
        }
    }
}

/// The value of an operator object.
#[derive(Debug, Clone, Copy)]
pub struct OperatorValue {
    pub op_type: OperatorType,
}

impl ObjectValue for OperatorValue {
    open spec fn text(&self) -> Seq<char> {
        self.op_type.symbol()
    }

    fn to_text(&self) -> (r: String) {
        self.op_type.as_str().to_owned()
    }
}

/// Makes operator objects.
pub struct Operator;

impl Operator {
    /// An object that holds the operator.
    pub fn new_instance(proto: PrototypeRef, op_type: OperatorType) -> (r: ObjectRef)
        ensures
            r.prototype == proto,
            r.properties@.len() == 0,
            r.value is Some,
    {
        Object::new(proto, Some(Box::new(OperatorValue { op_type })))
    }
}

} // verus!
