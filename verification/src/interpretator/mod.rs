//! A small object model: objects with properties, and prototypes that
//! objects and other prototypes inherit properties from.
//!
//! Objects and prototypes are shared by reference counting and do not
//! change once they are shared. A property is looked up in the object
//! itself, then in its prototype, then in the prototype's parent, and so on
//! up the chain.

pub mod collections;
pub mod object;
pub mod primitive;
pub mod prototype;
pub mod routine;

pub use collections::{
    Array, ArrayValue, Dictionary, DictionaryValue, MultilineString, MultilineStringValue,
};
pub use object::{IntegerValue, Object, ObjectRef, ObjectValue};
pub use primitive::{
    Auto, AutoValue, Nil, NilValue, NoneObject, NoneValue, Operator, OperatorType,
    OperatorValue, Undefined, UndefinedValue,
};
pub use prototype::{Prototype, PrototypeRef};
pub use routine::{
    Function, NativeFunction, NativeProcedure, Procedure, Routine, RoutineContent, RoutineValue,
};
