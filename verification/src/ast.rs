//! The syntax tree of a document: its statements as they are written,
//! before any value is resolved.

use crate::value::LaCoNValue;
use vstd::prelude::*;

verus! {

/// A document: its statements in order.
#[derive(Debug, PartialEq)]
pub struct Document {
    pub statements: Vec<Node>,
}

/// A statement.
#[derive(Debug, PartialEq)]
pub enum Node {
    VariableDecl(VariableDecl),
    Command(Command),
    Block(Block),
    Property(Property),
}

/// The declaration of a variable.
#[derive(Debug, PartialEq)]
pub struct VariableDecl {
    pub name: String,
    pub value: Box<Node>,
}

/// The use of a variable.
#[derive(Debug, PartialEq, Eq)]
pub struct VariableRef {
    pub name: String,
}

/// A directive with its arguments.
#[derive(Debug, PartialEq)]
pub struct Command {
    pub name: String,
    pub args: Vec<LaCoNValue>,
}

/// A named group of statements.
#[derive(Debug, PartialEq)]
pub struct Block {
    pub name: String,
    pub attributes: Vec<Attribute>,
    pub body: Vec<Node>,
}

/// An attribute of a block.
#[derive(Debug, PartialEq)]
pub struct Attribute {
    pub target: String,
    pub params: Vec<Param>,
}

/// A named argument.
#[derive(Debug, PartialEq)]
pub struct Param {
    pub name: String,
    pub value: LaCoNValue,
}

/// A key with an optional value and arguments.
#[derive(Debug, PartialEq)]
pub struct Property {
    pub name: String,
    pub value: Option<LaCoNValue>,
    pub params: Vec<Param>,
}

} // verus!
